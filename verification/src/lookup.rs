//! What it means to follow a dotted path through a document.

use vstd::prelude::*;
use crate::error::QueryErrorView;
use crate::node::Node;

verus! {

/// A path as contracts see it: its keys, in order.
pub type Keys = Seq<Seq<char>>;

/// The keys of a path given as string slices.
pub open spec fn keys_of(path: Seq<&str>) -> Keys {
    Seq::new(path.len(), |i: int| path[i]@)
}

/// Goes on from `node`, which the key at index `at` of a path led to, along
/// the keys `rest` that come after it.
///
/// With no key left the node is the answer.  Otherwise the node has to be a
/// table that has the next key: where it is a table without that key the
/// lookup is `Vacant` at the index of the missing key, and where it is no
/// table the lookup is `Conflict` at the index of the key that led to it.
pub open spec fn resolve_from(node: Node, rest: Keys, at: nat) -> Result<Node, QueryErrorView>
    decreases rest.len(),
{
    if rest.len() == 0 {
        Ok(node)
    } else {
        match node {
            Node::Table(entries) => {
                if entries.contains_key(rest[0]) {
                    resolve_from(entries[rest[0]], rest.drop_first(), at + 1)
                } else {
                    Err(QueryErrorView::Vacant { depth: at + 1 })
                }
            },
            _ => Err(QueryErrorView::Conflict { depth: at, kind: node.kind_name() }),
        }
    }
}

/// Follows `path` from the root table of a document.  A root without the
/// first key is `Vacant` at index 0.
pub open spec fn resolve_root(root: Map<Seq<char>, Node>, path: Keys) -> Result<
    Node,
    QueryErrorView,
> {
    if path.len() == 0 {
        Ok(Node::Table(root))
    } else if root.contains_key(path[0]) {
        resolve_from(root[path[0]], path.drop_first(), 0)
    } else {
        Err(QueryErrorView::Vacant { depth: 0 })
    }
}

/// The node that the whole of `path` leads to from `node`, where every step
/// is taken from a table that has the key.
pub open spec fn reach(node: Node, path: Keys) -> Option<Node>
    decreases path.len(),
{
    if path.len() == 0 {
        Some(node)
    } else {
        match reach(node, path.drop_last()) {
            Some(Node::Table(entries)) => {
                if entries.contains_key(path.last()) {
                    Some(entries[path.last()])
                } else {
                    None
                }
            },
            _ => None,
        }
    }
}

/// One step from the front: reaching along `path` is stepping through the
/// first key and reaching along the rest.
proof fn lemma_reach_front(node: Node, path: Keys)
    requires
        path.len() > 0,
    ensures
        reach(node, path) == match node {
            Node::Table(entries) => {
                if entries.contains_key(path[0]) {
                    reach(entries[path[0]], path.drop_first())
                } else {
                    None
                }
            },
            _ => None,
        },
    decreases path.len(),
{
    if path.len() == 1 {
        assert(path.drop_last().len() == 0);
        assert(path.drop_first().len() == 0);
        assert(path.last() == path[0]);
    } else {
        let front = path.drop_last();
        lemma_reach_front(node, front);
        assert(front[0] == path[0]);
        assert(front.drop_first() == path.drop_first().drop_last());
        assert(path.drop_first().last() == path.last());
    }
}

/// Where `resolve_from` stops, in terms of `reach`.
proof fn lemma_resolve_reach(node: Node, rest: Keys, at: nat)
    ensures
        match resolve_from(node, rest, at) {
            Ok(found) => reach(node, rest) == Some(found),
            Err(QueryErrorView::Vacant { depth: d }) => {
                &&& at < d <= at + rest.len()
                &&& reach(node, rest.take(d - at - 1)) matches Some(Node::Table(entries))
                &&& !entries.contains_key(rest[d - at - 1])
            },
            Err(QueryErrorView::Conflict { depth: d, kind }) => {
                &&& at <= d < at + rest.len()
                &&& reach(node, rest.take(d - at)) matches Some(stuck)
                &&& !(stuck is Table)
                &&& kind == stuck.kind_name()
            },
        },
    decreases rest.len(),
{
    if rest.len() == 0 {
    } else {
        match node {
            Node::Table(entries) => {
                if entries.contains_key(rest[0]) {
                    let after = rest.drop_first();
                    lemma_resolve_reach(entries[rest[0]], after, at + 1);
                    match resolve_from(node, rest, at) {
                        Ok(found) => {
                            lemma_reach_front(node, rest);
                        },
                        Err(QueryErrorView::Vacant { depth: d }) => {
                            let n = d - at - 1;
                            lemma_reach_front(node, rest.take(n));
                            assert(rest.take(n).drop_first() == after.take(n - 1));
                            assert(rest.take(n)[0] == rest[0]);
                        },
                        Err(QueryErrorView::Conflict { depth: d, kind }) => {
                            let n = d - at;
                            lemma_reach_front(node, rest.take(n));
                            assert(rest.take(n).drop_first() == after.take(n - 1));
                            assert(rest.take(n)[0] == rest[0]);
                        },
                    }
                } else {
                    assert(rest.take(0).len() == 0);
                }
            },
            _ => {
                assert(rest.take(0).len() == 0);
            },
        }
    }
}

/// Where `resolve_root` stops, in terms of `reach` from the root.
proof fn lemma_root_reach(root: Map<Seq<char>, Node>, path: Keys)
    ensures
        match resolve_root(root, path) {
            Ok(found) => reach(Node::Table(root), path) == Some(found),
            Err(QueryErrorView::Vacant { depth: d }) => {
                &&& d < path.len()
                &&& reach(Node::Table(root), path.take(d as int)) matches Some(
                    Node::Table(entries),
                )
                &&& !entries.contains_key(path[d as int])
            },
            Err(QueryErrorView::Conflict { depth: d, kind }) => {
                &&& d + 1 < path.len()
                &&& reach(Node::Table(root), path.take(d as int + 1)) matches Some(stuck)
                &&& !(stuck is Table)
                &&& kind == stuck.kind_name()
            },
        },
{
    let top = Node::Table(root);
    if path.len() == 0 {
    } else if root.contains_key(path[0]) {
        let first = root[path[0]];
        let rest = path.drop_first();
        lemma_resolve_reach(first, rest, 0);
        match resolve_root(root, path) {
            Ok(found) => {
                lemma_reach_front(top, path);
            },
            Err(QueryErrorView::Vacant { depth: d }) => {
                let n = d as int;
                lemma_reach_front(top, path.take(n));
                assert(path.take(n).drop_first() == rest.take(n - 1));
                assert(path.take(n)[0] == path[0]);
            },
            Err(QueryErrorView::Conflict { depth: d, kind }) => {
                let n = d as int + 1;
                lemma_reach_front(top, path.take(n));
                assert(path.take(n).drop_first() == rest.take(n - 1));
                assert(path.take(n)[0] == path[0]);
            },
        }
    } else {
        assert(path.take(0).len() == 0);
    }
}

/// Reaching along a prefix of a path that can be followed to its end.
proof fn lemma_reach_prefix(node: Node, path: Keys, n: int)
    requires
        0 <= n <= path.len(),
        reach(node, path) is Some,
    ensures
        reach(node, path.take(n)) is Some,
    decreases path.len(),
{
    if n == path.len() {
        assert(path.take(n) == path);
    } else {
        assert(path.drop_last().take(n) == path.take(n));
        lemma_reach_prefix(node, path.drop_last(), n);
    }
}

/// One more key than a failed lookup resolved cannot be followed, and every
/// prefix up to there can.
proof fn lemma_failure_is_longest(root: Map<Seq<char>, Node>, path: Keys, n: int)
    requires
        resolve_root(root, path) is Err,
        0 <= n <= path.len(),
    ensures
        reach(Node::Table(root), path.take(n)) is Some <==> n <= resolve_root(
            root,
            path,
        )->Err_0.resolved(),
{
    let top = Node::Table(root);
    let r = resolve_root(root, path)->Err_0.resolved() as int;
    lemma_root_reach(root, path);
    assert(reach(top, path.take(r)) is Some);
    assert(path.take(r + 1).drop_last() == path.take(r));
    assert(path.take(r + 1).last() == path[r]);
    assert(reach(top, path.take(r + 1)) is None);
    if n <= r {
        lemma_reach_prefix(top, path.take(r), n);
        assert(path.take(r).take(n) == path.take(n));
    } else if reach(top, path.take(n)) is Some {
        lemma_reach_prefix(top, path.take(n), r + 1);
        assert(path.take(n).take(r + 1) == path.take(r + 1));
    }
}

/// Path lookup reports how far a path can be followed and what stopped it.
///
/// The lookup succeeds with a node exactly when the whole path leads to that
/// node.  It is `Vacant` at `depth` exactly when the keys before index
/// `depth` lead to a table that lacks the key at that index.  It is
/// `Conflict` at `depth` with some kind exactly when the keys up to and with
/// index `depth` lead to a node of that kind that is no table, while keys
/// remain.  Whenever it fails, the number of keys it resolved is the length
/// of the longest prefix of the path that can be followed.
pub proof fn lemma_lookup_depth(root: Map<Seq<char>, Node>, path: Keys, depth: nat, kind: Seq<char>)
    ensures
        forall|found: Node|
            resolve_root(root, path) == Ok::<Node, QueryErrorView>(found) <==> reach(
                Node::Table(root),
                path,
            ) == Some(found),
        resolve_root(root, path) == Err::<Node, QueryErrorView>(QueryErrorView::Vacant { depth })
            <==> {
            &&& depth < path.len()
            &&& reach(Node::Table(root), path.take(depth as int)) matches Some(
                Node::Table(entries),
            )
            &&& !entries.contains_key(path[depth as int])
        },
        resolve_root(root, path) == Err::<Node, QueryErrorView>(
            QueryErrorView::Conflict { depth, kind },
        ) <==> {
            &&& depth + 1 < path.len()
            &&& reach(Node::Table(root), path.take(depth as int + 1)) matches Some(stuck)
            &&& !(stuck is Table)
            &&& kind == stuck.kind_name()
        },
        resolve_root(root, path) matches Err(e) ==> e.resolved() < path.len() && forall|n: int|
            0 <= n <= path.len() ==> (#[trigger] reach(Node::Table(root), path.take(n)) is Some
                <==> n <= e.resolved()),
{
    let top = Node::Table(root);
    let d = depth as int;
    lemma_root_reach(root, path);
    match resolve_root(root, path) {
        Ok(found) => {
            if d < path.len() {
                lemma_reach_prefix(top, path, d + 1);
                assert(path.take(d + 1).drop_last() == path.take(d));
                assert(path.take(d + 1).last() == path[d]);
            }
            if d + 1 < path.len() {
                lemma_reach_prefix(top, path, d + 2);
                assert(path.take(d + 2).drop_last() == path.take(d + 1));
                assert(path.take(d + 2).last() == path[d + 1]);
            }
        },
        Err(e) => {
            assert forall|n: int| 0 <= n <= path.len() implies (#[trigger] reach(
                top,
                path.take(n),
            ) is Some <==> n <= e.resolved()) by {
                lemma_failure_is_longest(root, path, n);
            }
            lemma_failure_is_longest(root, path, path.len() as int);
            assert(path.take(path.len() as int) == path);
            if d < path.len() {
                lemma_failure_is_longest(root, path, d);
                lemma_failure_is_longest(root, path, d + 1);
                assert(path.take(d + 1).drop_last() == path.take(d));
                assert(path.take(d + 1).last() == path[d]);
            }
            if d + 1 < path.len() {
                lemma_failure_is_longest(root, path, d + 2);
                assert(path.take(d + 2).drop_last() == path.take(d + 1));
                assert(path.take(d + 2).last() == path[d + 1]);
            }
        },
    }
}

impl QueryErrorView {
    /// The number of keys that a lookup resolved before it failed like this:
    /// the index of the missing key, or one more than the index of the key
    /// that led to a node in the way.
    pub open spec fn resolved(self) -> nat {
        match self {
            QueryErrorView::Vacant { depth } => depth,
            QueryErrorView::Conflict { depth, .. } => depth + 1,
        }
    }
}

} // verus!
