//! A manifest and the paths that can be asked of it.

use vstd::prelude::*;
use crate::containment::Contained;
use crate::document::{
    array_entries, document_get, document_map, entry_kind, entry_nodes, entry_of, optional_node,
    table_get, Entry,
};
use crate::error::{QueryError, QueryErrorView};
use crate::lookup::{keys_of, resolve_from, resolve_root};
use crate::node::{child, Node};
use toml_document::Document;

verus! {

/// A manifest: the owner of one parsed document.
pub struct Manifest {
    doc: Document,
}

impl View for Manifest {
    type V = Map<Seq<char>, Node>;

    /// The root table of the document.
    closed spec fn view(&self) -> Map<Seq<char>, Node> {
        document_map(self.doc)
    }
}

/// What a lookup found, as contracts see it.
pub open spec fn lookup_view(found: Result<Entry, QueryError>) -> Result<Node, QueryErrorView> {
    match found {
        Ok(entry) => Ok(entry.node()),
        Err(error) => Err(error@),
    }
}

/// The texts of a list of string slices.
pub open spec fn texts(strings: Seq<&str>) -> Seq<Seq<char>> {
    Seq::new(strings.len(), |i: int| strings[i]@)
}

/// What a query for a string found, as contracts see it.
pub open spec fn string_view(found: Result<&str, QueryError>) -> Result<Seq<char>, QueryErrorView> {
    match found {
        Ok(text) => Ok(text@),
        Err(error) => Err(error@),
    }
}

/// What a query for an array of strings found, as contracts see it.
pub open spec fn strings_view(found: Result<Vec<&str>, QueryError>) -> Result<
    Seq<Seq<char>>,
    QueryErrorView,
> {
    match found {
        Ok(strings) => Ok(texts(strings@)),
        Err(error) => Err(error@),
    }
}

/// The string at the end of a path of `length` keys whose lookup gave
/// `found`: anything but a string there is a conflict at the length of the
/// path.
pub open spec fn string_at(found: Result<Node, QueryErrorView>, length: nat) -> Result<
    Seq<char>,
    QueryErrorView,
> {
    match found {
        Ok(Node::String(text)) => Ok(text),
        Ok(other) => Err(QueryErrorView::Conflict { depth: length, kind: other.kind_name() }),
        Err(error) => Err(error),
    }
}

/// Whether every node of `items` is a string.
pub open spec fn all_strings(items: Seq<Node>) -> bool {
    forall|i: int| 0 <= i < items.len() ==> #[trigger] items[i] is String
}

/// The texts of the strings among `items`, position by position.
pub open spec fn string_texts(items: Seq<Node>) -> Seq<Seq<char>> {
    Seq::new(items.len(), |i: int| items[i]->String_0)
}

/// Whether an array found by a lookup keeps to the kind of its first
/// element as far as strings go: one that begins with a string holds nothing
/// but strings.  Documents that come from a parser are so throughout.
pub open spec fn strings_throughout(found: Result<Node, QueryErrorView>) -> bool {
    match found {
        Ok(Node::Array(items)) => items.len() > 0 && items[0] is String ==> all_strings(items),
        _ => true,
    }
}

/// The strings of the array at the end of a path of `length` keys whose
/// lookup gave `found`.  An empty array holds no strings; an array is judged
/// by its first element, and anything but an array of strings is a conflict
/// at the length of the path.
pub open spec fn strings_at(found: Result<Node, QueryErrorView>, length: nat) -> Result<
    Seq<Seq<char>>,
    QueryErrorView,
> {
    match found {
        Ok(Node::Array(items)) => {
            if items.len() == 0 {
                Ok(Seq::empty())
            } else if items[0] is String {
                Ok(string_texts(items))
            } else {
                Err(QueryErrorView::Conflict { depth: length, kind: items[0].kind_name() })
            }
        },
        Ok(other) => Err(QueryErrorView::Conflict { depth: length, kind: other.kind_name() }),
        Err(error) => Err(error),
    }
}

/// The strings that a list of entries consists of, if they are all strings.
pub fn string_values<'a>(entries: &Vec<Entry<'a>>) -> (r: Contained<Vec<&'a str>>)
    ensures
        match r {
            Contained::Completed(strings) => all_strings(entry_nodes(entries@)) && texts(strings@)
                == string_texts(entry_nodes(entries@)),
            Contained::Failed => !all_strings(entry_nodes(entries@)),
        },
{
    let mut strings: Vec<&'a str> = Vec::new();
    let mut i: usize = 0;
    while i < entries.len()
        invariant
            0 <= i <= entries.len(),
            strings.len() == i,
            forall|j: int| 0 <= j < i ==> #[trigger] entry_nodes(entries@)[j] is String,
            forall|j: int|
                0 <= j < i ==> (#[trigger] strings@[j])@ == entry_nodes(entries@)[j]->String_0,
        decreases entries.len() - i,
    {
        match entries[i] {
            Entry::String(text) => {
                strings.push(text);
            },
            _ => {
                assert(!(entry_nodes(entries@)[i as int] is String));
                return Contained::Failed;
            },
        }
        i += 1;
    }
    assert(texts(strings@) =~= string_texts(entry_nodes(entries@)));
    Contained::Completed(strings)
}

impl Manifest {
    /// Takes charge of a parsed document.
    pub fn new(doc: Document) -> (manifest: Manifest)
        ensures
            manifest@ == document_map(doc),
    {
        Manifest { doc: doc }
    }

    /// The entry under `key` in the root table, if there is one.
    pub fn get<'a>(&'a self, key: &str) -> (entry: Option<Entry<'a>>)
        ensures
            optional_node(entry) == child(self@, key@),
    {
        match document_get(&self.doc, key) {
            Some(found) => Some(entry_of(found)),
            None => None,
        }
    }

    /// Follows `path` from the root of the document, one table per key.
    ///
    /// The answer is the entry that the whole path leads to.  The lookup is
    /// `Vacant` at the index of the first key that the table reached does not
    /// have, and `Conflict` at the index of the first key that leads to a
    /// node that is no table while keys remain.
    pub fn lookup<'a>(&'a self, path: &'a [&'a str]) -> (found: Result<Entry<'a>, QueryError>)
        requires
            path@.len() > 0,
        ensures
            lookup_view(found) == resolve_root(self@, keys_of(path@)),
    {
        let ghost keys = keys_of(path@);
        let mut current = match document_get(&self.doc, path[0]) {
            Some(entry) => entry_of(entry),
            None => {
                return Err(QueryError::Vacant { depth: 0 });
            },
        };
        let mut at: usize = 0;
        assert(keys.skip(1) == keys.drop_first());
        while at + 1 < path.len()
            invariant
                0 <= at < path.len(),
                keys == keys_of(path@),
                resolve_root(self@, keys) == resolve_from(
                    current.node(),
                    keys.skip(at + 1),
                    at as nat,
                ),
            decreases path.len() - at,
        {
            let ghost rest = keys.skip(at + 1);
            assert(rest[0] == path@[at + 1]@);
            assert(rest.drop_first() == keys.skip(at + 2));
            match current {
                Entry::Table(table) => {
                    match table_get(table, path[at + 1]) {
                        Some(entry) => {
                            current = entry_of(entry);
                        },
                        None => {
                            return Err(QueryError::Vacant { depth: at + 1 });
                        },
                    }
                },
                _ => {
                    return Err(QueryError::Conflict { depth: at, kind: entry_kind(current) });
                },
            }
            at += 1;
        }
        assert(keys.skip(at + 1).len() == 0);
        Ok(current)
    }

    /// The string at `path`.
    ///
    /// Where the path leads to anything but a string, that is a conflict at
    /// the length of the path, named after the kind found.
    pub fn get_string<'a>(&'a self, path: &'a [&'a str]) -> (found: Result<&'a str, QueryError>)
        requires
            path@.len() > 0,
        ensures
            string_view(found) == string_at(resolve_root(self@, keys_of(path@)), path@.len()),
    {
        match self.lookup(path) {
            Ok(Entry::String(text)) => Ok(text),
            Ok(entry) => Err(QueryError::Conflict { depth: path.len(), kind: entry_kind(entry) }),
            Err(error) => Err(error),
        }
    }

    /// The strings of the array at `path`, for any path and any document.
    ///
    /// The answer is that of [`Manifest::get_string_array`] wherever that
    /// function may be called.  On an empty path, and on an array that begins
    /// with a string and goes on with something else, the operation fails
    /// within.
    pub fn contained_get_string_array<'a>(&'a self, path: &'a [&'a str]) -> (r: Contained<
        Result<Vec<&'a str>, QueryError>,
    >)
        ensures
            r is Failed <==> path@.len() == 0 || !strings_throughout(
                resolve_root(self@, keys_of(path@)),
            ),
            r matches Contained::Completed(found) ==> strings_view(found) == strings_at(
                resolve_root(self@, keys_of(path@)),
                path@.len(),
            ),
    {
        if path.len() == 0 {
            return Contained::Failed;
        }
        match self.lookup(path) {
            Ok(Entry::Array(array)) => {
                let entries = array_entries(array);
                if entries.len() == 0 {
                    let none: Vec<&'a str> = Vec::new();
                    assert(texts(none@) =~= Seq::<Seq<char>>::empty());
                    return Contained::Completed(Ok(none));
                }
                match entries[0] {
                    Entry::String(_) => match string_values(&entries) {
                        Contained::Completed(strings) => Contained::Completed(Ok(strings)),
                        Contained::Failed => Contained::Failed,
                    },
                    first => Contained::Completed(
                        Err(QueryError::Conflict { depth: path.len(), kind: entry_kind(first) }),
                    ),
                }
            },
            Ok(entry) => Contained::Completed(
                Err(QueryError::Conflict { depth: path.len(), kind: entry_kind(entry) }),
            ),
            Err(error) => Contained::Completed(Err(error)),
        }
    }

    /// The strings of the array at `path`.
    ///
    /// An empty array gives no strings.  Any other array is judged by its
    /// first element: where that is no string, and where the path leads to
    /// anything but an array, that is a conflict at the length of the path,
    /// named after the kind found.
    pub fn get_string_array<'a>(&'a self, path: &'a [&'a str]) -> (found: Result<
        Vec<&'a str>,
        QueryError,
    >)
        requires
            path@.len() > 0,
            strings_throughout(resolve_root(self@, keys_of(path@))),
        ensures
            strings_view(found) == strings_at(resolve_root(self@, keys_of(path@)), path@.len()),
    {
        match self.contained_get_string_array(path) {
            Contained::Completed(found) => found,
            Contained::Failed => unreached(),
        }
    }

    /// The entry at `path`, for any path: on an empty path the operation
    /// fails within, on any other the answer is that of [`Manifest::lookup`].
    pub fn contained_lookup<'a>(&'a self, path: &'a [&'a str]) -> (r: Contained<
        Result<Entry<'a>, QueryError>,
    >)
        ensures
            r is Failed <==> path@.len() == 0,
            r matches Contained::Completed(found) ==> lookup_view(found) == resolve_root(
                self@,
                keys_of(path@),
            ),
    {
        if path.len() == 0 {
            Contained::Failed
        } else {
            Contained::Completed(self.lookup(path))
        }
    }

    /// The string at `path`, for any path: on an empty path the operation
    /// fails within, on any other the answer is that of
    /// [`Manifest::get_string`].
    pub fn contained_get_string<'a>(&'a self, path: &'a [&'a str]) -> (r: Contained<
        Result<&'a str, QueryError>,
    >)
        ensures
            r is Failed <==> path@.len() == 0,
            r matches Contained::Completed(found) ==> string_view(found) == string_at(
                resolve_root(self@, keys_of(path@)),
                path@.len(),
            ),
    {
        if path.len() == 0 {
            Contained::Failed
        } else {
            Contained::Completed(self.get_string(path))
        }
    }
}

} // verus!
