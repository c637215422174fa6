//! The tree that a document stands for.

use vstd::prelude::*;

verus! {

/// A node of a document, as contracts see it.
///
/// Strings and booleans carry their value, since queries read it.  Integers,
/// floats and datetimes are only ever told apart by kind.  An array is the
/// sequence of its elements; a table maps each key to the node stored under it.
pub enum Node {
    String(Seq<char>),
    Integer,
    Float,
    Boolean(bool),
    Datetime,
    Array(Seq<Node>),
    Table(Map<Seq<char>, Node>),
}

impl Node {
    /// The name by which errors report the kind of this node.
    pub open spec fn kind_name(self) -> Seq<char> {
        match self {
            Node::String(_) => "string"@,
            Node::Integer => "integer"@,
            Node::Float => "float"@,
            Node::Boolean(_) => "boolean"@,
            Node::Datetime => "datetime"@,
            Node::Array(_) => "array"@,
            Node::Table(_) => "table"@,
        }
    }

    /// The name by which errors report an array whose first element is this
    /// node.
    pub open spec fn array_kind_name(self) -> Seq<char> {
        match self {
            Node::String(_) => "array of strings"@,
            Node::Integer => "array of integers"@,
            Node::Float => "array of floats"@,
            Node::Boolean(_) => "array of booleans"@,
            Node::Datetime => "array of datetimes"@,
            Node::Array(_) => "array of arrays"@,
            Node::Table(_) => "array of tables"@,
        }
    }
}

/// The node stored under `key` in `table`, if there is one.
pub open spec fn child(table: Map<Seq<char>, Node>, key: Seq<char>) -> Option<Node> {
    if table.contains_key(key) {
        Some(table[key])
    } else {
        None
    }
}

/// The entries of a table in some order of walking it.
pub type Listing = Seq<(Seq<char>, Node)>;

/// Whether `listing` is a walk over the table `table`: every key it names is
/// a key of the table, and every key of the table occurs in it together with
/// the node stored under that key.
pub open spec fn lists(listing: Listing, table: Map<Seq<char>, Node>) -> bool {
    &&& forall|i: int|
        0 <= i < listing.len() ==> table.contains_key(#[trigger] listing[i].0)
    &&& forall|k: Seq<char>|
        table.contains_key(k) ==> listing.contains((k, #[trigger] table[k]))
}

} // verus!
