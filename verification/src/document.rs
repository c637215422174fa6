//! The parsed document and the few operations that queries make on it.
//!
//! The document comes from `toml_document`.  Its types are opaque here; the
//! functions below name what each of them holds as a [`Node`] tree and state,
//! without proof, what the accessors of `toml_document` return in those terms.

use vstd::prelude::*;
use crate::node::{child, lists, Listing, Node};
use toml_document::{ArrayEntry, Document, EntryRef, TableEntry};

verus! {

/// `toml_document::Document`: a whole parsed document.
#[verifier::external_type_specification]
#[verifier::external_body]
pub struct ExDocument(toml_document::Document);

/// `toml_document::EntryRef`: a reference to one entry of a document.
#[verifier::external_type_specification]
#[verifier::external_body]
pub struct ExEntryRef<'a>(toml_document::EntryRef<'a>);

/// `toml_document::TableEntry`: a reference to a table of a document.
#[verifier::external_type_specification]
#[verifier::external_body]
pub struct ExTableEntry<'a>(toml_document::TableEntry<'a>);

/// `toml_document::ArrayEntry`: a reference to an array of a document.
#[verifier::external_type_specification]
#[verifier::external_body]
pub struct ExArrayEntry<'a>(toml_document::ArrayEntry<'a>);

/// The root table of a document: the node that `Document::get` finds under
/// each key.
pub uninterp spec fn document_map(doc: Document) -> Map<Seq<char>, Node>;

/// The node that an entry of `toml_document` refers to.
pub uninterp spec fn entry_node(entry: EntryRef) -> Node;

/// The node that `TableEntry::get` finds under each key of a table.
pub uninterp spec fn table_map(table: TableEntry) -> Map<Seq<char>, Node>;

/// The elements of an array, in the order of their indices.
pub uninterp spec fn array_items(array: ArrayEntry) -> Seq<Node>;

/// An entry of the document, taken apart as far as queries read it.
#[derive(Clone, Copy)]
pub enum Entry<'a> {
    String(&'a str),
    Integer,
    Float,
    Boolean(bool),
    Datetime,
    Array(ArrayEntry<'a>),
    Table(TableEntry<'a>),
}

impl<'a> Entry<'a> {
    /// The node that this entry stands for.
    pub open spec fn node(self) -> Node {
        match self {
            Entry::String(s) => Node::String(s@),
            Entry::Integer => Node::Integer,
            Entry::Float => Node::Float,
            Entry::Boolean(b) => Node::Boolean(b),
            Entry::Datetime => Node::Datetime,
            Entry::Array(a) => Node::Array(array_items(a)),
            Entry::Table(t) => Node::Table(table_map(t)),
        }
    }
}

/// The nodes that an optional entry stands for.
pub open spec fn optional_node(entry: Option<Entry>) -> Option<Node> {
    match entry {
        Some(e) => Some(e.node()),
        None => None,
    }
}

/// What a walk over a table yielded, read as keys and nodes.
pub open spec fn listing_view(items: Seq<(&str, EntryRef)>) -> Listing {
    Seq::new(items.len(), |i: int| (items[i].0@, entry_node(items[i].1)))
}

/// `Document::get`: the entry under `key` in the root table, if there is one.
/// Trusted: the result is `Some` exactly for the keys of `document_map`, and
/// then refers to the node stored there.
#[verifier::external_body]
pub(crate) fn document_get<'a>(doc: &'a Document, key: &str) -> (r: Option<EntryRef<'a>>)
    ensures
        r is Some <==> document_map(*doc).contains_key(key@),
        r matches Some(e) ==> entry_node(e) == document_map(*doc)[key@],
{
    doc.get(key)
}

/// `TableEntry::get`: the entry under `key` in a table, if there is one.
/// Trusted: the result is `Some` exactly for the keys of `table_map`, and
/// then refers to the node stored there.
#[verifier::external_body]
pub(crate) fn table_get<'a>(table: TableEntry<'a>, key: &'a str) -> (r: Option<EntryRef<'a>>)
    ensures
        r is Some <==> table_map(table).contains_key(key@),
        r matches Some(e) ==> entry_node(e) == table_map(table)[key@],
{
    table.get(key)
}

/// `TableEntry::iter`, collected: the entries of a table in the order in
/// which its hash maps are walked, which no contract can name.  Trusted: the
/// result only names keys that `TableEntry::get` finds, and holds for each
/// such key the entry that `TableEntry::get` returns for it.  Nothing is
/// claimed about how often a key occurs: a table that holds a value and a
/// section under one key lists that key twice.
#[verifier::external_body]
pub(crate) fn table_entries<'a>(table: TableEntry<'a>) -> (r: Vec<(&'a str, EntryRef<'a>)>)
    ensures
        lists(listing_view(r@), table_map(table)),
{
    table.iter().collect()
}

/// `ArrayEntry::len`.  Trusted: the number of elements of the array.
#[verifier::external_body]
pub(crate) fn array_len<'a>(array: ArrayEntry<'a>) -> (r: usize)
    ensures
        r == array_items(array).len(),
{
    array.len()
}

/// `ArrayEntry::get`, which panics on an index out of range.  Trusted: the
/// result refers to the element at `idx`.
#[verifier::external_body]
pub(crate) fn array_get<'a>(array: ArrayEntry<'a>, idx: usize) -> (r: EntryRef<'a>)
    requires
        idx < array_items(array).len(),
    ensures
        entry_node(r) == array_items(array)[idx as int],
{
    array.get(idx)
}

/// Tells the variants of `EntryRef` apart, reading a string through
/// `StringValue::get` and a boolean through `BoolValue::get`.  Trusted: the
/// result stands for the node that the entry refers to.
#[verifier::external_body]
pub(crate) fn entry_of<'a>(entry: EntryRef<'a>) -> (r: Entry<'a>)
    ensures
        r.node() == entry_node(entry),
{
    match entry {
        EntryRef::String(value) => Entry::String(value.get()),
        EntryRef::Integer(_) => Entry::Integer,
        EntryRef::Float(_) => Entry::Float,
        EntryRef::Boolean(value) => Entry::Boolean(value.get()),
        EntryRef::Datetime(_) => Entry::Datetime,
        EntryRef::Array(array) => Entry::Array(array),
        EntryRef::Table(table) => Entry::Table(table),
    }
}

/// The entry under `key` in a table, if there is one.
pub fn table_entry<'a>(table: TableEntry<'a>, key: &'a str) -> (entry: Option<Entry<'a>>)
    ensures
        optional_node(entry) == child(table_map(table), key@),
{
    match table_get(table, key) {
        Some(found) => Some(entry_of(found)),
        None => None,
    }
}

/// A walk over a table, read as keys and nodes.
pub open spec fn walk_view(entries: Seq<(&str, Entry)>) -> Listing {
    Seq::new(entries.len(), |i: int| (entries[i].0@, entries[i].1.node()))
}

/// The entries of a table, each under its key, in the order in which the
/// table is walked.  The document does not fix that order, and two walks
/// over one table need not agree.
pub fn table_listing<'a>(table: TableEntry<'a>) -> (entries: Vec<(&'a str, Entry<'a>)>)
    ensures
        lists(walk_view(entries@), table_map(table)),
{
    let found = table_entries(table);
    let mut entries: Vec<(&'a str, Entry<'a>)> = Vec::new();
    let mut i: usize = 0;
    while i < found.len()
        invariant
            0 <= i <= found.len(),
            entries.len() == i,
            forall|j: int|
                0 <= j < i ==> (#[trigger] entries@[j]).0@ == found@[j].0@ && entries@[j].1.node()
                    == entry_node(found@[j].1),
        decreases found.len() - i,
    {
        let (key, value) = found[i];
        entries.push((key, entry_of(value)));
        i += 1;
    }
    assert(walk_view(entries@) =~= listing_view(found@));
    entries
}

/// The nodes that a list of entries stands for, in order.
pub open spec fn entry_nodes(entries: Seq<Entry>) -> Seq<Node> {
    Seq::new(entries.len(), |i: int| entries[i].node())
}

/// The elements of an array, in the order of their indices.
pub fn array_entries<'a>(array: ArrayEntry<'a>) -> (entries: Vec<Entry<'a>>)
    ensures
        entry_nodes(entries@) == array_items(array),
{
    let count = array_len(array);
    let mut entries: Vec<Entry<'a>> = Vec::new();
    let mut i: usize = 0;
    while i < count
        invariant
            0 <= i <= count,
            count == array_items(array).len(),
            entries.len() == i,
            forall|j: int| 0 <= j < i ==> (#[trigger] entries@[j]).node() == array_items(array)[j],
        decreases count - i,
    {
        entries.push(entry_of(array_get(array, i)));
        i += 1;
    }
    assert(entry_nodes(entries@) =~= array_items(array));
    entries
}

/// The name by which errors report the kind of an entry.
pub fn entry_kind(entry: Entry) -> (kind: &'static str)
    ensures
        kind@ == entry.node().kind_name(),
{
    match entry {
        Entry::String(_) => "string",
        Entry::Integer => "integer",
        Entry::Float => "float",
        Entry::Boolean(_) => "boolean",
        Entry::Datetime => "datetime",
        Entry::Array(_) => "array",
        Entry::Table(_) => "table",
    }
}

/// What an array is called after the kind of its first element.
pub open spec fn array_kind_spec(items: Seq<Node>) -> Option<Seq<char>> {
    if items.len() == 0 {
        None
    } else {
        Some(items[0].array_kind_name())
    }
}

/// The name by which errors report an array: that of the kind of its first
/// element, and none for an empty array.
pub fn array_kind(array: ArrayEntry) -> (kind: Option<&'static str>)
    ensures
        match kind {
            Some(name) => array_kind_spec(array_items(array)) == Some(name@),
            None => array_kind_spec(array_items(array)) is None,
        },
{
    if array_len(array) == 0 {
        None
    } else {
        match entry_of(array_get(array, 0)) {
            Entry::String(_) => Some("array of strings"),
            Entry::Integer => Some("array of integers"),
            Entry::Float => Some("array of floats"),
            Entry::Boolean(_) => Some("array of booleans"),
            Entry::Datetime => Some("array of datetimes"),
            Entry::Array(_) => Some("array of arrays"),
            Entry::Table(_) => Some("array of tables"),
        }
    }
}

} // verus!
