//! Build targets and their extraction from a manifest.
//!
//! The library target is described by the table `lib`; binaries, benchmarks,
//! tests and examples by the arrays of tables `bin`, `bench`, `test` and
//! `example`.  Each kind has its own switches to start from, which the table
//! of a target may override.  Extraction reads all five places to the end and
//! then hands out either every target or every violation.

use vstd::prelude::*;
use vstd::string::StringExecFns;
use crate::dependency::optional_text;
use crate::document::{
    array_entries, array_items, array_kind, entry_kind, entry_nodes, optional_node, table_entry,
    table_map, Entry,
};
use crate::error::{path_error_views, verdict, PathError, PathErrorView};
use crate::manifest::Manifest;
use crate::node::{child, Node};
use toml_document::TableEntry;

verus! {

/// One build target with its switches.
#[derive(Clone, Copy, Debug)]
pub struct OutputTarget<'a> {
    pub kind: &'static str,
    pub name: Option<&'a str>,
    pub path: Option<&'a str>,
    pub test: bool,
    pub doctest: bool,
    pub bench: bool,
    pub doc: bool,
    pub plugin: bool,
    pub harness: bool,
}

/// What an [`OutputTarget`] says.
pub struct OutputTargetView {
    pub kind: Seq<char>,
    pub name: Option<Seq<char>>,
    pub path: Option<Seq<char>>,
    pub test: bool,
    pub doctest: bool,
    pub bench: bool,
    pub doc: bool,
    pub plugin: bool,
    pub harness: bool,
}

impl<'a> View for OutputTarget<'a> {
    type V = OutputTargetView;

    open spec fn view(&self) -> OutputTargetView {
        OutputTargetView {
            kind: self.kind@,
            name: optional_text(self.name),
            path: optional_text(self.path),
            test: self.test,
            doctest: self.doctest,
            bench: self.bench,
            doc: self.doc,
            plugin: self.plugin,
            harness: self.harness,
        }
    }
}

/// A nameless target of the given kind with the given switches.
pub open spec fn blank_target(
    kind: Seq<char>,
    test: bool,
    doctest: bool,
    bench: bool,
    doc: bool,
    plugin: bool,
    harness: bool,
) -> OutputTargetView {
    OutputTargetView { kind, name: None, path: None, test, doctest, bench, doc, plugin, harness }
}

/// The switches common to most kinds, under no kind at all.
pub open spec fn default_target() -> OutputTargetView {
    blank_target(""@, true, false, true, false, false, true)
}

/// What a library target starts from.
pub open spec fn lib_target() -> OutputTargetView {
    blank_target("lib"@, true, true, true, true, false, true)
}

/// What a binary target starts from.
pub open spec fn bin_target() -> OutputTargetView {
    blank_target("bin"@, true, false, true, true, false, true)
}

/// What a benchmark target starts from.
pub open spec fn bench_target() -> OutputTargetView {
    blank_target("bench"@, false, false, true, false, false, true)
}

/// What a test target starts from.
pub open spec fn test_target() -> OutputTargetView {
    blank_target("test"@, true, false, false, false, false, true)
}

/// What an example target starts from.
pub open spec fn example_target() -> OutputTargetView {
    blank_target("example"@, true, false, false, false, false, true)
}

impl<'a> OutputTarget<'a> {
    /// The switches common to most kinds, under no kind at all.
    pub fn default() -> (t: OutputTarget<'a>)
        ensures
            t@ == default_target(),
    {
        OutputTarget {
            kind: "",
            name: None,
            path: None,
            test: true,
            doctest: false,
            bench: true,
            doc: false,
            plugin: false,
            harness: true,
        }
    }

    /// A binary: documented, not doctested.
    pub fn bin() -> (t: OutputTarget<'a>)
        ensures
            t@ == bin_target(),
    {
        OutputTarget { kind: "bin", doc: true, ..OutputTarget::default() }
    }

    /// A library: documented and doctested.
    pub fn lib() -> (t: OutputTarget<'a>)
        ensures
            t@ == lib_target(),
    {
        OutputTarget { kind: "lib", doctest: true, doc: true, ..OutputTarget::default() }
    }

    /// A benchmark: not run as a test.
    pub fn bench() -> (t: OutputTarget<'a>)
        ensures
            t@ == bench_target(),
    {
        OutputTarget { kind: "bench", test: false, ..OutputTarget::default() }
    }

    /// A test: not benchmarked.
    pub fn test() -> (t: OutputTarget<'a>)
        ensures
            t@ == test_target(),
    {
        OutputTarget { kind: "test", bench: false, ..OutputTarget::default() }
    }

    /// An example: not benchmarked.
    pub fn example() -> (t: OutputTarget<'a>)
        ensures
            t@ == example_target(),
    {
        OutputTarget { kind: "example", bench: false, ..OutputTarget::default() }
    }
}

/// The views of a list of targets, in order.
pub open spec fn target_views(targets: Seq<OutputTarget>) -> Seq<OutputTargetView> {
    Seq::new(targets.len(), |i: int| targets[i]@)
}

/// The dotted path of the field `field` of a target described under
/// `source`.
pub open spec fn field_path(source: Seq<char>, field: Seq<char>) -> Seq<char> {
    source + "."@ + field
}

/// An optional string setting: absent, a string, or a violation at `path`.
pub open spec fn string_setting(entry: Option<Node>, path: Seq<char>) -> Result<
    Option<Seq<char>>,
    PathErrorView,
> {
    match entry {
        Some(Node::String(text)) => Ok(Some(text)),
        Some(other) => Err(PathErrorView { path, expected: "string"@, got: other.kind_name() }),
        None => Ok(None),
    }
}

/// An optional switch: absent, a boolean, or a violation at `path`.
pub open spec fn switch_setting(entry: Option<Node>, path: Seq<char>) -> Result<
    Option<bool>,
    PathErrorView,
> {
    match entry {
        Some(Node::Boolean(on)) => Ok(Some(on)),
        Some(other) => Err(PathErrorView { path, expected: "boolean"@, got: other.kind_name() }),
        None => Ok(None),
    }
}

/// The setting of a switch where it is given, and else what it started from.
pub open spec fn switched(setting: Option<bool>, start: bool) -> bool {
    match setting {
        Some(on) => on,
        None => start,
    }
}

/// The switch named `field` as the table `details` under `source` sets it.
pub open spec fn switch_of(details: Map<Seq<char>, Node>, source: Seq<char>, field: Seq<char>) -> Result<
    Option<bool>,
    PathErrorView,
> {
    switch_setting(child(details, field), field_path(source, field))
}

/// The string named `field` as the table `details` under `source` sets it.
pub open spec fn string_of(details: Map<Seq<char>, Node>, source: Seq<char>, field: Seq<char>) -> Result<
    Option<Seq<char>>,
    PathErrorView,
> {
    string_setting(child(details, field), field_path(source, field))
}

/// The target that the table `details` under `source` describes, starting
/// from `start`.  The name and the path are what the table says; each switch
/// is what the table says where it says anything.  The fields are read in
/// the order name, path, test, doctest, bench, doc, plugin, harness, and the
/// first of the wrong kind is the one violation.
pub open spec fn described_target(
    source: Seq<char>,
    details: Map<Seq<char>, Node>,
    start: OutputTargetView,
) -> Result<OutputTargetView, PathErrorView> {
    match string_of(details, source, "name"@) {
        Err(error) => Err(error),
        Ok(name) => match string_of(details, source, "path"@) {
            Err(error) => Err(error),
            Ok(path) => match switch_of(details, source, "test"@) {
                Err(error) => Err(error),
                Ok(test) => match switch_of(details, source, "doctest"@) {
                    Err(error) => Err(error),
                    Ok(doctest) => match switch_of(details, source, "bench"@) {
                        Err(error) => Err(error),
                        Ok(bench) => match switch_of(details, source, "doc"@) {
                            Err(error) => Err(error),
                            Ok(doc) => match switch_of(details, source, "plugin"@) {
                                Err(error) => Err(error),
                                Ok(plugin) => match switch_of(details, source, "harness"@) {
                                    Err(error) => Err(error),
                                    Ok(harness) => Ok(
                                        OutputTargetView {
                                            kind: start.kind,
                                            name,
                                            path,
                                            test: switched(test, start.test),
                                            doctest: switched(doctest, start.doctest),
                                            bench: switched(bench, start.bench),
                                            doc: switched(doc, start.doc),
                                            plugin: switched(plugin, start.plugin),
                                            harness: switched(harness, start.harness),
                                        },
                                    ),
                                },
                            },
                        },
                    },
                },
            },
        },
    }
}

/// The targets that the entry `entry` under `source` describes where a
/// table is wanted: the one it describes, if it is a table without a
/// violation.
pub open spec fn table_targets(source: Seq<char>, entry: Option<Node>, start: OutputTargetView) -> Seq<
    OutputTargetView,
> {
    match entry {
        Some(Node::Table(details)) => match described_target(source, details, start) {
            Ok(target) => seq![target],
            Err(_) => Seq::empty(),
        },
        _ => Seq::empty(),
    }
}

/// The violations of the entry `entry` under `source` where a table is
/// wanted: that of the table, or the entry itself where it is no table.
pub open spec fn table_errors(source: Seq<char>, entry: Option<Node>, start: OutputTargetView) -> Seq<
    PathErrorView,
> {
    match entry {
        Some(Node::Table(details)) => match described_target(source, details, start) {
            Ok(_) => Seq::empty(),
            Err(error) => seq![error],
        },
        Some(other) => seq![
            PathErrorView { path: source, expected: "table"@, got: other.kind_name() },
        ],
        None => Seq::empty(),
    }
}

/// The targets that the first `count` elements of an array describe.
pub open spec fn element_targets(
    source: Seq<char>,
    items: Seq<Node>,
    start: OutputTargetView,
    count: nat,
) -> Seq<OutputTargetView>
    decreases count,
{
    if count == 0 {
        Seq::empty()
    } else {
        element_targets(source, items, start, (count - 1) as nat) + table_targets(
            source,
            Some(items[count - 1]),
            start,
        )
    }
}

/// The violations among the first `count` elements of an array.
pub open spec fn element_errors(
    source: Seq<char>,
    items: Seq<Node>,
    start: OutputTargetView,
    count: nat,
) -> Seq<PathErrorView>
    decreases count,
{
    if count == 0 {
        Seq::empty()
    } else {
        element_errors(source, items, start, (count - 1) as nat) + table_errors(
            source,
            Some(items[count - 1]),
            start,
        )
    }
}

/// Whether an array can hold targets: it is empty or begins with a table.
pub open spec fn holds_tables(items: Seq<Node>) -> bool {
    items.len() == 0 || items[0] is Table
}

/// The targets that the entry `entry` under `source` describes where an
/// array of tables is wanted.
pub open spec fn array_targets(source: Seq<char>, entry: Option<Node>, start: OutputTargetView) -> Seq<
    OutputTargetView,
> {
    match entry {
        Some(Node::Array(items)) => {
            if holds_tables(items) {
                element_targets(source, items, start, items.len())
            } else {
                Seq::empty()
            }
        },
        _ => Seq::empty(),
    }
}

/// The violations of the entry `entry` under `source` where an array of
/// tables is wanted.  An array that begins with anything but a table is one
/// violation, named after its first element; an entry that is no array is
/// one violation; in an array that begins with a table every element is
/// judged by itself.
pub open spec fn array_errors(source: Seq<char>, entry: Option<Node>, start: OutputTargetView) -> Seq<
    PathErrorView,
> {
    match entry {
        Some(Node::Array(items)) => {
            if holds_tables(items) {
                element_errors(source, items, start, items.len())
            } else {
                seq![
                    PathErrorView {
                        path: source,
                        expected: "array of tables"@,
                        got: items[0].array_kind_name(),
                    },
                ]
            }
        },
        Some(other) => seq![
            PathErrorView { path: source, expected: "array"@, got: other.kind_name() },
        ],
        None => Seq::empty(),
    }
}

/// Every target that `document` describes: the library, then binaries,
/// benchmarks, tests and examples.
pub open spec fn document_targets(document: Map<Seq<char>, Node>) -> Seq<OutputTargetView> {
    table_targets("lib"@, child(document, "lib"@), lib_target()) + array_targets(
        "bin"@,
        child(document, "bin"@),
        bin_target(),
    ) + array_targets("bench"@, child(document, "bench"@), bench_target()) + array_targets(
        "test"@,
        child(document, "test"@),
        test_target(),
    ) + array_targets("example"@, child(document, "example"@), example_target())
}

/// Every violation among the targets of `document`, in the same order.
pub open spec fn document_target_errors(document: Map<Seq<char>, Node>) -> Seq<PathErrorView> {
    table_errors("lib"@, child(document, "lib"@), lib_target()) + array_errors(
        "bin"@,
        child(document, "bin"@),
        bin_target(),
    ) + array_errors("bench"@, child(document, "bench"@), bench_target()) + array_errors(
        "test"@,
        child(document, "test"@),
        test_target(),
    ) + array_errors("example"@, child(document, "example"@), example_target())
}

/// What reading a string setting gave, as contracts see it.
pub open spec fn string_setting_view(outcome: Result<Option<&str>, PathError>) -> Result<
    Option<Seq<char>>,
    PathErrorView,
> {
    match outcome {
        Ok(text) => Ok(optional_text(text)),
        Err(error) => Err(error@),
    }
}

/// What reading a switch gave, as contracts see it.
pub open spec fn switch_setting_view(outcome: Result<Option<bool>, PathError>) -> Result<
    Option<bool>,
    PathErrorView,
> {
    match outcome {
        Ok(on) => Ok(on),
        Err(error) => Err(error@),
    }
}

/// What reading a target gave, as contracts see it.
pub open spec fn described_view(outcome: Result<OutputTarget, PathError>) -> Result<
    OutputTargetView,
    PathErrorView,
> {
    match outcome {
        Ok(target) => Ok(target@),
        Err(error) => Err(error@),
    }
}

/// What an extraction of targets gave, as contracts see it.
pub open spec fn targets_view(outcome: Result<Vec<OutputTarget>, Vec<PathError>>) -> Result<
    Seq<OutputTargetView>,
    Seq<PathErrorView>,
> {
    match outcome {
        Ok(targets) => Ok(target_views(targets@)),
        Err(errors) => Err(path_error_views(errors@)),
    }
}

/// The dotted path of the field `field` of a target described under
/// `source`.
fn field_path_of(source: &str, field: &str) -> (path: String)
    ensures
        path@ == field_path(source@, field@),
{
    let mut path = String::from_str(source);
    path.append(".");
    path.append(field);
    path
}

/// Reads an optional string setting found as `entry`; `path` is where a
/// violation is reported.
pub fn read_string<'a>(entry: Option<Entry<'a>>, path: String) -> (outcome: Result<
    Option<&'a str>,
    PathError,
>)
    ensures
        string_setting_view(outcome) == string_setting(optional_node(entry), path@),
{
    match entry {
        Some(Entry::String(text)) => Ok(Some(text)),
        Some(other) => Err(PathError { path: path, expected: "string", got: entry_kind(other) }),
        None => Ok(None),
    }
}

/// Reads an optional switch found as `entry`; `path` is where a violation is
/// reported.
pub fn read_switch<'a>(entry: Option<Entry<'a>>, path: String) -> (outcome: Result<
    Option<bool>,
    PathError,
>)
    ensures
        switch_setting_view(outcome) == switch_setting(optional_node(entry), path@),
{
    match entry {
        Some(Entry::Boolean(on)) => Ok(Some(on)),
        Some(other) => Err(PathError { path: path, expected: "boolean", got: entry_kind(other) }),
        None => Ok(None),
    }
}

/// Reads the string named `field` from the table of a target.
fn string_in<'a>(source: &str, details: TableEntry<'a>, field: &'a str) -> (outcome: Result<
    Option<&'a str>,
    PathError,
>)
    ensures
        string_setting_view(outcome) == string_of(table_map(details), source@, field@),
{
    read_string(table_entry(details, field), field_path_of(source, field))
}

/// Reads the switch named `field` from the table of a target.
fn switch_in<'a>(source: &str, details: TableEntry<'a>, field: &'a str) -> (outcome: Result<
    Option<bool>,
    PathError,
>)
    ensures
        switch_setting_view(outcome) == switch_of(table_map(details), source@, field@),
{
    read_switch(table_entry(details, field), field_path_of(source, field))
}

/// The setting of a switch where it is given, and else what it started from.
fn switch_from(setting: Option<bool>, start: bool) -> (on: bool)
    ensures
        on == switched(setting, start),
{
    match setting {
        Some(on) => on,
        None => start,
    }
}

/// Reads the target that the table `details` under `source` describes,
/// starting from `start`.
pub fn read_target<'a>(source: &str, details: TableEntry<'a>, start: OutputTarget<'a>) -> (outcome:
    Result<OutputTarget<'a>, PathError>)
    ensures
        described_view(outcome) == described_target(source@, table_map(details), start@),
{
    let name = match string_in(source, details, "name") {
        Ok(name) => name,
        Err(error) => {
            return Err(error);
        },
    };
    let path = match string_in(source, details, "path") {
        Ok(path) => path,
        Err(error) => {
            return Err(error);
        },
    };
    let test = match switch_in(source, details, "test") {
        Ok(test) => test,
        Err(error) => {
            return Err(error);
        },
    };
    let doctest = match switch_in(source, details, "doctest") {
        Ok(doctest) => doctest,
        Err(error) => {
            return Err(error);
        },
    };
    let bench = match switch_in(source, details, "bench") {
        Ok(bench) => bench,
        Err(error) => {
            return Err(error);
        },
    };
    let doc = match switch_in(source, details, "doc") {
        Ok(doc) => doc,
        Err(error) => {
            return Err(error);
        },
    };
    let plugin = match switch_in(source, details, "plugin") {
        Ok(plugin) => plugin,
        Err(error) => {
            return Err(error);
        },
    };
    let harness = match switch_in(source, details, "harness") {
        Ok(harness) => harness,
        Err(error) => {
            return Err(error);
        },
    };
    Ok(
        OutputTarget {
            kind: start.kind,
            name: name,
            path: path,
            test: switch_from(test, start.test),
            doctest: switch_from(doctest, start.doctest),
            bench: switch_from(bench, start.bench),
            doc: switch_from(doc, start.doc),
            plugin: switch_from(plugin, start.plugin),
            harness: switch_from(harness, start.harness),
        },
    )
}

/// Adds to `targets` and `errors` what the entry `entry` under `source`
/// holds where a table is wanted.
pub fn collect_table<'a>(
    source: &str,
    entry: Option<Entry<'a>>,
    start: OutputTarget<'a>,
    targets: &mut Vec<OutputTarget<'a>>,
    errors: &mut Vec<PathError>,
)
    ensures
        target_views(final(targets)@) == target_views(old(targets)@) + table_targets(
            source@,
            optional_node(entry),
            start@,
        ),
        path_error_views(final(errors)@) == path_error_views(old(errors)@) + table_errors(
            source@,
            optional_node(entry),
            start@,
        ),
{
    let ghost before_targets = targets@;
    let ghost before_errors = errors@;
    match entry {
        Some(Entry::Table(details)) => match read_target(source, details, start) {
            Ok(target) => {
                targets.push(target);
                assert(target_views(targets@) =~= target_views(before_targets) + seq![target@]);
                assert(path_error_views(errors@) =~= path_error_views(before_errors)
                    + Seq::<PathErrorView>::empty());
            },
            Err(error) => {
                let ghost said = error@;
                errors.push(error);
                assert(path_error_views(errors@) =~= path_error_views(before_errors) + seq![said]);
                assert(target_views(targets@) =~= target_views(before_targets)
                    + Seq::<OutputTargetView>::empty());
            },
        },
        Some(other) => {
            let error = PathError {
                path: String::from_str(source),
                expected: "table",
                got: entry_kind(other),
            };
            let ghost said = error@;
            errors.push(error);
            assert(path_error_views(errors@) =~= path_error_views(before_errors) + seq![said]);
            assert(target_views(targets@) =~= target_views(before_targets)
                + Seq::<OutputTargetView>::empty());
        },
        None => {
            assert(path_error_views(errors@) =~= path_error_views(before_errors)
                + Seq::<PathErrorView>::empty());
            assert(target_views(targets@) =~= target_views(before_targets)
                + Seq::<OutputTargetView>::empty());
        },
    }
}

/// Adds to `targets` and `errors` what the entry `entry` under `source`
/// holds where an array of tables is wanted.
pub fn collect_array<'a>(
    source: &str,
    entry: Option<Entry<'a>>,
    start: OutputTarget<'a>,
    targets: &mut Vec<OutputTarget<'a>>,
    errors: &mut Vec<PathError>,
)
    ensures
        target_views(final(targets)@) == target_views(old(targets)@) + array_targets(
            source@,
            optional_node(entry),
            start@,
        ),
        path_error_views(final(errors)@) == path_error_views(old(errors)@) + array_errors(
            source@,
            optional_node(entry),
            start@,
        ),
{
    let ghost before_targets = targets@;
    let ghost before_errors = errors@;
    match entry {
        Some(Entry::Array(array)) => {
            let entries = array_entries(array);
            let ghost items = array_items(array);
            match array_kind(array) {
                Some(kind) => match entries[0] {
                    Entry::Table(_) => {},
                    _ => {
                        let error = PathError {
                            path: String::from_str(source),
                            expected: "array of tables",
                            got: kind,
                        };
                        let ghost said = error@;
                        errors.push(error);
                        assert(path_error_views(errors@) =~= path_error_views(before_errors)
                            + seq![said]);
                        assert(target_views(targets@) =~= target_views(before_targets)
                            + Seq::<OutputTargetView>::empty());
                        return ;
                    },
                },
                None => {},
            }
            assert(holds_tables(items));
            let mut i: usize = 0;
            assert(path_error_views(errors@) =~= path_error_views(before_errors) + element_errors(
                source@,
                items,
                start@,
                0,
            ));
            assert(target_views(targets@) =~= target_views(before_targets) + element_targets(
                source@,
                items,
                start@,
                0,
            ));
            while i < entries.len()
                invariant
                    0 <= i <= entries.len(),
                    items == entry_nodes(entries@),
                    target_views(targets@) == target_views(before_targets) + element_targets(
                        source@,
                        items,
                        start@,
                        i as nat,
                    ),
                    path_error_views(errors@) == path_error_views(before_errors) + element_errors(
                        source@,
                        items,
                        start@,
                        i as nat,
                    ),
                decreases entries.len() - i,
            {
                let ghost targets_so_far = target_views(targets@);
                let ghost errors_so_far = path_error_views(errors@);
                collect_table(source, Some(entries[i]), start, targets, errors);
                proof {
                    let element = Some(items[i as int]);
                    assert(target_views(targets@) =~= target_views(before_targets) + (
                    element_targets(source@, items, start@, i as nat) + table_targets(
                        source@,
                        element,
                        start@,
                    )));
                    assert(path_error_views(errors@) =~= path_error_views(before_errors) + (
                    element_errors(source@, items, start@, i as nat) + table_errors(
                        source@,
                        element,
                        start@,
                    )));
                }
                i += 1;
            }
        },
        Some(other) => {
            let error = PathError {
                path: String::from_str(source),
                expected: "array",
                got: entry_kind(other),
            };
            let ghost said = error@;
            errors.push(error);
            assert(path_error_views(errors@) =~= path_error_views(before_errors) + seq![said]);
            assert(target_views(targets@) =~= target_views(before_targets)
                + Seq::<OutputTargetView>::empty());
        },
        None => {
            assert(path_error_views(errors@) =~= path_error_views(before_errors)
                + Seq::<PathErrorView>::empty());
            assert(target_views(targets@) =~= target_views(before_targets)
                + Seq::<OutputTargetView>::empty());
        },
    }
}

impl Manifest {
    /// Every build target that the manifest describes, or every violation
    /// found among the descriptions.
    ///
    /// The library comes first, then binaries, benchmarks, tests and
    /// examples, each array in its own order.  One violation anywhere turns
    /// the whole answer into the list of violations.
    pub fn get_output_targets<'a>(&'a self) -> (outcome: Result<
        Vec<OutputTarget<'a>>,
        Vec<PathError>,
    >)
        ensures
            targets_view(outcome) == verdict(
                document_targets(self@),
                document_target_errors(self@),
            ),
    {
        let mut targets: Vec<OutputTarget<'a>> = Vec::new();
        let mut errors: Vec<PathError> = Vec::new();
        assert(target_views(targets@) =~= Seq::empty());
        assert(path_error_views(errors@) =~= Seq::empty());
        collect_table("lib", self.get("lib"), OutputTarget::lib(), &mut targets, &mut errors);
        collect_array("bin", self.get("bin"), OutputTarget::bin(), &mut targets, &mut errors);
        collect_array("bench", self.get("bench"), OutputTarget::bench(), &mut targets, &mut errors);
        collect_array("test", self.get("test"), OutputTarget::test(), &mut targets, &mut errors);
        collect_array(
            "example",
            self.get("example"),
            OutputTarget::example(),
            &mut targets,
            &mut errors,
        );
        assert(target_views(targets@) =~= document_targets(self@));
        assert(path_error_views(errors@) =~= document_target_errors(self@));
        if errors.len() > 0 {
            Err(errors)
        } else {
            Ok(targets)
        }
    }
}

} // verus!
