//! Dependency declarations and their extraction from a manifest.
//!
//! Dependencies stand in the table `dependencies` at the root, and, for each
//! platform `T` under the table `target`, in the table `target.T.dependencies`.
//! An entry of such a table declares a dependency by a version string or by a
//! table of details; an entry of any other kind is a violation.  Extraction
//! walks all of these tables to the end and then hands out either every
//! dependency or every violation.

use vstd::prelude::*;
use vstd::string::StringExecFns;
use crate::document::{entry_kind, table_entry, table_listing, table_map, walk_view, Entry};
use crate::error::{path_error_views, verdict, PathError, PathErrorView};
use crate::manifest::Manifest;
use crate::node::{child, lists, Listing, Node};
use toml_document::TableEntry;

verus! {

/// One declared dependency.  `target` is the platform that the declaration
/// is confined to, and `None` for a declaration that holds everywhere.
#[derive(Clone, Copy, Debug)]
pub struct Dependency<'a> {
    pub name: &'a str,
    pub version: Option<&'a str>,
    pub git: Option<&'a str>,
    pub path: Option<&'a str>,
    pub target: Option<&'a str>,
}

/// What a [`Dependency`] says.
pub struct DependencyView {
    pub name: Seq<char>,
    pub version: Option<Seq<char>>,
    pub git: Option<Seq<char>>,
    pub path: Option<Seq<char>>,
    pub target: Option<Seq<char>>,
}

/// The text of an optional string.
pub open spec fn optional_text(s: Option<&str>) -> Option<Seq<char>> {
    match s {
        Some(s) => Some(s@),
        None => None,
    }
}

impl<'a> View for Dependency<'a> {
    type V = DependencyView;

    open spec fn view(&self) -> DependencyView {
        DependencyView {
            name: self.name@,
            version: optional_text(self.version),
            git: optional_text(self.git),
            path: optional_text(self.path),
            target: optional_text(self.target),
        }
    }
}

/// The views of a list of dependencies, in order.
pub open spec fn dependency_views(dependencies: Seq<Dependency>) -> Seq<DependencyView> {
    Seq::new(dependencies.len(), |i: int| dependencies[i]@)
}

/// The dependency that a bare version string declares.
pub open spec fn simple_dependency(
    name: Seq<char>,
    target: Option<Seq<char>>,
    version: Seq<char>,
) -> DependencyView {
    DependencyView { name, version: Some(version), git: None, path: None, target }
}

/// The string stored under `key` in a table of details.  A missing key and a
/// value of another kind both count as no string.
pub open spec fn string_field(details: Map<Seq<char>, Node>, key: Seq<char>) -> Option<Seq<char>> {
    match child(details, key) {
        Some(Node::String(text)) => Some(text),
        _ => None,
    }
}

/// The dependency that a table of details declares.
pub open spec fn complex_dependency(
    name: Seq<char>,
    target: Option<Seq<char>>,
    details: Map<Seq<char>, Node>,
) -> DependencyView {
    DependencyView {
        name,
        version: string_field(details, "version"@),
        git: string_field(details, "git"@),
        path: string_field(details, "path"@),
        target,
    }
}

/// The dotted path of the table of dependencies for `target`.
pub open spec fn section_path(target: Option<Seq<char>>) -> Seq<char> {
    match target {
        Some(platform) => "target."@ + platform + ".dependencies"@,
        None => "dependencies"@,
    }
}

/// The dotted path of the entry `name` in the table of dependencies for
/// `target`.
pub open spec fn entry_path(target: Option<Seq<char>>, name: Seq<char>) -> Seq<char> {
    section_path(target) + "."@ + name
}

/// What the entry `name` with value `value` declares: a string is a version,
/// a table holds details, anything else is a violation where a string was
/// expected.
pub open spec fn classify(name: Seq<char>, target: Option<Seq<char>>, value: Node) -> Result<
    DependencyView,
    PathErrorView,
> {
    match value {
        Node::String(version) => Ok(simple_dependency(name, target, version)),
        Node::Table(details) => Ok(complex_dependency(name, target, details)),
        other => Err(
            PathErrorView {
                path: entry_path(target, name),
                expected: "string"@,
                got: other.kind_name(),
            },
        ),
    }
}

/// The dependencies that the entries of `walk` declare, in the order of the
/// walk.
pub open spec fn listed_dependencies(target: Option<Seq<char>>, walk: Listing) -> Seq<
    DependencyView,
>
    decreases walk.len(),
{
    if walk.len() == 0 {
        Seq::empty()
    } else {
        let before = listed_dependencies(target, walk.drop_last());
        match classify(walk.last().0, target, walk.last().1) {
            Ok(dependency) => before.push(dependency),
            Err(_) => before,
        }
    }
}

/// The violations among the entries of `walk`, in the order of the walk.
pub open spec fn listed_errors(target: Option<Seq<char>>, walk: Listing) -> Seq<PathErrorView>
    decreases walk.len(),
{
    if walk.len() == 0 {
        Seq::empty()
    } else {
        let before = listed_errors(target, walk.drop_last());
        match classify(walk.last().0, target, walk.last().1) {
            Ok(_) => before,
            Err(error) => before.push(error),
        }
    }
}

/// Whether `walk` is a walk over `section`, where that is a table.  Of a
/// section that is no table nothing is walked.
pub open spec fn walks(walk: Listing, section: Node) -> bool {
    match section {
        Node::Table(entries) => lists(walk, entries),
        _ => true,
    }
}

/// The dependencies of the section `section` for `target`, walked as `walk`.
pub open spec fn section_dependencies(target: Option<Seq<char>>, section: Node, walk: Listing) -> Seq<
    DependencyView,
> {
    match section {
        Node::Table(_) => listed_dependencies(target, walk),
        _ => Seq::empty(),
    }
}

/// The violations of the section `section` for `target`, walked as `walk`.
/// A section that is no table is itself the one violation.
pub open spec fn section_errors(target: Option<Seq<char>>, section: Node, walk: Listing) -> Seq<
    PathErrorView,
> {
    match section {
        Node::Table(_) => listed_errors(target, walk),
        other => seq![
            PathErrorView {
                path: section_path(target),
                expected: "table"@,
                got: other.kind_name(),
            },
        ],
    }
}

/// The section of dependencies under the platform `platform`, if it has one.
/// A platform that is no table has none.
pub open spec fn platform_section(platform: Node) -> Option<Node> {
    match platform {
        Node::Table(entries) => child(entries, "dependencies"@),
        _ => None,
    }
}

/// The dependencies declared for the first `count` platforms of `platforms`,
/// where the section of the `i`-th platform was walked as `sections[i]`.
pub open spec fn platform_dependencies(platforms: Listing, sections: Seq<Listing>, count: nat) -> Seq<
    DependencyView,
>
    decreases count,
{
    if count == 0 {
        Seq::empty()
    } else {
        let i = count - 1;
        let before = platform_dependencies(platforms, sections, i as nat);
        match platform_section(platforms[i].1) {
            Some(section) => before + section_dependencies(
                Some(platforms[i].0),
                section,
                sections[i],
            ),
            None => before,
        }
    }
}

/// The violations found under the first `count` platforms of `platforms`,
/// where the section of the `i`-th platform was walked as `sections[i]`.
pub open spec fn platform_errors(platforms: Listing, sections: Seq<Listing>, count: nat) -> Seq<
    PathErrorView,
>
    decreases count,
{
    if count == 0 {
        Seq::empty()
    } else {
        let i = count - 1;
        let before = platform_errors(platforms, sections, i as nat);
        match platform_section(platforms[i].1) {
            Some(section) => before + section_errors(Some(platforms[i].0), section, sections[i]),
            None => before,
        }
    }
}

/// The order in which one extraction walked the tables of a document.
pub struct Walk {
    /// The walk over the table `dependencies`.
    pub root: Listing,
    /// The walk over the table `target`.
    pub platforms: Listing,
    /// For each platform in the order of `platforms`, the walk over its
    /// table of dependencies.
    pub sections: Seq<Listing>,
}

/// Whether `walk` is a way to walk the tables of dependencies of `document`.
pub open spec fn walk_fits(document: Map<Seq<char>, Node>, walk: Walk) -> bool {
    &&& match child(document, "dependencies"@) {
        Some(section) => walks(walk.root, section),
        None => true,
    }
    &&& match child(document, "target"@) {
        Some(Node::Table(platforms)) => {
            &&& lists(walk.platforms, platforms)
            &&& walk.sections.len() == walk.platforms.len()
            &&& forall|i: int|
                0 <= i < walk.platforms.len() ==> match platform_section(
                    (#[trigger] walk.platforms[i]).1,
                ) {
                    Some(section) => walks(walk.sections[i], section),
                    None => true,
                }
        },
        _ => true,
    }
}

/// Every dependency that `document` declares, in the order of `walk`: those
/// of the root first, then those of each platform.
pub open spec fn walked_dependencies(document: Map<Seq<char>, Node>, walk: Walk) -> Seq<
    DependencyView,
> {
    let root = match child(document, "dependencies"@) {
        Some(section) => section_dependencies(None, section, walk.root),
        None => Seq::empty(),
    };
    match child(document, "target"@) {
        Some(Node::Table(_)) => root + platform_dependencies(
            walk.platforms,
            walk.sections,
            walk.platforms.len(),
        ),
        _ => root,
    }
}

/// Every violation among the dependencies of `document`, in the order of
/// `walk`: those of the root first, then those of each platform.
pub open spec fn walked_errors(document: Map<Seq<char>, Node>, walk: Walk) -> Seq<PathErrorView> {
    let root = match child(document, "dependencies"@) {
        Some(section) => section_errors(None, section, walk.root),
        None => Seq::empty(),
    };
    match child(document, "target"@) {
        Some(Node::Table(_)) => root + platform_errors(
            walk.platforms,
            walk.sections,
            walk.platforms.len(),
        ),
        _ => root,
    }
}

/// What classifying one entry gave, as contracts see it.
pub open spec fn classified_view(outcome: Result<Dependency, PathError>) -> Result<
    DependencyView,
    PathErrorView,
> {
    match outcome {
        Ok(dependency) => Ok(dependency@),
        Err(error) => Err(error@),
    }
}

/// What an extraction of dependencies gave, as contracts see it.
pub open spec fn extracted_view(outcome: Result<Vec<Dependency>, Vec<PathError>>) -> Result<
    Seq<DependencyView>,
    Seq<PathErrorView>,
> {
    match outcome {
        Ok(dependencies) => Ok(dependency_views(dependencies@)),
        Err(errors) => Err(path_error_views(errors@)),
    }
}

/// The platforms do not look at the walks of platforms further on.
proof fn lemma_platforms_prefix(
    platforms: Listing,
    sections: Seq<Listing>,
    longer: Seq<Listing>,
    count: nat,
)
    requires
        count <= sections.len() <= longer.len(),
        forall|i: int| 0 <= i < count ==> sections[i] == longer[i],
    ensures
        platform_dependencies(platforms, sections, count) == platform_dependencies(
            platforms,
            longer,
            count,
        ),
        platform_errors(platforms, sections, count) == platform_errors(platforms, longer, count),
    decreases count,
{
    if count > 0 {
        lemma_platforms_prefix(platforms, sections, longer, (count - 1) as nat);
    }
}

/// What an item of a walk declares is among what the walk yields.
proof fn lemma_walk_yields(target: Option<Seq<char>>, walk: Listing, i: int)
    requires
        0 <= i < walk.len(),
    ensures
        match classify(walk[i].0, target, walk[i].1) {
            Ok(dependency) => listed_dependencies(target, walk).contains(dependency),
            Err(error) => listed_errors(target, walk).contains(error),
        },
    decreases walk.len(),
{
    let before = walk.drop_last();
    let last = walk.len() - 1;
    if i < last {
        lemma_walk_yields(target, before, i);
        assert(before[i] == walk[i]);
        match classify(walk[i].0, target, walk[i].1) {
            Ok(dependency) => {
                let found = choose|j: int|
                    0 <= j < listed_dependencies(target, before).len() && listed_dependencies(
                        target,
                        before,
                    )[j] == dependency;
                assert(listed_dependencies(target, walk)[found] == dependency);
            },
            Err(error) => {
                let found = choose|j: int|
                    0 <= j < listed_errors(target, before).len() && listed_errors(
                        target,
                        before,
                    )[j] == error;
                assert(listed_errors(target, walk)[found] == error);
            },
        }
    } else {
        match classify(walk[i].0, target, walk[i].1) {
            Ok(dependency) => {
                let at = listed_dependencies(target, before).len() as int;
                assert(listed_dependencies(target, walk)[at] == dependency);
            },
            Err(error) => {
                let at = listed_errors(target, before).len() as int;
                assert(listed_errors(target, walk)[at] == error);
            },
        }
    }
}

/// What the section of a platform yields is among what the platforms yield.
proof fn lemma_platform_yields(platforms: Listing, sections: Seq<Listing>, count: nat, i: int)
    requires
        0 <= i < count,
        platform_section(platforms[i].1) is Some,
    ensures
        forall|dependency: DependencyView|
            section_dependencies(
                Some(platforms[i].0),
                platform_section(platforms[i].1)->0,
                sections[i],
            ).contains(dependency) ==> #[trigger] platform_dependencies(
                platforms,
                sections,
                count,
            ).contains(dependency),
        forall|error: PathErrorView|
            section_errors(
                Some(platforms[i].0),
                platform_section(platforms[i].1)->0,
                sections[i],
            ).contains(error) ==> #[trigger] platform_errors(platforms, sections, count).contains(
                error,
            ),
    decreases count,
{
    let last = count - 1;
    let before_dependencies = platform_dependencies(platforms, sections, last as nat);
    let before_errors = platform_errors(platforms, sections, last as nat);
    let all_dependencies = platform_dependencies(platforms, sections, count);
    let all_errors = platform_errors(platforms, sections, count);
    if i < last {
        lemma_platform_yields(platforms, sections, last as nat, i);
        assert forall|dependency: DependencyView|
            before_dependencies.contains(dependency) implies all_dependencies.contains(
            dependency,
        ) by {
            let j = choose|j: int|
                0 <= j < before_dependencies.len() && before_dependencies[j] == dependency;
            assert(all_dependencies[j] == dependency);
        }
        assert forall|error: PathErrorView| before_errors.contains(error) implies all_errors.contains(
            error,
        ) by {
            let j = choose|j: int| 0 <= j < before_errors.len() && before_errors[j] == error;
            assert(all_errors[j] == error);
        }
    } else {
        let section = platform_section(platforms[i].1)->0;
        let yielded_dependencies = section_dependencies(Some(platforms[i].0), section, sections[i]);
        let yielded_errors = section_errors(Some(platforms[i].0), section, sections[i]);
        assert forall|dependency: DependencyView|
            yielded_dependencies.contains(dependency) implies all_dependencies.contains(
            dependency,
        ) by {
            let j = choose|j: int|
                0 <= j < yielded_dependencies.len() && yielded_dependencies[j] == dependency;
            assert(all_dependencies[before_dependencies.len() + j] == dependency);
        }
        assert forall|error: PathErrorView| yielded_errors.contains(error) implies all_errors.contains(
            error,
        ) by {
            let j = choose|j: int| 0 <= j < yielded_errors.len() && yielded_errors[j] == error;
            assert(all_errors[before_errors.len() + j] == error);
        }
    }
}

/// What one section of dependencies holds for extraction to find.
///
/// Where the section is a table, `found` is what its entry `name` declares;
/// where it is anything else, `found` is the violation that the section
/// itself is, whatever `name` may be.
pub open spec fn declared(
    target: Option<Seq<char>>,
    section: Node,
    name: Seq<char>,
    found: Result<DependencyView, PathErrorView>,
) -> bool {
    match section {
        Node::Table(entries) => entries.contains_key(name) && found == classify(
            name,
            target,
            entries[name],
        ),
        other => found == Err::<DependencyView, PathErrorView>(
            PathErrorView {
                path: section_path(target),
                expected: "table"@,
                got: other.kind_name(),
            },
        ),
    }
}

/// Whether `found` is among what an extraction came upon.
pub open spec fn came_upon(
    dependencies: Seq<DependencyView>,
    errors: Seq<PathErrorView>,
    found: Result<DependencyView, PathErrorView>,
) -> bool {
    match found {
        Ok(dependency) => dependencies.contains(dependency),
        Err(error) => errors.contains(error),
    }
}

/// What a section holds is among what a walk over it yields.
proof fn lemma_section_yields(
    target: Option<Seq<char>>,
    section: Node,
    walk: Listing,
    name: Seq<char>,
    found: Result<DependencyView, PathErrorView>,
)
    requires
        walks(walk, section),
        declared(target, section, name, found),
    ensures
        came_upon(
            section_dependencies(target, section, walk),
            section_errors(target, section, walk),
            found,
        ),
{
    match section {
        Node::Table(entries) => {
            assert(walk.contains((name, entries[name])));
            let i = choose|i: int| 0 <= i < walk.len() && walk[i] == (name, entries[name]);
            lemma_walk_yields(target, walk, i);
        },
        other => {
            assert(section_errors(target, section, walk)[0] == found->Err_0);
        },
    }
}

/// Extraction passes nothing over, however the tables are walked.
///
/// Whatever the root section of dependencies holds, and whatever the section
/// of any platform holds, the walk comes upon it: a declaration among the
/// dependencies, a violation among the errors.  So a manifest with a
/// violation anywhere never yields dependencies, and one without yields
/// every dependency that it declares.
pub proof fn lemma_nothing_passed_over(
    document: Map<Seq<char>, Node>,
    walk: Walk,
    target: Option<Seq<char>>,
    name: Seq<char>,
    found: Result<DependencyView, PathErrorView>,
)
    requires
        walk_fits(document, walk),
        match target {
            None => child(document, "dependencies"@) matches Some(section) && declared(
                None,
                section,
                name,
                found,
            ),
            Some(platform) => {
                &&& child(document, "target"@) matches Some(Node::Table(platforms))
                &&& platforms.contains_key(platform)
                &&& platform_section(platforms[platform]) matches Some(section)
                &&& declared(Some(platform), section, name, found)
            },
        },
    ensures
        came_upon(walked_dependencies(document, walk), walked_errors(document, walk), found),
{
    let all_dependencies = walked_dependencies(document, walk);
    let all_errors = walked_errors(document, walk);
    match target {
        None => {
            let section = child(document, "dependencies"@)->0;
            let root_dependencies = section_dependencies(None, section, walk.root);
            let root_errors = section_errors(None, section, walk.root);
            lemma_section_yields(None, section, walk.root, name, found);
            match found {
                Ok(dependency) => {
                    let j = choose|j: int|
                        0 <= j < root_dependencies.len() && root_dependencies[j] == dependency;
                    assert(all_dependencies[j] == dependency);
                },
                Err(error) => {
                    let j = choose|j: int| 0 <= j < root_errors.len() && root_errors[j] == error;
                    assert(all_errors[j] == error);
                },
            }
        },
        Some(platform) => {
            let platforms = child(document, "target"@)->0->Table_0;
            assert(walk.platforms.contains((platform, platforms[platform])));
            let i = choose|i: int|
                0 <= i < walk.platforms.len() && walk.platforms[i] == (
                    platform,
                    platforms[platform],
                );
            let section = platform_section(walk.platforms[i].1)->0;
            let count = walk.platforms.len();
            lemma_section_yields(target, section, walk.sections[i], name, found);
            lemma_platform_yields(walk.platforms, walk.sections, count, i);
            let rest_dependencies = platform_dependencies(walk.platforms, walk.sections, count);
            let rest_errors = platform_errors(walk.platforms, walk.sections, count);
            let offset_dependencies = all_dependencies.len() - rest_dependencies.len();
            let offset_errors = all_errors.len() - rest_errors.len();
            match found {
                Ok(dependency) => {
                    assert(rest_dependencies.contains(dependency));
                    let j = choose|j: int|
                        0 <= j < rest_dependencies.len() && rest_dependencies[j] == dependency;
                    assert(all_dependencies[offset_dependencies + j] == dependency);
                },
                Err(error) => {
                    assert(rest_errors.contains(error));
                    let j = choose|j: int| 0 <= j < rest_errors.len() && rest_errors[j] == error;
                    assert(all_errors[offset_errors + j] == error);
                },
            }
        },
    }
}

/// The string under `key` in a table of details, if a string is there.
fn detail<'a>(details: TableEntry<'a>, key: &'a str) -> (text: Option<&'a str>)
    ensures
        optional_text(text) == string_field(table_map(details), key@),
{
    match table_entry(details, key) {
        Some(Entry::String(text)) => Some(text),
        _ => None,
    }
}

/// The dotted path of the table of dependencies for `target`.
fn section_path_of(target: Option<&str>) -> (path: String)
    ensures
        path@ == section_path(optional_text(target)),
{
    match target {
        Some(platform) => {
            let mut path = String::from_str("target.");
            path.append(platform);
            path.append(".dependencies");
            path
        },
        None => String::from_str("dependencies"),
    }
}

impl<'a> Dependency<'a> {
    /// A dependency declared by nothing but its version.
    pub fn simple(name: &'a str, target: Option<&'a str>, version: &'a str) -> (d: Dependency<'a>)
        ensures
            d@ == simple_dependency(name@, optional_text(target), version@),
    {
        Dependency { name: name, version: Some(version), git: None, path: None, target: target }
    }

    /// A dependency declared by a table of details, of which `version`, `git`
    /// and `path` are read where they are strings.
    pub fn complex(name: &'a str, target: Option<&'a str>, details: TableEntry<'a>) -> (d:
        Dependency<'a>)
        ensures
            d@ == complex_dependency(name@, optional_text(target), table_map(details)),
    {
        Dependency {
            name: name,
            version: detail(details, "version"),
            git: detail(details, "git"),
            path: detail(details, "path"),
            target: target,
        }
    }
}

/// What the entry `name` of a table of dependencies declares.
pub fn classify_entry<'a>(name: &'a str, target: Option<&'a str>, entry: Entry<'a>) -> (outcome:
    Result<Dependency<'a>, PathError>)
    ensures
        classified_view(outcome) == classify(name@, optional_text(target), entry.node()),
{
    match entry {
        Entry::String(version) => Ok(Dependency::simple(name, target, version)),
        Entry::Table(details) => Ok(Dependency::complex(name, target, details)),
        other => {
            let mut path = section_path_of(target);
            path.append(".");
            path.append(name);
            Err(PathError { path: path, expected: "string", got: entry_kind(other) })
        },
    }
}

/// Adds to `dependencies` and `errors` what the entries of `entries`
/// declare for `target`, each where it belongs and in the order given.
pub fn collect_listed<'a>(
    dependencies: &mut Vec<Dependency<'a>>,
    errors: &mut Vec<PathError>,
    target: Option<&'a str>,
    entries: &Vec<(&'a str, Entry<'a>)>,
)
    ensures
        dependency_views(final(dependencies)@) == dependency_views(old(dependencies)@)
            + listed_dependencies(optional_text(target), walk_view(entries@)),
        path_error_views(final(errors)@) == path_error_views(old(errors)@) + listed_errors(
            optional_text(target),
            walk_view(entries@),
        ),
{
    let ghost walk = walk_view(entries@);
    let ghost platform = optional_text(target);
    let mut i: usize = 0;
    assert(walk.take(0) =~= Seq::empty());
    assert(dependency_views(dependencies@) =~= dependency_views(old(dependencies)@)
        + listed_dependencies(platform, walk.take(0)));
    assert(path_error_views(errors@) =~= path_error_views(old(errors)@) + listed_errors(
        platform,
        walk.take(0),
    ));
    while i < entries.len()
        invariant
            0 <= i <= entries.len(),
            walk == walk_view(entries@),
            platform == optional_text(target),
            dependency_views(dependencies@) == dependency_views(old(dependencies)@)
                + listed_dependencies(platform, walk.take(i as int)),
            path_error_views(errors@) == path_error_views(old(errors)@) + listed_errors(
                platform,
                walk.take(i as int),
            ),
        decreases entries.len() - i,
    {
        let (name, value) = entries[i];
        let ghost before_dependencies = dependencies@;
        let ghost before_errors = errors@;
        proof {
            let next = walk.take(i + 1);
            assert(next.drop_last() =~= walk.take(i as int));
            assert(next.last() == (name@, value.node()));
        }
        match classify_entry(name, target, value) {
            Ok(dependency) => {
                dependencies.push(dependency);
                assert(dependency_views(dependencies@) =~= dependency_views(
                    before_dependencies,
                ).push(dependency@));
            },
            Err(error) => {
                let ghost said = error@;
                errors.push(error);
                assert(path_error_views(errors@) =~= path_error_views(before_errors).push(said));
            },
        }
        i += 1;
    }
    assert(walk.take(i as int) =~= walk);
}

/// Adds to `dependencies` and `errors` what the section `section` of
/// dependencies for `target` holds, and tells in which order the section was
/// walked.
fn collect_section<'a>(
    dependencies: &mut Vec<Dependency<'a>>,
    errors: &mut Vec<PathError>,
    target: Option<&'a str>,
    section: Entry<'a>,
) -> (walk: Ghost<Listing>)
    ensures
        walks(walk@, section.node()),
        dependency_views(final(dependencies)@) == dependency_views(old(dependencies)@)
            + section_dependencies(optional_text(target), section.node(), walk@),
        path_error_views(final(errors)@) == path_error_views(old(errors)@) + section_errors(
            optional_text(target),
            section.node(),
            walk@,
        ),
{
    match section {
        Entry::Table(table) => {
            let entries = table_listing(table);
            collect_listed(dependencies, errors, target, &entries);
            Ghost(walk_view(entries@))
        },
        other => {
            let ghost before_errors = errors@;
            let error = PathError {
                path: section_path_of(target),
                expected: "table",
                got: entry_kind(other),
            };
            let ghost said = error@;
            errors.push(error);
            assert(path_error_views(errors@) =~= path_error_views(before_errors) + seq![said]);
            assert(dependency_views(dependencies@) =~= dependency_views(old(dependencies)@)
                + Seq::<DependencyView>::empty());
            Ghost(Seq::empty())
        },
    }
}

impl Manifest {
    /// Every dependency that the manifest declares, or every violation found
    /// among the declarations.
    ///
    /// The tables are walked in an order that the document does not fix; the
    /// answer lists the declarations of the root first and then those of each
    /// platform, each table in the order of its walk.  One violation anywhere
    /// turns the whole answer into the list of violations.
    pub fn get_dependencies<'a>(&'a self) -> (outcome: Result<
        Vec<Dependency<'a>>,
        Vec<PathError>,
    >)
        ensures
            exists|walk: Walk|
                walk_fits(self@, walk) && extracted_view(outcome) == verdict(
                    walked_dependencies(self@, walk),
                    walked_errors(self@, walk),
                ),
    {
        let mut dependencies: Vec<Dependency<'a>> = Vec::new();
        let mut errors: Vec<PathError> = Vec::new();
        let ghost mut root: Listing = Seq::empty();
        let ghost mut platforms: Listing = Seq::empty();
        let ghost mut sections: Seq<Listing> = Seq::empty();
        assert(dependency_views(dependencies@) =~= Seq::empty());
        assert(path_error_views(errors@) =~= Seq::empty());
        match self.get("dependencies") {
            Some(section) => {
                let walk = collect_section(&mut dependencies, &mut errors, None, section);
                proof {
                    root = walk@;
                    assert(dependency_views(dependencies@) =~= section_dependencies(
                        None,
                        section.node(),
                        root,
                    ));
                    assert(path_error_views(errors@) =~= section_errors(
                        None,
                        section.node(),
                        root,
                    ));
                }
            },
            None => {},
        }
        let ghost root_dependencies = dependency_views(dependencies@);
        let ghost root_errors = path_error_views(errors@);
        match self.get("target") {
            Some(Entry::Table(table)) => {
                let entries = table_listing(table);
                proof {
                    platforms = walk_view(entries@);
                }
                let mut i: usize = 0;
                assert(dependency_views(dependencies@) =~= root_dependencies
                    + platform_dependencies(platforms, sections, 0));
                assert(path_error_views(errors@) =~= root_errors + platform_errors(
                    platforms,
                    sections,
                    0,
                ));
                while i < entries.len()
                    invariant
                        0 <= i <= entries.len(),
                        platforms == walk_view(entries@),
                        sections.len() == i,
                        forall|j: int|
                            0 <= j < i ==> match platform_section((#[trigger] platforms[j]).1) {
                                Some(section) => walks(sections[j], section),
                                None => true,
                            },
                        dependency_views(dependencies@) == root_dependencies
                            + platform_dependencies(platforms, sections, i as nat),
                        path_error_views(errors@) == root_errors + platform_errors(
                            platforms,
                            sections,
                            i as nat,
                        ),
                    decreases entries.len() - i,
                {
                    let (name, value) = entries[i];
                    let ghost before = sections;
                    let ghost mut walked: Listing = Seq::empty();
                    match value {
                        Entry::Table(platform) => {
                            match table_entry(platform, "dependencies") {
                                Some(section) => {
                                    let walk = collect_section(
                                        &mut dependencies,
                                        &mut errors,
                                        Some(name),
                                        section,
                                    );
                                    proof {
                                        walked = walk@;
                                    }
                                },
                                None => {},
                            }
                        },
                        _ => {},
                    }
                    proof {
                        sections = before.push(walked);
                        lemma_platforms_prefix(platforms, before, sections, i as nat);
                    }
                    i += 1;
                }
            },
            _ => {},
        }
        proof {
            let walk = Walk { root, platforms, sections };
            assert(walk_fits(self@, walk));
            assert(dependency_views(dependencies@) == walked_dependencies(self@, walk));
            assert(path_error_views(errors@) == walked_errors(self@, walk));
        }
        if errors.len() > 0 {
            Err(errors)
        } else {
            Ok(dependencies)
        }
    }
}

} // verus!
