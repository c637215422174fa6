use toml_document::Document;
use vist_toml::target::{collect_array, collect_table, read_string, read_switch, read_target};
use vist_toml::{Entry, Manifest, OutputTarget, PathError};

fn manifest(text: &str) -> Manifest {
    Manifest::new(Document::parse(text).ok().unwrap())
}

fn switches(t: &OutputTarget) -> [bool; 6] {
    [t.test, t.doctest, t.bench, t.doc, t.plugin, t.harness]
}

#[test]
fn switches_each_kind_starts_from() {
    assert_eq!(OutputTarget::lib().kind, "lib");
    assert_eq!(switches(&OutputTarget::lib()), [true, true, true, true, false, true]);
    assert_eq!(OutputTarget::bin().kind, "bin");
    assert_eq!(switches(&OutputTarget::bin()), [true, false, true, true, false, true]);
    assert_eq!(OutputTarget::bench().kind, "bench");
    assert_eq!(switches(&OutputTarget::bench()), [false, false, true, false, false, true]);
    assert_eq!(OutputTarget::test().kind, "test");
    assert_eq!(switches(&OutputTarget::test()), [true, false, false, false, false, true]);
    assert_eq!(OutputTarget::example().kind, "example");
    assert_eq!(switches(&OutputTarget::example()), [true, false, false, false, false, true]);
    assert_eq!(OutputTarget::default().kind, "");
    assert_eq!(switches(&OutputTarget::default()), [true, false, true, false, false, true]);
    assert_eq!(OutputTarget::default().name, None);
    assert_eq!(OutputTarget::default().path, None);
}

#[test]
fn no_targets_at_all() {
    let m = manifest("[package]\nname = \"x\"\n");
    let targets = m.get_output_targets().ok().unwrap();
    assert!(targets.is_empty());
}

#[test]
fn one_binary_with_untouched_switches() {
    let m = manifest("bin = [{name=\"x\"}]\n");
    let targets = m.get_output_targets().ok().unwrap();
    assert_eq!(targets.len(), 1);
    let t = &targets[0];
    assert_eq!(t.kind, "bin");
    assert_eq!(t.name, Some("x"));
    assert_eq!(t.path, None);
    assert!(t.test);
    assert!(!t.doctest);
    assert!(t.bench);
    assert!(t.doc);
    assert!(!t.plugin);
    assert!(t.harness);
}

#[test]
fn an_array_of_integers_holds_no_targets() {
    let m = manifest("bin = [1, 2]\n");
    let errors = m.get_output_targets().err().unwrap();
    assert_eq!(errors.len(), 1);
    assert_eq!(errors[0].path, "bin");
    assert_eq!(errors[0].expected, "array of tables");
    assert_eq!(errors[0].got, "array of integers");
}

#[test]
fn arrays_are_named_after_their_first_element() {
    let cases = [
        ("test = [\"a\"]\n", "array of strings"),
        ("test = [1.5]\n", "array of floats"),
        ("test = [true]\n", "array of booleans"),
        ("test = [1979-05-27T07:32:00Z]\n", "array of datetimes"),
        ("test = [[1]]\n", "array of arrays"),
    ];
    for (text, got) in cases {
        let m = manifest(text);
        let errors = m.get_output_targets().err().unwrap();
        assert_eq!(errors.len(), 1);
        assert_eq!(errors[0].path, "test");
        assert_eq!(errors[0].expected, "array of tables");
        assert_eq!(errors[0].got, got);
    }
}

#[test]
fn an_empty_array_is_in_order() {
    let m = manifest("bin = []\nexample = []\n");
    assert!(m.get_output_targets().ok().unwrap().is_empty());
}

#[test]
fn targets_come_in_the_order_of_their_kinds() {
    let m = manifest(
        "[[example]]\nname = \"e1\"\n\n[[test]]\nname = \"t1\"\n\n[[bench]]\nname = \"b1\"\n\n[[bin]]\nname = \"first\"\npath = \"src/first.rs\"\n\n[[bin]]\nname = \"second\"\ndoc = false\nplugin = true\n\n[lib]\nname = \"core\"\ndoctest = false\n",
    );
    let targets = m.get_output_targets().ok().unwrap();
    let kinds: Vec<&str> = targets.iter().map(|t| t.kind).collect();
    assert_eq!(kinds, vec!["lib", "bin", "bin", "bench", "test", "example"]);
    let names: Vec<Option<&str>> = targets.iter().map(|t| t.name).collect();
    assert_eq!(
        names,
        vec![Some("core"), Some("first"), Some("second"), Some("b1"), Some("t1"), Some("e1")]
    );
    assert_eq!(switches(&targets[0]), [true, false, true, true, false, true]);
    assert_eq!(targets[1].path, Some("src/first.rs"));
    assert_eq!(switches(&targets[1]), [true, false, true, true, false, true]);
    assert_eq!(switches(&targets[2]), [true, false, true, false, true, true]);
    assert_eq!(switches(&targets[3]), [false, false, true, false, false, true]);
    assert_eq!(switches(&targets[4]), [true, false, false, false, false, true]);
    assert_eq!(switches(&targets[5]), [true, false, false, false, false, true]);
}

#[test]
fn every_switch_can_be_overridden() {
    let m = manifest(
        "[lib]\ntest = false\ndoctest = false\nbench = false\ndoc = false\nplugin = true\nharness = false\n",
    );
    let targets = m.get_output_targets().ok().unwrap();
    assert_eq!(targets.len(), 1);
    assert_eq!(targets[0].kind, "lib");
    assert_eq!(targets[0].name, None);
    assert_eq!(switches(&targets[0]), [false, false, false, false, true, false]);
}

#[test]
fn places_of_the_wrong_kind() {
    let m = manifest("lib = 5\nbin = \"x\"\nbench = true\n");
    let errors = m.get_output_targets().err().unwrap();
    assert_eq!(errors.len(), 3);
    assert_eq!((errors[0].path.as_str(), errors[0].expected, errors[0].got), ("lib", "table", "integer"));
    assert_eq!((errors[1].path.as_str(), errors[1].expected, errors[1].got), ("bin", "array", "string"));
    assert_eq!(
        (errors[2].path.as_str(), errors[2].expected, errors[2].got),
        ("bench", "array", "boolean")
    );
}

#[test]
fn a_table_where_an_array_is_wanted() {
    let m = manifest("[bin]\nname = \"x\"\n");
    let errors = m.get_output_targets().err().unwrap();
    assert_eq!(errors.len(), 1);
    assert_eq!((errors[0].path.as_str(), errors[0].expected, errors[0].got), ("bin", "array", "table"));
}

#[test]
fn a_field_of_the_wrong_kind_drops_its_target_only() {
    let m = manifest(
        "[lib]\nname = \"core\"\n\n[[bin]]\nname = \"good\"\n\n[[bin]]\nname = \"bad\"\ntest = \"yes\"\n\n[[test]]\nname = 7\nharness = 1\n",
    );
    let errors = m.get_output_targets().err().unwrap();
    assert_eq!(errors.len(), 2);
    assert_eq!(
        (errors[0].path.as_str(), errors[0].expected, errors[0].got),
        ("bin.test", "boolean", "string")
    );
    assert_eq!(
        (errors[1].path.as_str(), errors[1].expected, errors[1].got),
        ("test.name", "string", "integer")
    );
}

#[test]
fn read_string_on_each_case() {
    assert_eq!(read_string(None, "a.name".to_string()).ok(), Some(None));
    assert_eq!(read_string(Some(Entry::String("x")), "a.name".to_string()).ok(), Some(Some("x")));
    let e: PathError = read_string(Some(Entry::Boolean(true)), "a.name".to_string()).err().unwrap();
    assert_eq!((e.path.as_str(), e.expected, e.got), ("a.name", "string", "boolean"));
}

#[test]
fn read_switch_on_each_case() {
    assert_eq!(read_switch(None, "a.doc".to_string()).ok(), Some(None));
    assert_eq!(read_switch(Some(Entry::Boolean(false)), "a.doc".to_string()).ok(), Some(Some(false)));
    let e: PathError = read_switch(Some(Entry::Datetime), "a.doc".to_string()).err().unwrap();
    assert_eq!((e.path.as_str(), e.expected, e.got), ("a.doc", "boolean", "datetime"));
}

#[test]
fn read_target_reports_the_first_field_in_order() {
    let m = manifest("[it]\nharness = 1\npath = 2\ndoc = 3\n");
    match m.get("it") {
        Some(Entry::Table(details)) => {
            let e = read_target("bench", details, OutputTarget::bench()).err().unwrap();
            assert_eq!((e.path.as_str(), e.expected, e.got), ("bench.path", "string", "integer"));
        }
        _ => panic!("expected a table"),
    }
}

#[test]
fn collect_table_on_hand_made_entries() {
    let mut targets = Vec::new();
    let mut errors = Vec::new();
    collect_table("bin", None, OutputTarget::bin(), &mut targets, &mut errors);
    assert!(targets.is_empty() && errors.is_empty());
    collect_table("bin", Some(Entry::Integer), OutputTarget::bin(), &mut targets, &mut errors);
    assert!(targets.is_empty());
    assert_eq!(errors.len(), 1);
    assert_eq!((errors[0].path.as_str(), errors[0].expected, errors[0].got), ("bin", "table", "integer"));
}

#[test]
fn collect_array_on_hand_made_entries() {
    let mut targets = Vec::new();
    let mut errors = Vec::new();
    collect_array("test", None, OutputTarget::test(), &mut targets, &mut errors);
    assert!(targets.is_empty() && errors.is_empty());
    collect_array("test", Some(Entry::Float), OutputTarget::test(), &mut targets, &mut errors);
    assert!(targets.is_empty());
    assert_eq!(errors.len(), 1);
    assert_eq!((errors[0].path.as_str(), errors[0].expected, errors[0].got), ("test", "array", "float"));
}
