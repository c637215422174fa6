use toml_document::Document;
use vist_toml::{Contained, Entry, Manifest, QueryError};

fn manifest(text: &str) -> Manifest {
    Manifest::new(Document::parse(text).ok().unwrap())
}

const SAMPLE: &str = "title = \"demo\"\ncount = 3\nwords = [\"a\", \"b\", \"c\"]\nnone = []\nnumbers = [1, 2]\n\n[package]\nname = \"pkg\"\nauthors = [\"me\"]\n\n[package.meta]\nlevel = \"deep\"\n";

#[test]
fn get_string_at_the_root() {
    let m = manifest(SAMPLE);
    assert_eq!(m.get_string(&["title"]).ok(), Some("demo"));
}

#[test]
fn get_string_in_nested_tables() {
    let m = manifest(SAMPLE);
    assert_eq!(m.get_string(&["package", "name"]).ok(), Some("pkg"));
    assert_eq!(m.get_string(&["package", "meta", "level"]).ok(), Some("deep"));
}

#[test]
fn vacant_is_at_the_index_of_the_missing_segment() {
    let m = manifest(SAMPLE);
    assert!(matches!(m.get_string(&["missing"]), Err(QueryError::Vacant { depth: 0 })));
    assert!(matches!(m.get_string(&["package", "missing"]), Err(QueryError::Vacant { depth: 1 })));
    assert!(matches!(
        m.get_string(&["package", "meta", "missing"]),
        Err(QueryError::Vacant { depth: 2 })
    ));
    assert!(matches!(
        m.get_string(&["package", "missing", "further"]),
        Err(QueryError::Vacant { depth: 1 })
    ));
}

#[test]
fn conflict_names_the_node_in_the_way() {
    let m = manifest(SAMPLE);
    match m.lookup(&["title", "x"]) {
        Err(QueryError::Conflict { depth, kind }) => {
            assert_eq!(depth, 0);
            assert_eq!(kind, "string");
        }
        _ => panic!("expected a conflict"),
    }
    match m.lookup(&["package", "authors", "x", "y"]) {
        Err(QueryError::Conflict { depth, kind }) => {
            assert_eq!(depth, 1);
            assert_eq!(kind, "array");
        }
        _ => panic!("expected a conflict"),
    }
    match m.get_string(&["package", "meta", "level", "deeper"]) {
        Err(QueryError::Conflict { depth, kind }) => {
            assert_eq!(depth, 2);
            assert_eq!(kind, "string");
        }
        _ => panic!("expected a conflict"),
    }
}

#[test]
fn a_string_in_the_way_of_a_second_key() {
    let m = manifest("a = 's'\n");
    match m.lookup(&["a", "b"]) {
        Err(QueryError::Conflict { depth, kind }) => {
            assert_eq!(depth, 0);
            assert_eq!(kind, "string");
        }
        _ => panic!("expected a conflict"),
    }
    match m.get_string_array(&["a", "b", "c"]) {
        Err(QueryError::Conflict { depth, kind }) => {
            assert_eq!(depth, 0);
            assert_eq!(kind, "string");
        }
        _ => panic!("expected a conflict"),
    }
}

#[test]
fn each_kind_in_the_way_is_named() {
    let m = manifest(
        "i = 1\nf = 0.5\nb = true\nd = 1979-05-27T07:32:00Z\nl = [1]\n\n[t]\ns = \"x\"\n",
    );
    let cases = [
        ("i", "integer"),
        ("f", "float"),
        ("b", "boolean"),
        ("d", "datetime"),
        ("l", "array"),
    ];
    for (key, name) in cases {
        match m.lookup(&[key, "next"]) {
            Err(QueryError::Conflict { depth, kind }) => {
                assert_eq!(depth, 0);
                assert_eq!(kind, name);
            }
            _ => panic!("expected a conflict"),
        }
    }
    match m.lookup(&["t", "s", "next"]) {
        Err(QueryError::Conflict { depth, kind }) => {
            assert_eq!(depth, 1);
            assert_eq!(kind, "string");
        }
        _ => panic!("expected a conflict"),
    }
}

#[test]
fn get_string_on_another_kind_is_a_conflict_at_full_depth() {
    let m = manifest(SAMPLE);
    match m.get_string(&["count"]) {
        Err(QueryError::Conflict { depth, kind }) => {
            assert_eq!(depth, 1);
            assert_eq!(kind, "integer");
        }
        _ => panic!("expected a conflict"),
    }
    match m.get_string(&["package", "meta"]) {
        Err(QueryError::Conflict { depth, kind }) => {
            assert_eq!(depth, 2);
            assert_eq!(kind, "table");
        }
        _ => panic!("expected a conflict"),
    }
}

#[test]
fn lookup_hands_out_the_entry() {
    let m = manifest(SAMPLE);
    assert!(matches!(m.lookup(&["package"]), Ok(Entry::Table(_))));
    assert!(matches!(m.lookup(&["words"]), Ok(Entry::Array(_))));
    assert!(matches!(m.lookup(&["count"]), Ok(Entry::Integer)));
    assert!(matches!(m.lookup(&["title"]), Ok(Entry::String("demo"))));
}

#[test]
fn get_string_array_reads_every_element() {
    let m = manifest(SAMPLE);
    assert_eq!(m.get_string_array(&["words"]).ok(), Some(vec!["a", "b", "c"]));
    assert_eq!(m.get_string_array(&["package", "authors"]).ok(), Some(vec!["me"]));
}

#[test]
fn get_string_array_of_an_empty_array_is_empty() {
    let m = manifest(SAMPLE);
    assert_eq!(m.get_string_array(&["none"]).ok(), Some(Vec::new()));
}

#[test]
fn get_string_array_judges_by_the_first_element() {
    let m = manifest(SAMPLE);
    match m.get_string_array(&["numbers"]) {
        Err(QueryError::Conflict { depth, kind }) => {
            assert_eq!(depth, 1);
            assert_eq!(kind, "integer");
        }
        _ => panic!("expected a conflict"),
    }
    match m.get_string_array(&["title"]) {
        Err(QueryError::Conflict { depth, kind }) => {
            assert_eq!(depth, 1);
            assert_eq!(kind, "string");
        }
        _ => panic!("expected a conflict"),
    }
    assert!(matches!(m.get_string_array(&["nowhere"]), Err(QueryError::Vacant { depth: 0 })));
}

#[test]
fn an_empty_path_fails_within() {
    let m = manifest(SAMPLE);
    assert!(m.contained_lookup(&[]).is_failed());
    assert!(m.contained_get_string(&[]).is_failed());
    assert!(m.contained_get_string_array(&[]).is_failed());
}

#[test]
fn contained_queries_answer_as_the_plain_ones() {
    let m = manifest(SAMPLE);
    match m.contained_get_string(&["title"]) {
        Contained::Completed(Ok(text)) => assert_eq!(text, "demo"),
        _ => panic!("expected a string"),
    }
    match m.contained_get_string_array(&["words"]) {
        Contained::Completed(Ok(words)) => assert_eq!(words, vec!["a", "b", "c"]),
        _ => panic!("expected strings"),
    }
    assert!(matches!(
        m.contained_lookup(&["package", "gone"]),
        Contained::Completed(Err(QueryError::Vacant { depth: 1 }))
    ));
}
