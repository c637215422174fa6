use vist_toml::manifest::string_values;
use vist_toml::{
    BorrowedSlice, Contained, Dependency, Entry, OwnedSlice, RawDependency, RawSlice,
};

#[test]
fn the_empty_buffer_has_no_block() {
    let raw: RawSlice<u8> = RawSlice::empty();
    assert_eq!(raw.len(), 0);
    assert!(raw.block().is_none());
    let owned: OwnedSlice<u32> = OwnedSlice::empty();
    assert_eq!(owned.len(), 0);
    assert!(owned.block().is_none());
    let borrowed: BorrowedSlice<u8> = BorrowedSlice::empty();
    assert_eq!(borrowed.len(), 0);
    assert!(borrowed.block().is_none());
}

#[test]
fn a_block_of_no_elements_is_not_the_empty_buffer() {
    let raw: RawSlice<u8> = RawSlice::from_vec(Vec::new());
    assert_eq!(raw.len(), 0);
    assert_eq!(raw.block(), Some(&[][..]));
    let owned = OwnedSlice::from_str("");
    assert_eq!(owned.len(), 0);
    assert_eq!(owned.block(), Some(&[][..]));
}

#[test]
fn from_vec_keeps_the_elements() {
    let raw = RawSlice::from_vec(vec![3u16, 1, 2]);
    assert_eq!(raw.len(), 3);
    assert_eq!(raw.block(), Some(&[3u16, 1, 2][..]));
}

#[test]
fn from_str_holds_the_bytes() {
    let owned = OwnedSlice::from_str("héllo");
    assert_eq!(owned.len(), 6);
    assert_eq!(owned.block(), Some("héllo".as_bytes()));
}

#[test]
fn from_str_opt_tells_none_from_some() {
    assert!(OwnedSlice::from_str_opt(None).block().is_none());
    assert_eq!(OwnedSlice::from_str_opt(Some("ab")).block(), Some(&b"ab"[..]));
    assert_eq!(OwnedSlice::from_str_opt(Some("")).block(), Some(&[][..]));
}

#[test]
fn from_slice_maps_each_element() {
    let owned: OwnedSlice<usize> = OwnedSlice::from_slice(&["a", "bcd", ""], |s: &&str| s.len());
    assert_eq!(owned.len(), 3);
    assert_eq!(owned.block(), Some(&[1usize, 3, 0][..]));
}

#[test]
fn strings_round_trip_through_owned_buffers() {
    let strings = ["", "plain", "dotted.path", "ünïcödé ✓", "tab\tand\nnewline", "\u{10348}"];
    let buffers: OwnedSlice<OwnedSlice<u8>> =
        OwnedSlice::from_slice(&strings, |s: &&str| OwnedSlice::from_str(s));
    assert_eq!(buffers.len(), 6);
    let block = buffers.block().unwrap();
    for (buffer, string) in block.iter().zip(strings.iter()) {
        assert_eq!(buffer.block(), Some(string.as_bytes()));
        assert_eq!(buffer.borrow().as_str(), Some(*string));
    }
}

#[test]
fn from_strs_and_back() {
    let strings = ["", "plain", "ünïcödé ✓", "\u{10348}", "a.b.c"];
    let buffers = OwnedSlice::from_strs(&strings);
    assert_eq!(buffers.len(), 5);
    let block = buffers.block().unwrap();
    for (buffer, string) in block.iter().zip(strings.iter()) {
        assert_eq!(buffer.block(), Some(string.as_bytes()));
        assert_eq!(buffer.len() as usize, string.len());
    }
    assert_eq!(buffers.as_str_vec(), Some(strings.to_vec()));
    let none = OwnedSlice::from_strs(&[]);
    assert_eq!(none.len(), 0);
    assert!(none.block().is_some());
    assert_eq!(none.as_str_vec(), Some(Vec::new()));
    let empty: OwnedSlice<OwnedSlice<u8>> = OwnedSlice::empty();
    assert_eq!(empty.as_str_vec(), Some(Vec::new()));
}

#[test]
fn as_str_vec_of_owned_buffers_refuses_bytes_that_spell_nothing() {
    let buffers: OwnedSlice<OwnedSlice<u8>> = OwnedSlice::from_slice(&[0x61u8, 0xff], |byte: &u8| {
        OwnedSlice::from_slice(&[*byte], |b: &u8| *b)
    });
    assert_eq!(buffers.len(), 2);
    assert_eq!(buffers.as_str_vec(), None);
}

#[test]
fn an_absent_text_is_the_empty_buffer_of_length_zero() {
    let absent = OwnedSlice::from_str_opt(None);
    assert!(absent.block().is_none());
    assert_eq!(absent.len(), 0);
    let d = Dependency { name: "n", version: None, git: Some("g"), path: None, target: None };
    let raw = RawDependency::from(&d);
    assert_eq!(raw.name.len(), 1);
    assert_eq!((raw.version.len(), raw.version.block().is_none()), (0, true));
    assert_eq!((raw.git.len(), raw.git.block()), (1, Some(&b"g"[..])));
    assert_eq!((raw.path.len(), raw.path.block().is_none()), (0, true));
    assert_eq!((raw.target.len(), raw.target.block().is_none()), (0, true));
}

#[test]
fn release_is_idempotent() {
    let mut owned = OwnedSlice::from_str("gone soon");
    assert_eq!(owned.len(), 9);
    owned.release();
    assert_eq!(owned.len(), 0);
    assert!(owned.block().is_none());
    owned.release();
    assert_eq!(owned.len(), 0);
    assert!(owned.block().is_none());
    let mut empty: OwnedSlice<u8> = OwnedSlice::empty();
    empty.release();
    assert!(empty.block().is_none());
}

#[test]
fn transfer_hands_the_block_over_once() {
    let mut owned = OwnedSlice::from_str("mine");
    assert_eq!(owned.transfer(), Some(b"mine".to_vec()));
    assert!(owned.block().is_none());
    assert_eq!(owned.transfer(), None);
    assert_eq!(RawSlice::from_vec(vec![1u8, 2]).into_vec(), Some(vec![1u8, 2]));
    assert_eq!(RawSlice::<u8>::empty().into_vec(), None);
}

#[test]
fn a_borrowed_buffer_looks_at_the_same_bytes() {
    let text = String::from("borrowed");
    let view = BorrowedSlice::from_str(&text);
    assert_eq!(view.len(), 8);
    assert_eq!(view.block(), Some(text.as_bytes()));
    assert_eq!(view.as_str(), Some("borrowed"));
    let fixed = BorrowedSlice::from_static("fixed");
    assert_eq!(fixed.as_str(), Some("fixed"));
    let owned = OwnedSlice::from_str("owned");
    assert_eq!(owned.borrow().as_str(), Some("owned"));
    let nothing: OwnedSlice<u8> = OwnedSlice::empty();
    assert!(nothing.borrow().block().is_none());
}

#[test]
fn as_str_of_the_empty_buffer_is_the_empty_string() {
    let view: BorrowedSlice<u8> = BorrowedSlice::empty();
    assert_eq!(view.as_str(), Some(""));
}

#[test]
fn as_str_refuses_bytes_that_spell_nothing() {
    let bytes = [0x66u8, 0xff, 0x6f];
    assert_eq!(BorrowedSlice::from_slice(&bytes[..]).as_str(), None);
    let cut = [0xe2u8, 0x9c];
    assert_eq!(BorrowedSlice::from_slice(&cut[..]).as_str(), None);
    assert_eq!(BorrowedSlice::from_slice("✓".as_bytes()).as_str(), Some("✓"));
}

#[test]
fn as_str_vec_reads_every_buffer() {
    let inner = [BorrowedSlice::from_str("one"), BorrowedSlice::empty(), BorrowedSlice::from_str("three")];
    let outer = BorrowedSlice::from_slice(&inner[..]);
    assert_eq!(outer.as_str_vec(), Some(vec!["one", "", "three"]));
    let none: BorrowedSlice<BorrowedSlice<u8>> = BorrowedSlice::empty();
    assert_eq!(none.as_str_vec(), Some(Vec::new()));
    let bad = [0xc0u8];
    let inner = [BorrowedSlice::from_str("one"), BorrowedSlice::from_slice(&bad[..])];
    assert_eq!(BorrowedSlice::from_slice(&inner[..]).as_str_vec(), None);
}

#[test]
fn a_raw_dependency_holds_the_bytes_of_each_text() {
    let d = Dependency { name: "dep", version: Some("1.0"), git: None, path: Some(""), target: None };
    let raw = RawDependency::from(&d);
    assert_eq!(raw.name.block(), Some(&b"dep"[..]));
    assert_eq!(raw.version.block(), Some(&b"1.0"[..]));
    assert!(raw.git.block().is_none());
    assert_eq!(raw.path.block(), Some(&[][..]));
    assert!(raw.target.block().is_none());
    match RawDependency::contained_from(&d) {
        Contained::Completed(raw) => {
            assert_eq!(raw.name.block(), Some(&b"dep"[..]));
            assert!(raw.target.block().is_none());
        }
        Contained::Failed => panic!("a short dependency fits"),
    }
}

#[test]
fn strings_among_other_entries_fail_within() {
    let mixed = vec![Entry::String("a"), Entry::Integer, Entry::String("c")];
    assert!(string_values(&mixed).is_failed());
    let pure = vec![Entry::String("a"), Entry::String("b")];
    assert_eq!(string_values(&pure).completed(), Some(vec!["a", "b"]));
    assert_eq!(string_values(&Vec::new()).completed(), Some(Vec::new()));
}

#[test]
fn contained_tells_failure_from_an_answer() {
    let done: Contained<u8> = Contained::Completed(7);
    assert!(!done.is_failed());
    assert_eq!(done.completed(), Some(7));
    let failed: Contained<u8> = Contained::Failed;
    assert!(failed.is_failed());
    assert_eq!(failed.completed(), None);
}
