use std::rc::Rc;

use lyss::runtime::object::{Object, ObjectEntry};
use lyss::LyssRuntimeError;

fn s(x: &str) -> String {
    x.to_string()
}

fn tree() -> Object<u8> {
    let mut inner: Object<u8> = Object::new();
    inner.insert(s("leaf"), ObjectEntry::Leaf(3));
    let mut mid: Object<u8> = Object::new();
    mid.insert(s("inner"), ObjectEntry::Branch(Rc::new(inner)));
    let mut root: Object<u8> = Object::new();
    root.insert(s("mid"), ObjectEntry::Branch(Rc::new(mid)));
    root.insert(s("top"), ObjectEntry::Leaf(1));
    root
}

#[test]
fn registered_leaf_is_found_exactly() {
    let root = tree();
    assert_eq!(root.find_leaf(&[s("mid"), s("inner"), s("leaf")]).unwrap(), 3);
    assert_eq!(root.find_leaf(&[s("top")]).unwrap(), 1);
}

#[test]
fn path_through_a_leaf_fails() {
    let root = tree();
    let r = root.find_leaf(&[s("mid"), s("inner"), s("leaf"), s("more")]);
    assert!(matches!(r, Err(LyssRuntimeError::EntryWasLeaf { path }) if path.len() == 4));
}

#[test]
fn prefixes_end_on_branches() {
    let root = tree();
    assert!(matches!(root.find_leaf(&[s("mid"), s("inner")]), Err(LyssRuntimeError::EntryWasBranch { .. })));
    assert!(matches!(root.find_leaf(&[s("mid")]), Err(LyssRuntimeError::EntryWasBranch { .. })));
    assert!(matches!(root.find_leaf(&[]), Err(LyssRuntimeError::EntryWasBranch { .. })));
}

#[test]
fn missing_segment_is_not_found() {
    let root = tree();
    let r = root.find_leaf(&[s("mid"), s("nope")]);
    assert!(matches!(r, Err(LyssRuntimeError::EntryNotFound { path }) if path == vec![s("mid"), s("nope")]));
}

#[test]
fn find_branch_stops_on_branches_only() {
    let root = tree();
    let b = root.find_branch(&[s("mid"), s("inner")]).unwrap();
    assert_eq!(b.find_leaf(&[s("leaf")]).unwrap(), 3);
    assert!(matches!(root.find_branch(&[s("top")]), Err(LyssRuntimeError::EntryWasLeaf { .. })));
    assert!(matches!(root.find_branch(&[s("gone")]), Err(LyssRuntimeError::EntryNotFound { .. })));
}

#[test]
fn insert_replaces_an_entry() {
    let mut root = tree();
    root.insert(s("top"), ObjectEntry::Leaf(9));
    assert_eq!(root.find_leaf(&[s("top")]).unwrap(), 9);
    assert_eq!(root.0.len(), 2);
}

#[test]
fn find_entry_gives_the_shared_branch() {
    let root = tree();
    match root.find_entry(&[s("mid")]).unwrap() {
        ObjectEntry::Branch(b) => assert_eq!(b.find_leaf(&[s("inner"), s("leaf")]).unwrap(), 3),
        ObjectEntry::Leaf(_) => panic!("a branch was expected"),
    }
    assert!(matches!(root.find_entry(&[s("top"), s("x")]), Err(LyssRuntimeError::EntryWasLeaf { .. })));
}
