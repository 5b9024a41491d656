use ifuse_rs::inode::{child, parent, InodeTable, ROOT};

#[test]
fn renames_entire_subtree() {
    let mut table = InodeTable::default();
    let dir = table.inode("/old");
    let file = table.inode("/old/file");
    table.rename("/old", "/new");
    assert_eq!(table.path(dir).as_deref(), Some("/new"));
    assert_eq!(table.path(file).as_deref(), Some("/new/file"));
}

#[test]
fn root_is_known_from_the_start() {
    let mut table = InodeTable::default();
    assert_eq!(ROOT, 1);
    assert_eq!(table.path(ROOT).as_deref(), Some("/"));
    assert_eq!(table.inode("/"), ROOT);
    assert_eq!(table.path(2), None);
    assert!(table.has_room());
}

#[test]
fn numbers_are_given_once() {
    let mut table = InodeTable::default();
    let a = table.inode("/a");
    let b = table.inode("/b");
    assert_eq!((a, b), (2, 3));
    assert_eq!(table.inode("/a"), a);
}

#[test]
fn renaming_leaves_what_only_looks_alike() {
    let mut table = InodeTable::default();
    let alike = table.inode("/older");
    let inside = table.inode("/old/a");
    table.rename("/old", "/new");
    assert_eq!(table.path(alike).as_deref(), Some("/older"));
    assert_eq!(table.path(inside).as_deref(), Some("/new/a"));
    assert_eq!(table.inode("/new/a"), inside);
    assert_ne!(table.inode("/old/a"), inside);
}

#[test]
fn renaming_back_restores() {
    let mut table = InodeTable::default();
    let dir = table.inode("/a");
    let file = table.inode("/a/f");
    table.rename("/a", "/b");
    table.rename("/b", "/a");
    assert_eq!(table.path(dir).as_deref(), Some("/a"));
    assert_eq!(table.path(file).as_deref(), Some("/a/f"));
    assert_eq!(table.inode("/a/f"), file);
}

#[test]
fn renaming_takes_over_a_path() {
    let mut table = InodeTable::default();
    let from = table.inode("/from");
    let to = table.inode("/to");
    table.rename("/from", "/to");
    assert_eq!(table.inode("/to"), from);
    assert_eq!(table.path(to).as_deref(), Some("/to"));
}

#[test]
fn removing_forgets_a_subtree() {
    let mut table = InodeTable::default();
    let dir = table.inode("/d");
    let file = table.inode("/d/f");
    let other = table.inode("/dd");
    table.remove("/d");
    assert_eq!(table.path(dir), None);
    assert_eq!(table.path(file), None);
    assert_eq!(table.path(other).as_deref(), Some("/dd"));
    assert_eq!(table.inode("/d"), 5);
}

#[test]
fn parents_and_children_match() {
    assert_eq!(child("/", "a"), "/a");
    assert_eq!(child("/a", "b"), "/a/b");
    assert_eq!(parent("/a/b"), "/a");
    assert_eq!(parent("/a"), "/");
    assert_eq!(parent("/"), "/");
    assert_eq!(parent("a"), "/");
}
