use std::collections::BTreeMap;

use iconcraft::error::IconError;
use iconcraft::walk::{DirWalk, WalkEntry, WalkResult};

fn dir(path: &str) -> WalkEntry {
    WalkEntry { path: path.to_string(), is_dir: true, is_file: false, is_symlink: false }
}

fn file(path: &str) -> WalkEntry {
    WalkEntry { path: path.to_string(), is_dir: false, is_file: true, is_symlink: false }
}

fn link_to_dir(path: &str) -> WalkEntry {
    WalkEntry { path: path.to_string(), is_dir: true, is_file: false, is_symlink: true }
}

fn drive(mut w: DirWalk, tree: &BTreeMap<String, Vec<WalkEntry>>) -> WalkResult {
    while let Some(d) = w.next_dir() {
        let entries = tree.get(&d).cloned().unwrap_or_default();
        w.feed(entries);
    }
    w.finish()
}

fn chain_tree() -> BTreeMap<String, Vec<WalkEntry>> {
    let mut t = BTreeMap::new();
    t.insert("/r".to_string(), vec![dir("/r/一级")]);
    t.insert("/r/一级".to_string(), vec![dir("/r/一级/二级")]);
    t.insert("/r/一级/二级".to_string(), vec![dir("/r/一级/二级/三级")]);
    t.insert("/r/一级/二级/三级".to_string(), vec![]);
    t
}

#[test]
fn recursion_depth_limit_is_exact() {
    let t = chain_tree();
    let none = drive(DirWalk::directories("/r".to_string(), "none", None).unwrap(), &t);
    assert_eq!(none.dirs.len(), 1);
    let depth = drive(DirWalk::directories("/r".to_string(), "depth", Some(2)).unwrap(), &t);
    assert_eq!(depth.dirs.len(), 3);
    let all = drive(DirWalk::directories("/r".to_string(), "all", None).unwrap(), &t);
    assert_eq!(all.dirs.len(), 4);
}

#[test]
fn easter_scope_counts_are_exact() {
    let mut t = BTreeMap::new();
    t.insert("/e".to_string(), vec![file("/e/根.txt"), dir("/e/一级")]);
    t.insert("/e/一级".to_string(), vec![file("/e/一级/图片.PNG"), dir("/e/一级/二级")]);
    t.insert("/e/一级/二级".to_string(), vec![file("/e/一级/二级/无扩展名")]);
    let r = drive(DirWalk::easter("/e".to_string(), true, "all", None).unwrap(), &t);
    assert_eq!(r.dirs.len(), 3);
    assert_eq!(r.files.len(), 3);
    assert_eq!(r.extensions, vec![".png".to_string(), ".txt".to_string()]);
}

#[test]
fn walk_starts_at_root_and_goes_depth_first() {
    let mut t = BTreeMap::new();
    t.insert("/r".to_string(), vec![dir("/r/a"), dir("/r/b")]);
    t.insert("/r/a".to_string(), vec![dir("/r/a/x")]);
    let r = drive(DirWalk::directories("/r".to_string(), "all", None).unwrap(), &t);
    assert_eq!(r.dirs, vec!["/r", "/r/a", "/r/b", "/r/a/x"]);
}

#[test]
fn depth_mode_without_number_goes_one_level() {
    let t = chain_tree();
    let r = drive(DirWalk::directories("/r".to_string(), "depth", None).unwrap(), &t);
    assert_eq!(r.dirs, vec!["/r", "/r/一级"]);
}

#[test]
fn depth_mode_is_held_between_one_and_ten() {
    let t = chain_tree();
    let zero = drive(DirWalk::directories("/r".to_string(), "depth", Some(0)).unwrap(), &t);
    assert_eq!(zero.dirs.len(), 2);
    let big = drive(DirWalk::directories("/r".to_string(), "depth", Some(1000)).unwrap(), &t);
    assert_eq!(big.dirs.len(), 4);
}

#[test]
fn unknown_mode_is_refused() {
    assert_eq!(DirWalk::directories("/r".to_string(), "deep", None).err(), Some(IconError::InvalidRecursiveMode));
    assert_eq!(DirWalk::easter("/r".to_string(), true, "x", None).err(), Some(IconError::InvalidRecursiveMode));
}

#[test]
fn easter_needs_a_directory_root() {
    assert_eq!(DirWalk::easter("/r".to_string(), false, "all", None).err(), Some(IconError::EasterRootMissing));
    assert_eq!(DirWalk::easter("/r".to_string(), false, "bad", None).err(), Some(IconError::EasterRootMissing));
}

#[test]
fn symbolic_links_are_not_followed() {
    let mut t = BTreeMap::new();
    t.insert("/r".to_string(), vec![link_to_dir("/r/l"), dir("/r/d")]);
    let r = drive(DirWalk::directories("/r".to_string(), "all", None).unwrap(), &t);
    assert_eq!(r.dirs, vec!["/r", "/r/d"]);
}

#[test]
fn easter_reads_files_at_the_limit() {
    let mut t = BTreeMap::new();
    t.insert("/e".to_string(), vec![dir("/e/a"), file("/e/top.md")]);
    t.insert("/e/a".to_string(), vec![file("/e/a/x.MD")]);
    let none = drive(DirWalk::easter("/e".to_string(), true, "none", None).unwrap(), &t);
    assert_eq!(none.dirs, vec!["/e"]);
    assert_eq!(none.files, vec!["/e/top.md"]);
    assert_eq!(none.extensions, vec![".md"]);
}

#[test]
fn directory_walk_collects_no_files() {
    let mut t = BTreeMap::new();
    t.insert("/r".to_string(), vec![file("/r/a.txt")]);
    let r = drive(DirWalk::directories("/r".to_string(), "all", None).unwrap(), &t);
    assert!(r.files.is_empty());
    assert!(r.extensions.is_empty());
}

#[test]
fn extension_keys_are_lowercase_and_sorted() {
    let mut t = BTreeMap::new();
    t.insert(
        "/e".to_string(),
        vec![file("/e/b.ZIP"), file("/e/a.txt"), file("/e/c.Txt"), file("/e/.hidden"), file("/e/d.")],
    );
    let r = drive(DirWalk::easter("/e".to_string(), true, "all", None).unwrap(), &t);
    assert_eq!(r.extensions, vec![".txt", ".zip"]);
    assert_eq!(r.files.len(), 5);
}

#[test]
fn extension_key_of_paths() {
    assert_eq!(iconcraft::walk::extension_key_of("/a/b.JPG"), Some(".jpg".to_string()));
    assert_eq!(iconcraft::walk::extension_key_of("/a/b"), None);
    assert_eq!(iconcraft::walk::extension_key_of("/a/.bashrc"), None);
}

#[test]
fn directories_are_read_last_found_first() {
    let mut t = BTreeMap::new();
    t.insert("/r".to_string(), vec![dir("/r/a"), file("/r/f.txt"), dir("/r/b")]);
    t.insert("/r/a".to_string(), vec![dir("/r/a/x")]);
    t.insert("/r/b".to_string(), vec![dir("/r/b/y"), file("/r/b/g.png")]);
    let mut w = DirWalk::easter("/r".to_string(), true, "all", None).unwrap();
    let mut read = Vec::new();
    while let Some(d) = w.next_dir() {
        read.push(d.clone());
        w.feed(t.get(&d).cloned().unwrap_or_default());
    }
    assert_eq!(read, vec!["/r", "/r/b", "/r/b/y", "/r/a", "/r/a/x"]);
    let r = w.finish();
    assert_eq!(r.dirs, vec!["/r", "/r/a", "/r/b", "/r/b/y", "/r/a/x"]);
    assert_eq!(r.files, vec!["/r/f.txt", "/r/b/g.png"]);
}
