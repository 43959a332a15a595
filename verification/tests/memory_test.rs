use pen::cache::download_package;
use pen::cleanup::{confirm_deleted, try_deleting_dir_to_temp, Probe};
use pen::fs::{FsAction, PathState};
use pen::memory::{is_within, MemoryNode, MemoryTree};
use pen::paths::Layout;
use pen::registry::{Package, Reply};
use pen::version::Version;
use std::io::Write;

fn file(data: &[u8]) -> MemoryNode {
    MemoryNode::File(data.to_vec())
}

#[test]
fn a_later_entry_counts() {
    let mut tree = MemoryTree::new();
    assert_eq!(tree.look("/a"), PathState::Absent);
    assert_eq!(tree.node("/a"), None);
    tree.put("/a", MemoryNode::Directory);
    tree.put("/a", file(b"x"));
    assert_eq!(tree.look("/a"), PathState::File);
    assert_eq!(tree.node("/a"), Some(&file(b"x")));
    tree.put("/a", MemoryNode::Link(String::from("/t")));
    assert_eq!(tree.look("/a"), PathState::Symlink(String::from("/t")));
}

#[test]
fn within_is_at_or_below() {
    assert!(is_within("/a", "/a"));
    assert!(is_within("/a/b", "/a"));
    assert!(!is_within("/ab", "/a"));
    assert!(!is_within("/", "/a"));
}

#[test]
fn changes_that_the_file_system_would_refuse_change_nothing() {
    let mut tree = MemoryTree::new();
    tree.put("/d", MemoryNode::Directory);
    tree.put("/f", file(b"1"));
    tree.apply(&FsAction::CreateSymlink { target: String::from("/t"), link: String::from("/f") });
    assert_eq!(tree.node("/f"), Some(&file(b"1")));
    tree.apply(&FsAction::RemoveFile { path: String::from("/d") });
    assert_eq!(tree.look("/d"), PathState::Directory);
    tree.apply(&FsAction::WriteFile { path: String::from("/d"), data: vec![9] });
    assert_eq!(tree.look("/d"), PathState::Directory);
    tree.apply(&FsAction::CreateDirAll { path: String::from("/f") });
    assert_eq!(tree.look("/f"), PathState::File);
    tree.apply(&FsAction::Rename { from: String::from("/none"), to: String::from("/f") });
    assert_eq!(tree.node("/f"), Some(&file(b"1")));
    tree.apply(&FsAction::RemoveFile { path: String::from("/none") });
    assert_eq!(tree.entries.len(), 2);
}

#[test]
fn removal_of_a_tree_spares_its_neighbours() {
    let mut tree = MemoryTree::new();
    tree.put("/a", MemoryNode::Directory);
    tree.put("/a/x", file(b"1"));
    tree.put("/a/y/z", file(b"2"));
    tree.put("/ab", file(b"3"));
    tree.put("/", MemoryNode::Directory);
    tree.apply(&FsAction::RemoveTree { path: String::from("/a") });
    assert_eq!(tree.look("/a"), PathState::Absent);
    assert_eq!(tree.look("/a/x"), PathState::Absent);
    assert_eq!(tree.look("/a/y/z"), PathState::Absent);
    assert_eq!(tree.look("/ab"), PathState::File);
    assert_eq!(tree.look("/"), PathState::Directory);
}

#[test]
fn a_move_takes_everything_below_along() {
    let mut tree = MemoryTree::new();
    tree.put("/s", MemoryNode::Directory);
    tree.put("/s/a.py", file(b"a"));
    tree.put("/s/d/b.py", file(b"b"));
    tree.put("/sx", file(b"x"));
    tree.put("/c/p", file(b"old"));
    tree.put("/c/p/stale", file(b"old"));
    tree.apply(&FsAction::Rename { from: String::from("/s"), to: String::from("/c/p") });
    assert_eq!(tree.look("/s"), PathState::Absent);
    assert_eq!(tree.look("/s/a.py"), PathState::Absent);
    assert_eq!(tree.look("/c/p"), PathState::Directory);
    assert_eq!(tree.node("/c/p/a.py"), Some(&file(b"a")));
    assert_eq!(tree.node("/c/p/d/b.py"), Some(&file(b"b")));
    assert_eq!(tree.look("/c/p/stale"), PathState::Absent);
    assert_eq!(tree.node("/sx"), Some(&file(b"x")));
}

#[test]
fn unpacking_leaves_the_package_in_place_and_no_staging() {
    let mut writer = zip::ZipWriter::new(std::io::Cursor::new(Vec::new()));
    let options = zip::write::SimpleFileOptions::default();
    writer.start_file("demo/__init__.py", options).unwrap();
    writer.write_all(b"x = 1\n").unwrap();
    writer.start_file("demo-1.0.0.dist-info/METADATA", options).unwrap();
    writer.write_all(b"Name: demo\n").unwrap();
    let bytes = writer.finish().unwrap().into_inner();
    let package = Package { name: String::from("demo"), version: Version::new(1, 0, 0) };
    let layout = Layout::new("/h");
    let plan =
        download_package(&package, &layout, &Reply::Answer { status: 200, body: Some(bytes) })
            .unwrap();
    let mut tree = MemoryTree::new();
    tree.put("/h/.cache/pen/temp/demo_1.0.0/leftover", file(b"from a failed run"));
    assert_eq!(tree.look("/h/.cache/pen/packages/demo_1.0.0"), PathState::Absent);
    tree.run(&plan);
    assert_eq!(tree.look("/h/.cache/pen/packages/demo_1.0.0"), PathState::Directory);
    assert_eq!(
        tree.node("/h/.cache/pen/packages/demo_1.0.0/demo/__init__.py"),
        Some(&file(b"x = 1\n"))
    );
    assert_eq!(
        tree.node("/h/.cache/pen/packages/demo_1.0.0/demo-1.0.0.dist-info/METADATA"),
        Some(&file(b"Name: demo\n"))
    );
    assert_eq!(tree.look("/h/.cache/pen/packages/demo_1.0.0/demo"), PathState::Directory);
    assert_eq!(tree.look("/h/.cache/pen/packages/demo_1.0.0/leftover"), PathState::Absent);
    assert_eq!(tree.look("/h/.cache/pen/temp/demo_1.0.0"), PathState::Absent);
    assert_eq!(tree.look("/h/.cache/pen/temp/demo_1.0.0/demo/__init__.py"), PathState::Absent);
}

#[test]
fn a_deleted_directory_is_gone() {
    let mut tree = MemoryTree::new();
    tree.put("/p/.venv", MemoryNode::Directory);
    tree.put("/p/.venv/bin/python", MemoryNode::Link(String::from("/t")));
    tree.put("/tmp/delete_path", MemoryNode::Directory);
    tree.put("/tmp/delete_path/old", file(b"old"));
    let plan =
        try_deleting_dir_to_temp("/p/.venv", "/tmp/delete_path", Probe::Present, Probe::Present)
            .unwrap();
    tree.run(&plan);
    assert_eq!(tree.look("/p/.venv"), PathState::Absent);
    assert_eq!(tree.look("/p/.venv/bin/python"), PathState::Absent);
    assert_eq!(tree.look("/tmp/delete_path"), PathState::Directory);
    assert_eq!(tree.look("/tmp/delete_path/old"), PathState::Absent);
    assert_eq!(tree.look("/tmp/delete_path/bin/python"), PathState::Symlink(String::from("/t")));
    assert_eq!(confirm_deleted("/p/.venv", Probe::Missing), Ok(()));
}
