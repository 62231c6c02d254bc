use git_mover::fstree::{EntryList, FsError, FsTree};
use git_mover::repo::is_git_dir;

fn bytes(s: &str) -> Vec<u8> {
    s.as_bytes().to_vec()
}

fn file(content: &str) -> FsTree {
    FsTree::File { content: content.as_bytes().to_vec() }
}

fn dir(children: Vec<(&str, FsTree)>) -> FsTree {
    FsTree::Dir { entries: children_list(children) }
}

fn children_list(mut children: Vec<(&str, FsTree)>) -> EntryList {
    let mut acc = EntryList::Empty;
    while let Some((name, node)) = children.pop() {
        acc = EntryList::Entry {
            name: name.as_bytes().to_vec(),
            node: Box::new(node),
            rest: Box::new(acc),
        };
    }
    acc
}

#[test]
fn test_is_git_dir() {
    let d = dir(vec![(".gitignore", file("")), (".git", dir(vec![]))]);
    let (is_git, gitignore) = is_git_dir(&d).unwrap();
    assert!(is_git);
    assert!(gitignore.is_some());
}

#[test]
fn a_directory_with_neither_entry_is_no_repo() {
    let d = dir(vec![("src", dir(vec![])), ("readme.md", file(""))]);
    let (is_git, gitignore) = is_git_dir(&d).unwrap();
    assert!(!is_git);
    assert!(gitignore.is_none());
}

#[test]
fn the_detector_parses_the_ignore_file() {
    let d = dir(vec![
        (".git", dir(vec![])),
        (".gitignore", file("target/\nnode_modules/\n")),
    ]);
    let (is_git, gitignore) = is_git_dir(&d).unwrap();
    assert!(is_git);
    assert_eq!(gitignore.unwrap(), vec![bytes("target"), bytes("node_modules")]);
}

#[test]
fn a_plain_file_named_git_still_marks_a_repo() {
    let d = dir(vec![(".git", file("gitdir: elsewhere"))]);
    let (is_git, gitignore) = is_git_dir(&d).unwrap();
    assert!(is_git);
    assert!(gitignore.is_none());
}

#[test]
fn an_ignore_entry_that_is_a_directory_fails() {
    let d = dir(vec![(".gitignore", dir(vec![]))]);
    let r = is_git_dir(&d);
    assert!(matches!(r, Err(FsError::NotAFile)));
}

#[test]
fn inspecting_a_file_fails() {
    let r = is_git_dir(&file("x"));
    assert!(matches!(r, Err(FsError::NotADirectory)));
}
