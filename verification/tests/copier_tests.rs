use git_mover::copier::copy_dir_recursive;
use git_mover::fstree::{find_entry, trees_equal, EntryList, FsError, FsTree};

fn bytes(s: &str) -> Vec<u8> {
    s.as_bytes().to_vec()
}

fn file(content: &str) -> FsTree {
    FsTree::File { content: content.as_bytes().to_vec() }
}

fn dir(children: Vec<(&str, FsTree)>) -> FsTree {
    FsTree::Dir { entries: children_list(children) }
}

fn children_list(mut children: Vec<(&str, FsTree)>) -> EntryList {
    let mut acc = EntryList::Empty;
    while let Some((name, node)) = children.pop() {
        acc = EntryList::Entry {
            name: name.as_bytes().to_vec(),
            node: Box::new(node),
            rest: Box::new(acc),
        };
    }
    acc
}

fn child<'a>(t: &'a FsTree, name: &str) -> Option<&'a FsTree> {
    match t {
        FsTree::Dir { entries } => find_entry(entries, &bytes(name)),
        FsTree::File { .. } => None,
    }
}

#[test]
fn test_copy_dir_recursive() {
    let src = dir(vec![
        ("file1.txt", file("")),
        ("ignored", dir(vec![("file2.txt", file(""))])),
    ]);
    let gitignore = Some(vec![bytes("ignored")]);
    let copied = copy_dir_recursive(&src, &gitignore).unwrap();
    assert!(child(&copied, "file1.txt").is_some());
    assert!(child(&copied, "ignored").is_none());
}

#[test]
fn copy_without_ignore_list_reproduces_the_tree() {
    let src = dir(vec![
        ("a.txt", file("alpha")),
        ("sub", dir(vec![("b.txt", file("beta"))])),
    ]);
    let copied = copy_dir_recursive(&src, &None).unwrap();
    assert!(trees_equal(&copied, &src));
}

#[test]
fn copy_applies_the_ignore_list_at_every_level() {
    let src = dir(vec![(
        "sub",
        dir(vec![("ignored", file("x")), ("kept.txt", file("y"))]),
    )]);
    let gitignore = Some(vec![bytes("ignored")]);
    let copied = copy_dir_recursive(&src, &gitignore).unwrap();
    let sub = child(&copied, "sub").unwrap();
    assert!(child(sub, "ignored").is_none());
    assert!(child(sub, "kept.txt").is_some());
}

#[test]
fn copy_preserves_file_bytes() {
    let src = dir(vec![("data.bin", file("payload"))]);
    let copied = copy_dir_recursive(&src, &None).unwrap();
    match child(&copied, "data.bin").unwrap() {
        FsTree::File { content } => assert_eq!(content, &bytes("payload")),
        FsTree::Dir { .. } => panic!("expected a file"),
    }
}

#[test]
fn copying_a_file_fails() {
    let r = copy_dir_recursive(&file("x"), &None);
    assert!(matches!(r, Err(FsError::NotADirectory)));
}

#[test]
fn copying_a_copy_changes_nothing() {
    let src = dir(vec![
        ("file1.txt", file("one")),
        ("ignored", dir(vec![("file2.txt", file("two"))])),
        ("sub", dir(vec![("three.txt", file("three"))])),
    ]);
    let gitignore = Some(vec![bytes("ignored")]);
    let once = copy_dir_recursive(&src, &gitignore).unwrap();
    let twice = copy_dir_recursive(&once, &gitignore).unwrap();
    assert!(trees_equal(&twice, &once));
}
