use git_mover::dispatch::move_recursive;
use git_mover::fstree::{find_entry, EntryList, FsError, FsTree};

fn bytes(s: &str) -> Vec<u8> {
    s.as_bytes().to_vec()
}

fn file(content: &str) -> FsTree {
    FsTree::File { content: content.as_bytes().to_vec() }
}

fn dir(children: Vec<(&str, FsTree)>) -> FsTree {
    FsTree::Dir { entries: children_list(children) }
}

fn children_list(mut children: Vec<(&str, FsTree)>) -> EntryList {
    let mut acc = EntryList::Empty;
    while let Some((name, node)) = children.pop() {
        acc = EntryList::Entry {
            name: name.as_bytes().to_vec(),
            node: Box::new(node),
            rest: Box::new(acc),
        };
    }
    acc
}

fn child<'a>(t: &'a FsTree, name: &str) -> Option<&'a FsTree> {
    match t {
        FsTree::Dir { entries } => find_entry(entries, &bytes(name)),
        FsTree::File { .. } => None,
    }
}

#[test]
fn the_dispatcher_moves_repos_and_skips_the_rest() {
    let root = dir(vec![
        (
            "A",
            dir(vec![
                (".git", dir(vec![])),
                (".gitignore", file("build/\n")),
                ("x.txt", file("hello")),
                ("build", dir(vec![("y.txt", file(""))])),
            ]),
        ),
        ("B", dir(vec![("readme.md", file(""))])),
    ]);
    let out = move_recursive(Some(&root), false).unwrap();
    assert!(out.root_was_dir);
    assert_eq!(out.moved.len(), 1);
    assert_eq!(out.moved[0].name, bytes("A"));
    // Move mode: the source repository is to be removed.
    assert!(!out.moved[0].outcome.source_kept);
    let dest = &out.moved[0].outcome.dest;
    assert!(child(dest, "x.txt").is_some());
    assert!(child(dest, "build").is_none());
    assert!(child(dest, ".git").is_some());
    // B is reported as not a git directory.
    assert_eq!(out.skipped, vec![bytes("B")]);
}

#[test]
fn a_missing_root_is_a_soft_condition() {
    let out = move_recursive(None, false).unwrap();
    assert!(!out.root_was_dir);
    assert!(out.moved.is_empty());
    assert!(out.skipped.is_empty());
}

#[test]
fn a_root_that_is_a_file_is_a_soft_condition() {
    let root = file("x");
    let out = move_recursive(Some(&root), false).unwrap();
    assert!(!out.root_was_dir);
    assert!(out.moved.is_empty());
    assert!(out.skipped.is_empty());
}

#[test]
fn a_file_among_the_children_aborts_the_walk() {
    let root = dir(vec![("stray.txt", file("x"))]);
    let r = move_recursive(Some(&root), false);
    assert!(matches!(r, Err(FsError::NotADirectory)));
}

#[test]
fn the_copy_flag_reaches_every_move() {
    let root = dir(vec![("A", dir(vec![(".git", dir(vec![]))]))]);
    let out = move_recursive(Some(&root), true).unwrap();
    assert_eq!(out.moved.len(), 1);
    assert!(out.moved[0].outcome.source_kept);
}
