use git_mover::gitignore::{clean_line, in_ignore_list, is_excluded, read_gitignore};

fn bytes(s: &str) -> Vec<u8> {
    s.as_bytes().to_vec()
}

#[test]
fn test_read_gitignore() {
    let content = bytes("target/\nnode_modules/\n");
    let entries = read_gitignore(&content);
    assert_eq!(entries, vec![bytes("target"), bytes("node_modules")]);
}

#[test]
fn clean_line_strips_slashes_and_trims() {
    assert_eq!(clean_line(&bytes("target/")), bytes("target"));
    assert_eq!(clean_line(&bytes("  node_modules/ ")), bytes("node_modules"));
}

#[test]
fn clean_line_removes_inner_slashes() {
    assert_eq!(clean_line(&bytes("a/b/c")), bytes("abc"));
}

#[test]
fn clean_line_keeps_comments_and_blanks_as_entries() {
    assert_eq!(clean_line(&bytes("# note")), bytes("# note"));
    assert_eq!(clean_line(&bytes("   ")), bytes(""));
}

#[test]
fn read_gitignore_handles_crlf_and_a_final_unterminated_line() {
    let entries = read_gitignore(&bytes("one/\r\ntwo"));
    assert_eq!(entries, vec![bytes("one"), bytes("two")]);
}

#[test]
fn read_gitignore_of_empty_file_has_no_entries() {
    assert_eq!(read_gitignore(&bytes("")).len(), 0);
}

#[test]
fn read_gitignore_keeps_blank_lines() {
    let entries = read_gitignore(&bytes("a\n\nb"));
    assert_eq!(entries, vec![bytes("a"), bytes(""), bytes("b")]);
}

#[test]
fn absent_ignore_list_excludes_nothing() {
    assert!(!is_excluded(&None, &bytes("anything")));
}

#[test]
fn present_ignore_list_excludes_by_exact_name() {
    let list = vec![bytes("target")];
    assert!(in_ignore_list(&list, &bytes("target")));
    assert!(!in_ignore_list(&list, &bytes("targe")));
    assert!(!in_ignore_list(&list, &bytes("target/")));
}
