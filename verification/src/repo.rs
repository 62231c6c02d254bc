//! The repository detector: inspects a directory's immediate children for a
//! `.git` entry and a `.gitignore` file.
//!
//! Any entry literally named `.git` marks the directory as a git repository,
//! whatever its kind. A child named `.gitignore` is read as the ignore
//! file; when several bear that name, the one enumerated last wins. A
//! `.gitignore` child that is itself a directory cannot be read and fails
//! the inspection.

use vstd::prelude::*;

use crate::fstree::{has_name, EntryList, FsError, FsTree};
use crate::gitignore::{bytes_eq, gitignore_entries, read_gitignore};

verus! {

/// The entry name `.git`, as bytes.
pub open spec fn git_name() -> Seq<u8> {
    seq![46u8, 103u8, 105u8, 116u8]
}

/// The entry name `.gitignore`, as bytes.
pub open spec fn gitignore_name() -> Seq<u8> {
    seq![46u8, 103u8, 105u8, 116u8, 105u8, 103u8, 110u8, 111u8, 114u8, 101u8]
}

/// The literal name `.git`.
pub fn git_name_bytes() -> (r: Vec<u8>)
    ensures
        r@ == git_name(),
{
    let mut v: Vec<u8> = Vec::new();
    v.push(46);
    v.push(103);
    v.push(105);
    v.push(116);
    proof {
        assert(v@ =~= git_name());
    }
    v
}

/// The literal name `.gitignore`.
pub fn gitignore_name_bytes() -> (r: Vec<u8>)
    ensures
        r@ == gitignore_name(),
{
    let mut v: Vec<u8> = Vec::new();
    v.push(46);
    v.push(103);
    v.push(105);
    v.push(116);
    v.push(105);
    v.push(103);
    v.push(110);
    v.push(111);
    v.push(114);
    v.push(101);
    proof {
        assert(v@ =~= gitignore_name());
    }
    v
}

/// Whether the children hold an entry named `.git`, of any kind.
pub open spec fn has_git(es: EntryList) -> bool {
    has_name(es, git_name())
}

/// Whether some child named `.gitignore` is a directory, so that reading
/// the ignore file fails.
pub open spec fn gitignore_is_dir(es: EntryList) -> bool
    decreases es,
{
    match es {
        EntryList::Empty => false,
        EntryList::Entry { name, node, rest } => (name@ == gitignore_name() && *node is Dir)
            || gitignore_is_dir(*rest),
    }
}

/// The ignore list the detector captures: the parsed entries of the last
/// `.gitignore` file among the children, or nothing when none stands there.
pub open spec fn detected_gitignore(es: EntryList) -> Option<Seq<Seq<u8>>>
    decreases es,
{
    match es {
        EntryList::Empty => None,
        EntryList::Entry { name, node, rest } => {
            let later = detected_gitignore(*rest);
            if later is Some {
                later
            } else if name@ == gitignore_name() {
                match *node {
                    FsTree::File { content } => Some(gitignore_entries(content@)),
                    FsTree::Dir { .. } => None,
                }
            } else {
                None
            }
        },
    }
}

fn scan_children(es: &EntryList) -> (r: Result<(bool, Option<Vec<Vec<u8>>>), FsError>)
    ensures
        gitignore_is_dir(*es) ==> (r matches Err(e) && e == FsError::NotAFile),
        !gitignore_is_dir(*es) ==> (r matches Ok(p) && p.0 == has_git(*es) && p.1.deep_view()
            == detected_gitignore(*es)),
    decreases *es,
{
    match es {
        EntryList::Empty => Ok((false, None)),
        EntryList::Entry { name, node, rest } => {
            let later = scan_children(&**rest)?;
            let mut found_git = later.0;
            let mut gitignore = later.1;
            let gname = git_name_bytes();
            if bytes_eq(name, &gname) {
                found_git = true;
            } else {
                let giname = gitignore_name_bytes();
                if bytes_eq(name, &giname) {
                    match &**node {
                        FsTree::File { content } => {
                            if gitignore.is_none() {
                                gitignore = Some(read_gitignore(content));
                            }
                        },
                        FsTree::Dir { .. } => {
                            return Err(FsError::NotAFile);
                        },
                    }
                }
            }
            Ok((found_git, gitignore))
        },
    }
}

/// The repository detector. Inspecting a directory yields whether a `.git`
/// entry stands among its children and the ignore list read from its
/// `.gitignore`, if one stands there; inspecting a file fails, and so does
/// a `.gitignore` child that is itself a directory.
pub fn is_git_dir(dir: &FsTree) -> (r: Result<(bool, Option<Vec<Vec<u8>>>), FsError>)
    ensures
        match *dir {
            FsTree::File { .. } => r matches Err(e) && e == FsError::NotADirectory,
            FsTree::Dir { entries } => {
                if gitignore_is_dir(entries) {
                    r matches Err(e) && e == FsError::NotAFile
                } else {
                    r matches Ok(p) && p.0 == has_git(entries) && p.1.deep_view()
                        == detected_gitignore(entries)
                }
            },
        },
{
    match dir {
        FsTree::File { .. } => Err(FsError::NotADirectory),
        FsTree::Dir { entries } => scan_children(entries),
    }
}

} // verus!
