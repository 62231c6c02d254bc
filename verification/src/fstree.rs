//! The filesystem model: a directory tree as a plain value.
//!
//! Entry names and file contents are byte strings. A directory holds its
//! children as an ordered list, in the order a directory enumeration
//! yielded them; nothing may be assumed about that order.

use vstd::prelude::*;

verus! {

/// One node of the filesystem model: a file with its byte content, or a
/// directory with its children.
pub enum FsTree {
    File { content: Vec<u8> },
    Dir { entries: EntryList },
}

/// The ordered children of a directory: entry names paired with subtrees.
pub enum EntryList {
    Empty,
    Entry { name: Vec<u8>, node: Box<FsTree>, rest: Box<EntryList> },
}

/// Why a modelled filesystem operation fails.
#[derive(Clone, Copy, Debug, PartialEq, Eq, Structural)]
pub enum FsError {
    /// The source directory of a move does not exist.
    NotFound,
    /// A directory was needed where a file stands.
    NotADirectory,
    /// A regular file was needed where a directory stands.
    NotAFile,
}

/// Equality of two trees up to the bytes they hold.
pub open spec fn tree_eq(a: FsTree, b: FsTree) -> bool
    decreases a,
{
    match a {
        FsTree::File { content } => b matches FsTree::File { content: c2 } && content@ == c2@,
        FsTree::Dir { entries } => b matches FsTree::Dir { entries: e2 } && entries_eq(entries, e2),
    }
}

/// Equality of two child lists up to the bytes they hold.
pub open spec fn entries_eq(a: EntryList, b: EntryList) -> bool
    decreases a,
{
    match a {
        EntryList::Empty => b is Empty,
        EntryList::Entry { name, node, rest } => b matches EntryList::Entry {
            name: n2,
            node: d2,
            rest: r2,
        } && name@ == n2@ && tree_eq(*node, *d2) && entries_eq(*rest, *r2),
    }
}

/// Whether some entry of the list bears `name`.
pub open spec fn has_name(es: EntryList, name: Seq<u8>) -> bool
    decreases es,
{
    match es {
        EntryList::Empty => false,
        EntryList::Entry { name: n, node: _, rest } => n@ == name || has_name(*rest, name),
    }
}

/// The first entry of the list named `name`, if any.
pub open spec fn lookup(es: EntryList, name: Seq<u8>) -> Option<FsTree>
    decreases es,
{
    match es {
        EntryList::Empty => None,
        EntryList::Entry { name: n, node, rest } => if n@ == name {
            Some(*node)
        } else {
            lookup(*rest, name)
        },
    }
}

/// Decides equality of two trees up to the bytes they hold.
pub fn trees_equal(a: &FsTree, b: &FsTree) -> (r: bool)
    ensures
        r == tree_eq(*a, *b),
    decreases *a,
{
    match (a, b) {
        (FsTree::File { content: c1 }, FsTree::File { content: c2 }) => crate::gitignore::bytes_eq(
            c1,
            c2,
        ),
        (FsTree::Dir { entries: e1 }, FsTree::Dir { entries: e2 }) => entries_equal(e1, e2),
        _ => false,
    }
}

/// Decides equality of two child lists up to the bytes they hold.
pub fn entries_equal(a: &EntryList, b: &EntryList) -> (r: bool)
    ensures
        r == entries_eq(*a, *b),
    decreases *a,
{
    match (a, b) {
        (EntryList::Empty, EntryList::Empty) => true,
        (
            EntryList::Entry { name: n1, node: t1, rest: r1 },
            EntryList::Entry { name: n2, node: t2, rest: r2 },
        ) => crate::gitignore::bytes_eq(n1, n2) && trees_equal(&**t1, &**t2) && entries_equal(
            &**r1,
            &**r2,
        ),
        _ => false,
    }
}

/// Finds the first child named `name`.
pub fn find_entry<'a>(es: &'a EntryList, name: &Vec<u8>) -> (r: Option<&'a FsTree>)
    ensures
        match r {
            Some(t) => lookup(*es, name@) == Some(*t),
            None => lookup(*es, name@) is None,
        },
    decreases *es,
{
    match es {
        EntryList::Empty => None,
        EntryList::Entry { name: n, node, rest } => {
            if crate::gitignore::bytes_eq(n, name) {
                Some(&**node)
            } else {
                find_entry(&**rest, name)
            }
        },
    }
}

} // verus!
