//! The recursive copier: copies a directory tree, skipping every entry whose
//! name stands in the ignore list.
//!
//! The ignore list is captured once, at the top of the copied tree, and the
//! same list is applied at every level of the recursion; it is never
//! re-derived from nested directories. An absent list excludes nothing.

use vstd::prelude::*;

use crate::fstree::{entries_eq, lookup, tree_eq, EntryList, FsError, FsTree};
use crate::gitignore::{excluded, is_excluded};

verus! {

/// The copy relation: `dst` is what copying `src` under `gitignore` yields.
/// Files keep their bytes; a directory keeps, in order, exactly those
/// children whose names the ignore list does not hold, each copied under the
/// same list.
pub open spec fn is_copy_tree(src: FsTree, gitignore: Option<Seq<Seq<u8>>>, dst: FsTree) -> bool
    decreases src,
{
    match src {
        FsTree::File { content } => dst matches FsTree::File { content: c2 } && c2@ == content@,
        FsTree::Dir { entries } => dst matches FsTree::Dir { entries: e2 } && is_copy_entries(
            entries,
            gitignore,
            e2,
        ),
    }
}

/// The copy relation on child lists.
pub open spec fn is_copy_entries(
    src: EntryList,
    gitignore: Option<Seq<Seq<u8>>>,
    dst: EntryList,
) -> bool
    decreases src,
{
    match src {
        EntryList::Empty => dst is Empty,
        EntryList::Entry { name, node, rest } => {
            if excluded(gitignore, name@) {
                is_copy_entries(*rest, gitignore, dst)
            } else {
                dst matches EntryList::Entry { name: n2, node: d2, rest: r2 } && n2@ == name@
                    && is_copy_tree(*node, gitignore, *d2) && is_copy_entries(*rest, gitignore, *r2)
            }
        },
    }
}

/// Byte-for-byte copy of a name or a file content.
pub fn clone_bytes(v: &Vec<u8>) -> (r: Vec<u8>)
    ensures
        r@ == v@,
{
    let mut r: Vec<u8> = Vec::new();
    let mut i: usize = 0;
    while i < v.len()
        invariant
            i <= v.len(),
            r@ == v@.subrange(0, i as int),
        decreases v.len() - i,
    {
        r.push(v[i]);
        proof {
            assert(r@ =~= v@.subrange(0, i + 1));
        }
        i += 1;
    }
    proof {
        assert(r@ =~= v@);
    }
    r
}

fn copy_node(t: &FsTree, gitignore: &Option<Vec<Vec<u8>>>) -> (r: FsTree)
    ensures
        is_copy_tree(*t, gitignore.deep_view(), r),
    decreases *t,
{
    match t {
        FsTree::File { content } => FsTree::File { content: clone_bytes(content) },
        FsTree::Dir { entries } => FsTree::Dir { entries: copy_entries(entries, gitignore) },
    }
}

fn copy_entries(es: &EntryList, gitignore: &Option<Vec<Vec<u8>>>) -> (r: EntryList)
    ensures
        is_copy_entries(*es, gitignore.deep_view(), r),
    decreases *es,
{
    match es {
        EntryList::Empty => EntryList::Empty,
        EntryList::Entry { name, node, rest } => {
            let copied_rest = copy_entries(&**rest, gitignore);
            if is_excluded(gitignore, name) {
                copied_rest
            } else {
                EntryList::Entry {
                    name: clone_bytes(name),
                    node: Box::new(copy_node(&**node, gitignore)),
                    rest: Box::new(copied_rest),
                }
            }
        },
    }
}

/// The recursive copier. Copying a directory yields its copy under the
/// ignore list; asking it to copy a file fails, as enumerating a file's
/// children does.
pub fn copy_dir_recursive(src: &FsTree, gitignore: &Option<Vec<Vec<u8>>>) -> (r: Result<
    FsTree,
    FsError,
>)
    ensures
        *src is Dir ==> (r matches Ok(d) && is_copy_tree(*src, gitignore.deep_view(), d)),
        *src is File ==> (r matches Err(e) && e == FsError::NotADirectory),
{
    match src {
        FsTree::File { .. } => Err(FsError::NotADirectory),
        FsTree::Dir { .. } => Ok(copy_node(src, gitignore)),
    }
}

/// The copy relation is a function of the source and the ignore list: two
/// copies of one tree under one list are equal.
pub proof fn lemma_copy_deterministic(
    src: FsTree,
    gitignore: Option<Seq<Seq<u8>>>,
    d1: FsTree,
    d2: FsTree,
)
    requires
        is_copy_tree(src, gitignore, d1),
        is_copy_tree(src, gitignore, d2),
    ensures
        tree_eq(d1, d2),
    decreases src,
{
    match (src, d1, d2) {
        (
            FsTree::Dir { entries: s_e },
            FsTree::Dir { entries: e1 },
            FsTree::Dir { entries: e2 },
        ) => {
            lemma_copy_entries_deterministic(s_e, gitignore, e1, e2);
        },
        _ => {},
    }
}

/// The copy relation on child lists is a function of its inputs.
pub proof fn lemma_copy_entries_deterministic(
    src: EntryList,
    gitignore: Option<Seq<Seq<u8>>>,
    d1: EntryList,
    d2: EntryList,
)
    requires
        is_copy_entries(src, gitignore, d1),
        is_copy_entries(src, gitignore, d2),
    ensures
        entries_eq(d1, d2),
    decreases src,
{
    match src {
        EntryList::Empty => {},
        EntryList::Entry { name, node, rest } => {
            if excluded(gitignore, name@) {
                lemma_copy_entries_deterministic(*rest, gitignore, d1, d2);
            } else {
                match (d1, d2) {
                    (
                        EntryList::Entry { name: n1, node: t1, rest: r1 },
                        EntryList::Entry { name: n2, node: t2, rest: r2 },
                    ) => {
                        lemma_copy_deterministic(*node, gitignore, *t1, *t2);
                        lemma_copy_entries_deterministic(*rest, gitignore, *r1, *r2);
                    },
                    _ => {},
                }
            }
        },
    }
}

/// Copying is idempotent: a tree that came out of the copier goes through a
/// second copy under the same ignore list unchanged.
pub proof fn lemma_copy_idempotent(
    src: FsTree,
    gitignore: Option<Seq<Seq<u8>>>,
    once: FsTree,
    twice: FsTree,
)
    requires
        is_copy_tree(src, gitignore, once),
        is_copy_tree(once, gitignore, twice),
    ensures
        tree_eq(twice, once),
    decreases src,
{
    match (src, once, twice) {
        (
            FsTree::Dir { entries: s_e },
            FsTree::Dir { entries: e1 },
            FsTree::Dir { entries: e2 },
        ) => {
            lemma_copy_entries_idempotent(s_e, gitignore, e1, e2);
        },
        _ => {},
    }
}

/// Idempotence of the copy relation on child lists.
pub proof fn lemma_copy_entries_idempotent(
    src: EntryList,
    gitignore: Option<Seq<Seq<u8>>>,
    once: EntryList,
    twice: EntryList,
)
    requires
        is_copy_entries(src, gitignore, once),
        is_copy_entries(once, gitignore, twice),
    ensures
        entries_eq(twice, once),
    decreases src,
{
    match src {
        EntryList::Empty => {},
        EntryList::Entry { name, node, rest } => {
            if excluded(gitignore, name@) {
                lemma_copy_entries_idempotent(*rest, gitignore, once, twice);
            } else {
                match (once, twice) {
                    (
                        EntryList::Entry { name: n1, node: t1, rest: r1 },
                        EntryList::Entry { name: n2, node: t2, rest: r2 },
                    ) => {
                        lemma_copy_idempotent(*node, gitignore, *t1, *t2);
                        lemma_copy_entries_idempotent(*rest, gitignore, *r1, *r2);
                    },
                    _ => {},
                }
            }
        },
    }
}

/// Whether an entry named `name` stands anywhere in the tree, at any depth.
pub open spec fn tree_has_name(t: FsTree, name: Seq<u8>) -> bool
    decreases t,
{
    match t {
        FsTree::File { .. } => false,
        FsTree::Dir { entries } => entries_have_name(entries, name),
    }
}

/// Whether an entry named `name` stands anywhere in or below the list.
pub open spec fn entries_have_name(es: EntryList, name: Seq<u8>) -> bool
    decreases es,
{
    match es {
        EntryList::Empty => false,
        EntryList::Entry { name: n, node, rest } => n@ == name || tree_has_name(*node, name)
            || entries_have_name(*rest, name),
    }
}

/// A name the ignore list holds appears nowhere in the copy, at any depth.
pub proof fn lemma_copy_omits_excluded(
    src: FsTree,
    gitignore: Option<Seq<Seq<u8>>>,
    dst: FsTree,
    name: Seq<u8>,
)
    requires
        is_copy_tree(src, gitignore, dst),
        excluded(gitignore, name),
    ensures
        !tree_has_name(dst, name),
    decreases src,
{
    match (src, dst) {
        (FsTree::Dir { entries: s_e }, FsTree::Dir { entries: e2 }) => {
            lemma_copy_entries_omit_excluded(s_e, gitignore, e2, name);
        },
        _ => {},
    }
}

/// A name the ignore list holds appears nowhere in a copied child list.
pub proof fn lemma_copy_entries_omit_excluded(
    src: EntryList,
    gitignore: Option<Seq<Seq<u8>>>,
    dst: EntryList,
    name: Seq<u8>,
)
    requires
        is_copy_entries(src, gitignore, dst),
        excluded(gitignore, name),
    ensures
        !entries_have_name(dst, name),
    decreases src,
{
    match src {
        EntryList::Empty => {},
        EntryList::Entry { name: n, node, rest } => {
            if excluded(gitignore, n@) {
                lemma_copy_entries_omit_excluded(*rest, gitignore, dst, name);
            } else {
                match dst {
                    EntryList::Entry { name: n2, node: d2, rest: r2 } => {
                        lemma_copy_omits_excluded(*node, gitignore, *d2, name);
                        lemma_copy_entries_omit_excluded(*rest, gitignore, *r2, name);
                    },
                    EntryList::Empty => {},
                }
            }
        },
    }
}

/// An immediate child whose name the ignore list does not hold is kept:
/// looking it up in the copy finds the copy of the original child. One the
/// source lacks, the copy lacks too.
pub proof fn lemma_copy_keeps_entry(
    src: EntryList,
    gitignore: Option<Seq<Seq<u8>>>,
    dst: EntryList,
    name: Seq<u8>,
)
    requires
        is_copy_entries(src, gitignore, dst),
        !excluded(gitignore, name),
    ensures
        lookup(src, name) matches Some(t) ==> (lookup(dst, name) matches Some(d) && is_copy_tree(
            t,
            gitignore,
            d,
        )),
        lookup(src, name) is None ==> lookup(dst, name) is None,
    decreases src,
{
    match src {
        EntryList::Empty => {},
        EntryList::Entry { name: n, node, rest } => {
            if excluded(gitignore, n@) {
                lemma_copy_keeps_entry(*rest, gitignore, dst, name);
            } else {
                match dst {
                    EntryList::Entry { name: n2, node: d2, rest: r2 } => {
                        if n@ != name {
                            lemma_copy_keeps_entry(*rest, gitignore, *r2, name);
                        }
                    },
                    EntryList::Empty => {},
                }
            }
        },
    }
}

} // verus!
