//! The top-level dispatcher: walks the immediate children of the root,
//! classifies each as a git repository or not, and moves each repository.
//!
//! A missing root, or a root that is no directory, is a soft condition:
//! nothing is done and the caller is told so. Children are processed in
//! enumeration order, and the first failing child aborts the remaining
//! ones — a deliberate mirror of the tool's all-or-nothing behaviour.

use vstd::prelude::*;

use crate::copier::{clone_bytes, is_copy_tree};
use crate::fstree::{EntryList, FsError, FsTree};
use crate::mover::{move_dir, MoveOutcome};
use crate::repo::{detected_gitignore, gitignore_is_dir, has_git, is_git_dir};

verus! {

/// One repository the dispatcher moved.
pub struct RepoMove {
    /// The name of the moved child; its destination is this name under the
    /// destination root.
    pub name: Vec<u8>,
    /// What the move produced.
    pub outcome: MoveOutcome,
}

/// What one dispatcher run produced.
pub struct DispatchOutcome {
    /// One record per git repository among the children, in enumeration
    /// order.
    pub moved: Vec<RepoMove>,
    /// The names of the children that are not git repositories, in order;
    /// each is to be reported and left in place.
    pub skipped: Vec<Vec<u8>>,
    /// False when the root was missing or not a directory, so that nothing
    /// was inspected at all.
    pub root_was_dir: bool,
}

/// The dispatch relation: `r` is the outcome of walking the children `es`
/// with the copy flag `copy`. A file among the children cannot be
/// inspected and fails the walk; a repository child is moved under its own
/// detected ignore list; any other child is skipped by name. The first
/// failure ends the walk with that failure.
pub open spec fn is_dispatch(
    es: EntryList,
    copy: bool,
    r: Result<(Seq<RepoMove>, Seq<Seq<u8>>), FsError>,
) -> bool
    decreases es,
{
    match es {
        EntryList::Empty => r matches Ok(p) && p.0.len() == 0 && p.1.len() == 0,
        EntryList::Entry { name, node, rest } => match *node {
            FsTree::File { .. } => r matches Err(e) && e == FsError::NotADirectory,
            FsTree::Dir { entries } => {
                if gitignore_is_dir(entries) {
                    r matches Err(e) && e == FsError::NotAFile
                } else if has_git(entries) {
                    match r {
                        Ok(p) => p.0.len() > 0 && p.0.first().name@ == name@
                            && p.0.first().outcome.source_kept == copy && is_copy_tree(
                            *node,
                            detected_gitignore(entries),
                            p.0.first().outcome.dest,
                        ) && is_dispatch(*rest, copy, Ok((p.0.drop_first(), p.1))),
                        Err(e) => is_dispatch(*rest, copy, Err(e)),
                    }
                } else {
                    match r {
                        Ok(p) => p.1.len() > 0 && p.1.first() == name@ && is_dispatch(
                            *rest,
                            copy,
                            Ok((p.0, p.1.drop_first())),
                        ),
                        Err(e) => is_dispatch(*rest, copy, Err(e)),
                    }
                }
            },
        },
    }
}

/// The view under which the dispatch relation reads an executable result.
pub open spec fn dispatch_view(r: Result<(Vec<RepoMove>, Vec<Vec<u8>>), FsError>) -> Result<
    (Seq<RepoMove>, Seq<Seq<u8>>),
    FsError,
> {
    match r {
        Ok(p) => Ok((p.0@, p.1.deep_view())),
        Err(e) => Err(e),
    }
}

fn dispatch_children(es: &EntryList, copy: bool) -> (r: Result<
    (Vec<RepoMove>, Vec<Vec<u8>>),
    FsError,
>)
    ensures
        is_dispatch(*es, copy, dispatch_view(r)),
    decreases *es,
{
    match es {
        EntryList::Empty => {
            let r: (Vec<RepoMove>, Vec<Vec<u8>>) = (Vec::new(), Vec::new());
            Ok(r)
        },
        EntryList::Entry { name, node, rest } => {
            let det = is_git_dir(&**node)?;
            if det.0 {
                let moved_one = move_dir(Some(&**node), &det.1, copy);
                match moved_one {
                    Ok(outcome) => {
                        let tail = dispatch_children(&**rest, copy)?;
                        let mut moved = tail.0;
                        let skipped = tail.1;
                        let ghost old_moved = moved@;
                        let record = RepoMove { name: clone_bytes(name), outcome };
                        moved.insert(0, record);
                        proof {
                            assert(moved@.drop_first() =~= old_moved);
                        }
                        Ok((moved, skipped))
                    },
                    Err(e) => {
                        proof {
                            assert(false);
                        }
                        Err(e)
                    },
                }
            } else {
                let tail = dispatch_children(&**rest, copy)?;
                let moved = tail.0;
                let mut skipped = tail.1;
                let ghost old_skipped = skipped.deep_view();
                skipped.insert(0, clone_bytes(name));
                proof {
                    crate::gitignore::lemma_bytes_deep_view(skipped@[0]);
                    assert(skipped.deep_view().drop_first() =~= old_skipped);
                    assert(skipped.deep_view().first() == name@);
                }
                Ok((moved, skipped))
            }
        },
    }
}

/// The names of the children that are git repositories, in enumeration
/// order.
pub open spec fn repo_names(es: EntryList) -> Seq<Seq<u8>>
    decreases es,
{
    match es {
        EntryList::Empty => Seq::empty(),
        EntryList::Entry { name, node, rest } => match *node {
            FsTree::Dir { entries } => if has_git(entries) {
                seq![name@] + repo_names(*rest)
            } else {
                repo_names(*rest)
            },
            FsTree::File { .. } => repo_names(*rest),
        },
    }
}

/// The names of the directory children that are not git repositories, in
/// enumeration order: the ones a successful walk skips.
pub open spec fn other_names(es: EntryList) -> Seq<Seq<u8>>
    decreases es,
{
    match es {
        EntryList::Empty => Seq::empty(),
        EntryList::Entry { name, node, rest } => match *node {
            FsTree::Dir { entries } => if has_git(entries) {
                other_names(*rest)
            } else {
                seq![name@] + other_names(*rest)
            },
            FsTree::File { .. } => other_names(*rest),
        },
    }
}

/// A successful walk is exhaustive and orderly: the moved records bear
/// exactly the names of the git-repository children, in enumeration order,
/// and the skipped names are exactly the remaining directory children, in
/// order.
pub proof fn lemma_dispatch_is_exhaustive(
    es: EntryList,
    copy: bool,
    m: Seq<RepoMove>,
    sk: Seq<Seq<u8>>,
)
    requires
        is_dispatch(es, copy, Ok((m, sk))),
    ensures
        m.map_values(|r: RepoMove| r.name@) == repo_names(es),
        sk == other_names(es),
    decreases es,
{
    match es {
        EntryList::Empty => {
            assert(m.map_values(|r: RepoMove| r.name@) =~= Seq::<Seq<u8>>::empty());
        },
        EntryList::Entry { name, node, rest } => match *node {
            FsTree::File { .. } => {},
            FsTree::Dir { entries } => {
                if has_git(entries) && !gitignore_is_dir(entries) {
                    lemma_dispatch_is_exhaustive(*rest, copy, m.drop_first(), sk);
                    assert(m.map_values(|r: RepoMove| r.name@) =~= seq![m.first().name@]
                        + m.drop_first().map_values(|r: RepoMove| r.name@));
                } else if !gitignore_is_dir(entries) {
                    lemma_dispatch_is_exhaustive(*rest, copy, m, sk.drop_first());
                    assert(sk =~= seq![sk.first()] + sk.drop_first());
                }
            },
        },
    }
}

/// The top-level dispatcher. A missing root or one that is no directory is
/// reported, not an error: the outcome is empty and says so. Otherwise every
/// child is classified; git repositories are moved under the given copy
/// flag, the rest are listed as skipped, and the first failure aborts the
/// walk.
pub fn move_recursive(root: Option<&FsTree>, copy: bool) -> (r: Result<DispatchOutcome, FsError>)
    ensures
        match root {
            None => r matches Ok(o) && !o.root_was_dir && o.moved@.len() == 0 && o.skipped@.len()
                == 0,
            Some(t) => match *t {
                FsTree::File { .. } => r matches Ok(o) && !o.root_was_dir && o.moved@.len() == 0
                    && o.skipped@.len() == 0,
                FsTree::Dir { entries } => match r {
                    Ok(o) => o.root_was_dir && is_dispatch(
                        entries,
                        copy,
                        Ok((o.moved@, o.skipped.deep_view())),
                    ),
                    Err(e) => is_dispatch(entries, copy, Err(e)),
                },
            },
        },
{
    match root {
        None => Ok(
            DispatchOutcome { moved: Vec::new(), skipped: Vec::new(), root_was_dir: false },
        ),
        Some(t) => match t {
            FsTree::File { .. } => Ok(
                DispatchOutcome { moved: Vec::new(), skipped: Vec::new(), root_was_dir: false },
            ),
            FsTree::Dir { entries } => {
                let pair = dispatch_children(entries, copy)?;
                Ok(DispatchOutcome { moved: pair.0, skipped: pair.1, root_was_dir: true })
            },
        },
    }
}

} // verus!
