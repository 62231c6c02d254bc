//! The mover: relocates one repository directory.
//!
//! A move copies the source tree under its ignore list and then, unless
//! copy mode was asked for, gives the source up. A source that does not
//! exist fails before anything is copied. A copy failure aborts the move
//! with the source untouched; here that happens exactly when the source is
//! not a directory.

use vstd::prelude::*;

use crate::copier::{copy_dir_recursive, is_copy_tree};
use crate::fstree::{FsError, FsTree};

verus! {

/// What one move produced.
pub struct MoveOutcome {
    /// The copied tree now standing at the destination.
    pub dest: FsTree,
    /// True when the source directory is to remain (copy mode); false when
    /// it is to be removed.
    pub source_kept: bool,
}

/// The mover. A missing source fails with `NotFound` and changes nothing; a
/// source that is no directory fails as the copier does; otherwise the
/// destination receives the copy, and the source remains exactly when
/// `copy` was set.
pub fn move_dir(source: Option<&FsTree>, gitignore: &Option<Vec<Vec<u8>>>, copy: bool) -> (r:
    Result<MoveOutcome, FsError>)
    ensures
        match source {
            None => r matches Err(e) && e == FsError::NotFound,
            Some(s) => match *s {
                FsTree::File { .. } => r matches Err(e) && e == FsError::NotADirectory,
                FsTree::Dir { .. } => r matches Ok(o) && is_copy_tree(
                    *s,
                    gitignore.deep_view(),
                    o.dest,
                ) && o.source_kept == copy,
            },
        },
{
    match source {
        None => Err(FsError::NotFound),
        Some(s) => {
            let copied = copy_dir_recursive(s, gitignore)?;
            Ok(MoveOutcome { dest: copied, source_kept: copy })
        },
    }
}

} // verus!
