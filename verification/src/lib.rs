//! Relocates git repositories found among the immediate subdirectories of a
//! root directory, excluding the entries named in each repository's
//! `.gitignore`.
//!
//! The library works on an explicit model of the filesystem: a directory tree
//! is a value of [`fstree::FsTree`], with entry names and file contents held
//! as plain bytes. Every decision the tool makes — how `.gitignore` lines are
//! cleaned, which entries a copy skips, when a move fails, which children of
//! the root are moved — is a verified function over that model. The thin
//! binary around the library reads a directory into the model, runs the
//! verified logic, and applies the resulting trees back to disk.

pub mod args;
pub mod copier;
pub mod dispatch;
pub mod fstree;
pub mod gitignore;
pub mod mover;
pub mod repo;
