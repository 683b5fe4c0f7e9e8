//! Where the clones of remote repositories live on this machine.
//!
//! All repositories are kept in one directory tree. The library infers the
//! URL that an abbreviated reference stands for, derives the directory of a
//! repository from its URL and the directory of a linked working copy from
//! that of its repository, and tells which directories of a walk through the
//! tree are the managed repositories.

pub mod branch;
pub mod config;
pub mod error;
pub mod fetch;
pub mod layout;
pub mod origin;
pub mod path;
pub mod remote;
pub mod text;
pub mod walk;
