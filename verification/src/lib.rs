//! Resolution of a requested program name to an executable file.
//!
//! A requested name is either absolute, relative (it contains a path
//! separator but does not start with one), or bare (no separator at
//! all). An absolute name is checked as it stands; a relative name is
//! anchored at a working directory; a bare name is looked up in an
//! ordered search path, first match wins. A match must be a regular
//! file that the current process may execute.
//!
//! The filesystem itself is reached only through the [`check::FileCheck`]
//! capability trait, so the resolver is verified once against that
//! interface and callers choose how the checks are answered.

pub mod check;
pub mod error;
pub mod paths;
pub mod resolve;

pub use check::is_executable;
pub use check::is_exist;
pub use check::FileCheck;
pub use check::FsEntry;
pub use check::FsTable;
pub use error::Error;
pub use paths::split_search_path;
pub use resolve::which_in;
