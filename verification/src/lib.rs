//! Path resolution and process-identity management.
//!
//! The crate covers lexical path normalization and absolutization, tilde/home
//! expansion, XDG base-directory resolution, and the pure decision logic of
//! real/effective/saved user-and-group identity switching.

pub mod errors;
pub mod iter;
pub mod path;
pub mod path_model;
pub mod strings;
pub mod tempdir;
pub mod switch;
pub mod user;
pub mod xdg;

pub use errors::FileError;
pub use errors::PathError;
pub use errors::UserError;
