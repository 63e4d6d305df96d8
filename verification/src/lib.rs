//! Installation directory layouts in the GNU style.
//!
//! The crate computes where each category of installed file belongs (programs,
//! libraries, data, configuration, state) from a prefix and a set of directory
//! fragments. It touches no file system: paths are text and follow POSIX
//! conventions. `/` separates the segments of a path, and a path that begins
//! with `/` is rooted.
//!
//! Every function is verified against a mathematical model of its arguments:
//! a path is the sequence of its characters, and an [`InstallDirs`] is a
//! record of seventeen such sequences.
//!
//! - [`path`]: rooted paths, pushing a fragment onto a path, the segments of
//!   a path.
//! - [`dirs`]: the layout and its constructors.
//! - [`canonical`]: the resolution of every fragment to a rooted path.
//! - [`field`]: the directories by name.
//! - [`record`]: overrides by name, and layouts written out and read back.

pub mod canonical;
pub mod dirs;
pub mod field;
pub mod path;
pub mod record;

pub use canonical::CanonicalizationError;
pub use dirs::InstallDirs;
pub use field::Field;
pub use record::DecodeError;
