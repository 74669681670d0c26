//! A version manager for a database server distribution: it resolves a
//! version specifier to a concrete release, names the matching download
//! artifact for the current platform, and tracks installed versions in a
//! local store.

pub mod arch;
pub mod catalog;
pub mod digits;
pub mod error;
pub mod fs;
pub mod install;
pub mod linux;
pub mod macos;
pub mod monger;
pub mod os;
pub mod resolve;
pub mod store;
pub mod tags;
pub mod url;
pub mod util;
pub mod version;
pub mod windows;
