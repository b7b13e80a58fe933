//! Filesystem navigation core of a file explorer: directory listings with a
//! fixed sort policy and a search filter, a navigation state with back and
//! forward history, file operations planned as values for the caller to run,
//! and the display rules for sizes and modification times.

pub mod display;
pub mod error;
pub mod fileops;
pub mod listing;
pub mod nav;
pub mod path;
pub mod session;
pub mod text;

pub use display::{file_size, file_type, last_modified, windows_date};
pub use error::FsError;
pub use fileops::{FileOp, copy, create_dir, create_file, cut, delete, open, rename};
pub use listing::{Entry, RawEntry, list};
pub use nav::Ex;
pub use path::FsPath;
pub use session::{Browser, Buffer, Event, Tabs};
