//! A virtual filesystem whose providers can be native or sandboxed plugins.
//!
//! A provider implements [`Vfs`]. Paths are [`AbsolutePath`]s, canonical by
//! construction; [`algebra`] defines what that means and proves the laws
//! that host and guest rely on. A plugin runs in a [`sandbox`] and sees
//! host values only through the handles of a [`HandleTable`]; [`bridge`]
//! decides what happens around each call into it, [`cache`] where its
//! compiled form is kept, and [`loader`] in which order it is brought up.
//! [`panel`] turns a provider's answers into the rows of a listing.
//!
//! The library does no input or output of its own. Reading files, running
//! the sandbox and drawing the listing are the caller's part; the caller
//! hands in what came back and is told what follows.

pub mod algebra;
pub mod bridge;
pub mod cache;
pub mod dir_entry;
pub mod error;
pub mod handle;
pub mod loader;
pub mod order;
pub mod panel;
pub mod path;
pub mod pattern;
pub mod sandbox;
pub mod stat;
pub mod text;
pub mod vfs;

pub use dir_entry::DirEntry;
pub use error::VfsError;
pub use handle::{Handle, HandleTable, Ownership};
pub use path::AbsolutePath;
pub use stat::{Kind, Stat};
pub use vfs::{File, OpenOptions, Seek, Vfs, VfsResult};
