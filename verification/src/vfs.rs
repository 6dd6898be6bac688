//! The contract that every provider implements, native or bridged.

use crate::error::VfsError;
use crate::path::AbsolutePath;
use crate::stat::Stat;
use vstd::prelude::*;

verus! {

/// What an operation of the virtual filesystem returns.
pub type VfsResult<T> = Result<T, VfsError>;

/// How a file is to be opened. The flags are taken as given: nothing checks
/// that they agree with one another.
#[derive(Debug, Copy, Clone, PartialEq, Eq, Structural)]
#[non_exhaustive]
pub struct OpenOptions {
    pub create: bool,
    pub read: bool,
    pub write: bool,
    pub truncate: bool,
    pub append: bool,
}

impl OpenOptions {
    /// For writing a file that may have to be created.
    pub fn create() -> (options: Self)
        ensures
            options == (OpenOptions {
                create: true,
                read: false,
                write: true,
                truncate: false,
                append: false,
            }),
    {
        OpenOptions { create: true, read: false, write: true, truncate: false, append: false }
    }

    /// For reading an existing file.
    pub fn read() -> (options: Self)
        ensures
            options == (OpenOptions {
                create: false,
                read: true,
                write: false,
                truncate: false,
                append: false,
            }),
    {
        OpenOptions { create: false, read: true, write: false, truncate: false, append: false }
    }

    /// For writing a file from its start, discarding what it held.
    pub fn truncate(create: bool) -> (options: Self)
        ensures
            options == (OpenOptions {
                create,
                read: false,
                write: true,
                truncate: true,
                append: false,
            }),
    {
        OpenOptions { create, read: false, write: true, truncate: true, append: false }
    }

    /// For writing at the end of a file.
    pub fn append(create: bool) -> (options: Self)
        ensures
            options == (OpenOptions {
                create,
                read: false,
                write: true,
                truncate: false,
                append: true,
            }),
    {
        OpenOptions { create, read: false, write: true, truncate: false, append: true }
    }

    /// For reading and writing.
    pub fn read_write(create: bool) -> (options: Self)
        ensures
            options == (OpenOptions {
                create,
                read: true,
                write: true,
                truncate: false,
                append: false,
            }),
    {
        OpenOptions { create, read: true, write: true, truncate: false, append: false }
    }
}

/// A position in a file, counted from one of three reference points.
#[derive(Debug, Copy, Clone, PartialEq, Eq, Structural)]
pub enum Seek {
    /// So many bytes after the start.
    Start(u64),
    /// So many bytes after the end; negative offsets lie inside the file.
    End(i64),
    /// So many bytes after the current position, or before it.
    Current(i64),
}

impl Seek {
    /// The position that the request asks for in a file of `len` bytes
    /// whose current position is `at`.
    pub open spec fn target(self, at: u64, len: u64) -> int {
        match self {
            Seek::Start(offset) => offset as int,
            Seek::End(offset) => len + offset,
            Seek::Current(offset) => at + offset,
        }
    }

    /// The position that the request asks for, where it can be one: a
    /// position is not negative and fits in 64 bits.
    pub fn resolve(&self, at: u64, len: u64) -> (position: Option<u64>)
        ensures
            0 <= self.target(at, len) <= u64::MAX ==> position == Some(
                self.target(at, len) as u64,
            ),
            !(0 <= self.target(at, len) <= u64::MAX) ==> position is None,
    {
        match *self {
            Seek::Start(offset) => Some(offset),
            Seek::End(offset) => offset_from(len, offset),
            Seek::Current(offset) => offset_from(at, offset),
        }
    }
}

/// `base + offset`, where that is a position.
fn offset_from(base: u64, offset: i64) -> (position: Option<u64>)
    ensures
        0 <= base + offset <= u64::MAX ==> position == Some((base + offset) as u64),
        !(0 <= base + offset <= u64::MAX) ==> position is None,
{
    if offset >= 0 {
        let forward = offset as u64;
        if forward <= u64::MAX - base {
            Some(base + forward)
        } else {
            None
        }
    } else {
        let back: u64 = if offset == i64::MIN {
            0x8000_0000_0000_0000u64
        } else {
            (-offset) as u64
        };
        if back <= base {
            Some(base - back)
        } else {
            None
        }
    }
}

/// An open file.
pub trait File {
    /// Reads into `buffer` and returns how many bytes were read.
    fn read(&mut self, buffer: &mut [u8]) -> VfsResult<u64>;

    /// Writes from `buffer` and returns how many bytes were written.
    fn write(&mut self, buffer: &[u8]) -> VfsResult<u64>;

    /// Moves the position and returns it, counted from the start.
    fn seek(&mut self, from: Seek) -> VfsResult<u64>;
}

/// A provider of files and folders. Providers are shared between threads,
/// and every operation takes the path it works on.
pub trait Vfs: Send + Sync {
    fn open(&self, path: &AbsolutePath, open_options: OpenOptions) -> VfsResult<Box<dyn File>>;

    fn unlink(&self, path: &AbsolutePath) -> VfsResult<()>;

    fn stat(&self, path: &AbsolutePath) -> VfsResult<Stat>;

    /// The direct children of the folder at `path`, in no particular order.
    fn read_dir(&self, path: &AbsolutePath) -> VfsResult<Vec<AbsolutePath>>;

    fn create_dir(&self, path: &AbsolutePath) -> VfsResult<()>;

    fn create_dir_all(&self, path: &AbsolutePath) -> VfsResult<()>;

    fn rename(&self, from: &AbsolutePath, to: &AbsolutePath) -> VfsResult<()>;
}

} // verus!
