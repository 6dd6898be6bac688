//! What a provider knows about one entry.

use vstd::prelude::*;

verus! {

/// The kind of an entry.
#[derive(Clone, Copy, Debug, PartialEq, Eq, Structural, PartialOrd, Ord, Hash)]
#[non_exhaustive]
pub enum Kind {
    File,
    Folder,
    Link,
    Unknown,
}

impl Kind {
    /// The lower-case name of the kind.
    pub fn as_str(&self) -> (name: &'static str)
        ensures
            self is File ==> name@ == "file"@,
            self is Folder ==> name@ == "folder"@,
            self is Link ==> name@ == "link"@,
            self is Unknown ==> name@ == "unknown"@,
    {
        match self {
            Kind::File => "file",
            Kind::Folder => "folder",
            Kind::Link => "link",
            Kind::Unknown => "unknown",
        }
    }

    /// The position of the kind in the order `File < Folder < Link <
    /// Unknown`.
    pub open spec fn rank_of(self) -> int {
        match self {
            Kind::File => 0,
            Kind::Folder => 1,
            Kind::Link => 2,
            Kind::Unknown => 3,
        }
    }

    /// The position of the kind in the order by which entries are sorted.
    pub fn rank(&self) -> (position: u8)
        ensures
            position == self.rank_of(),
    {
        match self {
            Kind::File => 0,
            Kind::Folder => 1,
            Kind::Link => 2,
            Kind::Unknown => 3,
        }
    }

    /// What the answers of a filesystem to "is it a directory", "is it a
    /// symbolic link" and "is it a regular file" say about the kind. They
    /// are asked in that order, and the first that holds decides.
    pub open spec fn classified(is_dir: bool, is_symlink: bool, is_file: bool) -> Kind {
        if is_dir {
            Kind::Folder
        } else if is_symlink {
            Kind::Link
        } else if is_file {
            Kind::File
        } else {
            Kind::Unknown
        }
    }

    /// The kind of an entry, from what a filesystem says of it.
    pub fn classify(is_dir: bool, is_symlink: bool, is_file: bool) -> (kind: Kind)
        ensures
            kind == Kind::classified(is_dir, is_symlink, is_file),
    {
        if is_dir {
            Kind::Folder
        } else if is_symlink {
            Kind::Link
        } else if is_file {
            Kind::File
        } else {
            Kind::Unknown
        }
    }
}

/// The kind and the size in bytes of an entry.
#[derive(Clone, Copy, Debug, PartialEq, Eq, Structural)]
pub struct Stat {
    pub kind: Kind,
    pub size: u64,
}

impl Stat {
    pub fn new(kind: Kind, size: u64) -> (stat: Stat)
        ensures
            stat.kind == kind,
            stat.size == size,
    {
        Stat { kind, size }
    }

    pub fn kind(&self) -> (kind: Kind)
        ensures
            kind == self.kind,
    {
        self.kind
    }

    pub fn size(&self) -> (size: u64)
        ensures
            size == self.size,
    {
        self.size
    }

    /// The description of an entry, from what a filesystem says of it.
    pub fn describe(is_dir: bool, is_symlink: bool, is_file: bool, len: u64) -> (stat: Stat)
        ensures
            stat.kind == Kind::classified(is_dir, is_symlink, is_file),
            stat.size == len,
    {
        Stat { kind: Kind::classify(is_dir, is_symlink, is_file), size: len }
    }
}

} // verus!
