//! One child of a listed directory.

use crate::algebra::{is_dot, is_dot_dot, name_of};
use crate::path::AbsolutePath;
use vstd::prelude::*;

verus! {

/// An entry of a directory, known by its path.
#[derive(Debug)]
pub struct DirEntry {
    path: AbsolutePath,
}

impl View for DirEntry {
    type V = Seq<char>;

    closed spec fn view(&self) -> Seq<char> {
        self.path@
    }
}

impl DirEntry {
    pub fn new(path: AbsolutePath) -> (entry: DirEntry)
        ensures
            entry@ == path@,
    {
        DirEntry { path }
    }

    /// The last component of the entry's path. It is never `.` or `..`.
    pub fn name(&self) -> (text: &str)
        ensures
            text@ == name_of(self@),
            !is_dot(text@),
            !is_dot_dot(text@),
    {
        self.path.name()
    }

    pub fn path(&self) -> (path: &AbsolutePath)
        ensures
            path@ == self@,
    {
        &self.path
    }
}

impl PartialEq for DirEntry {
    fn eq(&self, other: &Self) -> (equal: bool) {
        self.path == other.path
    }
}

impl vstd::std_specs::cmp::PartialEqSpecImpl for DirEntry {
    open spec fn obeys_eq_spec() -> bool {
        true
    }

    open spec fn eq_spec(&self, other: &Self) -> bool {
        self@ == other@
    }
}

} // verus!
