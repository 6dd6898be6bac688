//! Where the compiled form of a plugin is kept.
//!
//! Compiling a plugin is slow, so the result is kept on disk under a name
//! that is made from the digest of the plugin's bytes. The same bytes give
//! the same name, so a plugin that was compiled once is found again; other
//! bytes give another name, so a stale entry is never taken for a fresh
//! one. An entry may be deleted at any time: it is then made anew.

use crate::algebra::{components_of, is_canonical, is_component, normalized, slash_free};
use crate::path::AbsolutePath;
use vstd::prelude::*;

verus! {

/// The SHA-256 digest of `data`, written as hexadecimal text.
pub uninterp spec fn sha256_hex(data: Seq<u8>) -> Seq<char>;

/// Calls `sha256::digest` on the bytes. The result is the digest of exactly
/// these bytes as text, and so depends on nothing but them.
#[verifier::external_body]
pub(crate) fn digest_hex(data: &[u8]) -> (hex: String)
    ensures
        hex@ == sha256_hex(data@),
{
    sha256::digest(data)
}

/// What the name of every entry starts with.
pub const ENTRY_PREFIX: &'static str = "plugin_vfs_";

/// The name of the cache directory inside a home directory.
pub const CACHE_FOLDER: &'static str = ".junkyard";

/// The text of the entry for `digest` in the cache at `root`.
pub open spec fn entry_text(root: Seq<char>, digest: Seq<char>) -> Seq<char> {
    normalized(root + seq!['/'] + (ENTRY_PREFIX@ + digest))
}

/// A directory of compiled plugins.
pub struct ArtifactCache {
    root: AbsolutePath,
}

impl View for ArtifactCache {
    type V = Seq<char>;

    /// The text of the cache's root.
    closed spec fn view(&self) -> Seq<char> {
        self.root@
    }
}

impl ArtifactCache {
    /// The cache at `root`.
    pub fn new(root: AbsolutePath) -> (cache: Self)
        ensures
            cache@ == root@,
    {
        ArtifactCache { root }
    }

    /// The cache of the user whose home directory is `home`.
    pub fn under_home(home: &AbsolutePath) -> (cache: Self)
        ensures
            cache@ == normalized(home@ + seq!['/'] + CACHE_FOLDER@),
            components_of(cache@) == components_of(home@).push(CACHE_FOLDER@),
    {
        proof {
            reveal_strlit(".junkyard");
            assert(is_component(CACHE_FOLDER@));
        }
        ArtifactCache { root: home.child(CACHE_FOLDER) }
    }

    /// The directory that holds the entries.
    pub fn root(&self) -> (root: &AbsolutePath)
        ensures
            root@ == self@,
    {
        &self.root
    }

    /// The path of the entry for the plugin whose digest is `digest`: the
    /// file named by the prefix and the digest, directly inside the root
    /// where the digest holds no separator.
    pub fn entry(&self, digest: &str) -> (path: AbsolutePath)
        ensures
            path@ == entry_text(self@, digest@),
            is_canonical(path@),
            slash_free(digest@) ==> components_of(path@) == components_of(self@).push(
                ENTRY_PREFIX@ + digest@,
            ),
    {
        broadcast use vstd::string::axiom_spec_iter;

        let mut name = ENTRY_PREFIX.to_owned();
        let ghost head = name@;
        for c in it: digest.chars()
            invariant
                it.seq() == digest@,
                name@ == head + digest@.take(it.index()),
        {
            name.push(c);
            proof {
                assert(digest@.take(it.index()).push(c) =~= digest@.take(it.index() + 1));
            }
        }
        proof {
            assert(digest@.take(digest@.len() as int) =~= digest@);
            reveal_strlit("plugin_vfs_");
            if slash_free(digest@) {
                assert(is_component(ENTRY_PREFIX@ + digest@));
            }
        }
        self.root.child(name.as_str())
    }

    /// The path of the entry for the plugin with the given bytes. Equal
    /// bytes give the same entry.
    pub fn locate(&self, bytecode: &[u8]) -> (path: AbsolutePath)
        ensures
            path@ == entry_text(self@, sha256_hex(bytecode@)),
            is_canonical(path@),
    {
        let digest = digest_hex(bytecode);
        self.entry(digest.as_str())
    }
}

} // verus!
