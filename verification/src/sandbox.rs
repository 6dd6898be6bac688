//! What a plugin is allowed to reach.
//!
//! Every plugin instance runs in a sandbox of its own. The sandbox shows
//! the guest one directory of the host as the guest's root, for reading
//! only, and nothing else: no other directory, no network. The host's
//! standard streams and arguments are passed in for diagnostics.

use crate::algebra::{components_of, is_canonical};
use crate::path::AbsolutePath;
use crate::text::{same_text, texts};
use vstd::prelude::*;

verus! {

/// What the sandbox grants the guest.
#[derive(Clone, Copy, Debug, PartialEq, Eq, Structural)]
pub struct Grants {
    /// Directories under the root may be listed.
    pub read_dirs: bool,
    /// Directories under the root may be changed.
    pub mutate_dirs: bool,
    /// Files under the root may be read.
    pub read_files: bool,
    /// Files under the root may be written.
    pub write_files: bool,
    /// The guest has the host's standard streams.
    pub stdio: bool,
    /// The guest has the host's arguments.
    pub arguments: bool,
    /// The guest may open network connections.
    pub network: bool,
}

impl Grants {
    /// Reading under the root, the standard streams and the arguments; no
    /// writing and no network.
    pub open spec fn read_only() -> Grants {
        Grants {
            read_dirs: true,
            mutate_dirs: false,
            read_files: true,
            write_files: false,
            stdio: true,
            arguments: true,
            network: false,
        }
    }
}

/// The sandbox of one plugin instance: the host directory that the guest
/// sees as its root.
pub struct Sandbox {
    root: AbsolutePath,
}

impl View for Sandbox {
    type V = Seq<char>;

    /// The text of the host directory.
    closed spec fn view(&self) -> Seq<char> {
        self.root@
    }
}

/// `prefix` is how `whole` starts.
pub open spec fn starts_with(whole: Seq<Seq<char>>, prefix: Seq<Seq<char>>) -> bool {
    prefix.len() <= whole.len() && whole.take(prefix.len() as int) == prefix
}

impl Sandbox {
    /// The sandbox that shows the guest the host directory `root`.
    pub fn new(root: &AbsolutePath) -> (sandbox: Self)
        ensures
            sandbox@ == root@,
    {
        Sandbox { root: root.clone() }
    }

    /// The host directory that the guest sees as its root.
    pub fn root(&self) -> (root: &AbsolutePath)
        ensures
            root@ == self@,
    {
        &self.root
    }

    /// Where the host directory appears to the guest: at the guest's root.
    pub fn mount_point(&self) -> (guest: AbsolutePath)
        ensures
            guest@ == seq!['/'],
    {
        let guest = AbsolutePath::new("/");
        proof {
            reveal_strlit("/");
            let slash = seq!['/'];
            assert("/"@ =~= slash);
            assert(is_canonical(slash));
            crate::algebra::lemma_normalized_fixes_canonical(slash);
        }
        guest
    }

    /// What the guest is granted. Every sandbox grants the same.
    pub fn grants(&self) -> (grants: Grants)
        ensures
            grants == Grants::read_only(),
    {
        Grants {
            read_dirs: true,
            mutate_dirs: false,
            read_files: true,
            write_files: false,
            stdio: true,
            arguments: true,
            network: false,
        }
    }

    /// The host path that the guest's path `guest` stands for. It lies
    /// under the root whatever the guest asks for: a guest path is
    /// canonical, so nothing in it leads upwards.
    pub fn host_path(&self, guest: &AbsolutePath) -> (host: AbsolutePath)
        ensures
            is_canonical(host@),
            components_of(host@) == components_of(self@) + components_of(guest@),
            starts_with(components_of(host@), components_of(self@)),
    {
        let host = self.root.join(guest);
        proof {
            assert((components_of(self@) + components_of(guest@)).take(
                components_of(self@).len() as int,
            ) =~= components_of(self@));
        }
        host
    }

    /// The guest's path for the host path `host`, where the guest can see
    /// it: where `host` lies under the root.
    pub fn guest_path(&self, host: &AbsolutePath) -> (guest: Option<AbsolutePath>)
        ensures
            guest is Some <==> starts_with(components_of(host@), components_of(self@)),
            guest matches Some(path) ==> is_canonical(path@) && components_of(self@)
                + components_of(path@) == components_of(host@),
    {
        let outer = self.root.components();
        let inner = host.components();
        if outer.len() > inner.len() {
            return None;
        }
        let mut k: usize = 0;
        while k < outer.len()
            invariant
                k <= outer.len() <= inner.len(),
                texts(outer@) == components_of(self@),
                texts(inner@) == components_of(host@),
                texts(inner@).take(k as int) == texts(outer@).take(k as int),
            decreases outer.len() - k,
        {
            if !same_text(outer[k], inner[k]) {
                proof {
                    let len = outer.len() as int;
                    if texts(inner@).take(len) == texts(outer@) {
                        assert(texts(inner@).take(len)[k as int] == texts(inner@)[k as int]);
                        assert(texts(outer@)[k as int] == outer@[k as int]@);
                        assert(texts(inner@)[k as int] == inner@[k as int]@);
                    }
                }
                return None;
            }
            proof {
                assert(texts(inner@).take(k + 1) =~= texts(inner@).take(k as int).push(
                    inner@[k as int]@,
                ));
                assert(texts(outer@).take(k + 1) =~= texts(outer@).take(k as int).push(
                    outer@[k as int]@,
                ));
            }
            k = k + 1;
        }
        proof {
            assert(texts(outer@).take(outer.len() as int) =~= texts(outer@));
        }
        let path = host.strip(outer.len());
        proof {
            assert(components_of(self@) + components_of(path@) =~= components_of(host@));
        }
        Some(path)
    }
}

} // verus!
