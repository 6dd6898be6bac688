//! The host's side of a call into a plugin.
//!
//! A call has three parts. The host lends the guest a handle for the path
//! in question; the guest runs, and may create paths of its own through the
//! functions that the host offers it; the host takes what the guest
//! answered and releases what was lent. The middle part runs inside the
//! sandbox and is not done here: this module decides what happens before
//! and after it, and what the guest's requests do to the table.

use crate::algebra::{components_of, is_canonical, name_of, normalized, parent_of};
use crate::error::VfsError;
use crate::handle::{exhausted, first_free, Handle, HandleTable, Ownership};
use crate::path::AbsolutePath;
use crate::stat::Stat;
use crate::text::texts;
use vstd::prelude::*;

verus! {

/// An operation of the filesystem contract.
#[derive(Clone, Copy, Debug, PartialEq, Eq, Structural)]
pub enum Operation {
    Open,
    Unlink,
    Stat,
    ReadDir,
    CreateDir,
    CreateDirAll,
    Rename,
}

impl Operation {
    /// The operations that a plugin answers. The others are refused.
    pub open spec fn bridged(self) -> bool {
        self is Stat || self is ReadDir
    }

    /// Whether a plugin answers this operation.
    pub fn is_bridged(&self) -> (answer: bool)
        ensures
            answer == self.bridged(),
    {
        match self {
            Operation::Stat => true,
            Operation::ReadDir => true,
            _ => false,
        }
    }

    /// Fails with `NotImplemented` for an operation that plugins do not
    /// answer, and only for those.
    pub fn check(&self) -> (admitted: Result<(), VfsError>)
        ensures
            self.bridged() ==> admitted is Ok,
            !self.bridged() ==> admitted == Err::<(), VfsError>(VfsError::NotImplemented),
    {
        if self.is_bridged() {
            Ok(())
        } else {
            Err(VfsError::NotImplemented)
        }
    }
}

/// How a call into the guest ended.
#[derive(Debug)]
pub enum GuestReply<T> {
    /// The guest returned a value.
    Answer(T),
    /// The guest returned an error of its own, with its message.
    Refused(String),
    /// The call did not return: the sandbox faulted, with its message.
    Fault(String),
}

impl<T> GuestReply<T> {
    /// What the call gave, in the terms of the contract: a value is passed
    /// on; an error of the guest and a fault both become `GuestCall` with
    /// the message they came with.
    pub open spec fn outcome(self) -> Result<T, VfsError> {
        match self {
            GuestReply::Answer(value) => Ok(value),
            GuestReply::Refused(message) => Err(VfsError::GuestCall(message)),
            GuestReply::Fault(message) => Err(VfsError::GuestCall(message)),
        }
    }

    /// What the call gave, in the terms of the contract.
    pub fn into_result(self) -> (result: Result<T, VfsError>)
        ensures
            result == self.outcome(),
    {
        match self {
            GuestReply::Answer(value) => Ok(value),
            GuestReply::Refused(message) => Err(VfsError::GuestCall(message)),
            GuestReply::Fault(message) => Err(VfsError::GuestCall(message)),
        }
    }
}

/// The first part of a call for a plugin that takes paths as text rather
/// than by handle: refuses an operation that plugins do not answer, and
/// gives the canonical text of `path` otherwise. Nothing is lent, so nothing
/// is to be released afterwards. A host and its plugin agree on one of the
/// two ways.
pub fn begin_with_text(operation: Operation, path: &AbsolutePath) -> (text: Result<
    String,
    VfsError,
>)
    ensures
        !operation.bridged() ==> text == Err::<String, VfsError>(VfsError::NotImplemented),
        operation.bridged() ==> (text matches Ok(t) && t@ == path@ && is_canonical(t@)),
{
    match operation.check() {
        Err(e) => Err(e),
        Ok(_) => Ok(path.as_str().to_owned()),
    }
}

/// The last part of a `read_dir` call for a plugin that answers with texts:
/// the paths that the listed texts denote, in the order of the list.
/// Whatever the guest wrote, every path is canonical.
pub fn finish_read_dir_with_text(reply: GuestReply<Vec<String>>) -> (result: Result<
    Vec<AbsolutePath>,
    VfsError,
>)
    ensures
        match reply {
            GuestReply::Answer(listed) => result matches Ok(paths) && paths@.len()
                == listed@.len() && forall|i: int|
                0 <= i < listed@.len() ==> (#[trigger] paths@[i])@ == normalized(listed@[i]@),
            GuestReply::Refused(message) => result == Err::<Vec<AbsolutePath>, VfsError>(
                VfsError::GuestCall(message),
            ),
            GuestReply::Fault(message) => result == Err::<Vec<AbsolutePath>, VfsError>(
                VfsError::GuestCall(message),
            ),
        },
{
    match reply {
        GuestReply::Refused(message) => Err(VfsError::GuestCall(message)),
        GuestReply::Fault(message) => Err(VfsError::GuestCall(message)),
        GuestReply::Answer(listed) => {
            let mut paths: Vec<AbsolutePath> = Vec::new();
            let mut k: usize = 0;
            while k < listed.len()
                invariant
                    k <= listed.len(),
                    paths@.len() == k,
                    forall|i: int|
                        0 <= i < k ==> (#[trigger] paths@[i])@ == normalized(listed@[i]@),
                decreases listed.len() - k,
            {
                paths.push(AbsolutePath::new(listed[k].as_str()));
                k = k + 1;
            }
            Ok(paths)
        },
    }
}

/// What a request answers when no handle is left to give.
pub const TABLE_FULL: &'static str = "the handle table is full";

/// The texts that a sequence of strings holds.
pub open spec fn strings(parts: Seq<String>) -> Seq<Seq<char>> {
    Seq::new(parts.len(), |i: int| parts[i]@)
}

/// The error of a request that found no handle left to give.
pub open spec fn full(e: VfsError) -> bool {
    e matches VfsError::Other(message) && message@ == TABLE_FULL@
}

/// The live entries of `live` whose id is not among `ids`.
pub open spec fn without(live: Map<u32, Seq<char>>, ids: Seq<u32>) -> Map<u32, Seq<char>> {
    Map::new(|id: u32| live.dom().contains(id) && !ids.contains(id), |id: u32| live[id])
}

/// Every id of `ids` is live in `live`, and none occurs twice.
pub open spec fn all_live_once(live: Map<u32, Seq<char>>, ids: Seq<u32>) -> bool {
    &&& ids.no_duplicates()
    &&& forall|i: int| 0 <= i < ids.len() ==> live.dom().contains(#[trigger] ids[i])
}

/// The paths that one plugin instance and its host share by handle.
pub struct Bridge {
    paths: HandleTable<AbsolutePath>,
}

impl View for Bridge {
    type V = Map<u32, Seq<char>>;

    /// The live ids and the text of the path behind each.
    closed spec fn view(&self) -> Map<u32, Seq<char>> {
        Map::new(|id: u32| self.paths@.dom().contains(id), |id: u32| self.paths@[id]@)
    }
}

impl Bridge {
    /// A bridge without paths.
    pub fn new() -> (bridge: Self)
        ensures
            bridge@ == Map::<u32, Seq<char>>::empty(),
    {
        let bridge = Bridge { paths: HandleTable::new() };
        proof {
            assert(bridge@ =~= Map::<u32, Seq<char>>::empty());
        }
        bridge
    }

    /// Puts `path` in the table under a new handle with the given tag.
    fn register(&mut self, path: AbsolutePath, ownership: Ownership) -> (handle: Result<
        Handle,
        VfsError,
    >)
        ensures
            match handle {
                Ok(h) => {
                    &&& h.ownership == ownership
                    &&& first_free(old(self)@, h.id)
                    &&& final(self)@ == old(self)@.insert(h.id, path@)
                },
                Err(e) => full(e) && exhausted(old(self)@) && final(self)@ == old(self)@,
            },
    {
        let ghost text = path@;
        let ghost before = self@;
        let ghost table = self.paths@;
        match self.paths.allocate(path, ownership) {
            Some(h) => {
                proof {
                    assert(self@ =~= before.insert(h.id, text));
                    assert forall|below: u32| below < h.id implies before.dom().contains(
                        below,
                    ) by {
                        assert(table.dom().contains(below));
                    }
                }
                Ok(h)
            },
            None => {
                proof {
                    assert forall|id: u32| before.dom().contains(id) by {
                        assert(table.dom().contains(id));
                    }
                }
                Err(VfsError::Other(TABLE_FULL.to_owned()))
            },
        }
    }

    /// Lends the guest a handle for `path`, good for one call. The handle
    /// is tagged `Borrowed`: the guest must not release it, the host does
    /// when the call has ended.
    pub fn lend(&mut self, path: &AbsolutePath) -> (lent: Result<Handle, VfsError>)
        ensures
            match lent {
                Ok(h) => {
                    &&& h.ownership == Ownership::Borrowed
                    &&& first_free(old(self)@, h.id)
                    &&& final(self)@ == old(self)@.insert(h.id, path@)
                },
                Err(e) => full(e) && exhausted(old(self)@) && final(self)@ == old(self)@,
            },
    {
        self.register(path.clone(), Ownership::Borrowed)
    }

    /// The first part of a call: refuses an operation that plugins do not
    /// answer, and lends a handle for `path` otherwise. A refused operation
    /// leaves the table as it was.
    pub fn begin(&mut self, operation: Operation, path: &AbsolutePath) -> (lent: Result<
        Handle,
        VfsError,
    >)
        ensures
            !operation.bridged() ==> lent == Err::<Handle, VfsError>(VfsError::NotImplemented)
                && final(self)@ == old(self)@,
            operation.bridged() ==> match lent {
                Ok(h) => {
                    &&& h.ownership == Ownership::Borrowed
                    &&& first_free(old(self)@, h.id)
                    &&& final(self)@ == old(self)@.insert(h.id, path@)
                },
                Err(e) => full(e) && exhausted(old(self)@) && final(self)@ == old(self)@,
            },
    {
        match operation.check() {
            Err(e) => Err(e),
            Ok(_) => self.lend(path),
        }
    }

    /// The last part of a `stat` call: releases the handle that was lent,
    /// whatever the guest answered, and maps the answer. A value is passed
    /// on; an error of the guest and a fault both become `GuestCall` with
    /// the message they came with.
    pub fn finish_stat(&mut self, lent: Handle, reply: GuestReply<Stat>) -> (result: Result<
        Stat,
        VfsError,
    >)
        ensures
            final(self)@ == old(self)@.remove(lent.id),
            result == reply.outcome(),
    {
        self.reclaim(lent);
        reply.into_result()
    }

    /// Releases `handle` on the host's authority, whatever its tag.
    pub fn reclaim(&mut self, handle: Handle)
        ensures
            final(self)@ == old(self)@.remove(handle.id),
    {
        let ghost before = self@;
        let _ = self.paths.release(handle);
        proof {
            assert(self@ =~= before.remove(handle.id));
        }
    }

    /// The last part of a `read_dir` call: releases the handle that was
    /// lent, then takes the paths that the guest listed out of the table,
    /// in the order of the list. Every listed id leaves the table, also
    /// where the call fails. The call succeeds where the guest answered and
    /// every listed id was live and listed once; an id that is unknown, or
    /// listed a second time, gives `UnknownHandle`.
    pub fn finish_read_dir(&mut self, lent: Handle, reply: GuestReply<Vec<u32>>) -> (result:
        Result<Vec<AbsolutePath>, VfsError>)
        ensures
            match reply {
                GuestReply::Answer(ids) => {
                    &&& final(self)@ == without(old(self)@.remove(lent.id), ids@)
                    &&& match result {
                        Ok(paths) => {
                            &&& all_live_once(old(self)@.remove(lent.id), ids@)
                            &&& paths@.len() == ids@.len()
                            &&& forall|i: int|
                                0 <= i < ids@.len() ==> (#[trigger] paths@[i])@ == old(
                                    self,
                                )@.remove(lent.id)[ids@[i]]
                        },
                        Err(e) => e is UnknownHandle && !all_live_once(
                            old(self)@.remove(lent.id),
                            ids@,
                        ),
                    }
                },
                GuestReply::Refused(message) => {
                    &&& final(self)@ == old(self)@.remove(lent.id)
                    &&& result == Err::<Vec<AbsolutePath>, VfsError>(VfsError::GuestCall(message))
                },
                GuestReply::Fault(message) => {
                    &&& final(self)@ == old(self)@.remove(lent.id)
                    &&& result == Err::<Vec<AbsolutePath>, VfsError>(VfsError::GuestCall(message))
                },
            },
    {
        self.reclaim(lent);
        match reply {
            GuestReply::Refused(message) => Err(VfsError::GuestCall(message)),
            GuestReply::Fault(message) => Err(VfsError::GuestCall(message)),
            GuestReply::Answer(ids) => self.collect(&ids),
        }
    }

    /// Takes the paths with the given ids out of the table, in order.
    pub fn collect(&mut self, ids: &Vec<u32>) -> (result: Result<Vec<AbsolutePath>, VfsError>)
        ensures
            final(self)@ == without(old(self)@, ids@),
            match result {
                Ok(paths) => {
                    &&& all_live_once(old(self)@, ids@)
                    &&& paths@.len() == ids@.len()
                    &&& forall|i: int|
                        0 <= i < ids@.len() ==> (#[trigger] paths@[i])@ == old(self)@[ids@[i]]
                },
                Err(e) => e is UnknownHandle && !all_live_once(old(self)@, ids@),
            },
    {
        let ghost before = self@;
        let mut paths: Vec<AbsolutePath> = Vec::new();
        let mut complete = true;
        let mut k: usize = 0;
        proof {
            assert(self@ =~= without(before, ids@.take(0)));
        }
        while k < ids.len()
            invariant
                k <= ids.len(),
                self@ == without(before, ids@.take(k as int)),
                complete == all_live_once(before, ids@.take(k as int)),
                complete ==> paths@.len() == k,
                complete ==> forall|i: int|
                    0 <= i < k ==> (#[trigger] paths@[i])@ == before[ids@[i]],
            decreases ids.len() - k,
        {
            let id = ids[k];
            let ghost seen = ids@.take(k as int);
            let ghost next = ids@.take(k + 1);
            let ghost current = self@;
            let ghost table = self.paths@;
            let taken = self.paths.release(Handle::owned(id));
            proof {
                assert(next =~= seen.push(id));
                assert(next.drop_last() =~= seen);
                assert forall|x: u32| next.contains(x) <==> (seen.contains(x) || x == id) by {
                    if seen.contains(x) {
                        let w = choose|w: int| 0 <= w < seen.len() && seen[w] == x;
                        assert(next[w] == x);
                    }
                    if x == id {
                        assert(next[k as int] == x);
                    }
                    if next.contains(x) {
                        let w = choose|w: int| 0 <= w < next.len() && next[w] == x;
                        if w < k {
                            assert(seen[w] == x);
                        }
                    }
                }
                assert(current.dom().contains(id) <==> table.dom().contains(id));
                assert(current.dom().contains(id) ==> current[id] == table[id]@);
                assert forall|x: u32| #[trigger]
                    self@.dom().contains(x) <==> (before.dom().contains(x) && !next.contains(
                        x,
                    )) by {
                    assert(self.paths@.dom().contains(x) <==> (table.dom().contains(x) && x
                        != id));
                    assert(current.dom().contains(x) <==> table.dom().contains(x));
                    assert(current.dom().contains(x) <==> (before.dom().contains(x)
                        && !seen.contains(x)));
                }
                assert forall|x: u32| #[trigger] self@.dom().contains(x) implies self@[x]
                    == before[x] by {
                    assert(self.paths@[x] == table[x]);
                    assert(current.dom().contains(x));
                    assert(current[x] == table[x]@);
                }
                assert(self@ =~= without(before, next));
                assert(taken is Some <==> current.dom().contains(id));
                assert(taken is Some ==> taken->0@ == before[id]);
                if all_live_once(before, next) {
                    assert forall|i: int| 0 <= i < seen.len() implies before.dom().contains(
                        #[trigger] seen[i],
                    ) by {
                        assert(next[i] == seen[i]);
                    }
                    assert(seen.no_duplicates()) by {
                        assert forall|i: int, j: int|
                            0 <= i < seen.len() && 0 <= j < seen.len() && i != j implies seen[i]
                            != seen[j] by {
                            assert(next[i] == seen[i] && next[j] == seen[j]);
                        }
                    }
                    assert(before.dom().contains(next[k as int]));
                    if seen.contains(id) {
                        let w = choose|w: int| 0 <= w < seen.len() && seen[w] == id;
                        assert(next[w] == next[k as int]);
                    }
                }
                if all_live_once(before, seen) && current.dom().contains(id) {
                    assert(!seen.contains(id));
                    assert(next.no_duplicates()) by {
                        assert forall|i: int, j: int|
                            0 <= i < next.len() && 0 <= j < next.len() && i != j implies next[i]
                            != next[j] by {
                            if i < k && j < k {
                                assert(seen[i] == next[i] && seen[j] == next[j]);
                            } else if i < k {
                                assert(seen[i] == next[i]);
                            } else if j < k {
                                assert(seen[j] == next[j]);
                            }
                        }
                    }
                    assert forall|i: int| 0 <= i < next.len() implies before.dom().contains(
                        #[trigger] next[i],
                    ) by {
                        if i < k {
                            assert(seen[i] == next[i]);
                        }
                    }
                }
            }
            match taken {
                Some(path) => {
                    if complete {
                        let ghost earlier = paths@;
                        let ghost text = path@;
                        paths.push(path);
                        proof {
                            assert(text == before[id]);
                            assert forall|i: int| 0 <= i < k + 1 implies (#[trigger] paths@[i])@
                                == before[ids@[i]] by {
                                if i < k {
                                    assert(paths@[i] == earlier[i]);
                                }
                            }
                        }
                    }
                },
                None => {
                    complete = false;
                },
            }
            k = k + 1;
        }
        proof {
            assert(ids@.take(ids.len() as int) =~= ids@);
        }
        if complete {
            Ok(paths)
        } else {
            Err(VfsError::UnknownHandle)
        }
    }

    /// A request of the guest: a path of its own, made from `text`. The
    /// guest owns the handle and may release it.
    pub fn create_path(&mut self, text: &str) -> (handle: Result<Handle, VfsError>)
        ensures
            match handle {
                Ok(h) => {
                    &&& h.ownership == Ownership::Owned
                    &&& first_free(old(self)@, h.id)
                    &&& final(self)@ == old(self)@.insert(h.id, normalized(text@))
                },
                Err(e) => full(e) && exhausted(old(self)@) && final(self)@ == old(self)@,
            },
    {
        self.register(AbsolutePath::new(text), Ownership::Owned)
    }

    /// The path behind `handle`, where the table knows it.
    fn find(&self, handle: Handle) -> (found: Result<&AbsolutePath, VfsError>)
        ensures
            match found {
                Ok(path) => self@.dom().contains(handle.id) && path@ == self@[handle.id],
                Err(e) => e is UnknownHandle && !self@.dom().contains(handle.id),
            },
    {
        self.paths.resolve(handle)
    }

    /// A request of the guest: the components of the path behind `handle`.
    pub fn components(&self, handle: Handle) -> (parts: Result<Vec<String>, VfsError>)
        ensures
            match parts {
                Ok(list) => self@.dom().contains(handle.id) && strings(list@) == components_of(
                    self@[handle.id],
                ),
                Err(e) => e is UnknownHandle && !self@.dom().contains(handle.id),
            },
    {
        match self.find(handle) {
            Err(e) => Err(e),
            Ok(path) => {
                let slices = path.components();
                let mut list: Vec<String> = Vec::new();
                let mut k: usize = 0;
                while k < slices.len()
                    invariant
                        k <= slices.len(),
                        list@.len() == k,
                        forall|i: int| 0 <= i < k ==> (#[trigger] list@[i])@ == slices@[i]@,
                    decreases slices.len() - k,
                {
                    let slice: &str = slices[k];
                    list.push(slice.to_owned());
                    k = k + 1;
                }
                proof {
                    assert(strings(list@) =~= texts(slices@));
                }
                Ok(list)
            },
        }
    }

    /// A request of the guest: whether the path behind `handle` is the
    /// root.
    pub fn is_root(&self, handle: Handle) -> (answer: Result<bool, VfsError>)
        ensures
            match answer {
                Ok(root) => self@.dom().contains(handle.id) && root == (self@[handle.id]
                    == seq!['/']),
                Err(e) => e is UnknownHandle && !self@.dom().contains(handle.id),
            },
    {
        match self.find(handle) {
            Err(e) => Err(e),
            Ok(path) => Ok(path.is_root()),
        }
    }

    /// A request of the guest: the parent of the path behind `handle`, as a
    /// path of its own that the guest owns.
    pub fn parent(&mut self, handle: Handle) -> (parent: Result<Handle, VfsError>)
        ensures
            match parent {
                Ok(h) => {
                    &&& old(self)@.dom().contains(handle.id)
                    &&& h.ownership == Ownership::Owned
                    &&& first_free(old(self)@, h.id)
                    &&& final(self)@ == old(self)@.insert(
                        h.id,
                        parent_of(old(self)@[handle.id]),
                    )
                },
                Err(e) => {
                    &&& final(self)@ == old(self)@
                    &&& if old(self)@.dom().contains(handle.id) {
                        full(e) && exhausted(old(self)@)
                    } else {
                        e is UnknownHandle
                    }
                },
            },
    {
        let found = match self.find(handle) {
            Err(e) => Err(e),
            Ok(path) => Ok(path.parent()),
        };
        match found {
            Err(e) => Err(e),
            Ok(path) => self.register(path, Ownership::Owned),
        }
    }

    /// A request of the guest: the last component of the path behind
    /// `handle`, or `/` for the root.
    pub fn file_name(&self, handle: Handle) -> (name: Result<String, VfsError>)
        ensures
            match name {
                Ok(text) => self@.dom().contains(handle.id) && text@ == name_of(
                    self@[handle.id],
                ),
                Err(e) => e is UnknownHandle && !self@.dom().contains(handle.id),
            },
    {
        match self.find(handle) {
            Err(e) => Err(e),
            Ok(path) => Ok(path.name().to_owned()),
        }
    }

    /// A request of the guest: the text of the path behind `handle`, which
    /// is canonical.
    pub fn path(&self, handle: Handle) -> (text: Result<String, VfsError>)
        ensures
            match text {
                Ok(t) => self@.dom().contains(handle.id) && t@ == self@[handle.id]
                    && is_canonical(t@),
                Err(e) => e is UnknownHandle && !self@.dom().contains(handle.id),
            },
    {
        match self.find(handle) {
            Err(e) => Err(e),
            Ok(path) => Ok(path.as_str().to_owned()),
        }
    }

    /// A request of the guest: it gives up `handle`. Only an owned handle
    /// releases its path; a borrowed one stays until the host reclaims it.
    /// Giving up a handle a second time changes nothing.
    pub fn drop_path(&mut self, handle: Handle)
        ensures
            handle.ownership == Ownership::Owned ==> final(self)@ == old(self)@.remove(handle.id),
            handle.ownership == Ownership::Borrowed ==> final(self)@ == old(self)@,
    {
        if handle.is_owned() {
            self.reclaim(handle);
        }
    }
}

} // verus!
