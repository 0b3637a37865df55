use vstd::prelude::*;
use std::collections::HashMap;
use crate::virtual_asset::{VirtualAsset, seek_ok, seek_target, min_int};

verus! {

broadcast use vstd::std_specs::hash::group_hash_axioms;

/// The handle to in-memory asset map. A handle is a native asset identity,
/// kept as a plain integer and never dereferenced. Every query returns
/// `None` for a handle that is not registered: the caller then delegates
/// to the native implementation.
pub struct Registry {
    pub map: HashMap<u64, VirtualAsset>,
}

impl Registry {
    pub open spec fn wf(&self) -> bool {
        forall|h: u64| #[trigger] self.map@.contains_key(h) ==> self.map@[h].wf()
    }

    pub open spec fn has(&self, h: u64) -> bool {
        self.map@.contains_key(h)
    }

    pub fn new() -> (r: Registry)
        ensures
            r.wf(),
            r.map@ == Map::<u64, VirtualAsset>::empty(),
    {
        Registry { map: HashMap::new() }
    }

    /// Registers `data` for `h`, replacing any earlier entry, positioned at 0.
    pub fn insert(&mut self, h: u64, data: Vec<u8>)
        requires
            old(self).wf(),
            data@.len() <= i64::MAX,
        ensures
            final(self).wf(),
            final(self).has(h),
            final(self).map@[h].data@ == data@,
            final(self).map@[h].pos == 0,
            forall|k: u64| k != h ==> #[trigger] final(self).map@.contains_key(k) == old(self).map@.contains_key(k)
                && (old(self).map@.contains_key(k) ==> final(self).map@[k] == old(self).map@[k]),
    {
        self.map.insert(h, VirtualAsset::new(data));
    }

    /// Whether `h` is registered.
    pub fn contains(&self, h: u64) -> (r: bool)
        ensures
            r == self.has(h),
    {
        self.map.contains_key(&h)
    }

    /// Total length of the asset registered for `h`.
    pub fn len(&self, h: u64) -> (r: Option<u64>)
        requires
            self.wf(),
        ensures
            !self.has(h) ==> r is None,
            self.has(h) ==> r == Some(self.map@[h].data@.len() as u64),
    {
        match self.map.get(&h) {
            Some(a) => Some(a.len()),
            None => None,
        }
    }

    /// Bytes left in the asset registered for `h`.
    pub fn remaining(&self, h: u64) -> (r: Option<u64>)
        requires
            self.wf(),
        ensures
            !self.has(h) ==> r is None,
            self.has(h) ==> r == Some((self.map@[h].data@.len() - self.map@[h].pos) as u64),
    {
        match self.map.get(&h) {
            Some(a) => Some(a.remaining()),
            None => None,
        }
    }

    /// A registered handle never hands out a file descriptor: `Some(-1)`.
    pub fn open_fd(&self, h: u64) -> (r: Option<i32>)
        ensures
            !self.has(h) ==> r is None,
            self.has(h) ==> r == Some(-1i32),
    {
        if self.map.contains_key(&h) { Some(-1) } else { None }
    }

    /// A registered handle is never reported as separately allocated.
    pub fn is_allocated(&self, h: u64) -> (r: Option<bool>)
        ensures
            !self.has(h) ==> r is None,
            self.has(h) ==> r == Some(false),
    {
        if self.map.contains_key(&h) { Some(false) } else { None }
    }

    /// Drops the entry of `h`; true when there was one (no native close is owed then).
    pub fn close(&mut self, h: u64) -> (r: bool)
        requires
            old(self).wf(),
        ensures
            final(self).wf(),
            r == old(self).has(h),
            final(self).map@ == old(self).map@.remove(h),
    {
        match self.map.remove(&h) {
            Some(_) => true,
            None => false,
        }
    }

    /// Seeks in the asset registered for `h`.
    pub fn seek(&mut self, h: u64, off: i64, whence: i32) -> (r: Option<i64>)
        requires
            old(self).wf(),
        ensures
            final(self).wf(),
            !old(self).has(h) ==> r is None && final(self).map@ == old(self).map@,
            old(self).has(h) ==> {
                let a = old(self).map@[h];
                let ok = seek_ok(off as int, whence, a.pos as int, a.data@.len() as int);
                &&& final(self).map@.dom() == old(self).map@.dom()
                &&& final(self).map@[h].data@ == a.data@
                &&& (ok ==> r == Some(seek_target(off as int, whence, a.pos as int, a.data@.len() as int) as i64)
                    && final(self).map@[h].pos == seek_target(off as int, whence, a.pos as int, a.data@.len() as int))
                &&& (!ok ==> r == Some(-1i64) && final(self).map@[h].pos == a.pos)
                &&& forall|k: u64| k != h && #[trigger] old(self).map@.contains_key(k) ==> final(self).map@[k] == old(self).map@[k]
            },
    {
        match self.map.remove(&h) {
            Some(mut a) => {
                let r = a.seek(off, whence);
                self.map.insert(h, a);
                proof {
                    assert(self.map@.dom() =~= old(self).map@.dom());
                }
                Some(r)
            },
            None => None,
        }
    }

    /// Reads up to `count` bytes from the asset registered for `h`.
    pub fn read(&mut self, h: u64, count: usize) -> (r: Option<Vec<u8>>)
        requires
            old(self).wf(),
        ensures
            final(self).wf(),
            !old(self).has(h) ==> r is None && final(self).map@ == old(self).map@,
            old(self).has(h) ==> {
                let a = old(self).map@[h];
                let n = min_int(count as int, a.data@.len() - a.pos);
                &&& final(self).map@.dom() == old(self).map@.dom()
                &&& final(self).map@[h].data@ == a.data@
                &&& r is Some && r->0@ == a.data@.subrange(a.pos as int, a.pos + n)
                &&& final(self).map@[h].pos == a.pos + n
                &&& forall|k: u64| k != h && #[trigger] old(self).map@.contains_key(k) ==> final(self).map@[k] == old(self).map@[k]
            },
    {
        match self.map.remove(&h) {
            Some(mut a) => {
                let r = a.read(count);
                self.map.insert(h, a);
                proof {
                    assert(self.map@.dom() =~= old(self).map@.dom());
                }
                Some(r)
            },
            None => None,
        }
    }
}

} // verus!
