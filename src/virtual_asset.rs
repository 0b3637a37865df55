use vstd::prelude::*;

verus! {

/// Seek relative to the start of the asset.
pub const SEEK_SET: i32 = 0;
/// Seek relative to the current position.
pub const SEEK_CUR: i32 = 1;
/// Seek relative to the end of the asset.
pub const SEEK_END: i32 = 2;

/// The position a seek aims at, or -1 for an unknown `whence`.
pub open spec fn seek_target(off: int, whence: i32, pos: int, len: int) -> int {
    if whence == SEEK_SET {
        if off < 0 { -1 } else { off }
    } else if whence == SEEK_CUR {
        pos + off
    } else if whence == SEEK_END {
        len + off
    } else {
        -1
    }
}

/// Whether a seek with these arguments lands inside the asset.
pub open spec fn seek_ok(off: int, whence: i32, pos: int, len: int) -> bool {
    let t = seek_target(off, whence, pos, len);
    0 <= t && t <= len
}

/// An in-memory asset: its bytes and a read position.
pub struct VirtualAsset {
    pub data: Vec<u8>,
    pub pos: usize,
}

impl VirtualAsset {
    pub open spec fn wf(&self) -> bool {
        &&& self.pos <= self.data@.len()
        &&& self.data@.len() <= i64::MAX
    }

    /// A new asset positioned at its start.
    pub fn new(data: Vec<u8>) -> (r: VirtualAsset)
        requires
            data@.len() <= i64::MAX,
        ensures
            r.wf(),
            r.data@ == data@,
            r.pos == 0,
    {
        VirtualAsset { data, pos: 0 }
    }

    /// Total length of the asset.
    pub fn len(&self) -> (r: u64)
        requires
            self.wf(),
        ensures
            r == self.data@.len(),
    {
        self.data.len() as u64
    }

    /// Bytes left between the position and the end.
    pub fn remaining(&self) -> (r: u64)
        requires
            self.wf(),
        ensures
            r == self.data@.len() - self.pos,
    {
        (self.data.len() - self.pos) as u64
    }

    /// Moves the position with the semantics of `lseek`; on a target before
    /// the start or past the end, returns -1 and leaves the position as it was.
    pub fn seek(&mut self, off: i64, whence: i32) -> (r: i64)
        requires
            old(self).wf(),
        ensures
            final(self).wf(),
            final(self).data@ == old(self).data@,
            seek_ok(off as int, whence, old(self).pos as int, old(self).data@.len() as int) ==> (
                r == seek_target(off as int, whence, old(self).pos as int, old(self).data@.len() as int)
                && final(self).pos == r),
            !seek_ok(off as int, whence, old(self).pos as int, old(self).data@.len() as int) ==> (
                r == -1 && final(self).pos == old(self).pos),
    {
        let len: i128 = self.data.len() as i128;
        let pos: i128 = self.pos as i128;
        let o: i128 = off as i128;
        let target: i128 = if whence == SEEK_SET {
            if o < 0 { -1 } else { o }
        } else if whence == SEEK_CUR {
            pos + o
        } else if whence == SEEK_END {
            len + o
        } else {
            -1
        };
        if 0 <= target && target <= len && target <= i64::MAX as i128 {
            self.pos = target as usize;
            target as i64
        } else {
            proof {
                assert(self.data@.len() <= usize::MAX);
            }
            -1
        }
    }

    /// Copies up to `count` bytes from the position on and advances past them.
    pub fn read(&mut self, count: usize) -> (r: Vec<u8>)
        requires
            old(self).wf(),
        ensures
            final(self).wf(),
            final(self).data@ == old(self).data@,
            r@ == old(self).data@.subrange(
                old(self).pos as int,
                old(self).pos + min_int(count as int, old(self).data@.len() - old(self).pos),
            ),
            final(self).pos == old(self).pos + r@.len(),
    {
        let pos: usize = self.pos;
        let data: &Vec<u8> = &self.data;
        let rem: usize = data.len() - pos;
        let n: usize = if count < rem { count } else { rem };
        let mut out: Vec<u8> = Vec::new();
        let mut i: usize = 0;
        while i < n
            invariant
                pos <= data@.len(),
                data@.len() <= usize::MAX,
                n <= data@.len() - pos,
                i <= n,
                out@ == data@.subrange(pos as int, pos + i),
            decreases n - i,
        {
            out.push(data[pos + i]);
            i = i + 1;
            proof {
                assert(out@ =~= data@.subrange(pos as int, pos + i));
            }
        }
        self.pos = self.pos + n;
        out
    }
}

pub open spec fn min_int(a: int, b: int) -> int {
    if a < b { a } else { b }
}

} // verus!
