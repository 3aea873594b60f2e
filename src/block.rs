//! Block-level reads: the primitive that the file system reader is built on.
use vstd::prelude::*;
use crate::error::FwError;

verus! {

/// A device that reads whole blocks. Its contents are `media()`; a read
/// never changes them.
pub trait BlockReader {
    /// The device's contents. The defaults let implementations written
    /// outside verified code leave both spec functions out; proofs about a
    /// generic reader never see the default bodies.
    closed spec fn media(&self) -> Seq<u8> {
        Seq::empty()
    }

    closed spec fn spec_block_size(&self) -> nat {
        1
    }

    fn media_id(&self) -> u32;

    fn block_size(&self) -> (r: u32)
        ensures
            r as nat == self.spec_block_size(),
            r > 0,
    ;

    fn last_block(&self) -> u64;

    /// Fills `buf` with the blocks from `lba` on.
    fn read_blocks(&mut self, lba: u64, buf: &mut Vec<u8>) -> (r: Result<(), FwError>)
        ensures
            final(self).media() == old(self).media(),
            final(self).spec_block_size() == old(self).spec_block_size(),
            final(buf)@.len() == old(buf)@.len(),
            r matches Err(e) ==> is_io_error(e),
            r is Ok ==> {
                &&& lba * old(self).spec_block_size() + old(buf)@.len() <= old(self).media().len()
                &&& final(buf)@ == old(self).media().subrange(
                    lba * old(self).spec_block_size(),
                    lba * old(self).spec_block_size() + old(buf)@.len(),
                )
            },
    ;
}

/// The failures that a block read may report.
pub open spec fn is_io_error(e: FwError) -> bool {
    e == FwError::NoMedia || e == FwError::DeviceError || e == FwError::BadAlignment
}

/// The bytes `[pos, pos + len)` of a medium, if it holds them and the
/// range can be addressed with 64-bit byte positions.
pub open spec fn media_window(m: Seq<u8>, pos: int, len: int) -> Option<Seq<u8>> {
    if 0 <= pos && len == 0 && pos <= u64::MAX {
        Some(seq![])
    } else if 0 <= pos && 0 < len && pos + len <= m.len() && pos + len <= u64::MAX {
        Some(m.subrange(pos, pos + len))
    } else {
        None
    }
}

/// Appends `src[from..from + n]` to `out`.
fn append_range(out: &mut Vec<u8>, src: &Vec<u8>, from: usize, n: usize)
    requires
        from + n <= src.len(),
    ensures
        final(out)@ == old(out)@ + src@.subrange(from as int, from + n),
{
    let mut k: usize = 0;
    while k < n
        invariant
            from + n <= src.len(),
            0 <= k <= n,
            out@ == old(out)@ + src@.subrange(from as int, from + k),
        decreases n - k,
    {
        out.push(src[from + k]);
        assert(src@.subrange(from as int, from + k + 1) =~= src@.subrange(from as int, from + k).push(
            src@[from + k],
        ));
        k = k + 1;
    }
}

/// Reads `len` bytes at byte position `pos`, one covering block at a time.
/// The only failure of its own is a range that runs past the last 64-bit
/// byte position; every other failure is the device's.
pub fn read_bytes<R: BlockReader>(dev: &mut R, pos: u64, len: usize) -> (r: Result<Vec<u8>, FwError>)
    ensures
        final(dev).media() == old(dev).media(),
        final(dev).spec_block_size() == old(dev).spec_block_size(),
        r matches Err(e) ==> is_io_error(e) || (e == FwError::BadBufferSize && pos + len > u64::MAX),
        pos + len > u64::MAX ==> r == Err::<Vec<u8>, FwError>(FwError::BadBufferSize),
        r matches Ok(v) ==> media_window(old(dev).media(), pos as int, len as int) == Some(v@),
{
    if len as u64 > u64::MAX - pos {
        return Err(FwError::BadBufferSize);
    }
    let bs = dev.block_size();
    let bs64 = bs as u64;
    let end = pos + len as u64;
    let ghost m = old(dev).media();
    let mut out: Vec<u8> = Vec::new();
    let mut cur = pos;
    let mut scratch: Vec<u8> = vec![0u8; bs as usize];
    while cur < end
        invariant
            dev.media() == m,
            m == old(dev).media(),
            dev.spec_block_size() == old(dev).spec_block_size(),
            bs as nat == dev.spec_block_size(),
            bs64 == bs,
            bs > 0,
            pos <= cur <= end,
            end == pos + len,
            out@.len() == cur - pos,
            cur > pos ==> cur <= m.len() && out@ == m.subrange(pos as int, cur as int),
            scratch@.len() == bs,
        decreases end - cur,
    {
        let lba = cur / bs64;
        let off = cur % bs64;
        match dev.read_blocks(lba, &mut scratch) {
            Err(e) => {
                return Err(e);
            },
            Ok(()) => {},
        }
        let avail = bs64 - off;
        let n = if avail < end - cur { avail } else { end - cur };
        proof {
            assert(cur as int == lba * bs64 + off) by (nonlinear_arith)
                requires
                    bs64 > 0,
                    lba == (cur as int) / (bs64 as int),
                    off == (cur as int) % (bs64 as int),
            ;
        }
        let ghost before = out@;
        append_range(&mut out, &scratch, off as usize, n as usize);
        proof {
            let base = lba * bs64;
            assert forall|t: int| 0 <= t < n implies #[trigger] scratch@.subrange(off as int, off + n)[t] == m[cur + t] by {
                assert(scratch@[off + t] == m.subrange(base, base + bs64)[off + t]);
            }
            assert(scratch@.subrange(off as int, off + n) =~= m.subrange(cur as int, cur + n));
            if cur > pos {
                assert(out@ =~= m.subrange(pos as int, cur + n));
            } else {
                assert(out@ =~= m.subrange(pos as int, cur + n));
            }
        }
        cur = cur + n;
    }
    proof {
        if len == 0 {
            assert(out@ =~= Seq::<u8>::empty());
        }
    }
    Ok(out)
}

/// A medium held in memory.
pub struct MemDisk {
    bytes: Vec<u8>,
    block_size: u32,
}

impl MemDisk {
    pub fn new(bytes: Vec<u8>, block_size: u32) -> (r: Self)
        requires
            block_size > 0,
        ensures
            r.media() == bytes@,
            r.spec_block_size() == block_size,
    {
        MemDisk { bytes, block_size }
    }
}

impl BlockReader for MemDisk {
    closed spec fn media(&self) -> Seq<u8> {
        self.bytes@
    }

    closed spec fn spec_block_size(&self) -> nat {
        if self.block_size == 0 { 1 } else { self.block_size as nat }
    }

    fn media_id(&self) -> u32 {
        0
    }

    fn block_size(&self) -> (r: u32) {
        if self.block_size == 0 { 1 } else { self.block_size }
    }

    fn last_block(&self) -> u64 {
        let bs = self.block_size() as u64;
        let n = self.bytes.len() as u64 / bs;
        if n == 0 { 0 } else { n - 1 }
    }

    fn read_blocks(&mut self, lba: u64, buf: &mut Vec<u8>) -> (r: Result<(), FwError>) {
        let bs = self.block_size() as u64;
        if buf.len() as u64 % bs != 0 {
            return Err(FwError::BadAlignment);
        }
        if lba > (self.bytes.len() as u64) / bs {
            return Err(FwError::DeviceError);
        }
        proof {
            assert(lba * bs <= self.bytes@.len()) by (nonlinear_arith)
                requires
                    bs > 0,
                    lba <= (self.bytes@.len() as int) / (bs as int),
            ;
        }
        let start = (lba * bs) as usize;
        if buf.len() > self.bytes.len() - start {
            return Err(FwError::DeviceError);
        }
        let n = buf.len();
        let mut i: usize = 0;
        while i < n
            invariant
                buf@.len() == n,
                start + n <= self.bytes.len(),
                0 <= i <= n,
                forall|j: int| 0 <= j < i ==> buf@[j] == self.bytes@[start + j],
            decreases n - i,
        {
            let b = self.bytes[start + i];
            buf.set(i, b);
            i = i + 1;
        }
        assert(buf@ =~= self.bytes@.subrange(start as int, start + n));
        Ok(())
    }
}

} // verus!
