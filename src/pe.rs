//! Checks that a kernel image is a PE file for the expected machine.
use vstd::prelude::*;
use crate::bytes::{le16, le32, read_u16, read_u32};
use crate::error::FwError;

verus! {

pub const MACHINE_X86_64: u16 = 0x8664;

pub const MACHINE_AARCH64: u16 = 0xAA64;

/// The offset of the PE signature, from the DOS header.
pub open spec fn pe_offset(d: Seq<u8>) -> int {
    le32(d, 0x3C)
}

/// Whether the header checks apply to the signature and machine word.
pub open spec fn pe_header_present(d: Seq<u8>) -> bool {
    d.len() > 64 && pe_offset(d) + 6 < d.len()
}

/// What the validator accepts: buffers of at most 64 bytes; otherwise an
/// `MZ` image whose PE header, if it lies inside the buffer, carries the
/// `PE` signature and `machine`.
pub open spec fn pe_accepts(d: Seq<u8>, machine: u16) -> bool {
    ||| d.len() <= 64
    ||| {
        &&& d[0] == 0x4D
        &&& d[1] == 0x5A
        &&& (pe_offset(d) + 6 >= d.len() || {
            &&& d[pe_offset(d)] == 0x50
            &&& d[pe_offset(d) + 1] == 0x45
            &&& le16(d, pe_offset(d) + 4) == machine
        })
    }
}

/// Validates a kernel image for `machine` (`MACHINE_X86_64` or
/// `MACHINE_AARCH64`, the target the firmware runs on).
pub fn validate_kernel_pe(kernel_data: &[u8], machine: u16) -> (r: Result<(), FwError>)
    ensures
        r is Ok <==> pe_accepts(kernel_data@, machine),
        r is Err ==> r == Err::<(), FwError>(FwError::InvalidParameter),
{
    if kernel_data.len() > 0x40 {
        if kernel_data[0] != 0x4D || kernel_data[1] != 0x5A {
            return Err(FwError::InvalidParameter);
        }
        let pe_offset = read_u32(kernel_data, 0x3C) as u64;
        if pe_offset + 6 < kernel_data.len() as u64 {
            let off = pe_offset as usize;
            if kernel_data[off] != 0x50 || kernel_data[off + 1] != 0x45 {
                return Err(FwError::InvalidParameter);
            }
            let m = read_u16(kernel_data, off + 4);
            if m != machine {
                return Err(FwError::InvalidParameter);
            }
        }
    }
    Ok(())
}

/// Appending bytes to an accepted image whose headers were all checked
/// leaves it accepted: nothing that was read changes.
pub proof fn lemma_pe_append_keeps_accepted(d: Seq<u8>, extra: Seq<u8>, machine: u16)
    requires
        pe_accepts(d, machine),
        pe_header_present(d),
    ensures
        pe_accepts(d + extra, machine),
        pe_header_present(d + extra),
{
    let e = d + extra;
    let off = pe_offset(d);
    assert(e[0] == d[0] && e[1] == d[1]);
    assert(e[0x3C] == d[0x3C] && e[0x3D] == d[0x3D] && e[0x3E] == d[0x3E] && e[0x3F] == d[0x3F]);
    assert(pe_offset(e) == off);
    assert(e[off] == d[off] && e[off + 1] == d[off + 1]);
    assert(e[off + 4] == d[off + 4] && e[off + 5] == d[off + 5]);
}

} // verus!
