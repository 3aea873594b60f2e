//! Failures that the boot paths report, named after the firmware statuses
//! they surface as.
use vstd::prelude::*;

verus! {

#[derive(Debug, Clone, Copy, PartialEq, Eq, Structural)]
pub enum FwError {
    InvalidParameter,
    NotFound,
    Unsupported,
    DeviceError,
    NoMedia,
    BadAlignment,
    BadBufferSize,
    VolumeCorrupted,
    MappingNotFound,
    ProtocolError,
    EndOfFile,
    CrcError,
    Timeout,
    BufferTooSmall,
    LoadError,
}

} // verus!
