//! Error kinds and the sign-encoded result convention.
//!
//! A scheme call returns one machine word. Values below `ERROR_BASE` are
//! successes; the top `MAX_ERRNO` values encode an error number, as the
//! two's-complement of the word. Encoding and decoding are proved to be
//! mutually inverse, so no result is lost or confused on the wire.
use vstd::prelude::*;

verus! {

pub const EPERM: u64 = 1;
pub const ESRCH: u64 = 3;
pub const EINTR: u64 = 4;
pub const EBADF: u64 = 9;
pub const EAGAIN: u64 = 11;
pub const ENOMEM: u64 = 12;
pub const EFAULT: u64 = 14;
pub const ENODEV: u64 = 19;
pub const EINVAL: u64 = 22;
pub const EOVERFLOW: u64 = 75;

/// Largest error number the encoding can carry.
pub const MAX_ERRNO: u64 = 4095;

/// First word value that decodes as an error: the encoding of `MAX_ERRNO`.
pub const ERROR_BASE: u64 = u64::MAX - MAX_ERRNO + 1;

/// An error number out of the closed set above.
#[derive(Copy, Clone, Debug, PartialEq, Eq, Structural)]
pub struct Error {
    pub errno: u64,
}

impl Error {
    pub fn new(errno: u64) -> (r: Self)
        ensures
            r.errno == errno,
    {
        Error { errno }
    }
}

/// An error number the encoding can carry.
pub open spec fn valid_errno(errno: u64) -> bool {
    1 <= errno <= MAX_ERRNO
}

/// A result that fits in one sign-encoded word.
pub open spec fn valid_result(r: Result<u64, Error>) -> bool {
    match r {
        Ok(v) => v < ERROR_BASE,
        Err(e) => valid_errno(e.errno),
    }
}

/// The word that carries `r`.
pub open spec fn spec_mux(r: Result<u64, Error>) -> u64 {
    match r {
        Ok(v) => v,
        Err(e) => (u64::MAX - e.errno + 1) as u64,
    }
}

/// The result carried by the word `value`.
pub open spec fn spec_demux(value: u64) -> Result<u64, Error> {
    if value >= ERROR_BASE {
        Err(Error { errno: (u64::MAX - value + 1) as u64 })
    } else {
        Ok(value)
    }
}

/// Encode a result as one word.
pub fn mux(r: Result<u64, Error>) -> (value: u64)
    requires
        valid_result(r),
    ensures
        value == spec_mux(r),
{
    match r {
        Ok(v) => v,
        Err(e) => u64::MAX - e.errno + 1,
    }
}

/// Decode one word back into a result.
pub fn demux(value: u64) -> (r: Result<u64, Error>)
    ensures
        r == spec_demux(value),
{
    if value >= ERROR_BASE {
        Err(Error { errno: u64::MAX - value + 1 })
    } else {
        Ok(value)
    }
}

/// Decoding undoes encoding: every representable result survives the wire.
pub proof fn lemma_demux_mux(r: Result<u64, Error>)
    requires
        valid_result(r),
    ensures
        spec_demux(spec_mux(r)) == r,
{
}

/// Encoding undoes decoding: the convention wastes no word values.
pub proof fn lemma_mux_demux(value: u64)
    ensures
        valid_result(spec_demux(value)),
        spec_mux(spec_demux(value)) == value,
{
}

} // verus!
