use vstd::prelude::*;

verus! {

/// Bytes in one mebibyte.
pub const MIB: usize = 1048576;

/// Per-tier limits: upload size in MiB and job time-to-live in seconds.
#[derive(Clone, Copy, Debug)]
pub struct Limits {
    pub size_limit_default: usize,
    pub size_limit_starred: usize,
    pub timeout_default: u64,
    pub timeout_starred: u64,
}

impl Limits {
    /// The limits that apply to a user of the given tier.
    pub open spec fn decide_spec(&self, star: bool) -> (u64, usize) {
        if star {
            (self.timeout_starred, self.size_limit_starred)
        } else {
            (self.timeout_default, self.size_limit_default)
        }
    }

    /// Returns `(time-to-live in seconds, upload size limit in MiB)` for the tier.
    pub fn decide(&self, star: bool) -> (r: (u64, usize))
        ensures
            r == self.decide_spec(star),
    {
        let size = match star {
            false => self.size_limit_default,
            true => self.size_limit_starred,
        };
        let ttl = match star {
            false => self.timeout_default,
            true => self.timeout_starred,
        };
        (ttl, size)
    }
}

/// A size in MiB as bytes, saturating at `usize::MAX`.
pub open spec fn mib_to_bytes_spec(mib: usize) -> int {
    if mib * MIB <= usize::MAX {
        mib * MIB
    } else {
        usize::MAX as int
    }
}

/// Converts a size in MiB to bytes; a size that does not fit becomes `usize::MAX`.
pub fn mib_to_bytes(mib: usize) -> (r: usize)
    ensures
        r == mib_to_bytes_spec(mib),
{
    if mib <= usize::MAX / MIB {
        mib * MIB
    } else {
        usize::MAX
    }
}

} // verus!
