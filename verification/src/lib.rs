//! Identity enumeration core: merges the local account database and the
//! active login sessions of a machine into one deduplicated identity list,
//! with scoped wrappers for natively allocated memory and for the
//! hierarchical configuration store.
//!
//! The native enumeration calls themselves are platform services; the
//! verified code here takes their per-call results as plain values and owns
//! every decision made on them: pagination, skipping, name fallback,
//! deduplication, ordering, and the grow-and-retry read protocol.
use vstd::prelude::*;

pub mod buffer;
pub mod registry;
pub mod sid;
pub mod users;
pub mod utf16;

verus! {

/// A native 64-bit file time split into its two 32-bit halves.
pub struct FileTime {
    pub high: u32,
    pub low: u32,
}

/// Packs the two halves of a native file time into one integer, high half
/// in the upper 32 bits.
pub fn filetime_to_u64(f: FileTime) -> (r: u64)
    ensures
        r == (f.high as u64) * 0x1_0000_0000 + (f.low as u64),
{
    proof {
        let h = f.high as u64;
        let l = f.low as u64;
        assert((h << 32u64 | l) == h * 0x1_0000_0000 + l) by (bit_vector)
            requires
                h < 0x1_0000_0000,
                l < 0x1_0000_0000;
    }
    (f.high as u64) << 32u64 | (f.low as u64)
}

/// The current time as whole seconds since the epoch, given what the
/// system clock read: the elapsed seconds when the reading is at or after
/// the epoch, and zero for a reading before it.
pub fn get_now(reading: Option<u64>) -> (r: u64)
    ensures
        r == (match reading {
            Some(secs) => secs,
            None => 0u64,
        }),
{
    match reading {
        Some(secs) => secs,
        None => 0,
    }
}

} // verus!
