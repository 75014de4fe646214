//! Units of the machine statistics.
use vstd::prelude::*;

verus! {

/// The bytes in `kib` kibibytes, as the memory figures of the monitoring
/// page are given. A figure whose byte count does not fit in a `u64` is
/// left out.
pub fn kib_to_bytes(kib: u64) -> (bytes: u64)
    requires
        kib * 1024 <= u64::MAX,
    ensures
        bytes == kib * 1024,
{
    kib * 1024
}

} // verus!
