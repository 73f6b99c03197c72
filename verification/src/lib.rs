//! Verified building blocks of an allocation-free streaming-indicator library:
//! the fixed-capacity ring window, the warmup/seeding lifecycle shared by the
//! smoothed indicators, the rolling-sum reseed cadence and the return-code rules
//! of the caller-allocated C handle surface.
use vstd::prelude::*;

pub mod abi;
pub mod cadence;
pub mod ring;
pub mod warmup;

verus! {

/// The version string that this crate reports, as a character sequence.
pub open spec fn spec_version() -> Seq<char> {
    "0.1.2"@
}

/// Crate version string, for the C handle surface and diagnostics.
pub fn version() -> (v: &'static str)
    ensures
        v@ == spec_version(),
{
    "0.1.2"
}

/// The version string followed by one NUL character, for C callers.
pub fn version_nul() -> (v: &'static str)
    ensures
        v@ == spec_version().push('\0'),
{
    proof {
        reveal_strlit("0.1.2");
        reveal_strlit("0.1.2\0");
        assert("0.1.2\0"@ =~= "0.1.2"@.push('\0'));
    }
    "0.1.2\0"
}

} // verus!
