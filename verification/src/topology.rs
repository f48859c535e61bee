//! CPU core-type classification from the CPUID hybrid-information leaf.

use vstd::prelude::*;

verus! {

/// The kind of core the current CPU is, on hybrid parts.
#[derive(Clone, Copy, PartialEq, Eq, Structural, Debug)]
pub enum CoreType {
    Performance,
    Efficiency,
    Unknown,
}

/// Classify a core from EAX of CPUID leaf 0x1A: bits 31..24 carry 0x20 for
/// an efficiency core and 0x40 for a performance core.
pub fn core_type_from_cpuid(eax: u32) -> (t: CoreType)
    ensures
        (eax >> 24) & 0xff == 0x20 ==> t == CoreType::Efficiency,
        (eax >> 24) & 0xff == 0x40 ==> t == CoreType::Performance,
        !((eax >> 24) & 0xff == 0x20 || (eax >> 24) & 0xff == 0x40) ==> t == CoreType::Unknown,
{
    let kind = (eax >> 24) & 0xff;
    if kind == 0x20 {
        CoreType::Efficiency
    } else if kind == 0x40 {
        CoreType::Performance
    } else {
        CoreType::Unknown
    }
}

} // verus!
