//! What a macOS host says of its acceleration.

use vstd::prelude::*;
use crate::error::Error;

verus! {

/// The sentence on the Hypervisor Framework.
pub open spec fn accelerator_sentence(available: bool) -> Seq<char> {
    if available {
        "macOS HVF (Hypervisor Framework) available"@
    } else {
        "macOS HVF not available"@
    }
}

/// Says whether the Hypervisor Framework can be used; `available` is whether
/// the system answered the question for `hw.optional.hv`.
pub fn get_accelerator_info(available: bool) -> (r: Result<String, Error>)
    ensures
        r matches Ok(sentence) && sentence@ == accelerator_sentence(available),
{
    if available {
        Ok(String::from_str("macOS HVF (Hypervisor Framework) available"))
    } else {
        Ok(String::from_str("macOS HVF not available"))
    }
}

} // verus!
