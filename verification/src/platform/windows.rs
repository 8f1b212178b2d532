//! What a Windows host says of its acceleration.

use vstd::prelude::*;
use crate::error::Error;

verus! {

/// The sentence on the Windows Hypervisor Platform.
pub open spec fn accelerator_sentence(available: bool) -> Seq<char> {
    if available {
        "Windows WHPX available"@
    } else {
        "Windows WHPX not available"@
    }
}

/// Where the Windows Hypervisor Platform shows itself.
pub fn whpx_device() -> (path: &'static str)
    ensures
        path@ == "\\\\.\\Global\\WHPX"@,
{
    "\\\\.\\Global\\WHPX"
}

/// Says whether the Windows Hypervisor Platform can be used; `available` is
/// whether [`whpx_device`] exists.
pub fn get_accelerator_info(available: bool) -> (r: Result<String, Error>)
    ensures
        r matches Ok(sentence) && sentence@ == accelerator_sentence(available),
{
    if available {
        Ok(String::from_str("Windows WHPX available"))
    } else {
        Ok(String::from_str("Windows WHPX not available"))
    }
}

} // verus!
