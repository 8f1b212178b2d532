//! What a Linux host says of its acceleration.

use vstd::prelude::*;
use crate::error::Error;

verus! {

/// The sentence on the kernel's virtual machine support.
pub open spec fn accelerator_sentence(available: bool) -> Seq<char> {
    if available {
        "Linux KVM available"@
    } else {
        "Linux KVM not available"@
    }
}

/// Where the kernel shows its virtual machine support.
pub fn kvm_device() -> (path: &'static str)
    ensures
        path@ == "/dev/kvm"@,
{
    "/dev/kvm"
}

/// Says whether the kernel's virtual machine support can be used;
/// `available` is whether [`kvm_device`] exists.
pub fn get_accelerator_info(available: bool) -> (r: Result<String, Error>)
    ensures
        r matches Ok(sentence) && sentence@ == accelerator_sentence(available),
{
    if available {
        Ok(String::from_str("Linux KVM available"))
    } else {
        Ok(String::from_str("Linux KVM not available"))
    }
}

} // verus!
