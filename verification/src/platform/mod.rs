//! The host platform and what it offers for acceleration.

use vstd::prelude::*;
use crate::error::Error;

pub mod linux;
pub mod macos;
pub mod windows;

verus! {

/// The hosts that the library tells apart.
#[derive(Debug, Clone, Copy, PartialEq, Eq, Structural)]
pub enum Platform {
    MacOs,
    Linux,
    Windows,
    Other,
}

/// What a host of the kind `platform` says of its acceleration; `available`
/// is what probing it found.
pub open spec fn platform_sentence(platform: Platform, available: bool) -> Seq<char> {
    match platform {
        Platform::MacOs => macos::accelerator_sentence(available),
        Platform::Linux => linux::accelerator_sentence(available),
        Platform::Windows => windows::accelerator_sentence(available),
        Platform::Other => "Unknown platform"@,
    }
}

/// Get current platform accelerator information
pub fn get_platform_info(platform: Platform, available: bool) -> (r: Result<String, Error>)
    ensures
        r matches Ok(sentence) && sentence@ == platform_sentence(platform, available),
{
    match platform {
        Platform::MacOs => macos::get_accelerator_info(available),
        Platform::Linux => linux::get_accelerator_info(available),
        Platform::Windows => windows::get_accelerator_info(available),
        Platform::Other => Ok(String::from_str("Unknown platform")),
    }
}

/// Detect if hypervisor acceleration is available: a host of unknown kind
/// has none, whatever was found on it.
pub fn has_acceleration(platform: Platform, available: bool) -> (r: bool)
    ensures
        r == (platform != Platform::Other && available),
{
    match platform {
        Platform::Other => false,
        _ => available,
    }
}

} // verus!
