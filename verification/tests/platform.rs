use openutm::platform::{
    get_platform_info, has_acceleration, linux, macos, windows, Platform,
};

#[test]
fn platforms_say_what_was_found() {
    assert_eq!(linux::get_accelerator_info(true).unwrap(), "Linux KVM available");
    assert_eq!(linux::get_accelerator_info(false).unwrap(), "Linux KVM not available");
    assert_eq!(
        macos::get_accelerator_info(true).unwrap(),
        "macOS HVF (Hypervisor Framework) available"
    );
    assert_eq!(macos::get_accelerator_info(false).unwrap(), "macOS HVF not available");
    assert_eq!(windows::get_accelerator_info(true).unwrap(), "Windows WHPX available");
    assert_eq!(windows::get_accelerator_info(false).unwrap(), "Windows WHPX not available");
    assert_eq!(linux::kvm_device(), "/dev/kvm");
    assert_eq!(windows::whpx_device(), "\\\\.\\Global\\WHPX");
}

#[test]
fn platform_info_follows_the_platform() {
    assert_eq!(get_platform_info(Platform::Linux, true).unwrap(), "Linux KVM available");
    assert_eq!(get_platform_info(Platform::MacOs, false).unwrap(), "macOS HVF not available");
    assert_eq!(get_platform_info(Platform::Windows, true).unwrap(), "Windows WHPX available");
    assert_eq!(get_platform_info(Platform::Other, true).unwrap(), "Unknown platform");
    assert!(has_acceleration(Platform::Linux, true));
    assert!(!has_acceleration(Platform::Linux, false));
    assert!(!has_acceleration(Platform::Other, true));
}
