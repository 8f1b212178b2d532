use openutm::platform::Platform;
use openutm::qemu::detector::{
    append_candidate_if_exists, build_lookup_path, candidate_binary_names,
    collect_qemu_candidates, default_shell_path, detect, detect_hvf_support, detect_kvm_support,
    detect_whpx_support, find_qemu_binary, get_qemu_version, get_search_paths, Probe,
};
use openutm::{Error, QemuInfo};

fn probe(path: &str, exists: bool, runnable: bool) -> Probe {
    Probe { path: path.to_string(), exists, runnable }
}

#[test]
fn test_qemu_not_found() {
    let result = find_qemu_binary(&vec![]);
    match result {
        Ok(_) => panic!("nothing was probed"),
        Err(Error::QemuNotFound) => {}
        Err(e) => panic!("Unexpected error: {}", e.message()),
    }
    let missing = vec![probe("/usr/bin/qemu-system-x86_64", false, false)];
    assert!(matches!(find_qemu_binary(&missing), Err(Error::QemuNotFound)));
}

#[test]
fn test_get_qemu_version_format() {
    let version = get_qemu_version(
        true,
        "QEMU emulator version 8.2.1\nCopyright (c) 2003-2023 Fabrice Bellard\n",
    );
    assert!(version.is_ok(), "Should be able to get QEMU version if binary found");

    if let Ok(version_str) = version {
        assert!(!version_str.is_empty(), "Version string should not be empty");
        assert!(
            version_str.contains("QEMU") || version_str.chars().next().unwrap().is_numeric(),
            "Version should contain QEMU or numeric version"
        );
        assert_eq!(version_str, "QEMU emulator version 8.2.1");
    }
}

#[test]
fn test_qemu_info_has_required_fields() {
    let found = vec![probe("/usr/bin/qemu-system-x86_64", true, true)];
    if let Ok(qemu_path) = find_qemu_binary(&found) {
        let info = QemuInfo {
            detected: true,
            path: Some(qemu_path.clone()),
            version: get_qemu_version(true, "QEMU emulator version 8.2.1\n").ok(),
            accelerator: None,
        };

        assert!(info.detected, "Detected should be true");
        assert!(info.path.is_some(), "Path should be populated");
        assert!(info.path.as_ref().unwrap().contains("qemu"), "Path should contain 'qemu'");
    } else {
        panic!("a runnable candidate was probed");
    }
}

#[test]
fn test_hvf_detection() {
    let result = detect_hvf_support(true, "kern.hv_support: 1\n");
    match result {
        Ok(accel) => assert_eq!(accel, "HVF"),
        Err(_) => panic!("the system said that it supports it"),
    }
}

#[test]
fn test_kvm_detection() {
    let result = detect_kvm_support(std::path::Path::new("/dev/kvm").exists());
    match result {
        Ok(accel) => assert_eq!(accel, "KVM"),
        Err(_) => {} // KVM not available is acceptable
    }
}

#[test]
fn test_whpx_detection() {
    let result = detect_whpx_support();
    assert!(result.is_ok());
    assert_eq!(result.unwrap(), "WHPX");
}

#[test]
fn test_get_search_paths_not_empty() {
    for platform in [Platform::MacOs, Platform::Linux, Platform::Windows] {
        let paths = get_search_paths(platform);
        assert!(!paths.is_empty(), "Search paths should not be empty for any platform");
    }
}

#[test]
fn test_candidate_binary_names_cover_supported_system_types() {
    let names = candidate_binary_names();
    assert!(names.contains(&"qemu-system-aarch64"));
    assert!(names.contains(&"qemu-system-x86_64"));
}

#[test]
fn test_search_paths_contain_qemu_references() {
    for platform in [Platform::MacOs, Platform::Linux, Platform::Windows] {
        let paths = get_search_paths(platform);
        let has_qemu_ref = paths.iter().any(|p| p.contains("qemu"));
        assert!(has_qemu_ref, "At least one search path should reference 'qemu'");
    }
}

#[test]
fn search_paths_are_exact() {
    assert_eq!(
        get_search_paths(Platform::Linux),
        vec![
            "/usr/bin/qemu-system-x86_64",
            "/usr/bin/qemu-system-aarch64",
            "/usr/libexec/qemu-system-x86_64"
        ]
    );
    assert_eq!(get_search_paths(Platform::MacOs).len(), 8);
    assert_eq!(get_search_paths(Platform::MacOs)[3], "/opt/homebrew/opt/qemu/bin/qemu-system-aarch64");
    assert_eq!(
        get_search_paths(Platform::Windows),
        vec![
            "C:\\Program Files\\qemu\\qemu-system-x86_64.exe",
            "C:\\Program Files (x86)\\qemu\\qemu-system-x86_64.exe"
        ]
    );
    assert!(get_search_paths(Platform::Other).is_empty());
    assert_eq!(candidate_binary_names(), vec!["qemu-system-aarch64", "qemu-system-x86_64"]);
}

#[test]
fn lookup_path_puts_the_defaults_last() {
    let defaults = "/opt/homebrew/bin:/usr/local/bin:/usr/bin:/bin:/usr/sbin:/sbin";
    assert_eq!(default_shell_path(), defaults);
    assert_eq!(build_lookup_path(""), defaults);
    assert_eq!(build_lookup_path("/home/me/bin"), format!("/home/me/bin:{}", defaults));
}

#[test]
fn candidates_are_noted_once_and_only_where_they_exist() {
    let mut candidates = Vec::new();
    append_candidate_if_exists(&mut candidates, "/a".to_string(), true);
    append_candidate_if_exists(&mut candidates, "/b".to_string(), false);
    append_candidate_if_exists(&mut candidates, "/a".to_string(), true);
    append_candidate_if_exists(&mut candidates, "/c".to_string(), true);
    assert_eq!(candidates, vec!["/a", "/c"]);

    let probes = vec![
        probe("/x", true, false),
        probe("/y", false, false),
        probe("/x", true, true),
        probe("/z", true, true),
    ];
    assert_eq!(collect_qemu_candidates(&probes), vec!["/x", "/z"]);
    assert!(collect_qemu_candidates(&vec![]).is_empty());
}

#[test]
fn runnable_candidates_are_preferred() {
    let probes = vec![
        probe("/broken", true, false),
        probe("/gone", false, false),
        probe("/good", true, true),
        probe("/better", true, true),
    ];
    assert_eq!(find_qemu_binary(&probes).unwrap(), "/good");
    assert_eq!(find_qemu_binary(&probes[..2].iter().map(|p| probe(&p.path, p.exists, p.runnable)).collect()).unwrap(), "/broken");
}

#[test]
fn accelerator_probes_are_read() {
    assert_eq!(detect_kvm_support(true).unwrap(), "KVM");
    assert!(matches!(
        detect_kvm_support(false).unwrap_err(),
        Error::QemuError(text) if text == "KVM not available"
    ));
    assert!(matches!(
        detect_hvf_support(false, "1").unwrap_err(),
        Error::QemuError(text) if text == "HVF not available"
    ));
    assert!(matches!(
        detect_hvf_support(true, "kern.hv_support: 0").unwrap_err(),
        Error::QemuError(text) if text == "HVF disabled"
    ));
}

#[test]
fn version_is_the_first_line_trimmed() {
    assert_eq!(get_qemu_version(true, "").unwrap(), "unknown");
    assert_eq!(get_qemu_version(true, "  8.2.1 \r\nmore").unwrap(), "8.2.1");
    assert_eq!(get_qemu_version(true, "\nQEMU").unwrap(), "");
    assert_eq!(get_qemu_version(true, " \t ").unwrap(), "");
    assert_eq!(get_qemu_version(true, "a b").unwrap(), "a b");
    assert!(matches!(
        get_qemu_version(false, "QEMU").unwrap_err(),
        Error::QemuError(text) if text == "Failed to get QEMU version"
    ));
}

#[test]
fn detection_is_put_together() {
    let info = detect("/usr/bin/qemu".to_string(), Some("8".to_string()), None);
    assert!(info.detected);
    assert_eq!(info.path.as_deref(), Some("/usr/bin/qemu"));
    assert_eq!(info.version.as_deref(), Some("8"));
    assert_eq!(info.accelerator, None);
}
