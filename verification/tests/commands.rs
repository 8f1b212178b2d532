use openutm::commands::{
    apply_update, build_display_session, build_start_args, default_accelerator, disk_path,
    fetch_vm_or_err, map_record_to_vm, parse_vm_status, qmp_socket_path, reconcile_status,
    registry_write, resolve_spice_port, status_to_storage, update_vm_status, validate_vm_config,
    validate_vm_id, UpdateVmRequest,
};
use openutm::platform::Platform;
use openutm::config::VMRecord;
use openutm::qemu::{Accelerator, VMLifecycle};
use openutm::{default_boot_order, default_network_type, VMConfig, VMStatus};

fn sample_config(name: &str, memory_mb: u32, cpu_cores: u32, disk_size_gb: u32) -> VMConfig {
    VMConfig {
        name: name.to_string(),
        memory_mb,
        cpu_cores,
        disk_size_gb,
        os: "linux".to_string(),
        install_media_path: None,
        boot_order: default_boot_order(),
        network_type: default_network_type(),
    }
}

fn fedora_record() -> VMRecord {
    VMRecord {
        id: "vm-1".to_string(),
        name: "Fedora VM".to_string(),
        status: "stopped".to_string(),
        memory_mb: 2048,
        cpu_cores: 2,
        disk_size_gb: 20,
        os: "linux".to_string(),
    }
}

#[test]
fn test_validate_vm_config_rejects_invalid() {
    let config = VMConfig {
        name: String::new(),
        memory_mb: 256,
        cpu_cores: 0,
        disk_size_gb: 0,
        os: "linux".to_string(),
        install_media_path: None,
        boot_order: default_boot_order(),
        network_type: default_network_type(),
    };

    let result = validate_vm_config(&config);
    assert!(result.is_err());
}

#[test]
fn test_parse_vm_status_defaults_to_stopped() {
    assert_eq!(parse_vm_status("unknown"), VMStatus::Stopped);
}

#[test]
fn test_map_record_to_vm_maps_core_fields() {
    let record = VMRecord {
        id: "vm-1".to_string(),
        name: "Ubuntu VM".to_string(),
        status: "paused".to_string(),
        memory_mb: 4096,
        cpu_cores: 4,
        disk_size_gb: 64,
        os: "linux".to_string(),
    };

    let vm = map_record_to_vm(record);
    assert_eq!(vm.id, "vm-1");
    assert_eq!(vm.name, "Ubuntu VM");
    assert_eq!(vm.status, VMStatus::Paused);
    assert_eq!(vm.config.memory_mb, 4096);
    assert_eq!(vm.config.cpu_cores, 4);
}

#[test]
fn test_build_start_args_includes_qmp_and_name() {
    let record = VMRecord {
        id: "vm-1".to_string(),
        name: "Fedora VM".to_string(),
        status: "stopped".to_string(),
        memory_mb: 2048,
        cpu_cores: 2,
        disk_size_gb: 20,
        os: "linux".to_string(),
    };

    let args = build_start_args(
        &record,
        "/tmp/vm-1.qcow2",
        "/tmp/openutm-qmp-vm-1.sock",
        Accelerator::Kvm,
    )
    .expect("args should build");
    let joined = args.join(" ");

    assert!(joined.contains("-qmp"));
    assert!(joined.contains("openutm-qmp-vm-1.sock"));
    assert!(joined.contains("-name Fedora VM"));
    assert!(joined.contains("-spice"));
    assert!(joined.contains(&format!("port={}", resolve_spice_port("vm-1"))));
}

#[test]
fn test_resolve_spice_port_is_stable_and_in_range() {
    let port = resolve_spice_port("vm-1");
    assert_eq!(port, resolve_spice_port("vm-1"));
    assert!((5900..=6899).contains(&port));
}

#[test]
fn test_build_display_session_defaults() {
    let session = build_display_session("vm-1", "connected", 0, None);
    assert_eq!(session.protocol, "spice");
    assert!(session.uri.starts_with("spice://127.0.0.1:"));
    assert_eq!(session.status, "connected");
    assert_eq!(session.reconnect_attempts, 0);
}

#[test]
fn launch_plan_is_exact() {
    let args = build_start_args(&fedora_record(), "/tmp/vm-1.qcow2", "/tmp/q.sock", Accelerator::Kvm)
        .unwrap();
    let expected: Vec<String> = vec![
        "-machine",
        "q35",
        "-accel",
        "kvm",
        "-smp",
        "2",
        "-m",
        "2048",
        "-drive",
        "file=/tmp/vm-1.qcow2,format=qcow2,if=virtio",
        "-netdev",
        "user,id=net0",
        "-spice",
        "port=6431,addr=127.0.0.1,disable-ticketing=on",
        "-device",
        "usb-tablet",
        "-qmp",
        "unix:/tmp/q.sock,server=on,wait=off",
        "-name",
        "Fedora VM",
    ]
    .into_iter()
    .map(String::from)
    .collect();
    assert_eq!(args, expected);
}

#[test]
fn launch_plan_names_socket_before_name_whatever_the_rest() {
    for accel in [Accelerator::Hvf, Accelerator::Kvm, Accelerator::Whpx, Accelerator::Tcg] {
        let mut row = fedora_record();
        row.name = "-qmp".to_string();
        row.cpu_cores = 64;
        row.memory_mb = 512;
        let args = build_start_args(&row, "d", "s", accel).unwrap();
        let n = args.len();
        assert_eq!(args[n - 4], "-qmp");
        assert_eq!(args[n - 3], "unix:s,server=on,wait=off");
        assert_eq!(args[n - 2], "-name");
        assert_eq!(args[n - 1], "-qmp");
        assert_eq!(args[3], accel.as_str());
        assert_eq!(args, build_start_args(&row, "d", "s", accel).unwrap());
    }
}

#[test]
fn launch_plan_refuses_rows_without_processors_or_memory() {
    let mut row = fedora_record();
    row.cpu_cores = 0;
    row.memory_mb = 0;
    assert_eq!(
        build_start_args(&row, "d", "s", Accelerator::Tcg).unwrap_err(),
        "Invalid CPU config: CPU count must be > 0"
    );
    row.cpu_cores = 1;
    assert_eq!(
        build_start_args(&row, "d", "s", Accelerator::Tcg).unwrap_err(),
        "Invalid memory config: Memory must be > 0 MB"
    );
}

#[test]
fn display_port_values() {
    assert_eq!(resolve_spice_port("vm-1"), 6431);
    assert_eq!(resolve_spice_port("vm-2"), 6432);
    assert_eq!(resolve_spice_port(""), 5900);
    assert_eq!(resolve_spice_port("a"), 5997);
    assert_eq!(resolve_spice_port("é"), 6114);
    assert_eq!(resolve_spice_port("123e4567-e89b-12d3-a456-426614174000"), 6244);
}

#[test]
fn display_session_is_exact() {
    let session =
        build_display_session("vm-1", "error", 3, Some("viewer went away".to_string()));
    assert_eq!(session.vm_id, "vm-1");
    assert_eq!(session.protocol, "spice");
    assert_eq!(session.host, "127.0.0.1");
    assert_eq!(session.port, 6431);
    assert_eq!(session.uri, "spice://127.0.0.1:6431");
    assert_eq!(session.status, "error");
    assert_eq!(session.reconnect_attempts, 3);
    assert_eq!(session.last_error.as_deref(), Some("viewer went away"));
    assert_eq!(session.connected_at, None);
}

#[test]
fn validation_names_the_first_broken_constraint() {
    assert_eq!(validate_vm_config(&sample_config("vm", 512, 1, 1)), Ok(()));
    assert_eq!(
        validate_vm_config(&sample_config(" \t\u{a0}\u{3000}", 512, 1, 1)).unwrap_err(),
        "VM name cannot be empty"
    );
    assert_eq!(
        validate_vm_config(&sample_config("", 0, 0, 0)).unwrap_err(),
        "VM name cannot be empty"
    );
    assert_eq!(
        validate_vm_config(&sample_config("vm", 511, 0, 0)).unwrap_err(),
        "Memory must be at least 512 MB"
    );
    assert_eq!(
        validate_vm_config(&sample_config("vm", 512, 0, 0)).unwrap_err(),
        "CPU cores must be at least 1"
    );
    assert_eq!(
        validate_vm_config(&sample_config("vm", 512, 1, 0)).unwrap_err(),
        "Disk size must be at least 1 GB"
    );
    assert_eq!(validate_vm_config(&sample_config(" v ", u32::MAX, u32::MAX, u32::MAX)), Ok(()));
}

#[test]
fn identifiers_must_not_be_blank() {
    assert_eq!(validate_vm_id("vm-1"), Ok(()));
    assert_eq!(validate_vm_id("").unwrap_err(), "VM ID cannot be empty");
    assert_eq!(validate_vm_id(" \n\t").unwrap_err(), "VM ID cannot be empty");
}

#[test]
fn status_tags_are_read_without_regard_to_case() {
    assert_eq!(parse_vm_status("running"), VMStatus::Running);
    assert_eq!(parse_vm_status("RUNNING"), VMStatus::Running);
    assert_eq!(parse_vm_status("Paused"), VMStatus::Paused);
    assert_eq!(parse_vm_status("eRRor"), VMStatus::Error);
    assert_eq!(parse_vm_status("stopped"), VMStatus::Stopped);
    assert_eq!(parse_vm_status(""), VMStatus::Stopped);
    assert_eq!(parse_vm_status("running "), VMStatus::Stopped);
    assert_eq!(parse_vm_status("ｒunning"), VMStatus::Stopped);
}

#[test]
fn status_tags_round_trip() {
    for status in [VMStatus::Running, VMStatus::Paused, VMStatus::Error, VMStatus::Stopped] {
        assert_eq!(parse_vm_status(status_to_storage(&status)), status);
    }
    assert_eq!(status_to_storage(&VMStatus::Running), "running");
    assert_eq!(status_to_storage(&VMStatus::Paused), "paused");
    assert_eq!(status_to_storage(&VMStatus::Error), "error");
    assert_eq!(status_to_storage(&VMStatus::Stopped), "stopped");
}

#[test]
fn mapped_machine_gets_default_boot_and_network() {
    let vm = map_record_to_vm(fedora_record());
    assert_eq!(vm.status, VMStatus::Stopped);
    assert_eq!(vm.config.name, "Fedora VM");
    assert_eq!(vm.config.disk_size_gb, 20);
    assert_eq!(vm.config.os, "linux");
    assert_eq!(vm.config.install_media_path, None);
    assert_eq!(vm.config.boot_order, "disk-first");
    assert_eq!(vm.config.network_type, "nat");
}

#[test]
fn accelerator_follows_the_platform() {
    assert_eq!(default_accelerator(Platform::MacOs), Accelerator::Hvf);
    assert_eq!(default_accelerator(Platform::Linux), Accelerator::Kvm);
    assert_eq!(default_accelerator(Platform::Windows), Accelerator::Whpx);
    assert_eq!(default_accelerator(Platform::Other), Accelerator::Tcg);
}

#[test]
fn paths_of_disk_and_socket() {
    assert_eq!(disk_path("/data/disks", "vm-1"), "/data/disks/vm-1.qcow2");
    assert_eq!(qmp_socket_path("vm-1"), "/tmp/openutm-qmp-vm-1.sock");
}

#[test]
fn missing_row_is_reported_by_name() {
    assert_eq!(fetch_vm_or_err(None, "vm-9").unwrap_err(), "VM vm-9 not found");
    assert_eq!(fetch_vm_or_err(Some(fedora_record()), "vm-1").unwrap().name, "Fedora VM");
}

#[test]
fn status_is_written_as_its_tag() {
    let row = update_vm_status(fedora_record(), VMStatus::Paused);
    assert_eq!(row.status, "paused");
    assert_eq!(row.id, "vm-1");
    assert_eq!(row.memory_mb, 2048);
}

#[test]
fn update_is_applied_whole_or_not_at_all() {
    let request = |name: Option<&str>, cpu, memory| UpdateVmRequest {
        id: "vm-1".to_string(),
        name: name.map(String::from),
        cpu,
        memory,
    };
    let row = apply_update(fedora_record(), request(Some("New"), Some(8), Some(8192))).unwrap();
    assert_eq!(row.name, "New");
    assert_eq!(row.cpu_cores, 8);
    assert_eq!(row.memory_mb, 8192);
    assert_eq!(row.disk_size_gb, 20);

    let same = apply_update(fedora_record(), request(None, None, None)).unwrap();
    assert_eq!(same.name, "Fedora VM");
    assert_eq!(same.cpu_cores, 2);

    assert_eq!(
        apply_update(fedora_record(), request(Some("  "), Some(0), Some(1))).unwrap_err(),
        "VM name cannot be empty"
    );
    assert_eq!(
        apply_update(fedora_record(), request(Some("ok"), Some(0), Some(1))).unwrap_err(),
        "CPU cores must be at least 1"
    );
    assert_eq!(
        apply_update(fedora_record(), request(Some("ok"), Some(1), Some(511))).unwrap_err(),
        "Memory must be at least 512 MB"
    );
}

#[test]
fn registry_is_written_only_when_a_stable_state_is_reached() {
    assert_eq!(registry_write(VMLifecycle::Starting, VMLifecycle::Running), Some(VMStatus::Running));
    assert_eq!(registry_write(VMLifecycle::Pausing, VMLifecycle::Paused), Some(VMStatus::Paused));
    assert_eq!(registry_write(VMLifecycle::Stopping, VMLifecycle::Stopped), Some(VMStatus::Stopped));
    assert_eq!(registry_write(VMLifecycle::Running, VMLifecycle::Error), Some(VMStatus::Error));
    assert_eq!(registry_write(VMLifecycle::Running, VMLifecycle::Pausing), None);
    assert_eq!(registry_write(VMLifecycle::Stopped, VMLifecycle::Stopped), None);
    assert_eq!(registry_write(VMLifecycle::Running, VMLifecycle::Running), None);
}

#[test]
fn stale_rows_are_corrected_by_the_live_table() {
    assert_eq!(reconcile_status(VMStatus::Running, VMLifecycle::Stopped), VMStatus::Stopped);
    assert_eq!(reconcile_status(VMStatus::Paused, VMLifecycle::Stopped), VMStatus::Stopped);
    assert_eq!(reconcile_status(VMStatus::Error, VMLifecycle::Stopped), VMStatus::Error);
    assert_eq!(reconcile_status(VMStatus::Stopped, VMLifecycle::Running), VMStatus::Running);
    assert_eq!(reconcile_status(VMStatus::Running, VMLifecycle::Error), VMStatus::Error);
    assert_eq!(reconcile_status(VMStatus::Running, VMLifecycle::Paused), VMStatus::Paused);
    assert_eq!(reconcile_status(VMStatus::Paused, VMLifecycle::Stopping), VMStatus::Paused);
    assert_eq!(reconcile_status(VMStatus::Stopped, VMLifecycle::Starting), VMStatus::Stopped);
}
