use openutm::qemu::{
    Accelerator, DisplayConfig, DriveConfig, MachineType, NetdevConfig, Options, QemuCommand,
};

#[test]
fn test_create_command_with_accelerator() {
    let cmd = QemuCommand::new().accel(Accelerator::Hvf);

    let args = cmd.build();
    assert!(args.contains(&"-accel".to_string()));
    assert!(args.contains(&"hvf".to_string()));
}

#[test]
fn test_set_cpu_count() {
    let cmd = QemuCommand::new().cpu(4).expect("cpu should work");

    let args = cmd.build();
    assert!(args.contains(&"-smp".to_string()));
    assert!(args.contains(&"4".to_string()));
}

#[test]
fn test_set_memory() {
    let cmd = QemuCommand::new().memory(4096).expect("memory should work");

    let args = cmd.build();
    assert!(args.contains(&"-m".to_string()));
    assert!(args.contains(&"4096".to_string()));
}

#[test]
fn test_add_drive() {
    let drive = DriveConfig {
        id: "disk0".to_string(),
        file: "/path/to/disk.qcow2".to_string(),
        format: "qcow2".to_string(),
        interface: "virtio".to_string(),
    };

    let cmd = QemuCommand::new().drive(drive);

    let args = cmd.build();
    let args_str = args.join(" ");
    assert!(args_str.contains("file=/path/to/disk.qcow2"));
    assert!(args_str.contains("format=qcow2"));
    assert!(args_str.contains("if=virtio"));
}

#[test]
fn test_add_network() {
    let mut opts = Options::new();
    opts.insert("hostfwd".to_string(), "tcp::2222-:22".to_string());

    let netdev = NetdevConfig {
        id: "net0".to_string(),
        kind: "user".to_string(),
        options: opts,
    };

    let cmd = QemuCommand::new().netdev(netdev);

    let args = cmd.build();
    let args_str = args.join(" ");
    assert!(args_str.contains("-netdev"));
    assert!(args_str.contains("user,id=net0"));
    assert!(args_str.contains("hostfwd=tcp::2222-:22"));
}

#[test]
fn test_add_spice_display() {
    let display = DisplayConfig {
        kind: "spice".to_string(),
        port: Some(5900),
        options: Default::default(),
    };

    let cmd = QemuCommand::new().display(display);

    let args = cmd.build();
    assert!(args.contains(&"-spice".to_string()));
    let args_str = args.join(" ");
    assert!(args_str.contains("port=5900"));
}

#[test]
fn test_add_usb_tablet() {
    let cmd = QemuCommand::new().usb_tablet();

    let args = cmd.build();
    assert!(args.contains(&"-device".to_string()));
    assert!(args.contains(&"usb-tablet".to_string()));
}

#[test]
fn test_validate_cpu_count() {
    let result = QemuCommand::new().cpu(0);
    assert!(result.is_err());
    assert_eq!(result.unwrap_err(), "CPU count must be > 0");
}

#[test]
fn test_validate_memory() {
    let result = QemuCommand::new().memory(0);
    assert!(result.is_err());
    assert_eq!(result.unwrap_err(), "Memory must be > 0 MB");
}

#[test]
fn test_machine_type() {
    let cmd = QemuCommand::new().machine(MachineType::Q35);

    let args = cmd.build();
    assert!(args.contains(&"-machine".to_string()));
    assert!(args.contains(&"q35".to_string()));
}

#[test]
fn test_complete_command() {
    let drive = DriveConfig {
        id: "disk0".to_string(),
        file: "/path/to/disk.qcow2".to_string(),
        format: "qcow2".to_string(),
        interface: "virtio".to_string(),
    };

    let mut net_opts = Options::new();
    net_opts.insert("hostfwd".to_string(), "tcp::2222-:22".to_string());

    let netdev = NetdevConfig {
        id: "net0".to_string(),
        kind: "user".to_string(),
        options: net_opts,
    };

    let display = DisplayConfig {
        kind: "spice".to_string(),
        port: Some(5900),
        options: Default::default(),
    };

    let cmd = QemuCommand::new()
        .machine(MachineType::Q35)
        .accel(Accelerator::Hvf)
        .cpu(4)
        .expect("cpu should work")
        .memory(4096)
        .expect("memory should work")
        .drive(drive)
        .netdev(netdev)
        .display(display)
        .usb_tablet();

    let args = cmd.build();

    // Verify all major components present
    assert!(args.contains(&"-machine".to_string()));
    assert!(args.contains(&"-accel".to_string()));
    assert!(args.contains(&"-smp".to_string()));
    assert!(args.contains(&"-m".to_string()));
    assert!(args.contains(&"-drive".to_string()));
    assert!(args.contains(&"-netdev".to_string()));
    assert!(args.contains(&"-spice".to_string()));
    assert!(args.contains(&"-device".to_string()));

    // Command string should be valid
    let cmd_str = cmd.build_string();
    assert!(!cmd_str.is_empty());
    assert!(cmd_str.contains("qemu-system-x86_64"));
}

#[test]
fn complete_command_line_is_exact() {
    let mut net_opts = Options::new();
    net_opts.insert("hostfwd".to_string(), "tcp::2222-:22".to_string());
    let mut display_opts = Options::new();
    display_opts.insert("addr".to_string(), "127.0.0.1".to_string());
    display_opts.insert("disable-ticketing".to_string(), "on".to_string());

    let cmd = QemuCommand::new()
        .machine(MachineType::Q35)
        .accel(Accelerator::Kvm)
        .cpu(4)
        .unwrap()
        .memory(4096)
        .unwrap()
        .drive(DriveConfig {
            id: "disk0".to_string(),
            file: "/d.qcow2".to_string(),
            format: "qcow2".to_string(),
            interface: "virtio".to_string(),
        })
        .netdev(NetdevConfig { id: "net0".to_string(), kind: "user".to_string(), options: net_opts })
        .display(DisplayConfig {
            kind: "spice".to_string(),
            port: Some(5901),
            options: display_opts,
        })
        .usb_tablet();

    let expected: Vec<String> = vec![
        "qemu-system-x86_64",
        "-machine",
        "q35",
        "-accel",
        "kvm",
        "-smp",
        "4",
        "-m",
        "4096",
        "-drive",
        "file=/d.qcow2,format=qcow2,if=virtio",
        "-netdev",
        "user,id=net0,hostfwd=tcp::2222-:22",
        "-spice",
        "port=5901,addr=127.0.0.1,disable-ticketing=on",
        "-device",
        "usb-tablet",
    ]
    .into_iter()
    .map(String::from)
    .collect();
    assert_eq!(cmd.build(), expected);
    assert_eq!(cmd.build_string(), expected.join(" "));
    assert_eq!(cmd.build(), cmd.build());
}

#[test]
fn empty_command_is_the_program_alone() {
    assert_eq!(QemuCommand::new().build(), vec!["qemu-system-x86_64".to_string()]);
    assert_eq!(QemuCommand::default().build_string(), "qemu-system-x86_64");
}

#[test]
fn display_of_another_kind_adds_nothing() {
    let cmd = QemuCommand::new().display(DisplayConfig {
        kind: "vnc".to_string(),
        port: Some(5900),
        options: Options::new(),
    });
    assert_eq!(cmd.build(), vec!["qemu-system-x86_64".to_string()]);
}

#[test]
fn spice_without_port_has_no_leading_comma() {
    let mut opts = Options::new();
    opts.insert("addr".to_string(), "127.0.0.1".to_string());
    let cmd = QemuCommand::new().display(DisplayConfig {
        kind: "spice".to_string(),
        port: None,
        options: opts,
    });
    assert_eq!(cmd.build()[2], "addr=127.0.0.1");

    let bare = QemuCommand::new().display(DisplayConfig {
        kind: "spice".to_string(),
        port: None,
        options: Options::new(),
    });
    assert_eq!(bare.build()[2], "");
}

#[test]
fn later_settings_replace_earlier_ones() {
    let cmd = QemuCommand::new()
        .machine(MachineType::Virt)
        .machine(MachineType::I440fx)
        .accel(Accelerator::Whpx)
        .accel(Accelerator::Tcg)
        .cpu(1)
        .unwrap()
        .cpu(u32::MAX)
        .unwrap();
    assert_eq!(
        cmd.build_string(),
        "qemu-system-x86_64 -machine i440fx -accel tcg -smp 4294967295"
    );
}

#[test]
fn options_keep_first_place_and_last_value() {
    let mut opts = Options::new();
    assert_eq!(opts.len(), 0);
    assert_eq!(opts.insert("a".to_string(), "1".to_string()), None);
    assert_eq!(opts.insert("b".to_string(), "2".to_string()), None);
    assert_eq!(opts.insert("a".to_string(), "3".to_string()), Some("1".to_string()));
    assert_eq!(opts.len(), 2);
    let cmd = QemuCommand::new().netdev(NetdevConfig {
        id: "n".to_string(),
        kind: "user".to_string(),
        options: opts.clone(),
    });
    assert_eq!(cmd.build()[2], "user,id=n,a=3,b=2");
}

#[test]
fn names_of_accelerators_and_machines() {
    assert_eq!(Accelerator::Hvf.as_str(), "hvf");
    assert_eq!(Accelerator::Kvm.as_str(), "kvm");
    assert_eq!(Accelerator::Whpx.as_str(), "whpx");
    assert_eq!(Accelerator::Tcg.as_str(), "tcg");
    assert_eq!(MachineType::Q35.as_str(), "q35");
    assert_eq!(MachineType::I440fx.as_str(), "i440fx");
    assert_eq!(MachineType::Virt.as_str(), "virt");
}
