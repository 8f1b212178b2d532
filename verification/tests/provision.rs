use openutm::config::VMRecord;
use openutm::provision::{
    begin_create, begin_create_as, create_step, delete_plan, disk_for_start, is_best_effort,
    CreateAction, CreateEvent, CreateStep, DeleteAction, DiskNeed,
};
use openutm::{default_boot_order, default_network_type, VMConfig, VMStatus};

fn ubuntu(memory_mb: u32) -> VMConfig {
    VMConfig {
        name: "Ubuntu".to_string(),
        memory_mb,
        cpu_cores: 2,
        disk_size_gb: 40,
        os: "linux".to_string(),
        install_media_path: None,
        boot_order: default_boot_order(),
        network_type: default_network_type(),
    }
}

#[test]
fn invalid_configuration_is_refused_before_anything_is_asked() {
    assert_eq!(begin_create(&ubuntu(128)).unwrap_err(), "Memory must be at least 512 MB");
    assert_eq!(
        begin_create_as("vm-1".to_string(), &ubuntu(0)).unwrap_err(),
        "Memory must be at least 512 MB"
    );
}

#[test]
fn creation_allocates_then_persists() {
    let (step, action) = begin_create_as("vm-1".to_string(), &ubuntu(2048)).unwrap();
    assert!(matches!(
        &action,
        CreateAction::AllocateDisk { vm_id, size_gb: 40 } if vm_id == "vm-1"
    ));
    let (step, action) = create_step(step, CreateEvent::DiskAllocated);
    match &action {
        CreateAction::Persist(row) => {
            assert_eq!(row.id, "vm-1");
            assert_eq!(row.name, "Ubuntu");
            assert_eq!(row.status, "stopped");
            assert_eq!(row.memory_mb, 2048);
            assert_eq!(row.cpu_cores, 2);
            assert_eq!(row.disk_size_gb, 40);
            assert_eq!(row.os, "linux");
        }
        other => panic!("row should be written: {:?}", other),
    }
    let (step, action) = create_step(step, CreateEvent::Persisted);
    match action {
        CreateAction::Succeed(vm) => {
            assert_eq!(vm.id, "vm-1");
            assert_eq!(vm.status, VMStatus::Stopped);
            assert_eq!(vm.config.memory_mb, 2048);
        }
        other => panic!("machine should be handed out: {:?}", other),
    }
    assert!(matches!(step, CreateStep::Finished));
}

#[test]
fn failed_persistence_deletes_the_disk_before_it_fails() {
    let (step, _) = begin_create_as("vm-1".to_string(), &ubuntu(2048)).unwrap();
    let (step, _) = create_step(step, CreateEvent::DiskAllocated);
    let (step, action) = create_step(step, CreateEvent::PersistFailed("disk full".to_string()));
    assert!(matches!(&action, CreateAction::DeleteDisk { vm_id } if vm_id == "vm-1"));
    assert!(matches!(&step, CreateStep::RollingBack { .. }));
    // nothing but the end of the deletion moves the creation on
    let (step, action) = create_step(step, CreateEvent::Persisted);
    assert!(matches!(action, CreateAction::Wait));
    let (step, action) = create_step(step, CreateEvent::DiskDeleted);
    assert!(matches!(action, CreateAction::Fail(text) if text == "disk full"));
    assert!(matches!(step, CreateStep::Finished));
    let (_, action) = create_step(step, CreateEvent::DiskDeleted);
    assert!(matches!(action, CreateAction::Wait));
}

#[test]
fn failed_allocation_asks_nothing_of_the_registry() {
    let (step, _) = begin_create_as("vm-1".to_string(), &ubuntu(2048)).unwrap();
    let (step, action) = create_step(step, CreateEvent::DiskFailed("no qemu-img".to_string()));
    assert!(matches!(action, CreateAction::Fail(text) if text == "no qemu-img"));
    assert!(matches!(step, CreateStep::Finished));
}

#[test]
fn generated_identifiers_are_hyphenated_lower_case() {
    let (_, first) = begin_create(&ubuntu(2048)).unwrap();
    let (_, second) = begin_create(&ubuntu(2048)).unwrap();
    let id = |action: CreateAction| match action {
        CreateAction::AllocateDisk { vm_id, .. } => vm_id,
        other => panic!("no disk asked for: {:?}", other),
    };
    let (first, second) = (id(first), id(second));
    for text in [&first, &second] {
        assert_eq!(text.len(), 36);
        for (i, c) in text.chars().enumerate() {
            if i == 8 || i == 13 || i == 18 || i == 23 {
                assert_eq!(c, '-');
            } else {
                assert!(c.is_ascii_digit() || ('a'..='f').contains(&c));
            }
        }
    }
    assert_ne!(first, second);
}

#[test]
fn deletion_of_an_unknown_machine_is_done_at_once() {
    assert_eq!(delete_plan("vm-1", false), Ok(vec![]));
    assert_eq!(delete_plan("", true).unwrap_err(), "VM ID cannot be empty");
    assert_eq!(
        delete_plan("vm-1", true),
        Ok(vec![
            DeleteAction::StopProcess,
            DeleteAction::DeleteDisk,
            DeleteAction::DeleteRecord,
            DeleteAction::ForgetSession,
        ])
    );
    assert!(is_best_effort(DeleteAction::StopProcess));
    assert!(!is_best_effort(DeleteAction::DeleteDisk));
    assert!(!is_best_effort(DeleteAction::DeleteRecord));
    assert!(!is_best_effort(DeleteAction::ForgetSession));
}

#[test]
fn start_allocates_a_disk_only_where_there_is_none() {
    let row = VMRecord {
        id: "vm-1".to_string(),
        name: "Ubuntu".to_string(),
        status: "stopped".to_string(),
        memory_mb: 2048,
        cpu_cores: 2,
        disk_size_gb: 40,
        os: "linux".to_string(),
    };
    assert_eq!(disk_for_start(&row, true), DiskNeed::Present);
    assert_eq!(disk_for_start(&row, false), DiskNeed::Allocate { size_gb: 40 });
}
