use openutm::commands::resolve_spice_port;
use openutm::display::DisplaySessionManager;

#[test]
fn display_opens_only_for_a_running_machine() {
    let mut sessions = DisplaySessionManager::new();
    assert_eq!(sessions.open("vm-1", true, false).unwrap_err(), "VM vm-1 not running");
    assert_eq!(sessions.open("vm-1", false, true).unwrap_err(), "VM vm-1 not found");
    assert_eq!(sessions.open(" ", true, true).unwrap_err(), "VM ID cannot be empty");
    assert_eq!(sessions.len(), 0);
    assert_eq!(sessions.get("vm-1", true).unwrap().map(|s| s.status), None);

    let session = sessions.open("vm-1", true, true).unwrap();
    assert_eq!(session.vm_id, "vm-1");
    assert_eq!(session.status, "connected");
    assert_eq!(session.port, resolve_spice_port("vm-1"));
    assert_eq!(session.port, 6431);
    assert_eq!(session.uri, "spice://127.0.0.1:6431");
    assert_eq!(session.host, "127.0.0.1");
    assert_eq!(session.reconnect_attempts, 0);
    assert_eq!(session.last_error, None);
    assert_eq!(sessions.len(), 1);
}

#[test]
fn stopped_machine_is_found_disconnected_with_a_reason() {
    let mut sessions = DisplaySessionManager::new();
    sessions.open("vm-1", true, true).unwrap();
    let seen = sessions.get("vm-1", false).unwrap().unwrap();
    assert_eq!(seen.status, "disconnected");
    assert_eq!(seen.last_error.as_deref(), Some("VM not running"));
    assert!(!seen.last_error.unwrap().is_empty());
    // what was seen is kept
    let later = sessions.get("vm-1", true).unwrap().unwrap();
    assert_eq!(later.status, "disconnected");
    assert_eq!(later.last_error.as_deref(), Some("VM not running"));
}

#[test]
fn reconnects_are_counted_when_a_closed_session_is_opened() {
    let mut sessions = DisplaySessionManager::new();
    sessions.open("vm-1", true, true).unwrap();
    // opening what is open counts nothing
    assert_eq!(sessions.open("vm-1", true, true).unwrap().reconnect_attempts, 0);

    sessions.close("vm-1").unwrap();
    let closed = sessions.get("vm-1", true).unwrap().unwrap();
    assert_eq!(closed.status, "disconnected");
    assert_eq!(closed.last_error.as_deref(), Some("Display session closed"));

    let again = sessions.open("vm-1", true, true).unwrap();
    assert_eq!(again.status, "connected");
    assert_eq!(again.reconnect_attempts, 1);
    assert_eq!(again.last_error, None);
    assert_eq!(again.port, 6431);

    sessions.machine_stopped("vm-1");
    let stopped = sessions.get("vm-1", false).unwrap().unwrap();
    assert_eq!(stopped.status, "disconnected");
    assert_eq!(stopped.last_error.as_deref(), Some("VM stopped"));
    assert_eq!(sessions.open("vm-1", true, false).unwrap_err(), "VM vm-1 not running");
    assert_eq!(sessions.open("vm-1", true, true).unwrap().reconnect_attempts, 2);
    assert_eq!(sessions.len(), 1);
}

#[test]
fn sessions_of_different_machines_do_not_meet() {
    let mut sessions = DisplaySessionManager::new();
    sessions.open("vm-1", true, true).unwrap();
    sessions.open("vm-2", true, true).unwrap();
    sessions.close("vm-2").unwrap();
    sessions.close("vm-3").unwrap();
    assert_eq!(sessions.close("").unwrap_err(), "VM ID cannot be empty");
    assert_eq!(sessions.get("\t", true).unwrap_err(), "VM ID cannot be empty");
    assert_eq!(sessions.get("vm-1", true).unwrap().unwrap().status, "connected");
    assert_eq!(sessions.get("vm-2", true).unwrap().unwrap().status, "disconnected");
    assert_eq!(sessions.get("vm-2", true).unwrap().unwrap().port, 6432);
    assert!(sessions.get("vm-3", true).unwrap().is_none());

    sessions.machine_started("vm-2");
    let up = sessions.get("vm-2", true).unwrap().unwrap();
    assert_eq!(up.status, "connected");
    assert_eq!(up.last_error, None);
    assert_eq!(up.reconnect_attempts, 0);

    sessions.remove("vm-1");
    sessions.remove("vm-1");
    assert_eq!(sessions.len(), 1);
    assert!(sessions.get("vm-1", true).unwrap().is_none());
    assert_eq!(sessions.open("vm-1", true, true).unwrap().reconnect_attempts, 0);
}
