//! The rules behind the operations that callers invoke: what makes a
//! configuration valid, how a registry row becomes a machine, which arguments
//! start a machine and where its display listens.

use vstd::prelude::*;
use vstd::utf8::encode_utf8;
use crate::config::{VMRecord, VMRecordView};
use crate::error::{Error, ErrorView};
use crate::qemu::command::{
    command_args, spice_text, Accelerator, DisplayConfig, DisplayConfigView, DriveConfig,
    DriveConfigView, MachineType, NetdevConfig, NetdevConfigView, Options, QemuCommand,
    QemuCommandView,
};
use crate::platform::Platform;
use crate::qemu::controller::VMLifecycle;
use crate::text::{
    ascii_lowercase, decimal, decimal_string, is_blank, lowercase_is, text_is_blank,
};
use crate::{DisplaySession, DisplaySessionView, VMConfig, VMConfigView, VMStatus, VMView, VM};

verus! {

/// What is wrong with a configuration, or `None` where it is valid: the first
/// of blank name, less than 512 MB of memory, no processor, no disk.
pub open spec fn config_problem(config: VMConfigView) -> Option<Seq<char>> {
    if is_blank(config.name) {
        Some("VM name cannot be empty"@)
    } else if config.memory_mb < 512 {
        Some("Memory must be at least 512 MB"@)
    } else if config.cpu_cores == 0 {
        Some("CPU cores must be at least 1"@)
    } else if config.disk_size_gb == 0 {
        Some("Disk size must be at least 1 GB"@)
    } else {
        None
    }
}

/// Accepts a configuration or names the first constraint that it breaks.
pub fn validate_vm_config(config: &VMConfig) -> (r: Result<(), String>)
    ensures
        match r {
            Ok(_) => config_problem(config@) is None,
            Err(message) => config_problem(config@) == Some(message@),
        },
{
    if text_is_blank(config.name.as_str()) {
        return Err(String::from_str("VM name cannot be empty"));
    }
    if config.memory_mb < 512 {
        return Err(String::from_str("Memory must be at least 512 MB"));
    }
    if config.cpu_cores == 0 {
        return Err(String::from_str("CPU cores must be at least 1"));
    }
    if config.disk_size_gb == 0 {
        return Err(String::from_str("Disk size must be at least 1 GB"));
    }
    Ok(())
}

/// What is wrong with an identifier, or `None` where it may name a machine:
/// it must not be blank.
pub open spec fn id_problem(id: Seq<char>) -> Option<Seq<char>> {
    if is_blank(id) {
        Some("VM ID cannot be empty"@)
    } else {
        None
    }
}

/// Accepts an identifier or says that it is empty.
pub fn validate_vm_id(id: &str) -> (r: Result<(), String>)
    ensures
        match r {
            Ok(_) => id_problem(id@) is None,
            Err(message) => id_problem(id@) == Some(message@),
        },
{
    if text_is_blank(id) {
        return Err(String::from_str("VM ID cannot be empty"));
    }
    Ok(())
}

/// The status that a registry tag stands for: tags are read without regard
/// to ASCII case, and an unknown tag means stopped.
pub open spec fn status_of_tag(tag: Seq<char>) -> VMStatus {
    let lower = ascii_lowercase(tag);
    if lower == "running"@ {
        VMStatus::Running
    } else if lower == "paused"@ {
        VMStatus::Paused
    } else if lower == "error"@ {
        VMStatus::Error
    } else {
        VMStatus::Stopped
    }
}

/// Reads a registry tag.
pub fn parse_vm_status(status: &str) -> (r: VMStatus)
    ensures
        r == status_of_tag(status@),
{
    if lowercase_is(status, "running") {
        VMStatus::Running
    } else if lowercase_is(status, "paused") {
        VMStatus::Paused
    } else if lowercase_is(status, "error") {
        VMStatus::Error
    } else {
        VMStatus::Stopped
    }
}

/// The tag under which the registry keeps a status.
pub open spec fn tag_of_status(status: VMStatus) -> Seq<char> {
    match status {
        VMStatus::Running => "running"@,
        VMStatus::Paused => "paused"@,
        VMStatus::Error => "error"@,
        VMStatus::Stopped => "stopped"@,
    }
}

/// Writes a status as its registry tag.
pub fn status_to_storage(status: &VMStatus) -> (tag: &'static str)
    ensures
        tag@ == tag_of_status(*status),
{
    match status {
        VMStatus::Running => "running",
        VMStatus::Paused => "paused",
        VMStatus::Error => "error",
        VMStatus::Stopped => "stopped",
    }
}

/// Reading back a written tag gives the status that was written.
pub proof fn lemma_status_round_trip(status: VMStatus)
    ensures
        status_of_tag(tag_of_status(status)) == status,
{
    reveal_strlit("running");
    reveal_strlit("paused");
    reveal_strlit("error");
    reveal_strlit("stopped");
    let tag = tag_of_status(status);
    assert(ascii_lowercase(tag) =~= tag);
    assert("running"@.len() == 7 && "paused"@.len() == 6 && "error"@.len() == 5 && "stopped"@.len()
        == 7);
    assert("running"@[0] == 'r' && "stopped"@[0] == 's');
}

/// The machine that a registry row describes.
pub open spec fn vm_of_record(record: VMRecordView) -> VMView {
    VMView {
        id: record.id,
        name: record.name,
        status: status_of_tag(record.status),
        config: VMConfigView {
            name: record.name,
            memory_mb: record.memory_mb,
            cpu_cores: record.cpu_cores,
            disk_size_gb: record.disk_size_gb,
            os: record.os,
            install_media_path: None,
            boot_order: "disk-first"@,
            network_type: "nat"@,
        },
    }
}

/// Turns a registry row into the machine that callers see.
pub fn map_record_to_vm(record: VMRecord) -> (vm: VM)
    ensures
        vm@ == vm_of_record(record@),
{
    let name = record.name.clone();
    let status = parse_vm_status(record.status.as_str());
    VM {
        id: record.id,
        name: name.clone(),
        status,
        config: VMConfig {
            name,
            memory_mb: record.memory_mb,
            cpu_cores: record.cpu_cores,
            disk_size_gb: record.disk_size_gb,
            os: record.os,
            install_media_path: None,
            boot_order: crate::default_boot_order(),
            network_type: crate::default_network_type(),
        },
    }
}

/// The registry row of a machine that was just created from `config`.
pub open spec fn record_of_config(id: Seq<char>, config: VMConfigView) -> VMRecordView {
    VMRecordView {
        id,
        name: config.name,
        status: "stopped"@,
        memory_mb: config.memory_mb,
        cpu_cores: config.cpu_cores,
        disk_size_gb: config.disk_size_gb,
        os: config.os,
    }
}

/// Builds the registry row of a new, stopped machine.
pub fn new_record(id: String, config: &VMConfig) -> (record: VMRecord)
    ensures
        record@ == record_of_config(id@, config@),
{
    VMRecord {
        id,
        name: config.name.clone(),
        status: String::from_str("stopped"),
        memory_mb: config.memory_mb,
        cpu_cores: config.cpu_cores,
        disk_size_gb: config.disk_size_gb,
        os: config.os.clone(),
    }
}

/// The acceleration back end that a host prefers.
pub open spec fn preferred_accelerator(platform: Platform) -> Accelerator {
    match platform {
        Platform::MacOs => Accelerator::Hvf,
        Platform::Linux => Accelerator::Kvm,
        Platform::Windows => Accelerator::Whpx,
        Platform::Other => Accelerator::Tcg,
    }
}

/// Picks the acceleration back end for a host.
pub fn default_accelerator(platform: Platform) -> (r: Accelerator)
    ensures
        r == preferred_accelerator(platform),
{
    match platform {
        Platform::MacOs => Accelerator::Hvf,
        Platform::Linux => Accelerator::Kvm,
        Platform::Windows => Accelerator::Whpx,
        Platform::Other => Accelerator::Tcg,
    }
}

/// Where the disk image of a machine lies below `storage_dir`.
pub open spec fn disk_file(storage_dir: Seq<char>, vm_id: Seq<char>) -> Seq<char> {
    storage_dir + "/"@ + vm_id + ".qcow2"@
}

/// Names the disk image of a machine.
pub fn disk_path(storage_dir: &str, vm_id: &str) -> (path: String)
    ensures
        path@ == disk_file(storage_dir@, vm_id@),
{
    let mut path = String::from_str(storage_dir);
    path.append("/");
    path.append(vm_id);
    path.append(".qcow2");
    path
}

/// Lowest port of the window from which display ports are drawn.
pub const SPICE_PORT_BASE: u16 = 5900;

/// Number of ports in that window.
pub const SPICE_PORT_WINDOW: u16 = 1000;

/// The rolling hash that places a byte string in the port window: each byte
/// multiplies what came before by 31, adds itself and is reduced to the window.
pub open spec fn port_hash(bytes: Seq<u8>) -> nat
    decreases bytes.len(),
{
    if bytes.len() == 0 {
        0
    } else {
        ((port_hash(bytes.drop_last()) * 31 + bytes.last() as nat) % (SPICE_PORT_WINDOW as nat)) as nat
    }
}

/// The display port of the machine `vm_id`: the window's base plus the hash
/// of the identifier's UTF-8 bytes.
pub open spec fn spice_port(vm_id: Seq<char>) -> nat {
    SPICE_PORT_BASE as nat + port_hash(encode_utf8(vm_id))
}

/// The hash stays inside the window.
pub proof fn lemma_port_hash_in_window(bytes: Seq<u8>)
    ensures
        port_hash(bytes) < 1000,
    decreases bytes.len(),
{
    if bytes.len() > 0 {
        lemma_port_hash_in_window(bytes.drop_last());
    }
}

/// Port derivation is a function of the identifier alone, and every port lies
/// in the window from 5900 to 6899: equal identifiers have equal ports.
pub proof fn lemma_spice_port_stable_and_in_range(a: Seq<char>, b: Seq<char>)
    ensures
        5900 <= spice_port(a) <= 6899,
        a == b ==> spice_port(a) == spice_port(b),
{
    lemma_port_hash_in_window(encode_utf8(a));
}

/// Derives the display port of a machine from its identifier.
pub fn resolve_spice_port(vm_id: &str) -> (port: u16)
    ensures
        port == spice_port(vm_id@),
        5900 <= port <= 6899,
{
    let bytes = vm_id.as_bytes();
    let mut hash: u16 = 0;
    let mut i: usize = 0;
    while i < bytes.len()
        invariant
            i <= bytes@.len(),
            hash == port_hash(bytes@.take(i as int)),
            hash < 1000,
        decreases bytes.len() - i,
    {
        assert(bytes@.take(i + 1).drop_last() =~= bytes@.take(i as int));
        hash = (hash * 31 + bytes[i] as u16) % SPICE_PORT_WINDOW;
        i += 1;
    }
    assert(bytes@.take(i as int) =~= bytes@);
    SPICE_PORT_BASE + hash
}

/// The machine that a registry row asks for, on the disk image `disk` and
/// with the acceleration back end `accel`: one paravirtual drive, one
/// user-mode network device, a display bound to the loopback address on the
/// machine's port, and a pointer device.
pub open spec fn launch_command(
    vm: VMRecordView,
    disk: Seq<char>,
    accel: Accelerator,
) -> QemuCommandView {
    QemuCommandView {
        machine: Some(MachineType::Q35),
        accelerator: Some(accel),
        cpu_count: Some(vm.cpu_cores),
        memory_mb: Some(vm.memory_mb),
        drives: seq![
            DriveConfigView { id: "disk0"@, file: disk, format: "qcow2"@, interface: "virtio"@ },
        ],
        netdevs: seq![NetdevConfigView { id: "net0"@, kind: "user"@, options: Seq::empty() }],
        display: Some(
            DisplayConfigView {
                kind: "spice"@,
                port: Some(spice_port(vm.id) as u16),
                options: seq![("addr"@, "127.0.0.1"@), ("disable-ticketing"@, "on"@)],
            },
        ),
        usb_tablet: true,
    }
}

/// The argument that makes the hypervisor serve its control protocol on the
/// socket `socket`.
pub open spec fn control_socket_arg(socket: Seq<char>) -> Seq<char> {
    "unix:"@ + socket + ",server=on,wait=off"@
}

/// The launch plan: the structural arguments of [`launch_command`], then the
/// control socket, then the name under which the process shows.
pub open spec fn launch_plan(
    vm: VMRecordView,
    disk: Seq<char>,
    socket: Seq<char>,
    accel: Accelerator,
) -> Seq<Seq<char>> {
    command_args(launch_command(vm, disk, accel)) + seq![
        "-qmp"@,
        control_socket_arg(socket),
        "-name"@,
        vm.name,
    ]
}

/// Why no launch plan can be made for a row, or `None` where one can.
pub open spec fn launch_problem(vm: VMRecordView) -> Option<Seq<char>> {
    if vm.cpu_cores == 0 {
        Some("Invalid CPU config: CPU count must be > 0"@)
    } else if vm.memory_mb == 0 {
        Some("Invalid memory config: Memory must be > 0 MB"@)
    } else {
        None
    }
}

fn prefixed_message(prefix: &str, detail: String) -> (s: String)
    ensures
        s@ == prefix@ + detail@,
{
    let mut s = String::from_str(prefix);
    s.append(detail.as_str());
    s
}

fn loopback_display_options() -> (options: Options)
    ensures
        options@ == seq![("addr"@, "127.0.0.1"@), ("disable-ticketing"@, "on"@)],
{
    let mut options = Options::new();
    options.insert(String::from_str("addr"), String::from_str("127.0.0.1"));
    options.insert(String::from_str("disable-ticketing"), String::from_str("on"));
    proof {
        reveal_strlit("addr");
        reveal_strlit("disable-ticketing");
        let first = seq![("addr"@, "127.0.0.1"@)];
        assert(first.drop_last() =~= Seq::<(Seq<char>, Seq<char>)>::empty());
        assert(first.last().0.len() != "disable-ticketing"@.len());
        assert(options@ =~= seq![("addr"@, "127.0.0.1"@), ("disable-ticketing"@, "on"@)]);
    }
    options
}

/// Turns a registry row into the arguments that start its machine.
///
/// Rows without processors or without memory are refused. Equal inputs give
/// equal plans: nothing but the arguments enters the result.
pub fn build_start_args(vm: &VMRecord, disk: &str, qmp_socket: &str, accel: Accelerator) -> (r:
    Result<Vec<String>, String>)
    ensures
        match r {
            Ok(args) => launch_problem(vm@) is None && args.deep_view() == launch_plan(
                vm@,
                disk@,
                qmp_socket@,
                accel,
            ),
            Err(message) => launch_problem(vm@) == Some(message@),
        },
{
    let command = QemuCommand::new().machine(MachineType::Q35).accel(accel);
    let command = match command.cpu(vm.cpu_cores) {
        Ok(c) => c,
        Err(e) => {
            let message = prefixed_message("Invalid CPU config: ", e);
            proof {
                reveal_strlit("Invalid CPU config: ");
                reveal_strlit("CPU count must be > 0");
                reveal_strlit("Invalid CPU config: CPU count must be > 0");
                assert(message@ =~= "Invalid CPU config: CPU count must be > 0"@);
            }
            return Err(message);
        },
    };
    let command = match command.memory(vm.memory_mb) {
        Ok(c) => c,
        Err(e) => {
            let message = prefixed_message("Invalid memory config: ", e);
            proof {
                reveal_strlit("Invalid memory config: ");
                reveal_strlit("Memory must be > 0 MB");
                reveal_strlit("Invalid memory config: Memory must be > 0 MB");
                assert(message@ =~= "Invalid memory config: Memory must be > 0 MB"@);
            }
            return Err(message);
        },
    };
    let command = command.drive(
        DriveConfig {
            id: String::from_str("disk0"),
            file: String::from_str(disk),
            format: String::from_str("qcow2"),
            interface: String::from_str("virtio"),
        },
    ).netdev(
        NetdevConfig {
            id: String::from_str("net0"),
            kind: String::from_str("user"),
            options: Options::new(),
        },
    ).display(
        DisplayConfig {
            kind: String::from_str("spice"),
            port: Some(resolve_spice_port(vm.id.as_str())),
            options: loopback_display_options(),
        },
    ).usb_tablet();
    proof {
        let wanted = launch_command(vm@, disk@, accel);
        assert(command@.drives =~= wanted.drives);
        assert(command@.netdevs =~= wanted.netdevs);
        assert(command@ == wanted);
    }

    let mut args = command.build();
    let ghost line = args.deep_view();
    let ghost built = args@;
    assert(line.len() > 0);
    args.remove(0);
    assert(args.deep_view() =~= command_args(command@)) by {
        assert(args.deep_view().len() == line.len() - 1);
        assert forall|i: int| 0 <= i < line.len() - 1 implies args.deep_view()[i] == line[i + 1] by {
            assert(args@[i] == built.remove(0)[i]);
        }
        assert(line.drop_first() =~= command_args(command@));
    }

    let mut socket_arg = String::from_str("unix:");
    socket_arg.append(qmp_socket);
    socket_arg.append(",server=on,wait=off");
    let ghost structural = args.deep_view();
    let ghost socket_text = socket_arg@;
    args.push(String::from_str("-qmp"));
    args.push(socket_arg);
    args.push(String::from_str("-name"));
    args.push(vm.name.clone());
    assert(args.deep_view() =~= structural + seq![
        "-qmp"@,
        socket_text,
        "-name"@,
        vm.name@,
    ]);
    Ok(args)
}

/// Every launch plan holds the control-socket argument and the name argument,
/// each behind its flag, the socket before the name, whatever the other
/// fields are: they are its last four arguments.
pub proof fn lemma_launch_plan_names_socket_then_name(
    vm: VMRecordView,
    disk: Seq<char>,
    socket: Seq<char>,
    accel: Accelerator,
)
    ensures
        ({
            let plan = launch_plan(vm, disk, socket, accel);
            let n = plan.len() as int;
            &&& n >= 4
            &&& plan[n - 4] == "-qmp"@
            &&& plan[n - 3] == control_socket_arg(socket)
            &&& plan[n - 2] == "-name"@
            &&& plan[n - 1] == vm.name
        }),
{
}

/// The display of every launch plan listens on the loopback address alone,
/// at the port derived from the machine's identifier.
pub proof fn lemma_display_bound_to_loopback(vm: VMRecordView, disk: Seq<char>, accel: Accelerator)
    ensures
        launch_command(vm, disk, accel).display matches Some(display) && display.kind == "spice"@
            && spice_text(display) == "port="@ + decimal(spice_port(vm.id))
            + ",addr=127.0.0.1,disable-ticketing=on"@,
{
    lemma_port_hash_in_window(encode_utf8(vm.id));
    let display = launch_command(vm, disk, accel).display->0;
    let base = "port="@ + decimal(spice_port(vm.id));
    assert(base.len() > 0) by {
        reveal_strlit("port=");
    }
    let options = display.options;
    assert(options.drop_last() =~= seq![("addr"@, "127.0.0.1"@)]);
    assert(options.drop_last().drop_last() =~= Seq::<(Seq<char>, Seq<char>)>::empty());
    reveal_with_fuel(crate::qemu::command::with_separated_options, 3);
    reveal_strlit(",addr=127.0.0.1,disable-ticketing=on");
    reveal_strlit(",");
    reveal_strlit("=");
    reveal_strlit("addr");
    reveal_strlit("127.0.0.1");
    reveal_strlit("disable-ticketing");
    reveal_strlit("on");
    assert(spice_text(display) =~= base + ",addr=127.0.0.1,disable-ticketing=on"@);
}

/// The session that a caller is handed for the display of a machine.
pub open spec fn display_session(
    vm_id: Seq<char>,
    status: Seq<char>,
    reconnect_attempts: u32,
    last_error: Option<Seq<char>>,
) -> DisplaySessionView {
    DisplaySessionView {
        vm_id,
        protocol: "spice"@,
        host: "127.0.0.1"@,
        port: spice_port(vm_id) as u16,
        uri: "spice://127.0.0.1:"@ + decimal(spice_port(vm_id)),
        status,
        reconnect_attempts,
        last_error,
        connected_at: None,
    }
}

/// Describes the display endpoint of a machine: always on the loopback
/// address, at the machine's own port.
pub fn build_display_session(
    vm_id: &str,
    status: &str,
    reconnect_attempts: u32,
    last_error: Option<String>,
) -> (session: DisplaySession)
    ensures
        session@ == display_session(vm_id@, status@, reconnect_attempts, last_error.deep_view()),
{
    let port = resolve_spice_port(vm_id);
    let mut uri = String::from_str("spice://127.0.0.1:");
    uri.append(decimal_string(port as u64).as_str());
    DisplaySession {
        vm_id: String::from_str(vm_id),
        protocol: String::from_str("spice"),
        host: String::from_str("127.0.0.1"),
        port,
        uri,
        status: String::from_str(status),
        reconnect_attempts,
        last_error,
        connected_at: None,
    }
}

/// Where the control socket of the machine `vm_id` lies.
pub open spec fn control_socket(vm_id: Seq<char>) -> Seq<char> {
    "/tmp/openutm-qmp-"@ + vm_id + ".sock"@
}

/// Names the control socket of a machine.
pub fn qmp_socket_path(vm_id: &str) -> (path: String)
    ensures
        path@ == control_socket(vm_id@),
{
    let mut path = String::from_str("/tmp/openutm-qmp-");
    path.append(vm_id);
    path.append(".sock");
    path
}

/// The sentence that says that the registry has no machine `id`.
pub open spec fn not_found(id: Seq<char>) -> Seq<char> {
    "VM "@ + id + " not found"@
}

/// Takes what the registry found under `id`: the row, or the complaint that
/// there is none.
pub fn fetch_vm_or_err(found: Option<VMRecord>, id: &str) -> (r: Result<VMRecord, String>)
    ensures
        match r {
            Ok(record) => found == Some(record),
            Err(message) => found is None && message@ == not_found(id@),
        },
{
    match found {
        Some(record) => Ok(record),
        None => {
            let mut message = String::from_str("VM ");
            message.append(id);
            message.append(" not found");
            Err(message)
        },
    }
}

/// The row `record` with its status tag set to that of `status`.
pub open spec fn record_with_status(record: VMRecordView, status: VMStatus) -> VMRecordView {
    VMRecordView { status: tag_of_status(status), ..record }
}

/// Sets the status tag of a row, as it is written back to the registry when
/// a machine has changed its state.
pub fn update_vm_status(record: VMRecord, status: VMStatus) -> (updated: VMRecord)
    ensures
        updated@ == record_with_status(record@, status),
{
    let mut updated = record;
    updated.status = String::from_str(status_to_storage(&status));
    updated
}

/// The fields of a machine that a caller may change; a field that is `None`
/// stays as it is.
#[derive(Debug)]
pub struct UpdateVmRequest {
    pub id: String,
    pub name: Option<String>,
    pub cpu: Option<u32>,
    pub memory: Option<u32>,
}

/// An [`UpdateVmRequest`] as plain values.
pub struct UpdateVmRequestView {
    pub id: Seq<char>,
    pub name: Option<Seq<char>>,
    pub cpu: Option<u32>,
    pub memory: Option<u32>,
}

impl View for UpdateVmRequest {
    type V = UpdateVmRequestView;

    open spec fn view(&self) -> UpdateVmRequestView {
        UpdateVmRequestView {
            id: self.id@,
            name: self.name.deep_view(),
            cpu: self.cpu,
            memory: self.memory,
        }
    }
}

/// What is wrong with the new values of a request, or `None` where each of
/// them would be valid in a configuration: the first of a blank name, no
/// processor, less than 512 MB of memory.
pub open spec fn update_problem(request: UpdateVmRequestView) -> Option<Seq<char>> {
    if request.name is Some && is_blank(request.name->0) {
        Some("VM name cannot be empty"@)
    } else if request.cpu == Some(0u32) {
        Some("CPU cores must be at least 1"@)
    } else if request.memory is Some && request.memory->0 < 512 {
        Some("Memory must be at least 512 MB"@)
    } else {
        None
    }
}

/// The row `record` with the fields that `request` names replaced.
pub open spec fn updated_record(record: VMRecordView, request: UpdateVmRequestView) -> VMRecordView {
    VMRecordView {
        name: match request.name {
            Some(name) => name,
            None => record.name,
        },
        cpu_cores: match request.cpu {
            Some(cpu) => cpu,
            None => record.cpu_cores,
        },
        memory_mb: match request.memory {
            Some(memory) => memory,
            None => record.memory_mb,
        },
        ..record
    }
}

/// Applies a request to a row, all of it or nothing: where one new value is
/// not valid no row comes back, so that nothing can be written.
pub fn apply_update(record: VMRecord, request: UpdateVmRequest) -> (r: Result<VMRecord, String>)
    ensures
        match r {
            Ok(updated) => update_problem(request@) is None && updated@ == updated_record(
                record@,
                request@,
            ),
            Err(message) => update_problem(request@) == Some(message@),
        },
{
    let mut updated = record;
    let UpdateVmRequest { id: _, name, cpu, memory } = request;
    if let Some(name) = name {
        if text_is_blank(name.as_str()) {
            return Err(String::from_str("VM name cannot be empty"));
        }
        updated.name = name;
    }
    if let Some(cpu) = cpu {
        if cpu == 0 {
            return Err(String::from_str("CPU cores must be at least 1"));
        }
        updated.cpu_cores = cpu;
    }
    if let Some(memory) = memory {
        if memory < 512 {
            return Err(String::from_str("Memory must be at least 512 MB"));
        }
        updated.memory_mb = memory;
    }
    Ok(updated)
}

/// The status that callers and the registry see of a machine in the
/// lifecycle state `live`, or `None` while a transition is in progress and
/// nothing new can be said.
pub open spec fn visible_status(live: VMLifecycle) -> Option<VMStatus> {
    match live {
        VMLifecycle::Stopped => Some(VMStatus::Stopped),
        VMLifecycle::Running => Some(VMStatus::Running),
        VMLifecycle::Paused => Some(VMStatus::Paused),
        VMLifecycle::Error => Some(VMStatus::Error),
        _ => None,
    }
}

/// Says what callers see of a machine in the lifecycle state `live`, or
/// `None` while a transition is in progress.
pub fn stable_status(live: VMLifecycle) -> (status: Option<VMStatus>)
    ensures
        status == visible_status(live),
{
    match live {
        VMLifecycle::Stopped => Some(VMStatus::Stopped),
        VMLifecycle::Running => Some(VMStatus::Running),
        VMLifecycle::Paused => Some(VMStatus::Paused),
        VMLifecycle::Error => Some(VMStatus::Error),
        _ => None,
    }
}

/// The status to write to the registry when a machine went from the state
/// `before` to the state `after`, or `None` where nothing is to be written:
/// while a transition is in progress, and where the state did not change.
pub open spec fn status_to_write(before: VMLifecycle, after: VMLifecycle) -> Option<VMStatus> {
    if before == after {
        None
    } else {
        visible_status(after)
    }
}

/// Says what to write to the registry after a step of the supervisor.
pub fn registry_write(before: VMLifecycle, after: VMLifecycle) -> (r: Option<VMStatus>)
    ensures
        r == status_to_write(before, after),
{
    if before == after {
        return None;
    }
    stable_status(after)
}

/// The status of a machine whose registry row says `persisted` and whose
/// lifecycle state, by the supervisor's own table, is `live`. The table
/// wins: a row that claims a process that the supervisor does not have is
/// out of date, and the machine is stopped.
pub open spec fn true_status(persisted: VMStatus, live: VMLifecycle) -> VMStatus {
    match live {
        VMLifecycle::Running | VMLifecycle::Pausing => VMStatus::Running,
        VMLifecycle::Paused | VMLifecycle::Resuming => VMStatus::Paused,
        VMLifecycle::Error => VMStatus::Error,
        VMLifecycle::Stopped => if persisted == VMStatus::Error {
            VMStatus::Error
        } else {
            VMStatus::Stopped
        },
        VMLifecycle::Starting => if persisted == VMStatus::Error {
            VMStatus::Error
        } else {
            VMStatus::Stopped
        },
        VMLifecycle::Stopping => persisted,
    }
}

/// Holds the status of a registry row against the supervisor's table.
pub fn reconcile_status(persisted: VMStatus, live: VMLifecycle) -> (status: VMStatus)
    ensures
        status == true_status(persisted, live),
{
    match live {
        VMLifecycle::Running | VMLifecycle::Pausing => VMStatus::Running,
        VMLifecycle::Paused | VMLifecycle::Resuming => VMStatus::Paused,
        VMLifecycle::Error => VMStatus::Error,
        VMLifecycle::Stopped | VMLifecycle::Starting => {
            match persisted {
                VMStatus::Error => VMStatus::Error,
                _ => VMStatus::Stopped,
            }
        },
        VMLifecycle::Stopping => persisted,
    }
}

/// No row makes a machine look better than the supervisor knows it to be: a
/// machine is reported as running or paused only while the supervisor has
/// its process.
pub proof fn lemma_status_never_better_than_live(persisted: VMStatus, live: VMLifecycle)
    ensures
        (live == VMLifecycle::Stopped || live == VMLifecycle::Error || live
            == VMLifecycle::Starting) ==> true_status(persisted, live) != VMStatus::Running
            && true_status(persisted, live) != VMStatus::Paused,
        visible_status(live) is Some && live != VMLifecycle::Stopped ==> Some(
            true_status(persisted, live),
        ) == visible_status(live),
{
}

/// A request that the supervisor refuses leaves the state of the machine as
/// it was, and so nothing is written to the registry for it.
pub proof fn lemma_refusal_writes_nothing(state: VMLifecycle)
    ensures
        status_to_write(state, state) is None,
{
}

/// The requests that move a machine through its lifecycle.
#[derive(Debug, Clone, Copy, PartialEq, Eq, Structural)]
pub enum LifecycleRequest {
    Start,
    Stop,
    Pause,
    Resume,
}

/// The state in which a machine is once `request` has been carried out.
pub open spec fn target_state(request: LifecycleRequest) -> VMLifecycle {
    match request {
        LifecycleRequest::Start => VMLifecycle::Running,
        LifecycleRequest::Stop => VMLifecycle::Stopped,
        LifecycleRequest::Pause => VMLifecycle::Paused,
        LifecycleRequest::Resume => VMLifecycle::Running,
    }
}

/// The error of a request that was taken up but did not reach its state.
pub open spec fn request_failure(request: LifecycleRequest) -> ErrorView {
    match request {
        LifecycleRequest::Start => ErrorView::IoError("VM could not be started"@),
        LifecycleRequest::Stop => ErrorView::VMError("VM could not be stopped"@),
        LifecycleRequest::Pause => ErrorView::ProtocolError("VM could not be paused"@),
        LifecycleRequest::Resume => ErrorView::ProtocolError("VM could not be resumed"@),
    }
}

/// Says how a request ended, from the state in which the machine came to
/// rest: well where that is the state that the request was for.
pub fn request_outcome(request: LifecycleRequest, rest: VMLifecycle) -> (r: Result<(), Error>)
    ensures
        match r {
            Ok(_) => rest == target_state(request),
            Err(e) => rest != target_state(request) && e@ == request_failure(request),
        },
{
    match request {
        LifecycleRequest::Start => {
            if rest == VMLifecycle::Running {
                Ok(())
            } else {
                Err(Error::IoError(String::from_str("VM could not be started")))
            }
        },
        LifecycleRequest::Stop => {
            if rest == VMLifecycle::Stopped {
                Ok(())
            } else {
                Err(Error::VMError(String::from_str("VM could not be stopped")))
            }
        },
        LifecycleRequest::Pause => {
            if rest == VMLifecycle::Paused {
                Ok(())
            } else {
                Err(Error::ProtocolError(String::from_str("VM could not be paused")))
            }
        },
        LifecycleRequest::Resume => {
            if rest == VMLifecycle::Running {
                Ok(())
            } else {
                Err(Error::ProtocolError(String::from_str("VM could not be resumed")))
            }
        },
    }
}

} // verus!
