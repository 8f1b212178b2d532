//! Creating and deleting machines.
//!
//! A machine is made of a disk image and a registry row, kept by two stores
//! that know nothing of each other. The steps here say in which order the
//! stores are asked and what is undone when the second one fails, so that a
//! failed creation leaves nothing behind.

use vstd::prelude::*;
use crate::commands::{
    config_problem, map_record_to_vm, new_record, record_of_config, validate_vm_config,
    vm_of_record,
};
use crate::config::{VMRecord, VMRecordView};
use crate::text::{is_blank, text_is_blank};
use crate::{VMConfig, VMView, VM};

verus! {

/// Whether `c` is a digit or one of the letters `a` to `f`.
pub open spec fn is_lower_hex(c: char) -> bool {
    ('0' <= c <= '9') || ('a' <= c <= 'f')
}

/// Whether `s` has the form in which identifiers are generated: 36
/// characters, hyphens after the 8th, 12th, 16th and 20th digit, and
/// lower-case hexadecimal digits everywhere else.
pub open spec fn is_uuid_text(s: Seq<char>) -> bool {
    &&& s.len() == 36
    &&& forall|i: int|
        0 <= i < 36 ==> if i == 8 || i == 13 || i == 18 || i == 23 {
            #[trigger] s[i] == '-'
        } else {
            is_lower_hex(s[i])
        }
}

/// A generated identifier is never blank.
pub proof fn lemma_uuid_text_not_blank(s: Seq<char>)
    requires
        is_uuid_text(s),
    ensures
        !is_blank(s),
{
    assert(is_lower_hex(s[0]));
    assert(!crate::text::is_whitespace(s[0]));
}

/// Calls `uuid::Uuid::new_v4` and writes the identifier with its `Display`.
/// Trusted: the text has the hyphenated lower-case form. Which identifier
/// comes is left to chance, and nothing is claimed of it. The call fails
/// only where the operating system has no random numbers to give.
#[verifier::external_body]
fn new_vm_id() -> (id: String)
    ensures
        is_uuid_text(id@),
{
    uuid::Uuid::new_v4().to_string()
}

/// Where the creation of a machine stands.
#[derive(Debug)]
pub enum CreateStep {
    /// The disk of the machine is being allocated.
    AllocatingDisk(VMRecord),
    /// The disk exists; the row is being written to the registry.
    Persisting(VMRecord),
    /// The row could not be written; the disk is being deleted again.
    RollingBack { record: VMRecord, error: String },
    /// Nothing is left to do.
    Finished,
}

/// [`CreateStep`] as plain values.
pub enum CreateStepView {
    AllocatingDisk(VMRecordView),
    Persisting(VMRecordView),
    RollingBack { record: VMRecordView, error: Seq<char> },
    Finished,
}

impl View for CreateStep {
    type V = CreateStepView;

    open spec fn view(&self) -> CreateStepView {
        match self {
            CreateStep::AllocatingDisk(r) => CreateStepView::AllocatingDisk(r@),
            CreateStep::Persisting(r) => CreateStepView::Persisting(r@),
            CreateStep::RollingBack { record, error } => CreateStepView::RollingBack {
                record: record@,
                error: error@,
            },
            CreateStep::Finished => CreateStepView::Finished,
        }
    }
}

/// What the stores answered.
#[derive(Debug)]
pub enum CreateEvent {
    /// The disk was allocated.
    DiskAllocated,
    /// The disk could not be allocated.
    DiskFailed(String),
    /// The row was written.
    Persisted,
    /// The row could not be written.
    PersistFailed(String),
    /// The disk was deleted, or the attempt to delete it is over.
    DiskDeleted,
}

/// [`CreateEvent`] as plain values.
pub enum CreateEventView {
    DiskAllocated,
    DiskFailed(Seq<char>),
    Persisted,
    PersistFailed(Seq<char>),
    DiskDeleted,
}

impl View for CreateEvent {
    type V = CreateEventView;

    open spec fn view(&self) -> CreateEventView {
        match self {
            CreateEvent::DiskAllocated => CreateEventView::DiskAllocated,
            CreateEvent::DiskFailed(e) => CreateEventView::DiskFailed(e@),
            CreateEvent::Persisted => CreateEventView::Persisted,
            CreateEvent::PersistFailed(e) => CreateEventView::PersistFailed(e@),
            CreateEvent::DiskDeleted => CreateEventView::DiskDeleted,
        }
    }
}

/// What is to be done next for a creation.
#[derive(Debug)]
pub enum CreateAction {
    /// Ask the disk manager for a disk of `size_gb` GiB for the machine
    /// `vm_id`, then report [`CreateEvent::DiskAllocated`] or
    /// [`CreateEvent::DiskFailed`].
    AllocateDisk { vm_id: String, size_gb: u32 },
    /// Write the row to the registry, then report [`CreateEvent::Persisted`]
    /// or [`CreateEvent::PersistFailed`].
    Persist(VMRecord),
    /// Ask the disk manager to delete the disk of the machine `vm_id`, then
    /// report [`CreateEvent::DiskDeleted`], whether or not it could be done.
    DeleteDisk { vm_id: String },
    /// Hand the machine to the caller: it was created.
    Succeed(VM),
    /// Hand the error to the caller: nothing was created.
    Fail(String),
    /// Nothing: the event was not the one that the step waits for.
    Wait,
}

/// [`CreateAction`] as plain values.
pub enum CreateActionView {
    AllocateDisk { vm_id: Seq<char>, size_gb: u32 },
    Persist(VMRecordView),
    DeleteDisk { vm_id: Seq<char> },
    Succeed(VMView),
    Fail(Seq<char>),
    Wait,
}

impl View for CreateAction {
    type V = CreateActionView;

    open spec fn view(&self) -> CreateActionView {
        match self {
            CreateAction::AllocateDisk { vm_id, size_gb } => CreateActionView::AllocateDisk {
                vm_id: vm_id@,
                size_gb: *size_gb,
            },
            CreateAction::Persist(r) => CreateActionView::Persist(r@),
            CreateAction::DeleteDisk { vm_id } => CreateActionView::DeleteDisk { vm_id: vm_id@ },
            CreateAction::Succeed(vm) => CreateActionView::Succeed(vm@),
            CreateAction::Fail(e) => CreateActionView::Fail(e@),
            CreateAction::Wait => CreateActionView::Wait,
        }
    }
}

/// The first step of the creation of the machine `id` from `config`, and
/// what it asks for.
pub open spec fn create_begun(id: Seq<char>, config: crate::VMConfigView) -> (
    CreateStepView,
    CreateActionView,
) {
    (
        CreateStepView::AllocatingDisk(record_of_config(id, config)),
        CreateActionView::AllocateDisk { vm_id: id, size_gb: config.disk_size_gb },
    )
}

/// Begins the creation of the machine `id`. A configuration that is not
/// valid is refused before anything is asked of a store.
pub fn begin_create_as(id: String, config: &VMConfig) -> (r: Result<
    (CreateStep, CreateAction),
    String,
>)
    ensures
        match r {
            Ok(begun) => config_problem(config@) is None && (begun.0@, begun.1@) == create_begun(
                id@,
                config@,
            ),
            Err(message) => config_problem(config@) == Some(message@),
        },
{
    match validate_vm_config(config) {
        Err(message) => Err(message),
        Ok(_) => {
            let record = new_record(id.clone(), config);
            Ok(
                (
                    CreateStep::AllocatingDisk(record),
                    CreateAction::AllocateDisk { vm_id: id, size_gb: config.disk_size_gb },
                ),
            )
        },
    }
}

/// Begins the creation of a machine under a newly generated identifier.
pub fn begin_create(config: &VMConfig) -> (r: Result<(CreateStep, CreateAction), String>)
    ensures
        match r {
            Ok(begun) => config_problem(config@) is None && exists|id: Seq<char>|
                is_uuid_text(id) && (begun.0@, begun.1@) == #[trigger] create_begun(id, config@),
            Err(message) => config_problem(config@) == Some(message@),
        },
{
    match validate_vm_config(config) {
        Err(message) => Err(message),
        Ok(_) => {
            let id = new_vm_id();
            let ghost text = id@;
            let r = begin_create_as(id, config);
            proof {
                if r is Ok {
                    assert((r->Ok_0.0@, r->Ok_0.1@) == create_begun(text, config@));
                }
            }
            r
        },
    }
}

/// What the event `event` makes of the step `step`, and what is to be done
/// next. The disk comes first and the row second; where the row cannot be
/// written the disk is deleted again before the error is handed on, and the
/// error is handed on whether or not the deletion worked. An event that the
/// step does not wait for changes nothing.
pub open spec fn create_next(step: CreateStepView, event: CreateEventView) -> (
    CreateStepView,
    CreateActionView,
) {
    match (step, event) {
        (CreateStepView::AllocatingDisk(record), CreateEventView::DiskAllocated) => (
            CreateStepView::Persisting(record),
            CreateActionView::Persist(record),
        ),
        (CreateStepView::AllocatingDisk(record), CreateEventView::DiskFailed(error)) => (
            CreateStepView::Finished,
            CreateActionView::Fail(error),
        ),
        (CreateStepView::Persisting(record), CreateEventView::Persisted) => (
            CreateStepView::Finished,
            CreateActionView::Succeed(vm_of_record(record)),
        ),
        (CreateStepView::Persisting(record), CreateEventView::PersistFailed(error)) => (
            CreateStepView::RollingBack { record, error },
            CreateActionView::DeleteDisk { vm_id: record.id },
        ),
        (CreateStepView::RollingBack { record, error }, CreateEventView::DiskDeleted) => (
            CreateStepView::Finished,
            CreateActionView::Fail(error),
        ),
        _ => (step, CreateActionView::Wait),
    }
}

/// Takes the answer of a store and says what to do next.
pub fn create_step(step: CreateStep, event: CreateEvent) -> (r: (CreateStep, CreateAction))
    ensures
        (r.0@, r.1@) == create_next(step@, event@),
{
    match step {
        CreateStep::AllocatingDisk(record) => match event {
            CreateEvent::DiskAllocated => {
                let row = record.clone();
                (CreateStep::Persisting(record), CreateAction::Persist(row))
            },
            CreateEvent::DiskFailed(error) => (CreateStep::Finished, CreateAction::Fail(error)),
            _ => (CreateStep::AllocatingDisk(record), CreateAction::Wait),
        },
        CreateStep::Persisting(record) => match event {
            CreateEvent::Persisted => (
                CreateStep::Finished,
                CreateAction::Succeed(map_record_to_vm(record)),
            ),
            CreateEvent::PersistFailed(error) => {
                let vm_id = record.id.clone();
                (CreateStep::RollingBack { record, error }, CreateAction::DeleteDisk { vm_id })
            },
            _ => (CreateStep::Persisting(record), CreateAction::Wait),
        },
        CreateStep::RollingBack { record, error } => match event {
            CreateEvent::DiskDeleted => (CreateStep::Finished, CreateAction::Fail(error)),
            _ => (CreateStep::RollingBack { record, error }, CreateAction::Wait),
        },
        CreateStep::Finished => (CreateStep::Finished, CreateAction::Wait),
    }
}

/// What the two stores hold: the machines that have a disk and the machines
/// that have a row.
pub struct Stores {
    pub disks: Set<Seq<char>>,
    pub rows: Set<Seq<char>>,
}

/// The stores after `action` was carried out and worked.
pub open spec fn performed(stores: Stores, action: CreateActionView) -> Stores {
    match action {
        CreateActionView::AllocateDisk { vm_id, size_gb } => Stores {
            disks: stores.disks.insert(vm_id),
            ..stores
        },
        CreateActionView::Persist(record) => Stores {
            rows: stores.rows.insert(record.id),
            ..stores
        },
        CreateActionView::DeleteDisk { vm_id } => Stores {
            disks: stores.disks.remove(vm_id),
            ..stores
        },
        _ => stores,
    }
}

/// Rollback: when the registry fails to take the row of a new machine, the
/// next thing asked for is the deletion of the machine's disk, and only then
/// is the registry's error handed to the caller. After the deletion the
/// stores hold no disk for the machine, and the rows are what they were.
pub proof fn lemma_failed_persistence_leaves_no_disk(
    stores: Stores,
    id: Seq<char>,
    config: crate::VMConfigView,
    error: Seq<char>,
)
    ensures
        ({
            let (allocating, allocate) = create_begun(id, config);
            let with_disk = performed(stores, allocate);
            let (persisting, persist) = create_next(allocating, CreateEventView::DiskAllocated);
            let (rolling_back, delete) = create_next(
                persisting,
                CreateEventView::PersistFailed(error),
            );
            let cleaned = performed(with_disk, delete);
            let (end, fail) = create_next(rolling_back, CreateEventView::DiskDeleted);
            &&& with_disk.disks.contains(id)
            &&& persist == CreateActionView::Persist(record_of_config(id, config))
            &&& delete == CreateActionView::DeleteDisk { vm_id: id }
            &&& !cleaned.disks.contains(id)
            &&& cleaned.rows == stores.rows
            &&& fail == CreateActionView::Fail(error)
            &&& end == CreateStepView::Finished
        }),
{
}

/// A creation whose disk cannot be allocated asks nothing of the registry,
/// and one that works out asks for nothing to be deleted.
pub proof fn lemma_creation_without_rollback(
    id: Seq<char>,
    config: crate::VMConfigView,
    error: Seq<char>,
)
    ensures
        create_next(create_begun(id, config).0, CreateEventView::DiskFailed(error)) == (
            CreateStepView::Finished,
            CreateActionView::Fail(error),
        ),
        create_next(
            create_next(create_begun(id, config).0, CreateEventView::DiskAllocated).0,
            CreateEventView::Persisted,
        ) == (
            CreateStepView::Finished,
            CreateActionView::Succeed(vm_of_record(record_of_config(id, config))),
        ),
{
}

/// What a start needs of the disk manager.
#[derive(Debug, Clone, Copy, PartialEq, Eq, Structural)]
pub enum DiskNeed {
    /// The disk of the machine is there; nothing is to be allocated.
    Present,
    /// The machine has no disk yet: one of `size_gb` GiB is to be allocated
    /// before the launch plan is made.
    Allocate { size_gb: u32 },
}

/// Says what a start of the machine of `record` asks of the disk manager;
/// `disk_exists` is whether the machine has its disk.
pub fn disk_for_start(record: &VMRecord, disk_exists: bool) -> (need: DiskNeed)
    ensures
        need == if disk_exists {
            DiskNeed::Present
        } else {
            DiskNeed::Allocate { size_gb: record.disk_size_gb }
        },
{
    if disk_exists {
        DiskNeed::Present
    } else {
        DiskNeed::Allocate { size_gb: record.disk_size_gb }
    }
}

/// The parts of a deletion.
#[derive(Debug, Clone, Copy, PartialEq, Eq, Structural)]
pub enum DeleteAction {
    /// End the process of the machine, if it has one. Whether that works
    /// does not matter for what follows.
    StopProcess,
    /// Delete the disk of the machine.
    DeleteDisk,
    /// Delete the row of the machine from the registry.
    DeleteRecord,
    /// Forget the display session of the machine.
    ForgetSession,
}

/// Whether the deletion goes on when `action` fails.
pub open spec fn best_effort(action: DeleteAction) -> bool {
    action == DeleteAction::StopProcess
}

/// Says whether a deletion goes on when a part of it fails.
pub fn is_best_effort(action: DeleteAction) -> (r: bool)
    ensures
        r == best_effort(action),
{
    action == DeleteAction::StopProcess
}

/// What the deletion of the machine `id` is made of, in order; `known` says
/// whether the registry has the machine. Deleting a machine that the
/// registry does not know is done at once.
pub open spec fn deletion(id: Seq<char>, known: bool) -> Result<Seq<DeleteAction>, Seq<char>> {
    if is_blank(id) {
        Err("VM ID cannot be empty"@)
    } else if !known {
        Ok(Seq::empty())
    } else {
        Ok(
            seq![
                DeleteAction::StopProcess,
                DeleteAction::DeleteDisk,
                DeleteAction::DeleteRecord,
                DeleteAction::ForgetSession,
            ],
        )
    }
}

/// Plans the deletion of a machine.
pub fn delete_plan(id: &str, known: bool) -> (r: Result<Vec<DeleteAction>, String>)
    ensures
        match r {
            Ok(plan) => deletion(id@, known) == Ok::<Seq<DeleteAction>, Seq<char>>(plan@),
            Err(message) => deletion(id@, known) == Err::<Seq<DeleteAction>, Seq<char>>(message@),
        },
{
    if text_is_blank(id) {
        return Err(String::from_str("VM ID cannot be empty"));
    }
    let mut plan: Vec<DeleteAction> = Vec::new();
    if known {
        plan.push(DeleteAction::StopProcess);
        plan.push(DeleteAction::DeleteDisk);
        plan.push(DeleteAction::DeleteRecord);
        plan.push(DeleteAction::ForgetSession);
    }
    assert(deletion(id@, known) == Ok::<Seq<DeleteAction>, Seq<char>>(plan@)) by {
        if known {
            assert(plan@ =~= seq![
                DeleteAction::StopProcess,
                DeleteAction::DeleteDisk,
                DeleteAction::DeleteRecord,
                DeleteAction::ForgetSession,
            ]);
        } else {
            assert(plan@ =~= Seq::<DeleteAction>::empty());
        }
    }
    Ok(plan)
}

} // verus!
