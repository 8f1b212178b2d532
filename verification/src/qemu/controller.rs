//! Supervision of the hypervisor processes.
//!
//! A [`QemuController`] keeps, for each machine that it supervises, the
//! lifecycle state, what is known of the process and the state of the
//! control connection. It never touches a process or a socket itself: each
//! request and each thing that happened to a process or a connection is
//! handed to it as an event, and it answers with the new state and with the
//! action that its caller performs next.

use vstd::prelude::*;
use crate::error::{already_running, not_running, Error, ErrorView};
use crate::qemu::qmp::{
    after_command, command_refusal, command_text, delivery_views, fresh_client,
    lemma_received_one_message, one_message, received, without, Delivery, DeliveryView, QmpClient,
    QmpClientView, QmpCommandKind, QmpEvent, QmpMessageView, QmpRequest,
};
use crate::text::{clone_text, text_eq};

verus! {

/// How many seconds a command may wait for its answer before it is given up.
pub const COMMAND_TIMEOUT_SECS: u64 = 10;

/// How many seconds a process is granted to exit after it agreed to quit,
/// before it is terminated by force.
pub const STOP_GRACE_SECS: u64 = 10;

/// The lifecycle states of a machine.
#[derive(Debug, Clone, Copy, PartialEq, Eq, Structural)]
pub enum VMLifecycle {
    Stopped,
    Starting,
    Running,
    Pausing,
    Paused,
    Resuming,
    Stopping,
    Error,
}

/// What the controller is told: the requests of callers and what happened to
/// the process or the control connection of a machine.
#[derive(Debug, Clone, Copy, PartialEq, Eq, Structural)]
pub enum LifecycleEvent {
    /// A caller asks to freeze the guest.
    PauseRequested,
    /// A caller asks to let the guest run on.
    ResumeRequested,
    /// A caller asks to end the machine.
    StopRequested,
    /// The process was started and has this process id.
    ProcessSpawned { pid: u32 },
    /// The process could not be started.
    SpawnFailed,
    /// The hypervisor's greeting arrived on the control connection.
    Greeted,
    /// The answer to the command `id` arrived; `accepted` says whether the
    /// hypervisor did what was asked.
    Answered { id: u64, accepted: bool },
    /// The deadline of the command `id` passed without an answer.
    TimedOut { id: u64 },
    /// The control connection could not be opened or was lost.
    ConnectionLost,
    /// The process did not exit within the time granted for a graceful stop.
    GraceExpired,
    /// The process could not be terminated by force.
    KillFailed,
    /// The process has exited.
    ProcessExited,
}

/// What the caller of the controller does next.
#[derive(Debug)]
pub enum SupervisorAction {
    /// Nothing.
    Nothing,
    /// Start `program` with `args`, then report
    /// [`LifecycleEvent::ProcessSpawned`] or [`LifecycleEvent::SpawnFailed`].
    Spawn { program: String, args: Vec<String> },
    /// Open the control socket, feed what arrives on it to the controller and
    /// report [`LifecycleEvent::ConnectionLost`] when it closes.
    Connect { socket: String },
    /// Write the line of the request to the control socket; report the answer
    /// as [`LifecycleEvent::Answered`] or its absence as
    /// [`LifecycleEvent::TimedOut`].
    Send(QmpRequest),
    /// Wait a bounded time for the process to exit, then report
    /// [`LifecycleEvent::ProcessExited`] or [`LifecycleEvent::GraceExpired`].
    AwaitExit,
    /// Terminate the process by force, then report
    /// [`LifecycleEvent::ProcessExited`] or [`LifecycleEvent::KillFailed`].
    Kill,
    /// Terminate the process by force, reap it and close its connection;
    /// there is nothing to report.
    Terminate,
    /// Reap the process that has exited and close its connection.
    Release,
}

/// A [`SupervisorAction`] as plain values.
pub enum ActionView {
    Nothing,
    Spawn { program: Seq<char>, args: Seq<Seq<char>> },
    Connect { socket: Seq<char> },
    Send { id: u64, line: Seq<char> },
    AwaitExit,
    Kill,
    Terminate,
    Release,
}

impl View for SupervisorAction {
    type V = ActionView;

    open spec fn view(&self) -> ActionView {
        match self {
            SupervisorAction::Nothing => ActionView::Nothing,
            SupervisorAction::Spawn { program, args } => ActionView::Spawn {
                program: program@,
                args: args.deep_view(),
            },
            SupervisorAction::Connect { socket } => ActionView::Connect { socket: socket@ },
            SupervisorAction::Send(request) => ActionView::Send {
                id: request.id,
                line: request.line@,
            },
            SupervisorAction::AwaitExit => ActionView::AwaitExit,
            SupervisorAction::Kill => ActionView::Kill,
            SupervisorAction::Terminate => ActionView::Terminate,
            SupervisorAction::Release => ActionView::Release,
        }
    }
}

/// What is known of the process behind a machine.
#[derive(Debug)]
pub struct VMHandle {
    pub vm_id: String,
    pub pid: u32,
    pub qmp_socket: Option<String>,
}

/// A [`VMHandle`] as plain values.
pub struct VMHandleView {
    pub vm_id: Seq<char>,
    pub pid: u32,
    pub qmp_socket: Option<Seq<char>>,
}

impl View for VMHandle {
    type V = VMHandleView;

    open spec fn view(&self) -> VMHandleView {
        VMHandleView { vm_id: self.vm_id@, pid: self.pid, qmp_socket: self.qmp_socket.deep_view() }
    }
}

/// What the controller keeps of one machine.
#[derive(Debug)]
struct VMEntry {
    vm_id: String,
    state: VMLifecycle,
    fallback: VMLifecycle,
    pid: Option<u32>,
    qmp_socket: Option<String>,
    session: Option<QmpClient>,
    awaiting: Option<u64>,
}

/// What the controller keeps of one machine, as plain values.
pub struct VMEntryView {
    /// The machine.
    pub vm_id: Seq<char>,
    /// Its lifecycle state; never [`VMLifecycle::Stopped`], for a stopped
    /// machine is not kept.
    pub state: VMLifecycle,
    /// The state to go back to if a stop in progress fails.
    pub fallback: VMLifecycle,
    /// The process id, while there is a process.
    pub pid: Option<u32>,
    /// Where the control socket of the process lies.
    pub qmp_socket: Option<Seq<char>>,
    /// The control connection, while there is one.
    pub session: Option<QmpClientView>,
    /// The number of the command whose answer decides the transition in
    /// progress.
    pub awaiting: Option<u64>,
}

spec fn session_view(session: Option<QmpClient>) -> Option<QmpClientView> {
    match session {
        Some(s) => Some(s@),
        None => None,
    }
}

impl View for VMEntry {
    type V = VMEntryView;

    closed spec fn view(&self) -> VMEntryView {
        VMEntryView {
            vm_id: self.vm_id@,
            state: self.state,
            fallback: self.fallback,
            pid: self.pid,
            qmp_socket: self.qmp_socket.deep_view(),
            session: session_view(self.session),
            awaiting: self.awaiting,
        }
    }
}

/// What a step leaves of an entry, and what it answers.
pub struct StepView {
    /// The entry afterwards; `None` where the machine is supervised no longer.
    pub entry: Option<VMEntryView>,
    /// The action to perform, or the error to report.
    pub result: Result<ActionView, ErrorView>,
}

/// The entry of a machine whose start was just requested.
pub open spec fn starting_entry(vm_id: Seq<char>, qmp_socket: Option<Seq<char>>) -> VMEntryView {
    VMEntryView {
        vm_id,
        state: VMLifecycle::Starting,
        fallback: VMLifecycle::Starting,
        pid: None,
        qmp_socket,
        session: None,
        awaiting: None,
    }
}

/// The entry `e` after its machine failed: the process and the connection
/// are given up.
pub open spec fn failed(e: VMEntryView) -> VMEntryView {
    VMEntryView {
        state: VMLifecycle::Error,
        fallback: VMLifecycle::Error,
        pid: None,
        session: None,
        awaiting: None,
        ..e
    }
}

/// The entry `e` in the state `state`, with no command's answer awaited.
pub open spec fn settled(e: VMEntryView, state: VMLifecycle) -> VMEntryView {
    VMEntryView { state, awaiting: None, ..e }
}

/// A step that keeps the entry `e` and asks for `action`.
pub open spec fn proceed(e: VMEntryView, action: ActionView) -> StepView {
    StepView { entry: Some(e), result: Ok(action) }
}

/// A step that keeps the entry `e` and reports `error`.
pub open spec fn refuse(e: VMEntryView, error: ErrorView) -> StepView {
    StepView { entry: Some(e), result: Err(error) }
}

/// The error of a command for a machine that has no control connection.
pub open spec fn no_connection() -> ErrorView {
    ErrorView::ProtocolError("no control connection"@)
}

/// The error of a process that could not be terminated.
pub open spec fn kill_failed() -> ErrorView {
    ErrorView::VMError("process could not be terminated"@)
}

/// Why the command `kind` cannot be sent for the entry `e`, or `None` where
/// it can.
pub open spec fn send_problem(e: VMEntryView, kind: QmpCommandKind) -> Option<ErrorView> {
    match e.session {
        Some(s) => command_refusal(s, kind),
        None => Some(no_connection()),
    }
}

/// The entry `e` after the command `kind` was handed out for sending: the
/// entry is in the state `state` and waits for the command's answer.
pub open spec fn sent(e: VMEntryView, kind: QmpCommandKind, state: VMLifecycle) -> VMEntryView {
    VMEntryView {
        state,
        session: Some(after_command(e.session->0, kind)),
        awaiting: Some(e.session->0.next_id),
        ..e
    }
}

/// The action that sends the command `kind` for the entry `e`.
pub open spec fn send_action(e: VMEntryView, kind: QmpCommandKind) -> ActionView {
    ActionView::Send {
        id: e.session->0.next_id,
        line: command_text(kind, e.session->0.next_id),
    }
}

/// A request to freeze or to resume the guest: legal in the state `from`
/// alone; the command `kind` goes out and the entry waits in the state
/// `during` for its answer. Where the command cannot be sent the entry stays
/// as it is and the reason is reported.
pub open spec fn on_guest_command(
    e: VMEntryView,
    from: VMLifecycle,
    during: VMLifecycle,
    kind: QmpCommandKind,
) -> StepView {
    if e.state != from {
        refuse(e, not_running())
    } else {
        match send_problem(e, kind) {
            Some(problem) => refuse(e, problem),
            None => proceed(sent(e, kind, during), send_action(e, kind)),
        }
    }
}

/// A request to end the machine: legal while it runs, is paused or starts.
/// The hypervisor is asked to quit where that can be asked; otherwise the
/// process is terminated by force.
pub open spec fn on_stop(e: VMEntryView) -> StepView {
    if e.state == VMLifecycle::Running || e.state == VMLifecycle::Paused {
        let stopping = VMEntryView { fallback: e.state, ..e };
        if send_problem(e, QmpCommandKind::Quit) is None {
            proceed(
                sent(stopping, QmpCommandKind::Quit, VMLifecycle::Stopping),
                send_action(e, QmpCommandKind::Quit),
            )
        } else {
            proceed(settled(stopping, VMLifecycle::Stopping), ActionView::Kill)
        }
    } else if e.state == VMLifecycle::Starting {
        proceed(
            settled(VMEntryView { fallback: VMLifecycle::Starting, ..e }, VMLifecycle::Stopping),
            if e.pid is Some {
                ActionView::Kill
            } else {
                ActionView::Nothing
            },
        )
    } else {
        refuse(e, not_running())
    }
}

/// The process was started.
pub open spec fn on_spawned(e: VMEntryView, pid: u32) -> StepView {
    if e.state == VMLifecycle::Starting {
        match e.qmp_socket {
            Some(socket) => proceed(
                VMEntryView { pid: Some(pid), session: Some(fresh_client(socket)), ..e },
                ActionView::Connect { socket },
            ),
            None => proceed(
                VMEntryView { pid: Some(pid), state: VMLifecycle::Running, ..e },
                ActionView::Nothing,
            ),
        }
    } else if e.state == VMLifecycle::Stopping {
        proceed(VMEntryView { pid: Some(pid), ..e }, ActionView::Kill)
    } else {
        refuse(e, not_running())
    }
}

/// The process could not be started.
pub open spec fn on_spawn_failed(e: VMEntryView) -> StepView {
    if e.state == VMLifecycle::Starting {
        proceed(failed(e), ActionView::Nothing)
    } else if e.state == VMLifecycle::Stopping && e.pid is None {
        StepView { entry: None, result: Ok(ActionView::Nothing) }
    } else {
        refuse(e, not_running())
    }
}

/// The greeting arrived: while the machine starts, capabilities are
/// negotiated next. Where that cannot be asked the start fails.
pub open spec fn on_greeted(e: VMEntryView) -> StepView {
    if e.state == VMLifecycle::Starting && e.session is Some {
        if send_problem(e, QmpCommandKind::QmpCapabilities) is None {
            proceed(
                sent(e, QmpCommandKind::QmpCapabilities, VMLifecycle::Starting),
                send_action(e, QmpCommandKind::QmpCapabilities),
            )
        } else {
            proceed(failed(e), ActionView::Terminate)
        }
    } else {
        proceed(e, ActionView::Nothing)
    }
}

/// The command whose answer the entry waited for was answered or given up:
/// the transition in progress is completed where the hypervisor did what was
/// asked, and undone where it did not.
pub open spec fn on_decided(e: VMEntryView, accepted: bool) -> StepView {
    match e.state {
        VMLifecycle::Starting => if accepted {
            proceed(settled(e, VMLifecycle::Running), ActionView::Nothing)
        } else {
            proceed(failed(e), ActionView::Terminate)
        },
        VMLifecycle::Pausing => proceed(
            settled(
                e,
                if accepted {
                    VMLifecycle::Paused
                } else {
                    VMLifecycle::Running
                },
            ),
            ActionView::Nothing,
        ),
        VMLifecycle::Resuming => proceed(
            settled(
                e,
                if accepted {
                    VMLifecycle::Running
                } else {
                    VMLifecycle::Paused
                },
            ),
            ActionView::Nothing,
        ),
        VMLifecycle::Stopping => proceed(
            settled(e, VMLifecycle::Stopping),
            if accepted {
                ActionView::AwaitExit
            } else {
                ActionView::Kill
            },
        ),
        _ => proceed(settled(e, e.state), ActionView::Nothing),
    }
}

/// An answer arrived. Only the answer to the awaited command decides
/// anything.
pub open spec fn on_answered(e: VMEntryView, id: u64, accepted: bool) -> StepView {
    if e.awaiting == Some(id) {
        on_decided(e, accepted)
    } else {
        proceed(e, ActionView::Nothing)
    }
}

/// The entry `e` with the command `id` no longer waiting on its connection.
pub open spec fn forgotten(e: VMEntryView, id: u64) -> VMEntryView {
    match e.session {
        Some(s) => VMEntryView {
            session: Some(QmpClientView { pending: without(s.pending, id), ..s }),
            ..e
        },
        None => e,
    }
}

/// The deadline of a command passed: its waiter leaves, and where it was the
/// awaited command the transition in progress is undone.
pub open spec fn on_timed_out(e: VMEntryView, id: u64) -> StepView {
    if e.awaiting == Some(id) {
        on_decided(forgotten(e, id), false)
    } else {
        proceed(forgotten(e, id), ActionView::Nothing)
    }
}

/// The entry `e` with a new connection in place of the lost one.
pub open spec fn reconnecting(e: VMEntryView, state: VMLifecycle) -> VMEntryView {
    VMEntryView {
        state,
        awaiting: None,
        session: match e.qmp_socket {
            Some(socket) => Some(fresh_client(socket)),
            None => None,
        },
        ..e
    }
}

/// The action that opens the control connection of the entry `e` anew.
pub open spec fn reconnect_action(e: VMEntryView) -> ActionView {
    match e.qmp_socket {
        Some(socket) => ActionView::Connect { socket },
        None => ActionView::Nothing,
    }
}

/// The control connection was lost or could not be opened. A start fails by
/// it; a stop goes on by force; a machine that runs keeps running and is
/// connected to anew, and a transition that waited for an answer is undone.
pub open spec fn on_connection_lost(e: VMEntryView) -> StepView {
    match e.state {
        VMLifecycle::Starting => proceed(failed(e), ActionView::Terminate),
        VMLifecycle::Stopping => proceed(
            VMEntryView { session: None, awaiting: None, ..e },
            ActionView::Kill,
        ),
        VMLifecycle::Running => proceed(
            reconnecting(e, VMLifecycle::Running),
            reconnect_action(e),
        ),
        VMLifecycle::Pausing => proceed(
            reconnecting(e, VMLifecycle::Running),
            reconnect_action(e),
        ),
        VMLifecycle::Paused => proceed(reconnecting(e, VMLifecycle::Paused), reconnect_action(e)),
        VMLifecycle::Resuming => proceed(
            reconnecting(e, VMLifecycle::Paused),
            reconnect_action(e),
        ),
        _ => proceed(e, ActionView::Nothing),
    }
}

/// The time granted for a graceful stop passed.
pub open spec fn on_grace_expired(e: VMEntryView) -> StepView {
    if e.state == VMLifecycle::Stopping {
        proceed(settled(e, VMLifecycle::Stopping), ActionView::Kill)
    } else {
        proceed(e, ActionView::Nothing)
    }
}

/// The process could not be terminated: the stop has failed and the machine
/// is in the state in which the stop found it.
pub open spec fn on_kill_failed(e: VMEntryView) -> StepView {
    if e.state == VMLifecycle::Stopping {
        refuse(settled(e, e.fallback), kill_failed())
    } else {
        proceed(e, ActionView::Nothing)
    }
}

/// The process has exited. Where a stop was in progress the machine is
/// stopped and supervised no longer; otherwise the exit was not asked for and
/// the machine has failed.
pub open spec fn on_exited(e: VMEntryView) -> StepView {
    if e.state == VMLifecycle::Stopping {
        StepView { entry: None, result: Ok(ActionView::Release) }
    } else if e.state == VMLifecycle::Error {
        proceed(e, ActionView::Nothing)
    } else {
        proceed(failed(e), ActionView::Release)
    }
}

/// The step that the event `event` makes of the entry `e`.
pub open spec fn step(e: VMEntryView, event: LifecycleEvent) -> StepView {
    match event {
        LifecycleEvent::PauseRequested => on_guest_command(
            e,
            VMLifecycle::Running,
            VMLifecycle::Pausing,
            QmpCommandKind::Stop,
        ),
        LifecycleEvent::ResumeRequested => on_guest_command(
            e,
            VMLifecycle::Paused,
            VMLifecycle::Resuming,
            QmpCommandKind::Cont,
        ),
        LifecycleEvent::StopRequested => on_stop(e),
        LifecycleEvent::ProcessSpawned { pid } => on_spawned(e, pid),
        LifecycleEvent::SpawnFailed => on_spawn_failed(e),
        LifecycleEvent::Greeted => on_greeted(e),
        LifecycleEvent::Answered { id, accepted } => on_answered(e, id, accepted),
        LifecycleEvent::TimedOut { id } => on_timed_out(e, id),
        LifecycleEvent::ConnectionLost => on_connection_lost(e),
        LifecycleEvent::GraceExpired => on_grace_expired(e),
        LifecycleEvent::KillFailed => on_kill_failed(e),
        LifecycleEvent::ProcessExited => on_exited(e),
    }
}

/// What a step leaves of an entry and what it answers, as plain values.
spec fn step_view(entry: Option<VMEntry>, result: Result<SupervisorAction, Error>) -> StepView {
    StepView {
        entry: match entry {
            Some(e) => Some(e@),
            None => None,
        },
        result: match result {
            Ok(action) => Ok(action@),
            Err(e) => Err(e@),
        },
    }
}

fn not_running_error() -> (e: Error)
    ensures
        e@ == not_running(),
{
    Error::VMError(String::from_str("VM not running"))
}

fn already_running_error() -> (e: Error)
    ensures
        e@ == already_running(),
{
    Error::VMError(String::from_str("VM already running"))
}

fn is_state(a: VMLifecycle, b: VMLifecycle) -> (r: bool)
    ensures
        r == (a == b),
{
    a == b
}

impl VMEntry {
    fn starting(vm_id: String, qmp_socket: Option<String>) -> (e: Self)
        ensures
            e@ == starting_entry(vm_id@, qmp_socket.deep_view()),
    {
        VMEntry {
            vm_id,
            state: VMLifecycle::Starting,
            fallback: VMLifecycle::Starting,
            pid: None,
            qmp_socket,
            session: None,
            awaiting: None,
        }
    }

    fn fail(self) -> (e: Self)
        ensures
            e@ == failed(self@),
    {
        VMEntry {
            vm_id: self.vm_id,
            state: VMLifecycle::Error,
            fallback: VMLifecycle::Error,
            pid: None,
            qmp_socket: self.qmp_socket,
            session: None,
            awaiting: None,
        }
    }

    fn settle(self, state: VMLifecycle) -> (e: Self)
        ensures
            e@ == settled(self@, state),
    {
        let mut e = self;
        e.state = state;
        e.awaiting = None;
        e
    }

    /// Hands the command `kind` out for sending, or says why it cannot be
    /// sent and leaves the entry as it is.
    fn send(self, kind: QmpCommandKind, during: VMLifecycle) -> (r: (Self, Result<
        SupervisorAction,
        Error,
    >))
        ensures
            match send_problem(self@, kind) {
                Some(problem) => step_view(Some(r.0), r.1) == refuse(self@, problem),
                None => step_view(Some(r.0), r.1) == proceed(
                    sent(self@, kind, during),
                    send_action(self@, kind),
                ),
            },
    {
        let VMEntry { vm_id, state, fallback, pid, qmp_socket, session, awaiting } = self;
        match session {
            Some(client) => {
                let mut client = client;
                match client.begin_command(kind) {
                    Ok(request) => {
                        let id = request.id;
                        (
                            VMEntry {
                                vm_id,
                                state: during,
                                fallback,
                                pid,
                                qmp_socket,
                                session: Some(client),
                                awaiting: Some(id),
                            },
                            Ok(SupervisorAction::Send(request)),
                        )
                    },
                    Err(e) => (
                        VMEntry {
                            vm_id,
                            state,
                            fallback,
                            pid,
                            qmp_socket,
                            session: Some(client),
                            awaiting,
                        },
                        Err(e),
                    ),
                }
            },
            None => (
                VMEntry { vm_id, state, fallback, pid, qmp_socket, session: None, awaiting },
                Err(Error::ProtocolError(String::from_str("no control connection"))),
            ),
        }
    }

    fn guest_command(
        self,
        from: VMLifecycle,
        during: VMLifecycle,
        kind: QmpCommandKind,
    ) -> (r: (Option<Self>, Result<SupervisorAction, Error>))
        ensures
            step_view(r.0, r.1) == on_guest_command(self@, from, during, kind),
    {
        if !is_state(self.state, from) {
            return (Some(self), Err(not_running_error()));
        }
        let (entry, result) = self.send(kind, during);
        (Some(entry), result)
    }

    fn stop(self) -> (r: (Option<Self>, Result<SupervisorAction, Error>))
        ensures
            step_view(r.0, r.1) == on_stop(self@),
    {
        match self.state {
            VMLifecycle::Running | VMLifecycle::Paused => {
                let mut stopping = self;
                stopping.fallback = stopping.state;
                let (entry, result) = stopping.send(QmpCommandKind::Quit, VMLifecycle::Stopping);
                match result {
                    Ok(action) => (Some(entry), Ok(action)),
                    Err(_) => (
                        Some(entry.settle(VMLifecycle::Stopping)),
                        Ok(SupervisorAction::Kill),
                    ),
                }
            },
            VMLifecycle::Starting => {
                let action = if self.pid.is_some() {
                    SupervisorAction::Kill
                } else {
                    SupervisorAction::Nothing
                };
                let mut stopping = self;
                stopping.fallback = VMLifecycle::Starting;
                (Some(stopping.settle(VMLifecycle::Stopping)), Ok(action))
            },
            _ => (Some(self), Err(not_running_error())),
        }
    }

    fn spawned(self, pid: u32) -> (r: (Option<Self>, Result<SupervisorAction, Error>))
        ensures
            step_view(r.0, r.1) == on_spawned(self@, pid),
    {
        match self.state {
            VMLifecycle::Starting => {
                let mut entry = self;
                entry.pid = Some(pid);
                match clone_text(&entry.qmp_socket) {
                    Some(socket) => {
                        entry.session = Some(QmpClient::new(socket.clone()));
                        (Some(entry), Ok(SupervisorAction::Connect { socket }))
                    },
                    None => {
                        entry.state = VMLifecycle::Running;
                        (Some(entry), Ok(SupervisorAction::Nothing))
                    },
                }
            },
            VMLifecycle::Stopping => {
                let mut entry = self;
                entry.pid = Some(pid);
                (Some(entry), Ok(SupervisorAction::Kill))
            },
            _ => (Some(self), Err(not_running_error())),
        }
    }

    fn spawn_failed(self) -> (r: (Option<Self>, Result<SupervisorAction, Error>))
        ensures
            step_view(r.0, r.1) == on_spawn_failed(self@),
    {
        match self.state {
            VMLifecycle::Starting => (Some(self.fail()), Ok(SupervisorAction::Nothing)),
            VMLifecycle::Stopping => {
                if self.pid.is_none() {
                    (None, Ok(SupervisorAction::Nothing))
                } else {
                    (Some(self), Err(not_running_error()))
                }
            },
            _ => (Some(self), Err(not_running_error())),
        }
    }

    fn greeted(self) -> (r: (Option<Self>, Result<SupervisorAction, Error>))
        ensures
            step_view(r.0, r.1) == on_greeted(self@),
    {
        if is_state(self.state, VMLifecycle::Starting) && self.session.is_some() {
            let (entry, result) = self.send(QmpCommandKind::QmpCapabilities, VMLifecycle::Starting);
            match result {
                Ok(action) => (Some(entry), Ok(action)),
                Err(_) => (Some(entry.fail()), Ok(SupervisorAction::Terminate)),
            }
        } else {
            (Some(self), Ok(SupervisorAction::Nothing))
        }
    }

    fn decided(self, accepted: bool) -> (r: (Option<Self>, Result<SupervisorAction, Error>))
        ensures
            step_view(r.0, r.1) == on_decided(self@, accepted),
    {
        match self.state {
            VMLifecycle::Starting => {
                if accepted {
                    (Some(self.settle(VMLifecycle::Running)), Ok(SupervisorAction::Nothing))
                } else {
                    (Some(self.fail()), Ok(SupervisorAction::Terminate))
                }
            },
            VMLifecycle::Pausing => {
                let next = if accepted {
                    VMLifecycle::Paused
                } else {
                    VMLifecycle::Running
                };
                (Some(self.settle(next)), Ok(SupervisorAction::Nothing))
            },
            VMLifecycle::Resuming => {
                let next = if accepted {
                    VMLifecycle::Running
                } else {
                    VMLifecycle::Paused
                };
                (Some(self.settle(next)), Ok(SupervisorAction::Nothing))
            },
            VMLifecycle::Stopping => {
                let action = if accepted {
                    SupervisorAction::AwaitExit
                } else {
                    SupervisorAction::Kill
                };
                (Some(self.settle(VMLifecycle::Stopping)), Ok(action))
            },
            state => (Some(self.settle(state)), Ok(SupervisorAction::Nothing)),
        }
    }

    fn waits_for(&self, id: u64) -> (r: bool)
        ensures
            r == (self@.awaiting == Some(id)),
    {
        match self.awaiting {
            Some(awaited) => awaited == id,
            None => false,
        }
    }

    fn answered(self, id: u64, accepted: bool) -> (r: (Option<Self>, Result<
        SupervisorAction,
        Error,
    >))
        ensures
            step_view(r.0, r.1) == on_answered(self@, id, accepted),
    {
        if self.waits_for(id) {
            self.decided(accepted)
        } else {
            (Some(self), Ok(SupervisorAction::Nothing))
        }
    }

    fn forget(self, id: u64) -> (e: Self)
        ensures
            e@ == forgotten(self@, id),
    {
        let VMEntry { vm_id, state, fallback, pid, qmp_socket, session, awaiting } = self;
        let session = match session {
            Some(client) => {
                let mut client = client;
                client.cancel(id);
                Some(client)
            },
            None => None,
        };
        VMEntry { vm_id, state, fallback, pid, qmp_socket, session, awaiting }
    }

    fn timed_out(self, id: u64) -> (r: (Option<Self>, Result<SupervisorAction, Error>))
        ensures
            step_view(r.0, r.1) == on_timed_out(self@, id),
    {
        let waited = self.waits_for(id);
        let entry = self.forget(id);
        if waited {
            entry.decided(false)
        } else {
            (Some(entry), Ok(SupervisorAction::Nothing))
        }
    }

    fn reconnect(self, state: VMLifecycle) -> (r: (Option<Self>, Result<SupervisorAction, Error>))
        ensures
            step_view(r.0, r.1) == proceed(reconnecting(self@, state), reconnect_action(self@)),
    {
        let mut entry = self;
        entry.state = state;
        entry.awaiting = None;
        match clone_text(&entry.qmp_socket) {
            Some(socket) => {
                entry.session = Some(QmpClient::new(socket.clone()));
                (Some(entry), Ok(SupervisorAction::Connect { socket }))
            },
            None => {
                entry.session = None;
                (Some(entry), Ok(SupervisorAction::Nothing))
            },
        }
    }

    fn connection_lost(self) -> (r: (Option<Self>, Result<SupervisorAction, Error>))
        ensures
            step_view(r.0, r.1) == on_connection_lost(self@),
    {
        match self.state {
            VMLifecycle::Starting => (Some(self.fail()), Ok(SupervisorAction::Terminate)),
            VMLifecycle::Stopping => {
                let mut entry = self;
                entry.session = None;
                entry.awaiting = None;
                (Some(entry), Ok(SupervisorAction::Kill))
            },
            VMLifecycle::Running | VMLifecycle::Pausing => self.reconnect(VMLifecycle::Running),
            VMLifecycle::Paused | VMLifecycle::Resuming => self.reconnect(VMLifecycle::Paused),
            _ => (Some(self), Ok(SupervisorAction::Nothing)),
        }
    }

    fn grace_expired(self) -> (r: (Option<Self>, Result<SupervisorAction, Error>))
        ensures
            step_view(r.0, r.1) == on_grace_expired(self@),
    {
        if is_state(self.state, VMLifecycle::Stopping) {
            (Some(self.settle(VMLifecycle::Stopping)), Ok(SupervisorAction::Kill))
        } else {
            (Some(self), Ok(SupervisorAction::Nothing))
        }
    }

    fn kill_failed(self) -> (r: (Option<Self>, Result<SupervisorAction, Error>))
        ensures
            step_view(r.0, r.1) == on_kill_failed(self@),
    {
        if is_state(self.state, VMLifecycle::Stopping) {
            let back = self.fallback;
            (
                Some(self.settle(back)),
                Err(Error::VMError(String::from_str("process could not be terminated"))),
            )
        } else {
            (Some(self), Ok(SupervisorAction::Nothing))
        }
    }

    fn exited(self) -> (r: (Option<Self>, Result<SupervisorAction, Error>))
        ensures
            step_view(r.0, r.1) == on_exited(self@),
    {
        match self.state {
            VMLifecycle::Stopping => (None, Ok(SupervisorAction::Release)),
            VMLifecycle::Error => (Some(self), Ok(SupervisorAction::Nothing)),
            _ => (Some(self.fail()), Ok(SupervisorAction::Release)),
        }
    }

    /// Makes the step that `event` asks for.
    fn step(self, event: LifecycleEvent) -> (r: (Option<Self>, Result<SupervisorAction, Error>))
        ensures
            step_view(r.0, r.1) == step(self@, event),
    {
        match event {
            LifecycleEvent::PauseRequested => self.guest_command(
                VMLifecycle::Running,
                VMLifecycle::Pausing,
                QmpCommandKind::Stop,
            ),
            LifecycleEvent::ResumeRequested => self.guest_command(
                VMLifecycle::Paused,
                VMLifecycle::Resuming,
                QmpCommandKind::Cont,
            ),
            LifecycleEvent::StopRequested => self.stop(),
            LifecycleEvent::ProcessSpawned { pid } => self.spawned(pid),
            LifecycleEvent::SpawnFailed => self.spawn_failed(),
            LifecycleEvent::Greeted => self.greeted(),
            LifecycleEvent::Answered { id, accepted } => self.answered(id, accepted),
            LifecycleEvent::TimedOut { id } => self.timed_out(id),
            LifecycleEvent::ConnectionLost => self.connection_lost(),
            LifecycleEvent::GraceExpired => self.grace_expired(),
            LifecycleEvent::KillFailed => self.kill_failed(),
            LifecycleEvent::ProcessExited => self.exited(),
        }
    }
}

/// The event that a delivery on the control connection is for the
/// supervision of the machine: the greeting and the answers count, events of
/// the guest and messages that were dropped do not.
pub open spec fn event_of(delivery: DeliveryView) -> Option<LifecycleEvent> {
    match delivery {
        DeliveryView::Greeted => Some(LifecycleEvent::Greeted),
        DeliveryView::Completed { id, value } => Some(
            LifecycleEvent::Answered { id, accepted: true },
        ),
        DeliveryView::Failed { id, error } => Some(
            LifecycleEvent::Answered { id, accepted: false },
        ),
        DeliveryView::Notified => None,
        DeliveryView::Rejected(e) => None,
    }
}

/// Says which event, if any, a delivery is to be reported as.
pub fn delivery_event(delivery: &Delivery) -> (event: Option<LifecycleEvent>)
    ensures
        event == event_of(delivery@),
{
    match delivery {
        Delivery::Greeted => Some(LifecycleEvent::Greeted),
        Delivery::Completed { id, value } => Some(
            LifecycleEvent::Answered { id: *id, accepted: true },
        ),
        Delivery::Failed { id, error } => Some(
            LifecycleEvent::Answered { id: *id, accepted: false },
        ),
        Delivery::Notified => None,
        Delivery::Rejected(_) => None,
    }
}

/// Whether the entry at `at` is the first of `entries` for the machine `id`.
pub open spec fn first_entry(entries: Seq<VMEntryView>, id: Seq<char>, at: int) -> bool {
    &&& 0 <= at < entries.len()
    &&& entries[at].vm_id == id
    &&& forall|j: int| 0 <= j < at ==> (#[trigger] entries[j]).vm_id != id
}

/// Where the machine `id` is kept in `entries`, if it is supervised.
pub open spec fn position(entries: Seq<VMEntryView>, id: Seq<char>) -> Option<int> {
    if exists|at: int| first_entry(entries, id, at) {
        Some(choose|at: int| first_entry(entries, id, at))
    } else {
        None
    }
}

/// The first entry of a machine is the one that [`position`] names.
pub proof fn lemma_position_found(entries: Seq<VMEntryView>, id: Seq<char>, at: int)
    requires
        first_entry(entries, id, at),
    ensures
        position(entries, id) == Some(at),
{
    let chosen = choose|k: int| first_entry(entries, id, k);
    assert(first_entry(entries, id, chosen));
    if chosen < at {
        assert(entries[chosen].vm_id != id);
    }
    if at < chosen {
        assert(entries[at].vm_id != id);
    }
}

/// A machine without an entry has no position.
pub proof fn lemma_position_absent(entries: Seq<VMEntryView>, id: Seq<char>)
    requires
        forall|j: int| 0 <= j < entries.len() ==> (#[trigger] entries[j]).vm_id != id,
    ensures
        position(entries, id) is None,
{
    if exists|at: int| first_entry(entries, id, at) {
        let at = choose|at: int| first_entry(entries, id, at);
        assert(entries[at].vm_id != id);
    }
}

/// The lifecycle state of the machine `id`: a machine that is not supervised
/// is stopped.
pub open spec fn state_of(entries: Seq<VMEntryView>, id: Seq<char>) -> VMLifecycle {
    match position(entries, id) {
        Some(at) => entries[at].state,
        None => VMLifecycle::Stopped,
    }
}

/// The machines of `entries` that have a process, in the order in which they
/// came under supervision.
pub open spec fn running_ids(entries: Seq<VMEntryView>) -> Seq<Seq<char>>
    decreases entries.len(),
{
    if entries.len() == 0 {
        Seq::empty()
    } else if entries.last().pid is Some {
        running_ids(entries.drop_last()).push(entries.last().vm_id)
    } else {
        running_ids(entries.drop_last())
    }
}

/// A [`QemuController`] as plain values.
pub struct QemuControllerView {
    /// The hypervisor binary that machines are started with.
    pub qemu_path: Seq<char>,
    /// The supervised machines, in the order in which they came under
    /// supervision.
    pub entries: Seq<VMEntryView>,
}

/// What a request to start the machine `id` makes of `c` and what it
/// answers: a machine that is stopped comes under supervision, one that has
/// failed starts over, and for both the process is to be spawned. Any other
/// machine is up already: the request is refused and nothing changes.
pub open spec fn started(
    c: QemuControllerView,
    id: Seq<char>,
    args: Seq<Seq<char>>,
    qmp_socket: Option<Seq<char>>,
) -> (QemuControllerView, Result<ActionView, ErrorView>) {
    let spawn = ActionView::Spawn { program: c.qemu_path, args };
    match position(c.entries, id) {
        None => (
            QemuControllerView { entries: c.entries.push(starting_entry(id, qmp_socket)), ..c },
            Ok(spawn),
        ),
        Some(at) => if c.entries[at].state == VMLifecycle::Error {
            (
                QemuControllerView {
                    entries: c.entries.update(at, starting_entry(id, qmp_socket)),
                    ..c
                },
                Ok(spawn),
            )
        } else {
            (c, Err(already_running()))
        },
    }
}

/// What the event `event` for the machine `id` makes of `c` and what it
/// answers. A machine that is not supervised has nothing that could be
/// paused, resumed, stopped or reported on: the answer is that it is not
/// running, and nothing changes.
pub open spec fn handled(c: QemuControllerView, id: Seq<char>, event: LifecycleEvent) -> (
    QemuControllerView,
    Result<ActionView, ErrorView>,
) {
    match position(c.entries, id) {
        None => (c, Err(not_running())),
        Some(at) => {
            let made = step(c.entries[at], event);
            (
                QemuControllerView {
                    entries: match made.entry {
                        Some(e) => c.entries.update(at, e),
                        None => c.entries.remove(at),
                    },
                    ..c
                },
                made.result,
            )
        },
    }
}

/// What bytes arriving on the control connection of the machine `id` make of
/// `c`, and what is to be done with the messages that they complete. Bytes
/// for a machine without a connection are dropped.
pub open spec fn fed_to(c: QemuControllerView, id: Seq<char>, chunk: Seq<u8>) -> (
    QemuControllerView,
    Seq<DeliveryView>,
) {
    match position(c.entries, id) {
        None => (c, Seq::empty()),
        Some(at) => match c.entries[at].session {
            None => (c, Seq::empty()),
            Some(session) => (
                QemuControllerView {
                    entries: c.entries.update(
                        at,
                        VMEntryView {
                            session: Some(received(session, chunk).1),
                            ..c.entries[at]
                        },
                    ),
                    ..c
                },
                received(session, chunk).0,
            ),
        },
    }
}

/// An action or an error as plain values.
pub open spec fn outcome_view(r: Result<SupervisorAction, Error>) -> Result<
    ActionView,
    ErrorView,
> {
    match r {
        Ok(action) => Ok(action@),
        Err(e) => Err(e@),
    }
}

spec fn entry_views(entries: Seq<VMEntry>) -> Seq<VMEntryView> {
    Seq::new(entries.len(), |i: int| entries[i]@)
}

/// The supervisor of the hypervisor processes.
#[derive(Debug)]
pub struct QemuController {
    qemu_path: String,
    entries: Vec<VMEntry>,
}

impl View for QemuController {
    type V = QemuControllerView;

    closed spec fn view(&self) -> QemuControllerView {
        QemuControllerView { qemu_path: self.qemu_path@, entries: entry_views(self.entries@) }
    }
}

impl QemuController {
    /// A controller that supervises nothing and starts machines with the
    /// hypervisor binary at `qemu_path`.
    pub fn new(qemu_path: String) -> (c: Self)
        ensures
            c@ == (QemuControllerView { qemu_path: qemu_path@, entries: Seq::empty() }),
    {
        let c = QemuController { qemu_path, entries: Vec::new() };
        assert(entry_views(c.entries@) =~= Seq::<VMEntryView>::empty());
        c
    }

    fn find(&self, vm_id: &str) -> (r: Option<usize>)
        ensures
            match r {
                Some(at) => position(self@.entries, vm_id@) == Some(at as int) && at
                    < self.entries@.len(),
                None => position(self@.entries, vm_id@) is None,
            },
    {
        let mut i: usize = 0;
        while i < self.entries.len()
            invariant
                i <= self.entries@.len(),
                forall|j: int| 0 <= j < i ==> (#[trigger] self@.entries[j]).vm_id != vm_id@,
            decreases self.entries.len() - i,
        {
            assert(self@.entries[i as int] == self.entries@[i as int]@);
            if text_eq(self.entries[i].vm_id.as_str(), vm_id) {
                proof {
                    lemma_position_found(self@.entries, vm_id@, i as int);
                }
                return Some(i);
            }
            i += 1;
        }
        proof {
            lemma_position_absent(self@.entries, vm_id@);
        }
        None
    }

    /// Takes a request to start the machine `vm_id` with the arguments
    /// `qemu_args`, its control socket at `qmp_socket`.
    pub fn start_vm(&mut self, vm_id: &str, qemu_args: Vec<String>, qmp_socket: Option<String>) -> (r:
        Result<SupervisorAction, Error>)
        ensures
            final(self)@ == started(
                old(self)@,
                vm_id@,
                qemu_args.deep_view(),
                qmp_socket.deep_view(),
            ).0,
            outcome_view(r) == started(
                old(self)@,
                vm_id@,
                qemu_args.deep_view(),
                qmp_socket.deep_view(),
            ).1,
    {
        let ghost before = self@.entries;
        match self.find(vm_id) {
            None => {
                let entry = VMEntry::starting(String::from_str(vm_id), qmp_socket);
                let ghost e = entry@;
                self.entries.push(entry);
                assert(entry_views(self.entries@) =~= before.push(e));
            },
            Some(at) => {
                assert(before[at as int] == self.entries@[at as int]@);
                match self.entries[at].state {
                    VMLifecycle::Error => {
                        let entry = VMEntry::starting(String::from_str(vm_id), qmp_socket);
                        let ghost e = entry@;
                        self.entries.set(at, entry);
                        assert(entry_views(self.entries@) =~= before.update(at as int, e));
                    },
                    _ => {
                        return Err(already_running_error());
                    },
                }
            },
        }
        Ok(SupervisorAction::Spawn { program: self.qemu_path.clone(), args: qemu_args })
    }

    /// Takes an event for the machine `vm_id`: makes the step that it asks
    /// for and says what to do next.
    pub fn handle(&mut self, vm_id: &str, event: LifecycleEvent) -> (r: Result<
        SupervisorAction,
        Error,
    >)
        ensures
            final(self)@ == handled(old(self)@, vm_id@, event).0,
            outcome_view(r) == handled(old(self)@, vm_id@, event).1,
    {
        let ghost before = self@.entries;
        match self.find(vm_id) {
            None => Err(not_running_error()),
            Some(at) => {
                assert(before[at as int] == self.entries@[at as int]@);
                let entry = self.entries.remove(at);
                let (next, result) = entry.step(event);
                match next {
                    Some(e) => {
                        let ghost ev = e@;
                        self.entries.insert(at, e);
                        assert(entry_views(self.entries@) =~= before.update(at as int, ev));
                    },
                    None => {
                        assert(entry_views(self.entries@) =~= before.remove(at as int));
                    },
                }
                result
            },
        }
    }

    /// Takes a request to end the machine `vm_id`.
    pub fn stop_vm(&mut self, vm_id: &str) -> (r: Result<SupervisorAction, Error>)
        ensures
            final(self)@ == handled(old(self)@, vm_id@, LifecycleEvent::StopRequested).0,
            outcome_view(r) == handled(old(self)@, vm_id@, LifecycleEvent::StopRequested).1,
    {
        self.handle(vm_id, LifecycleEvent::StopRequested)
    }

    /// Takes a request to freeze the guest of the machine `vm_id`.
    pub fn pause_vm(&mut self, vm_id: &str) -> (r: Result<SupervisorAction, Error>)
        ensures
            final(self)@ == handled(old(self)@, vm_id@, LifecycleEvent::PauseRequested).0,
            outcome_view(r) == handled(old(self)@, vm_id@, LifecycleEvent::PauseRequested).1,
    {
        self.handle(vm_id, LifecycleEvent::PauseRequested)
    }

    /// Takes a request to let the guest of the machine `vm_id` run on.
    pub fn resume_vm(&mut self, vm_id: &str) -> (r: Result<SupervisorAction, Error>)
        ensures
            final(self)@ == handled(old(self)@, vm_id@, LifecycleEvent::ResumeRequested).0,
            outcome_view(r) == handled(old(self)@, vm_id@, LifecycleEvent::ResumeRequested).1,
    {
        self.handle(vm_id, LifecycleEvent::ResumeRequested)
    }

    /// Takes in bytes that arrived on the control connection of the machine
    /// `vm_id` and says what to do with each message that they complete.
    pub fn receive(&mut self, vm_id: &str, chunk: &[u8]) -> (deliveries: Vec<Delivery>)
        ensures
            final(self)@ == fed_to(old(self)@, vm_id@, chunk@).0,
            delivery_views(deliveries@) == fed_to(old(self)@, vm_id@, chunk@).1,
    {
        let ghost before = self@.entries;
        match self.find(vm_id) {
            None => {
                let deliveries: Vec<Delivery> = Vec::new();
                assert(delivery_views(deliveries@) =~= Seq::<DeliveryView>::empty());
                deliveries
            },
            Some(at) => {
                assert(before[at as int] == self.entries@[at as int]@);
                let entry = self.entries.remove(at);
                let VMEntry { vm_id, state, fallback, pid, qmp_socket, session, awaiting } = entry;
                let (session, deliveries) = match session {
                    Some(client) => {
                        let mut client = client;
                        let deliveries = client.receive(chunk);
                        (Some(client), deliveries)
                    },
                    None => {
                        let deliveries: Vec<Delivery> = Vec::new();
                        assert(delivery_views(deliveries@) =~= Seq::<DeliveryView>::empty());
                        (None, deliveries)
                    },
                };
                let entry = VMEntry { vm_id, state, fallback, pid, qmp_socket, session, awaiting };
                let ghost ev = entry@;
                self.entries.insert(at, entry);
                assert(entry_views(self.entries@) =~= before.update(at as int, ev));
                assert(before[at as int].session is None ==> ev == before[at as int]);
                assert(ev == before[at as int] ==> entry_views(self.entries@) =~= before);
                deliveries
            },
        }
    }

    /// The lifecycle state of the machine `vm_id`.
    pub fn state_of(&self, vm_id: &str) -> (state: VMLifecycle)
        ensures
            state == state_of(self@.entries, vm_id@),
    {
        match self.find(vm_id) {
            Some(at) => {
                assert(self@.entries[at as int] == self.entries@[at as int]@);
                self.entries[at].state
            },
            None => VMLifecycle::Stopped,
        }
    }

    /// Whether the machine `vm_id` is up and its guest runs.
    pub fn is_running(&self, vm_id: &str) -> (running: bool)
        ensures
            running == (state_of(self@.entries, vm_id@) == VMLifecycle::Running),
    {
        is_state(self.state_of(vm_id), VMLifecycle::Running)
    }

    /// What is known of the process of the machine `vm_id`, while it has one.
    pub fn handle_of(&self, vm_id: &str) -> (handle: Option<VMHandle>)
        ensures
            match position(self@.entries, vm_id@) {
                Some(at) => match self@.entries[at].pid {
                    Some(pid) => handle.is_some() && handle.unwrap()@ == (VMHandleView {
                        vm_id: vm_id@,
                        pid,
                        qmp_socket: self@.entries[at].qmp_socket,
                    }),
                    None => handle.is_none(),
                },
                None => handle.is_none(),
            },
    {
        match self.find(vm_id) {
            Some(at) => {
                assert(self@.entries[at as int] == self.entries@[at as int]@);
                match self.entries[at].pid {
                    Some(pid) => Some(
                        VMHandle {
                            vm_id: String::from_str(vm_id),
                            pid,
                            qmp_socket: clone_text(&self.entries[at].qmp_socket),
                        },
                    ),
                    None => None,
                }
            },
            None => None,
        }
    }

    /// The machines that have a process, in the order in which they came
    /// under supervision.
    pub fn get_running_vms(&self) -> (ids: Vec<String>)
        ensures
            ids.deep_view() == running_ids(self@.entries),
    {
        let ghost all = self@.entries;
        let mut ids: Vec<String> = Vec::new();
        let mut i: usize = 0;
        assert(all.take(0) =~= Seq::<VMEntryView>::empty());
        assert(ids.deep_view() =~= running_ids(all.take(0)));
        while i < self.entries.len()
            invariant
                i <= self.entries@.len(),
                all == self@.entries,
                ids.deep_view() == running_ids(all.take(i as int)),
            decreases self.entries.len() - i,
        {
            assert(all.take(i + 1).drop_last() =~= all.take(i as int));
            assert(all.take(i + 1).last() == self.entries@[i as int]@);
            if self.entries[i].pid.is_some() {
                let ghost before = ids.deep_view();
                let id = self.entries[i].vm_id.clone();
                ids.push(id);
                assert(ids.deep_view() =~= before.push(self.entries@[i as int].vm_id@));
            }
            i += 1;
        }
        assert(all.take(i as int) =~= all);
        ids
    }

    /// Takes the oldest event that the hypervisor of the machine `vm_id` sent
    /// and nobody has taken yet.
    pub fn next_event(&mut self, vm_id: &str) -> (event: Option<QmpEvent>)
        ensures
            match position(old(self)@.entries, vm_id@) {
                Some(at) => match old(self)@.entries[at].session {
                    Some(session) => if session.events.len() > 0 {
                        &&& event.is_some()
                        &&& event.unwrap()@ == session.events[0]
                        &&& final(self)@ == (QemuControllerView {
                            entries: old(self)@.entries.update(
                                at,
                                VMEntryView {
                                    session: Some(
                                        QmpClientView {
                                            events: session.events.drop_first(),
                                            ..session
                                        },
                                    ),
                                    ..old(self)@.entries[at]
                                },
                            ),
                            ..old(self)@
                        })
                    } else {
                        event.is_none() && final(self)@ == old(self)@
                    },
                    None => event.is_none() && final(self)@ == old(self)@,
                },
                None => event.is_none() && final(self)@ == old(self)@,
            },
    {
        let ghost before = self@.entries;
        match self.find(vm_id) {
            None => None,
            Some(at) => {
                assert(before[at as int] == self.entries@[at as int]@);
                let entry = self.entries.remove(at);
                let VMEntry { vm_id, state, fallback, pid, qmp_socket, session, awaiting } = entry;
                let (session, event) = match session {
                    Some(client) => {
                        let mut client = client;
                        let event = client.next_event();
                        (Some(client), event)
                    },
                    None => (None, None),
                };
                let entry = VMEntry { vm_id, state, fallback, pid, qmp_socket, session, awaiting };
                let ghost ev = entry@;
                self.entries.insert(at, entry);
                assert(entry_views(self.entries@) =~= before.update(at as int, ev));
                assert(ev == before[at as int] ==> entry_views(self.entries@) =~= before);
                event
            },
        }
    }
}

/// What holds of every entry that the controller keeps: a stopped machine is
/// not kept, a failed machine has neither process nor connection, a machine
/// that is up has a process, a connection exists only beside a process, and
/// an answer is awaited only on a connection.
pub open spec fn entry_consistent(e: VMEntryView) -> bool {
    &&& e.state != VMLifecycle::Stopped
    &&& e.state == VMLifecycle::Error ==> e.pid is None
    &&& (e.state == VMLifecycle::Running || e.state == VMLifecycle::Pausing || e.state
        == VMLifecycle::Paused || e.state == VMLifecycle::Resuming) ==> e.pid is Some
    &&& e.session is Some ==> e.pid is Some
    &&& e.awaiting is Some ==> e.session is Some
    &&& e.state == VMLifecycle::Stopping ==> (e.fallback == VMLifecycle::Running || e.fallback
        == VMLifecycle::Paused || e.fallback == VMLifecycle::Starting)
    &&& e.state == VMLifecycle::Stopping && e.fallback != VMLifecycle::Starting ==> e.pid is Some
}

/// No step breaks what holds of an entry, and no step gives a machine
/// another name.
pub proof fn lemma_step_keeps_consistent(e: VMEntryView, event: LifecycleEvent)
    ensures
        step(e, event).entry matches Some(next) ==> next.vm_id == e.vm_id,
        entry_consistent(e) ==> (step(e, event).entry matches Some(next) ==> entry_consistent(
            next,
        )),
{
}

/// Whether every entry of `entries` is consistent and no machine has two.
pub open spec fn supervised_once(entries: Seq<VMEntryView>) -> bool {
    &&& forall|i: int| 0 <= i < entries.len() ==> entry_consistent(#[trigger] entries[i])
    &&& forall|i: int, j: int|
        0 <= i < entries.len() && 0 <= j < entries.len() && i != j ==> (#[trigger] entries[i]).vm_id
            != (#[trigger] entries[j]).vm_id
}

/// A controller that supervises every machine at most once stays so, whatever
/// is started and whatever happens.
pub proof fn lemma_supervised_once_kept(
    c: QemuControllerView,
    id: Seq<char>,
    args: Seq<Seq<char>>,
    qmp_socket: Option<Seq<char>>,
    event: LifecycleEvent,
)
    requires
        supervised_once(c.entries),
    ensures
        supervised_once(started(c, id, args, qmp_socket).0.entries),
        supervised_once(handled(c, id, event).0.entries),
{
    let after_start = started(c, id, args, qmp_socket).0.entries;
    let after_event = handled(c, id, event).0.entries;
    match position(c.entries, id) {
        None => {
            assert forall|j: int| 0 <= j < c.entries.len() implies (#[trigger] c.entries[j]).vm_id
                != id by {
                if c.entries[j].vm_id == id {
                    lemma_position_exists(c.entries, id, j);
                }
            }
            assert forall|i: int| 0 <= i < after_start.len() implies entry_consistent(
                #[trigger] after_start[i],
            ) by {
                if i < c.entries.len() {
                    assert(after_start[i] == c.entries[i]);
                }
            }
            assert forall|i: int, j: int|
                0 <= i < after_start.len() && 0 <= j < after_start.len() && i != j implies (
            #[trigger] after_start[i]).vm_id != (#[trigger] after_start[j]).vm_id by {
                if i < c.entries.len() {
                    assert(after_start[i] == c.entries[i]);
                }
                if j < c.entries.len() {
                    assert(after_start[j] == c.entries[j]);
                }
            }
        },
        Some(at) => {
            assert(first_entry(c.entries, id, at));
            lemma_step_keeps_consistent(c.entries[at], event);
            assert forall|i: int| 0 <= i < after_start.len() implies entry_consistent(
                #[trigger] after_start[i],
            ) by {
                if i != at {
                    assert(after_start[i] == c.entries[i]);
                }
            }
            assert forall|i: int, j: int|
                0 <= i < after_start.len() && 0 <= j < after_start.len() && i != j implies (
            #[trigger] after_start[i]).vm_id != (#[trigger] after_start[j]).vm_id by {
                assert(after_start[i].vm_id == c.entries[i].vm_id);
                assert(after_start[j].vm_id == c.entries[j].vm_id);
            }
            match step(c.entries[at], event).entry {
                Some(next) => {
                    assert forall|i: int| 0 <= i < after_event.len() implies entry_consistent(
                        #[trigger] after_event[i],
                    ) by {
                        if i != at {
                            assert(after_event[i] == c.entries[i]);
                        }
                    }
                    assert forall|i: int, j: int|
                        0 <= i < after_event.len() && 0 <= j < after_event.len() && i
                            != j implies (#[trigger] after_event[i]).vm_id != (
                    #[trigger] after_event[j]).vm_id by {
                        assert(after_event[i].vm_id == c.entries[i].vm_id);
                        assert(after_event[j].vm_id == c.entries[j].vm_id);
                    }
                },
                None => {
                    assert forall|i: int| 0 <= i < after_event.len() implies entry_consistent(
                        #[trigger] after_event[i],
                    ) by {
                        if i < at {
                            assert(after_event[i] == c.entries[i]);
                        } else {
                            assert(after_event[i] == c.entries[i + 1]);
                        }
                    }
                    assert forall|i: int, j: int|
                        0 <= i < after_event.len() && 0 <= j < after_event.len() && i
                            != j implies (#[trigger] after_event[i]).vm_id != (
                    #[trigger] after_event[j]).vm_id by {
                        let oi = if i < at {
                            i
                        } else {
                            i + 1
                        };
                        let oj = if j < at {
                            j
                        } else {
                            j + 1
                        };
                        assert(after_event[i] == c.entries[oi]);
                        assert(after_event[j] == c.entries[oj]);
                    }
                },
            }
        },
    }
}

/// Bytes that arrive on a connection leave every machine supervised once and
/// its entry consistent.
pub proof fn lemma_supervised_once_kept_by_bytes(
    c: QemuControllerView,
    id: Seq<char>,
    chunk: Seq<u8>,
)
    requires
        supervised_once(c.entries),
    ensures
        supervised_once(fed_to(c, id, chunk).0.entries),
{
    let after = fed_to(c, id, chunk).0.entries;
    match position(c.entries, id) {
        Some(at) => {
            assert(first_entry(c.entries, id, at));
            if c.entries[at].session is Some {
                assert forall|i: int| 0 <= i < after.len() implies entry_consistent(
                    #[trigger] after[i],
                ) by {
                    if i != at {
                        assert(after[i] == c.entries[i]);
                    } else {
                        assert(entry_consistent(c.entries[at]));
                    }
                }
                assert forall|i: int, j: int|
                    0 <= i < after.len() && 0 <= j < after.len() && i != j implies (
                #[trigger] after[i]).vm_id != (#[trigger] after[j]).vm_id by {
                    assert(after[i].vm_id == c.entries[i].vm_id);
                    assert(after[j].vm_id == c.entries[j].vm_id);
                }
            }
        },
        None => {},
    }
}

/// A machine that has an entry has a position.
pub proof fn lemma_position_exists(entries: Seq<VMEntryView>, id: Seq<char>, at: int)
    requires
        0 <= at < entries.len(),
        entries[at].vm_id == id,
    ensures
        position(entries, id) is Some,
    decreases at,
{
    if forall|j: int| 0 <= j < at ==> (#[trigger] entries[j]).vm_id != id {
        assert(first_entry(entries, id, at));
    } else {
        let j = choose|j: int| 0 <= j < at && (#[trigger] entries[j]).vm_id == id;
        lemma_position_exists(entries, id, j);
    }
}

/// What the controller keeps of the machine `id`, if it is supervised.
pub open spec fn entry_of(entries: Seq<VMEntryView>, id: Seq<char>) -> Option<VMEntryView> {
    match position(entries, id) {
        Some(at) => Some(entries[at]),
        None => None,
    }
}

proof fn lemma_entry_of_survives_update(
    entries: Seq<VMEntryView>,
    at: int,
    e: VMEntryView,
    other: Seq<char>,
)
    requires
        0 <= at < entries.len(),
        e.vm_id == entries[at].vm_id,
        entries[at].vm_id != other,
    ensures
        entry_of(entries.update(at, e), other) == entry_of(entries, other),
{
    let after = entries.update(at, e);
    assert forall|j: int| 0 <= j < entries.len() implies (#[trigger] after[j]).vm_id
        == entries[j].vm_id by {}
    match position(entries, other) {
        Some(k) => {
            assert(first_entry(entries, other, k));
            assert forall|j: int| 0 <= j < k implies (#[trigger] after[j]).vm_id != other by {
                assert(entries[j].vm_id != other);
            }
            assert(first_entry(after, other, k));
            lemma_position_found(after, other, k);
        },
        None => {
            lemma_position_none(entries, other);
            assert forall|j: int| 0 <= j < after.len() implies (#[trigger] after[j]).vm_id
                != other by {
                assert(entries[j].vm_id != other);
            }
            lemma_position_absent(after, other);
        },
    }
}

proof fn lemma_entry_of_survives_push(entries: Seq<VMEntryView>, e: VMEntryView, other: Seq<char>)
    requires
        e.vm_id != other,
    ensures
        entry_of(entries.push(e), other) == entry_of(entries, other),
{
    let after = entries.push(e);
    match position(entries, other) {
        Some(k) => {
            assert(first_entry(entries, other, k));
            assert forall|j: int| 0 <= j < k implies (#[trigger] after[j]).vm_id != other by {
                assert(after[j] == entries[j]);
            }
            assert(after[k] == entries[k]);
            assert(first_entry(after, other, k));
            lemma_position_found(after, other, k);
        },
        None => {
            lemma_position_none(entries, other);
            assert forall|j: int| 0 <= j < after.len() implies (#[trigger] after[j]).vm_id
                != other by {
                if j < entries.len() {
                    assert(after[j] == entries[j]);
                }
            }
            lemma_position_absent(after, other);
        },
    }
}

proof fn lemma_entry_of_survives_remove(entries: Seq<VMEntryView>, at: int, other: Seq<char>)
    requires
        0 <= at < entries.len(),
        entries[at].vm_id != other,
    ensures
        entry_of(entries.remove(at), other) == entry_of(entries, other),
{
    let after = entries.remove(at);
    match position(entries, other) {
        Some(k) => {
            assert(first_entry(entries, other, k));
            let moved = if k < at {
                k
            } else {
                k - 1
            };
            assert(after[moved] == entries[k]);
            assert forall|j: int| 0 <= j < moved implies (#[trigger] after[j]).vm_id != other by {
                if j < at {
                    assert(after[j] == entries[j]);
                } else {
                    assert(after[j] == entries[j + 1]);
                }
            }
            assert(first_entry(after, other, moved));
            lemma_position_found(after, other, moved);
        },
        None => {
            lemma_position_none(entries, other);
            assert forall|j: int| 0 <= j < after.len() implies (#[trigger] after[j]).vm_id
                != other by {
                if j < at {
                    assert(after[j] == entries[j]);
                } else {
                    assert(after[j] == entries[j + 1]);
                }
            }
            lemma_position_absent(after, other);
        },
    }
}

/// Machines do not meet: whatever is asked of one machine, whatever happens
/// to it and whatever arrives on its connection, the controller keeps of
/// every other machine exactly what it kept before.
pub proof fn lemma_machines_are_independent(
    c: QemuControllerView,
    id: Seq<char>,
    other: Seq<char>,
    args: Seq<Seq<char>>,
    qmp_socket: Option<Seq<char>>,
    event: LifecycleEvent,
    chunk: Seq<u8>,
)
    requires
        id != other,
    ensures
        entry_of(started(c, id, args, qmp_socket).0.entries, other) == entry_of(c.entries, other),
        entry_of(handled(c, id, event).0.entries, other) == entry_of(c.entries, other),
        entry_of(fed_to(c, id, chunk).0.entries, other) == entry_of(c.entries, other),
{
    match position(c.entries, id) {
        None => {
            lemma_entry_of_survives_push(c.entries, starting_entry(id, qmp_socket), other);
        },
        Some(at) => {
            assert(first_entry(c.entries, id, at));
            let e = c.entries[at];
            lemma_entry_of_survives_update(c.entries, at, starting_entry(id, qmp_socket), other);
            match step(e, event).entry {
                Some(next) => {
                    assert(next.vm_id == e.vm_id);
                    lemma_entry_of_survives_update(c.entries, at, next, other);
                },
                None => {
                    lemma_entry_of_survives_remove(c.entries, at, other);
                },
            }
            match e.session {
                Some(session) => {
                    lemma_entry_of_survives_update(
                        c.entries,
                        at,
                        VMEntryView { session: Some(received(session, chunk).1), ..e },
                        other,
                    );
                },
                None => {},
            }
        },
    }
}

/// A start of a machine that is up fails with the error for a machine that
/// is already running, and leaves everything as it is: the entry, its process
/// and its connection.
pub proof fn lemma_start_of_running_refused(
    c: QemuControllerView,
    id: Seq<char>,
    args: Seq<Seq<char>>,
    qmp_socket: Option<Seq<char>>,
)
    requires
        state_of(c.entries, id) != VMLifecycle::Stopped,
        state_of(c.entries, id) != VMLifecycle::Error,
    ensures
        started(c, id, args, qmp_socket) == (c, Err::<ActionView, ErrorView>(already_running())),
{
}

/// A stop of a machine that neither runs nor is paused nor starts, and so of
/// every machine that is not supervised, fails with the error for a machine
/// that is not running, and leaves everything as it is.
pub proof fn lemma_stop_without_process_refused(c: QemuControllerView, id: Seq<char>)
    requires
        state_of(c.entries, id) != VMLifecycle::Running,
        state_of(c.entries, id) != VMLifecycle::Paused,
        state_of(c.entries, id) != VMLifecycle::Starting,
    ensures
        handled(c, id, LifecycleEvent::StopRequested) == (
            c,
            Err::<ActionView, ErrorView>(not_running()),
        ),
{
    match position(c.entries, id) {
        Some(at) => {
            assert(first_entry(c.entries, id, at));
            assert(c.entries.update(at, c.entries[at]) =~= c.entries);
        },
        None => {},
    }
}

/// Pausing needs a guest that runs and resuming one that is paused: in every
/// other state the request fails with the error for a machine that is not
/// running, and leaves everything as it is.
pub proof fn lemma_pause_and_resume_need_their_state(c: QemuControllerView, id: Seq<char>)
    ensures
        state_of(c.entries, id) != VMLifecycle::Running ==> handled(
            c,
            id,
            LifecycleEvent::PauseRequested,
        ) == (c, Err::<ActionView, ErrorView>(not_running())),
        state_of(c.entries, id) != VMLifecycle::Paused ==> handled(
            c,
            id,
            LifecycleEvent::ResumeRequested,
        ) == (c, Err::<ActionView, ErrorView>(not_running())),
{
    match position(c.entries, id) {
        Some(at) => {
            assert(first_entry(c.entries, id, at));
            assert(c.entries.update(at, c.entries[at]) =~= c.entries);
        },
        None => {},
    }
}

/// An exit that nobody asked for makes a machine that was up a failed one,
/// without process and without connection; an exit during a stop ends the
/// supervision of the machine.
pub proof fn lemma_exit_is_noticed(e: VMEntryView)
    requires
        entry_consistent(e),
    ensures
        e.state == VMLifecycle::Stopping ==> step(e, LifecycleEvent::ProcessExited).entry is None,
        e.state != VMLifecycle::Stopping ==> ({
            let after = step(e, LifecycleEvent::ProcessExited).entry;
            after matches Some(next) && next.state == VMLifecycle::Error && next.pid is None
                && next.session is None
        }),
{
}

/// A machine without a position has no entry.
pub proof fn lemma_position_none(entries: Seq<VMEntryView>, id: Seq<char>)
    requires
        position(entries, id) is None,
    ensures
        forall|j: int| 0 <= j < entries.len() ==> (#[trigger] entries[j]).vm_id != id,
{
    assert forall|j: int| 0 <= j < entries.len() implies (#[trigger] entries[j]).vm_id != id by {
        if entries[j].vm_id == id {
            lemma_position_exists(entries, id, j);
        }
    }
}

/// The controller that supervises the machines of `base` and, after them,
/// the machine of `e`.
pub open spec fn with_last(path: Seq<char>, base: Seq<VMEntryView>, e: VMEntryView) -> QemuControllerView {
    QemuControllerView { qemu_path: path, entries: base.push(e) }
}

proof fn lemma_last_position(base: Seq<VMEntryView>, e: VMEntryView)
    requires
        forall|j: int| 0 <= j < base.len() ==> (#[trigger] base[j]).vm_id != e.vm_id,
    ensures
        position(base.push(e), e.vm_id) == Some(base.len() as int),
{
    let entries = base.push(e);
    assert forall|j: int| 0 <= j < base.len() implies (#[trigger] entries[j]).vm_id != e.vm_id by {
        assert(entries[j] == base[j]);
    }
    assert(first_entry(entries, e.vm_id, base.len() as int));
    lemma_position_found(entries, e.vm_id, base.len() as int);
}

proof fn lemma_handled_last(
    path: Seq<char>,
    base: Seq<VMEntryView>,
    e: VMEntryView,
    event: LifecycleEvent,
)
    requires
        forall|j: int| 0 <= j < base.len() ==> (#[trigger] base[j]).vm_id != e.vm_id,
    ensures
        handled(with_last(path, base, e), e.vm_id, event).1 == step(e, event).result,
        handled(with_last(path, base, e), e.vm_id, event).0 == match step(e, event).entry {
            Some(next) => with_last(path, base, next),
            None => QemuControllerView { qemu_path: path, entries: base },
        },
{
    lemma_last_position(base, e);
    let entries = base.push(e);
    let at = base.len() as int;
    assert(entries[at] == e);
    match step(e, event).entry {
        Some(next) => {
            assert(entries.update(at, next) =~= base.push(next));
        },
        None => {
            assert(entries.remove(at) =~= base);
        },
    }
}

proof fn lemma_fed_last(
    path: Seq<char>,
    base: Seq<VMEntryView>,
    e: VMEntryView,
    chunk: Seq<u8>,
    m: QmpMessageView,
)
    requires
        forall|j: int| 0 <= j < base.len() ==> (#[trigger] base[j]).vm_id != e.vm_id,
        e.session is Some,
        e.session->0.buffer == Seq::<u8>::empty(),
        one_message(chunk, m),
    ensures
        fed_to(with_last(path, base, e), e.vm_id, chunk).0 == with_last(
            path,
            base,
            VMEntryView {
                session: Some(crate::qemu::qmp::after_message(e.session->0, m)),
                ..e
            },
        ),
{
    lemma_last_position(base, e);
    lemma_received_one_message(e.session->0, chunk, m);
    let entries = base.push(e);
    let at = base.len() as int;
    assert(entries[at] == e);
    let next = VMEntryView {
        session: Some(crate::qemu::qmp::after_message(e.session->0, m)),
        ..e
    };
    assert(entries.update(at, next) =~= base.push(next));
}

/// The bytes that the hypervisor sends in the course of one full cycle: its
/// greeting and its answers to the four commands of the cycle.
pub struct CycleTraffic {
    pub greeting: Seq<u8>,
    pub banner: Seq<char>,
    pub negotiated: Seq<u8>,
    pub paused: Seq<u8>,
    pub resumed: Seq<u8>,
    pub quitting: Seq<u8>,
    pub value: Seq<char>,
}

/// Whether the traffic `t` is what a hypervisor sends that greets and then
/// accepts the commands numbered one to four.
pub open spec fn cycle_traffic(t: CycleTraffic) -> bool {
    &&& one_message(t.greeting, QmpMessageView::Greeting { banner: t.banner })
    &&& one_message(t.negotiated, QmpMessageView::Return { id: Some(1), value: t.value })
    &&& one_message(t.paused, QmpMessageView::Return { id: Some(2), value: t.value })
    &&& one_message(t.resumed, QmpMessageView::Return { id: Some(3), value: t.value })
    &&& one_message(t.quitting, QmpMessageView::Return { id: Some(4), value: t.value })
}

/// The controller `c` after the machine `id` was started and its process
/// came up with a control connection on which capabilities were negotiated.
pub open spec fn cycle_started(
    c: QemuControllerView,
    id: Seq<char>,
    args: Seq<Seq<char>>,
    socket: Seq<char>,
    pid: u32,
    t: CycleTraffic,
) -> QemuControllerView {
    let requested = started(c, id, args, Some(socket)).0;
    let spawned = handled(requested, id, LifecycleEvent::ProcessSpawned { pid }).0;
    let greeted = handled(fed_to(spawned, id, t.greeting).0, id, LifecycleEvent::Greeted).0;
    handled(
        fed_to(greeted, id, t.negotiated).0,
        id,
        LifecycleEvent::Answered { id: 1, accepted: true },
    ).0
}

/// The controller `c` after the guest of the machine `id` was frozen.
pub open spec fn cycle_paused(c: QemuControllerView, id: Seq<char>, t: CycleTraffic) -> QemuControllerView {
    let asked = handled(c, id, LifecycleEvent::PauseRequested).0;
    handled(fed_to(asked, id, t.paused).0, id, LifecycleEvent::Answered { id: 2, accepted: true }).0
}

/// The controller `c` after the guest of the machine `id` was let run on.
pub open spec fn cycle_resumed(c: QemuControllerView, id: Seq<char>, t: CycleTraffic) -> QemuControllerView {
    let asked = handled(c, id, LifecycleEvent::ResumeRequested).0;
    handled(fed_to(asked, id, t.resumed).0, id, LifecycleEvent::Answered { id: 3, accepted: true }).0
}

/// The controller `c` after the machine `id` was asked to quit, agreed and
/// its process exited.
pub open spec fn cycle_stopped(c: QemuControllerView, id: Seq<char>, t: CycleTraffic) -> QemuControllerView {
    let asked = handled(c, id, LifecycleEvent::StopRequested).0;
    let agreed = handled(
        fed_to(asked, id, t.quitting).0,
        id,
        LifecycleEvent::Answered { id: 4, accepted: true },
    ).0;
    handled(agreed, id, LifecycleEvent::ProcessExited).0
}

/// A full cycle of a machine that was not supervised, start, pause, resume
/// and stop, each with the answer that the hypervisor gives when it does what
/// it is asked, passes through running, paused and running and ends where it
/// began: the controller is what it was before the start, so that no process
/// and no connection is left behind and as many machines have a process as
/// had one before.
pub proof fn lemma_full_cycle_returns(
    c: QemuControllerView,
    id: Seq<char>,
    args: Seq<Seq<char>>,
    socket: Seq<char>,
    pid: u32,
    t: CycleTraffic,
)
    requires
        position(c.entries, id) is None,
        cycle_traffic(t),
    ensures
        ({
            let up = cycle_started(c, id, args, socket, pid, t);
            let paused = cycle_paused(up, id, t);
            let resumed = cycle_resumed(paused, id, t);
            let stopped = cycle_stopped(resumed, id, t);
            &&& state_of(c.entries, id) == VMLifecycle::Stopped
            &&& state_of(up.entries, id) == VMLifecycle::Running
            &&& state_of(paused.entries, id) == VMLifecycle::Paused
            &&& state_of(resumed.entries, id) == VMLifecycle::Running
            &&& stopped == c
            &&& state_of(stopped.entries, id) == VMLifecycle::Stopped
            &&& running_ids(stopped.entries) == running_ids(c.entries)
        }),
{
    reveal_with_fuel(without, 3);
    let base = c.entries;
    let path = c.qemu_path;
    lemma_position_none(base, id);
    // start
    let e1 = starting_entry(id, Some(socket));
    assert(started(c, id, args, Some(socket)).0 == with_last(path, base, e1));
    lemma_handled_last(path, base, e1, LifecycleEvent::ProcessSpawned { pid });
    let e2 = VMEntryView { pid: Some(pid), session: Some(fresh_client(socket)), ..e1 };
    lemma_fed_last(path, base, e2, t.greeting, QmpMessageView::Greeting { banner: t.banner });
    let e3 = VMEntryView {
        session: Some(
            crate::qemu::qmp::after_message(
                e2.session->0,
                QmpMessageView::Greeting { banner: t.banner },
            ),
        ),
        ..e2
    };
    lemma_handled_last(path, base, e3, LifecycleEvent::Greeted);
    let e4 = sent(e3, QmpCommandKind::QmpCapabilities, VMLifecycle::Starting);
    assert(step(e3, LifecycleEvent::Greeted).entry == Some(e4));
    lemma_fed_last(
        path,
        base,
        e4,
        t.negotiated,
        QmpMessageView::Return { id: Some(1), value: t.value },
    );
    let e5 = VMEntryView {
        session: Some(
            crate::qemu::qmp::after_message(
                e4.session->0,
                QmpMessageView::Return { id: Some(1), value: t.value },
            ),
        ),
        ..e4
    };
    lemma_handled_last(path, base, e5, LifecycleEvent::Answered { id: 1, accepted: true });
    let e6 = settled(e5, VMLifecycle::Running);
    let up = cycle_started(c, id, args, socket, pid, t);
    assert(up == with_last(path, base, e6));
    lemma_last_position(base, e6);
    assert(e6.session->0.pending =~= Seq::<u64>::empty());

    // pause
    lemma_handled_last(path, base, e6, LifecycleEvent::PauseRequested);
    let e7 = sent(e6, QmpCommandKind::Stop, VMLifecycle::Pausing);
    assert(step(e6, LifecycleEvent::PauseRequested).entry == Some(e7));
    lemma_fed_last(
        path,
        base,
        e7,
        t.paused,
        QmpMessageView::Return { id: Some(2), value: t.value },
    );
    let e8 = VMEntryView {
        session: Some(
            crate::qemu::qmp::after_message(
                e7.session->0,
                QmpMessageView::Return { id: Some(2), value: t.value },
            ),
        ),
        ..e7
    };
    lemma_handled_last(path, base, e8, LifecycleEvent::Answered { id: 2, accepted: true });
    let e9 = settled(e8, VMLifecycle::Paused);
    let paused = cycle_paused(up, id, t);
    assert(paused == with_last(path, base, e9));
    lemma_last_position(base, e9);
    assert(e9.session->0.pending =~= Seq::<u64>::empty());

    // resume
    lemma_handled_last(path, base, e9, LifecycleEvent::ResumeRequested);
    let e10 = sent(e9, QmpCommandKind::Cont, VMLifecycle::Resuming);
    assert(step(e9, LifecycleEvent::ResumeRequested).entry == Some(e10));
    lemma_fed_last(
        path,
        base,
        e10,
        t.resumed,
        QmpMessageView::Return { id: Some(3), value: t.value },
    );
    let e11 = VMEntryView {
        session: Some(
            crate::qemu::qmp::after_message(
                e10.session->0,
                QmpMessageView::Return { id: Some(3), value: t.value },
            ),
        ),
        ..e10
    };
    lemma_handled_last(path, base, e11, LifecycleEvent::Answered { id: 3, accepted: true });
    let e12 = settled(e11, VMLifecycle::Running);
    let resumed = cycle_resumed(paused, id, t);
    assert(resumed == with_last(path, base, e12));
    lemma_last_position(base, e12);
    assert(e12.session->0.pending =~= Seq::<u64>::empty());

    // stop
    lemma_handled_last(path, base, e12, LifecycleEvent::StopRequested);
    let e13 = sent(
        VMEntryView { fallback: VMLifecycle::Running, ..e12 },
        QmpCommandKind::Quit,
        VMLifecycle::Stopping,
    );
    assert(step(e12, LifecycleEvent::StopRequested).entry == Some(e13));
    lemma_fed_last(
        path,
        base,
        e13,
        t.quitting,
        QmpMessageView::Return { id: Some(4), value: t.value },
    );
    let e14 = VMEntryView {
        session: Some(
            crate::qemu::qmp::after_message(
                e13.session->0,
                QmpMessageView::Return { id: Some(4), value: t.value },
            ),
        ),
        ..e13
    };
    lemma_handled_last(path, base, e14, LifecycleEvent::Answered { id: 4, accepted: true });
    let e15 = settled(e14, VMLifecycle::Stopping);
    lemma_handled_last(path, base, e15, LifecycleEvent::ProcessExited);
    let stopped = cycle_stopped(resumed, id, t);
    assert(stopped == QemuControllerView { qemu_path: path, entries: base });
}

} // verus!
