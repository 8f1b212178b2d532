//! Remote-display sessions.
//!
//! A [`DisplaySessionManager`] keeps one session for each machine whose
//! display was ever opened. A session says where the display of the machine
//! listens and whether a viewer can reach it; it never claims to be reachable
//! while the machine is not running.

use vstd::prelude::*;
use crate::commands::{build_display_session, display_session, spice_port};
use crate::text::{decimal, is_blank, text_eq, text_is_blank};
use crate::{DisplaySession, DisplaySessionView};

verus! {

/// Whether the endpoint of the session `s` is the one of its machine and its
/// status one of connected, disconnected and error.
pub open spec fn session_sound(s: DisplaySessionView) -> bool {
    &&& s.protocol == "spice"@
    &&& s.host == "127.0.0.1"@
    &&& s.port == spice_port(s.vm_id)
    &&& s.uri == "spice://127.0.0.1:"@ + decimal(spice_port(s.vm_id))
    &&& (s.status == "connected"@ || s.status == "disconnected"@ || s.status == "error"@)
}

/// Whether every session of `sessions` is sound and no machine has two.
pub open spec fn sessions_sound(sessions: Seq<DisplaySessionView>) -> bool {
    &&& forall|i: int| 0 <= i < sessions.len() ==> session_sound(#[trigger] sessions[i])
    &&& forall|i: int, j: int|
        0 <= i < sessions.len() && 0 <= j < sessions.len() && i != j ==> (
        #[trigger] sessions[i]).vm_id != (#[trigger] sessions[j]).vm_id
}

/// Where the session of the machine `id` is kept, if it has one.
pub open spec fn session_at(sessions: Seq<DisplaySessionView>, id: Seq<char>) -> Option<int> {
    if exists|at: int| 0 <= at < sessions.len() && (#[trigger] sessions[at]).vm_id == id {
        Some(choose|at: int| 0 <= at < sessions.len() && (#[trigger] sessions[at]).vm_id == id)
    } else {
        None
    }
}

/// Among sound sessions, the session of a machine is where it is found.
pub proof fn lemma_session_at(sessions: Seq<DisplaySessionView>, id: Seq<char>, at: int)
    requires
        sessions_sound(sessions),
        0 <= at < sessions.len(),
        sessions[at].vm_id == id,
    ensures
        session_at(sessions, id) == Some(at),
{
    let chosen = choose|k: int| 0 <= k < sessions.len() && (#[trigger] sessions[k]).vm_id == id;
    assert(sessions[chosen].vm_id == sessions[at].vm_id);
}

/// The session `s` after its display was opened again: a session that was
/// disconnected or in error is connected, counts one more reconnect and
/// forgets its error; a connected session stays as it is.
pub open spec fn reopened(s: DisplaySessionView) -> DisplaySessionView {
    if s.status == "disconnected"@ || s.status == "error"@ {
        DisplaySessionView {
            status: "connected"@,
            reconnect_attempts: if s.reconnect_attempts < u32::MAX {
                (s.reconnect_attempts + 1) as u32
            } else {
                s.reconnect_attempts
            },
            last_error: None,
            ..s
        }
    } else {
        s
    }
}

/// The session `s` held against the state of its machine: once the machine
/// is seen not to run, the session is disconnected and says why.
pub open spec fn reconciled(s: DisplaySessionView, running: bool) -> DisplaySessionView {
    if !running && s.status != "disconnected"@ {
        DisplaySessionView {
            status: "disconnected"@,
            last_error: Some("VM not running"@),
            ..s
        }
    } else {
        s
    }
}

/// The session `s` disconnected for the reason `reason`.
pub open spec fn disconnected(s: DisplaySessionView, reason: Seq<char>) -> DisplaySessionView {
    DisplaySessionView { status: "disconnected"@, last_error: Some(reason), ..s }
}

/// The session `s` connected, with no error to tell of.
pub open spec fn connected(s: DisplaySessionView) -> DisplaySessionView {
    DisplaySessionView { status: "connected"@, last_error: None, ..s }
}

/// Why the display of the machine `id` cannot be opened, or `None` where it
/// can: the identifier must not be blank, the machine must be known and it
/// must be running.
pub open spec fn open_refusal(id: Seq<char>, known: bool, running: bool) -> Option<Seq<char>> {
    if is_blank(id) {
        Some("VM ID cannot be empty"@)
    } else if !known {
        Some("VM "@ + id + " not found"@)
    } else if !running {
        Some("VM "@ + id + " not running"@)
    } else {
        None
    }
}

/// The session that opening the display of the machine `id` hands out.
pub open spec fn opened_session(sessions: Seq<DisplaySessionView>, id: Seq<char>) -> DisplaySessionView {
    match session_at(sessions, id) {
        Some(at) => reopened(sessions[at]),
        None => display_session(id, "connected"@, 0, None),
    }
}

/// The sessions after the display of the machine `id` was opened.
pub open spec fn after_open(sessions: Seq<DisplaySessionView>, id: Seq<char>) -> Seq<
    DisplaySessionView,
> {
    match session_at(sessions, id) {
        Some(at) => sessions.update(at, reopened(sessions[at])),
        None => sessions.push(display_session(id, "connected"@, 0, None)),
    }
}

/// The sessions with the session of the machine `id`, if it has one,
/// replaced by `change` of it.
pub open spec fn with_session(
    sessions: Seq<DisplaySessionView>,
    id: Seq<char>,
    change: spec_fn(DisplaySessionView) -> DisplaySessionView,
) -> Seq<DisplaySessionView> {
    match session_at(sessions, id) {
        Some(at) => sessions.update(at, change(sessions[at])),
        None => sessions,
    }
}

/// The sessions without the session of the machine `id`.
pub open spec fn without_session(sessions: Seq<DisplaySessionView>, id: Seq<char>) -> Seq<
    DisplaySessionView,
> {
    match session_at(sessions, id) {
        Some(at) => sessions.remove(at),
        None => sessions,
    }
}

spec fn session_views(sessions: Seq<DisplaySession>) -> Seq<DisplaySessionView> {
    Seq::new(sessions.len(), |i: int| sessions[i]@)
}

/// The display sessions of all machines.
#[derive(Debug)]
pub struct DisplaySessionManager {
    sessions: Vec<DisplaySession>,
}

impl View for DisplaySessionManager {
    type V = Seq<DisplaySessionView>;

    closed spec fn view(&self) -> Seq<DisplaySessionView> {
        session_views(self.sessions@)
    }
}

fn find_session(sessions: &Vec<DisplaySession>, id: &str) -> (r: Option<usize>)
    requires
        sessions_sound(session_views(sessions@)),
    ensures
        match r {
            Some(at) => at < sessions@.len() && session_at(session_views(sessions@), id@) == Some(
                at as int,
            ),
            None => session_at(session_views(sessions@), id@) is None,
        },
{
    let ghost views = session_views(sessions@);
    let mut i: usize = 0;
    while i < sessions.len()
        invariant
            i <= sessions@.len(),
            views == session_views(sessions@),
            sessions_sound(views),
            forall|j: int| 0 <= j < i ==> (#[trigger] views[j]).vm_id != id@,
        decreases sessions.len() - i,
    {
        assert(views[i as int] == sessions@[i as int]@);
        if text_eq(sessions[i].vm_id.as_str(), id) {
            proof {
                lemma_session_at(views, id@, i as int);
            }
            return Some(i);
        }
        i += 1;
    }
    None
}

proof fn lemma_update_sound(
    sessions: Seq<DisplaySessionView>,
    at: int,
    s: DisplaySessionView,
)
    requires
        sessions_sound(sessions),
        0 <= at < sessions.len(),
        session_sound(s),
        s.vm_id == sessions[at].vm_id,
    ensures
        sessions_sound(sessions.update(at, s)),
{
    let after = sessions.update(at, s);
    assert forall|i: int| 0 <= i < after.len() implies session_sound(#[trigger] after[i]) by {
        if i != at {
            assert(after[i] == sessions[i]);
        }
    }
    assert forall|i: int, j: int|
        0 <= i < after.len() && 0 <= j < after.len() && i != j implies (#[trigger] after[i]).vm_id
        != (#[trigger] after[j]).vm_id by {
        assert(after[i].vm_id == sessions[i].vm_id);
        assert(after[j].vm_id == sessions[j].vm_id);
    }
}

fn message_about(id: &str, what: &str) -> (message: String)
    ensures
        message@ == "VM "@ + id@ + what@,
{
    let mut message = String::from_str("VM ");
    message.append(id);
    message.append(what);
    message
}

impl DisplaySessionManager {
    /// What holds of every value of this type: see [`sessions_sound`].
    #[verifier::type_invariant]
    pub open spec fn sound(self) -> bool {
        sessions_sound(self@)
    }

    /// No sessions.
    pub fn new() -> (manager: Self)
        ensures
            manager@ == Seq::<DisplaySessionView>::empty(),
    {
        let manager = DisplaySessionManager { sessions: Vec::new() };
        assert(manager@ =~= Seq::<DisplaySessionView>::empty());
        manager
    }

    /// How many machines have a session.
    pub fn len(&self) -> (n: usize)
        ensures
            n == self@.len(),
    {
        self.sessions.len()
    }

    fn take_sessions(&mut self) -> (sessions: Vec<DisplaySession>)
        ensures
            session_views(sessions@) == old(self)@,
            sessions_sound(session_views(sessions@)),
    {
        proof {
            use_type_invariant(&*self);
        }
        let mut sessions: Vec<DisplaySession> = Vec::new();
        std::mem::swap(&mut self.sessions, &mut sessions);
        assert(session_views(self.sessions@) =~= Seq::<DisplaySessionView>::empty());
        sessions
    }

    /// Opens the display of the machine `id`, of which the caller says
    /// whether the registry knows it and whether it is running.
    ///
    /// The first opening makes the session; a later one connects it again.
    /// Nothing is opened and nothing changes for a machine that is unknown or
    /// not running.
    pub fn open(&mut self, id: &str, known: bool, running: bool) -> (r: Result<
        DisplaySession,
        String,
    >)
        ensures
            match r {
                Ok(session) => {
                    &&& open_refusal(id@, known, running) is None
                    &&& session@ == opened_session(old(self)@, id@)
                    &&& final(self)@ == after_open(old(self)@, id@)
                },
                Err(message) => {
                    &&& open_refusal(id@, known, running) == Some(message@)
                    &&& final(self)@ == old(self)@
                },
            },
    {
        if text_is_blank(id) {
            return Err(String::from_str("VM ID cannot be empty"));
        }
        if !known {
            return Err(message_about(id, " not found"));
        }
        if !running {
            return Err(message_about(id, " not running"));
        }
        let mut sessions = self.take_sessions();
        let ghost before = session_views(sessions@);
        match find_session(&sessions, id) {
            Some(at) => {
                assert(before[at as int] == sessions@[at as int]@);
                let mut existing = sessions.remove(at);
                if text_eq(existing.status.as_str(), "disconnected") || text_eq(
                    existing.status.as_str(),
                    "error",
                ) {
                    existing.status = String::from_str("connected");
                    if existing.reconnect_attempts < u32::MAX {
                        existing.reconnect_attempts = existing.reconnect_attempts + 1;
                    }
                    existing.last_error = None;
                }
                let session = existing.clone();
                let ghost after = existing@;
                sessions.insert(at, existing);
                proof {
                    assert(after == reopened(before[at as int]));
                    assert(session_views(sessions@) =~= before.update(at as int, after));
                    lemma_update_sound(before, at as int, after);
                }
                self.sessions = sessions;
                Ok(session)
            },
            None => {
                let session = build_display_session(id, "connected", 0, None);
                let ghost made = session@;
                sessions.push(session.clone());
                proof {
                    assert(session_views(sessions@) =~= before.push(made));
                    let after = before.push(made);
                    assert forall|i: int| 0 <= i < after.len() implies session_sound(
                        #[trigger] after[i],
                    ) by {
                        if i < before.len() {
                            assert(after[i] == before[i]);
                        }
                    }
                    assert forall|i: int, j: int|
                        0 <= i < after.len() && 0 <= j < after.len() && i != j implies (
                    #[trigger] after[i]).vm_id != (#[trigger] after[j]).vm_id by {
                        if i < before.len() {
                            assert(after[i] == before[i]);
                        }
                        if j < before.len() {
                            assert(after[j] == before[j]);
                        }
                    }
                }
                self.sessions = sessions;
                Ok(session)
            },
        }
    }

    /// Looks the session of the machine `id` up, of which the caller says
    /// whether it is running. A session that claims more than the machine
    /// can give is disconnected first, with the reason.
    pub fn get(&mut self, id: &str, running: bool) -> (r: Result<Option<DisplaySession>, String>)
        ensures
            match r {
                Ok(found) => {
                    &&& !is_blank(id@)
                    &&& final(self)@ == with_session(
                        old(self)@,
                        id@,
                        |s: DisplaySessionView| reconciled(s, running),
                    )
                    &&& match session_at(old(self)@, id@) {
                        Some(at) => found.is_some() && found.unwrap()@ == reconciled(
                            old(self)@[at],
                            running,
                        ),
                        None => found.is_none(),
                    }
                },
                Err(message) => {
                    &&& is_blank(id@)
                    &&& message@ == "VM ID cannot be empty"@
                    &&& final(self)@ == old(self)@
                },
            },
    {
        if text_is_blank(id) {
            return Err(String::from_str("VM ID cannot be empty"));
        }
        let mut sessions = self.take_sessions();
        let ghost before = session_views(sessions@);
        let found = match find_session(&sessions, id) {
            Some(at) => {
                assert(before[at as int] == sessions@[at as int]@);
                let mut existing = sessions.remove(at);
                if !running && !text_eq(existing.status.as_str(), "disconnected") {
                    existing.status = String::from_str("disconnected");
                    existing.last_error = Some(String::from_str("VM not running"));
                }
                let session = existing.clone();
                let ghost after = existing@;
                sessions.insert(at, existing);
                proof {
                    assert(after == reconciled(before[at as int], running));
                    assert(session_views(sessions@) =~= before.update(at as int, after));
                    lemma_update_sound(before, at as int, after);
                }
                Some(session)
            },
            None => None,
        };
        self.sessions = sessions;
        Ok(found)
    }

    fn change(&mut self, id: &str, connect: bool, reason: &str)
        ensures
            final(self)@ == with_session(
                old(self)@,
                id@,
                |s: DisplaySessionView|
                    if connect {
                        connected(s)
                    } else {
                        disconnected(s, reason@)
                    },
            ),
    {
        let mut sessions = self.take_sessions();
        let ghost before = session_views(sessions@);
        match find_session(&sessions, id) {
            Some(at) => {
                assert(before[at as int] == sessions@[at as int]@);
                let mut existing = sessions.remove(at);
                if connect {
                    existing.status = String::from_str("connected");
                    existing.last_error = None;
                } else {
                    existing.status = String::from_str("disconnected");
                    existing.last_error = Some(String::from_str(reason));
                }
                let ghost after = existing@;
                sessions.insert(at, existing);
                proof {
                    assert(session_views(sessions@) =~= before.update(at as int, after));
                    lemma_update_sound(before, at as int, after);
                }
            },
            None => {},
        }
        self.sessions = sessions;
    }

    /// Closes the display of the machine `id`: its session, if it has one,
    /// is disconnected and says that it was closed.
    pub fn close(&mut self, id: &str) -> (r: Result<(), String>)
        ensures
            match r {
                Ok(_) => !is_blank(id@) && final(self)@ == with_session(
                    old(self)@,
                    id@,
                    |s: DisplaySessionView| disconnected(s, "Display session closed"@),
                ),
                Err(message) => is_blank(id@) && message@ == "VM ID cannot be empty"@ && final(self)@ == old(self)@,
            },
    {
        if text_is_blank(id) {
            return Err(String::from_str("VM ID cannot be empty"));
        }
        self.change(id, false, "Display session closed");
        assert(final(self)@ == with_session(
            old(self)@,
            id@,
            |s: DisplaySessionView| disconnected(s, "Display session closed"@),
        ));
        Ok(())
    }
}

impl DisplaySessionManager {
    /// Notes that the machine `id` has come up: its session, if it has one,
    /// is connected again.
    pub fn machine_started(&mut self, id: &str)
        ensures
            final(self)@ == with_session(old(self)@, id@, |s: DisplaySessionView| connected(s)),
    {
        self.change(id, true, "");
        assert(final(self)@ == with_session(
            old(self)@,
            id@,
            |s: DisplaySessionView| connected(s),
        ));
    }

    /// Notes that the machine `id` was stopped: its session, if it has one,
    /// is disconnected and says so.
    pub fn machine_stopped(&mut self, id: &str)
        ensures
            final(self)@ == with_session(
                old(self)@,
                id@,
                |s: DisplaySessionView| disconnected(s, "VM stopped"@),
            ),
    {
        self.change(id, false, "VM stopped");
        assert(final(self)@ == with_session(
            old(self)@,
            id@,
            |s: DisplaySessionView| disconnected(s, "VM stopped"@),
        ));
    }

    /// Forgets the session of the machine `id`, as when the machine is
    /// deleted.
    pub fn remove(&mut self, id: &str)
        ensures
            final(self)@ == without_session(old(self)@, id@),
    {
        let mut sessions = self.take_sessions();
        let ghost before = session_views(sessions@);
        match find_session(&sessions, id) {
            Some(at) => {
                sessions.remove(at);
                proof {
                    let after = before.remove(at as int);
                    assert(session_views(sessions@) =~= after);
                    assert forall|i: int| 0 <= i < after.len() implies session_sound(
                        #[trigger] after[i],
                    ) by {
                        if i < at {
                            assert(after[i] == before[i]);
                        } else {
                            assert(after[i] == before[i + 1]);
                        }
                    }
                    assert forall|i: int, j: int|
                        0 <= i < after.len() && 0 <= j < after.len() && i != j implies (
                    #[trigger] after[i]).vm_id != (#[trigger] after[j]).vm_id by {
                        let oi = if i < at {
                            i
                        } else {
                            i + 1
                        };
                        let oj = if j < at {
                            j
                        } else {
                            j + 1
                        };
                        assert(after[i] == before[oi]);
                        assert(after[j] == before[oj]);
                    }
                }
            },
            None => {},
        }
        self.sessions = sessions;
    }
}

/// Opening the display of a machine that is not running fails and changes
/// nothing that the refusal could be blamed for; opening the display of a
/// known, running machine hands out a session that is connected and whose
/// port is the port derived from the machine's identifier.
pub proof fn lemma_open_connects_at_machine_port(
    sessions: Seq<DisplaySessionView>,
    id: Seq<char>,
    known: bool,
    running: bool,
)
    requires
        sessions_sound(sessions),
    ensures
        !running ==> open_refusal(id, known, running) is Some,
        open_refusal(id, known, running) is None ==> ({
            let session = opened_session(sessions, id);
            &&& session.vm_id == id
            &&& session.status == "connected"@
            &&& session.port == spice_port(id)
            &&& 5900 <= session.port <= 6899
            &&& session_sound(session)
        }),
        sessions_sound(after_open(sessions, id)),
{
    crate::commands::lemma_spice_port_stable_and_in_range(id, id);
    reveal_strlit("connected");
    reveal_strlit("disconnected");
    reveal_strlit("error");
    match session_at(sessions, id) {
        Some(at) => {
            assert(session_sound(sessions[at]));
            lemma_update_sound(sessions, at, reopened(sessions[at]));
        },
        None => {
            let made = display_session(id, "connected"@, 0, None);
            let after = sessions.push(made);
            assert forall|i: int| 0 <= i < after.len() implies session_sound(#[trigger] after[i]) by {
                if i < sessions.len() {
                    assert(after[i] == sessions[i]);
                }
            }
            assert forall|i: int, j: int|
                0 <= i < after.len() && 0 <= j < after.len() && i != j implies (
            #[trigger] after[i]).vm_id != (#[trigger] after[j]).vm_id by {
                if i < sessions.len() {
                    assert(after[i] == sessions[i]);
                }
                if j < sessions.len() {
                    assert(after[j] == sessions[j]);
                }
            }
        },
    }
}

/// A session is connected again only by opening it, which needs a running
/// machine: a look at the session of a machine that does not run never
/// leaves it connected. A session that was connected when its machine
/// stopped is found disconnected, with an explanation that is not empty.
pub proof fn lemma_stopped_machine_is_disconnected(s: DisplaySessionView)
    requires
        session_sound(s),
    ensures
        reconciled(s, false).status == "disconnected"@,
        reconciled(s, false).status != "connected"@,
        s.status == "connected"@ ==> reconciled(s, false).last_error == Some("VM not running"@),
        "VM not running"@.len() > 0,
        reconciled(s, true) == s,
        session_sound(reconciled(s, false)),
{
    reveal_strlit("connected");
    reveal_strlit("disconnected");
    reveal_strlit("VM not running");
    assert("connected"@.len() == 9);
    assert("disconnected"@.len() == 12);
}

/// Closing a session or stopping its machine disconnects it, and opening it
/// afterwards counts one reconnect more; opening it for the first time
/// counts none.
pub proof fn lemma_reconnects_are_counted(s: DisplaySessionView, id: Seq<char>, reason: Seq<char>)
    requires
        s.reconnect_attempts < u32::MAX,
    ensures
        reopened(disconnected(s, reason)).reconnect_attempts == s.reconnect_attempts + 1,
        reopened(disconnected(s, reason)).status == "connected"@,
        reopened(disconnected(s, reason)).last_error is None,
        reopened(connected(s)) == connected(s),
        display_session(id, "connected"@, 0, None).reconnect_attempts == 0,
{
    reveal_strlit("connected");
    reveal_strlit("disconnected");
    reveal_strlit("error");
    assert("connected"@.len() == 9);
    assert("disconnected"@.len() == 12);
    assert("error"@.len() == 5);
}

} // verus!
