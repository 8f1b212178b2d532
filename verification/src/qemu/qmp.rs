//! Client side of the hypervisor's machine protocol.
//!
//! The protocol exchanges JSON documents, one per line, over a control
//! socket. A [`QmpClient`] holds everything about one connection that is not
//! the socket itself: the bytes of the message that is still arriving, the
//! state of the handshake, the counter that numbers the commands, the
//! commands that still wait for their answer and the events that nobody has
//! taken yet. Whoever owns the socket feeds it the bytes that arrive and
//! writes the lines it is handed.

use std::collections::VecDeque;
use vstd::prelude::*;
use vstd::utf8::{decode_utf8, valid_utf8};
use crate::error::{Error, ErrorView};
use crate::json::{
    json_member, json_problem, json_string, json_u64, read_member, string_value, u64_value,
};
use crate::text::{clone_text, decimal, decimal_string, text_of_bytes};

verus! {

/// The byte that ends a message.
pub const MESSAGE_DELIMITER: u8 = 10;

/// The commands that the library sends.
#[derive(Debug, Clone, Copy, PartialEq, Eq, Structural)]
pub enum QmpCommandKind {
    /// Ends the handshake; must be the first command of a connection.
    QmpCapabilities,
    /// Asks whether the guest runs.
    QueryStatus,
    /// Freezes the guest.
    Stop,
    /// Lets a frozen guest run on.
    Cont,
    /// Asks the guest to shut itself down.
    SystemPowerdown,
    /// Ends the hypervisor process.
    Quit,
}

impl QmpCommandKind {
    /// The name of the command on the wire.
    pub open spec fn name(self) -> Seq<char> {
        match self {
            QmpCommandKind::QmpCapabilities => "qmp_capabilities"@,
            QmpCommandKind::QueryStatus => "query-status"@,
            QmpCommandKind::Stop => "stop"@,
            QmpCommandKind::Cont => "cont"@,
            QmpCommandKind::SystemPowerdown => "system_powerdown"@,
            QmpCommandKind::Quit => "quit"@,
        }
    }

    /// The name of the command on the wire.
    pub fn as_str(&self) -> (s: &'static str)
        ensures
            s@ == self.name(),
    {
        match self {
            QmpCommandKind::QmpCapabilities => "qmp_capabilities",
            QmpCommandKind::QueryStatus => "query-status",
            QmpCommandKind::Stop => "stop",
            QmpCommandKind::Cont => "cont",
            QmpCommandKind::SystemPowerdown => "system_powerdown",
            QmpCommandKind::Quit => "quit",
        }
    }
}

/// The line that carries the command `kind` under the number `id`: a JSON
/// object with the command's name, no arguments and the number, then the
/// delimiter.
pub open spec fn command_text(kind: QmpCommandKind, id: u64) -> Seq<char> {
    "{\"execute\":\""@ + kind.name() + "\",\"arguments\":{},\"id\":"@ + decimal(id as nat) + "}\n"@
}

/// Writes the line that carries a command.
pub fn encode_command(kind: QmpCommandKind, id: u64) -> (line: String)
    ensures
        line@ == command_text(kind, id),
{
    let mut line = String::from_str("{\"execute\":\"");
    line.append(kind.as_str());
    line.append("\",\"arguments\":{},\"id\":");
    line.append(decimal_string(id).as_str());
    line.append("}\n");
    line
}

/// What comes of the bytes `chunk` arriving while `held` is the part of a
/// message that came before: the messages that are now complete, each without
/// its delimiter and in the order of arrival, and the bytes that are held
/// from now on.
pub open spec fn fed(held: Seq<u8>, chunk: Seq<u8>) -> (Seq<Seq<u8>>, Seq<u8>)
    decreases chunk.len(),
{
    if chunk.len() == 0 {
        (Seq::empty(), held)
    } else {
        let (messages, rest) = fed(held, chunk.drop_last());
        if chunk.last() == MESSAGE_DELIMITER {
            (messages.push(rest), Seq::empty())
        } else {
            (messages, rest.push(chunk.last()))
        }
    }
}

/// Whether `data` holds no delimiter.
pub open spec fn unfinished(data: Seq<u8>) -> bool {
    forall|i: int| 0 <= i < data.len() ==> #[trigger] data[i] != MESSAGE_DELIMITER
}

/// Reassembly: however the bytes of a stream are cut into chunks, the same
/// messages come out in the same order and the same bytes are held at the
/// end. Feeding `first` and then `second` gives what feeding the two as one
/// chunk gives.
pub proof fn lemma_fed_in_chunks(held: Seq<u8>, first: Seq<u8>, second: Seq<u8>)
    ensures
        fed(held, first + second).0 == fed(held, first).0 + fed(fed(held, first).1, second).0,
        fed(held, first + second).1 == fed(fed(held, first).1, second).1,
    decreases second.len(),
{
    let early = fed(held, first);
    if second.len() == 0 {
        assert(first + second =~= first);
        assert(early.0 + Seq::<Seq<u8>>::empty() =~= early.0);
    } else {
        let shorter = second.drop_last();
        lemma_fed_in_chunks(held, first, shorter);
        assert((first + second).drop_last() =~= first + shorter);
        assert((first + second).last() == second.last());
        let whole = fed(held, first + shorter);
        let late = fed(early.1, shorter);
        if second.last() == MESSAGE_DELIMITER {
            assert(whole.0.push(whole.1) =~= early.0 + late.0.push(late.1));
        }
    }
}

/// No message and no held part has a delimiter inside, provided that what
/// was held before had none.
pub proof fn lemma_fed_parts_unfinished(held: Seq<u8>, chunk: Seq<u8>)
    requires
        unfinished(held),
    ensures
        unfinished(fed(held, chunk).1),
        forall|i: int| 0 <= i < fed(held, chunk).0.len() ==> unfinished(#[trigger] fed(held, chunk).0[i]),
    decreases chunk.len(),
{
    if chunk.len() > 0 {
        lemma_fed_parts_unfinished(held, chunk.drop_last());
    }
}

/// Bytes without a delimiter complete no message: they are held behind what
/// was held before.
pub proof fn lemma_fed_unfinished(held: Seq<u8>, chunk: Seq<u8>)
    requires
        unfinished(chunk),
    ensures
        fed(held, chunk) == (Seq::<Seq<u8>>::empty(), held + chunk),
    decreases chunk.len(),
{
    if chunk.len() > 0 {
        assert(chunk.last() == chunk[chunk.len() - 1]);
        lemma_fed_unfinished(held, chunk.drop_last());
        assert((held + chunk.drop_last()).push(chunk.last()) =~= held + chunk);
    } else {
        assert(held + chunk =~= held);
    }
}

/// A notification that the hypervisor sent on its own account.
#[derive(Debug)]
pub struct QmpEvent {
    /// The kind of event, such as `SHUTDOWN`.
    pub name: String,
    /// The event's `data` member as JSON text, where it has one.
    pub data: Option<String>,
}

/// A [`QmpEvent`] as plain values.
pub struct QmpEventView {
    pub name: Seq<char>,
    pub data: Option<Seq<char>>,
}

impl View for QmpEvent {
    type V = QmpEventView;

    open spec fn view(&self) -> QmpEventView {
        QmpEventView { name: self.name@, data: self.data.deep_view() }
    }
}

impl Clone for QmpEvent {
    fn clone(&self) -> (r: Self)
        ensures
            r@ == self@,
    {
        QmpEvent { name: self.name.clone(), data: clone_text(&self.data) }
    }
}

/// One inbound message, by its shape.
#[derive(Debug)]
pub enum QmpMessage {
    /// The banner that the hypervisor sends when a connection opens.
    Greeting { banner: String },
    /// The answer to a command that succeeded.
    Return { id: Option<u64>, value: String },
    /// The answer to a command that the hypervisor refused.
    Failure { id: Option<u64>, reason: String },
    /// A notification.
    Event(QmpEvent),
}

/// A [`QmpMessage`] as plain values.
pub enum QmpMessageView {
    Greeting { banner: Seq<char> },
    Return { id: Option<u64>, value: Seq<char> },
    Failure { id: Option<u64>, reason: Seq<char> },
    Event(QmpEventView),
}

impl View for QmpMessage {
    type V = QmpMessageView;

    open spec fn view(&self) -> QmpMessageView {
        match self {
            QmpMessage::Greeting { banner } => QmpMessageView::Greeting { banner: banner@ },
            QmpMessage::Return { id, value } => QmpMessageView::Return { id: *id, value: value@ },
            QmpMessage::Failure { id, reason } => QmpMessageView::Failure {
                id: *id,
                reason: reason@,
            },
            QmpMessage::Event(e) => QmpMessageView::Event(e@),
        }
    }
}

/// What was read of one inbound document: whether it is JSON at all, and the
/// members by which the protocol tells its messages apart.
#[derive(Debug)]
pub struct WireFields {
    /// Why the document is no JSON, or `None` where it is.
    pub problem: Option<String>,
    /// The member `id`, where it is a number.
    pub id: Option<u64>,
    /// The member `return`.
    pub ret: Option<String>,
    /// The member `error`.
    pub error: Option<String>,
    /// The member `desc` of the member `error`, where it is a string.
    pub error_desc: Option<String>,
    /// The member `event`.
    pub event: Option<String>,
    /// The member `event`, where it is a string.
    pub event_name: Option<String>,
    /// The member `data`.
    pub data: Option<String>,
    /// The member `QMP`.
    pub greeting: Option<String>,
}

/// [`WireFields`] as plain values.
pub struct WireFieldsView {
    pub problem: Option<Seq<char>>,
    pub id: Option<u64>,
    pub ret: Option<Seq<char>>,
    pub error: Option<Seq<char>>,
    pub error_desc: Option<Seq<char>>,
    pub event: Option<Seq<char>>,
    pub event_name: Option<Seq<char>>,
    pub data: Option<Seq<char>>,
    pub greeting: Option<Seq<char>>,
}

impl View for WireFields {
    type V = WireFieldsView;

    open spec fn view(&self) -> WireFieldsView {
        WireFieldsView {
            problem: self.problem.deep_view(),
            id: self.id,
            ret: self.ret.deep_view(),
            error: self.error.deep_view(),
            error_desc: self.error_desc.deep_view(),
            event: self.event.deep_view(),
            event_name: self.event_name.deep_view(),
            data: self.data.deep_view(),
            greeting: self.greeting.deep_view(),
        }
    }
}

/// The number under `name` in the JSON object `doc`.
pub open spec fn json_member_u64(doc: Seq<char>, name: Seq<char>) -> Option<u64> {
    match json_member(doc, name) {
        Some(member) => json_u64(member),
        None => None,
    }
}

/// The text under `name` in the JSON object `doc`.
pub open spec fn json_member_string(doc: Seq<char>, name: Seq<char>) -> Option<Seq<char>> {
    match json_member(doc, name) {
        Some(member) => json_string(member),
        None => None,
    }
}

/// What is read of the document `line`: each member is what the JSON reader
/// finds under its name.
pub open spec fn wire_fields(line: Seq<char>) -> WireFieldsView {
    WireFieldsView {
        problem: json_problem(line),
        id: json_member_u64(line, "id"@),
        ret: json_member(line, "return"@),
        error: json_member(line, "error"@),
        error_desc: match json_member(line, "error"@) {
            Some(error) => json_member_string(error, "desc"@),
            None => None,
        },
        event: json_member(line, "event"@),
        event_name: json_member_string(line, "event"@),
        data: json_member(line, "data"@),
        greeting: json_member(line, "QMP"@),
    }
}

fn member_text(doc: &str, name: &str) -> (r: Option<String>)
    ensures
        r.deep_view() == json_member(doc@, name@),
{
    match read_member(doc, name) {
        Ok(member) => member,
        Err(_) => None,
    }
}

fn member_u64(doc: &str, name: &str) -> (r: Option<u64>)
    ensures
        r == json_member_u64(doc@, name@),
{
    match member_text(doc, name) {
        Some(member) => u64_value(member.as_str()),
        None => None,
    }
}

fn member_string(doc: &str, name: &str) -> (r: Option<String>)
    ensures
        r.deep_view() == json_member_string(doc@, name@),
{
    match member_text(doc, name) {
        Some(member) => string_value(member.as_str()),
        None => None,
    }
}

/// Reads of one document what the protocol needs to know of it.
pub fn read_fields(line: &str) -> (fields: WireFields)
    ensures
        fields@ == wire_fields(line@),
{
    let (problem, ret) = match read_member(line, "return") {
        Ok(member) => (None, member),
        Err(problem) => (Some(problem), None),
    };
    let error = member_text(line, "error");
    let error_desc = match &error {
        Some(e) => member_string(e.as_str(), "desc"),
        None => None,
    };
    WireFields {
        problem,
        id: member_u64(line, "id"),
        ret,
        error,
        error_desc,
        event: member_text(line, "event"),
        event_name: member_string(line, "event"),
        data: member_text(line, "data"),
        greeting: member_text(line, "QMP"),
    }
}

/// The message that a document with the fields `f` is, by its top-level
/// shape: a document with a `return` or an `error` member is an answer, one
/// with an `event` member a notification, one with a `QMP` member the
/// greeting. A document that is no JSON or has none of these is a protocol
/// error.
pub open spec fn classified(f: WireFieldsView) -> Result<QmpMessageView, ErrorView> {
    if f.problem is Some {
        Err(ErrorView::ProtocolError("malformed message: "@ + f.problem->0))
    } else if f.ret is Some {
        Ok(QmpMessageView::Return { id: f.id, value: f.ret->0 })
    } else if f.error is Some {
        Ok(
            QmpMessageView::Failure {
                id: f.id,
                reason: match f.error_desc {
                    Some(desc) => desc,
                    None => f.error->0,
                },
            },
        )
    } else if f.event is Some {
        match f.event_name {
            Some(name) => Ok(QmpMessageView::Event(QmpEventView { name, data: f.data })),
            None => Err(ErrorView::ProtocolError("event without a name"@)),
        }
    } else if f.greeting is Some {
        Ok(QmpMessageView::Greeting { banner: f.greeting->0 })
    } else {
        Err(ErrorView::ProtocolError("message of unknown shape"@))
    }
}

/// A message or an error as plain values.
pub open spec fn message_view(r: Result<QmpMessage, Error>) -> Result<QmpMessageView, ErrorView> {
    match r {
        Ok(message) => Ok(message@),
        Err(e) => Err(e@),
    }
}

/// Tells the messages of the protocol apart.
pub fn classify(fields: WireFields) -> (r: Result<QmpMessage, Error>)
    ensures
        message_view(r) == classified(fields@),
{
    let WireFields { problem, id, ret, error, error_desc, event, event_name, data, greeting } =
        fields;
    if let Some(problem) = problem {
        let mut text = String::from_str("malformed message: ");
        text.append(problem.as_str());
        return Err(Error::ProtocolError(text));
    }
    if let Some(value) = ret {
        return Ok(QmpMessage::Return { id, value });
    }
    if let Some(error) = error {
        let reason = match error_desc {
            Some(desc) => desc,
            None => error,
        };
        return Ok(QmpMessage::Failure { id, reason });
    }
    if event.is_some() {
        return match event_name {
            Some(name) => Ok(QmpMessage::Event(QmpEvent { name, data })),
            None => Err(Error::ProtocolError(String::from_str("event without a name"))),
        };
    }
    if let Some(banner) = greeting {
        return Ok(QmpMessage::Greeting { banner });
    }
    Err(Error::ProtocolError(String::from_str("message of unknown shape")))
}

/// Reads one document and tells what message it is.
pub fn decode_message(line: &str) -> (r: Result<QmpMessage, Error>)
    ensures
        message_view(r) == classified(wire_fields(line@)),
{
    classify(read_fields(line))
}

/// How far the handshake of a connection has come.
#[derive(Debug, Clone, Copy, PartialEq, Eq, Structural)]
pub enum Handshake {
    /// Nothing was received yet.
    AwaitingGreeting,
    /// The greeting came; capabilities are not negotiated.
    Greeted,
    /// The negotiation command was sent and waits for its answer.
    Negotiating,
    /// Commands may be sent.
    Ready,
}

/// A command that is ready to be written to the socket.
#[derive(Debug)]
pub struct QmpRequest {
    /// The number under which the answer will come.
    pub id: u64,
    /// The bytes to write, delimiter included.
    pub line: String,
}

/// What the reader of the socket does with one inbound message.
#[derive(Debug)]
pub enum Delivery {
    /// The greeting came: negotiate capabilities next.
    Greeted,
    /// Hand `value` to the caller that waits for the command `id`.
    Completed { id: u64, value: String },
    /// Fail the caller that waits for the command `id`.
    Failed { id: u64, error: Error },
    /// An event was put in the queue of the subscribers.
    Notified,
    /// The message was dropped; nobody's command is touched.
    Rejected(Error),
}

/// A [`Delivery`] as plain values.
pub enum DeliveryView {
    Greeted,
    Completed { id: u64, value: Seq<char> },
    Failed { id: u64, error: ErrorView },
    Notified,
    Rejected(ErrorView),
}

impl View for Delivery {
    type V = DeliveryView;

    open spec fn view(&self) -> DeliveryView {
        match self {
            Delivery::Greeted => DeliveryView::Greeted,
            Delivery::Completed { id, value } => DeliveryView::Completed { id: *id, value: value@ },
            Delivery::Failed { id, error } => DeliveryView::Failed { id: *id, error: error@ },
            Delivery::Notified => DeliveryView::Notified,
            Delivery::Rejected(e) => DeliveryView::Rejected(e@),
        }
    }
}

/// The state of one connection, apart from the socket.
#[derive(Debug)]
pub struct QmpClient {
    pub socket_path: String,
    buffer: Vec<u8>,
    handshake: Handshake,
    negotiation: Option<u64>,
    next_id: u64,
    pending: Vec<u64>,
    events: VecDeque<QmpEvent>,
    closed: bool,
}

/// A [`QmpClient`] as plain values.
pub struct QmpClientView {
    /// Where the control socket lies.
    pub socket_path: Seq<char>,
    /// The bytes of the message that has not ended yet.
    pub buffer: Seq<u8>,
    /// How far the handshake has come.
    pub handshake: Handshake,
    /// The number of the negotiation command while it waits for its answer.
    pub negotiation: Option<u64>,
    /// The number that the next command gets.
    pub next_id: u64,
    /// The numbers of the commands that wait for their answer, oldest first.
    pub pending: Seq<u64>,
    /// The events that nobody has taken yet, oldest first.
    pub events: Seq<QmpEventView>,
    /// Whether the connection was lost.
    pub closed: bool,
}

spec fn event_views(events: Seq<QmpEvent>) -> Seq<QmpEventView> {
    Seq::new(events.len(), |i: int| events[i]@)
}

impl View for QmpClient {
    type V = QmpClientView;

    closed spec fn view(&self) -> QmpClientView {
        QmpClientView {
            socket_path: self.socket_path@,
            buffer: self.buffer@,
            handshake: self.handshake,
            negotiation: self.negotiation,
            next_id: self.next_id,
            pending: self.pending@,
            events: event_views(self.events@),
            closed: self.closed,
        }
    }
}

/// A connection on which nothing has happened yet.
pub open spec fn fresh_client(socket_path: Seq<char>) -> QmpClientView {
    QmpClientView {
        socket_path,
        buffer: Seq::empty(),
        handshake: Handshake::AwaitingGreeting,
        negotiation: None,
        next_id: 1,
        pending: Seq::empty(),
        events: Seq::empty(),
        closed: false,
    }
}

/// `ids` without `id`.
pub open spec fn without(ids: Seq<u64>, id: u64) -> Seq<u64>
    decreases ids.len(),
{
    if ids.len() == 0 {
        ids
    } else if ids.last() == id {
        without(ids.drop_last(), id)
    } else {
        without(ids.drop_last(), id).push(ids.last())
    }
}

/// Why the command `kind` cannot be sent on the connection `c`, or `None`
/// where it can: a lost connection carries nothing, the negotiation command
/// is sent once and only after the greeting, and every other command only
/// after the negotiation.
pub open spec fn command_refusal(c: QmpClientView, kind: QmpCommandKind) -> Option<ErrorView> {
    if c.closed {
        Some(ErrorView::ConnectionLost)
    } else if c.next_id == u64::MAX {
        Some(ErrorView::ProtocolError("command numbers are used up"@))
    } else if kind == QmpCommandKind::QmpCapabilities {
        match c.handshake {
            Handshake::Greeted => None,
            Handshake::AwaitingGreeting => Some(
                ErrorView::ProtocolError("no greeting received"@),
            ),
            _ => Some(ErrorView::ProtocolError("capabilities already negotiated"@)),
        }
    } else if c.handshake == Handshake::Ready {
        None
    } else {
        Some(ErrorView::ProtocolError("capabilities not negotiated"@))
    }
}

/// The connection `c` after the command `kind` was numbered and put among
/// the waiting ones.
pub open spec fn after_command(c: QmpClientView, kind: QmpCommandKind) -> QmpClientView {
    QmpClientView {
        next_id: (c.next_id + 1) as u64,
        pending: c.pending.push(c.next_id),
        handshake: if kind == QmpCommandKind::QmpCapabilities {
            Handshake::Negotiating
        } else {
            c.handshake
        },
        negotiation: if kind == QmpCommandKind::QmpCapabilities {
            Some(c.next_id)
        } else {
            c.negotiation
        },
        ..c
    }
}

/// The error with which an answer is dropped that nobody waits for.
pub open spec fn unmatched() -> ErrorView {
    ErrorView::ProtocolError("answer matches no waiting command"@)
}

/// What is done with the message `m` on the connection `c`.
///
/// The greeting is accepted once. An answer goes to the command that waits
/// under its number, and is dropped where none does. An event is queued and
/// never looked up among the waiting commands.
pub open spec fn delivery(c: QmpClientView, m: QmpMessageView) -> DeliveryView {
    if c.closed {
        DeliveryView::Rejected(ErrorView::ConnectionLost)
    } else {
        match m {
            QmpMessageView::Greeting { banner } => if c.handshake == Handshake::AwaitingGreeting {
                DeliveryView::Greeted
            } else {
                DeliveryView::Rejected(ErrorView::ProtocolError("unexpected greeting"@))
            },
            QmpMessageView::Return { id, value } => match id {
                Some(i) => if c.pending.contains(i) {
                    DeliveryView::Completed { id: i, value }
                } else {
                    DeliveryView::Rejected(unmatched())
                },
                None => DeliveryView::Rejected(unmatched()),
            },
            QmpMessageView::Failure { id, reason } => match id {
                Some(i) => if c.pending.contains(i) {
                    DeliveryView::Failed { id: i, error: ErrorView::ProtocolError(reason) }
                } else {
                    DeliveryView::Rejected(unmatched())
                },
                None => DeliveryView::Rejected(unmatched()),
            },
            QmpMessageView::Event(e) => DeliveryView::Notified,
        }
    }
}

/// The connection `c` after the answer to the command `id` came; `accepted`
/// says whether the hypervisor did what was asked. The command waits no
/// longer, and where it was the negotiation the handshake ends or starts over.
pub open spec fn after_answer(c: QmpClientView, id: u64, accepted: bool) -> QmpClientView {
    QmpClientView {
        pending: without(c.pending, id),
        handshake: if c.negotiation == Some(id) {
            if accepted {
                Handshake::Ready
            } else {
                Handshake::Greeted
            }
        } else {
            c.handshake
        },
        negotiation: if c.negotiation == Some(id) {
            None
        } else {
            c.negotiation
        },
        ..c
    }
}

/// The connection `c` after the message `m` was dealt with.
pub open spec fn after_message(c: QmpClientView, m: QmpMessageView) -> QmpClientView {
    if c.closed {
        c
    } else {
        match m {
            QmpMessageView::Greeting { banner } => if c.handshake == Handshake::AwaitingGreeting {
                QmpClientView { handshake: Handshake::Greeted, ..c }
            } else {
                c
            },
            QmpMessageView::Return { id, value } => match id {
                Some(i) => after_answer(c, i, true),
                None => c,
            },
            QmpMessageView::Failure { id, reason } => match id {
                Some(i) => after_answer(c, i, false),
                None => c,
            },
            QmpMessageView::Event(e) => QmpClientView { events: c.events.push(e), ..c },
        }
    }
}

/// The connection `c` after it was lost: nothing waits any more and nothing
/// more can be sent.
pub open spec fn after_disconnect(c: QmpClientView) -> QmpClientView {
    QmpClientView { pending: Seq::empty(), negotiation: None, closed: true, ..c }
}

fn contains_id(ids: &Vec<u64>, id: u64) -> (found: bool)
    ensures
        found == ids@.contains(id),
{
    let mut i: usize = 0;
    while i < ids.len()
        invariant
            i <= ids@.len(),
            forall|j: int| 0 <= j < i ==> ids@[j] != id,
        decreases ids.len() - i,
    {
        if ids[i] == id {
            return true;
        }
        i += 1;
    }
    false
}

fn remove_id(ids: &Vec<u64>, id: u64) -> (kept: Vec<u64>)
    ensures
        kept@ == without(ids@, id),
{
    let mut kept: Vec<u64> = Vec::new();
    let mut i: usize = 0;
    assert(ids@.take(0) =~= Seq::<u64>::empty());
    while i < ids.len()
        invariant
            i <= ids@.len(),
            kept@ == without(ids@.take(i as int), id),
        decreases ids.len() - i,
    {
        assert(ids@.take(i + 1).drop_last() =~= ids@.take(i as int));
        if ids[i] != id {
            kept.push(ids[i]);
        }
        i += 1;
    }
    assert(ids@.take(i as int) =~= ids@);
    kept
}

impl QmpClient {
    /// The state of a connection to the socket at `socket_path` on which
    /// nothing has happened yet.
    pub fn new(socket_path: String) -> (client: Self)
        ensures
            client@ == fresh_client(socket_path@),
    {
        let client = QmpClient {
            socket_path,
            buffer: Vec::new(),
            handshake: Handshake::AwaitingGreeting,
            negotiation: None,
            next_id: 1,
            pending: Vec::new(),
            events: VecDeque::new(),
            closed: false,
        };
        assert(event_views(client.events@) =~= Seq::<QmpEventView>::empty());
        client
    }

    /// How far the handshake has come.
    pub fn handshake(&self) -> (h: Handshake)
        ensures
            h == self@.handshake,
    {
        self.handshake
    }

    /// Whether the connection was lost.
    pub fn is_closed(&self) -> (closed: bool)
        ensures
            closed == self@.closed,
    {
        self.closed
    }

    /// Whether the command `id` waits for its answer.
    pub fn is_pending(&self, id: u64) -> (waits: bool)
        ensures
            waits == self@.pending.contains(id),
    {
        contains_id(&self.pending, id)
    }

    /// How many commands wait for their answer.
    pub fn pending_count(&self) -> (n: usize)
        ensures
            n == self@.pending.len(),
    {
        self.pending.len()
    }

    /// Numbers a command, puts it among the waiting ones and hands back the
    /// line to write; or says why it cannot be sent, and changes nothing.
    pub fn begin_command(&mut self, kind: QmpCommandKind) -> (r: Result<QmpRequest, Error>)
        ensures
            match r {
                Ok(request) => {
                    &&& command_refusal(old(self)@, kind) is None
                    &&& final(self)@ == after_command(old(self)@, kind)
                    &&& request.id == old(self)@.next_id
                    &&& request.line@ == command_text(kind, request.id)
                },
                Err(e) => command_refusal(old(self)@, kind) == Some(e@) && final(self)@ == old(self)@,
            },
    {
        if self.closed {
            return Err(Error::ConnectionLost);
        }
        if self.next_id == u64::MAX {
            return Err(Error::ProtocolError(String::from_str("command numbers are used up")));
        }
        let negotiates = match kind {
            QmpCommandKind::QmpCapabilities => true,
            _ => false,
        };
        if negotiates {
            match self.handshake {
                Handshake::Greeted => {},
                Handshake::AwaitingGreeting => {
                    return Err(Error::ProtocolError(String::from_str("no greeting received")));
                },
                _ => {
                    return Err(
                        Error::ProtocolError(String::from_str("capabilities already negotiated")),
                    );
                },
            }
        } else {
            match self.handshake {
                Handshake::Ready => {},
                _ => {
                    return Err(
                        Error::ProtocolError(String::from_str("capabilities not negotiated")),
                    );
                },
            }
        }
        let id = self.next_id;
        self.next_id = id + 1;
        self.pending.push(id);
        if negotiates {
            self.handshake = Handshake::Negotiating;
            self.negotiation = Some(id);
        }
        Ok(QmpRequest { id, line: encode_command(kind, id) })
    }

    fn settle(&mut self, id: u64, accepted: bool)
        ensures
            final(self)@ == after_answer(old(self)@, id, accepted),
    {
        self.pending = remove_id(&self.pending, id);
        if self.negotiation == Some(id) {
            self.negotiation = None;
            self.handshake = if accepted {
                Handshake::Ready
            } else {
                Handshake::Greeted
            };
        }
    }

    /// Deals with one inbound message: says what the reader of the socket
    /// does with it and keeps the books.
    pub fn handle_message(&mut self, message: QmpMessage) -> (d: Delivery)
        ensures
            d@ == delivery(old(self)@, message@),
            final(self)@ == after_message(old(self)@, message@),
    {
        if self.closed {
            return Delivery::Rejected(Error::ConnectionLost);
        }
        match message {
            QmpMessage::Greeting { banner } => {
                match self.handshake {
                    Handshake::AwaitingGreeting => {
                        self.handshake = Handshake::Greeted;
                        Delivery::Greeted
                    },
                    _ => Delivery::Rejected(
                        Error::ProtocolError(String::from_str("unexpected greeting")),
                    ),
                }
            },
            QmpMessage::Return { id, value } => {
                match id {
                    Some(i) => {
                        let waits = contains_id(&self.pending, i);
                        self.settle(i, true);
                        if waits {
                            Delivery::Completed { id: i, value }
                        } else {
                            Delivery::Rejected(
                                Error::ProtocolError(
                                    String::from_str("answer matches no waiting command"),
                                ),
                            )
                        }
                    },
                    None => Delivery::Rejected(
                        Error::ProtocolError(String::from_str("answer matches no waiting command")),
                    ),
                }
            },
            QmpMessage::Failure { id, reason } => {
                match id {
                    Some(i) => {
                        let waits = contains_id(&self.pending, i);
                        self.settle(i, false);
                        if waits {
                            Delivery::Failed { id: i, error: Error::ProtocolError(reason) }
                        } else {
                            Delivery::Rejected(
                                Error::ProtocolError(
                                    String::from_str("answer matches no waiting command"),
                                ),
                            )
                        }
                    },
                    None => Delivery::Rejected(
                        Error::ProtocolError(String::from_str("answer matches no waiting command")),
                    ),
                }
            },
            QmpMessage::Event(event) => {
                let ghost e = event@;
                let ghost before = event_views(self.events@);
                self.events.push_back(event);
                assert(event_views(self.events@) =~= before.push(e));
                Delivery::Notified
            },
        }
    }

    /// Takes the waiter of the command `id` away, as a caller does that no
    /// longer wants the answer; says whether the command was waiting. The
    /// handshake and the other commands stay as they are.
    pub fn cancel(&mut self, id: u64) -> (was_waiting: bool)
        ensures
            was_waiting == old(self)@.pending.contains(id),
            final(self)@ == (QmpClientView {
                pending: without(old(self)@.pending, id),
                ..old(self)@
            }),
    {
        let was_waiting = contains_id(&self.pending, id);
        self.pending = remove_id(&self.pending, id);
        was_waiting
    }

    /// Gives up on the command `id` because its deadline passed: its waiter
    /// leaves as in [`QmpClient::cancel`], and the caller is failed with a
    /// timeout where the command was still waiting.
    pub fn expire(&mut self, id: u64) -> (r: Option<Error>)
        ensures
            r is Some <==> old(self)@.pending.contains(id),
            r matches Some(e) ==> e@ == ErrorView::Timeout("command "@ + decimal(id as nat)),
            final(self)@ == (QmpClientView {
                pending: without(old(self)@.pending, id),
                ..old(self)@
            }),
    {
        if self.cancel(id) {
            let mut text = String::from_str("command ");
            text.append(decimal_string(id).as_str());
            Some(Error::Timeout(text))
        } else {
            None
        }
    }

    /// Notes that the connection was lost and hands back the numbers of the
    /// commands that waited, oldest first: each of them is to be failed with
    /// [`Error::ConnectionLost`].
    pub fn disconnect(&mut self) -> (orphans: Vec<u64>)
        ensures
            orphans@ == old(self)@.pending,
            final(self)@ == after_disconnect(old(self)@),
    {
        let mut orphans: Vec<u64> = Vec::new();
        std::mem::swap(&mut self.pending, &mut orphans);
        self.negotiation = None;
        self.closed = true;
        orphans
    }

    /// Takes the oldest event that nobody has taken yet.
    pub fn next_event(&mut self) -> (event: Option<QmpEvent>)
        ensures
            match event {
                Some(e) => old(self)@.events.len() > 0 && e@ == old(self)@.events[0] && final(self)@ == (QmpClientView { events: old(self)@.events.drop_first(), ..old(self)@ }),
                None => old(self)@.events.len() == 0 && final(self)@ == old(self)@,
            },
    {
        let ghost before = event_views(self.events@);
        let event = self.events.pop_front();
        proof {
            if before.len() > 0 {
                assert(event_views(self.events@) =~= before.drop_first());
            }
        }
        event
    }

    /// How many events wait to be taken.
    pub fn event_count(&self) -> (n: usize)
        ensures
            n == self@.events.len(),
    {
        self.events.len()
    }
}

/// The message that the bytes `line` carry: they must be UTF-8 and a JSON
/// document of one of the protocol's shapes.
pub open spec fn line_message(line: Seq<u8>) -> Result<QmpMessageView, ErrorView> {
    if valid_utf8(line) {
        classified(wire_fields(decode_utf8(line)))
    } else {
        Err(ErrorView::ProtocolError("message is not UTF-8"@))
    }
}

/// What is done with the bytes of one message on the connection `c`, and the
/// connection afterwards. A message that cannot be read is dropped and
/// changes nothing.
pub open spec fn accept_line(c: QmpClientView, line: Seq<u8>) -> (DeliveryView, QmpClientView) {
    match line_message(line) {
        Ok(m) => (delivery(c, m), after_message(c, m)),
        Err(e) => (DeliveryView::Rejected(e), c),
    }
}

/// What is done with the messages `lines`, one after the other.
pub open spec fn accept_lines(c: QmpClientView, lines: Seq<Seq<u8>>) -> (
    Seq<DeliveryView>,
    QmpClientView,
)
    decreases lines.len(),
{
    if lines.len() == 0 {
        (Seq::empty(), c)
    } else {
        let (done, then) = accept_lines(c, lines.drop_last());
        let (d, last) = accept_line(then, lines.last());
        (done.push(d), last)
    }
}

/// What comes of the bytes `chunk` arriving on the connection `c`: the
/// messages that they complete are dealt with in the order of arrival.
pub open spec fn received(c: QmpClientView, chunk: Seq<u8>) -> (Seq<DeliveryView>, QmpClientView) {
    let (lines, rest) = fed(c.buffer, chunk);
    accept_lines(QmpClientView { buffer: rest, ..c }, lines)
}

/// Messages as plain bytes.
pub open spec fn line_views(lines: Seq<Vec<u8>>) -> Seq<Seq<u8>> {
    Seq::new(lines.len(), |i: int| lines[i]@)
}

/// Deliveries as plain values.
pub open spec fn delivery_views(deliveries: Seq<Delivery>) -> Seq<DeliveryView> {
    Seq::new(deliveries.len(), |i: int| deliveries[i]@)
}

/// Reads the bytes of one message.
pub fn decode_line(line: &[u8]) -> (r: Result<QmpMessage, Error>)
    ensures
        message_view(r) == line_message(line@),
{
    match text_of_bytes(line) {
        Some(text) => decode_message(text.as_str()),
        None => Err(Error::ProtocolError(String::from_str("message is not UTF-8"))),
    }
}

impl QmpClient {
    /// Takes in the bytes that arrived and hands back the messages that they
    /// complete, in the order of arrival; what follows the last delimiter is
    /// held until more arrives.
    pub fn feed(&mut self, chunk: &[u8]) -> (lines: Vec<Vec<u8>>)
        ensures
            line_views(lines@) == fed(old(self)@.buffer, chunk@).0,
            final(self)@ == (QmpClientView {
                buffer: fed(old(self)@.buffer, chunk@).1,
                ..old(self)@
            }),
    {
        let ghost held = self.buffer@;
        let mut lines: Vec<Vec<u8>> = Vec::new();
        let mut i: usize = 0;
        assert(chunk@.take(0) =~= Seq::<u8>::empty());
        assert(line_views(lines@) =~= fed(held, chunk@.take(0)).0);
        while i < chunk.len()
            invariant
                i <= chunk@.len(),
                line_views(lines@) == fed(held, chunk@.take(i as int)).0,
                self.buffer@ == fed(held, chunk@.take(i as int)).1,
                self.socket_path == old(self).socket_path,
                self.handshake == old(self).handshake,
                self.negotiation == old(self).negotiation,
                self.next_id == old(self).next_id,
                self.pending == old(self).pending,
                self.events == old(self).events,
                self.closed == old(self).closed,
            decreases chunk.len() - i,
        {
            assert(chunk@.take(i + 1).drop_last() =~= chunk@.take(i as int));
            let ghost before = line_views(lines@);
            let byte = chunk[i];
            if byte == MESSAGE_DELIMITER {
                let mut line: Vec<u8> = Vec::new();
                std::mem::swap(&mut self.buffer, &mut line);
                let ghost text = line@;
                lines.push(line);
                assert(line_views(lines@) =~= before.push(text));
            } else {
                self.buffer.push(byte);
            }
            i += 1;
        }
        assert(chunk@.take(i as int) =~= chunk@);
        lines
    }

    /// Takes in the bytes that arrived, deals with every message that they
    /// complete and says, message by message, what the reader of the socket
    /// does with it. A message that cannot be read is reported and dropped;
    /// the messages behind it are dealt with all the same.
    pub fn receive(&mut self, chunk: &[u8]) -> (deliveries: Vec<Delivery>)
        ensures
            delivery_views(deliveries@) == received(old(self)@, chunk@).0,
            final(self)@ == received(old(self)@, chunk@).1,
    {
        let lines = self.feed(chunk);
        let ghost start = self@;
        let ghost texts = line_views(lines@);
        let mut deliveries: Vec<Delivery> = Vec::new();
        let mut i: usize = 0;
        assert(texts.take(0) =~= Seq::<Seq<u8>>::empty());
        assert(delivery_views(deliveries@) =~= accept_lines(start, texts.take(0)).0);
        while i < lines.len()
            invariant
                i <= lines@.len(),
                texts == line_views(lines@),
                delivery_views(deliveries@) == accept_lines(start, texts.take(i as int)).0,
                self@ == accept_lines(start, texts.take(i as int)).1,
            decreases lines.len() - i,
        {
            assert(texts.take(i + 1).drop_last() =~= texts.take(i as int));
            assert(texts.take(i + 1).last() == lines@[i as int]@);
            let ghost before = delivery_views(deliveries@);
            let d = match decode_line(lines[i].as_slice()) {
                Ok(message) => self.handle_message(message),
                Err(e) => Delivery::Rejected(e),
            };
            let ghost dv = d@;
            deliveries.push(d);
            assert(delivery_views(deliveries@) =~= before.push(dv));
            i += 1;
        }
        assert(texts.take(i as int) =~= texts);
        deliveries
    }
}

/// Whether the bytes `chunk` are exactly one message, delimiter included,
/// and that message is `m`.
pub open spec fn one_message(chunk: Seq<u8>, m: QmpMessageView) -> bool {
    &&& chunk.len() > 0
    &&& chunk.last() == MESSAGE_DELIMITER
    &&& unfinished(chunk.drop_last())
    &&& line_message(chunk.drop_last()) == Ok::<QmpMessageView, ErrorView>(m)
}

/// On a connection that holds no part of a message, bytes that are exactly
/// one message are dealt with as that message.
pub proof fn lemma_received_one_message(c: QmpClientView, chunk: Seq<u8>, m: QmpMessageView)
    requires
        c.buffer == Seq::<u8>::empty(),
        one_message(chunk, m),
    ensures
        received(c, chunk) == (seq![delivery(c, m)], after_message(c, m)),
{
    let line = chunk.drop_last();
    lemma_fed_unfinished(c.buffer, line);
    assert(c.buffer + line =~= line);
    let lines = fed(c.buffer, chunk).0;
    assert(lines =~= seq![line]);
    assert(fed(c.buffer, chunk).1 =~= Seq::<u8>::empty());
    let start = QmpClientView { buffer: fed(c.buffer, chunk).1, ..c };
    assert(start == c);
    assert(lines.drop_last() =~= Seq::<Seq<u8>>::empty());
    assert(accept_lines(c, lines.drop_last()) == (Seq::<DeliveryView>::empty(), c));
    assert(Seq::<DeliveryView>::empty().push(delivery(c, m)) =~= seq![delivery(c, m)]);
}

/// What holds of the books of every connection: the waiting commands have
/// distinct numbers, all of them handed out already, oldest first.
pub open spec fn numbered(c: QmpClientView) -> bool {
    &&& forall|i: int| 0 <= i < c.pending.len() ==> 0 < #[trigger] c.pending[i] < c.next_id
    &&& forall|i: int, j: int|
        0 <= i < j < c.pending.len() ==> #[trigger] c.pending[i] < #[trigger] c.pending[j]
    &&& c.next_id >= 1
}

/// Removing a number keeps what is left in order, and the number is gone.
pub proof fn lemma_without(ids: Seq<u64>, id: u64)
    ensures
        !without(ids, id).contains(id),
        forall|x: u64| x != id ==> (without(ids, id).contains(x) <==> ids.contains(x)),
        without(ids, id).len() <= ids.len(),
        forall|k: int|
            0 <= k < without(ids, id).len() ==> exists|j: int|
                k <= j < ids.len() && ids[j] == #[trigger] without(ids, id)[k],
    decreases ids.len(),
{
    if ids.len() > 0 {
        let front = ids.drop_last();
        lemma_without(front, id);
        let kept = without(ids, id);
        assert forall|x: u64| x != id implies (kept.contains(x) <==> ids.contains(x)) by {
            if ids.contains(x) {
                let j = choose|j: int| 0 <= j < ids.len() && ids[j] == x;
                if j < front.len() {
                    assert(front[j] == x);
                    assert(front.contains(x));
                    let k = choose|k: int|
                        0 <= k < without(front, id).len() && without(front, id)[k] == x;
                    assert(kept[k] == x);
                } else {
                    assert(kept.last() == x);
                }
            }
            if kept.contains(x) {
                let k = choose|k: int| 0 <= k < kept.len() && kept[k] == x;
                if k < without(front, id).len() {
                    assert(without(front, id)[k] == x);
                    assert(without(front, id).contains(x));
                    let j = choose|j: int| 0 <= j < front.len() && front[j] == x;
                    assert(ids[j] == x);
                } else {
                    assert(ids.last() == x);
                    assert(ids[ids.len() - 1] == x);
                }
            }
        }
        assert forall|k: int| 0 <= k < kept.len() implies exists|j: int|
            k <= j < ids.len() && ids[j] == #[trigger] kept[k] by {
            if k < without(front, id).len() {
                let j = choose|j: int|
                    k <= j < front.len() && front[j] == without(front, id)[k];
                assert(ids[j] == kept[k]);
            } else {
                assert(ids[ids.len() - 1] == kept[k]);
            }
        }
        if kept.contains(id) {
            let k = choose|k: int| 0 <= k < kept.len() && kept[k] == id;
            if k < without(front, id).len() {
                assert(without(front, id)[k] == id);
                assert(without(front, id).contains(id));
            }
        }
    }
}

/// Every command gets a number that no command of the connection had before
/// and that no waiting command has: the numbers grow by one with each
/// command, and the books stay in order.
pub proof fn lemma_command_numbers_fresh(c: QmpClientView, kind: QmpCommandKind)
    requires
        numbered(c),
        command_refusal(c, kind) is None,
    ensures
        !c.pending.contains(c.next_id),
        after_command(c, kind).next_id == c.next_id + 1,
        after_command(c, kind).pending.last() == c.next_id,
        numbered(after_command(c, kind)),
{
    if c.pending.contains(c.next_id) {
        let i = choose|i: int| 0 <= i < c.pending.len() && c.pending[i] == c.next_id;
        assert(c.pending[i] < c.next_id);
    }
    let after = after_command(c, kind);
    assert forall|i: int| 0 <= i < after.pending.len() implies 0 < #[trigger] after.pending[i]
        < after.next_id by {
        if i < c.pending.len() {
            assert(after.pending[i] == c.pending[i]);
        }
    }
    assert forall|i: int, j: int| 0 <= i < j < after.pending.len() implies #[trigger] after.pending[i]
        < #[trigger] after.pending[j] by {
        assert(after.pending[i] == c.pending[i]);
        if j < c.pending.len() {
            assert(after.pending[j] == c.pending[j]);
        }
    }
}

/// An event is delivered to the subscribers in the order of arrival and never
/// touches the waiting commands; an answer takes exactly its own command from
/// the waiting ones and never touches the events.
pub proof fn lemma_events_and_answers_apart(c: QmpClientView, m: QmpMessageView)
    requires
        !c.closed,
    ensures
        m matches QmpMessageView::Event(e) ==> after_message(c, m).pending == c.pending
            && after_message(c, m).events == c.events.push(e) && delivery(c, m)
            == DeliveryView::Notified,
        !(m is Event) ==> after_message(c, m).events == c.events,
        m matches QmpMessageView::Return { id: Some(i), .. } ==> !after_message(
            c,
            m,
        ).pending.contains(i) && forall|x: u64|
            x != i ==> (after_message(c, m).pending.contains(x) <==> c.pending.contains(x)),
        m matches QmpMessageView::Failure { id: Some(i), .. } ==> !after_message(
            c,
            m,
        ).pending.contains(i) && forall|x: u64|
            x != i ==> (after_message(c, m).pending.contains(x) <==> c.pending.contains(x)),
{
    match m {
        QmpMessageView::Return { id: Some(i), .. } => {
            lemma_without(c.pending, i);
        },
        QmpMessageView::Failure { id: Some(i), .. } => {
            lemma_without(c.pending, i);
        },
        _ => {},
    }
}

/// Whatever message is dealt with, the books stay in order.
pub proof fn lemma_message_keeps_numbered(c: QmpClientView, m: QmpMessageView)
    requires
        numbered(c),
    ensures
        numbered(after_message(c, m)),
{
    let after = after_message(c, m);
    let id = match m {
        QmpMessageView::Return { id: Some(i), .. } => Some(i),
        QmpMessageView::Failure { id: Some(i), .. } => Some(i),
        _ => None,
    };
    if !c.closed && id is Some {
        let i = id->0;
        lemma_without(c.pending, i);
        assert(after.pending == without(c.pending, i));
        lemma_without_ordered(c.pending, i);
        assert forall|k: int| 0 <= k < after.pending.len() implies 0 < #[trigger] after.pending[k]
            < after.next_id by {
            let j = choose|j: int| k <= j < c.pending.len() && c.pending[j] == after.pending[k];
            assert(0 < c.pending[j] < c.next_id);
        }
    }
}

/// Removing a number from numbers in growing order leaves them in growing
/// order.
pub proof fn lemma_without_ordered(ids: Seq<u64>, id: u64)
    requires
        forall|i: int, j: int| 0 <= i < j < ids.len() ==> #[trigger] ids[i] < #[trigger] ids[j],
    ensures
        forall|i: int, j: int|
            0 <= i < j < without(ids, id).len() ==> #[trigger] without(ids, id)[i]
                < #[trigger] without(ids, id)[j],
    decreases ids.len(),
{
    if ids.len() > 0 {
        let front = ids.drop_last();
        assert forall|i: int, j: int| 0 <= i < j < front.len() implies #[trigger] front[i]
            < #[trigger] front[j] by {
            assert(front[i] == ids[i]);
            assert(front[j] == ids[j]);
        }
        lemma_without_ordered(front, id);
        lemma_without(front, id);
        let kept = without(ids, id);
        let inner = without(front, id);
        assert forall|i: int, j: int| 0 <= i < j < kept.len() implies #[trigger] kept[i]
            < #[trigger] kept[j] by {
            if j < inner.len() {
                assert(kept[i] == inner[i]);
                assert(kept[j] == inner[j]);
            } else {
                assert(kept[j] == ids[ids.len() - 1]);
                assert(kept[i] == inner[i]);
                let k = choose|k: int| i <= k < front.len() && front[k] == inner[i];
                assert(ids[k] < ids[ids.len() - 1]);
            }
        }
    }
}

/// When the connection is lost every waiter is handed back to be failed and
/// none is left; nothing more can be sent.
pub proof fn lemma_disconnect_fails_all(c: QmpClientView, kind: QmpCommandKind)
    ensures
        after_disconnect(c).pending.len() == 0,
        command_refusal(after_disconnect(c), kind) == Some(ErrorView::ConnectionLost),
        numbered(c) ==> numbered(after_disconnect(c)),
{
}

} // verus!
