//! The failures that the library reports.

use vstd::prelude::*;

verus! {

/// What can go wrong while machines are created, started and driven.
#[derive(Debug)]
pub enum Error {
    /// No hypervisor binary was found on this host.
    QemuNotFound,
    /// The hypervisor or one of its tools failed.
    QemuError(String),
    /// A lifecycle operation is not legal in the machine's present state.
    VMError(String),
    /// The host platform could not be probed.
    PlatformError(String),
    /// The durable registry failed.
    DatabaseError(String),
    /// An operating-system call failed, such as starting a process.
    IoError(String),
    /// A text that should have been JSON was not.
    JsonError(String),
    /// A stored setting is unusable.
    ConfigError(String),
    /// A machine configuration breaks one of its constraints.
    InvalidConfig(String),
    /// The control protocol was violated or the hypervisor refused a command.
    ProtocolError(String),
    /// The control socket was closed while commands were in flight.
    ConnectionLost,
    /// A deadline passed before the awaited answer or exit.
    Timeout(String),
}

/// An [`Error`] as plain text.
pub enum ErrorView {
    QemuNotFound,
    QemuError(Seq<char>),
    VMError(Seq<char>),
    PlatformError(Seq<char>),
    DatabaseError(Seq<char>),
    IoError(Seq<char>),
    JsonError(Seq<char>),
    ConfigError(Seq<char>),
    InvalidConfig(Seq<char>),
    ProtocolError(Seq<char>),
    ConnectionLost,
    Timeout(Seq<char>),
}

impl View for Error {
    type V = ErrorView;

    open spec fn view(&self) -> ErrorView {
        match self {
            Error::QemuNotFound => ErrorView::QemuNotFound,
            Error::QemuError(m) => ErrorView::QemuError(m@),
            Error::VMError(m) => ErrorView::VMError(m@),
            Error::PlatformError(m) => ErrorView::PlatformError(m@),
            Error::DatabaseError(m) => ErrorView::DatabaseError(m@),
            Error::IoError(m) => ErrorView::IoError(m@),
            Error::JsonError(m) => ErrorView::JsonError(m@),
            Error::ConfigError(m) => ErrorView::ConfigError(m@),
            Error::InvalidConfig(m) => ErrorView::InvalidConfig(m@),
            Error::ProtocolError(m) => ErrorView::ProtocolError(m@),
            Error::ConnectionLost => ErrorView::ConnectionLost,
            Error::Timeout(m) => ErrorView::Timeout(m@),
        }
    }
}

/// The error for an operation that needs a supervised process where there is none.
pub open spec fn not_running() -> ErrorView {
    ErrorView::VMError("VM not running"@)
}

/// The error for a start of a machine that is already up.
pub open spec fn already_running() -> ErrorView {
    ErrorView::VMError("VM already running"@)
}

/// The sentence that describes `e` to a caller.
pub open spec fn error_text(e: ErrorView) -> Seq<char> {
    match e {
        ErrorView::QemuNotFound => "QEMU not found"@,
        ErrorView::QemuError(m) => "QEMU error: "@ + m,
        ErrorView::VMError(m) => "VM error: "@ + m,
        ErrorView::PlatformError(m) => "Platform error: "@ + m,
        ErrorView::DatabaseError(m) => "Database error: "@ + m,
        ErrorView::IoError(m) => "IO error: "@ + m,
        ErrorView::JsonError(m) => "JSON error: "@ + m,
        ErrorView::ConfigError(m) => "Configuration error: "@ + m,
        ErrorView::InvalidConfig(m) => "Invalid VM configuration: "@ + m,
        ErrorView::ProtocolError(m) => "Protocol error: "@ + m,
        ErrorView::ConnectionLost => "Connection lost"@,
        ErrorView::Timeout(m) => "Timed out: "@ + m,
    }
}

fn prefixed(prefix: &str, detail: &String) -> (s: String)
    ensures
        s@ == prefix@ + detail@,
{
    let mut s = String::from_str(prefix);
    s.append(detail.as_str());
    s
}

impl Error {
    /// The sentence that describes this error to a caller.
    pub fn message(&self) -> (s: String)
        ensures
            s@ == error_text(self@),
    {
        match self {
            Error::QemuNotFound => String::from_str("QEMU not found"),
            Error::QemuError(m) => prefixed("QEMU error: ", m),
            Error::VMError(m) => prefixed("VM error: ", m),
            Error::PlatformError(m) => prefixed("Platform error: ", m),
            Error::DatabaseError(m) => prefixed("Database error: ", m),
            Error::IoError(m) => prefixed("IO error: ", m),
            Error::JsonError(m) => prefixed("JSON error: ", m),
            Error::ConfigError(m) => prefixed("Configuration error: ", m),
            Error::InvalidConfig(m) => prefixed("Invalid VM configuration: ", m),
            Error::ProtocolError(m) => prefixed("Protocol error: ", m),
            Error::ConnectionLost => String::from_str("Connection lost"),
            Error::Timeout(m) => prefixed("Timed out: ", m),
        }
    }
}

impl Clone for Error {
    fn clone(&self) -> (r: Self)
        ensures
            r@ == self@,
    {
        match self {
            Error::QemuNotFound => Error::QemuNotFound,
            Error::QemuError(m) => Error::QemuError(m.clone()),
            Error::VMError(m) => Error::VMError(m.clone()),
            Error::PlatformError(m) => Error::PlatformError(m.clone()),
            Error::DatabaseError(m) => Error::DatabaseError(m.clone()),
            Error::IoError(m) => Error::IoError(m.clone()),
            Error::JsonError(m) => Error::JsonError(m.clone()),
            Error::ConfigError(m) => Error::ConfigError(m.clone()),
            Error::InvalidConfig(m) => Error::InvalidConfig(m.clone()),
            Error::ProtocolError(m) => Error::ProtocolError(m.clone()),
            Error::ConnectionLost => Error::ConnectionLost,
            Error::Timeout(m) => Error::Timeout(m.clone()),
        }
    }
}

} // verus!
