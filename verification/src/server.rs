//! The accept loop's decisions: where to listen, what to report, and what
//! to do after each bind, accept and served connection.
//!
//! The server listens on the loopback address only and serves one
//! connection at a time: a connection is handled to its end before the
//! next one is accepted.

use crate::log::{done, error, log_line, Color};
use crate::text::byte_to_char;
use vstd::prelude::*;
use vstd::string::StringExecFns;

verus! {

/// What the server is started with. It does not change while the server
/// runs.
#[derive(Debug)]
pub struct Config {
    /// The directory that is served, as an absolute path.
    pub dir: String,
    /// The port to listen on.
    pub port: u16,
}

/// The character of a decimal digit.
pub open spec fn digit(d: nat) -> char {
    (0x30 + d) as char
}

/// `n` in decimal, without leading zeros.
pub open spec fn decimal(n: nat) -> Seq<char>
    decreases n,
{
    if n < 10 {
        seq![digit(n)]
    } else {
        decimal(n / 10).push(digit(n % 10))
    }
}

/// The address to listen on: the loopback address and `port`.
pub open spec fn address_of(port: u16) -> Seq<char> {
    "127.0.0.1:"@ + decimal(port as nat)
}

/// The message that the server is ready.
pub open spec fn ready_message(dir: Seq<char>, port: u16) -> Seq<char> {
    "serving `"@ + dir + "` on port `"@ + decimal(port as nat) + "`"@
}

/// The message that binding to `address` failed.
pub open spec fn bind_failure_message(address: Seq<char>) -> Seq<char> {
    "could not bind to "@ + address
}

/// The message that `peer` has connected.
pub open spec fn connection_message(peer: Seq<char>) -> Seq<char> {
    "got connection from "@ + peer
}

/// Writes `n` in decimal.
pub fn decimal_text(n: u16) -> (text: String)
    ensures
        text@ == decimal(n as nat),
    decreases n,
{
    let last: u8 = (n % 10) as u8;
    if n < 10 {
        let mut text = String::new();
        text.push(byte_to_char(0x30 + last));
        assert(text@ =~= seq![digit(n as nat)]);
        text
    } else {
        let mut text = decimal_text(n / 10);
        text.push(byte_to_char(0x30 + last));
        text
    }
}

/// The address to listen on for `port`.
pub fn bind_address(port: u16) -> (address: String)
    ensures
        address@ == address_of(port),
{
    let mut address = String::from_str("127.0.0.1:");
    address.append(decimal_text(port).as_str());
    address
}

/// The log line for a peer that has connected; `peer` is its address as
/// text.
pub fn connection_line(peer: &str) -> (line: String)
    ensures
        line@ == log_line(Color::Blue, "INFO"@, connection_message(peer@)),
{
    let mut message = String::from_str("got connection from ");
    message.append(peer);
    crate::log::info(&message)
}

/// What has happened to the server.
#[derive(Clone, Copy, Debug, PartialEq, Eq, Structural)]
pub enum ServerEvent {
    /// The server was started.
    Started,
    /// The listener is bound.
    Bound,
    /// The listener could not be bound.
    BindFailed,
    /// A connection was accepted.
    Accepted,
    /// Accepting a connection failed.
    AcceptFailed,
    /// The accepted connection was handled to its end.
    Served,
    /// Handling the accepted connection failed.
    ServeFailed,
}

/// What the server does next.
#[derive(Debug)]
pub enum ServerAction {
    /// Bind a listener to `address`.
    Bind { address: String },
    /// Print `line`, if any, and accept the next connection.
    Accept { line: Option<String> },
    /// Handle the accepted connection to its end.
    Serve,
    /// Print `report` and return without serving.
    Stop { report: String },
    /// Fail: the error of a connection ends the server.
    Abort,
}

/// What a `ServerAction` holds.
pub enum ActionModel {
    Bind { address: Seq<char> },
    Accept { line: Option<Seq<char>> },
    Serve,
    Stop { report: Seq<char> },
    Abort,
}

impl View for ServerAction {
    type V = ActionModel;

    open spec fn view(&self) -> ActionModel {
        match self {
            ServerAction::Bind { address } => ActionModel::Bind { address: address@ },
            ServerAction::Accept { line } => ActionModel::Accept {
                line: match line {
                    Some(text) => Some(text@),
                    None => None,
                },
            },
            ServerAction::Serve => ActionModel::Serve,
            ServerAction::Stop { report } => ActionModel::Stop { report: report@ },
            ServerAction::Abort => ActionModel::Abort,
        }
    }
}

/// What the server does after `event`.
///
/// It binds when started. Once bound it reports that it is ready and
/// accepts. If it cannot bind it reports that and stops. An accepted
/// connection is served; a failed accept is reported and the next
/// connection accepted. After a served connection the next one is
/// accepted; a connection that failed ends the server.
pub open spec fn next_action(dir: Seq<char>, port: u16, event: ServerEvent) -> ActionModel {
    match event {
        ServerEvent::Started => ActionModel::Bind { address: address_of(port) },
        ServerEvent::Bound => ActionModel::Accept {
            line: Some(log_line(Color::Green, "DONE"@, ready_message(dir, port))),
        },
        ServerEvent::BindFailed => ActionModel::Stop {
            report: log_line(Color::Red, "ERR!"@, bind_failure_message(address_of(port))),
        },
        ServerEvent::Accepted => ActionModel::Serve,
        ServerEvent::AcceptFailed => ActionModel::Accept {
            line: Some(log_line(Color::Red, "ERR!"@, "could not accept connection"@)),
        },
        ServerEvent::Served => ActionModel::Accept { line: None },
        ServerEvent::ServeFailed => ActionModel::Abort,
    }
}

/// One connection at a time: the server accepts only when it has just been
/// bound, when an accept has failed, or when the connection it accepted has
/// been served. After it has accepted a connection it serves that one, and
/// a connection that fails ends it.
pub proof fn lemma_accepts_only_when_idle(dir: Seq<char>, port: u16, event: ServerEvent)
    ensures
        next_action(dir, port, event) is Accept <==> (event == ServerEvent::Bound || event
            == ServerEvent::AcceptFailed || event == ServerEvent::Served),
        next_action(dir, port, event) is Serve <==> event == ServerEvent::Accepted,
        next_action(dir, port, event) is Abort <==> event == ServerEvent::ServeFailed,
{
}

/// Decides what the server does after `event`.
pub fn serve_step(config: &Config, event: ServerEvent) -> (action: ServerAction)
    ensures
        action@ == next_action(config.dir@, config.port, event),
{
    match event {
        ServerEvent::Started => ServerAction::Bind { address: bind_address(config.port) },
        ServerEvent::Bound => {
            let mut message = String::from_str("serving `");
            message.append(config.dir.as_str());
            message.append("` on port `");
            message.append(decimal_text(config.port).as_str());
            message.append("`");
            ServerAction::Accept { line: Some(done(&message)) }
        },
        ServerEvent::BindFailed => {
            let mut message = String::from_str("could not bind to ");
            message.append(bind_address(config.port).as_str());
            ServerAction::Stop { report: error(&message) }
        },
        ServerEvent::Accepted => ServerAction::Serve,
        ServerEvent::AcceptFailed => {
            let message = String::from_str("could not accept connection");
            ServerAction::Accept { line: Some(error(&message)) }
        },
        ServerEvent::Served => ServerAction::Accept { line: None },
        ServerEvent::ServeFailed => ServerAction::Abort,
    }
}

} // verus!
