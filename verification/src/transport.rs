//! One connection of the secure transport, as a state machine.
//!
//! A connection is opened, runs its handshake, sends one request, and reads
//! until the peer closes the stream. The machine does not perform any of
//! this: it says which step is next, is told how the step went, and moves on.
//! Whoever drives it holds the socket and the secure session.

use crate::http::Reply;
use vstd::prelude::*;

verus! {

/// What comes next while the response is read.
#[derive(Clone, Copy, Debug, PartialEq, Eq, Structural)]
pub enum Pending {
    /// A read of the session.
    Read,
    /// The read found nothing ready: the session is driven, then read again.
    /// An error here breaks the connection.
    Recover,
    /// After a read, the session is driven to take in what the peer has sent.
    /// An error here ends the stream: what was read stands.
    Drain,
}

/// Why a connection failed.
#[derive(Clone, Copy, Debug, PartialEq, Eq, Structural)]
pub enum Fault {
    /// The host could not be reached.
    Connection,
    /// The secure session could not be set up or broke down.
    Tls,
}

/// Where a connection stands.
#[derive(Clone, Copy, Debug, PartialEq, Eq, Structural)]
pub enum Phase {
    /// Not opened yet.
    Connecting,
    /// Opened; the handshake of the session goes on.
    Handshaking,
    /// The session stands; the request is to be sent.
    Requesting,
    /// The request is sent; the response is being read.
    Reading(Pending),
    /// The peer has closed the stream: the response is there.
    Complete,
    /// The connection has failed.
    Failed(Fault),
}

/// The step that a connection asks for.
#[derive(Clone, Copy, Debug, PartialEq, Eq, Structural)]
pub enum Action {
    /// Open the connection to the host and set up the session.
    Connect,
    /// Let the session exchange with the socket what it has to.
    Drive,
    /// Hand the request to the session and let the session send it.
    Send,
    /// Read from the session what it has deciphered.
    Read,
    /// Nothing more: the connection is done with.
    Finish,
}

/// How a step went.
#[derive(Debug, PartialEq, Eq)]
pub enum Signal {
    /// `Connect` succeeded.
    Connected,
    /// `Connect` failed before the session: the host could not be reached.
    Refused,
    /// `Drive` succeeded; `handshaking` says whether the handshake still
    /// goes on.
    Driven { handshaking: bool },
    /// `Send` succeeded.
    Sent,
    /// `Read` gave these bytes, at least one.
    Data(Vec<u8>),
    /// `Read` found the stream closed by the peer.
    Closed,
    /// The step found nothing ready yet.
    WouldBlock,
    /// The step failed for any other reason.
    Error,
}

/// One connection: where it stands, and what it has read so far.
#[derive(Debug, PartialEq, Eq)]
pub struct Connection {
    /// Where the connection stands.
    pub phase: Phase,
    /// The bytes of the response that were read so far.
    pub received: Vec<u8>,
}

/// A connection, with what it has read as a sequence of bytes.
pub struct ConnectionView {
    pub phase: Phase,
    pub received: Seq<u8>,
}

impl View for Connection {
    type V = ConnectionView;

    open spec fn view(&self) -> ConnectionView {
        ConnectionView { phase: self.phase, received: self.received@ }
    }
}

/// The step that a phase asks for.
pub open spec fn action_of(phase: Phase) -> Action {
    match phase {
        Phase::Connecting => Action::Connect,
        Phase::Handshaking => Action::Drive,
        Phase::Requesting => Action::Send,
        Phase::Reading(Pending::Read) => Action::Read,
        Phase::Reading(Pending::Recover) => Action::Drive,
        Phase::Reading(Pending::Drain) => Action::Drive,
        Phase::Complete => Action::Finish,
        Phase::Failed(_) => Action::Finish,
    }
}

/// The phase that follows when, in `phase`, the step went as `signal` says.
///
/// The handshake is driven until the session says that it is over; an error
/// ends it. Then the request is sent, and the response is read. A read that
/// gives bytes, or finds nothing ready, is followed by a drive of the session
/// and the next read. Nothing ready is no error. The stream ends when a read
/// finds it closed, or when the drive after a read fails. A signal that does
/// not belong to the step that was asked for breaks the connection.
pub open spec fn next_phase(phase: Phase, signal: Signal) -> Phase {
    match phase {
        Phase::Connecting => match signal {
            Signal::Connected => Phase::Handshaking,
            Signal::Refused => Phase::Failed(Fault::Connection),
            _ => Phase::Failed(Fault::Tls),
        },
        Phase::Handshaking => match signal {
            Signal::Driven { handshaking } => if handshaking {
                Phase::Handshaking
            } else {
                Phase::Requesting
            },
            _ => Phase::Failed(Fault::Tls),
        },
        Phase::Requesting => match signal {
            Signal::Sent => Phase::Reading(Pending::Read),
            _ => Phase::Failed(Fault::Tls),
        },
        Phase::Reading(Pending::Read) => match signal {
            Signal::Data(_) => Phase::Reading(Pending::Drain),
            Signal::Closed => Phase::Complete,
            Signal::WouldBlock => Phase::Reading(Pending::Recover),
            _ => Phase::Failed(Fault::Tls),
        },
        Phase::Reading(Pending::Recover) => match signal {
            Signal::Driven { .. } => Phase::Reading(Pending::Drain),
            _ => Phase::Failed(Fault::Tls),
        },
        Phase::Reading(Pending::Drain) => match signal {
            Signal::Driven { .. } => Phase::Reading(Pending::Read),
            Signal::WouldBlock => Phase::Reading(Pending::Read),
            Signal::Error => Phase::Complete,
            _ => Phase::Failed(Fault::Tls),
        },
        Phase::Complete => Phase::Complete,
        Phase::Failed(fault) => Phase::Failed(fault),
    }
}

/// What a connection has read once the step went as `signal` says: the bytes
/// of a read are added to it, and nothing else changes it.
pub open spec fn next_received(phase: Phase, received: Seq<u8>, signal: Signal) -> Seq<u8> {
    match (phase, signal) {
        (Phase::Reading(Pending::Read), Signal::Data(bytes)) => received + bytes@,
        _ => received,
    }
}

/// The connection after a step.
pub open spec fn next_state(c: ConnectionView, signal: Signal) -> ConnectionView {
    ConnectionView {
        phase: next_phase(c.phase, signal),
        received: next_received(c.phase, c.received, signal),
    }
}

impl Connection {
    /// A connection that has not been opened yet.
    pub fn new() -> (c: Connection)
        ensures
            c@ == (ConnectionView { phase: Phase::Connecting, received: Seq::empty() }),
    {
        Connection { phase: Phase::Connecting, received: Vec::new() }
    }

    /// The step to take next.
    pub fn action(&self) -> (a: Action)
        ensures
            a == action_of(self.phase),
    {
        match self.phase {
            Phase::Connecting => Action::Connect,
            Phase::Handshaking => Action::Drive,
            Phase::Requesting => Action::Send,
            Phase::Reading(Pending::Read) => Action::Read,
            Phase::Reading(Pending::Recover) => Action::Drive,
            Phase::Reading(Pending::Drain) => Action::Drive,
            Phase::Complete => Action::Finish,
            Phase::Failed(_) => Action::Finish,
        }
    }

    /// Moves on after a step, told how it went.
    pub fn on_signal(self, signal: Signal) -> (c: Connection)
        ensures
            c@ == next_state(self@, signal),
    {
        let mut received = self.received;
        let phase = match self.phase {
            Phase::Connecting => match signal {
                Signal::Connected => Phase::Handshaking,
                Signal::Refused => Phase::Failed(Fault::Connection),
                _ => Phase::Failed(Fault::Tls),
            },
            Phase::Handshaking => match signal {
                Signal::Driven { handshaking } => if handshaking {
                    Phase::Handshaking
                } else {
                    Phase::Requesting
                },
                _ => Phase::Failed(Fault::Tls),
            },
            Phase::Requesting => match signal {
                Signal::Sent => Phase::Reading(Pending::Read),
                _ => Phase::Failed(Fault::Tls),
            },
            Phase::Reading(Pending::Read) => match signal {
                Signal::Data(bytes) => {
                    let mut bytes = bytes;
                    received.append(&mut bytes);
                    Phase::Reading(Pending::Drain)
                },
                Signal::Closed => Phase::Complete,
                Signal::WouldBlock => Phase::Reading(Pending::Recover),
                _ => Phase::Failed(Fault::Tls),
            },
            Phase::Reading(Pending::Recover) => match signal {
                Signal::Driven { .. } => Phase::Reading(Pending::Drain),
                _ => Phase::Failed(Fault::Tls),
            },
            Phase::Reading(Pending::Drain) => match signal {
                Signal::Driven { .. } => Phase::Reading(Pending::Read),
                Signal::WouldBlock => Phase::Reading(Pending::Read),
                Signal::Error => Phase::Complete,
                _ => Phase::Failed(Fault::Tls),
            },
            Phase::Complete => Phase::Complete,
            Phase::Failed(fault) => Phase::Failed(fault),
        };
        Connection { phase, received }
    }

    /// What the connection reports of its request, once it is done with:
    /// the bytes of the response, or why there are none. Nothing while it
    /// still asks for a step.
    pub fn reply(self) -> (r: Option<Reply>)
        ensures
            match self.phase {
                Phase::Complete => r == Some(Reply::Received(self.received)),
                Phase::Failed(Fault::Connection) => r == Some(Reply::ConnectionFailed),
                Phase::Failed(Fault::Tls) => r == Some(Reply::TlsFailed),
                _ => r is None,
            },
    {
        match self.phase {
            Phase::Complete => Some(Reply::Received(self.received)),
            Phase::Failed(Fault::Connection) => Some(Reply::ConnectionFailed),
            Phase::Failed(Fault::Tls) => Some(Reply::TlsFailed),
            _ => None,
        }
    }
}

// ---------------------------------------------------------------------------
// Laws
// ---------------------------------------------------------------------------

/// A connection is done with exactly when it asks for no further step, and
/// then no signal changes it.
pub proof fn lemma_finished_stays(c: ConnectionView, signal: Signal)
    ensures
        action_of(c.phase) == Action::Finish <==> (c.phase == Phase::Complete
            || c.phase is Failed),
        action_of(c.phase) == Action::Finish ==> next_state(c, signal) == c,
{
}

/// Nothing is ever taken from what a connection has read: what it has read
/// before a step stands at the start of what it has read after it.
pub proof fn lemma_received_grows(c: ConnectionView, signal: Signal)
    ensures
        c.received.is_prefix_of(next_state(c, signal).received),
{
}

/// A read that finds nothing ready is no failure: the session is driven, and
/// the read comes again.
pub proof fn lemma_would_block_retries(received: Seq<u8>, handshaking: bool)
    ensures
        ({
            let reading = ConnectionView { phase: Phase::Reading(Pending::Read), received };
            let blocked = next_state(reading, Signal::WouldBlock);
            let driven = next_state(blocked, Signal::Driven { handshaking });
            let drained = next_state(driven, Signal::Driven { handshaking });
            &&& action_of(blocked.phase) == Action::Drive
            &&& action_of(drained.phase) == Action::Read
            &&& drained.received == received
        }),
{
}

} // verus!
