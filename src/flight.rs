use vstd::prelude::*;
use crate::error::{internal, ErrorKind, ServerError};
use crate::mappings::NodeMapping;

verus! {

/// The size that the telemetry receive buffer starts at.
pub const INITIAL_FRAME_BUFFER: usize = 521;

/// A named operator script, relayed verbatim to the flight computer.
#[derive(Clone, Debug)]
pub struct Sequence {
    pub name: String,
    pub script: String,
}

/// A message on the command channel to the flight computer.
#[derive(Debug)]
pub enum FlightControlMessage {
    Mappings(Vec<NodeMapping>),
    Sequence(Sequence),
}

/// What to do with a newly accepted command connection.
#[derive(Clone, Copy, Debug, PartialEq, Eq, Structural)]
pub enum AcceptAction {
    /// Install it as the flight session and start receiving telemetry.
    Install,
    /// Close it at once: a session is already held.
    Close,
}

/// The slot that holds the flight session, and the last message handed to it.
pub struct FlightLink {
    session: Option<u64>,
    last_sent: Option<FlightControlMessage>,
}

impl FlightLink {
    /// The connection that holds the session, if any.
    pub closed spec fn session(&self) -> Option<u64> {
        self.session
    }

    /// The last message handed to the session for sending.
    pub closed spec fn sent(&self) -> Option<FlightControlMessage> {
        self.last_sent
    }

    /// The number of sessions held: never more than one.
    pub open spec fn held_count(&self) -> nat {
        if self.session() is Some { 1 } else { 0 }
    }

    /// A slot with no session, as at startup.
    pub fn new() -> (r: FlightLink)
        ensures
            r.session() is None,
            r.sent() is None,
    {
        FlightLink { session: None, last_sent: None }
    }

    /// Whether a session is held.
    pub fn is_connected(&self) -> (r: bool)
        ensures
            r == self.session() is Some,
    {
        self.session.is_some()
    }

    /// The last message handed to the session, for the caller to encode and write.
    pub fn last_sent(&self) -> (r: &Option<FlightControlMessage>)
        ensures
            *r == self.sent(),
    {
        &self.last_sent
    }

    /// Decides on a newly accepted command connection: it becomes the session
    /// when none is held, and is closed otherwise, leaving the held one as it was.
    pub fn accept(&mut self, connection: u64) -> (r: AcceptAction)
        ensures
            old(self).session() is None ==> r == AcceptAction::Install && final(self).session() == Some(connection),
            old(self).session() is Some ==> r == AcceptAction::Close && final(self).session() == old(self).session(),
            final(self).sent() == old(self).sent(),
            final(self).held_count() <= 1,
    {
        if self.session.is_none() {
            self.session = Some(connection);
            AcceptAction::Install
        } else {
            AcceptAction::Close
        }
    }

    /// Clears the slot when the session's telemetry loop ends.
    pub fn end_session(&mut self)
        ensures
            final(self).session() is None,
            final(self).sent() == old(self).sent(),
    {
        self.session = None;
    }

    /// Hands a message to the session for sending; fails with `Internal`,
    /// handing over nothing, when no session is held.
    pub fn dispatch(&mut self, message: FlightControlMessage) -> (r: Result<(), ServerError>)
        ensures
            final(self).session() == old(self).session(),
            r is Ok <==> old(self).session() is Some,
            r is Ok ==> final(self).sent() == Some(message),
            r matches Err(e) ==> e.kind == ErrorKind::Internal && final(self).sent() == old(self).sent(),
    {
        if self.session.is_none() {
            return Err(internal("flight computer not connected"));
        }
        self.last_sent = Some(message);
        Ok(())
    }
}

/// What one receive on the telemetry socket gave.
#[derive(Clone, Copy, Debug, PartialEq, Eq, Structural)]
pub enum ReceiveOutcome {
    /// A datagram of the given length.
    Datagram(usize),
    /// The platform reported that the datagram did not fit the buffer.
    BufferTooSmall,
    /// Any other receive error.
    Failed,
}

/// What the telemetry loop does next.
#[derive(Clone, Copy, Debug, PartialEq, Eq, Structural)]
pub enum ReceiveAction {
    /// Parse the first bytes of the buffer as a vehicle state.
    Parse(usize),
    /// Grow the buffer to the given size and receive again.
    Grow(usize),
    /// End the session.
    Stop,
}

/// The decision after one receive: an empty datagram or an error ends the
/// session; a datagram that fills the buffer, or a too-small signal, doubles
/// the buffer (ending the session when it cannot grow further); any other
/// datagram is parsed.
pub fn receive_step(buffer_len: usize, outcome: ReceiveOutcome) -> (r: ReceiveAction)
    requires
        buffer_len > 0,
        outcome matches ReceiveOutcome::Datagram(n) ==> n <= buffer_len,
    ensures
        outcome == ReceiveOutcome::Datagram(0) ==> r == ReceiveAction::Stop,
        outcome == ReceiveOutcome::Failed ==> r == ReceiveAction::Stop,
        outcome matches ReceiveOutcome::Datagram(n) ==> (0 < n < buffer_len ==> r == ReceiveAction::Parse(n)),
        (outcome == ReceiveOutcome::Datagram(buffer_len) || outcome == ReceiveOutcome::BufferTooSmall) ==> (
            if buffer_len <= usize::MAX / 2 { r == ReceiveAction::Grow((2 * buffer_len) as usize) } else { r == ReceiveAction::Stop }),
{
    match outcome {
        ReceiveOutcome::Datagram(n) => {
            if n == 0 {
                ReceiveAction::Stop
            } else if n < buffer_len {
                ReceiveAction::Parse(n)
            } else if buffer_len <= usize::MAX / 2 {
                ReceiveAction::Grow(2 * buffer_len)
            } else {
                ReceiveAction::Stop
            }
        },
        ReceiveOutcome::BufferTooSmall => {
            if buffer_len <= usize::MAX / 2 {
                ReceiveAction::Grow(2 * buffer_len)
            } else {
                ReceiveAction::Stop
            }
        },
        ReceiveOutcome::Failed => ReceiveAction::Stop,
    }
}

/// What the snapshot logger does after a state-change notification.
#[derive(Debug)]
pub enum LoggerAction {
    /// Append a snapshot row: the time (an `f64` bit pattern) and the encoded state.
    Insert(u64, Vec<u8>),
    /// The state could not be encoded: wait for the next change.
    Skip,
    /// The database is gone: end the logger.
    Stop,
}

/// The logger's decision: stop once the database's owner is gone, otherwise
/// append the encoded state, when there is one, stamped with the time.
pub fn logger_step(database_alive: bool, now_bits: u64, encoded: Option<Vec<u8>>) -> (r: LoggerAction)
    ensures
        !database_alive ==> r is Stop,
        database_alive ==> (encoded matches Some(b) ==> (r matches LoggerAction::Insert(t, bytes) && t == now_bits && bytes == b)),
        database_alive ==> (encoded is None ==> r is Skip),
{
    if !database_alive {
        LoggerAction::Stop
    } else {
        match encoded {
            Some(bytes) => LoggerAction::Insert(now_bits, bytes),
            None => LoggerAction::Skip,
        }
    }
}

} // verus!
