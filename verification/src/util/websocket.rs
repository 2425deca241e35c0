//! The life of a websocket session: connect, send the first messages, handle
//! what arrives, and connect again when the connection fails or ends.
use vstd::prelude::*;

verus! {

/// Where a session is.
#[derive(Debug, Clone, Copy, PartialEq, Eq, Structural)]
pub enum Phase {
    /// No connection: connecting.
    Connecting,
    /// Connected: reading.
    Open,
}

/// What happened to a session.
#[derive(Debug, Clone, Copy, PartialEq, Eq, Structural)]
pub enum Event {
    Connected,
    ConnectFailed,
    /// A message arrived from the connection.
    Received,
    /// Reading from the connection failed.
    ReadFailed,
    /// The connection ended.
    StreamEnded,
    /// A control message arrived.
    ControlReceived,
    /// The control messages ended.
    ControlEnded,
}

/// What a session does next.
#[derive(Debug, Clone, Copy, PartialEq, Eq, Structural)]
pub enum Action {
    /// Wait `RETRY_DELAY_SECS`, then connect again.
    RetryLater,
    /// Send the state's first messages, then read.
    SendInitMessages,
    /// Hand what arrived to the handler, and send its reply if it gives one.
    Handle,
    /// Connect again.
    Reconnect,
}

/// The seconds to wait before connecting again after a failed connection.
pub const RETRY_DELAY_SECS: u64 = 1;

/// The microseconds after which handling a message counts as slow.
pub const SLOW_HANDLING_MICROS: u64 = 1_000_000;

/// Whether `event` can happen in `phase`: connecting ends in a connection or a
/// failure; an open session reads.
pub open spec fn event_in_phase(phase: Phase, event: Event) -> bool {
    match phase {
        Phase::Connecting => event == Event::Connected || event == Event::ConnectFailed,
        Phase::Open => event != Event::Connected && event != Event::ConnectFailed,
    }
}

/// The phase and the action after `event` in `phase`: a connection sends the
/// first messages; a failed one is retried after a delay; what arrives is
/// handled; a failed or ended connection, or ended control messages, connect
/// again.
pub open spec fn spec_next_step(phase: Phase, event: Event) -> (Phase, Action) {
    match event {
        Event::Connected => (Phase::Open, Action::SendInitMessages),
        Event::ConnectFailed => (Phase::Connecting, Action::RetryLater),
        Event::Received | Event::ControlReceived => (Phase::Open, Action::Handle),
        Event::ReadFailed | Event::StreamEnded | Event::ControlEnded => (
            Phase::Connecting,
            Action::Reconnect,
        ),
    }
}

/// The phase and the action after `event` in `phase`.
pub fn next_step(phase: Phase, event: Event) -> (r: (Phase, Action))
    requires
        event_in_phase(phase, event),
    ensures
        r == spec_next_step(phase, event),
{
    match event {
        Event::Connected => (Phase::Open, Action::SendInitMessages),
        Event::ConnectFailed => (Phase::Connecting, Action::RetryLater),
        Event::Received | Event::ControlReceived => (Phase::Open, Action::Handle),
        Event::ReadFailed | Event::StreamEnded | Event::ControlEnded => (
            Phase::Connecting,
            Action::Reconnect,
        ),
    }
}

/// Whether handling a message that took `micros` microseconds was slow: more
/// than a second.
pub fn is_slow(micros: u64) -> (r: bool)
    ensures
        r == (micros > SLOW_HANDLING_MICROS),
{
    micros > SLOW_HANDLING_MICROS
}

/// A session never stops: every step leaves it connecting or open, with an
/// event that can happen there next.
pub proof fn lemma_session_continues(phase: Phase, event: Event)
    requires
        event_in_phase(phase, event),
    ensures
        spec_next_step(phase, event).0 == Phase::Connecting ==> event_in_phase(
            spec_next_step(phase, event).0,
            Event::ConnectFailed,
        ),
        spec_next_step(phase, event).1 == Action::Reconnect || spec_next_step(phase, event).1
            == Action::RetryLater <==> spec_next_step(phase, event).0 == Phase::Connecting,
{
}

} // verus!
