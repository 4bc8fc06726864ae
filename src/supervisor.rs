//! The connection supervisor: join the network, wait for an address, then
//! resolve the broker, connect and run a session, over and over.
use vstd::prelude::*;
use crate::message::MqttMessage;
use crate::queue::OutboundQueue;

verus! {

/// Pause between two attempts to join the network, in milliseconds.
pub const JOIN_RETRY_MS: u64 = 1000;
/// Pause between two checks of the network configuration, in milliseconds.
pub const ADDRESS_POLL_MS: u64 = 100;
/// Pause before every connection attempt but the first, in milliseconds.
pub const RECONNECT_DELAY_MS: u64 = 5000;
/// The broker's TCP port.
pub const BROKER_PORT: u16 = 1883;

#[derive(Clone, Copy, Debug, PartialEq, Eq, Structural)]
pub enum Phase {
    Idle,
    JoiningNetwork,
    WaitingForAddress,
    ResolvingBroker,
    Connecting,
    InSession,
}

/// What the outside world reports back.
#[derive(Clone, Copy, Debug, PartialEq, Eq, Structural)]
pub enum Event {
    Start,
    JoinSucceeded,
    JoinFailed,
    AddressPending,
    AddressReady,
    /// The lookup gave at least one address.
    Resolved,
    /// The lookup failed or gave no address.
    ResolveFailed,
    Connected,
    ConnectFailed,
    /// One of the session's loops ended.
    SessionEnded,
}

/// The next thing to do.
#[derive(Clone, Copy, Debug, PartialEq, Eq, Structural)]
pub enum Op {
    Join,
    CheckAddress,
    Resolve,
    Connect,
    /// Clear the outbound queue, queue CONNECT and run the session's loops.
    RunSession,
}

/// Close the socket if asked, wait `delay_ms`, then do `op`.
#[derive(Clone, Copy, Debug, PartialEq, Eq, Structural)]
pub struct Action {
    pub close_socket: bool,
    pub delay_ms: u64,
    pub op: Op,
}

pub struct Supervisor {
    pub phase: Phase,
    /// No connection attempt has started yet.
    pub first_attempt: bool,
}

/// The events that can follow the operation of a phase.
pub open spec fn expects(p: Phase, e: Event) -> bool {
    match p {
        Phase::Idle => e == Event::Start,
        Phase::JoiningNetwork => e == Event::JoinSucceeded || e == Event::JoinFailed,
        Phase::WaitingForAddress => e == Event::AddressPending || e == Event::AddressReady,
        Phase::ResolvingBroker => e == Event::Resolved || e == Event::ResolveFailed,
        Phase::Connecting => e == Event::Connected || e == Event::ConnectFailed,
        Phase::InSession => e == Event::SessionEnded,
    }
}

/// A new connection attempt: right away the first time, after the
/// reconnect delay every other time.
pub open spec fn attempt(first: bool, close_socket: bool) -> (Phase, bool, Action) {
    (Phase::ResolvingBroker, false, Action {
        close_socket,
        delay_ms: if first { 0 } else { 5000 },
        op: Op::Resolve,
    })
}

/// The phase, the first-attempt flag and the action after event `e`.
pub open spec fn next(p: Phase, first: bool, e: Event) -> (Phase, bool, Action) {
    let go = |p: Phase, op: Op| (p, first, Action { close_socket: false, delay_ms: 0, op });
    match e {
        Event::Start => go(Phase::JoiningNetwork, Op::Join),
        Event::JoinFailed => (Phase::JoiningNetwork, first, Action { close_socket: false, delay_ms: 1000, op: Op::Join }),
        Event::JoinSucceeded => go(Phase::WaitingForAddress, Op::CheckAddress),
        Event::AddressPending => (Phase::WaitingForAddress, first, Action { close_socket: false, delay_ms: 100, op: Op::CheckAddress }),
        Event::AddressReady => attempt(first, false),
        Event::ResolveFailed => attempt(first, false),
        Event::Resolved => go(Phase::Connecting, Op::Connect),
        Event::ConnectFailed => attempt(first, false),
        Event::Connected => go(Phase::InSession, Op::RunSession),
        Event::SessionEnded => attempt(first, true),
    }
}

impl Supervisor {
    pub fn new() -> (r: Supervisor)
        ensures
            r.phase == Phase::Idle,
            r.first_attempt,
    {
        Supervisor { phase: Phase::Idle, first_attempt: true }
    }

    fn start_attempt(&mut self, close_socket: bool) -> (r: Action)
        ensures
            (final(self).phase, final(self).first_attempt, r) == attempt(old(self).first_attempt, close_socket),
    {
        let delay_ms = if self.first_attempt { 0 } else { RECONNECT_DELAY_MS };
        self.phase = Phase::ResolvingBroker;
        self.first_attempt = false;
        Action { close_socket, delay_ms, op: Op::Resolve }
    }

    /// Takes the event that the last action led to and gives the next action.
    pub fn step(&mut self, e: Event) -> (r: Action)
        requires
            expects(old(self).phase, e),
        ensures
            (final(self).phase, final(self).first_attempt, r) == next(old(self).phase, old(self).first_attempt, e),
    {
        let go = Action { close_socket: false, delay_ms: 0, op: Op::Join };
        match e {
            Event::Start => {
                self.phase = Phase::JoiningNetwork;
                go
            },
            Event::JoinFailed => {
                self.phase = Phase::JoiningNetwork;
                Action { close_socket: false, delay_ms: JOIN_RETRY_MS, op: Op::Join }
            },
            Event::JoinSucceeded => {
                self.phase = Phase::WaitingForAddress;
                Action { op: Op::CheckAddress, ..go }
            },
            Event::AddressPending => {
                self.phase = Phase::WaitingForAddress;
                Action { close_socket: false, delay_ms: ADDRESS_POLL_MS, op: Op::CheckAddress }
            },
            Event::AddressReady => self.start_attempt(false),
            Event::ResolveFailed => self.start_attempt(false),
            Event::Resolved => {
                self.phase = Phase::Connecting;
                Action { op: Op::Connect, ..go }
            },
            Event::ConnectFailed => self.start_attempt(false),
            Event::Connected => {
                self.phase = Phase::InSession;
                Action { op: Op::RunSession, ..go }
            },
            Event::SessionEnded => self.start_attempt(true),
        }
    }
}

/// Starts a session on a new socket: intents left from an earlier session
/// are dropped and CONNECT is the first to go.
pub fn start_session(queue: &mut OutboundQueue)
    ensures
        final(queue)@ == seq![MqttMessage::Connect],
{
    queue.clear();
    let _ = queue.try_send(MqttMessage::Connect);
    assert(queue@ =~= seq![MqttMessage::Connect]);
}

/// Every attempt after the first waits the reconnect delay: after a
/// session ends, a lookup fails or a connection fails, the supervisor
/// closes what needs closing, waits five seconds and resolves the broker
/// again.
pub proof fn lemma_backoff(p: Phase, e: Event)
    requires
        expects(p, e),
        e == Event::SessionEnded || e == Event::ResolveFailed || e == Event::ConnectFailed,
    ensures
        next(p, false, e).2.delay_ms == 5000,
        next(p, false, e).2.op == Op::Resolve,
        next(p, false, e).2.close_socket == (e == Event::SessionEnded),
        next(p, false, e).0 == Phase::ResolvingBroker,
{
}

/// Once an attempt has started, no later attempt is the first: the flag
/// never comes back.
pub proof fn lemma_first_attempt_once(p: Phase, e: Event)
    requires
        expects(p, e),
    ensures
        !next(p, false, e).1,
        next(p, true, e).0 == Phase::ResolvingBroker ==> !next(p, true, e).1,
{
}

} // verus!
