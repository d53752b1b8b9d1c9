//! The session orchestrator's state machine. A session runs two concurrent
//! pipelines — inbound (transport to local sinks) and outbound (local sources
//! to transport) — and, since the protocol has no close frame, infers the end
//! of each pipeline from sentinels, true end of stream, or errors, from either
//! side. Whichever pipeline finishes first, the orchestrator closes the other
//! pipeline's router so nothing blocks forever, and once both are done it
//! releases every local handle and shuts the transport down.

use vstd::prelude::*;

verus! {

/// One of the session's two pipelines.
#[derive(PartialEq, Eq, Structural, Clone, Copy)]
pub enum Direction {
    /// Transport to local sinks.
    Inbound,
    /// Local sources to transport.
    Outbound,
}

/// The pipeline running opposite to `d`.
pub open spec fn opposite_spec(d: Direction) -> Direction {
    match d {
        Direction::Inbound => Direction::Outbound,
        Direction::Outbound => Direction::Inbound,
    }
}

pub fn opposite(d: Direction) -> (r: Direction)
    ensures
        r == opposite_spec(d),
{
    match d {
        Direction::Inbound => Direction::Outbound,
        Direction::Outbound => Direction::Inbound,
    }
}

/// Where the session stands.
#[derive(PartialEq, Eq, Structural, Clone, Copy)]
pub enum SessionState {
    /// The transport is not established yet.
    Connecting,
    /// The transport is up; the handshake is being exchanged, before any pump
    /// runs.
    Handshaking,
    /// Both pipelines run concurrently.
    Streaming,
    /// The named pipeline has finished; the other still runs.
    HalfClosed(Direction),
    /// Both directions are done: every local handle released, both transport
    /// halves shut down.
    Closed,
}

/// What the orchestrator observes.
#[derive(PartialEq, Eq, Structural, Clone, Copy)]
pub enum SessionEvent {
    /// The duplex transport is established.
    TransportEstablished,
    /// The handshake was exchanged and the target accepted: a runnable target
    /// was resolved, or this is the initiating side.
    HandshakeAccepted,
    /// Resolution failed, the target's kind is unsupported, or the target
    /// could not be started: one diagnostic message was written; no pump may
    /// run.
    HandshakeRejected,
    /// The named pipeline's pumps and writer have all finished.
    PipelineFinished(Direction),
}

/// What the orchestrator must do on a transition.
#[derive(PartialEq, Eq, Structural, Clone, Copy)]
pub enum SessionCommand {
    /// Read or send the handshake, before any pump starts.
    ExchangeHandshake,
    /// Start both pipelines' pumps and writers.
    StartStreaming,
    /// Close the still-running pipeline's router, unblocking its writer even
    /// though no more data can arrive.
    CloseRouterOf(Direction),
    /// Release all local handles, shut down both transport halves, and
    /// terminate any externally owned process still running.
    ReleaseAll,
    /// Nothing to do for this event in this state.
    Idle,
}

/// The state after observing `ev` in state `s`. Events that make no sense in
/// a state leave it unchanged; `Closed` is final.
pub open spec fn next_state(s: SessionState, ev: SessionEvent) -> SessionState {
    match (s, ev) {
        (SessionState::Connecting, SessionEvent::TransportEstablished) => SessionState::Handshaking,
        (SessionState::Handshaking, SessionEvent::HandshakeAccepted) => SessionState::Streaming,
        (SessionState::Handshaking, SessionEvent::HandshakeRejected) => SessionState::Closed,
        (SessionState::Streaming, SessionEvent::PipelineFinished(d)) => SessionState::HalfClosed(d),
        (SessionState::HalfClosed(d), SessionEvent::PipelineFinished(d2)) => if d2 == d {
            SessionState::HalfClosed(d)
        } else {
            SessionState::Closed
        },
        _ => s,
    }
}

/// The command that goes with the transition `next_state(s, ev)`.
pub open spec fn next_command(s: SessionState, ev: SessionEvent) -> SessionCommand {
    match (s, ev) {
        (SessionState::Connecting, SessionEvent::TransportEstablished) => SessionCommand::ExchangeHandshake,
        (SessionState::Handshaking, SessionEvent::HandshakeAccepted) => SessionCommand::StartStreaming,
        (SessionState::Handshaking, SessionEvent::HandshakeRejected) => SessionCommand::ReleaseAll,
        (SessionState::Streaming, SessionEvent::PipelineFinished(d)) => SessionCommand::CloseRouterOf(
            opposite_spec(d),
        ),
        (SessionState::HalfClosed(d), SessionEvent::PipelineFinished(d2)) => if d2 == d {
            SessionCommand::Idle
        } else {
            SessionCommand::ReleaseAll
        },
        _ => SessionCommand::Idle,
    }
}

/// One step of the orchestrator: the next state, and what to do on the way
/// there.
pub fn session_step(s: SessionState, ev: SessionEvent) -> (r: (SessionState, SessionCommand))
    ensures
        r.0 == next_state(s, ev),
        r.1 == next_command(s, ev),
{
    match (s, ev) {
        (SessionState::Connecting, SessionEvent::TransportEstablished) => (
            SessionState::Handshaking,
            SessionCommand::ExchangeHandshake,
        ),
        (SessionState::Handshaking, SessionEvent::HandshakeAccepted) => (
            SessionState::Streaming,
            SessionCommand::StartStreaming,
        ),
        (SessionState::Handshaking, SessionEvent::HandshakeRejected) => (
            SessionState::Closed,
            SessionCommand::ReleaseAll,
        ),
        (SessionState::Streaming, SessionEvent::PipelineFinished(d)) => (
            SessionState::HalfClosed(d),
            SessionCommand::CloseRouterOf(opposite(d)),
        ),
        (SessionState::HalfClosed(d), SessionEvent::PipelineFinished(d2)) => {
            if d2 == d {
                (SessionState::HalfClosed(d), SessionCommand::Idle)
            } else {
                (SessionState::Closed, SessionCommand::ReleaseAll)
            }
        },
        (other, _) => (other, SessionCommand::Idle),
    }
}

/// Law: half-close is live. Once the session streams, the two pipelines
/// finishing — in either order, so whichever side closes first — drive the
/// session to `Closed` in exactly those two steps: neither half-closed state
/// can hang.
pub proof fn lemma_half_close_liveness(d1: Direction, d2: Direction)
    requires
        d1 != d2,
    ensures
        next_state(
            next_state(SessionState::Streaming, SessionEvent::PipelineFinished(d1)),
            SessionEvent::PipelineFinished(d2),
        ) == SessionState::Closed,
{
}

/// Law: `Closed` is final: no event leaves it, and nothing more is asked of
/// the orchestrator there.
pub proof fn lemma_closed_is_final(ev: SessionEvent)
    ensures
        next_state(SessionState::Closed, ev) == SessionState::Closed,
        next_command(SessionState::Closed, ev) == SessionCommand::Idle,
{
}

} // verus!
