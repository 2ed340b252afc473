//! The decisions of the outbound channel. The channel connects lazily: a
//! send while disconnected first connects, and a failed connect or send, a
//! close from the peer, or a stop, leaves it disconnected until the next
//! send. The caller performs each action and reports its outcome as the
//! next event.
use vstd::prelude::*;

verus! {

/// Where the channel stands.
#[derive(Debug, Clone, Copy, PartialEq, Eq, Structural)]
pub enum LinkState {
    /// No connection; the next start or send connects.
    Disconnected,
    /// A connect is under way; `transmit` tells whether a frame waits for it.
    Connecting { transmit: bool },
    /// A connection is established and idle.
    Connected,
    /// A frame is being transmitted on the connection.
    Sending,
}

/// What happened.
#[derive(Debug, Clone, Copy, PartialEq, Eq, Structural)]
pub enum LinkEvent {
    /// The owner asked for a connection without a frame to send.
    Start,
    /// The owner has a frame to send.
    Send,
    ConnectSucceeded,
    ConnectFailed,
    SendSucceeded,
    SendFailed,
    /// The peer closed the stream, or the stream ended.
    PeerClosed,
    /// The owner shuts the channel down.
    Stop,
}

/// What the caller does next.
#[derive(Debug, Clone, Copy, PartialEq, Eq, Structural)]
pub enum LinkAction {
    /// Open a connection.
    Connect,
    /// Transmit the waiting frame.
    Transmit,
    /// Send a close frame on the connection and drop it.
    CloseStream,
    /// The request is complete.
    Done,
    /// The request failed; the channel is disconnected.
    Failed,
    /// Nothing to do.
    Ignore,
}

/// The state and action that follow `event` in `state`.
pub open spec fn transition(state: LinkState, event: LinkEvent) -> (LinkState, LinkAction) {
    match (state, event) {
        (LinkState::Disconnected, LinkEvent::Start) => (
            LinkState::Connecting { transmit: false },
            LinkAction::Connect,
        ),
        (LinkState::Disconnected, LinkEvent::Send) => (
            LinkState::Connecting { transmit: true },
            LinkAction::Connect,
        ),
        (LinkState::Connected, LinkEvent::Start) => (LinkState::Connected, LinkAction::Done),
        (LinkState::Connected, LinkEvent::Send) => (LinkState::Sending, LinkAction::Transmit),
        (LinkState::Connecting { transmit }, LinkEvent::ConnectSucceeded) => if transmit {
            (LinkState::Sending, LinkAction::Transmit)
        } else {
            (LinkState::Connected, LinkAction::Done)
        },
        (LinkState::Connecting { .. }, LinkEvent::ConnectFailed) => (
            LinkState::Disconnected,
            LinkAction::Failed,
        ),
        (LinkState::Sending, LinkEvent::SendSucceeded) => (LinkState::Connected, LinkAction::Done),
        (LinkState::Sending, LinkEvent::SendFailed) => (
            LinkState::Disconnected,
            LinkAction::Failed,
        ),
        (LinkState::Disconnected, LinkEvent::SendSucceeded) => (
            LinkState::Disconnected,
            LinkAction::Done,
        ),
        (LinkState::Disconnected, LinkEvent::SendFailed) => (
            LinkState::Disconnected,
            LinkAction::Failed,
        ),
        (LinkState::Connected, LinkEvent::PeerClosed) => (
            LinkState::Disconnected,
            LinkAction::CloseStream,
        ),
        (LinkState::Sending, LinkEvent::PeerClosed) => (
            LinkState::Disconnected,
            LinkAction::CloseStream,
        ),
        (LinkState::Connected, LinkEvent::Stop) => (
            LinkState::Disconnected,
            LinkAction::CloseStream,
        ),
        (LinkState::Sending, LinkEvent::Stop) => (
            LinkState::Disconnected,
            LinkAction::CloseStream,
        ),
        (LinkState::Connecting { .. }, LinkEvent::Stop) => (
            LinkState::Disconnected,
            LinkAction::Ignore,
        ),
        _ => (state, LinkAction::Ignore),
    }
}

/// The next state and action, see `transition`.
pub fn next_step(state: LinkState, event: LinkEvent) -> (r: (LinkState, LinkAction))
    ensures
        r == transition(state, event),
{
    match (state, event) {
        (LinkState::Disconnected, LinkEvent::Start) => (
            LinkState::Connecting { transmit: false },
            LinkAction::Connect,
        ),
        (LinkState::Disconnected, LinkEvent::Send) => (
            LinkState::Connecting { transmit: true },
            LinkAction::Connect,
        ),
        (LinkState::Connected, LinkEvent::Start) => (LinkState::Connected, LinkAction::Done),
        (LinkState::Connected, LinkEvent::Send) => (LinkState::Sending, LinkAction::Transmit),
        (LinkState::Connecting { transmit }, LinkEvent::ConnectSucceeded) => if transmit {
            (LinkState::Sending, LinkAction::Transmit)
        } else {
            (LinkState::Connected, LinkAction::Done)
        },
        (LinkState::Connecting { .. }, LinkEvent::ConnectFailed) => (
            LinkState::Disconnected,
            LinkAction::Failed,
        ),
        (LinkState::Sending, LinkEvent::SendSucceeded) => (LinkState::Connected, LinkAction::Done),
        (LinkState::Sending, LinkEvent::SendFailed) => (
            LinkState::Disconnected,
            LinkAction::Failed,
        ),
        (LinkState::Disconnected, LinkEvent::SendSucceeded) => (
            LinkState::Disconnected,
            LinkAction::Done,
        ),
        (LinkState::Disconnected, LinkEvent::SendFailed) => (
            LinkState::Disconnected,
            LinkAction::Failed,
        ),
        (LinkState::Connected, LinkEvent::PeerClosed) => (
            LinkState::Disconnected,
            LinkAction::CloseStream,
        ),
        (LinkState::Sending, LinkEvent::PeerClosed) => (
            LinkState::Disconnected,
            LinkAction::CloseStream,
        ),
        (LinkState::Connected, LinkEvent::Stop) => (
            LinkState::Disconnected,
            LinkAction::CloseStream,
        ),
        (LinkState::Sending, LinkEvent::Stop) => (
            LinkState::Disconnected,
            LinkAction::CloseStream,
        ),
        (LinkState::Connecting { .. }, LinkEvent::Stop) => (
            LinkState::Disconnected,
            LinkAction::Ignore,
        ),
        _ => (state, LinkAction::Ignore),
    }
}

/// A send while disconnected makes exactly one connect attempt before the
/// frame goes out: the first action is a connect, a successful connect is
/// followed by the transmission and no other connect, and a failed one ends
/// the request disconnected without transmitting.
pub proof fn lemma_send_when_disconnected_connects_once()
    ensures
        transition(LinkState::Disconnected, LinkEvent::Send).1 == LinkAction::Connect,
        transition(transition(LinkState::Disconnected, LinkEvent::Send).0, LinkEvent::ConnectSucceeded)
            == (LinkState::Sending, LinkAction::Transmit),
        transition(transition(LinkState::Disconnected, LinkEvent::Send).0, LinkEvent::ConnectFailed)
            == (LinkState::Disconnected, LinkAction::Failed),
{
}

/// A send while connected transmits at once, with no connect attempt.
pub proof fn lemma_send_when_connected_transmits()
    ensures
        transition(LinkState::Connected, LinkEvent::Send) == (
            LinkState::Sending,
            LinkAction::Transmit,
        ),
{
}

/// On an established connection, a failed send, a close from the peer and a
/// stop each leave the channel disconnected, so that the next send connects.
pub proof fn lemma_failure_disconnects(state: LinkState)
    requires
        state is Connected || state is Sending,
    ensures
        state is Sending ==> transition(state, LinkEvent::SendFailed).0 is Disconnected,
        transition(state, LinkEvent::PeerClosed).0 is Disconnected,
        transition(state, LinkEvent::Stop).0 is Disconnected,
{
}

} // verus!
