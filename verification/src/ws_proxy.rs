//! The WebSocket relay as a state machine.
//!
//! A relay session joins one client socket to one downstream socket. The
//! sockets themselves live outside this module: whoever drives them reports
//! what happened as a [`RelayEvent`] and carries out the [`RelayAction`] that
//! [`WsProxy::on_event`] answers with. The session ends as soon as either
//! direction ends, and nothing is forwarded afterwards.

use vstd::prelude::*;
use vstd::string::*;

verus! {

/// Why a relay session could not be set up.
#[derive(Debug, Clone, PartialEq, Eq)]
pub enum WsProxyError {
    /// The handshake with the downstream endpoint failed; the text says why.
    ConnectionFailed(String),
}

impl View for WsProxyError {
    type V = Seq<char>;

    /// The reason carried by the error.
    open spec fn view(&self) -> Seq<char> {
        match self {
            WsProxyError::ConnectionFailed(reason) => reason@,
        }
    }
}

impl WsProxyError {
    /// The text shown for this error.
    pub fn message(&self) -> (text: String)
        ensures
            text@ == "Failed to connect to downstream WebSocket: "@ + self@,
    {
        match self {
            WsProxyError::ConnectionFailed(reason) => String::from_str(
                "Failed to connect to downstream WebSocket: ",
            ).concat(reason.as_str()),
        }
    }
}

/// One WebSocket frame, by kind.
#[derive(Debug, Clone, PartialEq, Eq)]
pub enum Frame {
    Text(String),
    Binary(Vec<u8>),
    Ping(Vec<u8>),
    Pong(Vec<u8>),
    /// A close frame. Its payload, if any, is not relayed.
    Close,
    /// A low-level frame that has no counterpart on the other socket.
    Raw,
}

/// What a [`Frame`] holds, as mathematical values.
pub enum FrameView {
    Text(Seq<char>),
    Binary(Seq<u8>),
    Ping(Seq<u8>),
    Pong(Seq<u8>),
    Close,
    Raw,
}

impl View for Frame {
    type V = FrameView;

    open spec fn view(&self) -> FrameView {
        match self {
            Frame::Text(text) => FrameView::Text(text@),
            Frame::Binary(data) => FrameView::Binary(data@),
            Frame::Ping(data) => FrameView::Ping(data@),
            Frame::Pong(data) => FrameView::Pong(data@),
            Frame::Close => FrameView::Close,
            Frame::Raw => FrameView::Raw,
        }
    }
}

/// One end of the relay.
#[derive(Debug, Clone, Copy, PartialEq, Eq, Structural)]
pub enum Side {
    Client,
    Downstream,
}

impl Side {
    /// The other end.
    pub open spec fn spec_opposite(self) -> Side {
        match self {
            Side::Client => Side::Downstream,
            Side::Downstream => Side::Client,
        }
    }

    /// The other end.
    #[verifier::when_used_as_spec(spec_opposite)]
    pub fn opposite(self) -> (other: Side)
        ensures
            other == self.spec_opposite(),
    {
        match self {
            Side::Client => Side::Downstream,
            Side::Downstream => Side::Client,
        }
    }
}

/// Where a relay session stands.
#[derive(Debug, Clone, Copy, PartialEq, Eq, Structural)]
pub enum RelayState {
    /// The downstream handshake has not been answered yet.
    Connecting,
    /// Both sockets are open and frames are passed on.
    Relaying,
    /// The session is over.
    Closed,
}

/// Something that happened on one of the two sockets.
#[derive(Debug, Clone, PartialEq, Eq)]
pub enum RelayEvent {
    /// The downstream handshake succeeded.
    Connected,
    /// The downstream handshake failed; the text says why.
    ConnectFailed(String),
    /// A frame arrived from the given side.
    Received(Side, Frame),
    /// Reading from the given side failed.
    ReceiveFailed(Side),
    /// The given side's stream of frames came to its end.
    Ended(Side),
    /// Sending a frame to the given side failed.
    SendFailed(Side),
}

/// What a [`RelayEvent`] holds, as mathematical values.
pub enum RelayEventView {
    Connected,
    ConnectFailed(Seq<char>),
    Received(Side, FrameView),
    ReceiveFailed(Side),
    Ended(Side),
    SendFailed(Side),
}

impl View for RelayEvent {
    type V = RelayEventView;

    open spec fn view(&self) -> RelayEventView {
        match self {
            RelayEvent::Connected => RelayEventView::Connected,
            RelayEvent::ConnectFailed(reason) => RelayEventView::ConnectFailed(reason@),
            RelayEvent::Received(side, frame) => RelayEventView::Received(*side, frame@),
            RelayEvent::ReceiveFailed(side) => RelayEventView::ReceiveFailed(*side),
            RelayEvent::Ended(side) => RelayEventView::Ended(*side),
            RelayEvent::SendFailed(side) => RelayEventView::SendFailed(*side),
        }
    }
}

/// What the driver of the sockets has to do next.
#[derive(Debug, Clone, PartialEq, Eq)]
pub enum RelayAction {
    /// Nothing is sent; go on waiting for the next event.
    Nothing,
    /// Send the frame to the given side.
    Forward(Side, Frame),
    /// Close the client socket.
    CloseClient,
    /// Give the session up with this error, dropping the client socket.
    Abort(WsProxyError),
}

/// What a [`RelayAction`] holds, as mathematical values.
pub enum RelayActionView {
    Nothing,
    Forward(Side, FrameView),
    CloseClient,
    Abort(Seq<char>),
}

impl View for RelayAction {
    type V = RelayActionView;

    open spec fn view(&self) -> RelayActionView {
        match self {
            RelayAction::Nothing => RelayActionView::Nothing,
            RelayAction::Forward(side, frame) => RelayActionView::Forward(*side, frame@),
            RelayAction::CloseClient => RelayActionView::CloseClient,
            RelayAction::Abort(error) => RelayActionView::Abort(error@),
        }
    }
}

/// Whether a frame of this kind is passed on to the other socket as a frame
/// of the same kind and content.
pub open spec fn is_relayed(frame: FrameView) -> bool {
    frame is Text || frame is Binary || frame is Ping || frame is Pong
}

/// Whether the event ends one of the two directions of the relay: a close
/// frame, a failed read, the end of a stream or a failed send.
pub open spec fn ends_direction(event: RelayEventView) -> bool {
    match event {
        RelayEventView::Received(_, frame) => frame is Close,
        RelayEventView::ReceiveFailed(_) => true,
        RelayEventView::Ended(_) => true,
        RelayEventView::SendFailed(_) => true,
        _ => false,
    }
}

/// The state that follows `state` when `event` is reported.
pub open spec fn next_state(state: RelayState, event: RelayEventView) -> RelayState {
    match state {
        RelayState::Closed => RelayState::Closed,
        RelayState::Connecting => match event {
            RelayEventView::Connected => RelayState::Relaying,
            RelayEventView::ConnectFailed(_) => RelayState::Closed,
            _ => if ends_direction(event) {
                RelayState::Closed
            } else {
                RelayState::Connecting
            },
        },
        RelayState::Relaying => if ends_direction(event) {
            RelayState::Closed
        } else {
            RelayState::Relaying
        },
    }
}

/// The action that answers `event` when it is reported in `state`.
pub open spec fn action_for(state: RelayState, event: RelayEventView) -> RelayActionView {
    match state {
        RelayState::Closed => RelayActionView::Nothing,
        RelayState::Connecting => match event {
            RelayEventView::ConnectFailed(reason) => RelayActionView::Abort(reason),
            _ => RelayActionView::Nothing,
        },
        RelayState::Relaying => match event {
            RelayEventView::Received(from, frame) => if is_relayed(frame) {
                RelayActionView::Forward(from.spec_opposite(), frame)
            } else if frame is Close {
                match from {
                    Side::Client => RelayActionView::Forward(Side::Downstream, FrameView::Close),
                    Side::Downstream => RelayActionView::CloseClient,
                }
            } else {
                RelayActionView::Nothing
            },
            _ => RelayActionView::Nothing,
        },
    }
}

/// The state reached from `state` after all of `events`, in order.
pub open spec fn state_after(state: RelayState, events: Seq<RelayEventView>) -> RelayState
    decreases events.len(),
{
    if events.len() == 0 {
        state
    } else {
        next_state(state_after(state, events.drop_last()), events.last())
    }
}

/// The action that answers the event at index `at` of `events`, for a session
/// that was in `state` before the first of them.
pub open spec fn action_at(state: RelayState, events: Seq<RelayEventView>, at: int) -> RelayActionView
    recommends
        0 <= at < events.len(),
{
    action_for(state_after(state, events.take(at)), events[at])
}

/// A relay session between one client socket and one downstream socket.
#[derive(Debug, Clone)]
pub struct WsProxy {
    state: RelayState,
}

impl WsProxy {
    /// Where the session stands.
    pub closed spec fn spec_state(&self) -> RelayState {
        self.state
    }

    /// A session whose downstream handshake is still to be answered.
    pub fn new() -> (relay: WsProxy)
        ensures
            relay.spec_state() == RelayState::Connecting,
    {
        WsProxy { state: RelayState::Connecting }
    }

    /// Where the session stands.
    #[verifier::when_used_as_spec(spec_state)]
    pub fn state(&self) -> (state: RelayState)
        ensures
            state == self.spec_state(),
    {
        self.state
    }

    /// Whether the session is over.
    pub fn is_closed(&self) -> (closed: bool)
        ensures
            closed == (self.spec_state() == RelayState::Closed),
    {
        match self.state {
            RelayState::Closed => true,
            _ => false,
        }
    }

    /// Takes note of `event` and says what to do about it.
    ///
    /// While relaying, a text, binary, ping or pong frame is passed on
    /// unchanged to the opposite side. A close frame from the client is
    /// passed on as a bare close frame, one from downstream closes the client
    /// socket; either ends the session, as does any failed read, ended stream
    /// or failed send. Raw frames are dropped. Once the session is closed no
    /// event leads to an action.
    pub fn on_event(&mut self, event: RelayEvent) -> (action: RelayAction)
        ensures
            final(self).spec_state() == next_state(old(self).spec_state(), event@),
            action@ == action_for(old(self).spec_state(), event@),
    {
        match self.state {
            RelayState::Closed => RelayAction::Nothing,
            RelayState::Connecting => match event {
                RelayEvent::Connected => {
                    self.state = RelayState::Relaying;
                    RelayAction::Nothing
                },
                RelayEvent::ConnectFailed(reason) => {
                    self.state = RelayState::Closed;
                    RelayAction::Abort(WsProxyError::ConnectionFailed(reason))
                },
                RelayEvent::Received(_, Frame::Close) => {
                    self.state = RelayState::Closed;
                    RelayAction::Nothing
                },
                RelayEvent::Received(_, _) => RelayAction::Nothing,
                RelayEvent::ReceiveFailed(_) | RelayEvent::Ended(_) | RelayEvent::SendFailed(_) => {
                    self.state = RelayState::Closed;
                    RelayAction::Nothing
                },
            },
            RelayState::Relaying => match event {
                RelayEvent::Connected => RelayAction::Nothing,
                RelayEvent::ConnectFailed(_) => RelayAction::Nothing,
                RelayEvent::Received(from, frame) => match frame {
                    Frame::Close => {
                        self.state = RelayState::Closed;
                        match from {
                            Side::Client => RelayAction::Forward(Side::Downstream, Frame::Close),
                            Side::Downstream => RelayAction::CloseClient,
                        }
                    },
                    Frame::Raw => RelayAction::Nothing,
                    frame => RelayAction::Forward(from.opposite(), frame),
                },
                RelayEvent::ReceiveFailed(_) | RelayEvent::Ended(_) | RelayEvent::SendFailed(_) => {
                    self.state = RelayState::Closed;
                    RelayAction::Nothing
                },
            },
        }
    }
}

/// A closed session is over for good: from the moment the session is closed
/// it stays closed, and no event leads to an action.
pub proof fn lemma_closed_is_final(
    start: RelayState,
    events: Seq<RelayEventView>,
    closed: int,
    later: int,
)
    requires
        0 <= closed <= later < events.len(),
        state_after(start, events.take(closed)) == RelayState::Closed,
    ensures
        state_after(start, events.take(later)) == RelayState::Closed,
        state_after(start, events.take(later + 1)) == RelayState::Closed,
        action_at(start, events, later) == RelayActionView::Nothing,
    decreases later - closed,
{
    assert(events.take(later + 1).drop_last() =~= events.take(later));
    if later > closed {
        lemma_closed_is_final(start, events, closed, later - 1);
    }
}

/// Once an event has ended one direction of the relay, no later event leads
/// to an action: nothing more is forwarded in either direction, however many
/// frames are still reported.
pub proof fn lemma_nothing_forwarded_after_end(
    start: RelayState,
    events: Seq<RelayEventView>,
    ended: int,
    later: int,
)
    requires
        0 <= ended < later < events.len(),
        ends_direction(events[ended]),
    ensures
        state_after(start, events.take(later)) == RelayState::Closed,
        action_at(start, events, later) == RelayActionView::Nothing,
{
    let upto = events.take(ended + 1);
    assert(upto.drop_last() =~= events.take(ended));
    assert(upto.last() == events[ended]);
    lemma_closed_is_final(start, events, ended + 1, later);
}

/// A failed handshake ends the session at once: the answer is to give up
/// with the reason, and the session is closed.
pub proof fn lemma_failed_connect_closes(reason: Seq<char>)
    ensures
        next_state(RelayState::Connecting, RelayEventView::ConnectFailed(reason))
            == RelayState::Closed,
        action_for(RelayState::Connecting, RelayEventView::ConnectFailed(reason))
            == RelayActionView::Abort(reason),
{
}

/// While relaying, a text, binary, ping or pong frame goes to the opposite
/// side as it came, and the session goes on.
pub proof fn lemma_frames_pass_unchanged(from: Side, frame: FrameView)
    requires
        is_relayed(frame),
    ensures
        action_for(RelayState::Relaying, RelayEventView::Received(from, frame))
            == RelayActionView::Forward(from.spec_opposite(), frame),
        next_state(RelayState::Relaying, RelayEventView::Received(from, frame))
            == RelayState::Relaying,
{
}

} // verus!
