//! The life of one real-time connection.
//!
//! The transport belongs to the caller. It reports what happened on the
//! connection as a [`SessionEvent`]; [`Session::handle`] moves the session to
//! its next state, releases the presence entry where the session ends, and
//! answers with the frames to send.
//!
//! The caller sends `text` first and the close frame second. A send that
//! fails while the session is not yet closed is reported as
//! [`SessionEvent::SendFailed`], and whatever was still unsent is dropped.
//! Frames that come with the step into `Closed` are sent on a best-effort
//! basis: their failure is ignored. Once both frames of a closing session
//! went out, the caller reports [`SessionEvent::Flushed`].

use vstd::prelude::*;
use vstd::string::*;
use crate::json::{json_echo, json_quoted, quote, reencode};
use crate::model::UserId;
use crate::state::{released, is_present, lemma_released, lemma_release_is_idempotent, ConnectedClients};

verus! {

#[derive(Debug, Clone, Copy, PartialEq, Eq, Structural)]
pub enum SessionState {
    /// The transport handshake is in progress.
    Upgrading,
    /// Messages are received and answered.
    Open,
    /// The handler has decided to end the session and says so to the peer.
    Closing,
    /// Terminal: the connection is released.
    Closed,
}

/// What the transport reports about the connection.
#[derive(Debug, Clone, PartialEq, Eq)]
pub enum SessionEvent {
    /// The handshake succeeded.
    Upgraded,
    /// The handshake failed; the connection never opened.
    UpgradeFailed,
    /// A text frame arrived.
    Text(String),
    /// A binary frame arrived.
    Binary,
    /// The peer sent a close frame.
    CloseFrame,
    /// A frame of any other kind arrived.
    OtherFrame,
    /// Reading from the connection failed.
    ReadFailed,
    /// The connection ended without a close frame.
    EndOfStream,
    /// The frames of the last reply went out.
    Flushed,
    /// A frame of the last reply could not be sent; the reason is given.
    SendFailed(String),
    /// The process ends the session on its own account.
    Shutdown,
}

/// The frames to send in answer to one event: a text frame, then a close frame.
#[derive(Debug, Clone, PartialEq, Eq)]
pub struct Reply {
    pub text: Option<String>,
    pub close: bool,
}

pub struct ReplyView {
    pub text: Option<Seq<char>>,
    pub close: bool,
}

impl View for Reply {
    type V = ReplyView;

    open spec fn view(&self) -> ReplyView {
        ReplyView {
            text: match self.text {
                Some(text) => Some(text@),
                None => None,
            },
            close: self.close,
        }
    }
}

/// The reply that sends nothing.
pub open spec fn silence() -> ReplyView {
    ReplyView { text: None, close: false }
}

/// The acknowledgment of a payload, given the payload's compact rendering.
pub open spec fn ack_frame_of(rendered: Seq<char>) -> Seq<char> {
    "{\"received\":true,\"echo\":"@ + rendered + "}"@
}

/// The error message around an already quoted reason.
pub open spec fn error_frame_around(literal: Seq<char>) -> Seq<char> {
    "{\"error\":"@ + literal + "}"@
}

/// The error message that tells a reason.
pub open spec fn error_frame_of(reason: Seq<char>) -> Seq<char> {
    error_frame_around(json_quoted(reason))
}

/// The state that follows `state` when `event` is reported.
pub open spec fn next_state(state: SessionState, event: SessionEvent) -> SessionState {
    match state {
        SessionState::Upgrading => match event {
            SessionEvent::Upgraded => SessionState::Open,
            SessionEvent::UpgradeFailed => SessionState::Closed,
            SessionEvent::Shutdown => SessionState::Closed,
            _ => SessionState::Upgrading,
        },
        SessionState::Open => match event {
            SessionEvent::Text(text) => if json_echo(text@) is Ok {
                SessionState::Open
            } else {
                SessionState::Closed
            },
            SessionEvent::Binary => SessionState::Closing,
            SessionEvent::CloseFrame => SessionState::Closed,
            SessionEvent::ReadFailed => SessionState::Closed,
            SessionEvent::EndOfStream => SessionState::Closed,
            SessionEvent::SendFailed(_) => SessionState::Closed,
            SessionEvent::Shutdown => SessionState::Closed,
            _ => SessionState::Open,
        },
        SessionState::Closing => SessionState::Closed,
        SessionState::Closed => SessionState::Closed,
    }
}

/// The frames that answer `event` in `state`.
pub open spec fn reply_to(state: SessionState, event: SessionEvent) -> ReplyView {
    match state {
        SessionState::Open => match event {
            SessionEvent::Text(text) => match json_echo(text@) {
                Ok(rendered) => ReplyView { text: Some(ack_frame_of(rendered)), close: false },
                Err(complaint) => ReplyView { text: Some(error_frame_of(complaint)), close: false },
            },
            SessionEvent::Binary => ReplyView {
                text: Some(error_frame_of("binary messages not supported"@)),
                close: true,
            },
            SessionEvent::SendFailed(reason) => ReplyView { text: Some(error_frame_of(reason@)), close: false },
            _ => silence(),
        },
        SessionState::Closing => match event {
            SessionEvent::SendFailed(reason) => ReplyView { text: Some(error_frame_of(reason@)), close: false },
            _ => silence(),
        },
        _ => silence(),
    }
}

/// Whether the step from `before` to `after` ends a session that had been open.
pub open spec fn ends_session(before: SessionState, after: SessionState) -> bool {
    (before is Open || before is Closing) && after is Closed
}

/// The registry after a step from `before` to `after` of a session bound to `identity`.
pub open spec fn registry_after(
    entries: Seq<UserId>,
    identity: Option<UserId>,
    before: SessionState,
    after: SessionState,
) -> Seq<UserId> {
    match identity {
        Some(id) => if ends_session(before, after) {
            released(entries, id)
        } else {
            entries
        },
        None => entries,
    }
}

/// Wraps the compact rendering of a payload into its acknowledgment.
pub fn ack_frame(rendered: &str) -> (frame: String)
    ensures
        frame@ == ack_frame_of(rendered@),
{
    String::from_str("{\"received\":true,\"echo\":").concat(rendered).concat("}")
}

/// Wraps a quoted reason into an error message.
pub fn error_frame_from(literal: &str) -> (frame: String)
    ensures
        frame@ == error_frame_around(literal@),
{
    String::from_str("{\"error\":").concat(literal).concat("}")
}

/// The error message that tells the peer `reason`.
pub fn error_frame(reason: &str) -> (frame: String)
    ensures
        frame@ == error_frame_of(reason@),
{
    let literal = quote(reason).unwrap();
    error_frame_from(literal.as_str())
}

/// One real-time connection: where it stands, and whose it is.
#[derive(Debug, Clone, PartialEq, Eq)]
pub struct Session {
    state: SessionState,
    identity: Option<UserId>,
}

impl Session {
    pub closed spec fn spec_state(&self) -> SessionState {
        self.state
    }

    pub closed spec fn spec_identity(&self) -> Option<UserId> {
        self.identity
    }

    /// A session whose handshake has just begun, bound to `identity` if the
    /// caller authenticated at the transport layer.
    pub fn new(identity: Option<UserId>) -> (session: Session)
        ensures
            session.spec_state() is Upgrading,
            session.spec_identity() == identity,
    {
        Session { state: SessionState::Upgrading, identity }
    }

    #[verifier::when_used_as_spec(spec_state)]
    pub fn state(&self) -> (state: SessionState)
        ensures
            state == self.spec_state(),
    {
        self.state
    }

    #[verifier::when_used_as_spec(spec_identity)]
    pub fn identity(&self) -> (identity: Option<UserId>)
        ensures
            identity == self.spec_identity(),
    {
        self.identity
    }

    pub fn is_closed(&self) -> (closed: bool)
        ensures
            closed == (self.spec_state() is Closed),
    {
        self.state == SessionState::Closed
    }

    /// Takes the session one step: to the state that follows `event`, with
    /// the presence entry of the bound identity released exactly where the
    /// step ends a session that had been open.
    pub fn handle(&mut self, event: SessionEvent, registry: &mut ConnectedClients) -> (reply: Reply)
        ensures
            final(self).spec_identity() == old(self).spec_identity(),
            final(self).spec_state() == next_state(old(self).spec_state(), event),
            reply@ == reply_to(old(self).spec_state(), event),
            final(registry)@ == registry_after(
                old(registry)@,
                old(self).spec_identity(),
                old(self).spec_state(),
                final(self).spec_state(),
            ),
            ends_session(old(self).spec_state(), final(self).spec_state()) ==> (old(
                self,
            ).spec_identity() matches Some(id) ==> !is_present(final(registry)@, id)),
    {
        let before = self.state;
        let mut reply = Reply { text: None, close: false };
        let after = match before {
            SessionState::Upgrading => match event {
                SessionEvent::Upgraded => SessionState::Open,
                SessionEvent::UpgradeFailed => SessionState::Closed,
                SessionEvent::Shutdown => SessionState::Closed,
                _ => SessionState::Upgrading,
            },
            SessionState::Open => match event {
                SessionEvent::Text(text) => match reencode(text.as_str()) {
                    Ok(rendered) => {
                        reply.text = Some(ack_frame(rendered.as_str()));
                        SessionState::Open
                    },
                    Err(complaint) => {
                        reply.text = Some(error_frame(complaint.as_str()));
                        SessionState::Closed
                    },
                },
                SessionEvent::Binary => {
                    reply.text = Some(error_frame("binary messages not supported"));
                    reply.close = true;
                    SessionState::Closing
                },
                SessionEvent::CloseFrame => SessionState::Closed,
                SessionEvent::ReadFailed => SessionState::Closed,
                SessionEvent::EndOfStream => SessionState::Closed,
                SessionEvent::SendFailed(reason) => {
                    reply.text = Some(error_frame(reason.as_str()));
                    SessionState::Closed
                },
                SessionEvent::Shutdown => SessionState::Closed,
                _ => SessionState::Open,
            },
            SessionState::Closing => {
                match event {
                    SessionEvent::SendFailed(reason) => {
                        reply.text = Some(error_frame(reason.as_str()));
                    },
                    _ => {},
                }
                SessionState::Closed
            },
            SessionState::Closed => SessionState::Closed,
        };
        self.state = after;
        let was_live = before == SessionState::Open || before == SessionState::Closing;
        if was_live && after == SessionState::Closed {
            match self.identity {
                Some(id) => {
                    registry.pop(id);
                },
                None => {},
            }
        }
        reply
    }
}

/// Whether the event is a text frame that holds a payload.
pub open spec fn is_payload(event: SessionEvent) -> bool {
    event matches SessionEvent::Text(text) && json_echo(text@) is Ok
}

/// The acknowledgment that a payload is owed.
pub open spec fn ack_of(event: SessionEvent) -> ReplyView {
    match event {
        SessionEvent::Text(text) => match json_echo(text@) {
            Ok(rendered) => ReplyView { text: Some(ack_frame_of(rendered)), close: false },
            Err(_) => silence(),
        },
        _ => silence(),
    }
}

/// Where a session that stood at `state` stands after the events, one after another.
pub open spec fn state_after(state: SessionState, events: Seq<SessionEvent>) -> SessionState
    decreases events.len(),
{
    if events.len() == 0 {
        state
    } else {
        next_state(state_after(state, events.drop_last()), events.last())
    }
}

/// An open session that gets payloads and nothing else stays open and
/// acknowledges every one of them, in the order in which they came.
pub proof fn lemma_payloads_are_acknowledged_in_order(events: Seq<SessionEvent>)
    requires
        forall|i: int| 0 <= i < events.len() ==> is_payload(#[trigger] events[i]),
    ensures
        state_after(SessionState::Open, events) is Open,
        forall|i: int|
            0 <= i < events.len() ==> state_after(SessionState::Open, #[trigger] events.take(i)) is Open
                && reply_to(state_after(SessionState::Open, events.take(i)), events[i]) == ack_of(
                events[i],
            ),
    decreases events.len(),
{
    if events.len() > 0 {
        let front = events.drop_last();
        assert forall|i: int| 0 <= i < front.len() implies is_payload(#[trigger] front[i]) by {
            assert(front[i] == events[i]);
        }
        lemma_payloads_are_acknowledged_in_order(front);
        assert(is_payload(events.last()));
        assert forall|i: int| 0 <= i < events.len() implies state_after(
            SessionState::Open,
            #[trigger] events.take(i),
        ) is Open && reply_to(state_after(SessionState::Open, events.take(i)), events[i]) == ack_of(
            events[i],
        ) by {
            assert(is_payload(events[i]));
            if i < front.len() {
                assert(events.take(i) =~= front.take(i));
                assert(front[i] == events[i]);
            } else {
                assert(events.take(i) =~= front);
            }
        }
    }
}

/// A closed session stays closed, sends nothing and leaves the registry alone.
pub proof fn lemma_closed_is_terminal(event: SessionEvent, entries: Seq<UserId>, identity: Option<UserId>)
    ensures
        next_state(SessionState::Closed, event) is Closed,
        reply_to(SessionState::Closed, event) == silence(),
        registry_after(entries, identity, SessionState::Closed, next_state(SessionState::Closed, event))
            == entries,
{
}

/// A closing session is closed after the next event, whatever the peer does.
pub proof fn lemma_closing_always_closes(event: SessionEvent)
    ensures
        next_state(SessionState::Closing, event) is Closed,
{
}

/// A forced shutdown closes the session wherever it stands.
pub proof fn lemma_shutdown_closes(state: SessionState)
    ensures
        next_state(state, SessionEvent::Shutdown) is Closed,
        reply_to(state, SessionEvent::Shutdown) == silence(),
{
}

/// Every way out of an open or closing session releases the presence entry
/// of the identity it was bound to.
pub proof fn lemma_every_exit_releases(
    state: SessionState,
    event: SessionEvent,
    entries: Seq<UserId>,
    id: UserId,
)
    requires
        state is Open || state is Closing,
        next_state(state, event) is Closed,
    ensures
        !is_present(registry_after(entries, Some(id), state, next_state(state, event)), id),
{
    lemma_released(entries, id);
}

/// A forced shutdown and a close by the peer, in either order, end in the
/// same place: the session closed and the registry released once. Should
/// both of them release the entry, that is one release too.
pub proof fn lemma_racing_closes_converge(state: SessionState, entries: Seq<UserId>, id: UserId)
    requires
        state is Open || state is Closing,
    ensures
        ({
            let by_peer = next_state(state, SessionEvent::CloseFrame);
            let by_force = next_state(state, SessionEvent::Shutdown);
            let peer_then_force = next_state(by_peer, SessionEvent::Shutdown);
            let force_then_peer = next_state(by_force, SessionEvent::CloseFrame);
            let after_peer = registry_after(entries, Some(id), state, by_peer);
            let after_force = registry_after(entries, Some(id), state, by_force);
            &&& peer_then_force is Closed
            &&& force_then_peer is Closed
            &&& registry_after(after_peer, Some(id), by_peer, peer_then_force) == released(entries, id)
            &&& registry_after(after_force, Some(id), by_force, force_then_peer) == released(entries, id)
            &&& released(after_peer, id) == released(entries, id)
            &&& released(after_force, id) == released(entries, id)
        }),
{
    lemma_release_is_idempotent(entries, id);
}

} // verus!
