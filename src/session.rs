//! The session lifecycle and the decision protocol. Every outbound and inbound
//! message passes through the application's decision; the engine's reaction
//! and its next state are decided here, and the caller carries them out.

use vstd::prelude::*;
use crate::message::Message;
use crate::encoding::encoding;
use crate::message::encode_message;

verus! {

/// What the application decides for an inbound message.
#[derive(PartialEq, Eq, Structural, Clone, Copy, Debug)]
pub enum InboundDecision {
    Accept,
    TerminateSession,
}

/// What the application decides for an outbound message.
#[derive(PartialEq, Eq, Structural, Clone, Copy, Debug)]
pub enum OutboundDecision {
    Send,
    Drop,
    TerminateSession,
}

/// The lifecycle of a session.
#[derive(PartialEq, Eq, Structural, Clone, Copy, Debug)]
pub enum SessionState {
    Created,
    LoggingOn,
    Active,
    ShuttingDown,
    Closed,
}

/// Why a send did not go through.
#[derive(PartialEq, Eq, Structural, Clone, Copy, Debug)]
pub enum SessionError {
    /// The session is shutting down or closed.
    SessionClosed,
    /// The session has not logged on yet.
    NotConnected,
    /// The application asked to end the session instead of sending.
    SessionTerminated,
}

/// A request that a caller queues for the session's worker.
#[derive(PartialEq, Eq, Structural, Clone, Copy, Debug)]
pub enum CommandKind {
    SendMessage,
    Shutdown,
}

/// What the worker does with a command taken off the queue.
#[derive(PartialEq, Eq, Structural, Clone, Copy, Debug)]
pub enum CommandAction {
    /// Hand the message to the engine and reply with its outcome.
    Submit,
    /// Reply at once with this error.
    Refuse(SessionError),
    /// Leave the command loop.
    Stop,
}

/// Whether a session in state `s` has begun or finished its teardown.
pub open spec fn is_ending(s: SessionState) -> bool {
    s == SessionState::ShuttingDown || s == SessionState::Closed
}

/// The state after the application's outbound decision `d` in state `s`.
pub open spec fn after_outbound(s: SessionState, d: OutboundDecision) -> SessionState {
    if s == SessionState::Active && d == OutboundDecision::TerminateSession {
        SessionState::ShuttingDown
    } else {
        s
    }
}

/// The state after the application's inbound decision `d` in state `s`.
pub open spec fn after_inbound(s: SessionState, d: InboundDecision) -> SessionState {
    if !is_ending(s) && d == InboundDecision::TerminateSession {
        SessionState::ShuttingDown
    } else {
        s
    }
}

/// The state after the teardown ends in state `s`.
pub open spec fn after_finish(s: SessionState) -> SessionState {
    if s == SessionState::ShuttingDown {
        SessionState::Closed
    } else {
        s
    }
}

/// The state after the session is destroyed in state `s`.
pub open spec fn after_close(s: SessionState) -> SessionState {
    SessionState::Closed
}

/// Whether destroying a session in state `s` has a shutdown to carry out.
pub open spec fn close_needed(s: SessionState) -> bool {
    s != SessionState::Closed
}

/// What a send in state `s` with decision `d` yields, `encoded` being the
/// frame of the message: its bytes to transmit, or why it failed.
pub open spec fn outbound_result(s: SessionState, d: OutboundDecision, encoded: Seq<u8>) -> Result<
    Seq<u8>,
    SessionError,
> {
    if is_ending(s) {
        Err(SessionError::SessionClosed)
    } else if s != SessionState::Active {
        Err(SessionError::NotConnected)
    } else {
        match d {
            OutboundDecision::Send => Ok(encoded),
            OutboundDecision::Drop => Ok(Seq::empty()),
            OutboundDecision::TerminateSession => Err(SessionError::SessionTerminated),
        }
    }
}

/// The outbound decision to act on, given what the application's callback
/// returned: `None` when it failed or returned no decision, in which case the
/// message is sent.
pub fn outbound_or_default(d: Option<OutboundDecision>) -> (r: OutboundDecision)
    ensures
        r == match d {
            Some(x) => x,
            None => OutboundDecision::Send,
        },
{
    match d {
        Some(x) => x,
        None => OutboundDecision::Send,
    }
}

/// The inbound decision to act on, given what the application's callback
/// returned: `None` when it failed or returned no decision, in which case the
/// message is accepted.
pub fn inbound_or_default(d: Option<InboundDecision>) -> (r: InboundDecision)
    ensures
        r == match d {
            Some(x) => x,
            None => InboundDecision::Accept,
        },
{
    match d {
        Some(x) => x,
        None => InboundDecision::Accept,
    }
}

/// The decision-driven state of one session.
pub struct SessionCore {
    state: SessionState,
}

impl SessionCore {
    /// The current state.
    pub closed spec fn spec_state(&self) -> SessionState {
        self.state
    }

    /// A session that has not started.
    pub fn new() -> (r: SessionCore)
        ensures
            r.spec_state() == SessionState::Created,
    {
        SessionCore { state: SessionState::Created }
    }

    /// The current state.
    pub fn state(&self) -> (r: SessionState)
        ensures
            r == self.spec_state(),
    {
        self.state
    }

    /// Whether the session still takes commands: `SessionClosed` once its
    /// teardown has begun.
    pub fn check_open(&self) -> (r: Result<(), SessionError>)
        ensures
            is_ending(self.spec_state()) <==> r is Err,
            r is Err ==> r == Err::<(), SessionError>(SessionError::SessionClosed),
    {
        if self.state == SessionState::ShuttingDown || self.state == SessionState::Closed {
            Err(SessionError::SessionClosed)
        } else {
            Ok(())
        }
    }

    /// Decides what the worker does with the next queued command. A send is
    /// submitted while the session is open and refused with `SessionClosed`
    /// once its teardown has begun; a shutdown ends the loop and begins the
    /// teardown.
    pub fn next_action(&mut self, cmd: CommandKind) -> (r: CommandAction)
        ensures
            cmd == CommandKind::SendMessage ==> final(self).spec_state() == old(self).spec_state()
                && r == if is_ending(old(self).spec_state()) {
                CommandAction::Refuse(SessionError::SessionClosed)
            } else {
                CommandAction::Submit
            },
            cmd == CommandKind::Shutdown ==> r == CommandAction::Stop && final(self).spec_state()
                == if is_ending(old(self).spec_state()) {
                old(self).spec_state()
            } else {
                SessionState::ShuttingDown
            },
    {
        match cmd {
            CommandKind::SendMessage => match self.check_open() {
                Ok(()) => CommandAction::Submit,
                Err(e) => CommandAction::Refuse(e),
            },
            CommandKind::Shutdown => {
                let _ = self.request_shutdown();
                CommandAction::Stop
            },
        }
    }

    /// Starts the logon: a created session begins logging on. Returns whether
    /// the transport should now connect; in any other state nothing changes.
    pub fn start(&mut self) -> (r: bool)
        ensures
            r == (old(self).spec_state() == SessionState::Created),
            final(self).spec_state() == if r {
                SessionState::LoggingOn
            } else {
                old(self).spec_state()
            },
    {
        if self.state == SessionState::Created {
            self.state = SessionState::LoggingOn;
            true
        } else {
            false
        }
    }

    /// The logon handshake succeeded: a session logging on becomes active.
    /// Returns whether the application's logon callback is due.
    pub fn logon_completed(&mut self) -> (r: bool)
        ensures
            r == (old(self).spec_state() == SessionState::LoggingOn),
            final(self).spec_state() == if r {
                SessionState::Active
            } else {
                old(self).spec_state()
            },
    {
        if self.state == SessionState::LoggingOn {
            self.state = SessionState::Active;
            true
        } else {
            false
        }
    }

    /// Carries out the application's decision `decision` on an outbound
    /// `message`: the bytes to transmit (none for a dropped message), or the
    /// reason the send failed. Ending the session starts its teardown.
    pub fn process_outbound(
        &mut self,
        message: &Message,
        begin_string: &str,
        separator: u8,
        decision: OutboundDecision,
    ) -> (r: Result<Vec<u8>, SessionError>)
        ensures
            final(self).spec_state() == after_outbound(old(self).spec_state(), decision),
            match (r, outbound_result(
                old(self).spec_state(),
                decision,
                encoding(begin_string@, message@, separator),
            )) {
                (Ok(b), Ok(e)) => b@ == e,
                (Err(x), Err(y)) => x == y,
                _ => false,
            },
    {
        if self.state == SessionState::ShuttingDown || self.state == SessionState::Closed {
            return Err(SessionError::SessionClosed);
        }
        if self.state != SessionState::Active {
            return Err(SessionError::NotConnected);
        }
        match decision {
            OutboundDecision::Send => Ok(encode_message(message, begin_string, separator)),
            OutboundDecision::Drop => {
                let empty: Vec<u8> = Vec::new();
                assert(empty@ =~= Seq::<u8>::empty());
                Ok(empty)
            },
            OutboundDecision::TerminateSession => {
                self.state = SessionState::ShuttingDown;
                Err(SessionError::SessionTerminated)
            },
        }
    }

    /// Carries out the application's decision on an inbound message. Returns
    /// whether normal processing of the message goes on; ending the session
    /// starts its teardown, and a session already ending ignores the message.
    pub fn process_inbound(&mut self, decision: InboundDecision) -> (r: bool)
        ensures
            r == (!is_ending(old(self).spec_state()) && decision == InboundDecision::Accept),
            final(self).spec_state() == after_inbound(old(self).spec_state(), decision),
    {
        if self.state == SessionState::ShuttingDown || self.state == SessionState::Closed {
            return false;
        }
        match decision {
            InboundDecision::Accept => true,
            InboundDecision::TerminateSession => {
                self.state = SessionState::ShuttingDown;
                false
            },
        }
    }

    /// An explicit shutdown request: a session not yet ending begins its
    /// teardown. Returns whether it did.
    pub fn request_shutdown(&mut self) -> (r: bool)
        ensures
            r == !is_ending(old(self).spec_state()),
            final(self).spec_state() == if r {
                SessionState::ShuttingDown
            } else {
                old(self).spec_state()
            },
    {
        if self.state == SessionState::ShuttingDown || self.state == SessionState::Closed {
            false
        } else {
            self.state = SessionState::ShuttingDown;
            true
        }
    }

    /// Ends the teardown: a session shutting down is closed. Returns whether
    /// the application's logout callback is due, which happens once.
    pub fn finish_shutdown(&mut self) -> (r: bool)
        ensures
            r == (old(self).spec_state() == SessionState::ShuttingDown),
            final(self).spec_state() == after_finish(old(self).spec_state()),
    {
        if self.state == SessionState::ShuttingDown {
            self.state = SessionState::Closed;
            true
        } else {
            false
        }
    }

    /// Destroys the session: whatever its state, it ends closed. Returns
    /// whether a shutdown had to be carried out (the worker told to stop and
    /// waited for); for a session already closed it is a no-op.
    pub fn close(&mut self) -> (r: bool)
        ensures
            r == close_needed(old(self).spec_state()),
            final(self).spec_state() == after_close(old(self).spec_state()),
    {
        let _ = self.request_shutdown();
        self.finish_shutdown()
    }
}

/// A dropped outbound message is a successful send that transmits nothing,
/// and leaves the session as it was.
pub proof fn lemma_drop_transmits_nothing(s: SessionState, encoded: Seq<u8>)
    requires
        s == SessionState::Active,
    ensures
        outbound_result(s, OutboundDecision::Drop, encoded) == Ok::<Seq<u8>, SessionError>(
            Seq::empty(),
        ),
        after_outbound(s, OutboundDecision::Drop) == s,
{
}

/// When the application ends an active session, through an outbound or an
/// inbound decision, the teardown brings it to `Closed`, where every later
/// send fails with `SessionClosed`.
pub proof fn lemma_terminate_closes(
    s: SessionState,
    d: OutboundDecision,
    encoded: Seq<u8>,
    by_outbound: bool,
)
    requires
        s == SessionState::Active,
    ensures
        ({
            let ending = if by_outbound {
                after_outbound(s, OutboundDecision::TerminateSession)
            } else {
                after_inbound(s, InboundDecision::TerminateSession)
            };
            &&& ending == SessionState::ShuttingDown
            &&& after_finish(ending) == SessionState::Closed
            &&& outbound_result(after_finish(ending), d, encoded) == Err::<Seq<u8>, SessionError>(
                SessionError::SessionClosed,
            )
        }),
{
}

/// `Closed` is terminal: no decision, request or teardown leaves it.
pub proof fn lemma_closed_is_terminal(d: OutboundDecision, i: InboundDecision)
    ensures
        after_outbound(SessionState::Closed, d) == SessionState::Closed,
        after_inbound(SessionState::Closed, i) == SessionState::Closed,
        after_finish(SessionState::Closed) == SessionState::Closed,
{
}

/// Closing a session twice ends it closed, and only the first close has a
/// shutdown to carry out; the second is a no-op.
pub proof fn lemma_close_twice(s: SessionState)
    ensures
        after_close(s) == SessionState::Closed,
        after_close(after_close(s)) == SessionState::Closed,
        close_needed(s) == (s != SessionState::Closed),
        !close_needed(after_close(s)),
{
}

} // verus!
