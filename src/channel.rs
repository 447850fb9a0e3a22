//! The two sides of one channel connection, as state machines that decide
//! the next I/O step from the outcome of the last one. The caller performs
//! each action and reports what happened.
use vstd::prelude::*;
use std::sync::Arc;
use crate::ipc::{ack_token_spec, check_ack, encoded_envelope, ChannelError, ChannelMessage};

verus! {

#[derive(PartialEq, Eq, Structural, Clone, Copy, Debug)]
pub enum SenderPhase {
    Connecting,
    AwaitingAck,
    Sending,
    Closing,
    Done,
    Failed,
}

/// What the sender's caller reports.
pub enum SenderEvent {
    /// The connection to the endpoint is open.
    Connected,
    /// The bytes read for the acknowledgment (three are asked for).
    AckRead(Vec<u8>),
    /// The payload was written.
    Written,
    /// The write direction was shut down.
    ShutDown,
    /// Connecting, reading or writing failed.
    IoFailed,
}

/// What the sender's caller must do next.
pub enum SenderAction {
    /// Read exactly three bytes.
    ReadAck,
    /// Write these bytes.
    Write(Vec<u8>),
    /// Shut down the write direction, ending the message.
    ShutdownWrite,
    /// Stop: the message was handed over.
    Finish,
    /// Stop: the connection failed.
    Fail(ChannelError),
}

pub ghost enum SenderEventKind {
    Connected,
    AckRead(Seq<u8>),
    Written,
    ShutDown,
    IoFailed,
}

#[derive(PartialEq, Eq, Structural, Clone, Copy, Debug)]
pub enum ActionKind {
    Connect,
    ReadAck,
    Write,
    ShutdownWrite,
    WriteAck,
    ReadToEnd,
    Dispatch,
    Finish,
    Fail,
}

impl SenderEvent {
    pub open spec fn kind(&self) -> SenderEventKind {
        match self {
            SenderEvent::Connected => SenderEventKind::Connected,
            SenderEvent::AckRead(b) => SenderEventKind::AckRead(b@),
            SenderEvent::Written => SenderEventKind::Written,
            SenderEvent::ShutDown => SenderEventKind::ShutDown,
            SenderEvent::IoFailed => SenderEventKind::IoFailed,
        }
    }
}

impl SenderAction {
    pub open spec fn kind(&self) -> ActionKind {
        match self {
            SenderAction::ReadAck => ActionKind::ReadAck,
            SenderAction::Write(_) => ActionKind::Write,
            SenderAction::ShutdownWrite => ActionKind::ShutdownWrite,
            SenderAction::Finish => ActionKind::Finish,
            SenderAction::Fail(_) => ActionKind::Fail,
        }
    }
}

pub open spec fn sender_terminal(p: SenderPhase) -> bool {
    p == SenderPhase::Done || p == SenderPhase::Failed
}

/// The sender's transitions: connect, read the acknowledgment, and only if
/// it is the token write the payload, then shut down the write direction.
pub open spec fn sender_next(p: SenderPhase, e: SenderEventKind) -> (SenderPhase, ActionKind) {
    if sender_terminal(p) {
        (p, ActionKind::Finish)
    } else {
        match (p, e) {
            (SenderPhase::Connecting, SenderEventKind::Connected) => (SenderPhase::AwaitingAck, ActionKind::ReadAck),
            (SenderPhase::AwaitingAck, SenderEventKind::AckRead(b)) => if b == ack_token_spec() {
                (SenderPhase::Sending, ActionKind::Write)
            } else {
                (SenderPhase::Failed, ActionKind::Fail)
            },
            (SenderPhase::Sending, SenderEventKind::Written) => (SenderPhase::Closing, ActionKind::ShutdownWrite),
            (SenderPhase::Closing, SenderEventKind::ShutDown) => (SenderPhase::Done, ActionKind::Finish),
            _ => (SenderPhase::Failed, ActionKind::Fail),
        }
    }
}

/// The sender side of one connection.
pub struct ChannelSender {
    phase: SenderPhase,
    message: ChannelMessage,
}

impl ChannelSender {
    pub closed spec fn phase(&self) -> SenderPhase {
        self.phase
    }

    pub closed spec fn message(&self) -> ChannelMessage {
        self.message
    }

    /// A sender for `message`; its first action is to connect.
    pub fn new(message: ChannelMessage) -> (r: Self)
        ensures
            r.phase() == SenderPhase::Connecting,
            r.message() == message,
    {
        ChannelSender { phase: SenderPhase::Connecting, message }
    }

    pub fn current_phase(&self) -> (r: SenderPhase)
        ensures
            r == self.phase(),
    {
        self.phase
    }

    /// Decides the next step from what the last one gave.
    pub fn on_event(&mut self, e: SenderEvent) -> (r: SenderAction)
        ensures
            final(self).message() == old(self).message(),
            (final(self).phase(), r.kind()) == sender_next(old(self).phase(), e.kind()),
            r matches SenderAction::Write(p) ==> p@ == encoded_envelope(
                old(self).message().event_type(),
                old(self).message().body(),
            ),
            r matches SenderAction::Fail(x) ==> (x == if e is AckRead {
                ChannelError::HandshakeMismatch
            } else {
                ChannelError::NetworkError
            }),
    {
        if self.phase == SenderPhase::Done || self.phase == SenderPhase::Failed {
            return SenderAction::Finish;
        }
        match (self.phase, e) {
            (SenderPhase::Connecting, SenderEvent::Connected) => {
                self.phase = SenderPhase::AwaitingAck;
                SenderAction::ReadAck
            },
            (SenderPhase::AwaitingAck, SenderEvent::AckRead(b)) => {
                match check_ack(b.as_slice()) {
                    Ok(()) => match self.message.encode() {
                        Ok(payload) => {
                            self.phase = SenderPhase::Sending;
                            SenderAction::Write(payload)
                        },
                        Err(x) => {
                            self.phase = SenderPhase::Failed;
                            SenderAction::Fail(x)
                        },
                    },
                    Err(x) => {
                        self.phase = SenderPhase::Failed;
                        SenderAction::Fail(x)
                    },
                }
            },
            (SenderPhase::Sending, SenderEvent::Written) => {
                self.phase = SenderPhase::Closing;
                SenderAction::ShutdownWrite
            },
            (SenderPhase::Closing, SenderEvent::ShutDown) => {
                self.phase = SenderPhase::Done;
                SenderAction::Finish
            },
            (_, SenderEvent::AckRead(_)) => {
                self.phase = SenderPhase::Failed;
                SenderAction::Fail(ChannelError::HandshakeMismatch)
            },
            _ => {
                self.phase = SenderPhase::Failed;
                SenderAction::Fail(ChannelError::NetworkError)
            },
        }
    }
}

#[derive(PartialEq, Eq, Structural, Clone, Copy, Debug)]
pub enum ReceiverPhase {
    Accepted,
    Reading,
    Dispatched,
    Failed,
}

/// What the receiver's caller reports.
pub enum ReceiverEvent {
    /// The acknowledgment token was written and flushed.
    AckWritten,
    /// The peer closed its write direction; these are all the bytes it sent.
    ReadComplete(Vec<u8>),
    /// Reading or writing failed.
    IoFailed,
}

/// What the receiver's caller must do next.
pub enum ReceiverAction {
    /// Write and flush the acknowledgment token.
    WriteAck,
    /// Read until the peer closes its write direction.
    ReadToEnd,
    /// Hand this message to the handlers.
    Dispatch(ChannelMessage),
    /// Stop: the message was dispatched.
    Finish,
    /// Stop: the connection failed.
    Fail(ChannelError),
}

#[derive(PartialEq, Eq, Structural, Clone, Copy, Debug)]
pub enum ReceiverEventKind {
    AckWritten,
    ReadComplete,
    IoFailed,
}

impl ReceiverEvent {
    pub open spec fn kind(&self) -> ReceiverEventKind {
        match self {
            ReceiverEvent::AckWritten => ReceiverEventKind::AckWritten,
            ReceiverEvent::ReadComplete(_) => ReceiverEventKind::ReadComplete,
            ReceiverEvent::IoFailed => ReceiverEventKind::IoFailed,
        }
    }
}

impl ReceiverAction {
    pub open spec fn kind(&self) -> ActionKind {
        match self {
            ReceiverAction::WriteAck => ActionKind::WriteAck,
            ReceiverAction::ReadToEnd => ActionKind::ReadToEnd,
            ReceiverAction::Dispatch(_) => ActionKind::Dispatch,
            ReceiverAction::Finish => ActionKind::Finish,
            ReceiverAction::Fail(_) => ActionKind::Fail,
        }
    }
}

/// The receiver's transitions: only once the acknowledgment is written does
/// it read, and only once the peer has closed does it parse and dispatch.
/// Whether the bytes parse is left open here.
pub open spec fn receiver_allows(p: ReceiverPhase, e: ReceiverEventKind, q: ReceiverPhase, a: ActionKind) -> bool {
    if p == ReceiverPhase::Dispatched || p == ReceiverPhase::Failed {
        q == p && a == ActionKind::Finish
    } else {
        match (p, e) {
            (ReceiverPhase::Accepted, ReceiverEventKind::AckWritten) => q == ReceiverPhase::Reading && a
                == ActionKind::ReadToEnd,
            (ReceiverPhase::Reading, ReceiverEventKind::ReadComplete) => (q == ReceiverPhase::Dispatched && a
                == ActionKind::Dispatch) || (q == ReceiverPhase::Failed && a == ActionKind::Fail),
            _ => q == ReceiverPhase::Failed && a == ActionKind::Fail,
        }
    }
}

/// The receiver side of one accepted connection.
pub struct ChannelReceiver {
    phase: ReceiverPhase,
}

impl ChannelReceiver {
    pub closed spec fn phase(&self) -> ReceiverPhase {
        self.phase
    }

    /// A receiver for a connection just accepted, and its first action,
    /// which is always to write the acknowledgment.
    pub fn accept() -> (r: (ChannelReceiver, ReceiverAction))
        ensures
            r.0.phase() == ReceiverPhase::Accepted,
            r.1 is WriteAck,
    {
        (ChannelReceiver { phase: ReceiverPhase::Accepted }, ReceiverAction::WriteAck)
    }

    pub fn current_phase(&self) -> (r: ReceiverPhase)
        ensures
            r == self.phase(),
    {
        self.phase
    }

    /// Decides the next step from what the last one gave. The bytes of a
    /// whole message are decoded: an encoded envelope is dispatched with its
    /// fields, anything else fails with `DeserializationError`.
    pub fn on_event(&mut self, e: ReceiverEvent) -> (r: ReceiverAction)
        ensures
            receiver_allows(old(self).phase(), e.kind(), final(self).phase(), r.kind()),
            old(self).phase() == ReceiverPhase::Reading ==> (e matches ReceiverEvent::ReadComplete(b) ==> (
                forall|t: Seq<char>, y: Seq<char>| #[trigger] encoded_envelope(t, y) == b@
                    ==> (r matches ReceiverAction::Dispatch(m) && m.event_type() == t && m.body() == y))),
            r matches ReceiverAction::Fail(x) ==> (x == if e is ReadComplete && old(self).phase() == ReceiverPhase::Reading {
                ChannelError::DeserializationError
            } else {
                ChannelError::NetworkError
            }),
    {
        if self.phase == ReceiverPhase::Dispatched || self.phase == ReceiverPhase::Failed {
            return ReceiverAction::Finish;
        }
        match (self.phase, e) {
            (ReceiverPhase::Accepted, ReceiverEvent::AckWritten) => {
                self.phase = ReceiverPhase::Reading;
                ReceiverAction::ReadToEnd
            },
            (ReceiverPhase::Reading, ReceiverEvent::ReadComplete(b)) => {
                match ChannelMessage::decode(b.as_slice()) {
                    Ok(m) => {
                        self.phase = ReceiverPhase::Dispatched;
                        ReceiverAction::Dispatch(m)
                    },
                    Err(x) => {
                        self.phase = ReceiverPhase::Failed;
                        ReceiverAction::Fail(x)
                    },
                }
            },
            _ => {
                self.phase = ReceiverPhase::Failed;
                ReceiverAction::Fail(ChannelError::NetworkError)
            },
        }
    }
}

/// A run of the sender: `acts[0]` is the initial connect, and `acts[k + 1]`
/// answers `evs[k]`.
pub open spec fn sender_run(phases: Seq<SenderPhase>, evs: Seq<SenderEventKind>, acts: Seq<ActionKind>) -> bool {
    &&& phases.len() == evs.len() + 1
    &&& acts.len() == evs.len() + 1
    &&& phases[0] == SenderPhase::Connecting
    &&& acts[0] == ActionKind::Connect
    &&& forall|k: int| 0 <= k < evs.len() ==> #[trigger] sender_next(phases[k], evs[k]) == (phases[k + 1], acts[k + 1])
}

/// A run of the receiver: `acts[0]` is the action on accept, and `acts[k + 1]`
/// answers `evs[k]`.
pub open spec fn receiver_run(phases: Seq<ReceiverPhase>, evs: Seq<ReceiverEventKind>, acts: Seq<ActionKind>) -> bool {
    &&& phases.len() == evs.len() + 1
    &&& acts.len() == evs.len() + 1
    &&& phases[0] == ReceiverPhase::Accepted
    &&& acts[0] == ActionKind::WriteAck
    &&& forall|k: int| 0 <= k < evs.len() ==> #[trigger] receiver_allows(phases[k], evs[k], phases[k + 1], acts[k + 1])
}

/// Handshake ordering. The receiver's first action is to write the
/// acknowledgment, and it reads only in answer to that write having been
/// done. The sender writes its payload only in answer to having read the
/// exact token, so never before the receiver wrote it.
pub proof fn law_handshake_ordering(
    rp: Seq<ReceiverPhase>,
    re: Seq<ReceiverEventKind>,
    ra: Seq<ActionKind>,
    sp: Seq<SenderPhase>,
    se: Seq<SenderEventKind>,
    sa: Seq<ActionKind>,
)
    ensures
        receiver_run(rp, re, ra) ==> ra[0] == ActionKind::WriteAck,
        receiver_run(rp, re, ra) ==> forall|k: int| 0 <= k < ra.len() && ra[k] == ActionKind::ReadToEnd
            ==> k >= 1 && re[k - 1] == ReceiverEventKind::AckWritten && rp[k - 1] == ReceiverPhase::Accepted,
        sender_run(sp, se, sa) ==> forall|k: int| 0 <= k < sa.len() && sa[k] == ActionKind::Write
            ==> k >= 1 && se[k - 1] == SenderEventKind::AckRead(ack_token_spec()),
{
    if receiver_run(rp, re, ra) {
        assert forall|k: int| 0 <= k < ra.len() && ra[k] == ActionKind::ReadToEnd
            implies k >= 1 && re[k - 1] == ReceiverEventKind::AckWritten && rp[k - 1] == ReceiverPhase::Accepted by {
            assert(k != 0);
            let j = k - 1;
            assert(receiver_allows(rp[j], re[j], rp[j + 1], ra[j + 1]));
        }
    }
    if sender_run(sp, se, sa) {
        assert forall|k: int| 0 <= k < sa.len() && sa[k] == ActionKind::Write
            implies k >= 1 && se[k - 1] == SenderEventKind::AckRead(ack_token_spec()) by {
            assert(k != 0);
            let j = k - 1;
            assert(sender_next(sp[j], se[j]) == (sp[j + 1], sa[j + 1]));
        }
    }
}

/// The front handler's end of the channel: it starts one sender per message.
pub struct ChannelClient {}

impl ChannelClient {
    pub fn new() -> (r: Arc<ChannelClient>) {
        Arc::new(ChannelClient {})
    }

    /// A sender that hands `message` over on a new connection.
    pub fn sender(&self, message: ChannelMessage) -> (r: ChannelSender)
        ensures
            r.phase() == SenderPhase::Connecting,
            r.message() == message,
    {
        ChannelSender::new(message)
    }
}

} // verus!
