//! Session logic: the decisions of the server's per-connection loops and of
//! the client's three activities, as pure functions from event to action.
//!
//! The loops themselves suspend on sockets and terminals, which this crate
//! does not touch; whatever runs them reads one event, asks these functions
//! what to do, and performs the returned action. Chosen policies, stated
//! here and tested: an empty input line is forwarded to the server, not
//! filtered; and a publishing connection receives its own broadcast, since a
//! publish reaches every current subscriber indiscriminately.

use vstd::prelude::*;
use crate::line::line_ok;
use crate::line::tagged;
use crate::hub::RecvOutcome;

verus! {

/// One event from a line-oriented read: a complete line with the delimiter
/// already stripped, a clean end of stream (zero bytes read), or an I/O
/// failure.
pub enum ReadEvent {
    Line(Vec<u8>),
    Eof,
    Failed,
}

/// What the server's inbound loop does with one read event.
pub enum InboundAction {
    Publish(Vec<u8>),
    Stop,
}

/// What the server's outbound loop does with one receive outcome.
pub enum OutboundAction {
    Write(Vec<u8>),
    Continue,
    Stop,
}

/// What the client's stdin-reader does with one input event.
pub enum InputAction {
    Enqueue(Vec<u8>),
    Stop,
}

/// What the client's connection-reader does with one read event.
pub enum ClientAction {
    Print(Vec<u8>),
    Disconnect,
    Fail,
}

/// The server's inbound decision: a line read from the connection at `addr`
/// — the empty line like any other — is tagged with the peer address and
/// published; a clean end of stream or a read failure ends the session.
pub fn inbound_step(addr: &Vec<u8>, ev: ReadEvent) -> (a: InboundAction)
    requires
        ev matches ReadEvent::Line(l) ==> line_ok(l@) && addr@.len() + l@.len() + 4 <= usize::MAX,
    ensures
        match ev {
            ReadEvent::Line(l) => a matches InboundAction::Publish(m) && m@ == tagged(addr@, l@),
            ReadEvent::Eof => a == InboundAction::Stop,
            ReadEvent::Failed => a == InboundAction::Stop,
        },
{
    match ev {
        ReadEvent::Line(l) => InboundAction::Publish(crate::line::format_message(addr, &l)),
        ReadEvent::Eof => InboundAction::Stop,
        ReadEvent::Failed => InboundAction::Stop,
    }
}

/// The server's outbound decision: a delivered message is written to this
/// connection unchanged; a loss report is acknowledged and the loop goes
/// on; a torn-down hub ends the session. Nothing pending means wait and ask
/// again.
pub fn outbound_step(r: RecvOutcome) -> (a: OutboundAction)
    ensures
        match r {
            RecvOutcome::Message(m) => a matches OutboundAction::Write(w) && w@ == m@,
            RecvOutcome::Lagged(_) => a == OutboundAction::Continue,
            RecvOutcome::Empty => a == OutboundAction::Continue,
            RecvOutcome::Closed => a == OutboundAction::Stop,
        },
{
    match r {
        RecvOutcome::Message(m) => OutboundAction::Write(m),
        RecvOutcome::Lagged(_) => OutboundAction::Continue,
        RecvOutcome::Empty => OutboundAction::Continue,
        RecvOutcome::Closed => OutboundAction::Stop,
    }
}

/// The client's stdin decision: every complete input line is forwarded to
/// the server unchanged — the empty line included, so that what the user
/// entered is what the server sees — and end of input or a read failure
/// ends the stdin-reader alone.
pub fn client_input_step(ev: ReadEvent) -> (a: InputAction)
    ensures
        match ev {
            ReadEvent::Line(l) => a matches InputAction::Enqueue(m) && m@ == l@,
            ReadEvent::Eof => a == InputAction::Stop,
            ReadEvent::Failed => a == InputAction::Stop,
        },
{
    match ev {
        ReadEvent::Line(l) => InputAction::Enqueue(l),
        ReadEvent::Eof => InputAction::Stop,
        ReadEvent::Failed => InputAction::Stop,
    }
}

/// The client's connection-reader decision: a line from the server is
/// printed verbatim; a clean end of stream means the server closed, and the
/// client announces the disconnect and exits cleanly — distinguished from a
/// read failure, which ends the client with an error.
pub fn client_read_step(ev: ReadEvent) -> (a: ClientAction)
    ensures
        match ev {
            ReadEvent::Line(l) => a matches ClientAction::Print(m) && m@ == l@,
            ReadEvent::Eof => a == ClientAction::Disconnect,
            ReadEvent::Failed => a == ClientAction::Fail,
        },
{
    match ev {
        ReadEvent::Line(l) => ClientAction::Print(l),
        ReadEvent::Eof => ClientAction::Disconnect,
        ReadEvent::Failed => ClientAction::Fail,
    }
}

/// The client's outbound queue: the bounded, ordered buffer between the
/// stdin-reader and the sender. Its abstract state is the sequence of
/// pending messages, oldest first, never longer than the capacity.
pub struct OutboundQueue {
    capacity: usize,
    items: Vec<Vec<u8>>,
}

impl View for OutboundQueue {
    type V = Seq<Seq<u8>>;

    closed spec fn view(&self) -> Seq<Seq<u8>> {
        self.items@.map_values(|m: Vec<u8>| m@)
    }
}

impl OutboundQueue {
    pub closed spec fn cap(self) -> nat {
        self.capacity as nat
    }

    pub open spec fn wf(self) -> bool {
        self.cap() >= 1 && self@.len() <= self.cap()
    }

    /// An empty queue of the given capacity.
    pub fn new(capacity: usize) -> (q: OutboundQueue)
        requires
            capacity >= 1,
        ensures
            q.wf(),
            q.cap() == capacity as nat,
            q@ == Seq::<Seq<u8>>::empty(),
    {
        let q = OutboundQueue { capacity, items: Vec::new() };
        proof {
            assert(q@ =~= Seq::<Seq<u8>>::empty());
        }
        q
    }

    /// Appends a message if there is room; reports whether it did. When the
    /// queue is full nothing changes and the producer must wait — a full
    /// queue suspends the stdin-reader, it never drops input.
    pub fn try_enqueue(&mut self, m: Vec<u8>) -> (ok: bool)
        requires
            old(self).wf(),
        ensures
            final(self).wf(),
            final(self).cap() == old(self).cap(),
            ok <==> old(self)@.len() < old(self).cap(),
            final(self)@ == if ok {
                old(self)@.push(m@)
            } else {
                old(self)@
            },
    {
        if self.items.len() < self.capacity {
            self.items.push(m);
            proof {
                assert(self@ =~= old(self)@.push(m@));
            }
            true
        } else {
            false
        }
    }

    /// Removes and returns the oldest pending message; `None` exactly when
    /// the queue is empty. Messages leave in the order they entered.
    pub fn dequeue(&mut self) -> (r: Option<Vec<u8>>)
        requires
            old(self).wf(),
        ensures
            final(self).wf(),
            final(self).cap() == old(self).cap(),
            match r {
                Some(m) => old(self)@.len() > 0 && m@ == old(self)@[0] && final(self)@ == old(
                    self,
                )@.drop_first(),
                None => old(self)@.len() == 0 && final(self)@ == old(self)@,
            },
    {
        if self.items.len() > 0 {
            let m = self.items.remove(0);
            proof {
                assert(self@ =~= old(self)@.drop_first());
            }
            Some(m)
        } else {
            None
        }
    }

    /// How many messages are pending.
    pub fn len(&self) -> (n: usize)
        ensures
            n as nat == self@.len(),
    {
        self.items.len()
    }
}

} // verus!
