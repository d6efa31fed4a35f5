use vstd::prelude::*;

pub mod state;

use std::collections::HashMap;

use crate::network::session::state::{SessionState, StateChange};

verus! {

/// A request to the task that owns a client's connection: poll for
/// packets, send a batch, or change the compression or the encryption.
pub enum ConnectionEvent<P, C, E> {
    Recv,
    Send(Vec<P>),
    SetCompression(Option<C>),
    SetEncryption(Option<Box<E>>),
}

/// What the connection task does with a request.
#[derive(PartialEq, Eq, Structural, Clone, Copy, Debug)]
pub enum ConnectionAction {
    /// Poll the connection once and pass the packets received on.
    Poll,
    /// Send the batch.
    Transmit,
    /// Nothing to do: the batch is empty.
    Skip,
    /// Replace the connection's setting.
    Apply,
}

/// The connection task's decision for one request: an empty batch is not
/// sent.
pub fn connection_action<P, C, E>(event: &ConnectionEvent<P, C, E>) -> (r: ConnectionAction)
    ensures
        r == match event {
            ConnectionEvent::Recv => ConnectionAction::Poll,
            ConnectionEvent::Send(packets) => if packets@.len() > 0 {
                ConnectionAction::Transmit
            } else {
                ConnectionAction::Skip
            },
            ConnectionEvent::SetCompression(_) => ConnectionAction::Apply,
            ConnectionEvent::SetEncryption(_) => ConnectionAction::Apply,
        },
{
    match event {
        ConnectionEvent::Recv => ConnectionAction::Poll,
        ConnectionEvent::Send(packets) => if packets.len() > 0 {
            ConnectionAction::Transmit
        } else {
            ConnectionAction::Skip
        },
        ConnectionEvent::SetCompression(_) => ConnectionAction::Apply,
        ConnectionEvent::SetEncryption(_) => ConnectionAction::Apply,
    }
}

/// How a step of the connection task ended.
#[derive(PartialEq, Eq, Structural, Clone, Copy, Debug)]
pub enum ConnectionStep {
    /// The connection was found closed.
    ConnectionClosed,
    /// A received packet could not be handed on: the session is gone.
    ForwardFailed,
    /// Receiving failed; the batch is dropped.
    ReceiveFailed,
    /// Sending a batch failed.
    SendFailed,
    /// The request was carried out.
    Done,
}

/// Whether the connection task goes on after a step: it stops when the
/// connection is closed, when the session is gone or when sending fails, and
/// goes on after a failed receive, which only loses that batch.
pub fn connection_continues(step: ConnectionStep) -> (r: bool)
    ensures
        r == (step == ConnectionStep::ReceiveFailed || step == ConnectionStep::Done),
{
    match step {
        ConnectionStep::ReceiveFailed => true,
        ConnectionStep::Done => true,
        _ => false,
    }
}

/// What polling the channel of received packets gave.
pub enum Polled<P> {
    Packet(P),
    Empty,
    Disconnected,
}

/// The connection-independent part of a client session: the protocol stage,
/// whether it was closed, and the packets queued for the next tick.
pub struct Session<P> {
    closed: bool,
    state: SessionState,
    out_q: Vec<P>,
    /// How many packets of each kind arrived at a stage that had no use for
    /// them.
    pub unhandled_packets: HashMap<&'static str, usize>,
}

impl<P> Session<P> {
    pub closed spec fn spec_closed(&self) -> bool {
        self.closed
    }

    pub closed spec fn spec_state(&self) -> SessionState {
        self.state
    }

    /// The counts of packets that arrived at a stage with no use for them.
    pub closed spec fn spec_unhandled_packets(&self) -> Map<&'static str, usize> {
        self.unhandled_packets@
    }

    /// Packets waiting for the next tick, oldest first.
    pub closed spec fn queue(&self) -> Seq<P> {
        self.out_q@
    }

    /// An open session at the first stage with nothing queued.
    pub fn new() -> (r: Self)
        ensures
            !r.spec_closed(),
            r.spec_state() == SessionState::Request,
            r.queue() == Seq::<P>::empty(),
            r.spec_unhandled_packets() == Map::<&'static str, usize>::empty(),
    {
        Self { closed: false, state: SessionState::Request, out_q: Vec::new(), unhandled_packets: HashMap::new() }
    }

    /// Queues `packet` for the next tick.
    pub fn send(&mut self, packet: P)
        ensures
            final(self).queue() == old(self).queue().push(packet),
            final(self).spec_unhandled_packets() == old(self).spec_unhandled_packets(),
            final(self).spec_state() == old(self).spec_state(),
            final(self).spec_closed() == old(self).spec_closed(),
    {
        self.out_q.push(packet);
    }

    /// Empties the queue; the packets to send now, if there are any.
    pub fn tick(&mut self) -> (r: Option<Vec<P>>)
        ensures
            final(self).queue() == Seq::<P>::empty(),
            final(self).spec_unhandled_packets() == old(self).spec_unhandled_packets(),
            old(self).queue().len() == 0 ==> r is None,
            old(self).queue().len() > 0 ==> r is Some && r.unwrap()@ == old(self).queue(),
            final(self).spec_state() == old(self).spec_state(),
            final(self).spec_closed() == old(self).spec_closed(),
    {
        let mut out: Vec<P> = Vec::new();
        std::mem::swap(&mut out, &mut self.out_q);
        if out.len() == 0 {
            None
        } else {
            Some(out)
        }
    }

    /// Moves the session to `state`; the change `(from, to)` to announce,
    /// none when it already was at that stage.
    pub fn set_state(&mut self, state: SessionState) -> (r: Option<StateChange>)
        ensures
            final(self).spec_state() == state,
            r == if state == old(self).spec_state() {
                None
            } else {
                Some((StateChange { from: old(self).spec_state(), to: state }))
            },
            final(self).queue() == old(self).queue(),
            final(self).spec_closed() == old(self).spec_closed(),
            final(self).spec_unhandled_packets() == old(self).spec_unhandled_packets(),
    {
        if state == self.state {
            return None;
        }
        let from = self.state;
        self.state = state;
        Some((StateChange { from: from, to: state }))
    }

    /// The next received packet, if one is waiting; a channel whose sending
    /// side is gone closes the session without a reason.
    pub fn recv(&mut self, polled: Polled<P>) -> (r: Option<P>)
        ensures
            match polled {
                Polled::Packet(p) => r == Some(p) && *final(self) == *old(self),
                Polled::Empty => r is None && *final(self) == *old(self),
                Polled::Disconnected => {
                    &&& r is None
                    &&& final(self).spec_closed()
                    &&& final(self).spec_state() == old(self).spec_state()
                    &&& final(self).queue() == old(self).queue()
                    &&& final(self).spec_unhandled_packets() == old(self).spec_unhandled_packets()
                },
            },
    {
        match polled {
            Polled::Packet(packet) => Some(packet),
            Polled::Empty => None,
            Polled::Disconnected => {
                self.close(None);
                None
            },
        }
    }

    pub fn get_state(&self) -> (r: SessionState)
        ensures
            r == self.spec_state(),
    {
        self.state
    }

    /// Closes the session; whether a disconnect with `reason` is to be sent
    /// now: only when it was open and a reason is given.
    pub fn close(&mut self, reason: Option<&str>) -> (r: bool)
        ensures
            final(self).spec_closed(),
            r == (!old(self).spec_closed() && reason is Some),
            final(self).spec_state() == old(self).spec_state(),
            final(self).queue() == old(self).queue(),
            final(self).spec_unhandled_packets() == old(self).spec_unhandled_packets(),
            old(self).spec_closed() ==> *final(self) == *old(self),
    {
        if self.closed {
            return false;
        }
        let send_disconnect = reason.is_some();
        self.closed = true;
        send_disconnect
    }

    pub fn is_closed(&self) -> (r: bool)
        ensures
            r == self.spec_closed(),
    {
        self.closed
    }
}

} // verus!
