use vstd::prelude::*;

verus! {

/// An HTTP/3 event that the transport reports on a stream.
#[derive(PartialEq, Eq, Structural, Debug, Clone, Copy)]
pub enum InboundEvent {
    Headers { more_frames: bool },
    Data,
    Finished,
    Reset,
    GoAway,
    PriorityUpdate,
}

/// What the event loop does with an inbound event.
#[derive(PartialEq, Eq, Structural, Debug, Clone, Copy)]
pub enum InboundAction {
    /// Hand the headers on, ending the stream when no frame follows.
    EmitHeaders { is_end: bool },
    /// Read the body bytes and hand each slice on, not ending the stream.
    ReadBody,
    /// Hand on an empty body slice that ends the stream.
    EmitEnd,
    /// Close the connection: the peer reset a stream.
    CloseConnection,
    Ignore,
}

/// The action for each inbound event.
pub open spec fn inbound_action(e: InboundEvent) -> InboundAction {
    match e {
        InboundEvent::Headers { more_frames } => InboundAction::EmitHeaders { is_end: !more_frames },
        InboundEvent::Data => InboundAction::ReadBody,
        InboundEvent::Finished => InboundAction::EmitEnd,
        InboundEvent::Reset => InboundAction::CloseConnection,
        InboundEvent::GoAway => InboundAction::Ignore,
        InboundEvent::PriorityUpdate => InboundAction::Ignore,
    }
}

pub fn on_inbound(event: InboundEvent) -> (r: InboundAction)
    ensures
        r == inbound_action(event),
{
    match event {
        InboundEvent::Headers { more_frames } => InboundAction::EmitHeaders { is_end: !more_frames },
        InboundEvent::Data => InboundAction::ReadBody,
        InboundEvent::Finished => InboundAction::EmitEnd,
        InboundEvent::Reset => InboundAction::CloseConnection,
        InboundEvent::GoAway => InboundAction::Ignore,
        InboundEvent::PriorityUpdate => InboundAction::Ignore,
    }
}

/// What the loop does after taking in the datagrams of one wake-up.
#[derive(PartialEq, Eq, Structural, Debug, Clone, Copy)]
pub enum LoopStep {
    /// The connection is closed: leave the loop.
    Exit,
    /// Create the HTTP/3 session; `confirm` tells the caller that the
    /// connection is up.
    CreateSession { confirm: bool },
    Proceed,
}

/// The connection's progress as the event loop sees it.
pub struct LoopState {
    pub h3_ready: bool,
    pub confirmed: bool,
    pub closed: bool,
}

impl LoopState {
    pub fn new() -> (r: LoopState)
        ensures
            !r.h3_ready,
            !r.confirmed,
            !r.closed,
    {
        LoopState { h3_ready: false, confirmed: false, closed: false }
    }

    /// Decides the next step from the transport's state. A closed connection
    /// ends the loop; once the handshake is done the session is created once,
    /// and the caller is told the first time, and only then.
    pub fn on_poll(&mut self, established: bool, closed: bool) -> (r: LoopStep)
        requires
            !old(self).closed,
            old(self).confirmed == old(self).h3_ready,
        ensures
            final(self).confirmed == final(self).h3_ready,
            closed ==> r == LoopStep::Exit && final(self).closed && final(self).h3_ready
                == old(self).h3_ready,
            !closed && established && !old(self).h3_ready ==> r == (LoopStep::CreateSession {
                confirm: true,
            }) && final(self).h3_ready && !final(self).closed,
            !closed && !(established && !old(self).h3_ready) ==> r == LoopStep::Proceed
                && *final(self) == *old(self),
    {
        if closed {
            self.closed = true;
            return LoopStep::Exit;
        }
        if established && !self.h3_ready {
            self.h3_ready = true;
            let confirm = !self.confirmed;
            self.confirmed = true;
            return LoopStep::CreateSession { confirm };
        }
        LoopStep::Proceed
    }
}

/// The payload of a keep-alive ping: a single zero byte.
pub fn ping_payload() -> (r: Vec<u8>)
    ensures
        r@ == seq![0u8],
{
    let mut v: Vec<u8> = Vec::new();
    v.push(0);
    assert(v@ =~= seq![0u8]);
    v
}

} // verus!
