//! The life of the monitor connection.
//!
//! One connection serves request after request. A request is any run of
//! bytes that ends with the delimiter; what it says is not looked at. Each
//! request is answered with a snapshot of all windows. A failure ends the
//! cycle it happens in, never the handler: it then waits for a new
//! connection.

use vstd::prelude::*;
use crate::framing::{frames, residue, Decoder};
use crate::store::{exported, Aggregator, Snapshot};

verus! {

/// Where the handler stands in its cycle.
#[derive(Clone, Copy, Debug, PartialEq, Eq, Structural)]
pub enum DashboardState {
    /// No byte of the next request has arrived.
    WaitingForRequest,
    /// A request has begun and its delimiter is awaited.
    ReadingRequest,
    /// A request is complete and the snapshot is to be taken.
    BuildingSnapshot,
    /// The snapshot is taken and the reply is to be written and flushed.
    WritingResponse,
    /// The reply is out; the handler rests before the next request.
    Idle,
}

/// What the transport is to do next for the handler.
#[derive(Clone, Copy, Debug, PartialEq, Eq, Structural)]
pub enum DashboardAction {
    /// Accept a connection, and report whether one came.
    Accept,
    /// Wait for bytes, and report them or the failure.
    Read,
    /// Have the snapshot taken.
    Build,
    /// Write the reply and flush, and report whether that went through.
    Write,
    /// Wait for the rest time, and report when it is over.
    Delay,
}

/// The handler as the contracts see it.
pub struct DashboardModel {
    pub state: DashboardState,
    /// Whether a connection is open.
    pub connected: bool,
    /// The bytes of the request that is still arriving.
    pub pending: Seq<u8>,
}

impl DashboardModel {
    /// The handler before any connection.
    pub open spec fn initial() -> DashboardModel {
        DashboardModel {
            state: DashboardState::WaitingForRequest,
            connected: false,
            pending: Seq::empty(),
        }
    }

    /// The handler without its connection, waiting for a new one.
    pub open spec fn disconnected() -> DashboardModel {
        Self::initial()
    }

    /// Whether the handler awaits bytes.
    pub open spec fn is_reading(self) -> bool {
        self.connected && (self.state == DashboardState::WaitingForRequest || self.state
            == DashboardState::ReadingRequest)
    }

    /// What the transport is to do next.
    pub open spec fn next_action(self) -> DashboardAction {
        match self.state {
            DashboardState::WaitingForRequest => if self.connected {
                DashboardAction::Read
            } else {
                DashboardAction::Accept
            },
            DashboardState::ReadingRequest => DashboardAction::Read,
            DashboardState::BuildingSnapshot => DashboardAction::Build,
            DashboardState::WritingResponse => DashboardAction::Write,
            DashboardState::Idle => DashboardAction::Delay,
        }
    }

    /// The handler after an attempt to accept a connection.
    pub open spec fn after_accept(self, accepted: bool) -> DashboardModel {
        if self.state == DashboardState::WaitingForRequest && !self.connected && accepted {
            DashboardModel { connected: true, ..self }
        } else {
            self
        }
    }

    /// Whether a read of `bytes` completes a request. Where it completes
    /// several, the one snapshot that follows answers them all.
    pub open spec fn completes_request(self, bytes: Seq<u8>) -> bool {
        self.is_reading() && frames(self.pending + bytes).len() > 0
    }

    /// The handler after a read that returned `bytes`. An empty read is the
    /// end of the stream and costs the connection. Other bytes complete a
    /// request or are kept until its delimiter arrives.
    pub open spec fn after_data(self, bytes: Seq<u8>) -> DashboardModel {
        if !self.is_reading() {
            self
        } else if bytes.len() == 0 {
            Self::disconnected()
        } else {
            DashboardModel {
                state: if frames(self.pending + bytes).len() > 0 {
                    DashboardState::BuildingSnapshot
                } else {
                    DashboardState::ReadingRequest
                },
                pending: residue(self.pending + bytes),
                ..self
            }
        }
    }

    /// The handler after a read that failed.
    pub open spec fn after_read_failure(self) -> DashboardModel {
        if self.is_reading() {
            Self::disconnected()
        } else {
            self
        }
    }

    /// The handler after the snapshot has been taken.
    pub open spec fn after_build(self) -> DashboardModel {
        if self.state == DashboardState::BuildingSnapshot {
            DashboardModel { state: DashboardState::WritingResponse, ..self }
        } else {
            self
        }
    }

    /// The handler after the attempt to write the reply.
    pub open spec fn after_write(self, written: bool) -> DashboardModel {
        if self.state != DashboardState::WritingResponse {
            self
        } else if written {
            DashboardModel { state: DashboardState::Idle, ..self }
        } else {
            Self::disconnected()
        }
    }

    /// The handler after its rest.
    pub open spec fn after_delay(self) -> DashboardModel {
        if self.state == DashboardState::Idle {
            DashboardModel { state: DashboardState::WaitingForRequest, ..self }
        } else {
            self
        }
    }
}

/// A request that arrives in two reads is seen as if it had arrived in
/// one: the second read completes it exactly where the one read would, and
/// the same bytes are held back.
pub proof fn lemma_split_request(h: DashboardModel, first: Seq<u8>, second: Seq<u8>)
    requires
        h.is_reading(),
        first.len() > 0,
        second.len() > 0,
        !h.completes_request(first),
    ensures
        h.after_data(first).after_data(second) == h.after_data(first + second),
        h.after_data(first).completes_request(second) == h.completes_request(first + second),
{
    crate::framing::lemma_split_read(h.pending + first, second);
    assert((h.pending + first) + second =~= h.pending + (first + second));
    assert(frames(h.pending + first) + frames(residue(h.pending + first) + second) =~= frames(
        residue(h.pending + first) + second,
    ));
}

/// One served request takes the handler round its cycle and back to where
/// it waits, with the connection kept.
pub proof fn lemma_cycle(h: DashboardModel, request: Seq<u8>)
    requires
        h.is_reading(),
        request.len() > 0,
        h.completes_request(request),
    ensures
        h.after_data(request).state == DashboardState::BuildingSnapshot,
        h.after_data(request).after_build().state == DashboardState::WritingResponse,
        h.after_data(request).after_build().after_write(true).state == DashboardState::Idle,
        h.after_data(request).after_build().after_write(true).after_delay().state
            == DashboardState::WaitingForRequest,
        h.after_data(request).after_build().after_write(true).after_delay().connected,
        h.after_data(request).after_build().after_write(false) == DashboardModel::disconnected(),
{
}

/// The handler of the monitor connection.
pub struct DashboardHandler {
    state: DashboardState,
    connected: bool,
    scanner: Decoder,
}

impl View for DashboardHandler {
    type V = DashboardModel;

    closed spec fn view(&self) -> DashboardModel {
        DashboardModel { state: self.state, connected: self.connected, pending: self.scanner@ }
    }
}

impl DashboardHandler {
    /// A handler without a connection.
    pub fn new() -> (handler: DashboardHandler)
        ensures
            handler@ == DashboardModel::initial(),
    {
        DashboardHandler {
            state: DashboardState::WaitingForRequest,
            connected: false,
            scanner: Decoder::new(),
        }
    }

    /// Where the handler stands in its cycle.
    pub fn state(&self) -> (state: DashboardState)
        ensures
            state == self@.state,
    {
        self.state
    }

    /// Whether a connection is open.
    pub fn is_connected(&self) -> (connected: bool)
        ensures
            connected == self@.connected,
    {
        self.connected
    }

    /// What the transport is to do next.
    pub fn next_action(&self) -> (action: DashboardAction)
        ensures
            action == self@.next_action(),
    {
        match self.state {
            DashboardState::WaitingForRequest => if self.connected {
                DashboardAction::Read
            } else {
                DashboardAction::Accept
            },
            DashboardState::ReadingRequest => DashboardAction::Read,
            DashboardState::BuildingSnapshot => DashboardAction::Build,
            DashboardState::WritingResponse => DashboardAction::Write,
            DashboardState::Idle => DashboardAction::Delay,
        }
    }

    fn is_reading(&self) -> (reading: bool)
        ensures
            reading == self@.is_reading(),
    {
        self.connected && match self.state {
            DashboardState::WaitingForRequest => true,
            DashboardState::ReadingRequest => true,
            _ => false,
        }
    }

    fn disconnect(&mut self)
        ensures
            final(self)@ == DashboardModel::disconnected(),
    {
        self.state = DashboardState::WaitingForRequest;
        self.connected = false;
        self.scanner.reset();
    }

    /// Takes in whether a connection was accepted.
    pub fn on_accept(&mut self, accepted: bool)
        ensures
            final(self)@ == old(self)@.after_accept(accepted),
    {
        match self.state {
            DashboardState::WaitingForRequest => {
                if !self.connected && accepted {
                    self.connected = true;
                }
            },
            _ => {},
        }
    }

    /// Takes in what one read returned. Returns whether a request is now
    /// complete, so that the snapshot is due.
    pub fn on_data(&mut self, bytes: &[u8]) -> (complete: bool)
        ensures
            final(self)@ == old(self)@.after_data(bytes@),
            complete == (bytes@.len() > 0 && old(self)@.completes_request(bytes@)),
    {
        if !self.is_reading() {
            false
        } else if bytes.len() == 0 {
            self.disconnect();
            false
        } else {
            let requests = self.scanner.feed(bytes);
            if requests.len() > 0 {
                self.state = DashboardState::BuildingSnapshot;
                true
            } else {
                self.state = DashboardState::ReadingRequest;
                false
            }
        }
    }

    /// Takes in a read that failed: the connection is given up.
    pub fn on_read_failure(&mut self)
        ensures
            final(self)@ == old(self)@.after_read_failure(),
    {
        if self.is_reading() {
            self.disconnect();
        }
    }

    /// Takes the snapshot that answers the request: every window, in roster
    /// order, as `store` holds them at this call. Nothing where no request
    /// is waiting for one.
    pub fn build(&mut self, store: &Aggregator) -> (snapshot: Option<Snapshot>)
        ensures
            final(self)@ == old(self)@.after_build(),
            match snapshot {
                Some(s) => old(self)@.state == DashboardState::BuildingSnapshot && s@ == exported(
                    store@,
                ),
                None => old(self)@.state != DashboardState::BuildingSnapshot,
            },
    {
        match self.state {
            DashboardState::BuildingSnapshot => {
                self.state = DashboardState::WritingResponse;
                Some(store.snapshot())
            },
            _ => None,
        }
    }

    /// Takes in whether the reply was written and flushed. A reply that
    /// did not go through costs the connection.
    pub fn on_written(&mut self, written: bool)
        ensures
            final(self)@ == old(self)@.after_write(written),
    {
        match self.state {
            DashboardState::WritingResponse => {
                if written {
                    self.state = DashboardState::Idle;
                } else {
                    self.disconnect();
                }
            },
            _ => {},
        }
    }

    /// Takes in that the rest time is over.
    pub fn on_delay_elapsed(&mut self)
        ensures
            final(self)@ == old(self)@.after_delay(),
    {
        match self.state {
            DashboardState::Idle => {
                self.state = DashboardState::WaitingForRequest;
            },
            _ => {},
        }
    }
}

} // verus!
