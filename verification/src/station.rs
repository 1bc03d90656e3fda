//! The life of one station connection.
//!
//! A handler is made when a connection has been accepted into a slot. It
//! reads until the stream ends, fails or falls silent, decoding and
//! ingesting on the way; then it closes and gives its slot back. The
//! transport does the reading and closing; the handler decides what is
//! next and what each event changes.

use vstd::prelude::*;
use crate::framing::{frames, record_bytes, residue, Decoder};
use crate::pool::{after_release, SlotPool};
use crate::reading::{SensorData, TimedSensorData};
use crate::registry::{classified, Registry, StationId};
use crate::store::{after_ingest, Aggregator};

verus! {

/// Where a handler stands.
#[derive(Clone, Copy, Debug, PartialEq, Eq, Structural)]
pub enum HandlerState {
    /// The connection is accepted and nothing has been read yet.
    Accepted,
    /// Bytes have arrived and more are awaited.
    Reading,
    /// Reading is over; the transport is to be flushed and closed.
    Closing,
    /// The slot is back in the pool. Nothing follows.
    Released,
}

/// Why a handler stopped reading.
#[derive(Clone, Copy, Debug, PartialEq, Eq, Structural)]
pub enum CloseReason {
    /// A read returned no bytes: the station closed the stream.
    EndOfStream,
    /// A read failed.
    TransportError,
    /// Nothing arrived within the idle time.
    IdleTimeout,
}

/// What the transport is to do next for a handler.
#[derive(Clone, Copy, Debug, PartialEq, Eq, Structural)]
pub enum HandlerAction {
    /// Wait for bytes, and report them or the failure.
    Read,
    /// Flush and close the connection, then release.
    Close,
    /// Nothing: the handler is done.
    Stop,
}

/// What became of one record.
#[derive(Clone, Copy, Debug, PartialEq, Eq, Structural)]
pub enum Ingest {
    /// The reading went into the station's window.
    Stored,
    /// The connection belongs to no station of the hub: the reading was dropped.
    Unobserved,
    /// The record could not be decoded: it was dropped.
    Malformed,
    /// The handler is not reading: the record was dropped.
    NotReading,
}

/// A handler as the contracts see it.
pub struct HandlerModel {
    pub state: HandlerState,
    pub slot: usize,
    pub station: Option<StationId>,
    pub reason: Option<CloseReason>,
    /// The bytes of the record that is still arriving.
    pub pending: Seq<u8>,
}

impl HandlerModel {
    /// Whether the handler still takes bytes.
    pub open spec fn is_open(self) -> bool {
        self.state == HandlerState::Accepted || self.state == HandlerState::Reading
    }

    /// The handler after a read that returned `bytes`. An open handler
    /// closes on an empty read and otherwise keeps what follows the last
    /// delimiter; a handler that is not open stays as it is.
    pub open spec fn after_data(self, bytes: Seq<u8>) -> HandlerModel {
        if !self.is_open() {
            self
        } else if bytes.len() == 0 {
            HandlerModel {
                state: HandlerState::Closing,
                reason: Some(CloseReason::EndOfStream),
                ..self
            }
        } else {
            HandlerModel {
                state: HandlerState::Reading,
                pending: residue(self.pending + bytes),
                ..self
            }
        }
    }

    /// The records that a read of `bytes` completes.
    pub open spec fn records_of(self, bytes: Seq<u8>) -> Seq<Seq<u8>> {
        if self.is_open() && bytes.len() > 0 {
            frames(self.pending + bytes)
        } else {
            Seq::empty()
        }
    }

    /// The handler after a read that failed or timed out.
    pub open spec fn after_failure(self, reason: CloseReason) -> HandlerModel {
        if self.is_open() {
            HandlerModel { state: HandlerState::Closing, reason: Some(reason), ..self }
        } else {
            self
        }
    }

    /// The handler after its slot has gone back.
    pub open spec fn after_release(self) -> HandlerModel {
        HandlerModel { state: HandlerState::Released, ..self }
    }

    /// What the transport is to do next.
    pub open spec fn next_action(self) -> HandlerAction {
        match self.state {
            HandlerState::Accepted => HandlerAction::Read,
            HandlerState::Reading => HandlerAction::Read,
            HandlerState::Closing => HandlerAction::Close,
            HandlerState::Released => HandlerAction::Stop,
        }
    }

    /// What becomes of a record that decoded to `decoded`.
    pub open spec fn ingest_outcome(self, stations: nat, decoded: Option<SensorData>) -> Ingest {
        if self.state != HandlerState::Reading {
            Ingest::NotReading
        } else if decoded.is_none() {
            Ingest::Malformed
        } else if self.station matches Some(id) && id.index < stations {
            Ingest::Stored
        } else {
            Ingest::Unobserved
        }
    }

    /// The windows after a record that decoded to `decoded` at time `now`:
    /// a stored reading goes into the window of the handler's station, and
    /// nothing else changes anything.
    pub open spec fn store_after(
        self,
        windows: Seq<Seq<TimedSensorData>>,
        decoded: Option<SensorData>,
        now: u64,
    ) -> Seq<Seq<TimedSensorData>> {
        if self.ingest_outcome(windows.len(), decoded) == Ingest::Stored {
            after_ingest(windows, self.station, TimedSensorData::stamped(decoded.unwrap(), now))
        } else {
            windows
        }
    }
}

/// A record that cannot be decoded costs nothing but itself: the windows
/// stay as they are, and the record after it is taken in as if the bad one
/// had never come. The handler is not touched, so it goes on reading.
pub proof fn lemma_malformed_is_skipped(
    h: HandlerModel,
    windows: Seq<Seq<TimedSensorData>>,
    bad_at: u64,
    next: Option<SensorData>,
    next_at: u64,
)
    ensures
        h.store_after(windows, None, bad_at) == windows,
        h.store_after(h.store_after(windows, None, bad_at), next, next_at) == h.store_after(
            windows,
            next,
            next_at,
        ),
        h.ingest_outcome(windows.len(), None) != Ingest::Stored,
{
}

/// A released handler is done: no event changes it, and it asks for nothing.
pub proof fn lemma_released_is_terminal(h: HandlerModel, bytes: Seq<u8>, reason: CloseReason)
    requires
        h.state == HandlerState::Released,
    ensures
        h.after_data(bytes) == h,
        h.records_of(bytes) == Seq::<Seq<u8>>::empty(),
        h.after_failure(reason) == h,
        h.after_release() == h,
        h.next_action() == HandlerAction::Stop,
{
}

/// A handler that is closing takes no more bytes; only release moves it on.
pub proof fn lemma_closing_only_releases(h: HandlerModel, bytes: Seq<u8>, reason: CloseReason)
    requires
        h.state == HandlerState::Closing,
    ensures
        h.after_data(bytes) == h,
        h.records_of(bytes) == Seq::<Seq<u8>>::empty(),
        h.after_failure(reason) == h,
        h.next_action() == HandlerAction::Close,
        h.after_release().state == HandlerState::Released,
{
}

/// A stream that arrives in two reads is decoded as if it had arrived in
/// one: the same records in the same order, and the same bytes held back.
pub proof fn lemma_two_reads_as_one(h: HandlerModel, first: Seq<u8>, second: Seq<u8>)
    requires
        h.is_open(),
        first.len() > 0,
        second.len() > 0,
    ensures
        h.records_of(first) + h.after_data(first).records_of(second) == h.records_of(
            first + second,
        ),
        h.after_data(first).after_data(second) == h.after_data(first + second),
{
    crate::framing::lemma_split_read(h.pending + first, second);
    assert((h.pending + first) + second =~= h.pending + (first + second));
}

/// The handler of one station connection.
pub struct StationHandler {
    state: HandlerState,
    slot: usize,
    station: Option<StationId>,
    reason: Option<CloseReason>,
    decoder: Decoder,
}

impl View for StationHandler {
    type V = HandlerModel;

    closed spec fn view(&self) -> HandlerModel {
        HandlerModel {
            state: self.state,
            slot: self.slot,
            station: self.station,
            reason: self.reason,
            pending: self.decoder@,
        }
    }
}

impl StationHandler {
    /// The handler of a connection that was accepted into `slot`. The
    /// station is looked up once, here: it is the one that `registry` has
    /// for `peer`, and none for a peer that has no address or is not on
    /// the roster.
    pub fn accept(slot: usize, registry: &Registry, peer: Option<u32>) -> (handler: StationHandler)
        ensures
            handler@.state == HandlerState::Accepted,
            handler@.slot == slot,
            handler@.reason.is_none(),
            handler@.pending == Seq::<u8>::empty(),
            match peer {
                Some(address) => classified(registry@, address, handler@.station),
                None => handler@.station.is_none(),
            },
    {
        let station = match peer {
            Some(address) => registry.classify(address),
            None => None,
        };
        StationHandler {
            state: HandlerState::Accepted,
            slot,
            station,
            reason: None,
            decoder: Decoder::new(),
        }
    }

    /// Where the handler stands.
    pub fn state(&self) -> (state: HandlerState)
        ensures
            state == self@.state,
    {
        self.state
    }

    /// The slot that the connection was accepted into.
    pub fn slot(&self) -> (slot: usize)
        ensures
            slot == self@.slot,
    {
        self.slot
    }

    /// The station that the connection belongs to, if the roster has one for it.
    pub fn station(&self) -> (station: Option<StationId>)
        ensures
            station == self@.station,
    {
        self.station
    }

    /// Why reading stopped; nothing while it has not.
    pub fn close_reason(&self) -> (reason: Option<CloseReason>)
        ensures
            reason == self@.reason,
    {
        self.reason
    }

    /// What the transport is to do next.
    pub fn next_action(&self) -> (action: HandlerAction)
        ensures
            action == self@.next_action(),
    {
        match self.state {
            HandlerState::Accepted => HandlerAction::Read,
            HandlerState::Reading => HandlerAction::Read,
            HandlerState::Closing => HandlerAction::Close,
            HandlerState::Released => HandlerAction::Stop,
        }
    }

    /// Takes in what one read returned, and returns the records that it
    /// completes, in order, for decoding. An empty read is the end of the
    /// stream.
    pub fn on_data(&mut self, bytes: &[u8]) -> (records: Vec<Vec<u8>>)
        ensures
            final(self)@ == old(self)@.after_data(bytes@),
            record_bytes(records@) == old(self)@.records_of(bytes@),
    {
        let open = match self.state {
            HandlerState::Accepted => true,
            HandlerState::Reading => true,
            _ => false,
        };
        if !open {
            let records: Vec<Vec<u8>> = Vec::new();
            assert(record_bytes(records@) =~= Seq::<Seq<u8>>::empty());
            records
        } else if bytes.len() == 0 {
            self.state = HandlerState::Closing;
            self.reason = Some(CloseReason::EndOfStream);
            let records: Vec<Vec<u8>> = Vec::new();
            assert(record_bytes(records@) =~= Seq::<Seq<u8>>::empty());
            records
        } else {
            self.state = HandlerState::Reading;
            self.decoder.feed(bytes)
        }
    }

    /// Takes in a read that failed (`TransportError`) or timed out
    /// (`IdleTimeout`): an open handler goes on to close.
    pub fn on_failure(&mut self, reason: CloseReason)
        ensures
            final(self)@ == old(self)@.after_failure(reason),
    {
        match self.state {
            HandlerState::Accepted | HandlerState::Reading => {
                self.state = HandlerState::Closing;
                self.reason = Some(reason);
            },
            _ => {},
        }
    }

    /// Takes in what one record decoded to, at time `now`. While the
    /// handler reads, a decoded record of a known station goes into that
    /// station's window; everything else is dropped, and the handler goes
    /// on reading either way.
    pub fn ingest(&self, store: &mut Aggregator, decoded: Option<SensorData>, now: u64) -> (outcome:
        Ingest)
        ensures
            outcome == self@.ingest_outcome(old(store)@.len(), decoded),
            final(store)@ == self@.store_after(old(store)@, decoded, now),
    {
        match self.state {
            HandlerState::Reading => {},
            _ => {
                return Ingest::NotReading;
            },
        }
        match decoded {
            None => Ingest::Malformed,
            Some(data) => {
                if store.ingest(self.station, TimedSensorData::stamp(data, now)) {
                    Ingest::Stored
                } else {
                    Ingest::Unobserved
                }
            },
        }
    }

    /// Gives the slot back, once: a handler that has released does nothing
    /// more, so that it cannot free a slot that has since gone to another
    /// connection. Returns whether the pool took the slot back.
    pub fn release(&mut self, pool: &mut SlotPool) -> (freed: bool)
        ensures
            final(self)@ == old(self)@.after_release(),
            final(pool)@ == if old(self)@.state == HandlerState::Released {
                old(pool)@
            } else {
                after_release(old(pool)@, old(self)@.slot as int)
            },
            freed == (old(self)@.state != HandlerState::Released && old(self)@.slot < old(
                pool,
            )@.len() && old(pool)@[old(self)@.slot as int]),
    {
        match self.state {
            HandlerState::Released => false,
            _ => {
                self.state = HandlerState::Released;
                pool.release(self.slot)
            },
        }
    }
}

} // verus!
