//! The windows of all stations, and the snapshot taken of them.

use vstd::prelude::*;
use crate::reading::{ClientReadings, TimedSensorData, WINDOW_LEN};
use crate::registry::StationId;
use crate::ring::{latest, lemma_push_keeps_latest, padded, push_bounded, RingBuffer};

verus! {

/// The windows after `reading` has arrived for `station`: that station's
/// window takes it in, every other window stays as it is. A reading for no
/// station, or for one that the hub does not have, goes nowhere.
pub open spec fn after_ingest(
    windows: Seq<Seq<TimedSensorData>>,
    station: Option<StationId>,
    reading: TimedSensorData,
) -> Seq<Seq<TimedSensorData>> {
    match station {
        Some(id) => if id.index < windows.len() {
            windows.update(
                id.index as int,
                push_bounded(windows[id.index as int], WINDOW_LEN as nat, reading),
            )
        } else {
            windows
        },
        None => windows,
    }
}

/// What the monitor is shown of `windows`: each window, in roster order,
/// padded to `WINDOW_LEN` slots.
pub open spec fn exported(windows: Seq<Seq<TimedSensorData>>) -> Seq<Seq<TimedSensorData>> {
    Seq::new(windows.len(), |i: int| padded(windows[i]))
}

/// The windows after every reading of `readings` has arrived for
/// `station`, in order.
pub open spec fn after_ingest_all(
    windows: Seq<Seq<TimedSensorData>>,
    station: Option<StationId>,
    readings: Seq<TimedSensorData>,
) -> Seq<Seq<TimedSensorData>>
    decreases readings.len(),
{
    if readings.len() == 0 {
        windows
    } else {
        after_ingest(
            after_ingest_all(windows, station, readings.drop_last()),
            station,
            readings.last(),
        )
    }
}

/// The readings of one station are kept in the order in which they
/// arrived: after any run of them its window holds the last `WINDOW_LEN`
/// of what it held followed by what arrived, and no other window has
/// changed.
pub proof fn lemma_ingest_all(
    windows: Seq<Seq<TimedSensorData>>,
    station: StationId,
    readings: Seq<TimedSensorData>,
)
    requires
        station.index < windows.len(),
        windows[station.index as int].len() <= WINDOW_LEN,
    ensures
        after_ingest_all(windows, Some(station), readings) == windows.update(
            station.index as int,
            latest(windows[station.index as int] + readings, WINDOW_LEN as nat),
        ),
    decreases readings.len(),
{
    let at = station.index as int;
    if readings.len() == 0 {
        assert(windows[at] + readings =~= windows[at]);
        assert(windows.update(at, windows[at]) =~= windows);
    } else {
        let front = readings.drop_last();
        lemma_ingest_all(windows, station, front);
        lemma_push_keeps_latest(windows[at] + front, WINDOW_LEN as nat, readings.last());
        assert((windows[at] + front).push(readings.last()) =~= windows[at] + readings);
        assert(after_ingest_all(windows, Some(station), readings) =~= windows.update(
            at,
            latest(windows[at] + readings, WINDOW_LEN as nat),
        ));
    }
}

/// Readings that belong to no station of the hub leave every window as it is.
pub proof fn lemma_ingest_all_unobserved(
    windows: Seq<Seq<TimedSensorData>>,
    station: Option<StationId>,
    readings: Seq<TimedSensorData>,
)
    requires
        station matches Some(id) ==> id.index >= windows.len(),
    ensures
        after_ingest_all(windows, station, readings) == windows,
    decreases readings.len(),
{
    if readings.len() > 0 {
        lemma_ingest_all_unobserved(windows, station, readings.drop_last());
    }
}

/// Readings of different stations do not meet: in whichever order two of
/// them are taken in, the windows end up the same.
pub proof fn lemma_ingest_commutes(
    windows: Seq<Seq<TimedSensorData>>,
    first: Option<StationId>,
    first_reading: TimedSensorData,
    second: Option<StationId>,
    second_reading: TimedSensorData,
)
    requires
        first != second,
    ensures
        after_ingest(after_ingest(windows, first, first_reading), second, second_reading)
            == after_ingest(after_ingest(windows, second, second_reading), first, first_reading),
{
    assert(after_ingest(after_ingest(windows, first, first_reading), second, second_reading)
        =~= after_ingest(after_ingest(windows, second, second_reading), first, first_reading));
}

/// The export of all windows as they stood at one moment.
#[derive(Debug, PartialEq, Eq)]
pub struct Snapshot {
    pub stations: Vec<ClientReadings>,
}

impl View for Snapshot {
    type V = Seq<Seq<TimedSensorData>>;

    open spec fn view(&self) -> Seq<Seq<TimedSensorData>> {
        Seq::new(self.stations@.len(), |i: int| self.stations@[i]@)
    }
}

/// One window per station of the roster, in roster order.
pub struct Aggregator {
    windows: Vec<RingBuffer>,
}

impl View for Aggregator {
    type V = Seq<Seq<TimedSensorData>>;

    closed spec fn view(&self) -> Seq<Seq<TimedSensorData>> {
        Seq::new(self.windows@.len(), |i: int| self.windows@[i]@)
    }
}

impl Aggregator {
    /// Empty windows for `stations` stations.
    pub fn new(stations: usize) -> (store: Aggregator)
        ensures
            store@ == Seq::new(stations as nat, |i: int| Seq::<TimedSensorData>::empty()),
    {
        let mut windows: Vec<RingBuffer> = Vec::new();
        let mut i: usize = 0;
        while i < stations
            invariant
                i <= stations,
                windows@.len() == i,
                forall|j: int| 0 <= j < i ==> windows@[j]@ == Seq::<TimedSensorData>::empty(),
            decreases stations - i,
        {
            windows.push(RingBuffer::new());
            i += 1;
        }
        let store = Aggregator { windows };
        assert(store@ =~= Seq::new(stations as nat, |i: int| Seq::<TimedSensorData>::empty()));
        store
    }

    /// The number of stations.
    pub fn station_count(&self) -> (count: usize)
        ensures
            count == self@.len(),
    {
        self.windows.len()
    }

    /// The number of readings held for `station`; nothing where the hub has
    /// no such station.
    pub fn held(&self, station: StationId) -> (count: Option<usize>)
        ensures
            count == if station.index < self@.len() {
                Some(self@[station.index as int].len() as usize)
            } else {
                None
            },
            station.index < self@.len() ==> self@[station.index as int].len() <= WINDOW_LEN,
    {
        if station.index < self.windows.len() {
            Some(self.windows[station.index].len())
        } else {
            None
        }
    }

    /// Takes in one reading for `station`. Returns whether a window took
    /// it: a reading for no station, or for one that the hub does not
    /// have, is dropped and changes nothing.
    pub fn ingest(&mut self, station: Option<StationId>, reading: TimedSensorData) -> (stored:
        bool)
        ensures
            final(self)@ == after_ingest(old(self)@, station, reading),
            stored == (station matches Some(id) && id.index < old(self)@.len()),
    {
        match station {
            Some(id) => {
                if id.index < self.windows.len() {
                    self.windows[id.index].push(reading);
                    assert(self@ =~= after_ingest(old(self)@, station, reading));
                    true
                } else {
                    false
                }
            },
            None => false,
        }
    }

    /// The export of one station's window; nothing where the hub has no
    /// such station.
    pub fn window(&self, station: StationId) -> (window: Option<ClientReadings>)
        ensures
            match window {
                Some(w) => station.index < self@.len() && w@ == padded(
                    self@[station.index as int],
                ),
                None => station.index >= self@.len(),
            },
    {
        if station.index < self.windows.len() {
            let mut out = ClientReadings::default();
            self.windows[station.index].snapshot_into(&mut out);
            Some(out)
        } else {
            None
        }
    }

    /// The export of every window, in roster order. All of them are read
    /// from the one state that `self` is in.
    pub fn snapshot(&self) -> (snapshot: Snapshot)
        ensures
            snapshot@ == exported(self@),
    {
        let mut stations: Vec<ClientReadings> = Vec::new();
        let mut i: usize = 0;
        while i < self.windows.len()
            invariant
                i <= self.windows.len(),
                stations@.len() == i,
                forall|j: int| 0 <= j < i ==> stations@[j]@ == padded(self.windows@[j]@),
            decreases self.windows.len() - i,
        {
            let mut out = ClientReadings::default();
            self.windows[i].snapshot_into(&mut out);
            stations.push(out);
            i += 1;
        }
        let snapshot = Snapshot { stations };
        assert(snapshot@ =~= exported(self@));
        snapshot
    }
}

} // verus!
