//! The sliding window of one station.

use vstd::prelude::*;
use circular_buffer::CircularBuffer;
use crate::reading::{ClientReadings, TimedSensorData, WINDOW_LEN};

verus! {

/// `circular_buffer::CircularBuffer`, carried as a value that only the
/// functions below look into.
#[verifier::external_type_specification]
#[verifier::external_body]
#[verifier::reject_recursive_types(T)]
pub struct ExCircularBuffer<const N: usize, T>(CircularBuffer<N, T>);

/// The readings that a buffer holds, front (oldest) first.
pub uninterp spec fn window_items(buf: CircularBuffer<WINDOW_LEN, TimedSensorData>) -> Seq<
    TimedSensorData,
>;

/// `CircularBuffer::new`: the buffer starts out holding nothing.
#[verifier::external_body]
fn buffer_new() -> (buf: CircularBuffer<WINDOW_LEN, TimedSensorData>)
    ensures
        window_items(buf) == Seq::<TimedSensorData>::empty(),
{
    CircularBuffer::new()
}

/// `CircularBuffer::len`: the number of readings held.
#[verifier::external_body]
fn buffer_len(buf: &CircularBuffer<WINDOW_LEN, TimedSensorData>) -> (len: usize)
    ensures
        len == window_items(*buf).len(),
{
    buf.len()
}

/// `CircularBuffer::get`: the reading at `index` counted from the front, or
/// nothing where the buffer holds no more than `index` readings.
#[verifier::external_body]
fn buffer_get(buf: &CircularBuffer<WINDOW_LEN, TimedSensorData>, index: usize) -> (item:
    Option<TimedSensorData>)
    ensures
        item == if index < window_items(*buf).len() {
            Some(window_items(*buf)[index as int])
        } else {
            None
        },
{
    buf.get(index).copied()
}

/// `CircularBuffer::push_back`: while the buffer holds fewer readings than
/// its capacity, the new one is appended and nothing comes back; from then
/// on it takes the place of the front reading, which is handed back, and
/// the rest keep their order. No path through it panics.
#[verifier::external_body]
fn buffer_push_back(
    buf: &mut CircularBuffer<WINDOW_LEN, TimedSensorData>,
    item: TimedSensorData,
) -> (evicted: Option<TimedSensorData>)
    ensures
        window_items(*old(buf)).len() < WINDOW_LEN ==> evicted.is_none() && window_items(
            *final(buf),
        ) == window_items(*old(buf)).push(item),
        window_items(*old(buf)).len() >= WINDOW_LEN ==> evicted == Some(
            window_items(*old(buf))[0],
        ) && window_items(*final(buf)) == window_items(*old(buf)).subrange(
            1,
            window_items(*old(buf)).len() as int,
        ).push(item),
    no_unwind
{
    buf.push_back(item)
}

/// A window of capacity `cap` after one more reading has arrived: the
/// reading goes to the back, and a full window first lets go of its front.
pub open spec fn push_bounded<T>(window: Seq<T>, cap: nat, item: T) -> Seq<T> {
    if window.len() < cap {
        window.push(item)
    } else {
        window.subrange(1, window.len() as int).push(item)
    }
}

/// A window of capacity `cap` that started empty, after every reading of
/// `arrivals` has been pushed in order.
pub open spec fn replay<T>(arrivals: Seq<T>, cap: nat) -> Seq<T>
    decreases arrivals.len(),
{
    if arrivals.len() == 0 {
        Seq::empty()
    } else {
        push_bounded(replay(arrivals.drop_last(), cap), cap, arrivals.last())
    }
}

/// `window` after every reading of `arrivals` has been pushed in order.
pub open spec fn push_all<T>(window: Seq<T>, arrivals: Seq<T>, cap: nat) -> Seq<T>
    decreases arrivals.len(),
{
    if arrivals.len() == 0 {
        window
    } else {
        push_bounded(push_all(window, arrivals.drop_last(), cap), cap, arrivals.last())
    }
}

/// The last `n` items of `items`, in order; all of them where there are fewer.
pub open spec fn latest<T>(items: Seq<T>, n: nat) -> Seq<T> {
    if items.len() <= n {
        items
    } else {
        items.subrange(items.len() - n, items.len() as int)
    }
}

/// A window as the monitor sees it: the readings held, oldest first, then
/// blank slots up to `WINDOW_LEN`.
pub open spec fn padded(window: Seq<TimedSensorData>) -> Seq<TimedSensorData> {
    Seq::new(
        WINDOW_LEN as nat,
        |i: int|
            if i < window.len() {
                window[i]
            } else {
                TimedSensorData::blank()
            },
    )
}

/// Pushing never makes a window that fits its capacity outgrow it, and a
/// window shorter than its capacity grows by exactly one.
pub proof fn lemma_push_bounded_len<T>(window: Seq<T>, cap: nat, item: T)
    requires
        cap > 0,
        window.len() <= cap,
    ensures
        push_bounded(window, cap, item).len() == if window.len() < cap {
            window.len() + 1
        } else {
            cap
        },
        push_bounded(window, cap, item).last() == item,
{
}

/// One push keeps exactly the latest `cap` of everything seen so far.
pub proof fn lemma_push_keeps_latest<T>(seen: Seq<T>, cap: nat, item: T)
    requires
        cap > 0,
    ensures
        push_bounded(latest(seen, cap), cap, item) == latest(seen.push(item), cap),
{
    assert(push_bounded(latest(seen, cap), cap, item) =~= latest(seen.push(item), cap));
}

/// After any run of pushes into an empty window of capacity `cap`, the
/// window holds exactly the last `cap` pushed readings, in arrival order
/// (all of them while fewer than `cap` have arrived).
pub proof fn lemma_replay_is_latest<T>(arrivals: Seq<T>, cap: nat)
    requires
        cap > 0,
    ensures
        replay(arrivals, cap) == latest(arrivals, cap),
    decreases arrivals.len(),
{
    if arrivals.len() == 0 {
        assert(replay(arrivals, cap) =~= latest(arrivals, cap));
    } else {
        lemma_replay_is_latest(arrivals.drop_last(), cap);
        lemma_push_keeps_latest(arrivals.drop_last(), cap, arrivals.last());
        assert(arrivals.drop_last().push(arrivals.last()) =~= arrivals);
    }
}

/// The same from any window that fits its capacity: after more pushes it
/// holds the last `cap` of what it held followed by what was pushed.
pub proof fn lemma_pushes_keep_latest<T>(window: Seq<T>, arrivals: Seq<T>, cap: nat)
    requires
        cap > 0,
        window.len() <= cap,
    ensures
        push_all(window, arrivals, cap) == latest(window + arrivals, cap),
    decreases arrivals.len(),
{
    if arrivals.len() == 0 {
        assert(window + arrivals =~= window);
    } else {
        lemma_pushes_keep_latest(window, arrivals.drop_last(), cap);
        lemma_push_keeps_latest(window + arrivals.drop_last(), cap, arrivals.last());
        assert((window + arrivals.drop_last()).push(arrivals.last()) =~= window + arrivals);
    }
}

/// The export of a window shows the readings held, oldest first, and a
/// blank reading in every slot after them; a full window fills it.
pub proof fn lemma_padded(window: Seq<TimedSensorData>)
    requires
        window.len() <= WINDOW_LEN,
    ensures
        padded(window).len() == WINDOW_LEN,
        padded(window).take(window.len() as int) == window,
        forall|i: int|
            window.len() <= i < WINDOW_LEN ==> padded(window)[i] == TimedSensorData::blank(),
        window.len() == WINDOW_LEN ==> padded(window) == window,
{
    assert(padded(window).take(window.len() as int) =~= window);
    if window.len() == WINDOW_LEN {
        assert(padded(window) =~= window);
    }
}

/// What the monitor sees of a station after `arrivals` have come in: while
/// fewer than `WINDOW_LEN` have arrived, all of them and then blank slots;
/// from then on the last `WINDOW_LEN` arrivals and no blank slot that was
/// not itself an arrival.
pub proof fn lemma_export_after_arrivals(arrivals: Seq<TimedSensorData>)
    ensures
        arrivals.len() < WINDOW_LEN ==> padded(replay(arrivals, WINDOW_LEN as nat)).take(
            arrivals.len() as int,
        ) == arrivals && forall|i: int|
            arrivals.len() <= i < WINDOW_LEN ==> padded(replay(arrivals, WINDOW_LEN as nat))[i]
                == TimedSensorData::blank(),
        arrivals.len() >= WINDOW_LEN ==> padded(replay(arrivals, WINDOW_LEN as nat)) == latest(
            arrivals,
            WINDOW_LEN as nat,
        ),
{
    lemma_replay_is_latest(arrivals, WINDOW_LEN as nat);
    lemma_padded(latest(arrivals, WINDOW_LEN as nat));
}

/// The most recent readings of one station, at most `WINDOW_LEN` of them,
/// oldest first.
pub struct RingBuffer {
    buf: CircularBuffer<WINDOW_LEN, TimedSensorData>,
}

impl View for RingBuffer {
    type V = Seq<TimedSensorData>;

    closed spec fn view(&self) -> Seq<TimedSensorData> {
        window_items(self.buf)
    }
}

impl RingBuffer {
    #[verifier::type_invariant]
    spec fn fits(self) -> bool {
        window_items(self.buf).len() <= WINDOW_LEN
    }

    /// An empty window.
    pub fn new() -> (ring: RingBuffer)
        ensures
            ring@ == Seq::<TimedSensorData>::empty(),
    {
        RingBuffer { buf: buffer_new() }
    }

    /// The number of readings held; never more than `WINDOW_LEN`.
    pub fn len(&self) -> (len: usize)
        ensures
            len == self@.len(),
            len <= WINDOW_LEN,
    {
        proof {
            use_type_invariant(self);
        }
        buffer_len(&self.buf)
    }

    /// Whether the next push will evict the oldest reading.
    pub fn is_full(&self) -> (full: bool)
        ensures
            full == (self@.len() == WINDOW_LEN),
    {
        self.len() == WINDOW_LEN
    }

    /// The reading at `index`, counted from the oldest.
    pub fn get(&self, index: usize) -> (item: Option<TimedSensorData>)
        ensures
            item == if index < self@.len() {
                Some(self@[index as int])
            } else {
                None
            },
    {
        buffer_get(&self.buf, index)
    }

    /// Takes in one reading. This always succeeds: a full window lets go of
    /// its oldest reading, which is returned.
    pub fn push(&mut self, reading: TimedSensorData) -> (evicted: Option<TimedSensorData>)
        ensures
            final(self)@ == push_bounded(old(self)@, WINDOW_LEN as nat, reading),
            evicted == if old(self)@.len() < WINDOW_LEN {
                None
            } else {
                Some(old(self)@[0])
            },
    {
        proof {
            use_type_invariant(&*self);
        }
        buffer_push_back(&mut self.buf, reading)
    }

    /// Writes the window into `output`: the readings held, oldest first,
    /// then blank slots.
    pub fn snapshot_into(&self, output: &mut ClientReadings)
        ensures
            final(output)@ == padded(self@),
    {
        let mut i: usize = 0;
        while i < WINDOW_LEN
            invariant
                i <= WINDOW_LEN,
                output@.len() == WINDOW_LEN,
                forall|j: int| 0 <= j < i ==> output@[j] == padded(self@)[j],
            decreases WINDOW_LEN - i,
        {
            let slot = match self.get(i) {
                Some(reading) => reading,
                None => TimedSensorData::default(),
            };
            output.readings[i] = slot;
            i += 1;
        }
        assert(output@ =~= padded(self@));
    }
}

} // verus!
