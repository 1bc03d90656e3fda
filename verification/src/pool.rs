//! The bounded pool of connection slots.
//!
//! A slot stands for the resources of one station connection. The pool
//! hands out at most as many slots as it was made with, and a slot that is
//! out is never handed out again before it has come back.

use vstd::prelude::*;

verus! {

/// How many of the slots are in use.
pub open spec fn in_use_count(flags: Seq<bool>) -> nat
    decreases flags.len(),
{
    if flags.len() == 0 {
        0
    } else {
        in_use_count(flags.drop_last()) + if flags.last() {
            1nat
        } else {
            0nat
        }
    }
}

/// The lowest slot at or after `from` that is free.
pub open spec fn lowest_free_from(flags: Seq<bool>, from: int) -> Option<int>
    decreases flags.len() - from,
{
    if from < 0 || from >= flags.len() {
        None
    } else if !flags[from] {
        Some(from)
    } else {
        lowest_free_from(flags, from + 1)
    }
}

/// The slot that the next acquisition gets: the lowest free one.
pub open spec fn lowest_free(flags: Seq<bool>) -> Option<int> {
    lowest_free_from(flags, 0)
}

/// The pool after an acquisition: the lowest free slot is taken; a pool
/// without a free slot stays as it is.
pub open spec fn after_acquire(flags: Seq<bool>) -> Seq<bool> {
    match lowest_free(flags) {
        Some(slot) => flags.update(slot, true),
        None => flags,
    }
}

/// The pool after `slot` has been handed back: a slot that was in use is
/// free again; for any other number the pool stays as it is.
pub open spec fn after_release(flags: Seq<bool>, slot: int) -> Seq<bool> {
    if 0 <= slot < flags.len() && flags[slot] {
        flags.update(slot, false)
    } else {
        flags
    }
}

/// One request to the pool.
pub enum PoolOp {
    Acquire,
    Release(int),
}

/// The pool after the requests of `ops`, in order.
pub open spec fn after_ops(flags: Seq<bool>, ops: Seq<PoolOp>) -> Seq<bool>
    decreases ops.len(),
{
    if ops.len() == 0 {
        flags
    } else {
        let before = after_ops(flags, ops.drop_last());
        match ops.last() {
            PoolOp::Acquire => after_acquire(before),
            PoolOp::Release(slot) => after_release(before, slot),
        }
    }
}

/// How many acquisitions of `ops` got a slot.
pub open spec fn grants(flags: Seq<bool>, ops: Seq<PoolOp>) -> nat
    decreases ops.len(),
{
    if ops.len() == 0 {
        0
    } else {
        let before = after_ops(flags, ops.drop_last());
        grants(flags, ops.drop_last()) + match ops.last() {
            PoolOp::Acquire => if lowest_free(before).is_some() {
                1nat
            } else {
                0nat
            },
            PoolOp::Release(_) => 0nat,
        }
    }
}

/// How many releases of `ops` freed a slot that was in use.
pub open spec fn releases_done(flags: Seq<bool>, ops: Seq<PoolOp>) -> nat
    decreases ops.len(),
{
    if ops.len() == 0 {
        0
    } else {
        let before = after_ops(flags, ops.drop_last());
        releases_done(flags, ops.drop_last()) + match ops.last() {
            PoolOp::Acquire => 0nat,
            PoolOp::Release(slot) => if 0 <= slot < before.len() && before[slot] {
                1nat
            } else {
                0nat
            },
        }
    }
}

/// Never more slots are in use than there are.
pub proof fn lemma_count_bounded(flags: Seq<bool>)
    ensures
        in_use_count(flags) <= flags.len(),
        in_use_count(flags) == flags.len() <==> forall|i: int|
            0 <= i < flags.len() ==> flags[i],
        in_use_count(flags) == 0 <==> forall|i: int| 0 <= i < flags.len() ==> !flags[i],
    decreases flags.len(),
{
    if flags.len() > 0 {
        let front = flags.drop_last();
        lemma_count_bounded(front);
        assert forall|i: int| 0 <= i < front.len() implies front[i] == flags[i] by {}
        if in_use_count(flags) == flags.len() {
            assert forall|i: int| 0 <= i < flags.len() implies flags[i] by {
                if i < front.len() {
                    assert(front[i]);
                }
            }
        }
        if forall|i: int| 0 <= i < flags.len() ==> flags[i] {
            assert forall|i: int| 0 <= i < front.len() implies front[i] by {
                assert(flags[i]);
            }
        }
        if in_use_count(flags) == 0 {
            assert forall|i: int| 0 <= i < flags.len() implies !flags[i] by {
                if i < front.len() {
                    assert(!front[i]);
                }
            }
        }
        if forall|i: int| 0 <= i < flags.len() ==> !flags[i] {
            assert forall|i: int| 0 <= i < front.len() implies !front[i] by {
                assert(!flags[i]);
            }
        }
    }
}

/// Changing one flag changes the count by that flag alone.
pub proof fn lemma_count_update(flags: Seq<bool>, slot: int, value: bool)
    requires
        0 <= slot < flags.len(),
    ensures
        in_use_count(flags.update(slot, value)) + (if flags[slot] {
            1int
        } else {
            0int
        }) == in_use_count(flags) + (if value {
            1int
        } else {
            0int
        }),
    decreases flags.len(),
{
    let changed = flags.update(slot, value);
    if slot == flags.len() - 1 {
        assert(changed.drop_last() =~= flags.drop_last());
    } else {
        lemma_count_update(flags.drop_last(), slot, value);
        assert(changed.drop_last() =~= flags.drop_last().update(slot, value));
    }
}

/// `lowest_free_from` finds the least free slot at or after `from`, and
/// finds none only where every such slot is in use.
pub proof fn lemma_lowest_free_from(flags: Seq<bool>, from: int)
    requires
        0 <= from,
    ensures
        match lowest_free_from(flags, from) {
            Some(slot) => from <= slot < flags.len() && !flags[slot] && forall|j: int|
                from <= j < slot ==> flags[j],
            None => forall|j: int| from <= j < flags.len() ==> flags[j],
        },
    decreases flags.len() - from,
{
    if from < flags.len() && flags[from] {
        lemma_lowest_free_from(flags, from + 1);
    }
}

/// Conversely, the least free slot is what `lowest_free_from` returns.
pub proof fn lemma_lowest_free_is(flags: Seq<bool>, from: int, slot: int)
    requires
        0 <= from <= slot < flags.len(),
        !flags[slot],
        forall|j: int| from <= j < slot ==> flags[j],
    ensures
        lowest_free_from(flags, from) == Some(slot),
    decreases slot - from,
{
    if from < slot {
        lemma_lowest_free_is(flags, from + 1, slot);
    }
}

/// An acquisition gets a slot exactly while fewer slots are in use than
/// there are. The slot it gets was free; it is then in use, and the count
/// has grown by one. A refused acquisition changes nothing.
pub proof fn lemma_acquire(flags: Seq<bool>)
    ensures
        lowest_free(flags).is_some() <==> in_use_count(flags) < flags.len(),
        after_acquire(flags).len() == flags.len(),
        match lowest_free(flags) {
            Some(slot) => 0 <= slot < flags.len() && !flags[slot] && after_acquire(flags)[slot]
                && in_use_count(after_acquire(flags)) == in_use_count(flags) + 1,
            None => after_acquire(flags) == flags,
        },
{
    lemma_lowest_free_from(flags, 0);
    lemma_count_bounded(flags);
    match lowest_free(flags) {
        Some(slot) => {
            lemma_count_update(flags, slot, true);
        },
        None => {},
    }
}

/// Handing back a slot that is in use frees it and lowers the count by
/// one. Handing back anything else changes nothing, so a second release of
/// the same slot is harmless.
pub proof fn lemma_release(flags: Seq<bool>, slot: int)
    ensures
        after_release(flags, slot).len() == flags.len(),
        0 <= slot < flags.len() && flags[slot] ==> !after_release(flags, slot)[slot]
            && in_use_count(after_release(flags, slot)) + 1 == in_use_count(flags),
        !(0 <= slot < flags.len() && flags[slot]) ==> after_release(flags, slot) == flags,
        after_release(after_release(flags, slot), slot) == after_release(flags, slot),
{
    if 0 <= slot < flags.len() && flags[slot] {
        lemma_count_update(flags, slot, false);
    }
}

/// A slot that has been handed back can be had again: the next acquisition
/// succeeds, with a slot no higher than the one released, and with exactly
/// that slot where the pool was full.
pub proof fn lemma_release_then_acquire(flags: Seq<bool>, slot: int)
    requires
        0 <= slot < flags.len(),
        flags[slot],
    ensures
        lowest_free(after_release(flags, slot)).is_some(),
        lowest_free(after_release(flags, slot)).unwrap() <= slot,
        in_use_count(flags) == flags.len() ==> lowest_free(after_release(flags, slot)) == Some(
            slot,
        ),
{
    let freed = after_release(flags, slot);
    lemma_lowest_free_from(freed, 0);
    lemma_count_bounded(flags);
    assert(!freed[slot]);
    if in_use_count(flags) == flags.len() {
        assert forall|j: int| 0 <= j < slot implies freed[j] by {
            assert(flags[j]);
        }
        lemma_lowest_free_is(freed, 0, slot);
    }
}

/// Over any run of requests, the slots in use are those that were in use
/// before, plus the acquisitions that got one, minus the releases that
/// freed one. So the acquisitions granted never exceed the free slots at
/// the start plus the slots freed since: with every slot out and nothing
/// handed back, no further acquisition gets one.
pub proof fn lemma_pool_accounting(flags: Seq<bool>, ops: Seq<PoolOp>)
    ensures
        after_ops(flags, ops).len() == flags.len(),
        in_use_count(after_ops(flags, ops)) + releases_done(flags, ops) == in_use_count(flags) + grants(
            flags,
            ops,
        ),
        in_use_count(flags) + grants(flags, ops) <= flags.len() + releases_done(flags, ops),
    decreases ops.len(),
{
    if ops.len() > 0 {
        lemma_pool_accounting(flags, ops.drop_last());
        let before = after_ops(flags, ops.drop_last());
        match ops.last() {
            PoolOp::Acquire => {
                lemma_acquire(before);
            },
            PoolOp::Release(slot) => {
                lemma_release(before, slot);
            },
        }
    }
    lemma_count_bounded(after_ops(flags, ops));
}

/// The pool itself: one flag per slot, set while the slot is out.
pub struct SlotPool {
    in_use: Vec<bool>,
}

impl View for SlotPool {
    type V = Seq<bool>;

    /// For each slot, whether it is in use.
    closed spec fn view(&self) -> Seq<bool> {
        self.in_use@
    }
}

impl SlotPool {
    /// A pool of `size` slots, all free.
    pub fn new(size: usize) -> (pool: SlotPool)
        ensures
            pool@ == Seq::new(size as nat, |i: int| false),
    {
        let mut in_use: Vec<bool> = Vec::new();
        let mut i: usize = 0;
        while i < size
            invariant
                i <= size,
                in_use@ == Seq::new(i as nat, |j: int| false),
            decreases size - i,
        {
            in_use.push(false);
            i += 1;
            assert(in_use@ =~= Seq::new(i as nat, |j: int| false));
        }
        SlotPool { in_use }
    }

    /// The number of slots.
    pub fn capacity(&self) -> (size: usize)
        ensures
            size == self@.len(),
    {
        self.in_use.len()
    }

    /// The number of slots that are out.
    pub fn in_use(&self) -> (count: usize)
        ensures
            count == in_use_count(self@),
    {
        let mut count: usize = 0;
        let mut i: usize = 0;
        while i < self.in_use.len()
            invariant
                i <= self.in_use.len(),
                count == in_use_count(self.in_use@.take(i as int)),
                count <= i,
            decreases self.in_use.len() - i,
        {
            assert(self.in_use@.take(i + 1).drop_last() =~= self.in_use@.take(i as int));
            if self.in_use[i] {
                count += 1;
            }
            i += 1;
        }
        assert(self.in_use@.take(i as int) =~= self.in_use@);
        count
    }

    /// Whether `slot` is out. A number that is no slot of this pool is not.
    pub fn is_in_use(&self, slot: usize) -> (busy: bool)
        ensures
            busy == (slot < self@.len() && self@[slot as int]),
    {
        slot < self.in_use.len() && self.in_use[slot]
    }

    /// Hands out the lowest free slot, or nothing while every slot is out.
    /// A slot that is handed out was free, and is a slot of this pool.
    pub fn acquire(&mut self) -> (slot: Option<usize>)
        ensures
            match slot {
                Some(i) => lowest_free(old(self)@) == Some(i as int) && i < old(self)@.len()
                    && !old(self)@[i as int],
                None => lowest_free(old(self)@) == None::<int>,
            },
            slot.is_some() <==> in_use_count(old(self)@) < old(self)@.len(),
            final(self)@ == after_acquire(old(self)@),
    {
        let mut i: usize = 0;
        while i < self.in_use.len()
            invariant
                i <= self.in_use.len(),
                self.in_use@ == old(self).in_use@,
                forall|j: int| 0 <= j < i ==> self.in_use@[j],
            decreases self.in_use.len() - i,
        {
            if !self.in_use[i] {
                proof {
                    lemma_lowest_free_is(self.in_use@, 0, i as int);
                    lemma_acquire(self.in_use@);
                }
                self.in_use[i] = true;
                return Some(i);
            }
            i += 1;
        }
        proof {
            lemma_lowest_free_from(self.in_use@, 0);
            lemma_acquire(self.in_use@);
        }
        None
    }

    /// Takes `slot` back. Returns whether it was out; if it was not, or is
    /// no slot of this pool, nothing changes.
    pub fn release(&mut self, slot: usize) -> (freed: bool)
        ensures
            freed == (slot < old(self)@.len() && old(self)@[slot as int]),
            final(self)@ == after_release(old(self)@, slot as int),
    {
        if slot < self.in_use.len() && self.in_use[slot] {
            self.in_use[slot] = false;
            true
        } else {
            false
        }
    }
}

} // verus!
