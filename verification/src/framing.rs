//! Delimiter framing of a byte stream.
//!
//! A stream is a run of records, each followed by the four bytes CR LF CR LF.
//! What follows the last delimiter is the beginning of a record that has not
//! ended yet.

use vstd::prelude::*;

verus! {

/// Carriage return.
pub const CR: u8 = 13;

/// Line feed.
pub const LF: u8 = 10;

/// Length of the delimiter in bytes.
pub const DELIMITER_LEN: usize = 4;

/// The delimiter: CR LF CR LF.
pub open spec fn delimiter() -> Seq<u8> {
    seq![CR, LF, CR, LF]
}

/// Whether the four bytes of `s` from index `i` on are the delimiter.
pub open spec fn delimiter_at(s: Seq<u8>, i: int) -> bool {
    &&& 0 <= i
    &&& i + 4 <= s.len()
    &&& s[i] == CR
    &&& s[i + 1] == LF
    &&& s[i + 2] == CR
    &&& s[i + 3] == LF
}

/// The index of the first delimiter of `s` that begins at `from` or later.
pub open spec fn next_delimiter(s: Seq<u8>, from: int) -> Option<int>
    decreases s.len() - from,
{
    if from < 0 || from + 4 > s.len() {
        None
    } else if delimiter_at(s, from) {
        Some(from)
    } else {
        next_delimiter(s, from + 1)
    }
}

/// The complete records of `s`, in order, without their delimiters. The
/// stream is read from the left, and each record ends at the first
/// delimiter after its beginning.
pub open spec fn frames(s: Seq<u8>) -> Seq<Seq<u8>>
    decreases s.len(),
    via frames_decreases
{
    match next_delimiter(s, 0) {
        Some(i) => seq![s.take(i)] + frames(s.skip(i + 4)),
        None => Seq::empty(),
    }
}

#[via_fn]
proof fn frames_decreases(s: Seq<u8>) {
    lemma_next_delimiter(s, 0);
}

/// What is left of `s` after its last complete record: the bytes of a
/// record whose delimiter has not arrived.
pub open spec fn residue(s: Seq<u8>) -> Seq<u8>
    decreases s.len(),
    via residue_decreases
{
    match next_delimiter(s, 0) {
        Some(i) => residue(s.skip(i + 4)),
        None => s,
    }
}

#[via_fn]
proof fn residue_decreases(s: Seq<u8>) {
    lemma_next_delimiter(s, 0);
}

/// The records of `records`, each followed by the delimiter, one after another.
pub open spec fn joined(records: Seq<Seq<u8>>) -> Seq<u8>
    decreases records.len(),
{
    if records.len() == 0 {
        Seq::empty()
    } else {
        records[0] + delimiter() + joined(records.skip(1))
    }
}

/// `next_delimiter` finds the least index at or after `from` at which a
/// delimiter begins, and finds none only where there is none.
pub proof fn lemma_next_delimiter(s: Seq<u8>, from: int)
    requires
        0 <= from,
    ensures
        match next_delimiter(s, from) {
            Some(i) => from <= i && delimiter_at(s, i) && forall|j: int|
                from <= j < i ==> !delimiter_at(s, j),
            None => forall|j: int| from <= j ==> !delimiter_at(s, j),
        },
    decreases s.len() - from,
{
    if from + 4 > s.len() {
    } else if delimiter_at(s, from) {
    } else {
        lemma_next_delimiter(s, from + 1);
    }
}

/// Conversely, the least index at which a delimiter begins is what
/// `next_delimiter` returns.
pub proof fn lemma_next_delimiter_is(s: Seq<u8>, from: int, i: int)
    requires
        0 <= from <= i,
        delimiter_at(s, i),
        forall|j: int| from <= j < i ==> !delimiter_at(s, j),
    ensures
        next_delimiter(s, from) == Some(i),
    decreases i - from,
{
    if from < i {
        lemma_next_delimiter_is(s, from + 1, i);
    }
}

/// A stream without a delimiter has no complete record and is all residue.
pub proof fn lemma_no_delimiter(s: Seq<u8>)
    requires
        forall|j: int| 0 <= j ==> !delimiter_at(s, j),
    ensures
        next_delimiter(s, 0) == None::<int>,
        frames(s) == Seq::<Seq<u8>>::empty(),
        residue(s) == s,
{
    lemma_next_delimiter(s, 0);
}

/// Nothing is lost and nothing invented: the records, each with its
/// delimiter, followed by the residue, are the stream.
pub proof fn lemma_frames_reassemble(s: Seq<u8>)
    ensures
        joined(frames(s)) + residue(s) == s,
    decreases s.len(),
{
    lemma_next_delimiter(s, 0);
    match next_delimiter(s, 0) {
        Some(i) => {
            let rest = s.skip(i + 4);
            lemma_frames_reassemble(rest);
            let fs = frames(s);
            assert(fs[0] == s.take(i));
            assert(fs.skip(1) =~= frames(rest));
            assert(s.subrange(i, i + 4) =~= delimiter());
            assert(s =~= s.take(i) + s.subrange(i, i + 4) + rest);
            assert(joined(fs) + residue(s) =~= s.take(i) + delimiter() + (joined(frames(rest))
                + residue(rest)));
        },
        None => {
            assert(joined(frames(s)) + residue(s) =~= s);
        },
    }
}

/// The residue holds no delimiter: every record that has ended was handed out.
pub proof fn lemma_residue_has_no_delimiter(s: Seq<u8>)
    ensures
        forall|j: int| !delimiter_at(residue(s), j),
        frames(residue(s)) == Seq::<Seq<u8>>::empty(),
        residue(residue(s)) == residue(s),
    decreases s.len(),
{
    lemma_next_delimiter(s, 0);
    match next_delimiter(s, 0) {
        Some(i) => {
            lemma_residue_has_no_delimiter(s.skip(i + 4));
        },
        None => {
            lemma_no_delimiter(s);
        },
    }
}

/// Where a stream continues, its first delimiter stays where it was.
proof fn lemma_next_delimiter_prefix(s: Seq<u8>, t: Seq<u8>, i: int)
    requires
        next_delimiter(s, 0) == Some(i),
    ensures
        next_delimiter(s + t, 0) == Some(i),
{
    lemma_next_delimiter(s, 0);
    assert forall|j: int| 0 <= j < i implies !delimiter_at(s + t, j) by {
        assert(!delimiter_at(s, j));
        assert(j + 4 <= s.len());
        assert((s + t)[j] == s[j]);
        assert((s + t)[j + 1] == s[j + 1]);
        assert((s + t)[j + 2] == s[j + 2]);
        assert((s + t)[j + 3] == s[j + 3]);
    }
    assert(delimiter_at(s + t, i)) by {
        assert((s + t)[i] == s[i]);
        assert((s + t)[i + 1] == s[i + 1]);
        assert((s + t)[i + 2] == s[i + 2]);
        assert((s + t)[i + 3] == s[i + 3]);
    }
    lemma_next_delimiter_is(s + t, 0, i);
}

/// Reading a stream in two pieces changes nothing: the records of `s`
/// followed by `t` are the records of `s`, then those of what `s` left
/// over followed by `t`; and the same is left over at the end.
pub proof fn lemma_split_read(s: Seq<u8>, t: Seq<u8>)
    ensures
        frames(s + t) == frames(s) + frames(residue(s) + t),
        residue(s + t) == residue(residue(s) + t),
    decreases s.len(),
{
    lemma_next_delimiter(s, 0);
    match next_delimiter(s, 0) {
        Some(i) => {
            lemma_next_delimiter_prefix(s, t, i);
            let rest = s.skip(i + 4);
            lemma_split_read(rest, t);
            assert((s + t).skip(i + 4) =~= rest + t);
            assert((s + t).take(i) =~= s.take(i));
            assert(frames(s + t) =~= frames(s) + frames(residue(s) + t));
        },
        None => {
            assert(frames(s) + frames(s + t) =~= frames(s + t));
        },
    }
}

/// Whether `record` can be sent as it is: it holds no CR, so that no
/// delimiter can begin within it.
pub open spec fn is_plain(record: Seq<u8>) -> bool {
    forall|j: int| 0 <= j < record.len() ==> record[j] != CR
}

/// What is sent of plain records is read back as sent: the receiver gets
/// exactly these records, in order, and holds nothing back.
pub proof fn lemma_round_trip(records: Seq<Seq<u8>>)
    requires
        forall|k: int| 0 <= k < records.len() ==> is_plain(#[trigger] records[k]),
    ensures
        frames(joined(records)) == records,
        residue(joined(records)) == Seq::<u8>::empty(),
    decreases records.len(),
{
    if records.len() == 0 {
        lemma_no_delimiter(joined(records));
        assert(frames(joined(records)) =~= records);
    } else {
        let first = records[0];
        let rest = joined(records.skip(1));
        let stream = joined(records);
        let at = first.len() as int;
        assert(is_plain(first));
        assert forall|k: int| 0 <= k < records.skip(1).len() implies is_plain(
            #[trigger] records.skip(1)[k],
        ) by {
            assert(is_plain(records[k + 1]));
        }
        lemma_round_trip(records.skip(1));
        assert(stream =~= first + delimiter() + rest);
        assert forall|j: int| 0 <= j < at implies !delimiter_at(stream, j) by {
            assert(stream[j] == first[j]);
        }
        assert(delimiter_at(stream, at));
        lemma_next_delimiter_is(stream, 0, at);
        assert(stream.take(at) =~= first);
        assert(stream.skip(at + 4) =~= rest);
        assert(frames(stream) =~= records);
    }
}

/// Each record of `records` as the bytes it holds.
pub open spec fn record_bytes(records: Seq<Vec<u8>>) -> Seq<Seq<u8>> {
    Seq::new(records.len(), |i: int| records[i]@)
}

/// Whether a delimiter begins at index `at` of `buf`.
fn is_delimiter_at(buf: &Vec<u8>, at: usize) -> (found: bool)
    requires
        at + DELIMITER_LEN <= buf.len(),
    ensures
        found == delimiter_at(buf@, at as int),
{
    buf[at] == CR && buf[at + 1] == LF && buf[at + 2] == CR && buf[at + 3] == LF
}

/// A copy of `buf[from..to]`.
fn copy_range(buf: &Vec<u8>, from: usize, to: usize) -> (part: Vec<u8>)
    requires
        from <= to <= buf.len(),
    ensures
        part@ == buf@.subrange(from as int, to as int),
{
    let mut part: Vec<u8> = Vec::new();
    let mut k: usize = from;
    while k < to
        invariant
            from <= k <= to <= buf.len(),
            part@ == buf@.subrange(from as int, k as int),
        decreases to - k,
    {
        part.push(buf[k]);
        k += 1;
        assert(part@ =~= buf@.subrange(from as int, k as int));
    }
    part
}

/// One record as it goes onto the wire: its bytes, then the delimiter.
pub fn frame_record(payload: &[u8]) -> (wire: Vec<u8>)
    ensures
        wire@ == payload@ + delimiter(),
{
    let mut wire: Vec<u8> = Vec::new();
    let mut k: usize = 0;
    while k < payload.len()
        invariant
            k <= payload.len(),
            wire@ == payload@.take(k as int),
        decreases payload.len() - k,
    {
        wire.push(payload[k]);
        k += 1;
        assert(wire@ =~= payload@.take(k as int));
    }
    wire.push(CR);
    wire.push(LF);
    wire.push(CR);
    wire.push(LF);
    assert(wire@ =~= payload@ + delimiter());
    wire
}

/// The receiving end of one framed stream. It keeps the bytes of the record
/// that is still arriving and hands out each record once its delimiter is in.
pub struct Decoder {
    pending: Vec<u8>,
}

impl View for Decoder {
    type V = Seq<u8>;

    /// The bytes received since the last delimiter.
    closed spec fn view(&self) -> Seq<u8> {
        self.pending@
    }
}

impl Decoder {
    /// No record that has ended is held back.
    #[verifier::type_invariant]
    spec fn holds_no_delimiter(self) -> bool {
        forall|j: int| !delimiter_at(self.pending@, j)
    }

    /// A decoder that has received nothing.
    pub fn new() -> (decoder: Decoder)
        ensures
            decoder@ == Seq::<u8>::empty(),
    {
        Decoder { pending: Vec::new() }
    }

    /// The number of bytes held back for the record that is still
    /// arriving. No delimiter is among them.
    pub fn pending_len(&self) -> (len: usize)
        ensures
            len == self@.len(),
            forall|j: int| !delimiter_at(self@, j),
    {
        proof {
            use_type_invariant(self);
        }
        self.pending.len()
    }

    /// Forgets the record that is still arriving.
    pub fn reset(&mut self)
        ensures
            final(self)@ == Seq::<u8>::empty(),
    {
        self.pending = Vec::new();
    }

    /// Takes in the bytes of one read and returns the records that they
    /// complete, in order and without their delimiters. The bytes after the
    /// last delimiter are kept for the next read.
    pub fn feed(&mut self, bytes: &[u8]) -> (records: Vec<Vec<u8>>)
        ensures
            record_bytes(records@) == frames(old(self)@ + bytes@),
            final(self)@ == residue(old(self)@ + bytes@),
    {
        proof {
            use_type_invariant(&*self);
        }
        let held = self.pending.len();
        let mut buf: Vec<u8> = Vec::new();
        core::mem::swap(&mut buf, &mut self.pending);
        let mut k: usize = 0;
        while k < bytes.len()
            invariant
                k <= bytes.len(),
                buf@ == old(self).pending@ + bytes@.take(k as int),
            decreases bytes.len() - k,
        {
            buf.push(bytes[k]);
            k += 1;
            assert(buf@ =~= old(self).pending@ + bytes@.take(k as int));
        }
        assert(bytes@.take(k as int) =~= bytes@);
        let ghost full = buf@;
        let n = buf.len();
        let mut records: Vec<Vec<u8>> = Vec::new();
        let mut start: usize = 0;
        // A delimiter that ends within the bytes held back would have been
        // found by the read that brought them.
        let mut at: usize = if held >= 3 {
            held - 3
        } else {
            0
        };
        proof {
            assert(full.skip(0) =~= full);
            assert(record_bytes(records@) + frames(full.skip(0)) =~= frames(full));
            assert forall|j: int| 0 <= j < at implies !delimiter_at(full, j) by {
                assert(!delimiter_at(old(self).pending@, j));
            }
        }
        while n - at >= DELIMITER_LEN
            invariant
                buf@ == full,
                n == full.len(),
                start <= at <= n,
                frames(full) == record_bytes(records@) + frames(full.skip(start as int)),
                residue(full) == residue(full.skip(start as int)),
                forall|j: int| start <= j < at ==> !delimiter_at(full, j),
            decreases n - at,
        {
            if is_delimiter_at(&buf, at) {
                let record = copy_range(&buf, start, at);
                proof {
                    let tail = full.skip(start as int);
                    let i = at - start;
                    assert forall|j: int| 0 <= j < i implies !delimiter_at(tail, j) by {
                        assert(!delimiter_at(full, start + j));
                    }
                    assert(delimiter_at(tail, i));
                    lemma_next_delimiter_is(tail, 0, i);
                    assert(tail.take(i) =~= record@);
                    assert(tail.skip(i + 4) =~= full.skip(at + 4));
                    assert(record_bytes(records@.push(record)) =~= record_bytes(records@)
                        + seq![record@]);
                }
                records.push(record);
                start = at + DELIMITER_LEN;
                at = start;
            } else {
                at += 1;
            }
        }
        proof {
            let tail = full.skip(start as int);
            assert forall|j: int| 0 <= j implies !delimiter_at(tail, j) by {
                if j + 4 <= tail.len() {
                    assert(!delimiter_at(full, start + j));
                }
            }
            lemma_no_delimiter(tail);
            assert(record_bytes(records@) + Seq::<Seq<u8>>::empty() =~= record_bytes(records@));
        }
        self.pending = copy_range(&buf, start, n);
        records
    }
}

} // verus!
