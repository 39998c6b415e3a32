use vstd::prelude::*;

verus! {

/// Identifier of an operation invoked from script.
pub type OpId = u32;

/// Most records the offsets table holds.
pub const MAX_RECORDS: usize = 100;

/// Word holding the number of records pushed since the last reset.
pub const INDEX_NUM_RECORDS: usize = 0;

/// Word holding the number of records already shifted off by the reader.
pub const INDEX_NUM_SHIFTED_OFF: usize = 1;

/// Word holding the byte offset where the next payload goes.
pub const INDEX_HEAD: usize = 2;

/// First word of the offsets table: two words (end, op id) per record.
pub const INDEX_OFFSETS: usize = 3;

/// First word of the payload arena.
pub const INDEX_RECORDS: usize = INDEX_OFFSETS + 2 * MAX_RECORDS;

/// Byte offset of the payload arena.
pub const HEAD_INIT: usize = 4 * INDEX_RECORDS;

/// Payload size that suffices for the usual small responses.
pub const RECOMMENDED_SIZE: usize = 128 * MAX_RECORDS;

/// Largest buffer that the queue addresses: offsets are 32-bit words, and an
/// end rounded up to a multiple of four must still fit in one.
pub const MAX_BUFFER_LEN: usize = 0xffff_fff0;

/// The little-endian 32-bit word at word index `w`.
pub open spec fn word(b: Seq<u8>, w: int) -> int {
    b[4 * w] as int + 256 * (b[4 * w + 1] as int) + 65536 * (b[4 * w + 2] as int) + 16777216 * (
    b[4 * w + 3] as int)
}

/// `n` rounded up to a multiple of four.
pub open spec fn align4(n: int) -> int {
    (n + 3) / 4 * 4
}

pub open spec fn num_records(b: Seq<u8>) -> int {
    word(b, INDEX_NUM_RECORDS as int)
}

pub open spec fn num_shifted(b: Seq<u8>) -> int {
    word(b, INDEX_NUM_SHIFTED_OFF as int)
}

pub open spec fn head(b: Seq<u8>) -> int {
    word(b, INDEX_HEAD as int)
}

/// Byte offset just past the payload of record `i`.
pub open spec fn record_end(b: Seq<u8>, i: int) -> int {
    word(b, INDEX_OFFSETS + 2 * i)
}

pub open spec fn record_op(b: Seq<u8>, i: int) -> int {
    word(b, INDEX_OFFSETS + 2 * i + 1)
}

/// Byte offset of the payload of record `i`: each payload starts at the
/// aligned end of the one before it.
pub open spec fn record_start(b: Seq<u8>, i: int) -> int {
    if i == 0 {
        HEAD_INIT as int
    } else {
        align4(record_end(b, i - 1))
    }
}

pub open spec fn record_at(b: Seq<u8>, i: int) -> (OpId, Seq<u8>) {
    (record_op(b, i) as OpId, b.subrange(record_start(b, i), record_end(b, i)))
}

/// The header, the offsets table and the arena describe a consistent queue.
pub open spec fn layout_ok(b: Seq<u8>) -> bool {
    &&& HEAD_INIT <= b.len() <= MAX_BUFFER_LEN
    &&& 0 <= num_shifted(b) <= num_records(b) <= MAX_RECORDS
    &&& num_shifted(b) == num_records(b) ==> num_records(b) == 0
    &&& head(b) == record_start(b, num_records(b))
    &&& head(b) <= b.len()
    &&& records_within(b, num_records(b), head(b))
}

/// The records not yet shifted off, oldest first.
pub open spec fn records(b: Seq<u8>) -> Seq<(OpId, Seq<u8>)> {
    Seq::new(
        (num_records(b) - num_shifted(b)) as nat,
        |k: int| record_at(b, num_shifted(b) + k),
    )
}

/// Whether a payload of `len` bytes can be pushed: a free slot in the
/// offsets table and room in the arena for the payload and its padding.
pub open spec fn fits(b: Seq<u8>, len: int) -> bool {
    num_records(b) < MAX_RECORDS && align4(head(b) + len) <= b.len()
}

proof fn lemma_align_offset(n: int)
    requires
        0 <= n,
    ensures
        align4(HEAD_INIT + n) == HEAD_INIT + align4(n),
{
}

/// Two buffers of one length that agree outside `[lo, hi)`.
pub open spec fn same_outside(b: Seq<u8>, c: Seq<u8>, lo: int, hi: int) -> bool {
    b.len() == c.len() && forall|j: int| 0 <= j < b.len() && !(lo <= j < hi) ==> b[j] == c[j]
}

proof fn lemma_word_frame(b: Seq<u8>, c: Seq<u8>, lo: int, hi: int, w: int)
    requires
        same_outside(b, c, lo, hi),
        0 <= w,
        4 * w + 4 <= b.len(),
        4 * w + 4 <= lo || hi <= 4 * w,
    ensures
        word(b, w) == word(c, w),
{
    assert(b[4 * w] == c[4 * w]);
    assert(b[4 * w + 1] == c[4 * w + 1]);
    assert(b[4 * w + 2] == c[4 * w + 2]);
    assert(b[4 * w + 3] == c[4 * w + 3]);
}

/// Records below `n` lie in the arena below `h`.
pub open spec fn records_within(b: Seq<u8>, n: int, h: int) -> bool {
    forall|i: int|
        0 <= i < n ==> HEAD_INIT <= #[trigger] record_start(b, i) <= record_end(b, i) <= h
}

/// Two buffers of one length that agree on the offsets table of the records
/// below `n` and on the arena below `h`.
pub open spec fn agree_on_records(b: Seq<u8>, c: Seq<u8>, n: int, h: int) -> bool {
    &&& b.len() == c.len()
    &&& forall|j: int| 4 * INDEX_OFFSETS <= j < 4 * (INDEX_OFFSETS + 2 * n) ==> b[j] == c[j]
    &&& forall|j: int| HEAD_INIT <= j < h ==> b[j] == c[j]
}

proof fn lemma_records_frame(b: Seq<u8>, c: Seq<u8>, n: int, h: int)
    requires
        agree_on_records(b, c, n, h),
        records_within(b, n, h),
        0 <= n <= MAX_RECORDS,
        h <= b.len(),
    ensures
        forall|i: int| 0 <= i < n ==> #[trigger] record_at(c, i) == record_at(b, i),
        forall|i: int| 0 <= i < n ==> #[trigger] record_end(c, i) == record_end(b, i),
        forall|i: int| 0 <= i <= n ==> #[trigger] record_start(c, i) == record_start(b, i),
        records_within(c, n, h),
{
    assert forall|i: int| 0 <= i < n implies #[trigger] record_end(c, i) == record_end(b, i) by {
        let w = INDEX_OFFSETS + 2 * i;
        assert(b[4 * w] == c[4 * w]);
        assert(b[4 * w + 1] == c[4 * w + 1]);
        assert(b[4 * w + 2] == c[4 * w + 2]);
        assert(b[4 * w + 3] == c[4 * w + 3]);
    }
    assert forall|i: int| 0 <= i <= n implies #[trigger] record_start(c, i) == record_start(b, i) by {
        if i > 0 {
            assert(record_end(c, i - 1) == record_end(b, i - 1));
        }
    }
    assert forall|i: int| 0 <= i < n implies #[trigger] record_at(c, i) == record_at(b, i) by {
        let w = INDEX_OFFSETS + 2 * i + 1;
        assert(b[4 * w] == c[4 * w]);
        assert(b[4 * w + 1] == c[4 * w + 1]);
        assert(b[4 * w + 2] == c[4 * w + 2]);
        assert(b[4 * w + 3] == c[4 * w + 3]);
        assert(record_start(c, i) == record_start(b, i));
        assert(record_end(c, i) == record_end(b, i));
        let st = record_start(b, i);
        let e = record_end(b, i);
        assert(HEAD_INIT <= record_start(b, i) <= record_end(b, i) <= h);
        assert(c.subrange(st, e) =~= b.subrange(st, e));
    }
    assert forall|i: int| 0 <= i < n implies HEAD_INIT <= #[trigger] record_start(c, i)
        <= record_end(c, i) <= h by {
        assert(record_start(c, i) == record_start(b, i));
        assert(record_end(c, i) == record_end(b, i));
    }
}

proof fn lemma_write_keeps_records(b: Seq<u8>, c: Seq<u8>, w: int, n: int, h: int)
    requires
        same_outside(b, c, 4 * w, 4 * w + 4),
        0 <= w,
        4 * w + 4 <= HEAD_INIT,
        w < INDEX_OFFSETS || INDEX_OFFSETS + 2 * n <= w,
        0 <= n <= MAX_RECORDS,
        HEAD_INIT <= b.len(),
        h <= b.len(),
    ensures
        agree_on_records(b, c, n, h),
{
}

proof fn lemma_head_above_arena(b: Seq<u8>)
    requires
        layout_ok(b),
    ensures
        HEAD_INIT <= head(b),
{
    let n = num_records(b);
    if n > 0 {
        assert(HEAD_INIT <= record_start(b, n - 1) <= record_end(b, n - 1) <= head(b));
    }
}

proof fn lemma_push_layout(
    b0: Seq<u8>,
    b5: Seq<u8>,
    op_id: OpId,
    record: Seq<u8>,
    aligned_end: int,
)
    requires
        layout_ok(b0),
        num_records(b0) < MAX_RECORDS,
        aligned_end == align4(head(b0) + record.len()),
        aligned_end <= b0.len(),
        agree_on_records(b0, b5, num_records(b0), head(b0)),
        b5.subrange(head(b0), head(b0) + record.len()) == record,
        record_end(b5, num_records(b0)) == head(b0) + record.len(),
        record_op(b5, num_records(b0)) == op_id,
        num_records(b5) == num_records(b0) + 1,
        num_shifted(b5) == num_shifted(b0),
        head(b5) == aligned_end,
    ensures
        layout_ok(b5),
        records(b5) == records(b0).push((op_id, record)),
{
    let n = num_records(b0);
    let off = head(b0);
    let h = aligned_end;
    let x = (op_id, record);
    lemma_head_above_arena(b0);
    lemma_records_frame(b0, b5, n, off);
    assert(record_start(b5, n) == off) by {
        if n > 0 {
            assert(record_end(b5, n - 1) == record_end(b0, n - 1));
        }
    }
    assert(b5.subrange(record_start(b5, n), record_end(b5, n)) == record);
    assert(record_at(b5, n) == x);
    assert(records_within(b5, n + 1, h)) by {
        assert forall|i: int| 0 <= i < n + 1 implies HEAD_INIT <= #[trigger] record_start(b5, i)
            <= record_end(b5, i) <= h by {
            if i < n {
                assert(record_start(b5, i) <= record_end(b5, i) <= off);
            }
        }
    }
    let s = num_shifted(b0);
    assert(records(b5).len() == records(b0).len() + 1);
    assert forall|k: int| 0 <= k < records(b5).len() implies #[trigger] records(b5)[k] == records(
        b0,
    ).push(x)[k] by {
        if s + k < n {
            assert(record_at(b5, s + k) == record_at(b0, s + k));
        }
    }
    assert(records(b5) =~= records(b0).push(x));
}

/// A fixed-size ring of op responses, shared with script as raw bytes: a
/// header of three words, an offsets table of `MAX_RECORDS` (end, op id)
/// word pairs, then the payload arena.
pub struct SharedQueue {
    bytes: Vec<u8>,
}

impl View for SharedQueue {
    type V = Seq<(OpId, Seq<u8>)>;

    closed spec fn view(&self) -> Seq<(OpId, Seq<u8>)> {
        records(self.bytes@)
    }
}

impl SharedQueue {
    pub closed spec fn wf(&self) -> bool {
        layout_ok(self.bytes@)
    }

    /// The raw bytes, as script sees them.
    pub closed spec fn raw(&self) -> Seq<u8> {
        self.bytes@
    }

    /// Size of the payload arena.
    pub closed spec fn capacity(&self) -> int {
        self.bytes@.len() - HEAD_INIT
    }

    /// Slots of the offsets table in use: records pushed since the queue was
    /// last empty, shifted off or not.
    pub closed spec fn slots_used(&self) -> int {
        num_records(self.bytes@)
    }

    /// Bytes of the arena in use, padding included.
    pub closed spec fn arena_used(&self) -> int {
        head(self.bytes@) - HEAD_INIT
    }

    /// Whether a payload of `len` bytes would be accepted now: a slot is
    /// free and the payload, padded to a multiple of four, fits in the rest
    /// of the arena.
    pub open spec fn can_push(&self, len: int) -> bool {
        self.slots_used() < MAX_RECORDS && align4(self.arena_used() + len) <= self.capacity()
    }

    /// The counters agree with the records: an empty queue uses no slot and
    /// no arena.
    pub proof fn lemma_counters(&self)
        requires
            self.wf(),
        ensures
            0 <= self@.len() <= self.slots_used() <= MAX_RECORDS,
            0 <= self.arena_used() <= self.capacity(),
            self.arena_used() % 4 == 0,
            self@.len() == 0 ==> self.slots_used() == 0 && self.arena_used() == 0,
    {
        lemma_head_above_arena(self.bytes@);
        let n = num_records(self.bytes@);
        if n > 0 {
            assert(record_start(self.bytes@, n) == align4(record_end(self.bytes@, n - 1)));
        }
    }

    proof fn lemma_fits(&self, len: int)
        requires
            self.wf(),
            0 <= len,
        ensures
            fits(self.bytes@, len) == self.can_push(len),
    {
        lemma_head_above_arena(self.bytes@);
        lemma_align_offset(head(self.bytes@) - HEAD_INIT + len);
    }

    fn reset_header(&mut self)
        requires
            HEAD_INIT <= old(self).bytes@.len() <= MAX_BUFFER_LEN,
        ensures
            final(self).wf(),
            final(self)@ == Seq::<(OpId, Seq<u8>)>::empty(),
            final(self).bytes@.len() == old(self).bytes@.len(),
            final(self).slots_used() == 0,
            final(self).arena_used() == 0,
    {
        self.write_word(INDEX_NUM_RECORDS, 0);
        self.write_word(INDEX_NUM_SHIFTED_OFF, 0);
        self.write_word(INDEX_HEAD, HEAD_INIT as u32);
        assert(records(self.bytes@) =~= Seq::<(OpId, Seq<u8>)>::empty());
    }

    /// A queue whose payload arena holds `len` bytes, with no records.
    pub fn new(len: usize) -> (q: SharedQueue)
        requires
            len <= MAX_BUFFER_LEN - HEAD_INIT,
        ensures
            q.wf(),
            q@ == Seq::<(OpId, Seq<u8>)>::empty(),
            q.capacity() == len,
            q.slots_used() == 0,
            q.arena_used() == 0,
    {
        let bytes: Vec<u8> = vec![0u8; HEAD_INIT + len];
        let mut q = SharedQueue { bytes };
        q.reset_header();
        q
    }

    /// Empties the queue: no records, the arena free again.
    pub fn reset(&mut self)
        requires
            old(self).wf(),
        ensures
            final(self).wf(),
            final(self)@ == Seq::<(OpId, Seq<u8>)>::empty(),
            final(self).capacity() == old(self).capacity(),
            final(self).slots_used() == 0,
            final(self).arena_used() == 0,
    {
        self.reset_header();
    }

    /// Number of records pushed and not yet shifted off.
    pub fn size(&self) -> (r: usize)
        requires
            self.wf(),
        ensures
            r == self@.len(),
    {
        let n = self.read_word(INDEX_NUM_RECORDS);
        let shifted = self.read_word(INDEX_NUM_SHIFTED_OFF);
        (n - shifted) as usize
    }

    /// The raw bytes, header, offsets table and arena, as script sees them.
    pub fn bytes(&self) -> (r: &[u8])
        ensures
            r@ == self.raw(),
    {
        self.bytes.as_slice()
    }

    /// Appends the response `(op_id, record)` when it fits; otherwise leaves
    /// the queue as it is and returns false. Nothing is ever half written.
    pub fn push(&mut self, op_id: OpId, record: &[u8]) -> (ok: bool)
        requires
            old(self).wf(),
        ensures
            final(self).wf(),
            final(self).capacity() == old(self).capacity(),
            ok == old(self).can_push(record@.len() as int),
            ok ==> final(self)@ == old(self)@.push((op_id, record@)),
            ok ==> final(self).slots_used() == old(self).slots_used() + 1,
            ok ==> final(self).arena_used() == align4(old(self).arena_used() + record@.len()),
            !ok ==> *final(self) == *old(self),
    {
        let ghost b0 = self.bytes@;
        proof {
            lemma_head_above_arena(b0);
            self.lemma_fits(record@.len() as int);
            lemma_align_offset(head(b0) - HEAD_INIT + record@.len());
        }
        let off = self.read_word(INDEX_HEAD) as usize;
        let index = self.read_word(INDEX_NUM_RECORDS) as usize;
        let blen = self.bytes.len();
        if index >= MAX_RECORDS || record.len() > blen - off {
            return false;
        }
        let end: usize = off + record.len();
        let aligned_end: usize = (end + 3) / 4 * 4;
        if aligned_end > blen {
            return false;
        }
        let mut j: usize = 0;
        while j < record.len()
            invariant
                j <= record@.len(),
                end == off + record@.len(),
                end <= blen,
                HEAD_INIT <= off,
                self.bytes@.len() == b0.len(),
                self.bytes.len() == blen,
                same_outside(b0, self.bytes@, off as int, end as int),
                forall|t: int| 0 <= t < j ==> self.bytes@[off + t] == record@[t],
            decreases record@.len() - j,
        {
            self.bytes.set(off + j, record[j]);
            j += 1;
        }
        let ghost b1 = self.bytes@;
        self.write_word(INDEX_OFFSETS + 2 * index, end as u32);
        let ghost b2 = self.bytes@;
        self.write_word(INDEX_OFFSETS + 2 * index + 1, op_id);
        let ghost b3 = self.bytes@;
        self.write_word(INDEX_NUM_RECORDS, (index + 1) as u32);
        let ghost b4 = self.bytes@;
        self.write_word(INDEX_HEAD, aligned_end as u32);
        proof {
            let b5 = self.bytes@;
            let n = index as int;
            let h = off as int;
            assert(agree_on_records(b0, b1, n, h));
            lemma_records_frame(b0, b1, n, h);
            lemma_write_keeps_records(b1, b2, INDEX_OFFSETS + 2 * n, n, h);
            lemma_records_frame(b1, b2, n, h);
            lemma_write_keeps_records(b2, b3, INDEX_OFFSETS + 2 * n + 1, n, h);
            lemma_records_frame(b2, b3, n, h);
            lemma_write_keeps_records(b3, b4, INDEX_NUM_RECORDS as int, n, h);
            lemma_records_frame(b3, b4, n, h);
            lemma_write_keeps_records(b4, b5, INDEX_HEAD as int, n, h);
            assert(agree_on_records(b0, b5, n, h));
            assert(b5.subrange(h, end as int) =~= record@);
            lemma_push_layout(b0, b5, op_id, record@, aligned_end as int);
        }
        true
    }

    /// Removes and returns the oldest record, if there is one.
    pub fn shift(&mut self) -> (r: Option<(OpId, Vec<u8>)>)
        requires
            old(self).wf(),
        ensures
            final(self).wf(),
            final(self).capacity() == old(self).capacity(),
            old(self)@.len() == 0 ==> r is None && *final(self) == *old(self),
            old(self)@.len() > 0 ==> final(self)@ == old(self)@.drop_first(),
            old(self)@.len() > 1 ==> final(self).slots_used() == old(self).slots_used()
                && final(self).arena_used() == old(self).arena_used(),
            old(self)@.len() == 1 ==> final(self).slots_used() == 0 && final(self).arena_used() == 0,
            old(self)@.len() > 0 ==> (r matches Some(front) && front.0 == old(self)@[0].0
                && front.1@ == old(self)@[0].1),
    {
        let ghost b0 = self.bytes@;
        let n = self.read_word(INDEX_NUM_RECORDS) as usize;
        let i = self.read_word(INDEX_NUM_SHIFTED_OFF) as usize;
        if n - i == 0 {
            return None;
        }
        let off: usize = if i == 0 {
            HEAD_INIT
        } else {
            let ghost k: int = i as int - 1;
            assert(HEAD_INIT <= record_start(b0, k) <= record_end(b0, k) <= head(b0));
            let prev_end = self.read_word(INDEX_OFFSETS + 2 * (i - 1)) as usize;
            (prev_end + 3) / 4 * 4
        };
        let end = self.read_word(INDEX_OFFSETS + 2 * i) as usize;
        let op_id = self.read_word(INDEX_OFFSETS + 2 * i + 1);
        proof {
            assert(off == record_start(b0, i as int));
            assert(HEAD_INIT <= record_start(b0, i as int) <= record_end(b0, i as int) <= head(b0));
        }
        let mut payload: Vec<u8> = Vec::new();
        let mut j: usize = off;
        while j < end
            invariant
                off <= j <= end,
                end <= self.bytes@.len(),
                self.bytes@ == b0,
                payload@ == b0.subrange(off as int, j as int),
            decreases end - j,
        {
            payload.push(self.bytes[j]);
            j += 1;
        }
        proof {
            assert(payload@ == record_at(b0, i as int).1);
        }
        if n - i > 1 {
            self.write_word(INDEX_NUM_SHIFTED_OFF, (i + 1) as u32);
            proof {
                let b1 = self.bytes@;
                assert(agree_on_records(b0, b1, n as int, head(b0)));
                lemma_records_frame(b0, b1, n as int, head(b0));
                assert(records(b1) =~= records(b0).drop_first());
            }
        } else {
            self.reset_header();
            assert(records(b0).drop_first() =~= Seq::<(OpId, Seq<u8>)>::empty());
        }
        Some((op_id, payload))
    }

    /// A record longer than the arena never fits: its response goes through
    /// the overflow path.
    pub proof fn lemma_oversized_never_fits(&self, len: int)
        requires
            self.wf(),
            len > self.capacity(),
        ensures
            !self.can_push(len),
    {
        self.lemma_counters();
    }

    /// An empty queue takes any record whose length, rounded up to a multiple
    /// of four, fits in its arena.
    pub proof fn lemma_empty_accepts(&self, len: int)
        requires
            self.wf(),
            self@.len() == 0,
            0 <= len,
            align4(len) <= self.capacity(),
        ensures
            self.can_push(len),
    {
        self.lemma_counters();
    }

    fn read_word(&self, w: usize) -> (r: u32)
        requires
            4 * w + 4 <= self.bytes.len(),
        ensures
            r as int == word(self.bytes@, w as int),
    {
        let i: usize = 4 * w;
        let b0 = self.bytes[i] as u32;
        let b1 = self.bytes[i + 1] as u32;
        let b2 = self.bytes[i + 2] as u32;
        let b3 = self.bytes[i + 3] as u32;
        b0 + 256 * b1 + 65536 * b2 + 16777216 * b3
    }

    fn write_word(&mut self, w: usize, v: u32)
        requires
            4 * w + 4 <= old(self).bytes.len(),
        ensures
            same_outside(old(self).bytes@, final(self).bytes@, 4 * w as int, 4 * w + 4),
            word(final(self).bytes@, w as int) == v as int,
            forall|w2: int|
                0 <= w2 && 4 * w2 + 4 <= old(self).bytes@.len() && w2 != w ==> #[trigger] word(
                    final(self).bytes@,
                    w2,
                ) == word(old(self).bytes@, w2),
    {
        let i: usize = 4 * w;
        let b0 = (v % 256) as u8;
        let b1 = ((v / 256) % 256) as u8;
        let b2 = ((v / 65536) % 256) as u8;
        let b3 = (v / 16777216) as u8;
        assert(v as int == b0 as int + 256 * (b1 as int) + 65536 * (b2 as int) + 16777216 * (
        b3 as int)) by (nonlinear_arith)
            requires
                b0 as int == v as int % 256,
                b1 as int == (v as int / 256) % 256,
                b2 as int == (v as int / 65536) % 256,
                b3 as int == v as int / 16777216,
                0 <= v <= u32::MAX,
        ;
        self.bytes.set(i, b0);
        self.bytes.set(i + 1, b1);
        self.bytes.set(i + 2, b2);
        self.bytes.set(i + 3, b3);
        proof {
            assert forall|w2: int|
                0 <= w2 && 4 * w2 + 4 <= old(self).bytes@.len() && w2 != w implies #[trigger] word(
                    self.bytes@,
                    w2,
                ) == word(old(self).bytes@, w2) by {
                lemma_word_frame(old(self).bytes@, self.bytes@, 4 * w as int, 4 * w + 4, w2);
            }
        }
    }
}

} // verus!
