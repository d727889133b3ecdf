//! Bounded ring buffer for cdb stdout/stderr. Offsets are monotonically
//! increasing and MCP clients paginate by `since_offset`.
//!
//! Abstractly a buffer is its capacity and the whole stream of bytes ever
//! written to it; it retains the most recent `capacity` bytes of that
//! stream, and offsets count bytes of the stream (saturating at
//! `u64::MAX`).

use std::collections::VecDeque;

use vstd::prelude::*;

use crate::text::{decoded_text, lossy_utf8};

verus! {

/// Abstract state of a [`RingBuffer`].
pub struct RingModel {
    pub capacity: nat,
    /// Every byte ever pushed, oldest first.
    pub stream: Seq<u8>,
}

/// `n` clamped to the `u64` range.
pub open spec fn saturate(n: nat) -> u64 {
    if n > u64::MAX {
        u64::MAX
    } else {
        n as u64
    }
}

/// Number of stream bytes still retained.
pub open spec fn retained_len(m: RingModel) -> nat {
    if m.stream.len() < m.capacity {
        m.stream.len()
    } else {
        m.capacity
    }
}

/// The retained bytes: the last `retained_len` bytes of the stream.
pub open spec fn retained(m: RingModel) -> Seq<u8> {
    m.stream.skip(m.stream.len() - retained_len(m))
}

/// Total number of bytes ever written (saturating).
pub open spec fn total_of(m: RingModel) -> u64 {
    saturate(m.stream.len())
}

/// Offset of the first retained byte.
pub open spec fn earliest_of(m: RingModel) -> u64 {
    if total_of(m) >= retained_len(m) {
        (total_of(m) - retained_len(m)) as u64
    } else {
        0
    }
}

/// The buffer after writing `chunk`.
pub open spec fn push_model(m: RingModel, chunk: Seq<u8>) -> RingModel {
    RingModel { capacity: m.capacity, stream: m.stream + chunk }
}

/// What `read_since(since)` returns: the bytes from `since` on (or from the
/// earliest retained byte), the next offset, and whether older bytes were
/// already dropped.
pub open spec fn read_since_model(m: RingModel, since: u64) -> (Seq<u8>, u64, bool) {
    let e = earliest_of(m);
    if since < e {
        (retained(m), total_of(m), true)
    } else if since - e >= retained_len(m) {
        (Seq::empty(), total_of(m), false)
    } else {
        (retained(m).skip(since - e), total_of(m), false)
    }
}

/// Offset of the first byte `read_since(since)` returns: `since`, or the
/// earliest retained offset when `since` is older.
pub open spec fn read_start(m: RingModel, since: u64) -> u64 {
    if since < earliest_of(m) {
        earliest_of(m)
    } else {
        since
    }
}

/// The last `max` retained bytes (all of them if fewer are retained).
pub open spec fn tail_model(m: RingModel, max: nat) -> Seq<u8> {
    let r = retained(m);
    if max < r.len() {
        r.skip(r.len() - max)
    } else {
        r
    }
}

pub struct RingBuffer {
    capacity: usize,
    data: VecDeque<u8>,
    /// Total number of bytes ever written.
    pub total_written: u64,
    stream: Ghost<Seq<u8>>,
}

impl View for RingBuffer {
    type V = RingModel;

    closed spec fn view(&self) -> RingModel {
        RingModel { capacity: self.capacity as nat, stream: self.stream@ }
    }
}

impl RingBuffer {
    /// The concrete fields agree with the abstract state.
    pub closed spec fn wf(&self) -> bool {
        &&& self.data@ == retained(self@)
        &&& self.total_written == total_of(self@)
    }

    pub fn new(capacity: usize) -> (r: RingBuffer)
        ensures
            r.wf(),
            r@.capacity == capacity,
            r@.stream == Seq::<u8>::empty(),
    {
        let cap = if capacity < 64 * 1024 {
            capacity
        } else {
            64 * 1024
        };
        let r = RingBuffer {
            capacity,
            data: VecDeque::with_capacity(cap),
            total_written: 0,
            stream: Ghost(Seq::empty()),
        };
        assert(retained(r@) =~= Seq::<u8>::empty());
        r
    }

    #[verifier::loop_isolation(false)]
    pub fn push(&mut self, chunk: &[u8])
        requires
            old(self).wf(),
        ensures
            final(self).wf(),
            final(self)@ == push_model(old(self)@, chunk@),
    {
        let ghost old_model = self@;
        let ghost new_model = push_model(old_model, chunk@);
        proof {
            law_push_keeps_latest_bytes(old_model, chunk@);
        }
        self.total_written = self.total_written.saturating_add(chunk.len() as u64);
        self.stream = Ghost(self.stream@ + chunk@);
        let ghost cap0 = self.capacity;
        let ghost fixed = (self.capacity, self.stream@, self.total_written);
        if chunk.len() >= self.capacity {
            self.data.clear();
            let start = chunk.len() - self.capacity;
            let n = chunk.len();
            for i in start..n
                invariant
                    (self.capacity, self.stream@, self.total_written) == fixed,
                    n == chunk@.len(),
                    start <= n,
                    self.data@ == chunk@.subrange(start as int, i as int),
            {
                self.data.push_back(chunk[i]);
                assert(chunk@.subrange(start as int, i + 1) == chunk@.subrange(
                    start as int,
                    i as int,
                ).push(chunk@[i as int]));
            }
            assert(chunk@.subrange(start as int, n as int) == chunk@.skip(start as int));
            assert(self@ == new_model);
            return ;
        }
        let ghost base = self.data@;
        while self.data.len() > self.capacity - chunk.len()
            invariant
                (self.capacity, self.stream@, self.total_written) == fixed,
                self.capacity == cap0,
                cap0 == old_model.capacity,
                chunk@.len() < self.capacity,
                base == retained(old_model),
                base.len() <= self.capacity,
                self.data@.len() <= base.len(),
                self.data@ == base.skip(base.len() - self.data@.len()),
                self.data@.len() == base.len() || self.data@.len() + chunk@.len() == self.capacity,
            decreases self.data@.len(),
        {
            let overflow = self.data.len() - (self.capacity - chunk.len());
            let k = if overflow < self.data.len() {
                overflow
            } else {
                self.data.len()
            };
            let ghost len0 = self.data@.len();
            assert(k == overflow);
            for j in 0..k
                invariant
                    (self.capacity, self.stream@, self.total_written) == fixed,
                    self.capacity == cap0,
                    k <= len0,
                    len0 <= base.len(),
                    self.data@.len() == len0 - j,
                    self.data@ == base.skip(base.len() - self.data@.len()),
            {
                let _ = self.data.pop_front();
            }
        }
        let ghost kept = self.data@;
        let n = chunk.len();
        for i in 0..n
            invariant
                (self.capacity, self.stream@, self.total_written) == fixed,
                n == chunk@.len(),
                self.data@ == kept + chunk@.take(i as int),
        {
            self.data.push_back(chunk[i]);
            assert(chunk@.take(i + 1) == chunk@.take(i as int).push(chunk@[i as int]));
        }
        assert(chunk@.take(n as int) == chunk@);
        proof {
            lemma_retained_after_drop(old_model, chunk@, kept);
        }
    }

    /// The capacity fits the machine's `usize`.
    pub proof fn lemma_capacity_fits(&self)
        ensures
            self@.capacity <= usize::MAX,
    {
    }

    pub fn total_written(&self) -> (r: u64)
        requires
            self.wf(),
        ensures
            r == total_of(self@),
    {
        self.total_written
    }

    /// Earliest offset currently still buffered.
    pub fn earliest_offset(&self) -> (r: u64)
        requires
            self.wf(),
        ensures
            r == earliest_of(self@),
    {
        self.total_written.saturating_sub(self.data.len() as u64)
    }

    /// Copy bytes from `since_offset` forward. Returns (bytes, next_offset,
    /// truncated_from_start). If `since_offset` is older than what we still
    /// have, the earliest retained slice is returned and `truncated_from_start`
    /// is set to true.
    pub fn read_since(&self, since_offset: u64) -> (r: (Vec<u8>, u64, bool))
        requires
            self.wf(),
        ensures
            (r.0@, r.1, r.2) == read_since_model(self@, since_offset),
    {
        let earliest = self.earliest_offset();
        let len = self.data.len();
        let (start_idx, truncated) = if since_offset < earliest {
            (0usize, true)
        } else if since_offset - earliest >= len as u64 {
            (len, false)
        } else {
            ((since_offset - earliest) as usize, false)
        };
        if start_idx >= len {
            return (Vec::new(), self.total_written, truncated);
        }
        let out = self.copy_from(start_idx);
        (out, self.total_written, truncated)
    }

    /// The retained bytes from index `start` on.
    fn copy_from(&self, start: usize) -> (out: Vec<u8>)
        requires
            start <= self.data@.len(),
        ensures
            out@ == self.data@.skip(start as int),
    {
        let len = self.data.len();
        let mut out: Vec<u8> = Vec::with_capacity(len - start);
        for i in start..len
            invariant
                len == self.data@.len(),
                start <= len,
                out@ == self.data@.subrange(start as int, i as int),
        {
            out.push(self.data[i]);
            assert(self.data@.subrange(start as int, i + 1) == self.data@.subrange(
                start as int,
                i as int,
            ).push(self.data@[i as int]));
        }
        assert(self.data@.subrange(start as int, len as int) == self.data@.skip(start as int));
        out
    }

    /// The last `max_bytes` retained bytes, decoded as lossy UTF-8.
    pub fn snapshot_tail(&self, max_bytes: usize) -> (r: String)
        requires
            self.wf(),
        ensures
            retained(self@).len() == 0 ==> r@ == Seq::<char>::empty(),
            retained(self@).len() > 0 ==> r@ == decoded_text(tail_model(self@, max_bytes as nat)),
    {
        if self.data.len() == 0 {
            return String::new();
        }
        let len = self.data.len();
        let take = if max_bytes < len {
            max_bytes
        } else {
            len
        };
        let bytes = self.copy_from(len - take);
        assert(self.data@.skip(0) == self.data@);
        assert(bytes@ == tail_model(self@, max_bytes as nat));
        lossy_utf8(bytes.as_slice())
    }
}

/// Writing a chunk at least as large as the capacity leaves exactly its last
/// `capacity` bytes; a smaller chunk is appended to the retained bytes that
/// still fit.
pub proof fn law_push_keeps_latest_bytes(m: RingModel, chunk: Seq<u8>)
    ensures
        chunk.len() >= m.capacity ==> retained(push_model(m, chunk)) == chunk.skip(
            chunk.len() - m.capacity,
        ),
        total_of(push_model(m, chunk)) == saturate(m.stream.len() + chunk.len()),
{
    let n = push_model(m, chunk);
    if chunk.len() >= m.capacity {
        assert(retained_len(n) == m.capacity);
        assert forall|i: int| 0 <= i < m.capacity implies retained(n)[i] == chunk.skip(
            chunk.len() - m.capacity,
        )[i] by {
            assert(retained(n)[i] == n.stream[n.stream.len() - m.capacity + i]);
        }
        assert(retained(n) =~= chunk.skip(chunk.len() - m.capacity));
    }
}

/// After dropping the oldest retained bytes so that the chunk fits, the
/// kept bytes followed by the chunk are the new retained bytes.
proof fn lemma_retained_after_drop(m: RingModel, chunk: Seq<u8>, kept: Seq<u8>)
    requires
        chunk.len() < m.capacity,
        kept.len() <= retained(m).len(),
        kept == retained(m).skip(retained(m).len() - kept.len()),
        kept.len() + chunk.len() <= m.capacity,
        kept.len() == retained(m).len() || kept.len() + chunk.len() == m.capacity,
    ensures
        kept + chunk == retained(push_model(m, chunk)),
{
    let n = push_model(m, chunk);
    let r = retained(m);
    let rl = retained_len(m);
    if kept.len() == r.len() {
        // Nothing was dropped: either everything fits or exactly fills.
        assert(rl == r.len());
    }
    assert(retained_len(n) == kept.len() + chunk.len()) by {
        if m.stream.len() < m.capacity {
            assert(rl == m.stream.len());
        }
    }
    assert forall|i: int| 0 <= i < kept.len() + chunk.len() implies (kept + chunk)[i]
        == retained(n)[i] by {
        let base = n.stream.len() - retained_len(n);
        assert(retained(n)[i] == n.stream[base + i]);
        if i < kept.len() {
            assert(kept[i] == r[r.len() - kept.len() + i]);
            assert(r[r.len() - kept.len() + i] == m.stream[m.stream.len() - rl + r.len()
                - kept.len() + i]);
        } else {
            assert(n.stream[base + i] == chunk[i - kept.len()]);
        }
    }
    assert(kept + chunk =~= retained(n));
}

/// Reading from the offset where a write began gives back exactly the
/// bytes written, when the chunk fits in the buffer and no offset saturates.
pub proof fn law_read_after_write(m: RingModel, chunk: Seq<u8>)
    requires
        chunk.len() <= m.capacity,
        m.stream.len() + chunk.len() <= u64::MAX,
    ensures
        read_since_model(push_model(m, chunk), total_of(m)) == (
            chunk,
            (m.stream.len() + chunk.len()) as u64,
            false,
        ),
{
    let n = push_model(m, chunk);
    let rl = retained_len(n);
    assert(rl >= chunk.len());
    assert(earliest_of(n) == n.stream.len() - rl);
    let since = total_of(m);
    assert(since == m.stream.len());
    let start = since - earliest_of(n);
    assert(start == rl - chunk.len());
    if chunk.len() == 0 {
        assert(start >= rl);
        assert(chunk =~= Seq::<u8>::empty());
    } else {
        assert forall|i: int| 0 <= i < chunk.len() implies retained(n).skip(start)[i]
            == chunk[i] by {
            assert(retained(n).skip(start)[i] == n.stream[n.stream.len() - rl + start + i]);
        }
        assert(retained(n).skip(start) =~= chunk);
    }
}

/// Reading from the current total offset returns nothing and keeps the
/// offset, so paginating clients stop there.
pub proof fn law_read_at_end_is_empty(m: RingModel)
    requires
        m.capacity <= u64::MAX,
    ensures
        read_since_model(m, total_of(m)) == (Seq::<u8>::empty(), total_of(m), false),
{
}

/// Without saturation, every read returns the stream from the requested
/// offset (or from the earliest retained byte) up to its end.
pub proof fn law_read_is_stream_suffix(m: RingModel, since: u64)
    requires
        m.stream.len() <= u64::MAX,
    ensures
        ({
            let from = if since < earliest_of(m) {
                earliest_of(m) as int
            } else if since > m.stream.len() {
                m.stream.len() as int
            } else {
                since as int
            };
            read_since_model(m, since).0 == m.stream.subrange(from, m.stream.len() as int)
        }),
{
    let rl = retained_len(m) as int;
    let e = earliest_of(m) as int;
    let len = m.stream.len() as int;
    assert(e == len - rl);
    if since < e {
        assert(retained(m) =~= m.stream.subrange(e, len));
    } else if since - e >= rl {
        assert(m.stream.subrange(len, len) =~= Seq::<u8>::empty());
    } else {
        assert(retained(m).skip(since - e) =~= m.stream.subrange(since as int, len));
    }
}

/// Offsets only move forward: writing never lowers the total or the
/// earliest retained offset.
pub proof fn law_offsets_monotone(m: RingModel, chunk: Seq<u8>)
    requires
        m.capacity <= u64::MAX,
    ensures
        total_of(push_model(m, chunk)) >= total_of(m),
        earliest_of(push_model(m, chunk)) >= earliest_of(m),
{
}


/// A non-empty read runs from its start offset up to the total: the bytes
/// returned are exactly those at offsets `read_start .. total`.
pub proof fn law_read_reaches_total(m: RingModel, since: u64)
    requires
        m.capacity <= u64::MAX,
    ensures
        read_since_model(m, since).0.len() > 0 ==> read_start(m, since) + read_since_model(
            m,
            since,
        ).0.len() == total_of(m),
{
}

/// Paging: reading again from the offset where the first `k` bytes of a
/// read ended gives the rest of that read, so consecutive pages leave no
/// gap and repeat nothing.
pub proof fn law_pages_continue(m: RingModel, since: u64, k: nat)
    requires
        m.capacity <= u64::MAX,
        0 < k <= read_since_model(m, since).0.len(),
    ensures
        read_since_model(m, (read_start(m, since) + k) as u64).0 == read_since_model(
            m,
            since,
        ).0.skip(k as int),
        !read_since_model(m, (read_start(m, since) + k) as u64).2,
{
    let r = read_since_model(m, since).0;
    let e = earliest_of(m) as int;
    let next = read_start(m, since) + k;
    if k == r.len() {
        assert(r.skip(k as int) =~= Seq::<u8>::empty());
    } else {
        assert(retained(m).skip(next - e) =~= r.skip(k as int));
    }
}

} // verus!
