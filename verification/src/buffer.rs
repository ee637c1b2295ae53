//! A bounded in-memory queue of finished spans awaiting export.
//!
//! Pushing into a full buffer never blocks and never grows the buffer: the
//! configured overflow policy decides whether the newest or the oldest span
//! is dropped, and a counter records every drop.

use vstd::prelude::*;
use crate::span::{Span, SpanModel, spans_view};

verus! {

/// What to do when a span arrives and the buffer is full.
pub enum OverflowPolicy {
    /// Drop the incoming span; the buffer is unchanged.
    DropNewest,
    /// Drop the oldest buffered span to make room for the incoming one.
    DropOldest,
}

/// Mathematical model of the buffer.
#[verifier::ext_equal]
pub ghost struct BufferModel {
    /// Buffered spans, oldest first.
    pub spans: Seq<SpanModel>,
    pub capacity: int,
    pub policy: OverflowPolicy,
    /// How many spans have been dropped because the buffer was full.
    pub dropped: int,
}

impl BufferModel {
    pub open spec fn wf(self) -> bool {
        &&& 1 <= self.capacity <= usize::MAX
        &&& self.spans.len() <= self.capacity
        &&& 0 <= self.dropped <= u64::MAX
    }

    /// Whether a push finds room without dropping anything.
    pub open spec fn has_room(self) -> bool {
        self.spans.len() < self.capacity
    }
}

/// The state of the buffer after one push.
pub open spec fn push_spec(b: BufferModel, s: SpanModel) -> BufferModel {
    if b.has_room() {
        BufferModel { spans: b.spans.push(s), ..b }
    } else {
        match b.policy {
            OverflowPolicy::DropNewest => BufferModel { dropped: b.dropped + 1, ..b },
            OverflowPolicy::DropOldest => BufferModel {
                spans: b.spans.drop_first().push(s),
                dropped: b.dropped + 1,
                ..b
            },
        }
    }
}

/// The state of the buffer after a whole sequence of pushes, oldest first.
pub open spec fn push_all_spec(b: BufferModel, ss: Seq<SpanModel>) -> BufferModel
    decreases ss.len(),
{
    if ss.len() == 0 {
        b
    } else {
        push_all_spec(push_spec(b, ss[0]), ss.drop_first())
    }
}

/// One push keeps the buffer well formed and within capacity, provided the
/// drop counter has room to grow.
pub proof fn lemma_push_preserves_wf(b: BufferModel, s: SpanModel)
    requires
        b.wf(),
        b.dropped < u64::MAX,
    ensures
        push_spec(b, s).wf(),
        push_spec(b, s).spans.len() <= b.capacity,
        push_spec(b, s).capacity == b.capacity,
        push_spec(b, s).policy == b.policy,
{
}

/// However many spans are pushed, and however fast, the buffer never holds
/// more than its configured capacity.
pub proof fn lemma_capacity_never_exceeded(b: BufferModel, ss: Seq<SpanModel>)
    requires
        b.wf(),
        b.dropped + ss.len() <= u64::MAX,
    ensures
        push_all_spec(b, ss).wf(),
        push_all_spec(b, ss).spans.len() <= b.capacity,
        push_all_spec(b, ss).capacity == b.capacity,
    decreases ss.len(),
{
    if ss.len() > 0 {
        lemma_push_preserves_wf(b, ss[0]);
        lemma_capacity_never_exceeded(push_spec(b, ss[0]), ss.drop_first());
    }
}

/// A bounded FIFO buffer of finished spans.
pub struct BoundedBuffer {
    spans: Vec<Span>,
    capacity: usize,
    policy: OverflowPolicy,
    dropped: u64,
}

impl View for BoundedBuffer {
    type V = BufferModel;

    closed spec fn view(&self) -> BufferModel {
        BufferModel {
            spans: spans_view(self.spans@),
            capacity: self.capacity as int,
            policy: self.policy,
            dropped: self.dropped as int,
        }
    }
}

impl BoundedBuffer {
    pub open spec fn wf(&self) -> bool {
        self@.wf()
    }

    /// An empty buffer with the given capacity and overflow policy.
    pub fn new(capacity: usize, policy: OverflowPolicy) -> (r: BoundedBuffer)
        requires
            capacity >= 1,
        ensures
            r.wf(),
            r@.spans.len() == 0,
            r@.capacity == capacity,
            r@.policy == policy,
            r@.dropped == 0,
    {
        let r = BoundedBuffer { spans: Vec::new(), capacity, policy, dropped: 0 };
        proof {
            assert(r@.spans =~= Seq::<SpanModel>::empty());
        }
        r
    }

    /// How many spans are currently buffered.
    pub fn len(&self) -> (n: usize)
        ensures
            n == self@.spans.len(),
    {
        self.spans.len()
    }

    /// How many spans have been dropped because the buffer was full.
    pub fn dropped(&self) -> (n: u64)
        ensures
            n == self@.dropped,
    {
        self.dropped
    }

    /// Append a finished span, dropping per policy when full. Returns whether
    /// the buffer had room, i.e. whether nothing was dropped.
    pub fn push(&mut self, s: Span) -> (had_room: bool)
        requires
            old(self).wf(),
            old(self)@.dropped < u64::MAX,
        ensures
            final(self).wf(),
            final(self)@ == push_spec(old(self)@, s@),
            had_room == old(self)@.has_room(),
    {
        let ghost m0 = self@;
        let ghost sm = s@;
        if self.spans.len() < self.capacity {
            self.spans.push(s);
            proof {
                assert(self@.spans =~= m0.spans.push(sm));
            }
            true
        } else {
            match self.policy {
                OverflowPolicy::DropNewest => {
                    self.dropped = self.dropped + 1;
                    false
                },
                OverflowPolicy::DropOldest => {
                    let _ = self.spans.remove(0);
                    self.spans.push(s);
                    self.dropped = self.dropped + 1;
                    proof {
                        assert(self@.spans =~= m0.spans.drop_first().push(sm));
                    }
                    false
                },
            }
        }
    }

    /// Remove and return up to `n` spans, oldest first.
    pub fn drain_up_to(&mut self, n: usize) -> (batch: Vec<Span>)
        requires
            old(self).wf(),
        ensures
            final(self).wf(),
            spans_view(batch@) == old(self)@.spans.take(drain_count(old(self)@, n as int)),
            final(self)@.spans == old(self)@.spans.skip(drain_count(old(self)@, n as int)),
            final(self)@.capacity == old(self)@.capacity,
            final(self)@.policy == old(self)@.policy,
            final(self)@.dropped == old(self)@.dropped,
            batch@.len() == drain_count(old(self)@, n as int),
    {
        let ghost m0 = self@;
        let k: usize = if n < self.spans.len() { n } else { self.spans.len() };
        let mut batch: Vec<Span> = Vec::new();
        let mut i: usize = 0;
        while i < k
            invariant
                i <= k,
                k == drain_count(m0, n as int),
                k <= m0.spans.len(),
                batch@.len() == i,
                self.spans@.len() == m0.spans.len() - i,
                spans_view(batch@) =~= m0.spans.take(i as int),
                spans_view(self.spans@) =~= m0.spans.skip(i as int),
                self.capacity == m0.capacity,
                self.policy == m0.policy,
                self.dropped == m0.dropped,
            decreases k - i,
        {
            let ghost before = self.spans@;
            let s = self.spans.remove(0);
            batch.push(s);
            i = i + 1;
            proof {
                assert(s@ == spans_view(before)[0]);
                assert(s@ == m0.spans[i - 1]);
                assert(spans_view(batch@) =~= m0.spans.take(i as int));
                assert(self.spans@ =~= before.drop_first());
                assert forall|j: int| 0 <= j < self.spans@.len() implies
                    spans_view(self.spans@)[j] == m0.spans.skip(i as int)[j] by {
                    assert(self.spans@[j] == before[j + 1]);
                    assert(spans_view(before)[j + 1] == before[j + 1]@);
                    assert(spans_view(before)[j + 1] == m0.spans.skip(i - 1)[j + 1]);
                }
                assert(spans_view(self.spans@) =~= m0.spans.skip(i as int));
            }
        }
        proof {
            assert(spans_view(batch@) =~= m0.spans.take(k as int));
            assert(self@.spans =~= m0.spans.skip(k as int));
        }
        batch
    }
}

/// How many spans a drain of up to `n` removes: all of them, or `n`,
/// whichever is fewer.
pub open spec fn drain_count(b: BufferModel, n: int) -> int {
    if n < b.spans.len() {
        n
    } else {
        b.spans.len() as int
    }
}

} // verus!
