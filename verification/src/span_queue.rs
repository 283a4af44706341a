//! Per-thread span buffers that hand out full batches.

use vstd::prelude::*;
use crate::span::RawSpan;
use crate::backend::perfetto::thread_descriptor;

verus! {

/// How many spans a queue gathers before it hands them out as one batch.
pub const DEFAULT_BATCH_SIZE: usize = 16384 / 16;

/// How many queues the shared store holds; a thread picks its queue by its
/// identifier modulo this number.
pub const QUEUE_SLOTS: usize = 16;

/// What a push does to a queue holding `queue`: the queue with `span`
/// appended, unless that fills a batch; then the queue is emptied and the
/// batch handed out.
pub open spec fn spec_push(queue: Seq<RawSpan>, span: RawSpan) -> (Seq<RawSpan>, Option<Seq<RawSpan>>) {
    let all = queue.push(span);
    if all.len() == DEFAULT_BATCH_SIZE {
        (Seq::empty(), Some(all))
    } else {
        (all, None)
    }
}

/// The queue and the batches handed out after pushing `spans` one by one.
pub open spec fn spec_push_all(queue: Seq<RawSpan>, spans: Seq<RawSpan>) -> (Seq<RawSpan>, Seq<Seq<RawSpan>>)
    decreases spans.len(),
{
    if spans.len() == 0 {
        (queue, Seq::empty())
    } else {
        let before = spec_push_all(queue, spans.drop_last());
        let after = spec_push(before.0, spans.last());
        (
            after.0,
            match after.1 {
                Some(batch) => before.1.push(batch),
                None => before.1,
            },
        )
    }
}

/// The spans of an optional batch.
pub open spec fn opt_batch_view(batch: Option<Vec<RawSpan>>) -> Option<Seq<RawSpan>> {
    match batch {
        Some(b) => Some(b@),
        None => None,
    }
}

/// Pushing spans into a queue that holds less than a batch loses none and
/// reorders none: the batches handed out, followed by what stays queued, are
/// the spans that were queued followed by the pushed ones. Every batch handed
/// out is full, and the queue stays below a batch.
pub proof fn lemma_push_all_keeps_every_span(queue: Seq<RawSpan>, spans: Seq<RawSpan>)
    requires
        queue.len() < DEFAULT_BATCH_SIZE,
    ensures
        spec_push_all(queue, spans).1.flatten() + spec_push_all(queue, spans).0 == queue + spans,
        forall|i: int|
            0 <= i < spec_push_all(queue, spans).1.len() ==> (#[trigger] spec_push_all(
                queue,
                spans,
            ).1[i]).len() == DEFAULT_BATCH_SIZE,
        spec_push_all(queue, spans).0.len() < DEFAULT_BATCH_SIZE,
    decreases spans.len(),
{
    broadcast use Seq::lemma_flatten_push;

    if spans.len() > 0 {
        let prefix = spans.drop_last();
        lemma_push_all_keeps_every_span(queue, prefix);
        let before = spec_push_all(queue, prefix);
        let after = spec_push(before.0, spans.last());
        let f = before.1.flatten();
        let last = spans.last();
        assert(f + before.0 == queue + prefix);
        assert((f + before.0).push(last) =~= f + before.0.push(last));
        assert((queue + prefix).push(last) =~= queue + spans);
        match after.1 {
            Some(batch) => {
                assert(before.1.push(batch).flatten() == before.1.flatten() + batch);
                assert(batch == before.0.push(last));
                assert(f + batch + after.0 =~= f + batch);
                assert forall|i: int| 0 <= i < before.1.push(batch).len() implies (
                #[trigger] before.1.push(batch)[i]).len() == DEFAULT_BATCH_SIZE by {
                    if i < before.1.len() {
                        assert(before.1.push(batch)[i] == before.1[i]);
                    }
                }
            },
            None => {
                assert(after.0 == before.0.push(last));
            },
        }
    }
}

/// A buffer of spans that hands them out a batch at a time.
pub struct SpanQueue {
    spans: Vec<RawSpan>,
}

impl View for SpanQueue {
    type V = Seq<RawSpan>;

    closed spec fn view(&self) -> Seq<RawSpan> {
        self.spans@
    }
}

impl SpanQueue {
    /// A queue never holds a full batch: a push that fills one hands it out.
    #[verifier::type_invariant]
    spec fn wf(&self) -> bool {
        self.spans@.len() < DEFAULT_BATCH_SIZE
    }

    /// An empty queue.
    pub fn new() -> (queue: SpanQueue)
        ensures
            queue@ == Seq::<RawSpan>::empty(),
    {
        SpanQueue { spans: Vec::with_capacity(DEFAULT_BATCH_SIZE) }
    }

    /// The number of spans waiting in the queue.
    pub fn len(&self) -> (n: usize)
        ensures
            n == self@.len(),
            n < DEFAULT_BATCH_SIZE,
    {
        proof {
            use_type_invariant(self);
        }
        self.spans.len()
    }

    /// Appends a span. When that fills a batch, the whole batch is taken out
    /// of the queue and returned, to be sent to the consumer.
    pub fn push(&mut self, span: RawSpan) -> (batch: Option<Vec<RawSpan>>)
        ensures
            final(self)@ == spec_push(old(self)@, span).0,
            opt_batch_view(batch) == spec_push(old(self)@, span).1,
    {
        proof {
            use_type_invariant(&*self);
        }
        let mut spans = Vec::new();
        std::mem::swap(&mut self.spans, &mut spans);
        spans.push(span);
        if spans.len() == DEFAULT_BATCH_SIZE {
            // flush spans
            self.spans = Vec::with_capacity(DEFAULT_BATCH_SIZE);
            Some(spans)
        } else {
            self.spans = spans;
            None
        }
    }

    /// Takes every span out of the queue, as the queue does when its thread
    /// ends, so that none is lost.
    pub fn take_spans(&mut self) -> (spans: Vec<RawSpan>)
        ensures
            spans@ == old(self)@,
            final(self)@ == Seq::<RawSpan>::empty(),
    {
        let mut spans = Vec::new();
        std::mem::swap(&mut self.spans, &mut spans);
        spans
    }
}

/// The queues shared by all threads.
pub struct SpanQueueStore {
    span_queues: Vec<SpanQueue>,
}

impl View for SpanQueueStore {
    type V = Seq<Seq<RawSpan>>;

    closed spec fn view(&self) -> Seq<Seq<RawSpan>> {
        self.span_queues@.map_values(|q: SpanQueue| q@)
    }
}

impl SpanQueueStore {
    /// The queue that serves the thread with this identifier.
    pub open spec fn slot(index: usize) -> int {
        (index % QUEUE_SLOTS) as int
    }

    /// A store with no queue.
    pub fn new() -> (store: SpanQueueStore)
        ensures
            store@ == Seq::<Seq<RawSpan>>::empty(),
    {
        SpanQueueStore { span_queues: Vec::new() }
    }

    /// The store as the tracer first builds it: one queue per slot, each
    /// holding a thread descriptor.
    pub fn with_all_slots() -> (store: SpanQueueStore)
        ensures
            store@.len() == QUEUE_SLOTS,
            forall|i: int|
                0 <= i < QUEUE_SLOTS ==> {
                    &&& (#[trigger] store@[i]).len() == 1
                    &&& store@[i][0].typ is ThreadDiscriptor
                },
    {
        let mut store = SpanQueueStore::new();
        let mut k: usize = 0;
        while k < QUEUE_SLOTS
            invariant
                k <= QUEUE_SLOTS,
                store@.len() == k,
                forall|i: int|
                    0 <= i < k ==> {
                        &&& (#[trigger] store@[i]).len() == 1
                        &&& store@[i][0].typ is ThreadDiscriptor
                    },
            decreases QUEUE_SLOTS - k,
        {
            let ghost before = store@;
            store.register();
            proof {
                assert forall|i: int| 0 <= i < k implies #[trigger] store@[i] == before[i] by {
                    assert(store@.take(k as int)[i] == store@[i]);
                }
            }
            k = k + 1;
        }
        store
    }

    /// Adds a queue that holds a thread descriptor of the calling thread.
    pub fn register(&mut self)
        requires
            old(self)@.len() < usize::MAX,
        ensures
            final(self)@.len() == old(self)@.len() + 1,
            final(self)@.take(old(self)@.len() as int) == old(self)@,
            final(self)@.last().len() == 1,
            final(self)@.last()[0].typ is ThreadDiscriptor,
    {
        let mut queue = SpanQueue::new();
        let _ = queue.push(thread_descriptor());
        self.span_queues.push(queue);
        proof {
            assert(self@.take(old(self)@.len() as int) =~= old(self)@);
        }
    }

    /// The queue that serves the thread with this identifier.
    pub fn get(&self, index: usize) -> (queue: &SpanQueue)
        requires
            Self::slot(index) < self@.len(),
        ensures
            queue@ == self@[Self::slot(index)],
    {
        let index = index % QUEUE_SLOTS;
        &self.span_queues[index]
    }

    /// Takes every span out of the queue of the thread with this identifier,
    /// as a queue does when its thread ends, so that none is lost.
    pub fn take_spans(&mut self, index: usize) -> (spans: Vec<RawSpan>)
        requires
            Self::slot(index) < old(self)@.len(),
        ensures
            spans@ == old(self)@[Self::slot(index)],
            final(self)@ == old(self)@.update(Self::slot(index), Seq::<RawSpan>::empty()),
    {
        let index = index % QUEUE_SLOTS;
        let spans = self.span_queues[index].take_spans();
        proof {
            assert(self@ =~= old(self)@.update(index as int, Seq::<RawSpan>::empty()));
        }
        spans
    }

    /// Appends a span to the queue of the thread with this identifier; a
    /// batch that this fills is returned.
    pub fn push(&mut self, index: usize, span: RawSpan) -> (batch: Option<Vec<RawSpan>>)
        requires
            Self::slot(index) < old(self)@.len(),
        ensures
            final(self)@.len() == old(self)@.len(),
            forall|i: int|
                0 <= i < old(self)@.len() && i != Self::slot(index)
                    ==> #[trigger] final(self)@[i] == old(self)@[i],
            final(self)@[Self::slot(index)] == spec_push(old(self)@[Self::slot(index)], span).0,
            opt_batch_view(batch) == spec_push(old(self)@[Self::slot(index)], span).1,
    {
        let index = index % QUEUE_SLOTS;
        let batch = self.span_queues[index].push(span);
        proof {
            assert(self@ =~= old(self)@.update(index as int, self.span_queues@[index as int]@));
        }
        batch
    }
}

} // verus!
