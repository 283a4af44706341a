use fastant::Instant;
use rt_trace::span::{RawSpan, RunTask, Type};
use rt_trace::span_queue::{SpanQueue, SpanQueueStore, DEFAULT_BATCH_SIZE, QUEUE_SLOTS};

fn run(id: u64) -> RawSpan {
    RawSpan::new(Type::RunTask(RunTask {}), id, Instant::ZERO, Instant::ZERO)
}

#[test]
fn batch_size_is_1024() {
    assert_eq!(DEFAULT_BATCH_SIZE, 1024);
    assert_eq!(QUEUE_SLOTS, 16);
}

#[test]
fn queue_hands_out_a_full_batch_in_order() {
    let mut q = SpanQueue::new();
    for i in 0..(DEFAULT_BATCH_SIZE as u64 - 1) {
        assert!(q.push(run(i)).is_none());
        assert_eq!(q.len() as u64, i + 1);
    }
    let batch = q.push(run(DEFAULT_BATCH_SIZE as u64 - 1)).unwrap();
    assert_eq!(batch.len(), DEFAULT_BATCH_SIZE);
    for (i, s) in batch.iter().enumerate() {
        assert_eq!(s.thread_id, i as u64);
    }
    assert_eq!(q.len(), 0);
}

#[test]
fn no_span_is_lost_over_many_pushes() {
    let mut q = SpanQueue::new();
    let mut sent: Vec<u64> = vec![];
    let total = 2 * DEFAULT_BATCH_SIZE as u64 + 5;
    for i in 0..total {
        if let Some(batch) = q.push(run(i)) {
            assert_eq!(batch.len(), DEFAULT_BATCH_SIZE);
            sent.extend(batch.iter().map(|s| s.thread_id));
        }
    }
    sent.extend(q.take_spans().iter().map(|s| s.thread_id));
    assert_eq!(sent, (0..total).collect::<Vec<u64>>());
    assert_eq!(q.len(), 0);
}

#[test]
fn take_spans_empties_the_queue() {
    let mut q = SpanQueue::new();
    assert!(q.take_spans().is_empty());
    q.push(run(1));
    q.push(run(2));
    let taken = q.take_spans();
    assert_eq!(taken.iter().map(|s| s.thread_id).collect::<Vec<_>>(), vec![1, 2]);
    assert_eq!(q.len(), 0);
}

#[test]
fn store_starts_with_a_thread_descriptor_per_slot() {
    let store = SpanQueueStore::with_all_slots();
    for i in 0..QUEUE_SLOTS {
        assert_eq!(store.get(i).len(), 1);
    }
    let empty = SpanQueueStore::new();
    let _ = empty;
}

#[test]
fn store_picks_the_slot_modulo_sixteen() {
    let mut store = SpanQueueStore::with_all_slots();
    assert!(store.push(17, run(99)).is_none());
    assert_eq!(store.get(1).len(), 2);
    assert_eq!(store.get(17).len(), 2);
    assert_eq!(store.get(33).len(), 2);
    assert_eq!(store.get(2).len(), 1);
    assert_eq!(store.get(0).len(), 1);
}

#[test]
fn store_take_spans_empties_one_slot() {
    let mut store = SpanQueueStore::with_all_slots();
    store.push(3, run(7));
    let taken = store.take_spans(19);
    assert_eq!(taken.len(), 2);
    assert!(matches!(taken[0].typ, Type::ThreadDiscriptor(_)));
    assert_eq!(taken[1].thread_id, 7);
    assert_eq!(store.get(3).len(), 0);
    assert_eq!(store.get(4).len(), 1);
}

#[test]
fn store_register_adds_a_queue() {
    let mut store = SpanQueueStore::new();
    store.register();
    assert_eq!(store.get(0).len(), 1);
}

#[test]
fn store_hands_out_a_batch_from_one_slot() {
    let mut store = SpanQueueStore::with_all_slots();
    let mut batch = None;
    for i in 0..(DEFAULT_BATCH_SIZE as u64 - 1) {
        batch = store.push(5, run(i));
    }
    let batch = batch.unwrap();
    assert_eq!(batch.len(), DEFAULT_BATCH_SIZE);
    assert!(matches!(batch[0].typ, Type::ThreadDiscriptor(_)));
    assert_eq!(batch[1].thread_id, 0);
    assert_eq!(store.get(5).len(), 0);
    assert_eq!(store.get(4).len(), 1);
}
