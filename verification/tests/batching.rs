use scuffle::batching::{at_least_one, load_outcome, timer_step, BatcherBuilder, DataLoaderBuilder, Duration, PendingBatch, PendingKeys};

#[test]
fn test_duration_arithmetic() {
    let d = Duration::from_millis(1500);
    assert_eq!(d.as_secs(), 1);
    assert_eq!(d.subsec_nanos(), 500_000_000);
    assert_eq!(Duration::from_millis(5).saturating_sub(Duration::from_millis(2)), Duration::from_millis(3));
    assert!(Duration::from_millis(2).saturating_sub(Duration::from_millis(5)).is_zero());
    assert_eq!(Duration::new(2, 100).saturating_sub(Duration::new(1, 200)), Duration::new(0, 999_999_900));
    assert!(Duration::ZERO().is_zero());
}

#[test]
fn test_builder_defaults_and_setters() {
    let builder = BatcherBuilder::<()>::new();
    assert_eq!(builder.get_batch_size(), 1000);
    assert_eq!(builder.get_concurrency(), 50);
    assert_eq!(builder.get_delay(), Duration::from_millis(5));

    let builder = BatcherBuilder::<()>::default()
        .batch_size(2)
        .concurrency(1)
        .delay(Duration::from_millis(10));
    assert_eq!(builder.get_batch_size(), 2);
    assert_eq!(builder.get_concurrency(), 1);
    assert_eq!(builder.get_delay(), Duration::from_millis(10));

    let mut builder = DataLoaderBuilder::<()>::new();
    builder.with_batch_size(4).with_concurrency(3).with_delay(Duration::from_millis(1));
    assert_eq!(builder.get_batch_size(), 4);
    assert_eq!(builder.get_concurrency(), 3);
    assert_eq!(builder.get_delay(), Duration::from_millis(1));
    let copy = builder;
    assert_eq!(copy.get_batch_size(), 4);
}

#[test]
fn test_at_least_one() {
    assert_eq!(at_least_one(0), 1);
    assert_eq!(at_least_one(1), 1);
    assert_eq!(at_least_one(50), 50);
}

#[test]
fn test_timer_step() {
    let delay = Duration::from_millis(10);
    let idle = timer_step(delay, None);
    assert!(!idle.run_batch);
    assert_eq!(idle.sleep, delay);

    let young = timer_step(delay, Some(Duration::from_millis(4)));
    assert!(!young.run_batch);
    assert_eq!(young.sleep, Duration::from_millis(6));

    let due = timer_step(delay, Some(Duration::from_millis(10)));
    assert!(due.run_batch);
    assert_eq!(due.sleep, delay);

    let late = timer_step(delay, Some(Duration::from_millis(25)));
    assert!(late.run_batch);
    assert_eq!(late.sleep, delay);
}

#[test]
fn test_pending_batch_fills_in_order() {
    let mut pending = PendingBatch::new();
    let mut dispatched = Vec::new();
    for item in ["a", "b", "c", "d", "e", "f", "g"] {
        if let Some(batch) = pending.push(item, 3) {
            dispatched.push(batch);
        }
    }
    assert_eq!(dispatched, vec![vec!["a", "b", "c"], vec!["d", "e", "f"]]);
    assert_eq!(pending.len(), 1);
    assert_eq!(pending.take(), vec!["g"]);
    assert_eq!(pending.len(), 0);
}

#[test]
fn test_pending_batch_size_one() {
    let mut pending = PendingBatch::new();
    assert_eq!(pending.push(1, at_least_one(0)), Some(vec![1]));
    assert_eq!(pending.push(2, 1), Some(vec![2]));
    assert_eq!(pending.len(), 0);
}

#[test]
fn test_duration_new_carries() {
    let d = Duration::new(1, 2_500_000_000);
    assert_eq!(d.as_secs(), 3);
    assert_eq!(d.subsec_nanos(), 500_000_000);
}

#[test]
fn test_pending_keys_offer() {
    let mut keys = PendingKeys::new();
    assert!(!keys.offer(true, 3));
    assert!(!keys.offer(false, 3));
    assert!(!keys.offer(true, 3));
    assert!(!keys.offer(false, 3));
    assert!(keys.offer(true, 3));
    assert!(!keys.offer(true, 3));
    assert!(keys.offer(true, 1));
    assert!(keys.offer(false, 0));
}

#[test]
fn test_load_outcome() {
    assert!(load_outcome(&vec![]));
    assert!(load_outcome(&vec![true, true]));
    assert!(!load_outcome(&vec![true, false, true]));
}
