use soundvis::process::{Processor, MIN_INTERVAL_NANOS};

#[test]
fn new_processor_has_a_window_of_two_to_the_k() {
    let p = Processor::new(8, 44100, 0.0f32);
    assert_eq!(p.sample_count(), 256);
    assert_eq!(p.sample_rate(), 44100);
    assert!(p.samples().iter().all(|v| *v == 0.0));
}

#[test]
fn rate_limited_call_returns_nothing() {
    let mut p = Processor::new(4, 44100, 0i32);
    let chunk: Vec<i32> = (1..=1000).collect();
    assert!(p.process_elapsed(chunk, MIN_INTERVAL_NANOS - 1).is_none());
    // the samples still arrive
    assert_eq!(p.samples(), &(985..=1000).collect::<Vec<i32>>());
}

#[test]
fn due_call_returns_the_window() {
    // 16 ms at 44100 Hz is 705 samples
    let mut p = Processor::new(3, 44100, 0i32);
    let chunk: Vec<i32> = (1..=705).collect();
    let out = p.process_elapsed(chunk, MIN_INTERVAL_NANOS).unwrap();
    assert_eq!(out, (698..=705).collect::<Vec<i32>>());
    // the count starts again
    assert!(p.process_elapsed(vec![1, 2], MIN_INTERVAL_NANOS * 10).is_none());
}

#[test]
fn too_few_fresh_samples_returns_nothing_until_enough_arrived() {
    let mut p = Processor::new(3, 44100, 0i32);
    assert!(p.process_elapsed(vec![1; 400], MIN_INTERVAL_NANOS).is_none());
    assert!(p.process_elapsed(vec![2; 304], MIN_INTERVAL_NANOS).is_none());
    let out = p.process_elapsed(vec![3], MIN_INTERVAL_NANOS).unwrap();
    assert_eq!(out, vec![3, 2, 2, 2, 2, 2, 2, 2]);
}

#[test]
fn rate_limited_samples_count_towards_the_next_run() {
    let mut p = Processor::new(3, 44100, 0i32);
    assert!(p.process_elapsed(vec![1; 705], 0).is_none());
    assert!(p.process_elapsed(vec![2; 1], MIN_INTERVAL_NANOS).is_some());
}

#[test]
fn first_call_only_starts_the_clock() {
    let mut p = Processor::new(3, 44100, 0.0f32);
    assert!(p.process(vec![1.0; 5000]).is_none());
    assert_eq!(p.samples(), &vec![1.0f32; 8]);
}

#[test]
fn process_keeps_window_length() {
    let mut p = Processor::new(5, 44100, 0.0f32);
    for len in [0usize, 10, 32, 33, 3000] {
        let _ = p.process(vec![0.5; len]);
        assert_eq!(p.sample_count(), 32);
        assert_eq!(p.samples().len(), 32);
    }
}
