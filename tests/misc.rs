use soundvis::beat::SimpleBeatDetector;
use soundvis::bench::Benchmark;
use soundvis::bins::{nyquist_bins, pick_bins};
use soundvis::strip::repeat_to_length;
use soundvis::workers::{worker_count, workers_for};

#[test]
fn bins_above_half_the_window_are_dropped() {
    let candidates = vec![3usize, 10, 64, 127, 128, 200, 5];
    assert_eq!(nyquist_bins(&candidates, 256), vec![3, 10, 64, 127, 5]);
    assert_eq!(nyquist_bins(&candidates, 1), Vec::<usize>::new());
}

#[test]
fn picking_bins_reads_the_spectrum_at_each_index() {
    let spectrum = [10.0f32, 11.0, 12.0, 13.0, 14.0];
    assert_eq!(pick_bins(&spectrum, &[4, 0, 2, 2]), vec![14.0, 10.0, 12.0, 12.0]);
}

#[test]
fn strip_is_covered_by_whole_copies() {
    let frame: Vec<u32> = (0..84).collect();
    let strip = repeat_to_length(&frame, 2200);
    assert_eq!(strip.len(), 2268);
    assert_eq!(strip[84], 0);
    assert_eq!(strip[2267], 83);
    assert_eq!(repeat_to_length(&frame, 0).len(), 0);
    assert_eq!(repeat_to_length(&frame, 84).len(), 84);
    assert_eq!(repeat_to_length(&[1, 2], 3), vec![1, 2, 1, 2]);
}

#[test]
fn workers_leave_one_core_free() {
    assert_eq!(workers_for(8), 7);
    assert_eq!(workers_for(2), 1);
    assert_eq!(workers_for(1), 1);
    assert_eq!(workers_for(0), 1);
    assert!(worker_count() >= 1);
}

#[test]
fn benchmark_reports_the_millisecond_part() {
    let mut b = Benchmark::new();
    assert_eq!(b.avg(), 0);
    b.record(1_500_000);
    assert_eq!(b.avg(), 1);
    b.record(2_003_900_000);
    assert_eq!(b.avg(), 3);
    b.measure();
    assert!(b.avg() < 1000);
}

#[test]
fn beat_window_is_a_fiftieth_of_a_second() {
    let d = SimpleBeatDetector::new(44100, 0.0f32, 1.4);
    assert_eq!(d.needed_samples(), 882);
    assert_eq!(d.samples().len(), 882);
    assert_eq!(d.power_history(), &vec![0.0f32; 50]);
    assert_eq!(d.threshold(), 1.4);
}

#[test]
fn beat_analysis_is_due_once_a_window_arrived() {
    let mut d = SimpleBeatDetector::new(500, 0i32, 2);
    assert_eq!(d.needed_samples(), 10);
    assert!(!d.feed(&[1, 2, 3]));
    assert!(!d.feed(&[4, 5, 6, 7, 8, 9]));
    assert!(d.feed(&[10]));
    assert_eq!(d.samples(), &vec![10, 4, 5, 6, 7, 8, 9, 1, 2, 3]);
    // an overlong chunk counts as one window
    let long: Vec<i32> = (0..25).collect();
    assert!(d.feed(&long));
    assert_eq!(d.samples(), &(15..25).collect::<Vec<i32>>());
}

#[test]
fn beat_history_keeps_the_latest_powers() {
    let mut d = SimpleBeatDetector::new(500, 0i32, 2);
    d.record_power(7);
    d.record_power(9);
    let h = d.power_history();
    assert_eq!(h.len(), 50);
    assert_eq!(h[0], 9);
    assert_eq!(h[1], 7);
    assert_eq!(h[2], 0);
}
