use soundvis::coordinator::{band_bounds, Coordinator, STEPS_PER_OCTAVE};

#[test]
fn bands_of_the_default_range() {
    // analyzers of windows 2^8 .. 2^13
    assert_eq!(band_bounds(13, 14), (0, 24));
    assert_eq!(band_bounds(12, 14), (24, 36));
    assert_eq!(band_bounds(11, 14), (36, 48));
    assert_eq!(band_bounds(10, 14), (48, 60));
    assert_eq!(band_bounds(9, 14), (60, 72));
    assert_eq!(band_bounds(8, 14), (72, 84));
    let c = Coordinator::new(8, 14, 0.0f32);
    assert_eq!(c.frame_len(), 7 * STEPS_PER_OCTAVE);
    assert_eq!(c.analyzer_count(), 6);
}

#[test]
fn two_analyzers_merge_to_a_concatenation() {
    let mut c = Coordinator::new(12, 14, 0i32);
    assert_eq!(c.frame_len(), 36);
    let small_window: Vec<i32> = (0..36).map(|v| 100 + v).collect();
    let large_window: Vec<i32> = (0..36).map(|v| 200 + v).collect();
    let frame = c.merge(vec![Some(small_window.clone()), Some(large_window.clone())]);
    let mut expected: Vec<i32> = large_window[..24].to_vec();
    expected.extend_from_slice(&small_window[24..]);
    assert_eq!(frame, expected);
}

#[test]
fn first_cycle_without_results_is_zero() {
    let mut c = Coordinator::new(8, 14, 0.0f32);
    let frame = c.merge(vec![None, None, None, None, None, None]);
    assert_eq!(frame, vec![0.0f32; 84]);
}

#[test]
fn missing_analyzer_contributes_zero_then_its_last_result() {
    let mut c = Coordinator::new(12, 14, 0i32);
    let a = vec![1i32; 36];
    let b = vec![2i32; 36];
    // the smaller window has nothing yet
    let f1 = c.merge(vec![None, Some(b.clone())]);
    assert_eq!(&f1[..24], &[2; 24][..]);
    assert_eq!(&f1[24..], &[0; 12][..]);
    // both report
    let f2 = c.merge(vec![Some(a.clone()), Some(b.clone())]);
    assert_eq!(&f2[24..], &[1; 12][..]);
    // the smaller window skips: its band is unchanged; the other one moves on
    let f3 = c.merge(vec![None, Some(vec![3; 36])]);
    assert_eq!(&f3[24..], &f2[24..]);
    assert_eq!(&f3[..24], &[3; 24][..]);
    // both skip: the frame repeats
    let f4 = c.merge(vec![None, None]);
    assert_eq!(f4, f3);
}

#[test]
fn every_analyzer_fills_only_its_band() {
    let mut c = Coordinator::new(8, 14, 0usize);
    let results: Vec<Option<Vec<usize>>> =
        (0..6).map(|i| Some(vec![i + 1; 84])).collect();
    let frame = c.merge(results);
    for j in 0..84 {
        let owner = if j < 24 { 5 } else { 14 - j / 12 - 8 };
        assert_eq!(frame[j], owner + 1);
    }
}
