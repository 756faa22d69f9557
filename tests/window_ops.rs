use soundvis::window::{filled, insert_back, insert_newest, push_front, snapshot};

#[test]
fn insert_short_chunk_goes_to_front() {
    let mut w = vec![1, 2, 3, 4, 5];
    insert_newest(&mut w, &[10, 11]);
    assert_eq!(w, vec![10, 11, 1, 2, 3]);
}

#[test]
fn insert_long_chunk_keeps_its_newest_samples() {
    let mut w = vec![0, 0, 0];
    insert_newest(&mut w, &[1, 2, 3, 4, 5, 6, 7]);
    assert_eq!(w, vec![5, 6, 7]);
}

#[test]
fn insert_chunk_of_window_length_replaces_all() {
    let mut w = vec![0, 0, 0];
    insert_newest(&mut w, &[7, 8, 9]);
    assert_eq!(w, vec![7, 8, 9]);
}

#[test]
fn insert_empty_chunk_changes_nothing() {
    let mut w = vec![1, 2, 3];
    insert_newest(&mut w, &[]);
    assert_eq!(w, vec![1, 2, 3]);
}

#[test]
fn window_length_is_constant_for_every_chunk_length() {
    let mut w = vec![0.0f32; 16];
    for len in [0usize, 1, 5, 15, 16, 17, 100, 3] {
        let chunk: Vec<f32> = (0..len).map(|v| v as f32).collect();
        insert_newest(&mut w, &chunk);
        assert_eq!(w.len(), 16);
    }
}

#[test]
fn insert_back_shifts_left() {
    let mut w = vec![1, 2, 3, 4, 5];
    insert_back(&mut w, &[8, 9]);
    assert_eq!(w, vec![3, 4, 5, 8, 9]);
}

#[test]
fn push_front_drops_the_oldest() {
    let mut w = vec![1, 2, 3];
    push_front(&mut w, 9);
    assert_eq!(w, vec![9, 1, 2]);
    let mut one = vec![4];
    push_front(&mut one, 5);
    assert_eq!(one, vec![5]);
}

#[test]
fn filled_and_snapshot() {
    let w = filled(7u8, 4);
    assert_eq!(w, vec![7, 7, 7, 7]);
    assert_eq!(snapshot(&w), w);
    assert!(filled(1u8, 0).is_empty());
}
