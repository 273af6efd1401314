use midi_cc_override::audio::interleave;

#[test]
fn interleave_alternates_left_and_right() {
    let left: Vec<f32> = vec![0.1, 0.2, 0.3];
    let right: Vec<f32> = vec![0.4, 0.5, 0.6];
    let out = interleave(&left, &right);
    assert_eq!(out, vec![0.1, 0.4, 0.2, 0.5, 0.3, 0.6]);
}

#[test]
fn interleave_of_empty_buffers_is_empty() {
    let left: Vec<f32> = Vec::new();
    let right: Vec<f32> = Vec::new();
    assert!(interleave(&left, &right).is_empty());
}

#[test]
fn interleave_works_for_any_copy_type() {
    let left: Vec<u32> = vec![1, 3, 5, 7];
    let right: Vec<u32> = vec![2, 4, 6, 8];
    assert_eq!(interleave(&left, &right), vec![1, 2, 3, 4, 5, 6, 7, 8]);
}
