use whispering::buffer::RollingBuffer;

#[test]
fn keeps_only_capacity_and_tracks_absolute_samples() {
    let mut buffer = RollingBuffer::<f32>::new(4);
    buffer.push(&[1.0, 2.0, 3.0]);
    buffer.push(&[4.0, 5.0, 6.0]);

    assert_eq!(buffer.start_sample(), 2);
    assert_eq!(buffer.next_sample(), 6);
    assert_eq!(buffer.slice(0, 6), vec![3.0, 4.0, 5.0, 6.0]);
    assert_eq!(buffer.slice(3, 5), vec![4.0, 5.0]);
}

#[test]
fn slice_clamps_to_what_is_retained() {
    let mut buffer = RollingBuffer::<i16>::new(3);
    buffer.push(&[10, 20, 30, 40, 50]);
    assert_eq!(buffer.slice(0, 100), vec![30, 40, 50]);
    assert_eq!(buffer.slice(4, 2), Vec::<i16>::new());
    assert_eq!(buffer.slice(100, 200), Vec::<i16>::new());
}

#[test]
fn clear_keeps_numbering() {
    let mut buffer = RollingBuffer::<i16>::new(8);
    buffer.push(&[1, 2, 3]);
    buffer.clear();
    assert_eq!(buffer.start_sample(), 3);
    assert_eq!(buffer.next_sample(), 3);
    assert_eq!(buffer.slice(0, 3), Vec::<i16>::new());
    buffer.push(&[4]);
    assert_eq!(buffer.slice(0, 10), vec![4]);
    assert_eq!(buffer.start_sample(), 3);
}
