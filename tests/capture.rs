use jammin::capture::CaptureBuffer;

#[test]
fn writes_fill_then_slide() {
    let mut b: CaptureBuffer<i32> = CaptureBuffer::new(4, 0);
    b.copy_to_buffer(&[1, 2, 3]);
    assert_eq!(b.captured(), vec![1, 2, 3]);
    assert_eq!(b.position(), 3);
    b.copy_to_buffer(&[4, 5]);
    assert_eq!(b.captured(), vec![2, 3, 4, 5]);
    assert_eq!(b.position(), 4);
    b.copy_to_buffer(&[6]);
    assert_eq!(b.captured(), vec![3, 4, 5, 6]);
    b.copy_to_buffer(&[7, 8, 9, 10, 11]);
    assert_eq!(b.captured(), vec![8, 9, 10, 11]);
    assert_eq!(b.position(), 4);
}

#[test]
fn exact_fit_does_not_slide() {
    let mut b: CaptureBuffer<i32> = CaptureBuffer::new(3, 0);
    b.copy_to_buffer(&[1]);
    b.copy_to_buffer(&[2, 3]);
    assert_eq!(b.captured(), vec![1, 2, 3]);
    b.copy_to_buffer(&[]);
    assert_eq!(b.captured(), vec![1, 2, 3]);
}

#[test]
fn copy_range_takes_the_middle() {
    let mut b: CaptureBuffer<i32> = CaptureBuffer::new(5, 0);
    b.copy_range(&[1, 2, 3, 4, 5], 1, 4);
    assert_eq!(b.captured(), vec![2, 3, 4]);
}

#[test]
fn flush_hands_out_and_silences() {
    let mut b: CaptureBuffer<f32> = CaptureBuffer::new(4, 0.0);
    b.copy_to_buffer(&[0.5, 0.25, -1.0, 2.0, 3.0]);
    let out = b.flush();
    assert_eq!(out, vec![0.25, -1.0, 2.0, 3.0]);
    assert_eq!(b.position(), 0);
    assert!(b.captured().is_empty());
    assert_eq!(b.slots_of(), &[0.0f32; 4][..]);
    assert_eq!(b.capacity_of(), 4);
}

#[test]
fn zero_capacity_keeps_nothing() {
    let mut b: CaptureBuffer<i32> = CaptureBuffer::new(0, 0);
    b.copy_to_buffer(&[1, 2]);
    assert_eq!(b.position(), 0);
    assert!(b.flush().is_empty());
}
