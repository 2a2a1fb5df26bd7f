use wadup_core::shared_buffer::SharedBuffer;

#[test]
fn test_from_vec() {
    let data = vec![1, 2, 3, 4, 5];
    let buffer = SharedBuffer::from_vec(data);
    assert_eq!(buffer.as_slice(), &[1, 2, 3, 4, 5]);
    assert_eq!(buffer.len(), 5);
    assert!(!buffer.is_empty());
}

#[test]
fn test_zero_copy_slice() {
    let buffer = SharedBuffer::from_vec(vec![0, 1, 2, 3, 4, 5, 6, 7, 8, 9]);

    let slice1 = buffer.slice(2..7);
    assert_eq!(slice1.as_slice(), &[2, 3, 4, 5, 6]);

    let slice2 = slice1.slice(1..4);
    assert_eq!(slice2.as_slice(), &[3, 4, 5]);

    assert_eq!(buffer.as_slice(), &[0, 1, 2, 3, 4, 5, 6, 7, 8, 9]);
}

#[test]
fn test_clone_is_cheap() {
    let buffer1 = SharedBuffer::from_vec(vec![1, 2, 3, 4, 5]);
    let buffer2 = buffer1.clone();

    assert_eq!(buffer1.as_slice(), buffer2.as_slice());

    let slice = buffer1.slice(1..3);
    assert_eq!(slice.as_slice(), &[2, 3]);
    assert_eq!(buffer2.as_slice(), &[1, 2, 3, 4, 5]);
}

#[test]
fn slice_of_slice_is_slice_at_shifted_range() {
    let buffer = SharedBuffer::from_vec((0u8..100).collect());
    let nested = buffer.slice(10..60).slice(5..20);
    let direct = buffer.slice(15..30);
    assert_eq!(nested.as_slice(), direct.as_slice());
    assert_eq!(nested.len(), 15);
}

#[test]
fn empty_slice_at_the_end() {
    let buffer = SharedBuffer::from_vec(vec![7, 8, 9]);
    let empty = buffer.slice(3..3);
    assert!(empty.is_empty());
    assert_eq!(empty.len(), 0);
    assert_eq!(buffer.to_bytes().len(), 3);
    assert_eq!(&buffer.clone_bytes()[..], &[7, 8, 9]);
}
