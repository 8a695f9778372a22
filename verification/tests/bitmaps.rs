use avro_columnar::bitmap::Bitmap;

#[test]
fn zeroed_bitmap_has_no_bit_set() {
    let bitmap = Bitmap::zeroed(10);
    assert_eq!(bitmap.len(), 10);
    assert_eq!(bitmap.bytes(), &vec![0u8, 0u8]);
    for i in 0..10 {
        assert!(!bitmap.get(i));
    }
}

#[test]
fn bytes_are_as_many_as_hold_the_rows() {
    assert_eq!(Bitmap::zeroed(0).bytes().len(), 0);
    assert_eq!(Bitmap::zeroed(1).bytes().len(), 1);
    assert_eq!(Bitmap::zeroed(8).bytes().len(), 1);
    assert_eq!(Bitmap::zeroed(9).bytes().len(), 2);
    assert_eq!(Bitmap::zeroed(64).bytes().len(), 8);
    assert_eq!(Bitmap::zeroed(65).bytes().len(), 9);
}

#[test]
fn set_sets_one_bit_least_significant_first() {
    let mut bitmap = Bitmap::zeroed(12);
    bitmap.set(0);
    assert_eq!(bitmap.bytes(), &vec![0b0000_0001u8, 0u8]);
    bitmap.set(3);
    assert_eq!(bitmap.bytes(), &vec![0b0000_1001u8, 0u8]);
    bitmap.set(9);
    assert_eq!(bitmap.bytes(), &vec![0b0000_1001u8, 0b0000_0010u8]);
    bitmap.set(3);
    assert_eq!(bitmap.bytes(), &vec![0b0000_1001u8, 0b0000_0010u8]);
    let set: Vec<usize> = (0..12).filter(|i| bitmap.get(*i)).collect();
    assert_eq!(set, vec![0, 3, 9]);
}

#[test]
fn bitmap_reads_as_an_arrow_validity_buffer() {
    let mut bitmap = Bitmap::zeroed(20);
    for i in [1usize, 2, 8, 15, 19] {
        bitmap.set(i);
    }
    let buffer = arrow::buffer::BooleanBuffer::new(arrow::buffer::Buffer::from(bitmap.bytes().clone()), 0, 20);
    for i in 0..20 {
        assert_eq!(buffer.value(i), bitmap.get(i));
        assert_eq!(buffer.value(i), [1usize, 2, 8, 15, 19].contains(&i));
    }
}
