use gdpatch::{Error, ReadableMarshalBuffer, WritableMarshalBuffer};

#[test]
fn uint32_and_uint64_round_trip() {
    let mut w = WritableMarshalBuffer::new(false);
    w.encode_uint32(0xdead_beef);
    w.encode_uint64(0x0102_0304_0506_0708);
    assert_eq!(w.len(), 12);
    let bytes = w.into_inner();
    assert_eq!(&bytes[..4], &[0xef, 0xbe, 0xad, 0xde]);
    let mut r = ReadableMarshalBuffer::new(&bytes, false);
    assert_eq!(r.decode_uint32().unwrap(), 0xdead_beef);
    assert_eq!(r.decode_uint64().unwrap(), 0x0102_0304_0506_0708);
    assert_eq!(r.remaining(), 0);
}

#[test]
fn short_read_resets_to_mark() {
    let bytes = [1u8, 0, 0, 0, 2, 0];
    let mut r = ReadableMarshalBuffer::new(&bytes, false);
    assert_eq!(r.decode_uint32().unwrap(), 1);
    r.mark();
    r.advance(1);
    assert!(matches!(r.decode_uint32(), Err(Error::TooShort)));
    assert_eq!(r.offset(), 4);
}

#[test]
fn short_read_without_marking_keeps_offset() {
    let bytes = [1u8, 0, 0, 0, 2, 0];
    let mut r = ReadableMarshalBuffer::new(&bytes, true);
    r.advance(3);
    assert!(matches!(r.decode_uint32(), Err(Error::TooShort)));
    assert_eq!(r.offset(), 3);
}

#[test]
fn decode_slice_and_buffer() {
    let bytes = [9u8, 8, 7, 6, 5];
    let mut r = ReadableMarshalBuffer::new(&bytes, false);
    assert_eq!(r.decode_slice(2).unwrap(), &[9, 8]);
    assert_eq!(r.buffer(), &[7, 6, 5]);
    assert_eq!(r.full_buffer(), &bytes);
    assert!(r.ensure_remaining(3).is_ok());
    assert!(matches!(r.ensure_remaining(4), Err(Error::TooShort)));
    // A failed read goes back to the mark, here the start.
    assert_eq!(r.offset(), 0);
    assert!(matches!(r.decode_slice(6), Err(Error::TooShort)));
    assert_eq!(r.decode_slice(5).unwrap(), &bytes);
}

#[test]
fn writable_buffer_basics() {
    let mut w = WritableMarshalBuffer::new(true);
    assert!(w.is_empty());
    assert!(w.write_reals_as_64_bit());
    w.push(7);
    w.extend_from_slice(&[1, 2]);
    w.buffer().push(3);
    let copy = WritableMarshalBuffer::new_from(&w);
    assert!(copy.is_empty());
    assert!(copy.write_reals_as_64_bit());
    assert_eq!(w.into_inner(), vec![7, 1, 2, 3]);
}
