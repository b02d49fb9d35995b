use bytepack::ByteCursor;
use bytepack::Packer;
use bytepack::StreamError;
use bytepack::Unpacker;

#[test]
fn unpack_short_read_fails_clean() {
    let mut buffer = ByteCursor::new(vec![1u8, 2u8, 3u8]);
    let r = buffer.unpack::<u32>();
    assert_eq!(r, Err(StreamError::UnexpectedEof));
    // The failed read consumed nothing: the three bytes are still there.
    assert_eq!(buffer.position(), 0);
    assert_eq!(buffer.unpack::<u8>().unwrap(), 1u8);
}

#[test]
fn unpack_exact_short_read_leaves_buffer() {
    let mut buffer = ByteCursor::new(vec![1u8, 2u8, 3u8, 4u8, 5u8]);
    let mut result = vec![7u32, 8u32];
    let r = buffer.unpack_exact(&mut result);
    assert_eq!(r, Err(StreamError::UnexpectedEof));
    assert_eq!(result, vec![7u32, 8u32]);
    assert_eq!(buffer.position(), 0);
}

#[test]
fn unpack_to_end_counts_whole_elements() {
    let mut buffer = ByteCursor::new(Vec::new());
    buffer.pack(1u32).unwrap();
    buffer.pack(2u32).unwrap();
    buffer.pack(3u32).unwrap();
    buffer.set_position(0);
    let mut result = Vec::<u32>::new();
    assert_eq!(buffer.unpack_to_end(&mut result).unwrap(), 3);
    assert_eq!(result, vec![1u32, 2u32, 3u32]);
    // A second read from the exhausted stream appends nothing.
    assert_eq!(buffer.unpack_to_end(&mut result).unwrap(), 0);
    assert_eq!(result, vec![1u32, 2u32, 3u32]);
}

#[test]
fn unpack_to_end_appends_after_existing() {
    let mut buffer = ByteCursor::new(Vec::new());
    buffer.pack(5u16).unwrap();
    buffer.pack(6u16).unwrap();
    buffer.set_position(0);
    let mut result = vec![4u16];
    assert_eq!(buffer.unpack_to_end(&mut result).unwrap(), 2);
    assert_eq!(result, vec![4u16, 5u16, 6u16]);
}

#[test]
fn unpack_to_end_misaligned_restores_buffer() {
    // Ten bytes are two whole 32-bit elements plus two trailing bytes: the
    // read fails, reports the byte count and the element size, and the
    // buffer keeps exactly its old elements.
    let mut buffer = ByteCursor::new(vec![0u8; 10]);
    let mut result = vec![42u32];
    let r = buffer.unpack_to_end(&mut result);
    assert_eq!(r, Err(StreamError::Misaligned { bytes: 10, elem_size: 4 }));
    assert_eq!(result, vec![42u32]);
}

#[test]
fn unpack_to_end_empty_stream() {
    let mut buffer = ByteCursor::new(Vec::new());
    let mut result = Vec::<u64>::new();
    assert_eq!(buffer.unpack_to_end(&mut result).unwrap(), 0);
    assert_eq!(result, Vec::<u64>::new());
}

#[test]
fn set_position_clamps_to_end() {
    let mut buffer = ByteCursor::new(vec![1u8, 2u8]);
    buffer.set_position(100);
    assert_eq!(buffer.position(), 2);
}

#[test]
fn pack_grows_stream() {
    let mut buffer = ByteCursor::new(Vec::new());
    buffer.pack(0x01020304u32).unwrap();
    assert_eq!(buffer.position(), 4);
    let inner = buffer.into_inner();
    assert_eq!(inner.len(), 4);
}
