use bytepack::ByteCursor;
use bytepack::Packed;
use bytepack::Packer;
use bytepack::Record;
use bytepack::Unpacker;

#[test]
fn u64_exact() {
    let mut buffer = ByteCursor::new(vec![0u8, 64]);
    let case = [0u64, 1u64, 2u64, 3u64, 4u64, 5u64, 6u64, 7u64];
    let mut result = vec![0u64; 8];
    buffer.pack_all(&case).unwrap();
    buffer.set_position(0);
    buffer.unpack_exact(&mut result).unwrap();
    assert!(case[..] == result[..]);
}

#[test]
fn u64_to_end() {
    let mut buffer = ByteCursor::new(vec![0u8, 64]);
    let case = [0u64, 1u64, 2u64, 3u64, 4u64, 5u64, 6u64, 7u64];
    let mut result = Vec::<u64>::new();
    buffer.pack_all(&case).unwrap();
    buffer.set_position(0);
    buffer.unpack_to_end(&mut result).unwrap();
    assert!(case[..] == result[..]);
}

#[test]
fn f64_exact() {
    let mut buffer = ByteCursor::new(vec![0u8, 64]);
    let case = [0.0f64, 1.0f64, 2.0f64, 3.0f64, 4.0f64, 5.0f64, 6.0f64, 7.0f64];
    let case_bits: Vec<u64> = case.iter().map(|x| x.to_bits()).collect();
    let mut result_bits = vec![0u64; 8];
    buffer.pack_all(&case_bits[..]).unwrap();
    buffer.set_position(0);
    buffer.unpack_exact(&mut result_bits).unwrap();
    let result: Vec<f64> = result_bits.iter().map(|x| f64::from_bits(*x)).collect();
    assert!(case[..] == result[..]);
}

#[test]
fn f64_to_end() {
    let mut buffer = ByteCursor::new(vec![0u8, 64]);
    let case = [0.0f64, 1.0f64, 2.0f64, 3.0f64, 4.0f64, 5.0f64, 6.0f64, 7.0f64];
    let case_bits: Vec<u64> = case.iter().map(|x| x.to_bits()).collect();
    let mut result_bits = Vec::<u64>::new();
    buffer.pack_all(&case_bits[..]).unwrap();
    buffer.set_position(0);
    buffer.unpack_to_end(&mut result_bits).unwrap();
    let result: Vec<f64> = result_bits.iter().map(|x| f64::from_bits(*x)).collect();
    assert!(case[..] == result[..]);
}

#[test]
fn multiple() {
    let mut buffer = ByteCursor::new(vec![0u8, 128]);
    buffer.pack(1u8).unwrap();
    buffer.pack(-2i16).unwrap();
    buffer.pack(3u32).unwrap();
    buffer.pack(-4i64).unwrap();
    buffer.pack(5.0f32.to_bits()).unwrap();
    buffer.pack((-6.0f64).to_bits()).unwrap();
    buffer.set_position(0);
    assert!(buffer.unpack::<u8>().unwrap() == 1u8);
    assert!(buffer.unpack::<i16>().unwrap() == -2i16);
    assert!(buffer.unpack::<u32>().unwrap() == 3u32);
    assert!(buffer.unpack::<i64>().unwrap() == -4i64);
    assert!(f32::from_bits(buffer.unpack::<u32>().unwrap()) == 5.0f32);
    assert!(f64::from_bits(buffer.unpack::<u64>().unwrap()) == -6.0f64);
}

#[test]
fn struct_unpack() {
    let mut buffer = ByteCursor::new(vec![0u8, 128]);
    buffer.pack(Record { a: 666u16, b: 3.14f32.to_bits(), c: -42i8 }).unwrap();
    buffer.set_position(0);
    let foo: Record = buffer.unpack().unwrap();
    assert!(foo.a == 666u16);
    assert!(f32::from_bits(foo.b) == 3.14f32);
    assert!(foo.c == -42i8);
}

#[test]
fn bool_and_bytes_roundtrip() {
    let mut buffer = ByteCursor::new(Vec::new());
    buffer.pack(true).unwrap();
    buffer.pack(false).unwrap();
    buffer.pack(200u8).unwrap();
    buffer.pack(-100i8).unwrap();
    buffer.set_position(0);
    assert_eq!(buffer.unpack::<bool>().unwrap(), true);
    assert_eq!(buffer.unpack::<bool>().unwrap(), false);
    assert_eq!(buffer.unpack::<u8>().unwrap(), 200u8);
    assert_eq!(buffer.unpack::<i8>().unwrap(), -100i8);
}

#[test]
fn array_value_roundtrip() {
    let mut buffer = ByteCursor::new(Vec::new());
    let case: [u16; 3] = [10, 2000, 65535];
    buffer.pack(case).unwrap();
    buffer.set_position(0);
    let result: [u16; 3] = buffer.unpack().unwrap();
    assert_eq!(case, result);
}

#[test]
fn cursor_overwrites_from_position() {
    let mut buffer = ByteCursor::new(vec![9u8, 9u8, 9u8, 9u8]);
    buffer.set_position(1);
    buffer.pack(0u8).unwrap();
    assert_eq!(buffer.position(), 2);
    assert_eq!(buffer.into_inner(), vec![9u8, 0u8, 9u8, 9u8]);
}
