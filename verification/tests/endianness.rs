use bytepack::BEPacker;
use bytepack::BEUnpacker;
use bytepack::ByteCursor;
use bytepack::LEPacker;
use bytepack::LEUnpacker;
use bytepack::Packed;
use bytepack::Packer;
use bytepack::Record;
use bytepack::Unpacker;

fn host_is_little() -> bool {
    1u16.to_ne_bytes()[0] == 1
}

#[test]
fn le_wire_bytes_exact() {
    let mut buffer = ByteCursor::new(Vec::new());
    LEPacker::pack(&mut buffer, 0x0102u16).unwrap();
    LEPacker::pack(&mut buffer, 0x01020304u32).unwrap();
    assert_eq!(buffer.into_inner(), vec![2u8, 1u8, 4u8, 3u8, 2u8, 1u8]);
}

#[test]
fn be_wire_bytes_exact() {
    let mut buffer = ByteCursor::new(Vec::new());
    BEPacker::pack(&mut buffer, 0x0102u16).unwrap();
    BEPacker::pack(&mut buffer, 0x0102030405060708u64).unwrap();
    assert_eq!(
        buffer.into_inner(),
        vec![1u8, 2u8, 1u8, 2u8, 3u8, 4u8, 5u8, 6u8, 7u8, 8u8]
    );
}

#[test]
fn le_roundtrip() {
    let mut buffer = ByteCursor::new(Vec::new());
    LEPacker::pack(&mut buffer, 0xdeadbeefu32).unwrap();
    LEPacker::pack(&mut buffer, -12345i16).unwrap();
    buffer.set_position(0);
    assert_eq!(LEUnpacker::unpack::<u32>(&mut buffer).unwrap(), 0xdeadbeefu32);
    assert_eq!(LEUnpacker::unpack::<i16>(&mut buffer).unwrap(), -12345i16);
}

#[test]
fn be_roundtrip() {
    let mut buffer = ByteCursor::new(Vec::new());
    BEPacker::pack(&mut buffer, 0xdeadbeefu32).unwrap();
    BEPacker::pack(&mut buffer, -12345i16).unwrap();
    buffer.set_position(0);
    assert_eq!(BEUnpacker::unpack::<u32>(&mut buffer).unwrap(), 0xdeadbeefu32);
    assert_eq!(BEUnpacker::unpack::<i16>(&mut buffer).unwrap(), -12345i16);
}

#[test]
fn le_all_roundtrip() {
    let mut buffer = ByteCursor::new(Vec::new());
    let case = [1u32, 0x02030405u32, 0xffffffffu32];
    let mut result = vec![0u32; 3];
    LEPacker::pack_all(&mut buffer, &case).unwrap();
    buffer.set_position(0);
    LEUnpacker::unpack_exact(&mut buffer, &mut result).unwrap();
    assert!(case[..] == result[..]);
}

#[test]
fn be_all_roundtrip() {
    let mut buffer = ByteCursor::new(Vec::new());
    let case = [1u32, 0x02030405u32, 0xffffffffu32];
    let mut result = Vec::<u32>::new();
    BEPacker::pack_all(&mut buffer, &case).unwrap();
    buffer.set_position(0);
    assert_eq!(BEUnpacker::unpack_to_end(&mut buffer, &mut result).unwrap(), 3);
    assert!(case[..] == result[..]);
}

#[test]
fn forced_unpack_of_native_data() {
    // Packing the 64-bit values 0..=7 natively and then forcing a
    // big-endian unpack yields the byte-swapped values on a little-endian
    // host (numerically different except for 0), and the original values on
    // a big-endian host.
    let mut buffer = ByteCursor::new(Vec::new());
    let case = [0u64, 1u64, 2u64, 3u64, 4u64, 5u64, 6u64, 7u64];
    let mut result = vec![0u64; 8];
    Packer::pack_all(&mut buffer, &case).unwrap();
    buffer.set_position(0);
    BEUnpacker::unpack_exact(&mut buffer, &mut result).unwrap();
    for i in 0..8 {
        if host_is_little() {
            assert_eq!(result[i], case[i].swap_bytes());
        } else {
            assert_eq!(result[i], case[i]);
        }
    }
    assert_eq!(result[0], 0u64);
    if host_is_little() {
        assert_eq!(result[1], 1u64 << 56);
    }
}

#[test]
fn forced_unpack_matching_host_is_identity() {
    let mut buffer = ByteCursor::new(Vec::new());
    let case = [0u64, 1u64, 2u64, 3u64, 4u64, 5u64, 6u64, 7u64];
    let mut result = vec![0u64; 8];
    Packer::pack_all(&mut buffer, &case).unwrap();
    buffer.set_position(0);
    if host_is_little() {
        LEUnpacker::unpack_exact(&mut buffer, &mut result).unwrap();
    } else {
        BEUnpacker::unpack_exact(&mut buffer, &mut result).unwrap();
    }
    assert!(case[..] == result[..]);
}

#[test]
fn record_forced_endianness() {
    // A record packed and unpacked under one forced order comes back whole;
    // unpacked under the native order instead, each field is independently
    // byte-reversed on a host whose order differs, and one more reversal
    // recovers the original.
    let case = Record { a: 666u16, b: 3.14f32.to_bits(), c: -42i8 };

    let mut buffer = ByteCursor::new(Vec::new());
    BEPacker::pack(&mut buffer, case).unwrap();
    buffer.set_position(0);
    let same: Record = BEUnpacker::unpack(&mut buffer).unwrap();
    assert!(same == case);

    buffer.set_position(0);
    let mut crossed: Record = Unpacker::unpack(&mut buffer).unwrap();
    if host_is_little() {
        assert_eq!(crossed.a, case.a.swap_bytes());
        assert_eq!(crossed.b, case.b.swap_bytes());
        assert_eq!(crossed.c, case.c);
        crossed.switch_endianness();
    }
    assert!(crossed == case);
}

#[test]
fn le_to_end_roundtrip() {
    let mut buffer = ByteCursor::new(Vec::new());
    let case = [0x1122334455667788u64, 0x99aabbccddeeff00u64];
    let mut result = Vec::<u64>::new();
    LEPacker::pack_all(&mut buffer, &case).unwrap();
    buffer.set_position(0);
    assert_eq!(LEUnpacker::unpack_to_end(&mut buffer, &mut result).unwrap(), 2);
    assert!(case[..] == result[..]);
}
