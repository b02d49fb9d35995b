use bytepack::Packed;
use bytepack::Record;

#[test]
fn switch_endianness_matches_byte_swap() {
    let mut a = 0x1234u16;
    a.switch_endianness();
    assert_eq!(a, 0x3412u16);

    let mut b = 0x12345678u32;
    b.switch_endianness();
    assert_eq!(b, 0x78563412u32);

    let mut c = 0x0102030405060708u64;
    c.switch_endianness();
    assert_eq!(c, 0x0807060504030201u64);

    let mut d = -2i16;
    d.switch_endianness();
    assert_eq!(d, (-2i16).swap_bytes());

    let mut e = -123456789i64;
    e.switch_endianness();
    assert_eq!(e, (-123456789i64).swap_bytes());

    let mut f = -77i32;
    f.switch_endianness();
    assert_eq!(f, (-77i32).swap_bytes());
}

#[test]
fn switch_endianness_single_byte_is_noop() {
    let mut a = true;
    a.switch_endianness();
    assert_eq!(a, true);

    let mut b = 200u8;
    b.switch_endianness();
    assert_eq!(b, 200u8);

    let mut c = -100i8;
    c.switch_endianness();
    assert_eq!(c, -100i8);
}

#[test]
fn switch_endianness_twice_is_identity() {
    let mut a = 0xbeefu16;
    a.switch_endianness();
    a.switch_endianness();
    assert_eq!(a, 0xbeefu16);

    let mut b = -123456789i64;
    b.switch_endianness();
    b.switch_endianness();
    assert_eq!(b, -123456789i64);

    let mut c = Record { a: 666u16, b: 3.14f32.to_bits(), c: -42i8 };
    c.switch_endianness();
    c.switch_endianness();
    assert!(c == Record { a: 666u16, b: 3.14f32.to_bits(), c: -42i8 });

    let mut d: [u32; 4] = [1, 2, 3, 0xaabbccdd];
    d.switch_endianness();
    d.switch_endianness();
    assert_eq!(d, [1, 2, 3, 0xaabbccdd]);
}

#[test]
fn switch_endianness_of_array_is_elementwise() {
    let mut a: [u16; 3] = [0x1234, 0x5678, 0x9abc];
    a.switch_endianness();
    assert_eq!(a, [0x3412u16, 0x7856u16, 0xbc9au16]);
}

#[test]
fn switch_endianness_of_record_is_fieldwise() {
    let mut r = Record { a: 0x1234u16, b: 0x12345678u32, c: -42i8 };
    r.switch_endianness();
    assert_eq!(r.a, 0x3412u16);
    assert_eq!(r.b, 0x78563412u32);
    assert_eq!(r.c, -42i8);
}
