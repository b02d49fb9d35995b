//! The intrinsically capability-marked scalar types: booleans and the
//! fixed-width integers.  Multi-byte integers have one byte per eight bits,
//! least significant first under [`ByteOrder::Little`] and most significant
//! first under [`ByteOrder::Big`]; signed integers travel as their
//! two's-complement bit pattern.

use vstd::prelude::*;
use crate::order::ByteOrder;
use crate::packed::Packed;

verus! {

/// The little-endian bytes of a 16-bit word.
pub open spec fn u16_le(x: u16) -> Seq<u8> {
    seq![(x & 0xff) as u8, ((x >> 8) & 0xff) as u8]
}

/// The bytes of a 16-bit word under the order `o`.
pub open spec fn u16_rep(x: u16, o: ByteOrder) -> Seq<u8> {
    match o {
        ByteOrder::Little => u16_le(x),
        ByteOrder::Big => u16_le(x).reverse(),
    }
}

/// The 16-bit word with its two bytes exchanged.
pub open spec fn u16_swap(x: u16) -> u16 {
    (x << 8) | (x >> 8)
}

proof fn lemma_u16_rep_len(x: u16, o: ByteOrder)
    ensures
        u16_rep(x, o).len() == 2,
{
}

proof fn lemma_u16_inj(a: u16, b: u16, o: ByteOrder)
    ensures
        u16_rep(a, o) == u16_rep(b, o) ==> a == b,
{
    if u16_rep(a, o) == u16_rep(b, o) {
        assert(u16_rep(a, o)[0] == u16_rep(b, o)[0]);
        assert(u16_rep(a, o)[1] == u16_rep(b, o)[1]);
        assert(((a & 0xff) as u8 == (b & 0xff) as u8 && ((a >> 8) & 0xff) as u8
            == ((b >> 8) & 0xff) as u8) ==> a == b) by (bit_vector);
    }
}

proof fn lemma_u16_swap_rep(x: u16, o: ByteOrder)
    ensures
        u16_rep(u16_swap(x), o) == u16_rep(x, o.flip()),
{
    assert((((x << 8) | (x >> 8)) & 0xff) == (x >> 8) & 0xff
        && ((((x << 8) | (x >> 8)) >> 8) & 0xff) == x & 0xff) by (bit_vector);
    assert(u16_rep(u16_swap(x), o) =~= u16_rep(x, o.flip()));
}

/// Appends the bytes of `x` under the order `o`.
pub fn push_u16(x: u16, o: ByteOrder, out: &mut Vec<u8>)
    ensures
        final(out)@ == old(out)@ + u16_rep(x, o),
{
    proof {
        assert(x & 0xff < 256 && (x >> 8) & 0xff < 256) by (bit_vector);
    }
    let lo = (x & 0xff) as u8;
    let hi = ((x >> 8) & 0xff) as u8;
    match o {
        ByteOrder::Little => {
            out.push(lo);
            out.push(hi);
        },
        ByteOrder::Big => {
            out.push(hi);
            out.push(lo);
        },
    }
    proof {
        assert(out@ =~= old(out)@ + u16_rep(x, o));
    }
}

/// Reads a 16-bit word from its two bytes under the order `o`.
pub fn read_u16(bytes: &[u8], o: ByteOrder) -> (r: u16)
    requires
        bytes@.len() == 2,
    ensures
        u16_rep(r, o) == bytes@,
{
    let b0 = bytes[0];
    let b1 = bytes[1];
    let (lo, hi) = match o {
        ByteOrder::Little => (b0, b1),
        ByteOrder::Big => (b1, b0),
    };
    let r = (lo as u16) | ((hi as u16) << 8);
    proof {
        let lo16 = lo as u16;
        let hi16 = hi as u16;
        assert(lo16 < 256 && hi16 < 256 ==> ((lo16 | (hi16 << 8)) & 0xff) == lo16
            && (((lo16 | (hi16 << 8)) >> 8) & 0xff) == hi16) by (bit_vector);
        assert(u16_rep(r, o) =~= bytes@);
    }
    r
}

impl Packed for bool {
    open spec fn size() -> nat {
        1
    }

    open spec fn rep(self, o: ByteOrder) -> Seq<u8> {
        seq![if self { 1u8 } else { 0u8 }]
    }

    open spec fn valid_rep(bytes: Seq<u8>) -> bool {
        bytes.len() == 1 && (bytes[0] == 0 || bytes[0] == 1)
    }

    proof fn lemma_rep_len(self, o: ByteOrder) {
    }

    proof fn lemma_rep_valid(self, o: ByteOrder) {
    }

    proof fn lemma_rep_injective(a: Self, b: Self, o: ByteOrder) {
        if a.rep(o) == b.rep(o) {
            assert(a.rep(o)[0] == b.rep(o)[0]);
        }
    }

    fn byte_size() -> usize {
        1
    }

    fn encode(&self, o: ByteOrder, out: &mut Vec<u8>) {
        out.push(if *self { 1 } else { 0 });
        proof {
            assert(out@ =~= old(out)@ + self.rep(o));
        }
    }

    fn decode(bytes: &[u8], o: ByteOrder) -> (r: Self) {
        bytes[0] != 0
    }

    fn switch_endianness(&mut self) {
    }
}

impl Packed for u8 {
    open spec fn size() -> nat {
        1
    }

    open spec fn rep(self, o: ByteOrder) -> Seq<u8> {
        seq![self]
    }

    open spec fn valid_rep(bytes: Seq<u8>) -> bool {
        bytes.len() == 1
    }

    proof fn lemma_rep_len(self, o: ByteOrder) {
    }

    proof fn lemma_rep_valid(self, o: ByteOrder) {
    }

    proof fn lemma_rep_injective(a: Self, b: Self, o: ByteOrder) {
        if a.rep(o) == b.rep(o) {
            assert(a.rep(o)[0] == b.rep(o)[0]);
        }
    }

    fn byte_size() -> usize {
        1
    }

    fn encode(&self, o: ByteOrder, out: &mut Vec<u8>) {
        out.push(*self);
        proof {
            assert(out@ =~= old(out)@ + self.rep(o));
        }
    }

    fn decode(bytes: &[u8], o: ByteOrder) -> (r: Self) {
        bytes[0]
    }

    fn switch_endianness(&mut self) {
    }
}

/// The two's-complement byte of an 8-bit signed integer.
pub open spec fn i8_bits(x: i8) -> u8 {
    if x >= 0 {
        x as u8
    } else {
        (x + 256) as u8
    }
}

/// The 8-bit signed integer with the two's-complement byte `b`.
pub open spec fn i8_from_bits(b: u8) -> i8 {
    if b < 128 {
        b as i8
    } else {
        (b - 256) as i8
    }
}

impl Packed for i8 {
    open spec fn size() -> nat {
        1
    }

    open spec fn rep(self, o: ByteOrder) -> Seq<u8> {
        seq![i8_bits(self)]
    }

    open spec fn valid_rep(bytes: Seq<u8>) -> bool {
        bytes.len() == 1
    }

    proof fn lemma_rep_len(self, o: ByteOrder) {
    }

    proof fn lemma_rep_valid(self, o: ByteOrder) {
    }

    proof fn lemma_rep_injective(a: Self, b: Self, o: ByteOrder) {
        if a.rep(o) == b.rep(o) {
            assert(a.rep(o)[0] == b.rep(o)[0]);
        }
    }

    fn byte_size() -> usize {
        1
    }

    fn encode(&self, o: ByteOrder, out: &mut Vec<u8>) {
        let b: u8 = if *self >= 0 {
            *self as u8
        } else {
            ((*self as i16) + 256) as u8
        };
        out.push(b);
        proof {
            assert(out@ =~= old(out)@ + self.rep(o));
        }
    }

    fn decode(bytes: &[u8], o: ByteOrder) -> (r: Self) {
        let b = bytes[0];
        if b < 128 {
            b as i8
        } else {
            ((b as i16) - 256) as i8
        }
    }

    fn switch_endianness(&mut self) {
    }
}

/// The little-endian bytes of a 32-bit word.
pub open spec fn u32_le(x: u32) -> Seq<u8> {
    seq![
        (x & 0xff) as u8,
        ((x >> 8) & 0xff) as u8,
        ((x >> 16) & 0xff) as u8,
        ((x >> 24) & 0xff) as u8,
    ]
}

/// The bytes of a 32-bit word under the order `o`.
pub open spec fn u32_rep(x: u32, o: ByteOrder) -> Seq<u8> {
    match o {
        ByteOrder::Little => u32_le(x),
        ByteOrder::Big => u32_le(x).reverse(),
    }
}

/// The 32-bit word with its four bytes reversed.
pub open spec fn u32_swap(x: u32) -> u32 {
    (x << 24) | ((x << 8) & 0xff0000) | ((x >> 8) & 0xff00) | (x >> 24)
}

proof fn lemma_u32_inj(a: u32, b: u32, o: ByteOrder)
    ensures
        u32_rep(a, o) == u32_rep(b, o) ==> a == b,
{
    if u32_rep(a, o) == u32_rep(b, o) {
        assert(u32_rep(a, o)[0] == u32_rep(b, o)[0]);
        assert(u32_rep(a, o)[1] == u32_rep(b, o)[1]);
        assert(u32_rep(a, o)[2] == u32_rep(b, o)[2]);
        assert(u32_rep(a, o)[3] == u32_rep(b, o)[3]);
        assert(((a & 0xff) as u8 == (b & 0xff) as u8
            && ((a >> 8) & 0xff) as u8 == ((b >> 8) & 0xff) as u8
            && ((a >> 16) & 0xff) as u8 == ((b >> 16) & 0xff) as u8
            && ((a >> 24) & 0xff) as u8 == ((b >> 24) & 0xff) as u8) ==> a == b)
            by (bit_vector);
    }
}

proof fn lemma_u32_swap_rep(x: u32, o: ByteOrder)
    ensures
        u32_rep(u32_swap(x), o) == u32_rep(x, o.flip()),
{
    assert((((x << 24) | ((x << 8) & 0xff0000) | ((x >> 8) & 0xff00) | (x >> 24)) & 0xff)
        == (x >> 24) & 0xff
        && ((((x << 24) | ((x << 8) & 0xff0000) | ((x >> 8) & 0xff00) | (x >> 24)) >> 8)
            & 0xff) == (x >> 16) & 0xff
        && ((((x << 24) | ((x << 8) & 0xff0000) | ((x >> 8) & 0xff00) | (x >> 24)) >> 16)
            & 0xff) == (x >> 8) & 0xff
        && ((((x << 24) | ((x << 8) & 0xff0000) | ((x >> 8) & 0xff00) | (x >> 24)) >> 24)
            & 0xff) == x & 0xff) by (bit_vector);
    assert(u32_rep(u32_swap(x), o) =~= u32_rep(x, o.flip()));
}

/// Appends the bytes of `x` under the order `o`.
pub fn push_u32(x: u32, o: ByteOrder, out: &mut Vec<u8>)
    ensures
        final(out)@ == old(out)@ + u32_rep(x, o),
{
    proof {
        assert(x & 0xff < 256 && (x >> 8) & 0xff < 256 && (x >> 16) & 0xff < 256
            && (x >> 24) & 0xff < 256) by (bit_vector);
    }
    let b0 = (x & 0xff) as u8;
    let b1 = ((x >> 8) & 0xff) as u8;
    let b2 = ((x >> 16) & 0xff) as u8;
    let b3 = ((x >> 24) & 0xff) as u8;
    match o {
        ByteOrder::Little => {
            out.push(b0);
            out.push(b1);
            out.push(b2);
            out.push(b3);
        },
        ByteOrder::Big => {
            out.push(b3);
            out.push(b2);
            out.push(b1);
            out.push(b0);
        },
    }
    proof {
        assert(out@ =~= old(out)@ + u32_rep(x, o));
    }
}

/// Reads a 32-bit word from its four bytes under the order `o`.
pub fn read_u32(bytes: &[u8], o: ByteOrder) -> (r: u32)
    requires
        bytes@.len() == 4,
    ensures
        u32_rep(r, o) == bytes@,
{
    let (b0, b1, b2, b3) = match o {
        ByteOrder::Little => (bytes[0], bytes[1], bytes[2], bytes[3]),
        ByteOrder::Big => (bytes[3], bytes[2], bytes[1], bytes[0]),
    };
    let r = (b0 as u32) | ((b1 as u32) << 8) | ((b2 as u32) << 16) | ((b3 as u32) << 24);
    proof {
        let v0 = b0 as u32;
        let v1 = b1 as u32;
        let v2 = b2 as u32;
        let v3 = b3 as u32;
        assert((v0 < 256 && v1 < 256 && v2 < 256 && v3 < 256) ==> (((v0 | (v1 << 8) | (v2
            << 16) | (v3 << 24)) & 0xff) == v0
            && (((v0 | (v1 << 8) | (v2 << 16) | (v3 << 24)) >> 8) & 0xff) == v1
            && (((v0 | (v1 << 8) | (v2 << 16) | (v3 << 24)) >> 16) & 0xff) == v2
            && (((v0 | (v1 << 8) | (v2 << 16) | (v3 << 24)) >> 24) & 0xff) == v3))
            by (bit_vector);
        assert(u32_rep(r, o) =~= bytes@);
    }
    r
}

/// The little-endian bytes of a 64-bit word.
pub open spec fn u64_le(x: u64) -> Seq<u8> {
    seq![
        (x & 0xff) as u8,
        ((x >> 8) & 0xff) as u8,
        ((x >> 16) & 0xff) as u8,
        ((x >> 24) & 0xff) as u8,
        ((x >> 32) & 0xff) as u8,
        ((x >> 40) & 0xff) as u8,
        ((x >> 48) & 0xff) as u8,
        ((x >> 56) & 0xff) as u8,
    ]
}

/// The bytes of a 64-bit word under the order `o`.
pub open spec fn u64_rep(x: u64, o: ByteOrder) -> Seq<u8> {
    match o {
        ByteOrder::Little => u64_le(x),
        ByteOrder::Big => u64_le(x).reverse(),
    }
}

/// The 64-bit word with its eight bytes reversed.
pub open spec fn u64_swap(x: u64) -> u64 {
    (x << 56) | ((x << 40) & 0xff000000000000) | ((x << 24) & 0xff0000000000) | ((x << 8)
        & 0xff00000000) | ((x >> 8) & 0xff000000) | ((x >> 24) & 0xff0000) | ((x >> 40)
        & 0xff00) | (x >> 56)
}

proof fn lemma_u64_inj(a: u64, b: u64, o: ByteOrder)
    ensures
        u64_rep(a, o) == u64_rep(b, o) ==> a == b,
{
    if u64_rep(a, o) == u64_rep(b, o) {
        assert(u64_rep(a, o)[0] == u64_rep(b, o)[0]);
        assert(u64_rep(a, o)[1] == u64_rep(b, o)[1]);
        assert(u64_rep(a, o)[2] == u64_rep(b, o)[2]);
        assert(u64_rep(a, o)[3] == u64_rep(b, o)[3]);
        assert(u64_rep(a, o)[4] == u64_rep(b, o)[4]);
        assert(u64_rep(a, o)[5] == u64_rep(b, o)[5]);
        assert(u64_rep(a, o)[6] == u64_rep(b, o)[6]);
        assert(u64_rep(a, o)[7] == u64_rep(b, o)[7]);
        assert(((a & 0xff) as u8 == (b & 0xff) as u8
            && ((a >> 8) & 0xff) as u8 == ((b >> 8) & 0xff) as u8
            && ((a >> 16) & 0xff) as u8 == ((b >> 16) & 0xff) as u8
            && ((a >> 24) & 0xff) as u8 == ((b >> 24) & 0xff) as u8
            && ((a >> 32) & 0xff) as u8 == ((b >> 32) & 0xff) as u8
            && ((a >> 40) & 0xff) as u8 == ((b >> 40) & 0xff) as u8
            && ((a >> 48) & 0xff) as u8 == ((b >> 48) & 0xff) as u8
            && ((a >> 56) & 0xff) as u8 == ((b >> 56) & 0xff) as u8) ==> a == b)
            by (bit_vector);
    }
}

proof fn lemma_u64_swap_rep(x: u64, o: ByteOrder)
    ensures
        u64_rep(u64_swap(x), o) == u64_rep(x, o.flip()),
{
    let y = (x << 56) | ((x << 40) & 0xff000000000000) | ((x << 24) & 0xff0000000000) | ((x
        << 8) & 0xff00000000) | ((x >> 8) & 0xff000000) | ((x >> 24) & 0xff0000) | ((x
        >> 40) & 0xff00) | (x >> 56);
    assert(y == (x << 56) | ((x << 40) & 0xff000000000000) | ((x << 24) & 0xff0000000000)
        | ((x << 8) & 0xff00000000) | ((x >> 8) & 0xff000000) | ((x >> 24) & 0xff0000)
        | ((x >> 40) & 0xff00) | (x >> 56) ==> ((y & 0xff) == (x >> 56) & 0xff
        && ((y >> 8) & 0xff) == (x >> 48) & 0xff && ((y >> 16) & 0xff) == (x >> 40) & 0xff
        && ((y >> 24) & 0xff) == (x >> 32) & 0xff && ((y >> 32) & 0xff) == (x >> 24) & 0xff
        && ((y >> 40) & 0xff) == (x >> 16) & 0xff && ((y >> 48) & 0xff) == (x >> 8) & 0xff
        && ((y >> 56) & 0xff) == x & 0xff)) by (bit_vector);
    assert(u64_rep(u64_swap(x), o) =~= u64_rep(x, o.flip()));
}

/// Appends the bytes of `x` under the order `o`.
pub fn push_u64(x: u64, o: ByteOrder, out: &mut Vec<u8>)
    ensures
        final(out)@ == old(out)@ + u64_rep(x, o),
{
    proof {
        assert(x & 0xff < 256 && (x >> 8) & 0xff < 256 && (x >> 16) & 0xff < 256
            && (x >> 24) & 0xff < 256 && (x >> 32) & 0xff < 256 && (x >> 40) & 0xff < 256
            && (x >> 48) & 0xff < 256 && (x >> 56) & 0xff < 256) by (bit_vector);
    }
    let b0 = (x & 0xff) as u8;
    let b1 = ((x >> 8) & 0xff) as u8;
    let b2 = ((x >> 16) & 0xff) as u8;
    let b3 = ((x >> 24) & 0xff) as u8;
    let b4 = ((x >> 32) & 0xff) as u8;
    let b5 = ((x >> 40) & 0xff) as u8;
    let b6 = ((x >> 48) & 0xff) as u8;
    let b7 = ((x >> 56) & 0xff) as u8;
    match o {
        ByteOrder::Little => {
            out.push(b0);
            out.push(b1);
            out.push(b2);
            out.push(b3);
            out.push(b4);
            out.push(b5);
            out.push(b6);
            out.push(b7);
        },
        ByteOrder::Big => {
            out.push(b7);
            out.push(b6);
            out.push(b5);
            out.push(b4);
            out.push(b3);
            out.push(b2);
            out.push(b1);
            out.push(b0);
        },
    }
    proof {
        assert(out@ =~= old(out)@ + u64_rep(x, o));
    }
}

/// Reads a 64-bit word from its eight bytes under the order `o`.
pub fn read_u64(bytes: &[u8], o: ByteOrder) -> (r: u64)
    requires
        bytes@.len() == 8,
    ensures
        u64_rep(r, o) == bytes@,
{
    let (b0, b1, b2, b3, b4, b5, b6, b7) = match o {
        ByteOrder::Little => (
            bytes[0],
            bytes[1],
            bytes[2],
            bytes[3],
            bytes[4],
            bytes[5],
            bytes[6],
            bytes[7],
        ),
        ByteOrder::Big => (
            bytes[7],
            bytes[6],
            bytes[5],
            bytes[4],
            bytes[3],
            bytes[2],
            bytes[1],
            bytes[0],
        ),
    };
    let r = (b0 as u64) | ((b1 as u64) << 8) | ((b2 as u64) << 16) | ((b3 as u64) << 24)
        | ((b4 as u64) << 32) | ((b5 as u64) << 40) | ((b6 as u64) << 48) | ((b7 as u64)
        << 56);
    proof {
        let v0 = b0 as u64;
        let v1 = b1 as u64;
        let v2 = b2 as u64;
        let v3 = b3 as u64;
        let v4 = b4 as u64;
        let v5 = b5 as u64;
        let v6 = b6 as u64;
        let v7 = b7 as u64;
        let y = v0 | (v1 << 8) | (v2 << 16) | (v3 << 24) | (v4 << 32) | (v5 << 40) | (v6
            << 48) | (v7 << 56);
        assert((y == v0 | (v1 << 8) | (v2 << 16) | (v3 << 24) | (v4 << 32) | (v5 << 40)
            | (v6 << 48) | (v7 << 56) && v0 < 256 && v1 < 256 && v2 < 256 && v3 < 256
            && v4 < 256 && v5 < 256 && v6 < 256 && v7 < 256) ==> ((y & 0xff) == v0
            && ((y >> 8) & 0xff) == v1 && ((y >> 16) & 0xff) == v2
            && ((y >> 24) & 0xff) == v3 && ((y >> 32) & 0xff) == v4
            && ((y >> 40) & 0xff) == v5 && ((y >> 48) & 0xff) == v6
            && ((y >> 56) & 0xff) == v7)) by (bit_vector);
        assert(u64_rep(r, o) =~= bytes@);
    }
    r
}

impl Packed for u16 {
    open spec fn size() -> nat {
        2
    }

    open spec fn rep(self, o: ByteOrder) -> Seq<u8> {
        u16_rep(self, o)
    }

    open spec fn valid_rep(bytes: Seq<u8>) -> bool {
        bytes.len() == 2
    }

    proof fn lemma_rep_len(self, o: ByteOrder) {
        lemma_u16_rep_len(self, o);
    }

    proof fn lemma_rep_valid(self, o: ByteOrder) {
        lemma_u16_rep_len(self, o);
    }

    proof fn lemma_rep_injective(a: Self, b: Self, o: ByteOrder) {
        lemma_u16_inj(a, b, o);
    }

    fn byte_size() -> usize {
        2
    }

    fn encode(&self, o: ByteOrder, out: &mut Vec<u8>) {
        push_u16(*self, o, out);
    }

    fn decode(bytes: &[u8], o: ByteOrder) -> (r: Self) {
        read_u16(bytes, o)
    }

    fn switch_endianness(&mut self) {
        let x = *self;
        *self = (x << 8) | (x >> 8);
        proof {
            assert forall|o: ByteOrder| #[trigger] (*self).rep(o) == x.rep(o.flip()) by {
                lemma_u16_swap_rep(x, o);
            }
        }
    }
}

impl Packed for u32 {
    open spec fn size() -> nat {
        4
    }

    open spec fn rep(self, o: ByteOrder) -> Seq<u8> {
        u32_rep(self, o)
    }

    open spec fn valid_rep(bytes: Seq<u8>) -> bool {
        bytes.len() == 4
    }

    proof fn lemma_rep_len(self, o: ByteOrder) {
    }

    proof fn lemma_rep_valid(self, o: ByteOrder) {
    }

    proof fn lemma_rep_injective(a: Self, b: Self, o: ByteOrder) {
        lemma_u32_inj(a, b, o);
    }

    fn byte_size() -> usize {
        4
    }

    fn encode(&self, o: ByteOrder, out: &mut Vec<u8>) {
        push_u32(*self, o, out);
    }

    fn decode(bytes: &[u8], o: ByteOrder) -> (r: Self) {
        read_u32(bytes, o)
    }

    fn switch_endianness(&mut self) {
        let x = *self;
        *self = (x << 24) | ((x << 8) & 0xff0000) | ((x >> 8) & 0xff00) | (x >> 24);
        proof {
            assert forall|o: ByteOrder| #[trigger] (*self).rep(o) == x.rep(o.flip()) by {
                lemma_u32_swap_rep(x, o);
            }
        }
    }
}

impl Packed for u64 {
    open spec fn size() -> nat {
        8
    }

    open spec fn rep(self, o: ByteOrder) -> Seq<u8> {
        u64_rep(self, o)
    }

    open spec fn valid_rep(bytes: Seq<u8>) -> bool {
        bytes.len() == 8
    }

    proof fn lemma_rep_len(self, o: ByteOrder) {
    }

    proof fn lemma_rep_valid(self, o: ByteOrder) {
    }

    proof fn lemma_rep_injective(a: Self, b: Self, o: ByteOrder) {
        lemma_u64_inj(a, b, o);
    }

    fn byte_size() -> usize {
        8
    }

    fn encode(&self, o: ByteOrder, out: &mut Vec<u8>) {
        push_u64(*self, o, out);
    }

    fn decode(bytes: &[u8], o: ByteOrder) -> (r: Self) {
        read_u64(bytes, o)
    }

    fn switch_endianness(&mut self) {
        let x = *self;
        *self = (x << 56) | ((x << 40) & 0xff000000000000) | ((x << 24) & 0xff0000000000)
            | ((x << 8) & 0xff00000000) | ((x >> 8) & 0xff000000) | ((x >> 24) & 0xff0000)
            | ((x >> 40) & 0xff00) | (x >> 56);
        proof {
            assert forall|o: ByteOrder| #[trigger] (*self).rep(o) == x.rep(o.flip()) by {
                lemma_u64_swap_rep(x, o);
            }
        }
    }
}

/// The two's-complement 16-bit pattern of a 16-bit signed integer.
pub open spec fn i16_bits(x: i16) -> u16 {
    if x >= 0 {
        x as u16
    } else {
        (x + 0x10000) as u16
    }
}

/// The 16-bit signed integer with the two's-complement pattern `b`.
pub open spec fn i16_from_bits(b: u16) -> i16 {
    if b < 0x8000 {
        b as i16
    } else {
        (b - 0x10000) as i16
    }
}

impl Packed for i16 {
    open spec fn size() -> nat {
        2
    }

    open spec fn rep(self, o: ByteOrder) -> Seq<u8> {
        u16_rep(i16_bits(self), o)
    }

    open spec fn valid_rep(bytes: Seq<u8>) -> bool {
        bytes.len() == 2
    }

    proof fn lemma_rep_len(self, o: ByteOrder) {
    }

    proof fn lemma_rep_valid(self, o: ByteOrder) {
    }

    proof fn lemma_rep_injective(a: Self, b: Self, o: ByteOrder) {
        lemma_u16_inj(i16_bits(a), i16_bits(b), o);
    }

    fn byte_size() -> usize {
        2
    }

    fn encode(&self, o: ByteOrder, out: &mut Vec<u8>) {
        let bits: u16 = if *self >= 0 {
            *self as u16
        } else {
            ((*self as i32) + 0x10000) as u16
        };
        push_u16(bits, o, out);
    }

    fn decode(bytes: &[u8], o: ByteOrder) -> (r: Self) {
        let bits = read_u16(bytes, o);
        if bits < 0x8000 {
            bits as i16
        } else {
            ((bits as i32) - 0x10000) as i16
        }
    }

    fn switch_endianness(&mut self) {
        let x = *self;
        let bits: u16 = if x >= 0 {
            x as u16
        } else {
            ((x as i32) + 0x10000) as u16
        };
        let swapped: u16 = (bits << 8) | (bits >> 8);
        *self = if swapped < 0x8000 {
            swapped as i16
        } else {
            ((swapped as i32) - 0x10000) as i16
        };
        proof {
            assert forall|o: ByteOrder| #[trigger] (*self).rep(o) == x.rep(o.flip()) by {
                lemma_u16_swap_rep(bits, o);
            }
        }
    }
}

/// The two's-complement 32-bit pattern of a 32-bit signed integer.
pub open spec fn i32_bits(x: i32) -> u32 {
    if x >= 0 {
        x as u32
    } else {
        (x + 0x100000000) as u32
    }
}

/// The 32-bit signed integer with the two's-complement pattern `b`.
pub open spec fn i32_from_bits(b: u32) -> i32 {
    if b < 0x80000000 {
        b as i32
    } else {
        (b - 0x100000000) as i32
    }
}

impl Packed for i32 {
    open spec fn size() -> nat {
        4
    }

    open spec fn rep(self, o: ByteOrder) -> Seq<u8> {
        u32_rep(i32_bits(self), o)
    }

    open spec fn valid_rep(bytes: Seq<u8>) -> bool {
        bytes.len() == 4
    }

    proof fn lemma_rep_len(self, o: ByteOrder) {
    }

    proof fn lemma_rep_valid(self, o: ByteOrder) {
    }

    proof fn lemma_rep_injective(a: Self, b: Self, o: ByteOrder) {
        lemma_u32_inj(i32_bits(a), i32_bits(b), o);
    }

    fn byte_size() -> usize {
        4
    }

    fn encode(&self, o: ByteOrder, out: &mut Vec<u8>) {
        let bits: u32 = if *self >= 0 {
            *self as u32
        } else {
            ((*self as i64) + 0x100000000) as u32
        };
        push_u32(bits, o, out);
    }

    fn decode(bytes: &[u8], o: ByteOrder) -> (r: Self) {
        let bits = read_u32(bytes, o);
        if bits < 0x80000000 {
            bits as i32
        } else {
            ((bits as i64) - 0x100000000) as i32
        }
    }

    fn switch_endianness(&mut self) {
        let x = *self;
        let bits: u32 = if x >= 0 {
            x as u32
        } else {
            ((x as i64) + 0x100000000) as u32
        };
        let swapped: u32 = (bits << 24) | ((bits << 8) & 0xff0000) | ((bits >> 8) & 0xff00)
            | (bits >> 24);
        *self = if swapped < 0x80000000 {
            swapped as i32
        } else {
            ((swapped as i64) - 0x100000000) as i32
        };
        proof {
            assert forall|o: ByteOrder| #[trigger] (*self).rep(o) == x.rep(o.flip()) by {
                lemma_u32_swap_rep(bits, o);
            }
        }
    }
}

/// The two's-complement 64-bit pattern of a 64-bit signed integer.
pub open spec fn i64_bits(x: i64) -> u64 {
    if x >= 0 {
        x as u64
    } else {
        (x + 0x10000000000000000) as u64
    }
}

/// The 64-bit signed integer with the two's-complement pattern `b`.
pub open spec fn i64_from_bits(b: u64) -> i64 {
    if b < 0x8000000000000000 {
        b as i64
    } else {
        (b - 0x10000000000000000) as i64
    }
}

impl Packed for i64 {
    open spec fn size() -> nat {
        8
    }

    open spec fn rep(self, o: ByteOrder) -> Seq<u8> {
        u64_rep(i64_bits(self), o)
    }

    open spec fn valid_rep(bytes: Seq<u8>) -> bool {
        bytes.len() == 8
    }

    proof fn lemma_rep_len(self, o: ByteOrder) {
    }

    proof fn lemma_rep_valid(self, o: ByteOrder) {
    }

    proof fn lemma_rep_injective(a: Self, b: Self, o: ByteOrder) {
        lemma_u64_inj(i64_bits(a), i64_bits(b), o);
    }

    fn byte_size() -> usize {
        8
    }

    fn encode(&self, o: ByteOrder, out: &mut Vec<u8>) {
        let bits: u64 = if *self >= 0 {
            *self as u64
        } else {
            ((*self as i128) + 0x10000000000000000) as u64
        };
        push_u64(bits, o, out);
    }

    fn decode(bytes: &[u8], o: ByteOrder) -> (r: Self) {
        let bits = read_u64(bytes, o);
        if bits < 0x8000000000000000 {
            bits as i64
        } else {
            ((bits as i128) - 0x10000000000000000) as i64
        }
    }

    fn switch_endianness(&mut self) {
        let x = *self;
        let bits: u64 = if x >= 0 {
            x as u64
        } else {
            ((x as i128) + 0x10000000000000000) as u64
        };
        let swapped: u64 = (bits << 56) | ((bits << 40) & 0xff000000000000) | ((bits << 24)
            & 0xff0000000000) | ((bits << 8) & 0xff00000000) | ((bits >> 8) & 0xff000000)
            | ((bits >> 24) & 0xff0000) | ((bits >> 40) & 0xff00) | (bits >> 56);
        *self = if swapped < 0x8000000000000000 {
            swapped as i64
        } else {
            ((swapped as i128) - 0x10000000000000000) as i64
        };
        proof {
            assert forall|o: ByteOrder| #[trigger] (*self).rep(o) == x.rep(o.flip()) by {
                lemma_u64_swap_rep(bits, o);
            }
        }
    }
}

} // verus!
