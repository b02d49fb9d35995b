//! A product type made capability-marked by hand: fields are transferred
//! and byte-order-reversed one by one, in declaration order.  Any compound
//! type whose fields all carry [`Packed`] can join the capability the same
//! way; a field of a type without it has no representation to delegate to,
//! so such an impl cannot be written.

use vstd::prelude::*;
use crate::order::ByteOrder;
use crate::packed::Packed;

verus! {

/// A sample record: a 16-bit tag, the raw 32-bit pattern of a
/// single-precision float, and an 8-bit signed value.  Its wire layout is
/// its fields' representations laid end to end, with no padding.
#[derive(Clone, Copy, Debug, PartialEq, Eq, Structural)]
pub struct Record {
    pub a: u16,
    pub b: u32,
    pub c: i8,
}

impl Packed for Record {
    open spec fn size() -> nat {
        7
    }

    open spec fn rep(self, o: ByteOrder) -> Seq<u8> {
        self.a.rep(o) + self.b.rep(o) + self.c.rep(o)
    }

    open spec fn valid_rep(bytes: Seq<u8>) -> bool {
        &&& bytes.len() == 7
        &&& <u16 as Packed>::valid_rep(bytes.subrange(0, 2))
        &&& <u32 as Packed>::valid_rep(bytes.subrange(2, 6))
        &&& <i8 as Packed>::valid_rep(bytes.subrange(6, 7))
    }

    proof fn lemma_rep_len(self, o: ByteOrder) {
        self.a.lemma_rep_len(o);
        self.b.lemma_rep_len(o);
        self.c.lemma_rep_len(o);
    }

    proof fn lemma_rep_valid(self, o: ByteOrder) {
        self.a.lemma_rep_len(o);
        self.b.lemma_rep_len(o);
        self.c.lemma_rep_len(o);
        self.a.lemma_rep_valid(o);
        self.b.lemma_rep_valid(o);
        self.c.lemma_rep_valid(o);
        assert(self.rep(o).subrange(0, 2) =~= self.a.rep(o));
        assert(self.rep(o).subrange(2, 6) =~= self.b.rep(o));
        assert(self.rep(o).subrange(6, 7) =~= self.c.rep(o));
    }

    proof fn lemma_rep_injective(a: Self, b: Self, o: ByteOrder) {
        a.lemma_rep_len(o);
        b.lemma_rep_len(o);
        a.a.lemma_rep_len(o);
        a.b.lemma_rep_len(o);
        a.c.lemma_rep_len(o);
        b.a.lemma_rep_len(o);
        b.b.lemma_rep_len(o);
        b.c.lemma_rep_len(o);
        if a.rep(o) == b.rep(o) {
            assert(a.rep(o).subrange(0, 2) =~= a.a.rep(o));
            assert(a.rep(o).subrange(2, 6) =~= a.b.rep(o));
            assert(a.rep(o).subrange(6, 7) =~= a.c.rep(o));
            assert(b.rep(o).subrange(0, 2) =~= b.a.rep(o));
            assert(b.rep(o).subrange(2, 6) =~= b.b.rep(o));
            assert(b.rep(o).subrange(6, 7) =~= b.c.rep(o));
            <u16 as Packed>::lemma_rep_injective(a.a, b.a, o);
            <u32 as Packed>::lemma_rep_injective(a.b, b.b, o);
            <i8 as Packed>::lemma_rep_injective(a.c, b.c, o);
        }
    }

    fn byte_size() -> usize {
        7
    }

    fn encode(&self, o: ByteOrder, out: &mut Vec<u8>) {
        proof {
            self.a.lemma_rep_len(o);
            self.b.lemma_rep_len(o);
            self.c.lemma_rep_len(o);
        }
        self.a.encode(o, out);
        self.b.encode(o, out);
        self.c.encode(o, out);
        proof {
            assert(out@ =~= old(out)@ + self.rep(o));
        }
    }

    fn decode(bytes: &[u8], o: ByteOrder) -> (r: Self) {
        let a = u16::decode(vstd::slice::slice_subrange(bytes, 0, 2), o);
        let b = u32::decode(vstd::slice::slice_subrange(bytes, 2, 6), o);
        let c = i8::decode(vstd::slice::slice_subrange(bytes, 6, 7), o);
        let r = Record { a, b, c };
        proof {
            if Self::valid_rep(bytes@) {
                assert(r.rep(o) =~= bytes@);
            }
        }
        r
    }

    fn switch_endianness(&mut self) {
        self.a.switch_endianness();
        self.b.switch_endianness();
        self.c.switch_endianness();
        proof {
            assert forall|o: ByteOrder| #[trigger] (*self).rep(o) == old(self).rep(
                o.flip(),
            ) by {
                assert((*self).rep(o) =~= old(self).rep(o.flip()));
            }
        }
    }
}

} // verus!
