//! The capability marker: types whose values travel as their raw bytes.

use vstd::prelude::*;
use crate::order::ByteOrder;

verus! {

/// Marks a fixed-size, pointer-free type whose values may be read and written
/// directly as their byte representation, and which can reverse the byte
/// order of its scalar sub-components in place.
///
/// The byte representation is given by [`Packed::rep`], a function of the
/// value and of the byte order it is laid out in.  The laws below pin the
/// representation down: it always has [`Packed::size`] bytes, it is a valid
/// representation in the sense of [`Packed::valid_rep`], and no two distinct
/// values share a representation under one order.
pub trait Packed: Sized {
    /// The number of bytes a value of this type occupies on the wire.
    spec fn size() -> nat;

    /// The byte representation of this value under the byte order `o`.
    spec fn rep(self, o: ByteOrder) -> Seq<u8>;

    /// Whether `bytes` is the representation of some value of this type.
    /// The set of valid representations is the same under either order,
    /// because reversing a value's byte order permutes bytes only within
    /// each scalar sub-component.
    spec fn valid_rep(bytes: Seq<u8>) -> bool;

    /// A representation has exactly `size` bytes.
    proof fn lemma_rep_len(self, o: ByteOrder)
        ensures
            self.rep(o).len() == Self::size(),
    ;

    /// A value's representation is a valid representation.
    proof fn lemma_rep_valid(self, o: ByteOrder)
        ensures
            Self::valid_rep(self.rep(o)),
    ;

    /// Under one order, distinct values have distinct representations.
    proof fn lemma_rep_injective(a: Self, b: Self, o: ByteOrder)
        ensures
            a.rep(o) == b.rep(o) ==> a == b,
    ;

    /// The number of bytes a value of this type occupies, as a machine word.
    fn byte_size() -> (n: usize)
        requires
            Self::size() <= usize::MAX,
        ensures
            n == Self::size(),
    ;

    /// Appends this value's representation under the order `o` to `out`.
    fn encode(&self, o: ByteOrder, out: &mut Vec<u8>)
        requires
            old(out)@.len() + Self::size() <= usize::MAX,
        ensures
            final(out)@ == old(out)@ + self.rep(o),
    ;

    /// Reads the value whose representation under the order `o` is `bytes`.
    /// When `bytes` is not a valid representation, the result is some
    /// unspecified value of the type.
    fn decode(bytes: &[u8], o: ByteOrder) -> (r: Self)
        requires
            bytes@.len() == Self::size(),
        ensures
            Self::valid_rep(bytes@) ==> r.rep(o) == bytes@,
    ;

    /// Reverses the byte order of every scalar sub-component in place: the
    /// new value's representation under either order is the old value's
    /// representation under the opposite order.
    fn switch_endianness(&mut self)
        ensures
            forall|o: ByteOrder| final(self).rep(o) == old(self).rep(o.flip()),
    ;
}

/// A value read back from its own representation is that value, under any one
/// byte order: packing and then unpacking is the identity.
pub proof fn lemma_unpack_of_packed<T: Packed>(v: T, r: T, o: ByteOrder)
    requires
        r.rep(o) == v.rep(o),
    ensures
        r == v,
{
    T::lemma_rep_injective(r, v, o);
}

/// Reversing the byte order twice is the identity: a value whose
/// representation is everywhere the flipped representation of `b`, where `b`
/// in turn holds the flipped representation of `a`, is `a` itself.
pub proof fn lemma_switch_twice<T: Packed>(a: T, b: T, c: T)
    requires
        forall|o: ByteOrder| b.rep(o) == a.rep(o.flip()),
        forall|o: ByteOrder| c.rep(o) == b.rep(o.flip()),
    ensures
        c == a,
{
    assert(c.rep(ByteOrder::Little) == a.rep(ByteOrder::Little));
    T::lemma_rep_injective(c, a, ByteOrder::Little);
}

/// A value unpacked under one order from bytes packed under the opposite
/// order is recovered by one more byte-order reversal.
pub proof fn lemma_cross_order_unpack<T: Packed>(v: T, r: T, w: T, o: ByteOrder)
    requires
        r.rep(o) == v.rep(o.flip()),
        forall|q: ByteOrder| w.rep(q) == r.rep(q.flip()),
    ensures
        w == v,
{
    assert(w.rep(o.flip()) == v.rep(o.flip()));
    T::lemma_rep_injective(w, v, o.flip());
}

/// The concatenated representation of a run of values, in order.
pub open spec fn seq_rep<T: Packed>(s: Seq<T>, o: ByteOrder) -> Seq<u8>
    decreases s.len(),
{
    if s.len() == 0 {
        Seq::empty()
    } else {
        s[0].rep(o) + seq_rep(s.drop_first(), o)
    }
}

/// The representation of a run has one `T::size()` chunk per element.
pub proof fn lemma_seq_rep_len<T: Packed>(s: Seq<T>, o: ByteOrder)
    ensures
        seq_rep(s, o).len() == s.len() * T::size(),
    decreases s.len(),
{
    if s.len() == 0 {
    } else {
        s[0].lemma_rep_len(o);
        lemma_seq_rep_len(s.drop_first(), o);
        assert(s.len() * T::size() == T::size() + (s.len() - 1) * T::size())
            by (nonlinear_arith);
    }
}

/// Element `i` of a run owns bytes `i * T::size() ..= (i + 1) * T::size()`
/// of the run's representation.
pub proof fn lemma_seq_rep_chunk<T: Packed>(s: Seq<T>, o: ByteOrder, i: int)
    requires
        0 <= i < s.len(),
    ensures
        seq_rep(s, o).subrange(i * T::size(), (i + 1) * T::size()) == s[i].rep(o),
    decreases s.len(),
{
    lemma_seq_rep_len(s, o);
    lemma_seq_rep_len(s.drop_first(), o);
    s[0].lemma_rep_len(o);
    let sz = T::size() as int;
    if i == 0 {
        assert(seq_rep(s, o).subrange(0, sz) =~= s[0].rep(o));
    } else {
        lemma_seq_rep_chunk(s.drop_first(), o, i - 1);
        assert((i - 1) * sz == i * sz - sz) by (nonlinear_arith);
        assert((i + 1) * sz == i * sz + sz) by (nonlinear_arith);
        assert(0 <= (i - 1) * sz && (i - 1) * sz + sz <= (s.len() - 1) * sz)
            by (nonlinear_arith)
            requires 1 <= i < s.len(), sz >= 0;
        assert(seq_rep(s, o).subrange(i * sz, (i + 1) * sz)
            =~= seq_rep(s.drop_first(), o).subrange((i - 1) * sz, i * sz));
        assert(s.drop_first()[i - 1] == s[i]);
    }
}

/// Appending one value to a run appends its representation.
pub proof fn lemma_seq_rep_push<T: Packed>(s: Seq<T>, x: T, o: ByteOrder)
    ensures
        seq_rep(s.push(x), o) == seq_rep(s, o) + x.rep(o),
    decreases s.len(),
{
    if s.len() == 0 {
        assert(s.push(x).drop_first() =~= s);
        assert(seq_rep(s.push(x), o) =~= x.rep(o) + seq_rep(s, o));
        assert(seq_rep(s.push(x), o) =~= seq_rep(s, o) + x.rep(o));
    } else {
        lemma_seq_rep_push(s.drop_first(), x, o);
        assert(s.push(x).drop_first() =~= s.drop_first().push(x));
        assert(seq_rep(s.push(x), o) =~= seq_rep(s, o) + x.rep(o));
    }
}

/// Two runs whose elements' representations agree pairwise under the two
/// given orders have the same run representation under them.
pub proof fn lemma_seq_rep_pointwise<T: Packed>(
    s1: Seq<T>,
    s2: Seq<T>,
    o1: ByteOrder,
    o2: ByteOrder,
)
    requires
        s1.len() == s2.len(),
        forall|i: int| 0 <= i < s1.len() ==> s1[i].rep(o1) == s2[i].rep(o2),
    ensures
        seq_rep(s1, o1) == seq_rep(s2, o2),
    decreases s1.len(),
{
    if s1.len() == 0 {
        assert(seq_rep(s1, o1) =~= seq_rep(s2, o2));
    } else {
        assert(forall|i: int|
            0 <= i < s1.drop_first().len() ==> s1.drop_first()[i] == s1[i + 1]);
        lemma_seq_rep_pointwise(s1.drop_first(), s2.drop_first(), o1, o2);
    }
}

/// Two runs of equal length with the same representation are equal:
/// order and values are both preserved by an array transfer.
pub proof fn lemma_seq_rep_injective<T: Packed>(s1: Seq<T>, s2: Seq<T>, o: ByteOrder)
    requires
        s1.len() == s2.len(),
        seq_rep(s1, o) == seq_rep(s2, o),
    ensures
        s1 == s2,
{
    assert forall|i: int| 0 <= i < s1.len() implies s1[i] == s2[i] by {
        lemma_seq_rep_chunk(s1, o, i);
        lemma_seq_rep_chunk(s2, o, i);
        T::lemma_rep_injective(s1[i], s2[i], o);
    }
    assert(s1 =~= s2);
}

} // verus!
