//! Fixed-size arrays of a capability-marked element type are themselves
//! capability-marked: their representation is their elements' representations
//! laid end to end, and reversing their byte order reverses each element in
//! place, in index order.

use vstd::prelude::*;
use vstd::slice::slice_subrange;
use crate::order::ByteOrder;
use crate::packed::Packed;
use crate::packed::seq_rep;
use crate::packed::lemma_seq_rep_len;
use crate::packed::lemma_seq_rep_chunk;
use crate::packed::lemma_seq_rep_push;
use crate::packed::lemma_seq_rep_injective;
use crate::packed::lemma_seq_rep_pointwise;

verus! {

broadcast use vstd::array::group_array_axioms;

/// Relies on `Vec::try_into` for arrays: when the lengths agree it yields
/// an array holding exactly the vector's elements, in order.
#[verifier::external_body]
fn array_from_vec<T, const N: usize>(v: Vec<T>) -> (r: [T; N])
    requires
        v@.len() == N,
    ensures
        r@ == v@,
{
    v.try_into().ok().unwrap()
}

impl<T: Packed + Copy, const N: usize> Packed for [T; N] {
    open spec fn size() -> nat {
        (N * T::size()) as nat
    }

    open spec fn rep(self, o: ByteOrder) -> Seq<u8> {
        seq_rep(self@, o)
    }

    open spec fn valid_rep(bytes: Seq<u8>) -> bool {
        &&& bytes.len() == N * T::size()
        &&& forall|i: int|
            0 <= i < N ==> T::valid_rep(
                #[trigger] bytes.subrange(i * T::size(), (i + 1) * T::size()),
            )
    }

    proof fn lemma_rep_len(self, o: ByteOrder) {
        lemma_seq_rep_len(self@, o);
    }

    proof fn lemma_rep_valid(self, o: ByteOrder) {
        lemma_seq_rep_len(self@, o);
        assert forall|i: int|
            0 <= i < N implies T::valid_rep(
            #[trigger] self.rep(o).subrange(i * T::size(), (i + 1) * T::size()),
        ) by {
            lemma_seq_rep_chunk(self@, o, i);
            self@[i].lemma_rep_valid(o);
        }
    }

    proof fn lemma_rep_injective(a: Self, b: Self, o: ByteOrder) {
        if a.rep(o) == b.rep(o) {
            lemma_seq_rep_injective(a@, b@, o);
            assert(a =~= b);
        }
    }

    fn byte_size() -> (n: usize) {
        if N == 0 {
            0
        } else {
            proof {
                assert(T::size() <= N * T::size()) by (nonlinear_arith)
                    requires N >= 1, T::size() >= 0;
            }
            N * T::byte_size()
        }
    }

    fn encode(&self, o: ByteOrder, out: &mut Vec<u8>) {
        let mut i: usize = 0;
        while i < N
            invariant
                i <= N,
                old(out)@.len() + N * T::size() <= usize::MAX,
                out@ == old(out)@ + seq_rep(self@.take(i as int), o),
            decreases N - i,
        {
            proof {
                lemma_seq_rep_len::<T>(self@.take(i as int), o);
                assert(self@.take(i as int).len() == i);
                assert(i * T::size() + T::size() == (i + 1) * T::size())
                    by (nonlinear_arith);
                assert((i + 1) * T::size() <= N * T::size()) by (nonlinear_arith)
                    requires i + 1 <= N, T::size() >= 0;
            }
            let x = self[i];
            x.encode(o, out);
            i = i + 1;
            proof {
                lemma_seq_rep_push::<T>(self@.take(i - 1), self@[i - 1], o);
                assert(self@.take(i as int) =~= self@.take(i - 1).push(self@[i - 1]));
            }
        }
        proof {
            assert(self@.take(N as int) =~= self@);
        }
    }

    fn decode(bytes: &[u8], o: ByteOrder) -> (r: Self) {
        let total = bytes.len();
        let mut v: Vec<T> = Vec::new();
        let mut i: usize = 0;
        while i < N
            invariant
                i <= N,
                v@.len() == i,
                total == bytes@.len(),
                bytes@.len() == N * T::size(),
                Self::valid_rep(bytes@) ==> seq_rep(v@, o) == bytes@.take(
                    i * T::size() as int,
                ),
            decreases N - i,
        {
            proof {
                assert(i * T::size() + T::size() == (i + 1) * T::size())
                    by (nonlinear_arith);
                assert((i + 1) * T::size() <= N * T::size()) by (nonlinear_arith)
                    requires i + 1 <= N, T::size() >= 0;
                assert(T::size() <= N * T::size()) by (nonlinear_arith)
                    requires i < N, T::size() >= 0;
            }
            let sz = T::byte_size();
            let chunk = slice_subrange(bytes, i * sz, (i + 1) * sz);
            let x = T::decode(chunk, o);
            let ghost prev = v@;
            v.push(x);
            i = i + 1;
            proof {
                if Self::valid_rep(bytes@) {
                    assert(T::valid_rep(
                        bytes@.subrange((i - 1) * T::size(), i * T::size()),
                    ));
                    lemma_seq_rep_push::<T>(prev, x, o);
                    assert(seq_rep(v@, o) =~= bytes@.take(i * T::size() as int));
                }
            }
        }
        let r = array_from_vec::<T, N>(v);
        proof {
            if Self::valid_rep(bytes@) {
                assert(bytes@.take((N * T::size()) as int) =~= bytes@);
            }
        }
        r
    }

    fn switch_endianness(&mut self) {
        let mut i: usize = 0;
        while i < N
            invariant
                i <= N,
                self@.len() == N,
                forall|j: int, o: ByteOrder|
                    0 <= j < i ==> (#[trigger] self@[j].rep(o)) == old(self)@[j].rep(
                        o.flip(),
                    ),
                forall|j: int| i <= j < N ==> self@[j] == old(self)@[j],
            decreases N - i,
        {
            let mut x = self[i];
            x.switch_endianness();
            self[i] = x;
            i = i + 1;
        }
        proof {
            assert forall|o: ByteOrder| #[trigger] (*self).rep(o) == old(self).rep(
                o.flip(),
            ) by {
                lemma_seq_rep_pointwise(self@, old(self)@, o, o.flip());
            }
        }
    }
}

} // verus!
