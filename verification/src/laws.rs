//! The library's round-trip theorems, stated over the transfer predicates
//! that the packing and unpacking operations ensure.  Each one holds for
//! every byte order, so it covers the native transfers and both forced wire
//! formats at once.

use vstd::prelude::*;
use crate::order::ByteOrder;
use crate::packed::Packed;
use crate::packed::seq_rep;
use crate::packed::lemma_seq_rep_len;
use crate::packed::lemma_seq_rep_chunk;
use crate::cursor::StreamModel;
use crate::cursor::StreamError;
use crate::cursor::read_one_post;
use crate::cursor::read_exact_post;
use crate::cursor::read_to_end_post;
use crate::cursor::write_one_post;
use crate::cursor::write_all_post;

verus! {

/// Round trip: packing a value at a position and unpacking from that same
/// position, under one byte order, must succeed and yields exactly the
/// packed value.
pub proof fn lemma_pack_then_unpack<T: Packed>(
    s0: StreamModel,
    s1: StreamModel,
    s2: StreamModel,
    v: T,
    wr: Result<(), StreamError>,
    r: Result<T, StreamError>,
    o: ByteOrder,
)
    requires
        s0.wf(),
        write_one_post(s0, s1, v, wr, o),
        read_one_post(StreamModel { contents: s1.contents, pos: s0.pos }, s2, r, o),
    ensures
        r == Ok::<T, StreamError>(v),
{
    v.lemma_rep_len(o);
    v.lemma_rep_valid(o);
    let mid = StreamModel { contents: s1.contents, pos: s0.pos };
    assert(mid.remaining().take(T::size() as int) =~= v.rep(o));
    match r {
        Ok(x) => {
            T::lemma_rep_injective(x, v, o);
        },
        Err(e) => {
            assert(mid.remaining().len() >= T::size());
        },
    }
}

/// Array round trip, order preserved: packing a run of values and reading
/// the same number of values back from the same position, under one byte
/// order, must succeed and yields the same values in the same order.
pub proof fn lemma_pack_all_then_unpack_exact<T: Packed>(
    s0: StreamModel,
    s1: StreamModel,
    s2: StreamModel,
    vals: Seq<T>,
    buf0: Seq<T>,
    buf1: Seq<T>,
    wr: Result<(), StreamError>,
    r: Result<(), StreamError>,
    o: ByteOrder,
)
    requires
        s0.wf(),
        write_all_post(s0, s1, vals, wr, o),
        buf0.len() == vals.len(),
        read_exact_post(StreamModel { contents: s1.contents, pos: s0.pos }, s2, buf0, buf1, r, o),
    ensures
        r == Ok::<(), StreamError>(()),
        buf1 == vals,
{
    lemma_seq_rep_len(vals, o);
    let sz = T::size() as int;
    let total = vals.len() * sz;
    let mid = StreamModel { contents: s1.contents, pos: s0.pos };
    assert(mid.remaining().take(total) =~= seq_rep(vals, o));
    match r {
        Ok(u) => {
            assert forall|i: int| 0 <= i < vals.len() implies buf1[i] == vals[i] by {
                assert((i + 1) * sz <= total && 0 <= i * sz && i * sz + sz == (i + 1) * sz)
                    by (nonlinear_arith)
                    requires 0 <= i < vals.len(), sz >= 0, total == vals.len() * sz;
                lemma_seq_rep_chunk(vals, o, i);
                vals[i].lemma_rep_valid(o);
                assert(mid.remaining().subrange(i * sz, (i + 1) * sz) =~= seq_rep(
                    vals,
                    o,
                ).subrange(i * sz, (i + 1) * sz));
                T::lemma_rep_injective(buf1[i], vals[i], o);
            }
            assert(buf1 =~= vals);
        },
        Err(e) => {
            assert(mid.remaining().len() >= vals.len() * T::size());
        },
    }
}

/// Until-exhaustion round trip: packing a run of values at the end of a
/// stream and then reading to the end from that same position, under one
/// byte order, must succeed, appends exactly the packed values in order,
/// and reports their number.
pub proof fn lemma_pack_all_then_unpack_to_end<T: Packed>(
    s0: StreamModel,
    s1: StreamModel,
    s2: StreamModel,
    vals: Seq<T>,
    buf0: Seq<T>,
    buf1: Seq<T>,
    wr: Result<(), StreamError>,
    r: Result<usize, StreamError>,
    o: ByteOrder,
)
    requires
        s0.wf(),
        s0.pos == s0.contents.len(),
        1 <= T::size(),
        write_all_post(s0, s1, vals, wr, o),
        read_to_end_post(StreamModel { contents: s1.contents, pos: s0.pos }, s2, buf0, buf1, r, o),
    ensures
        r == Ok::<usize, StreamError>(vals.len() as usize),
        buf1 == buf0 + vals,
{
    lemma_seq_rep_len(vals, o);
    let sz = T::size() as int;
    let total = vals.len() * sz;
    let mid = StreamModel { contents: s1.contents, pos: s0.pos };
    assert(mid.remaining() =~= seq_rep(vals, o));
    assert(total % sz == 0 && total / sz == vals.len()) by (nonlinear_arith)
        requires sz >= 1, total == vals.len() * sz, vals.len() >= 0;
    match r {
        Ok(n) => {
            assert forall|i: int| 0 <= i < vals.len() implies buf1[buf0.len() + i]
                == vals[i] by {
                assert((i + 1) * sz <= total && 0 <= i * sz && i * sz + sz == (i + 1) * sz)
                    by (nonlinear_arith)
                    requires 0 <= i < vals.len(), sz >= 0, total == vals.len() * sz;
                lemma_seq_rep_chunk(vals, o, i);
                vals[i].lemma_rep_valid(o);
                assert(mid.remaining().subrange(i * sz, (i + 1) * sz) =~= seq_rep(
                    vals,
                    o,
                ).subrange(i * sz, (i + 1) * sz));
                T::lemma_rep_injective(buf1[buf0.len() + i], vals[i], o);
            }
            assert(buf1 =~= buf0 + vals);
        },
        Err(e) => {
        },
    }
}

} // verus!
