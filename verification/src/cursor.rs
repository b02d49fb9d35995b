//! An in-memory byte stream: the sole stream type the transfer traits are
//! implemented for.

use vstd::prelude::*;
use crate::order::ByteOrder;
use crate::packed::Packed;
use crate::packed::seq_rep;
use crate::packed::lemma_seq_rep_len;
use crate::packed::lemma_seq_rep_push;

verus! {

/// What a transfer can fail with.
///
/// `UnexpectedEof` reports a short read: fewer bytes remained than an exact
/// transfer required.  `Misaligned` reports that a read-to-end consumed a
/// number of bytes that is not a multiple of the element size; it carries
/// that byte count and the element size.  The stream itself is in memory and
/// raises no failures of its own.
#[derive(Clone, Copy, Debug, PartialEq, Eq, Structural)]
pub enum StreamError {
    UnexpectedEof,
    Misaligned { bytes: usize, elem_size: usize },
}

/// `data` with the bytes from `pos` on overwritten by `chunk`, growing
/// `data` if `chunk` runs past its end.
pub open spec fn splice(data: Seq<u8>, pos: int, chunk: Seq<u8>) -> Seq<u8> {
    data.take(pos) + chunk + if pos + chunk.len() <= data.len() {
        data.skip(pos + chunk.len())
    } else {
        Seq::empty()
    }
}

/// The mathematical state of a byte stream: its bytes and its position.
/// The transfer traits state their contracts over this model.
pub struct StreamModel {
    pub contents: Seq<u8>,
    pub pos: nat,
}

impl StreamModel {
    /// The position never runs past the end of the stream.
    pub open spec fn wf(self) -> bool {
        self.pos <= self.contents.len()
    }

    /// The bytes from the position to the end: what a read can still see.
    pub open spec fn remaining(self) -> Seq<u8> {
        self.contents.skip(self.pos as int)
    }
}

/// What reading one value laid out in the order `o` does to a stream.
/// It fails with `UnexpectedEof`, without moving, exactly when fewer than
/// `T::size()` bytes remain; otherwise it consumes exactly `T::size()`
/// bytes, and the value read is the one those bytes represent.
pub open spec fn read_one_post<T: Packed>(
    pre: StreamModel,
    post: StreamModel,
    r: Result<T, StreamError>,
    o: ByteOrder,
) -> bool {
    &&& post.wf()
    &&& post.contents == pre.contents
    &&& match r {
        Ok(v) => {
            &&& pre.remaining().len() >= T::size()
            &&& post.pos == pre.pos + T::size()
            &&& T::valid_rep(pre.remaining().take(T::size() as int)) ==> v.rep(o)
                == pre.remaining().take(T::size() as int)
        },
        Err(e) => {
            &&& pre.remaining().len() < T::size()
            &&& e == StreamError::UnexpectedEof
            &&& post.pos == pre.pos
        },
    }
}

/// What reading exactly `buf0.len()` values laid out in the order `o` does
/// to a stream and to the buffer it fills (`buf0` before, `buf1` after).
/// All or nothing: when fewer than `buf0.len() * T::size()` bytes remain,
/// it fails with `UnexpectedEof` and moves neither the position nor the
/// buffer; otherwise it replaces the elements in stream order.
pub open spec fn read_exact_post<T: Packed>(
    pre: StreamModel,
    post: StreamModel,
    buf0: Seq<T>,
    buf1: Seq<T>,
    r: Result<(), StreamError>,
    o: ByteOrder,
) -> bool {
    &&& post.wf()
    &&& post.contents == pre.contents
    &&& buf1.len() == buf0.len()
    &&& match r {
        Ok(u) => {
            &&& pre.remaining().len() >= buf0.len() * T::size()
            &&& post.pos == pre.pos + buf0.len() * T::size()
            &&& forall|i: int|
                0 <= i < buf0.len() ==> (T::valid_rep(
                    pre.remaining().subrange(i * T::size(), (i + 1) * T::size()),
                ) ==> buf1[i].rep(o) == pre.remaining().subrange(
                    i * T::size(),
                    (i + 1) * T::size(),
                ))
        },
        Err(e) => {
            &&& pre.remaining().len() < buf0.len() * T::size()
            &&& e == StreamError::UnexpectedEof
            &&& post.pos == pre.pos
            &&& buf1 == buf0
        },
    }
}

/// What reading values laid out in the order `o` until exhaustion does to a
/// stream and to the buffer it appends to (`buf0` before, `buf1` after),
/// with `r` carrying how many values were appended.  The whole tail of the
/// stream is consumed either way; when its byte count is not a multiple of
/// `T::size()`, the buffer keeps exactly its old elements and the transfer
/// fails with `Misaligned`, reporting that count and the element size.
pub open spec fn read_to_end_post<T: Packed>(
    pre: StreamModel,
    post: StreamModel,
    buf0: Seq<T>,
    buf1: Seq<T>,
    r: Result<usize, StreamError>,
    o: ByteOrder,
) -> bool {
    &&& post.wf()
    &&& post.contents == pre.contents
    &&& post.pos == pre.contents.len()
    &&& match r {
        Ok(n) => {
            &&& pre.remaining().len() as int % T::size() as int == 0
            &&& n == pre.remaining().len() as int / T::size() as int
            &&& buf1.len() == buf0.len() + n
            &&& buf1.take(buf0.len() as int) == buf0
            &&& forall|i: int|
                #![trigger pre.remaining().subrange(i * T::size(), (i + 1) * T::size())]
                0 <= i < n ==> (T::valid_rep(
                    pre.remaining().subrange(i * T::size(), (i + 1) * T::size()),
                ) ==> buf1[buf0.len() + i].rep(o) == pre.remaining().subrange(
                    i * T::size(),
                    (i + 1) * T::size(),
                ))
        },
        Err(e) => {
            &&& pre.remaining().len() as int % T::size() as int != 0
            &&& e == (StreamError::Misaligned {
                bytes: pre.remaining().len() as usize,
                elem_size: T::size() as usize,
            })
            &&& buf1 == buf0
        },
    }
}

/// What writing one value laid out in the order `o` does to a stream: its
/// representation overwrites the bytes at the position, the stream grows as
/// needed, and the write never fails.
pub open spec fn write_one_post<T: Packed>(
    pre: StreamModel,
    post: StreamModel,
    t: T,
    r: Result<(), StreamError>,
    o: ByteOrder,
) -> bool {
    &&& post.wf()
    &&& r == Result::<(), StreamError>::Ok(())
    &&& post.contents == splice(pre.contents, pre.pos as int, t.rep(o))
    &&& post.pos == pre.pos + T::size()
}

/// What writing a whole run of values laid out in the order `o` does to a
/// stream: their concatenated representations overwrite the bytes at the
/// position, in order, the stream grows as needed, and the write never
/// fails.
pub open spec fn write_all_post<T: Packed>(
    pre: StreamModel,
    post: StreamModel,
    buf: Seq<T>,
    r: Result<(), StreamError>,
    o: ByteOrder,
) -> bool {
    &&& post.wf()
    &&& r == Result::<(), StreamError>::Ok(())
    &&& post.contents == splice(pre.contents, pre.pos as int, seq_rep(buf, o))
    &&& post.pos == pre.pos + buf.len() * T::size()
}

/// An ordered, seekable sequence of bytes held in memory, with a read/write
/// position.  Reads consume from the position; writes overwrite from the
/// position and extend the stream as needed, as a file cursor would.
pub struct ByteCursor {
    data: Vec<u8>,
    pos: usize,
}

impl ByteCursor {
    /// All bytes the stream holds.
    pub closed spec fn contents(self) -> Seq<u8> {
        self.data@
    }

    /// The read/write position.
    pub closed spec fn pos(self) -> nat {
        self.pos as nat
    }

    /// The position never runs past the end of the stream.
    pub open spec fn wf(self) -> bool {
        self.pos() <= self.contents().len()
    }

    /// The bytes from the position to the end: what a read can still see.
    pub open spec fn remaining(self) -> Seq<u8> {
        self.contents().skip(self.pos() as int)
    }

    /// The stream this cursor is, as a mathematical value.
    pub open spec fn model(self) -> StreamModel {
        StreamModel { contents: self.contents(), pos: self.pos() }
    }

    /// A stream over `data`, positioned at its start.
    pub fn new(data: Vec<u8>) -> (c: ByteCursor)
        ensures
            c.wf(),
            c.contents() == data@,
            c.pos() == 0,
    {
        ByteCursor { data, pos: 0 }
    }

    /// Moves the position to `p`, or to the end of the stream if `p` lies
    /// beyond it.
    pub fn set_position(&mut self, p: usize)
        requires
            old(self).wf(),
        ensures
            final(self).wf(),
            final(self).contents() == old(self).contents(),
            final(self).pos() == if p <= old(self).contents().len() {
                p as nat
            } else {
                old(self).contents().len()
            },
    {
        if p <= self.data.len() {
            self.pos = p;
        } else {
            self.pos = self.data.len();
        }
    }

    /// The current position.
    pub fn position(&self) -> (p: usize)
        ensures
            p == self.pos(),
    {
        self.pos
    }

    /// How many bytes a read can still see.
    pub fn remaining_len(&self) -> (n: usize)
        requires
            self.wf(),
        ensures
            n == self.remaining().len(),
    {
        self.data.len() - self.pos
    }

    /// Gives the stream's bytes up, consuming the stream.
    pub fn into_inner(self) -> (v: Vec<u8>)
        ensures
            v@ == self.contents(),
    {
        self.data
    }

    /// Reads the next `n` bytes and advances past them; fails without moving
    /// when fewer than `n` remain.
    fn take_chunk(&mut self, n: usize) -> (r: Result<Vec<u8>, StreamError>)
        requires
            old(self).wf(),
        ensures
            final(self).wf(),
            final(self).contents() == old(self).contents(),
            match r {
                Ok(chunk) => {
                    &&& old(self).remaining().len() >= n
                    &&& chunk@ == old(self).remaining().take(n as int)
                    &&& final(self).pos() == old(self).pos() + n
                },
                Err(e) => {
                    &&& old(self).remaining().len() < n
                    &&& e == StreamError::UnexpectedEof
                    &&& final(self).pos() == old(self).pos()
                },
            },
    {
        if self.data.len() - self.pos < n {
            return Err(StreamError::UnexpectedEof);
        }
        let mut chunk: Vec<u8> = Vec::new();
        let mut i: usize = 0;
        while i < n
            invariant
                old(self).wf(),
                self.contents() == old(self).contents(),
                self.pos() == old(self).pos(),
                i <= n,
                old(self).pos() + n <= old(self).contents().len(),
                old(self).contents().len() <= usize::MAX,
                chunk@ == old(self).remaining().take(i as int),
            decreases n - i,
        {
            chunk.push(self.data[self.pos + i]);
            i = i + 1;
            proof {
                assert(chunk@ =~= old(self).remaining().take(i as int));
            }
        }
        self.pos = self.pos + n;
        Ok(chunk)
    }

    /// Writes `chunk` at the position, overwriting what is there and
    /// extending the stream if the chunk runs past its end, then advances
    /// past what was written.
    fn put_chunk(&mut self, chunk: &Vec<u8>)
        requires
            old(self).wf(),
            old(self).pos() + chunk@.len() <= usize::MAX,
        ensures
            final(self).wf(),
            final(self).contents() == splice(
                old(self).contents(),
                old(self).pos() as int,
                chunk@,
            ),
            final(self).pos() == old(self).pos() + chunk@.len(),
    {
        let k = chunk.len();
        let mut out: Vec<u8> = Vec::new();
        let mut i: usize = 0;
        while i < self.pos
            invariant
                old(self).wf(),
                self.contents() == old(self).contents(),
                self.pos() == old(self).pos(),
                i <= old(self).pos(),
                out@ == old(self).contents().take(i as int),
            decreases old(self).pos() - i,
        {
            out.push(self.data[i]);
            i = i + 1;
            proof {
                assert(out@ =~= old(self).contents().take(i as int));
            }
        }
        let mut j: usize = 0;
        while j < k
            invariant
                old(self).wf(),
                self.contents() == old(self).contents(),
                self.pos() == old(self).pos(),
                j <= k,
                k == chunk@.len(),
                out@ == old(self).contents().take(old(self).pos() as int) + chunk@.take(
                    j as int,
                ),
            decreases k - j,
        {
            out.push(chunk[j]);
            j = j + 1;
            proof {
                assert(out@ =~= old(self).contents().take(old(self).pos() as int)
                    + chunk@.take(j as int));
            }
        }
        let mut t: usize = self.pos + k;
        while t < self.data.len()
            invariant
                old(self).wf(),
                self.contents() == old(self).contents(),
                self.pos() == old(self).pos(),
                old(self).pos() + k <= t <= old(self).contents().len() || t == old(
                    self,
                ).pos() + k,
                k == chunk@.len(),
                out@ == old(self).contents().take(old(self).pos() as int) + chunk@ + if old(
                    self,
                ).pos() + k <= old(self).contents().len() {
                    old(self).contents().subrange(old(self).pos() + k, t as int)
                } else {
                    Seq::<u8>::empty()
                },
            decreases old(self).contents().len() - t,
        {
            out.push(self.data[t]);
            t = t + 1;
            proof {
                assert(out@ =~= old(self).contents().take(old(self).pos() as int) + chunk@
                    + old(self).contents().subrange(old(self).pos() + k, t as int));
            }
        }
        let new_pos = self.pos + k;
        self.data = out;
        self.pos = new_pos;
        proof {
            assert(self.contents() =~= splice(
                old(self).contents(),
                old(self).pos() as int,
                chunk@,
            ));
        }
    }

    /// Reads one value laid out in the order `o`.  Fails with
    /// `UnexpectedEof`, without moving, exactly when fewer than `T::size()`
    /// bytes remain; otherwise consumes exactly `T::size()` bytes, and the
    /// value read is the one those bytes represent.
    pub fn unpack_with<T: Packed>(&mut self, o: ByteOrder) -> (r: Result<T, StreamError>)
        requires
            old(self).wf(),
            T::size() <= usize::MAX,
        ensures
            read_one_post(old(self).model(), final(self).model(), r, o),
    {
        let n = T::byte_size();
        let chunk = self.take_chunk(n)?;
        let v = T::decode(chunk.as_slice(), o);
        Ok(v)
    }

    /// Writes one value laid out in the order `o` at the position.  Never
    /// fails: the stream is in memory and grows as needed.
    pub fn pack_with<T: Packed>(&mut self, t: T, o: ByteOrder) -> (r: Result<
        (),
        StreamError,
    >)
        requires
            old(self).wf(),
            old(self).pos() + T::size() <= usize::MAX,
        ensures
            write_one_post(old(self).model(), final(self).model(), t, r, o),
    {
        proof {
            t.lemma_rep_len(o);
        }
        let mut tmp: Vec<u8> = Vec::new();
        t.encode(o, &mut tmp);
        self.put_chunk(&tmp);
        Ok(())
    }

    /// Reads exactly `buf.len()` values laid out in the order `o`, replacing
    /// the elements of `buf` in stream order.  All or nothing: when fewer
    /// than `buf.len() * T::size()` bytes remain, fails with `UnexpectedEof`
    /// and leaves both the stream position and `buf` untouched.
    pub fn unpack_exact_with<T: Packed>(
        &mut self,
        buf: &mut Vec<T>,
        o: ByteOrder,
    ) -> (r: Result<(), StreamError>)
        requires
            old(self).wf(),
            old(buf)@.len() * T::size() <= usize::MAX,
            T::size() <= usize::MAX,
        ensures
            read_exact_post(
                old(self).model(),
                final(self).model(),
                old(buf)@,
                final(buf)@,
                r,
                o,
            ),
    {
        let k = buf.len();
        let n = T::byte_size();
        let total = k * n;
        if self.data.len() - self.pos < total {
            return Err(StreamError::UnexpectedEof);
        }
        let mut out: Vec<T> = Vec::new();
        let mut i: usize = 0;
        while i < k
            invariant
                old(self).wf(),
                self.wf(),
                self.contents() == old(self).contents(),
                i <= k,
                k == old(buf)@.len(),
                n == T::size(),
                total == k * n,
                total <= usize::MAX,
                old(self).pos() + total <= old(self).contents().len(),
                self.pos() == old(self).pos() + i * T::size(),
                out@.len() == i,
                forall|j: int|
                    0 <= j < i ==> (T::valid_rep(
                        old(self).remaining().subrange(j * T::size(), (j + 1) * T::size()),
                    ) ==> out@[j].rep(o) == old(self).remaining().subrange(
                        j * T::size(),
                        (j + 1) * T::size(),
                    )),
            decreases k - i,
        {
            proof {
                assert(i * T::size() + T::size() == (i + 1) * T::size()) by (nonlinear_arith);
                assert((i + 1) * T::size() <= k * T::size()) by (nonlinear_arith)
                    requires i + 1 <= k, T::size() >= 0;
            }
            let ghost pre = *self;
            let v = match self.unpack_with::<T>(o) {
                Ok(v) => v,
                Err(e) => {
                    proof {
                        assert(pre.remaining().len() >= T::size());
                    }
                    return Err(e);
                },
            };
            out.push(v);
            i = i + 1;
            proof {
                let sz = T::size() as int;
                let rem0 = old(self).remaining();
                assert(pre.remaining() =~= rem0.skip((i - 1) * sz));
                assert(pre.remaining().take(sz) =~= rem0.subrange((i - 1) * sz, i * sz));
            }
        }
        *buf = out;
        Ok(())
    }

    /// Reads values laid out in the order `o` until the stream is exhausted,
    /// appending them to `buf`, and returns how many were appended.  The
    /// whole tail of the stream is consumed either way; when its byte count
    /// is not a multiple of `T::size()`, nothing is appended and the
    /// transfer fails with `Misaligned`, reporting that count and the
    /// element size.
    pub fn unpack_to_end_with<T: Packed>(
        &mut self,
        buf: &mut Vec<T>,
        o: ByteOrder,
    ) -> (r: Result<usize, StreamError>)
        requires
            old(self).wf(),
            1 <= T::size() <= usize::MAX,
        ensures
            read_to_end_post(
                old(self).model(),
                final(self).model(),
                old(buf)@,
                final(buf)@,
                r,
                o,
            ),
    {
        let n = T::byte_size();
        let rem = self.data.len() - self.pos;
        if rem % n != 0 {
            self.pos = self.data.len();
            return Err(StreamError::Misaligned { bytes: rem, elem_size: n });
        }
        let k = rem / n;
        proof {
            assert(k * T::size() == rem) by (nonlinear_arith)
                requires
                    k == rem as int / T::size() as int,
                    rem as int % T::size() as int == 0,
                    T::size() >= 1,
                    rem >= 0,
            ;
        }
        let mut i: usize = 0;
        while i < k
            invariant
                old(self).wf(),
                self.wf(),
                self.contents() == old(self).contents(),
                i <= k,
                n == T::size(),
                k * T::size() == old(self).remaining().len(),
                old(self).pos() + k * T::size() <= old(self).contents().len(),
                self.pos() == old(self).pos() + i * T::size(),
                buf@.len() == old(buf)@.len() + i,
                buf@.take(old(buf)@.len() as int) == old(buf)@,
                forall|j: int|
                    #![trigger old(self).remaining().subrange(j * T::size(), (j + 1) * T::size())]
                    0 <= j < i ==> (T::valid_rep(
                        old(self).remaining().subrange(j * T::size(), (j + 1) * T::size()),
                    ) ==> buf@[old(buf)@.len() + j].rep(o) == old(
                        self,
                    ).remaining().subrange(j * T::size(), (j + 1) * T::size())),
            decreases k - i,
        {
            proof {
                assert(i * T::size() + T::size() == (i + 1) * T::size()) by (nonlinear_arith);
                assert((i + 1) * T::size() <= k * T::size()) by (nonlinear_arith)
                    requires i + 1 <= k, T::size() >= 0;
            }
            let ghost pre = *self;
            let v = match self.unpack_with::<T>(o) {
                Ok(v) => v,
                Err(e) => {
                    proof {
                        assert(pre.remaining().len() >= T::size());
                    }
                    return Err(e);
                },
            };
            buf.push(v);
            i = i + 1;
            proof {
                let sz = T::size() as int;
                let rem0 = old(self).remaining();
                assert(pre.remaining() =~= rem0.skip((i - 1) * sz));
                assert(pre.remaining().take(sz) =~= rem0.subrange((i - 1) * sz, i * sz));
                assert(buf@.take(old(buf)@.len() as int) =~= old(buf)@);
            }
        }
        Ok(k)
    }

    /// Writes every value of `buf` in order, laid out in the order `o`, at
    /// the position.  Never fails: the stream is in memory and grows as
    /// needed.
    pub fn pack_all_with<T: Packed>(&mut self, buf: &[T], o: ByteOrder) -> (r: Result<
        (),
        StreamError,
    >)
        requires
            old(self).wf(),
            old(self).pos() + buf@.len() * T::size() <= usize::MAX,
        ensures
            write_all_post(old(self).model(), final(self).model(), buf@, r, o),
    {
        let mut tmp: Vec<u8> = Vec::new();
        let mut i: usize = 0;
        let len = buf.len();
        while i < len
            invariant
                old(self).wf(),
                self.contents() == old(self).contents(),
                self.pos() == old(self).pos(),
                i <= len,
                len == buf@.len(),
                old(self).pos() + buf@.len() * T::size() <= usize::MAX,
                tmp@ == seq_rep(buf@.take(i as int), o),
            decreases len - i,
        {
            proof {
                lemma_seq_rep_len::<T>(buf@.take(i as int), o);
                assert(i * T::size() + T::size() == (i + 1) * T::size()) by (nonlinear_arith);
                assert((i + 1) * T::size() <= buf@.len() * T::size()) by (nonlinear_arith)
                    requires i + 1 <= buf@.len(), T::size() >= 0;
                assert(buf@.take(i as int).len() == i);
            }
            buf[i].encode(o, &mut tmp);
            i = i + 1;
            proof {
                lemma_seq_rep_push::<T>(buf@.take(i - 1), buf@[i - 1], o);
                assert(buf@.take(i as int) =~= buf@.take(i - 1).push(buf@[i - 1]));
            }
        }
        proof {
            assert(buf@.take(len as int) =~= buf@);
            lemma_seq_rep_len::<T>(buf@, o);
        }
        self.put_chunk(&tmp);
        Ok(())
    }
}

} // verus!
