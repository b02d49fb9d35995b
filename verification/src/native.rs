//! The native transfer traits: reads and writes in the byte order of the
//! host, with no conversion.

use vstd::prelude::*;
use crate::order::host_order;
use crate::order::native_order;
use crate::packed::Packed;
use crate::cursor::ByteCursor;
use crate::cursor::StreamModel;
use crate::cursor::StreamError;
use crate::cursor::read_one_post;
use crate::cursor::read_exact_post;
use crate::cursor::read_to_end_post;
use crate::cursor::write_one_post;
use crate::cursor::write_all_post;

verus! {

/// Reads capability-marked values from a byte stream in host byte order.
pub trait Unpacker {
    /// The stream this reader stands on.
    spec fn stream(self) -> StreamModel;

    /// Reads one value.  Fails with `UnexpectedEof`, without moving, exactly
    /// when fewer than `T::size()` bytes remain; otherwise consumes exactly
    /// `T::size()` bytes, which are the value's host-order representation.
    fn unpack<T: Packed>(&mut self) -> (r: Result<T, StreamError>)
        requires
            old(self).stream().wf(),
            T::size() <= usize::MAX,
        ensures
            read_one_post(old(self).stream(), final(self).stream(), r, host_order()),
    ;

    /// Reads values until the stream is exhausted, appending them to `buf`,
    /// and returns how many were appended.  The whole tail of the stream is
    /// consumed either way; when its byte count is not a multiple of
    /// `T::size()`, `buf` keeps exactly its old elements and the transfer
    /// fails with `Misaligned`, reporting that count and the element size.
    fn unpack_to_end<T: Packed>(&mut self, buf: &mut Vec<T>) -> (r: Result<
        usize,
        StreamError,
    >)
        requires
            old(self).stream().wf(),
            1 <= T::size() <= usize::MAX,
        ensures
            read_to_end_post(
                old(self).stream(),
                final(self).stream(),
                old(buf)@,
                final(buf)@,
                r,
                host_order(),
            ),
    ;

    /// Reads exactly `buf.len()` values, replacing the elements of `buf` in
    /// stream order.  All or nothing: when fewer than
    /// `buf.len() * T::size()` bytes remain, fails with `UnexpectedEof` and
    /// leaves both the stream position and `buf` untouched.
    fn unpack_exact<T: Packed>(&mut self, buf: &mut Vec<T>) -> (r: Result<
        (),
        StreamError,
    >)
        requires
            old(self).stream().wf(),
            old(buf)@.len() * T::size() <= usize::MAX,
            T::size() <= usize::MAX,
        ensures
            read_exact_post(
                old(self).stream(),
                final(self).stream(),
                old(buf)@,
                final(buf)@,
                r,
                host_order(),
            ),
    ;
}

/// Writes capability-marked values to a byte stream in host byte order.
pub trait Packer {
    /// The stream this writer stands on.
    spec fn stream(self) -> StreamModel;

    /// Writes one value's host-order representation at the position.
    /// Never fails: the stream is in memory and grows as needed.
    fn pack<T: Packed>(&mut self, t: T) -> (r: Result<(), StreamError>)
        requires
            old(self).stream().wf(),
            old(self).stream().pos + T::size() <= usize::MAX,
        ensures
            write_one_post(old(self).stream(), final(self).stream(), t, r, host_order()),
    ;

    /// Writes every value of `buf` in order, in host-order representation,
    /// at the position.  Never fails: the stream is in memory and grows as
    /// needed.
    fn pack_all<T: Packed>(&mut self, buf: &[T]) -> (r: Result<(), StreamError>)
        requires
            old(self).stream().wf(),
            old(self).stream().pos + buf@.len() * T::size() <= usize::MAX,
        ensures
            write_all_post(
                old(self).stream(),
                final(self).stream(),
                buf@,
                r,
                host_order(),
            ),
    ;
}

impl Unpacker for ByteCursor {
    open spec fn stream(self) -> StreamModel {
        StreamModel { contents: self.contents(), pos: self.pos() }
    }

    fn unpack<T: Packed>(&mut self) -> (r: Result<T, StreamError>) {
        let o = native_order();
        self.unpack_with::<T>(o)
    }

    fn unpack_to_end<T: Packed>(&mut self, buf: &mut Vec<T>) -> (r: Result<
        usize,
        StreamError,
    >) {
        let o = native_order();
        self.unpack_to_end_with::<T>(buf, o)
    }

    fn unpack_exact<T: Packed>(&mut self, buf: &mut Vec<T>) -> (r: Result<
        (),
        StreamError,
    >) {
        let o = native_order();
        self.unpack_exact_with::<T>(buf, o)
    }
}

impl Packer for ByteCursor {
    open spec fn stream(self) -> StreamModel {
        StreamModel { contents: self.contents(), pos: self.pos() }
    }

    fn pack<T: Packed>(&mut self, t: T) -> (r: Result<(), StreamError>) {
        let o = native_order();
        self.pack_with::<T>(t, o)
    }

    fn pack_all<T: Packed>(&mut self, buf: &[T]) -> (r: Result<(), StreamError>) {
        let o = native_order();
        self.pack_all_with::<T>(buf, o)
    }
}

} // verus!
