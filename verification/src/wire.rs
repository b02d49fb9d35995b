//! The endian-aware transfer traits: the same operations as the native
//! [`Unpacker`] and [`Packer`], but guaranteeing a little-endian or
//! big-endian wire format whatever the host order is.  When the host order
//! already matches the requested order they are a pure pass-through;
//! otherwise each value's byte order is reversed around the native transfer.
//!
//! [`Unpacker`]: crate::native::Unpacker
//! [`Packer`]: crate::native::Packer

use vstd::prelude::*;
use crate::order::ByteOrder;
use crate::order::native_order;
use crate::packed::Packed;
use crate::cursor::ByteCursor;
use crate::cursor::StreamModel;
use crate::cursor::StreamError;
use crate::cursor::read_one_post;
use crate::cursor::read_exact_post;
use crate::cursor::read_to_end_post;
use crate::cursor::write_one_post;
use crate::cursor::write_all_post;

verus! {

/// Reads capability-marked values laid out in little-endian wire format,
/// whatever the host order is.  The operations and their failure behaviour
/// are those of [`crate::native::Unpacker`].
pub trait LEUnpacker {
    /// The stream this reader stands on.
    spec fn stream(self) -> StreamModel;

    /// Reads one little-endian value.
    fn unpack<T: Packed>(&mut self) -> (r: Result<T, StreamError>)
        requires
            old(self).stream().wf(),
            T::size() <= usize::MAX,
        ensures
            read_one_post(
                old(self).stream(),
                final(self).stream(),
                r,
                ByteOrder::Little,
            ),
    ;

    /// Reads little-endian values until the stream is exhausted, appending
    /// them to `buf`.
    fn unpack_to_end<T: Packed>(&mut self, buf: &mut Vec<T>) -> (r: Result<
        usize,
        StreamError,
    >)
        requires
            old(self).stream().wf(),
            1 <= T::size() <= usize::MAX,
        ensures
            read_to_end_post(
                old(self).stream(),
                final(self).stream(),
                old(buf)@,
                final(buf)@,
                r,
                ByteOrder::Little,
            ),
    ;

    /// Reads exactly `buf.len()` little-endian values into `buf`.
    fn unpack_exact<T: Packed>(&mut self, buf: &mut Vec<T>) -> (r: Result<
        (),
        StreamError,
    >)
        requires
            old(self).stream().wf(),
            old(buf)@.len() * T::size() <= usize::MAX,
            T::size() <= usize::MAX,
        ensures
            read_exact_post(
                old(self).stream(),
                final(self).stream(),
                old(buf)@,
                final(buf)@,
                r,
                ByteOrder::Little,
            ),
    ;
}

/// Writes capability-marked values in little-endian wire format, whatever
/// the host order is.  The operations and their failure behaviour are those
/// of [`crate::native::Packer`].
pub trait LEPacker {
    /// The stream this writer stands on.
    spec fn stream(self) -> StreamModel;

    /// Writes one value in little-endian layout.
    fn pack<T: Packed>(&mut self, t: T) -> (r: Result<(), StreamError>)
        requires
            old(self).stream().wf(),
            old(self).stream().pos + T::size() <= usize::MAX,
        ensures
            write_one_post(
                old(self).stream(),
                final(self).stream(),
                t,
                r,
                ByteOrder::Little,
            ),
    ;

    /// Writes every value of `buf` in order, in little-endian layout.  `T`
    /// is asked to be `Clone` because a reversal cannot be done in place on
    /// a borrowed run: a host whose order differs works on copies.
    fn pack_all<T: Packed + Clone>(&mut self, buf: &[T]) -> (r: Result<(), StreamError>)
        requires
            old(self).stream().wf(),
            old(self).stream().pos + buf@.len() * T::size() <= usize::MAX,
        ensures
            write_all_post(
                old(self).stream(),
                final(self).stream(),
                buf@,
                r,
                ByteOrder::Little,
            ),
    ;
}

/// Reads capability-marked values laid out in big-endian wire format,
/// whatever the host order is.  The operations and their failure behaviour
/// are those of [`crate::native::Unpacker`].
pub trait BEUnpacker {
    /// The stream this reader stands on.
    spec fn stream(self) -> StreamModel;

    /// Reads one big-endian value.
    fn unpack<T: Packed>(&mut self) -> (r: Result<T, StreamError>)
        requires
            old(self).stream().wf(),
            T::size() <= usize::MAX,
        ensures
            read_one_post(old(self).stream(), final(self).stream(), r, ByteOrder::Big),
    ;

    /// Reads big-endian values until the stream is exhausted, appending
    /// them to `buf`.
    fn unpack_to_end<T: Packed>(&mut self, buf: &mut Vec<T>) -> (r: Result<
        usize,
        StreamError,
    >)
        requires
            old(self).stream().wf(),
            1 <= T::size() <= usize::MAX,
        ensures
            read_to_end_post(
                old(self).stream(),
                final(self).stream(),
                old(buf)@,
                final(buf)@,
                r,
                ByteOrder::Big,
            ),
    ;

    /// Reads exactly `buf.len()` big-endian values into `buf`.
    fn unpack_exact<T: Packed>(&mut self, buf: &mut Vec<T>) -> (r: Result<
        (),
        StreamError,
    >)
        requires
            old(self).stream().wf(),
            old(buf)@.len() * T::size() <= usize::MAX,
            T::size() <= usize::MAX,
        ensures
            read_exact_post(
                old(self).stream(),
                final(self).stream(),
                old(buf)@,
                final(buf)@,
                r,
                ByteOrder::Big,
            ),
    ;
}

/// Writes capability-marked values in big-endian wire format, whatever the
/// host order is.  The operations and their failure behaviour are those of
/// [`crate::native::Packer`].
pub trait BEPacker {
    /// The stream this writer stands on.
    spec fn stream(self) -> StreamModel;

    /// Writes one value in big-endian layout.
    fn pack<T: Packed>(&mut self, t: T) -> (r: Result<(), StreamError>)
        requires
            old(self).stream().wf(),
            old(self).stream().pos + T::size() <= usize::MAX,
        ensures
            write_one_post(old(self).stream(), final(self).stream(), t, r, ByteOrder::Big),
    ;

    /// Writes every value of `buf` in order, in big-endian layout.  `T` is
    /// asked to be `Clone` because a reversal cannot be done in place on a
    /// borrowed run: a host whose order differs works on copies.
    fn pack_all<T: Packed + Clone>(&mut self, buf: &[T]) -> (r: Result<(), StreamError>)
        requires
            old(self).stream().wf(),
            old(self).stream().pos + buf@.len() * T::size() <= usize::MAX,
        ensures
            write_all_post(
                old(self).stream(),
                final(self).stream(),
                buf@,
                r,
                ByteOrder::Big,
            ),
    ;
}

impl LEUnpacker for ByteCursor {
    open spec fn stream(self) -> StreamModel {
        StreamModel { contents: self.contents(), pos: self.pos() }
    }

    fn unpack<T: Packed>(&mut self) -> (r: Result<T, StreamError>) {
        let o = native_order();
        if o == ByteOrder::Little {
            self.unpack_with::<T>(ByteOrder::Little)
        } else {
            match self.unpack_with::<T>(ByteOrder::Big) {
                Ok(v) => {
                    let mut v = v;
                    v.switch_endianness();
                    Ok(v)
                },
                Err(e) => Err(e),
            }
        }
    }

    fn unpack_to_end<T: Packed>(&mut self, buf: &mut Vec<T>) -> (r: Result<
        usize,
        StreamError,
    >) {
        self.unpack_to_end_with::<T>(buf, ByteOrder::Little)
    }

    fn unpack_exact<T: Packed>(&mut self, buf: &mut Vec<T>) -> (r: Result<
        (),
        StreamError,
    >) {
        self.unpack_exact_with::<T>(buf, ByteOrder::Little)
    }
}

impl LEPacker for ByteCursor {
    open spec fn stream(self) -> StreamModel {
        StreamModel { contents: self.contents(), pos: self.pos() }
    }

    fn pack<T: Packed>(&mut self, t: T) -> (r: Result<(), StreamError>) {
        let o = native_order();
        if o == ByteOrder::Little {
            self.pack_with::<T>(t, ByteOrder::Little)
        } else {
            let mut t = t;
            t.switch_endianness();
            self.pack_with::<T>(t, ByteOrder::Big)
        }
    }

    fn pack_all<T: Packed + Clone>(&mut self, buf: &[T]) -> (r: Result<(), StreamError>) {
        self.pack_all_with::<T>(buf, ByteOrder::Little)
    }
}

impl BEUnpacker for ByteCursor {
    open spec fn stream(self) -> StreamModel {
        StreamModel { contents: self.contents(), pos: self.pos() }
    }

    fn unpack<T: Packed>(&mut self) -> (r: Result<T, StreamError>) {
        let o = native_order();
        if o == ByteOrder::Big {
            self.unpack_with::<T>(ByteOrder::Big)
        } else {
            match self.unpack_with::<T>(ByteOrder::Little) {
                Ok(v) => {
                    let mut v = v;
                    v.switch_endianness();
                    Ok(v)
                },
                Err(e) => Err(e),
            }
        }
    }

    fn unpack_to_end<T: Packed>(&mut self, buf: &mut Vec<T>) -> (r: Result<
        usize,
        StreamError,
    >) {
        self.unpack_to_end_with::<T>(buf, ByteOrder::Big)
    }

    fn unpack_exact<T: Packed>(&mut self, buf: &mut Vec<T>) -> (r: Result<
        (),
        StreamError,
    >) {
        self.unpack_exact_with::<T>(buf, ByteOrder::Big)
    }
}

impl BEPacker for ByteCursor {
    open spec fn stream(self) -> StreamModel {
        StreamModel { contents: self.contents(), pos: self.pos() }
    }

    fn pack<T: Packed>(&mut self, t: T) -> (r: Result<(), StreamError>) {
        let o = native_order();
        if o == ByteOrder::Big {
            self.pack_with::<T>(t, ByteOrder::Big)
        } else {
            let mut t = t;
            t.switch_endianness();
            self.pack_with::<T>(t, ByteOrder::Little)
        }
    }

    fn pack_all<T: Packed + Clone>(&mut self, buf: &[T]) -> (r: Result<(), StreamError>) {
        self.pack_all_with::<T>(buf, ByteOrder::Big)
    }
}

} // verus!
