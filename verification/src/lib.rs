//! In-place binary marshalling of fixed-layout values to and from a byte
//! stream, with optional endianness normalization.
//!
//! The [`Packed`] trait marks the types whose values may travel as their raw
//! byte representation and knows how to reverse their byte order.  The
//! [`Unpacker`] and [`Packer`] traits transfer such values in the byte order
//! of the host; [`LEUnpacker`] / [`LEPacker`] force little-endian wire format
//! and [`BEUnpacker`] / [`BEPacker`] force big-endian wire format, whatever
//! the host order is.  All six are implemented for [`ByteCursor`], an
//! in-memory byte stream.

pub mod order;
pub mod packed;
pub mod scalars;
pub mod cursor;
pub mod laws;
pub mod native;
pub mod arrays;
pub mod record;
pub mod wire;

pub use cursor::ByteCursor;
pub use cursor::StreamError;
pub use cursor::StreamModel;
pub use native::Packer;
pub use native::Unpacker;
pub use order::ByteOrder;
pub use order::host_order;
pub use order::native_order;
pub use packed::Packed;
pub use record::Record;
pub use wire::BEPacker;
pub use wire::BEUnpacker;
pub use wire::LEPacker;
pub use wire::LEUnpacker;
