//! The two byte orders a value can be laid out in, and the order of the host.

use vstd::prelude::*;

verus! {

/// A byte order for the wire: least significant byte first (`Little`) or
/// most significant byte first (`Big`).
#[derive(Clone, Copy, Debug, PartialEq, Eq, Structural)]
pub enum ByteOrder {
    Little,
    Big,
}

impl ByteOrder {
    /// The opposite order.
    pub open spec fn flip(self) -> ByteOrder {
        match self {
            ByteOrder::Little => ByteOrder::Big,
            ByteOrder::Big => ByteOrder::Little,
        }
    }
}

/// The byte order of the host's memory representation, as abstracted by
/// `vstd::endian::endianness()`.
pub open spec fn host_order() -> ByteOrder {
    match vstd::endian::endianness() {
        vstd::endian::Endian::Little => ByteOrder::Little,
        vstd::endian::Endian::Big => ByteOrder::Big,
    }
}

/// Relies on `u16::to_ne_bytes`: the native representation of `1u16` starts
/// with the byte `1` exactly on a little-endian host, which is the order
/// `vstd::endian::endianness()` stands for.
#[verifier::external_body]
pub fn native_order() -> (r: ByteOrder)
    ensures
        r == host_order(),
{
    if 1u16.to_ne_bytes()[0] == 1 {
        ByteOrder::Little
    } else {
        ByteOrder::Big
    }
}

} // verus!
