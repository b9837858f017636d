//! The byte buffers that travel between the transport, the codec and the log.
//!
//! Payloads are `bytes::Bytes`. The verifier sees nothing inside such a
//! buffer, so this module says what the library takes for granted of it: that
//! a buffer holds a sequence of bytes, and what three of its operations do to
//! that sequence. None of this is proved here.

use bytes::Bytes;
use vstd::prelude::*;

verus! {

/// `bytes::Bytes`, a cheaply cloneable chunk of contiguous memory, taken as
/// an opaque type.
#[verifier::external_type_specification]
#[verifier::external_body]
pub struct ExBytes(bytes::Bytes);

/// The bytes that a buffer holds, in order.
pub uninterp spec fn octets(b: Bytes) -> Seq<u8>;

/// `Bytes::deref`: the slice that a buffer dereferences to shows exactly the
/// bytes that the buffer holds.
pub assume_specification[ <Bytes as core::ops::Deref>::deref ](b: &Bytes) -> (s: &[u8])
    ensures
        s@ == octets(*b),
;

/// `Bytes::from` on a vector: the buffer holds exactly the vector's bytes.
pub assume_specification[ <Bytes as core::convert::From<Vec<u8>>>::from ](v: Vec<u8>) -> (b: Bytes)
    ensures
        octets(b) == v@,
;

/// `Bytes::clone`: the new handle shows the same bytes as the one it was
/// cloned from.
pub assume_specification[ <Bytes as Clone>::clone ](b: &Bytes) -> (c: Bytes)
    ensures
        octets(c) == octets(*b),
;

} // verus!
