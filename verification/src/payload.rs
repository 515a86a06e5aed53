//! Opaque byte payloads. The store never interprets payload contents: it
//! only keeps them, hands out cheap copies, and reports their length. The
//! buffers themselves come from the `bytes` crate, so handing a payload
//! back to a caller is a reference-count bump, not a byte copy.

use vstd::prelude::*;

verus! {

/// A shared, immutable byte buffer of the `bytes` crate, opaque to the
/// verifier; `bytes_view` names its contents.
#[verifier::external_type_specification]
#[verifier::external_body]
pub struct ExBytes(bytes::Bytes);

/// The contents of a `bytes::Bytes` buffer, as the sequence of bytes it
/// holds.
pub uninterp spec fn bytes_view(b: bytes::Bytes) -> Seq<u8>;

/// Relies on `<bytes::Bytes as From<Vec<u8>>>::from`: the buffer takes
/// ownership of the vector and holds exactly its bytes.
#[verifier::external_body]
fn bytes_of_vec(v: Vec<u8>) -> (b: bytes::Bytes)
    ensures
        bytes_view(b) == v@,
{
    bytes::Bytes::from(v)
}

/// Relies on `<bytes::Bytes as Clone>::clone`: a clone shares the same
/// contents as the original buffer.
#[verifier::external_body]
fn bytes_clone(b: &bytes::Bytes) -> (r: bytes::Bytes)
    ensures
        bytes_view(r) == bytes_view(*b),
{
    b.clone()
}

/// Relies on `bytes::Bytes::len`: the number of bytes in the buffer.
#[verifier::external_body]
fn bytes_len(b: &bytes::Bytes) -> (n: usize)
    ensures
        n == bytes_view(*b).len(),
{
    b.len()
}

/// Relies on `[u8]::to_vec`, reached through `bytes::Bytes`'s deref to a
/// byte slice: copies the buffer's contents into a fresh vector.
#[verifier::external_body]
fn bytes_to_vec(b: &bytes::Bytes) -> (v: Vec<u8>)
    ensures
        v@ == bytes_view(*b),
{
    b.to_vec()
}

/// An opaque byte payload held by the store: immutable, and cheap to hand
/// out because copies share one underlying buffer.
pub struct Payload {
    bytes: bytes::Bytes,
}

impl View for Payload {
    type V = Seq<u8>;

    closed spec fn view(&self) -> Seq<u8> {
        bytes_view(self.bytes)
    }
}

impl Payload {
    /// Wraps the given bytes as a payload.
    pub fn from_vec(v: Vec<u8>) -> (p: Payload)
        ensures
            p@ == v@,
    {
        Payload { bytes: bytes_of_vec(v) }
    }

    /// The number of bytes in the payload.
    pub fn len(&self) -> (n: usize)
        ensures
            n == self@.len(),
    {
        bytes_len(&self.bytes)
    }

    /// Copies the payload's contents out into a fresh vector.
    pub fn to_vec(&self) -> (v: Vec<u8>)
        ensures
            v@ == self@,
    {
        bytes_to_vec(&self.bytes)
    }
}

impl Clone for Payload {
    /// A clone holds the same bytes; the underlying buffer is shared.
    fn clone(&self) -> (p: Payload)
        ensures
            p@ == self@,
    {
        Payload { bytes: bytes_clone(&self.bytes) }
    }
}

} // verus!
