//! Opaque job payloads.
//!
//! Requests and reply fragments travel as `bytes::Bytes`. Nothing in this
//! crate looks inside one; a payload is only copied out of an inbound frame
//! or into an outbound one.

use vstd::prelude::*;

verus! {

#[verifier::external_type_specification]
#[verifier::external_body]
pub struct ExBytes(bytes::Bytes);

/// The bytes that a `Bytes` value holds, in order.
pub uninterp spec fn bytes_view(b: bytes::Bytes) -> Seq<u8>;

/// `Bytes::copy_from_slice`: the new buffer holds a copy of `data`, byte
/// for byte. Not proved.
#[verifier::external_body]
pub(crate) fn payload_from_slice(data: &[u8]) -> (payload: bytes::Bytes)
    ensures
        bytes_view(payload) == data@,
{
    bytes::Bytes::copy_from_slice(data)
}

/// `Bytes::to_vec`, reached through the buffer's deref to a slice: the
/// vector holds a copy of the buffer's bytes. Not proved.
#[verifier::external_body]
pub(crate) fn payload_to_vec(payload: &bytes::Bytes) -> (data: Vec<u8>)
    ensures
        data@ == bytes_view(*payload),
{
    payload.to_vec()
}

} // verus!
