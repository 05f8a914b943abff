//! Multipart frames on the wire.
//!
//! A reply from the backend is a frame of exactly three parts: the job id
//! as UTF-8 text, a header `count/index` made of two decimal integers, and
//! the fragment's payload. A request to the backend is a frame of three
//! parts too: the gateway's identity, the job id and the request payload.

use vstd::prelude::*;
use vstd::slice::slice_to_vec;
use vstd::string::StringSliceAdditionalSpecFns;
use vstd::utf8::{decode_utf8, valid_utf8};
use crate::number::{integer_value, parse_integer};
use crate::payload::{bytes_view, payload_from_slice, payload_to_vec};

verus! {

/// Why an inbound frame was not understood.
#[derive(Debug, Clone, Copy, PartialEq, Eq, Structural)]
pub enum FrameError {
    /// The frame does not have exactly three parts.
    PartCount,
    /// The first part is not UTF-8 text.
    JobId,
    /// The second part is not `count/index` with two integers.
    FragmentField,
}

/// One reply fragment, as read from an inbound frame.
#[derive(Debug)]
pub struct FragmentMessage {
    /// The job that this fragment answers.
    pub job_id: String,
    /// Which fragment of the answer this is.
    pub fragment_index: i32,
    /// How many fragments make up the whole answer.
    pub fragment_count: i32,
    /// The fragment itself.
    pub payload: bytes::Bytes,
}

/// The position of the first `/` in `s` at or after `i`, or the length of
/// `s` if there is none.
pub open spec fn slash_from(s: Seq<u8>, i: int) -> int
    decreases s.len() - i,
{
    if i < 0 || i >= s.len() {
        s.len() as int
    } else if s[i] == 47 {
        i
    } else {
        slash_from(s, i + 1)
    }
}

/// The count and the index that a fragment header spells. The header is
/// split at its first `/`; both sides must be integers.
pub open spec fn fragment_field(s: Seq<u8>) -> Option<(int, int)> {
    let at = slash_from(s, 0);
    if at >= s.len() {
        None
    } else {
        match (integer_value(s.subrange(0, at)), integer_value(s.subrange(at + 1, s.len() as int))) {
            (Some(count), Some(index)) => Some((count, index)),
            _ => None,
        }
    }
}

/// The fault of an inbound frame, if it has one. The part count is looked
/// at first, then the job id, then the header.
pub open spec fn frame_error(parts: Seq<Vec<u8>>) -> Option<FrameError> {
    if parts.len() != 3 {
        Some(FrameError::PartCount)
    } else if !valid_utf8(parts[0]@) {
        Some(FrameError::JobId)
    } else if fragment_field(parts[1]@) is None {
        Some(FrameError::FragmentField)
    } else {
        None
    }
}

impl FragmentMessage {
    /// This message is what a well-formed frame `parts` says.
    pub open spec fn read_from(self, parts: Seq<Vec<u8>>) -> bool {
        &&& parts.len() == 3
        &&& self.job_id@ == decode_utf8(parts[0]@)
        &&& fragment_field(parts[1]@) == Some(
            (self.fragment_count as int, self.fragment_index as int),
        )
        &&& bytes_view(self.payload) == parts[2]@
    }

    /// Reads an inbound frame. A frame with a fault is refused with that
    /// fault and nothing else happens.
    pub fn try_from_parts(parts: Vec<Vec<u8>>) -> (read: Result<FragmentMessage, FrameError>)
        ensures
            match read {
                Ok(message) => frame_error(parts@) is None && message.read_from(parts@),
                Err(fault) => frame_error(parts@) == Some(fault),
            },
    {
        let mut parts = parts;
        let ghost given = parts@;
        if parts.len() != 3 {
            return Err(FrameError::PartCount);
        }
        let body = parts.pop().unwrap();
        let header = parts.pop().unwrap();
        let name = parts.pop().unwrap();
        assert(name == given[0] && header == given[1] && body == given[2]);
        let job_id = match string_from_utf8(name) {
            Some(text) => text,
            None => {
                return Err(FrameError::JobId);
            },
        };
        match parse_fragment_field(header.as_slice()) {
            Some((fragment_count, fragment_index)) => Ok(
                FragmentMessage {
                    job_id,
                    fragment_index,
                    fragment_count,
                    payload: payload_from_slice(body.as_slice()),
                },
            ),
            None => Err(FrameError::FragmentField),
        }
    }
}

/// `String::from_utf8`: the text that `bytes` encodes, or `None` when the
/// bytes are not UTF-8. Not proved.
#[verifier::external_body]
pub(crate) fn string_from_utf8(bytes: Vec<u8>) -> (text: Option<String>)
    ensures
        text is Some <==> valid_utf8(bytes@),
        text is Some ==> text.unwrap()@ == decode_utf8(bytes@),
{
    String::from_utf8(bytes).ok()
}

/// Reads a fragment header `count/index`.
pub fn parse_fragment_field(header: &[u8]) -> (field: Option<(i32, i32)>)
    ensures
        match field {
            Some((count, index)) => fragment_field(header@) == Some((count as int, index as int)),
            None => fragment_field(header@) is None,
        },
{
    let mut at: usize = 0;
    while at < header.len() && header[at] != 47
        invariant
            at <= header@.len(),
            slash_from(header@, 0) == slash_from(header@, at as int),
        decreases header@.len() - at,
    {
        at = at + 1;
    }
    if at >= header.len() {
        return None;
    }
    let count = parse_integer(header, 0, at);
    let index = parse_integer(header, at + 1, header.len());
    match (count, index) {
        (Some(count), Some(index)) => Some((count, index)),
        _ => None,
    }
}

/// Builds the frame that carries a job to the backend.
pub fn outbound_frame(identity: &str, job_id: &str, request: &bytes::Bytes) -> (frame: Vec<
    Vec<u8>,
>)
    ensures
        frame@.len() == 3,
        frame@[0]@ == identity.spec_bytes(),
        frame@[1]@ == job_id.spec_bytes(),
        frame@[2]@ == bytes_view(*request),
{
    let mut frame: Vec<Vec<u8>> = Vec::new();
    frame.push(slice_to_vec(identity.as_bytes()));
    frame.push(slice_to_vec(job_id.as_bytes()));
    frame.push(payload_to_vec(request));
    frame
}

} // verus!
