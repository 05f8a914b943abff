//! The job multiplexer.
//!
//! One multiplexer owns the correlation table. It is driven by whoever
//! owns the sockets, one event at a time:
//!
//! * a caller submits a job: `request_frame` says what to send to the
//!   backend, and `complete_submission` takes the job into the table once
//!   the send has gone through, or stops the multiplexer if it has not;
//! * a frame arrives from the backend: `receive` reads it and finds the
//!   caller that waits for it, handing out the caller's delivery handle
//!   with the payload, and `settle` puts the handle back once the payload
//!   has been passed on, unless the job is complete or the caller has gone.
//!
//! A fragment header reads `count/index`. Fragments are passed on in the
//! order in which they arrive; the index is not looked at.

use vstd::prelude::*;
use vstd::utf8::encode_utf8;
use crate::frame::{fragment_field, frame_error, outbound_frame, FragmentMessage, FrameError};
use crate::identity::GatewayIdentity;
use crate::payload::bytes_view;
use crate::table::{CorrelationEntry, CorrelationTable};

verus! {

/// A job as a caller submits it.
#[derive(Debug)]
pub struct Job<D> {
    /// The caller's id for the job, unique among the jobs in flight.
    pub job_id: String,
    /// The request, passed on to the backend as it is.
    pub request: bytes::Bytes,
    /// Where the caller wants the reply fragments.
    pub tx: D,
}

/// What became of a submission.
#[derive(Debug, Clone, Copy, PartialEq, Eq, Structural)]
pub enum Admission {
    /// The job is in flight.
    Accepted,
    /// A job with the same id is in flight already; this one was dropped.
    Refused,
    /// The multiplexer has stopped; the job was dropped.
    Stopped,
}

/// A payload on its way to a caller.
#[derive(Debug)]
pub struct Forward<D> {
    /// The job that the payload answers.
    pub job_id: String,
    /// The delivery handle of the caller that submitted the job.
    pub delivery: D,
    /// The fragment's payload.
    pub payload: bytes::Bytes,
    /// How many fragments are owed after this one; zero if this one
    /// completes the job.
    pub remaining: i32,
}

/// What an inbound frame led to.
#[derive(Debug)]
pub enum Routed<D> {
    /// The fragment belongs to a job in flight and is to be passed on.
    Forward(Forward<D>),
    /// No job with the fragment's id is in flight; the fragment is
    /// dropped.
    Unknown,
    /// The frame was not understood and is dropped.
    Malformed(FrameError),
}

/// The entry under which a newly accepted job waits.
pub open spec fn fresh_entry<D>(delivery: D) -> CorrelationEntry<D> {
    CorrelationEntry { delivery, remaining: None }
}

/// How many fragments a job is owed once a fragment that announces
/// `fragment_count` has been counted: one less than before, where "before"
/// is the announced count if this is the job's first fragment. Zero
/// stands for a job that is complete.
pub open spec fn owed_after<D>(entry: CorrelationEntry<D>, fragment_count: i32) -> i32 {
    let before = match entry.remaining {
        Some(remaining) => remaining,
        None => fragment_count,
    };
    if before > 1 {
        (before - 1) as i32
    } else {
        0
    }
}

/// What becomes of a submission: it is accepted if the multiplexer is
/// live, the request went out, and no job with the same id is in flight.
/// A multiplexer that has stopped, or whose send just failed, accepts
/// nothing.
pub open spec fn admission_of<D>(
    live: bool,
    table: Map<Seq<char>, CorrelationEntry<D>>,
    job_id: Seq<char>,
    sent: bool,
) -> Admission {
    if !live || !sent {
        Admission::Stopped
    } else if table.contains_key(job_id) {
        Admission::Refused
    } else {
        Admission::Accepted
    }
}

/// The fragment count that a well-formed inbound frame announces.
pub open spec fn announced_count(parts: Seq<Vec<u8>>) -> i32 {
    fragment_field(parts[1]@).unwrap().0 as i32
}

/// The table after a payload has been passed on, or could not be: the job
/// waits on with its new count if the caller took the payload and more
/// fragments are owed, and is gone otherwise. An id that is in flight is
/// never overwritten.
pub open spec fn settled<D>(
    table: Map<Seq<char>, CorrelationEntry<D>>,
    job_id: Seq<char>,
    delivery: D,
    remaining: i32,
    delivered: bool,
) -> Map<Seq<char>, CorrelationEntry<D>> {
    if delivered && remaining > 0 && !table.contains_key(job_id) {
        table.insert(job_id, CorrelationEntry { delivery, remaining: Some(remaining) })
    } else {
        table
    }
}

/// The table after one fragment for `job_id` has run its whole course:
/// counted, passed on, and settled.
pub open spec fn after_fragment<D>(
    table: Map<Seq<char>, CorrelationEntry<D>>,
    job_id: Seq<char>,
    fragment_count: i32,
    delivered: bool,
) -> Map<Seq<char>, CorrelationEntry<D>> {
    if table.contains_key(job_id) {
        settled(
            table.remove(job_id),
            job_id,
            table[job_id].delivery,
            owed_after(table[job_id], fragment_count),
            delivered,
        )
    } else {
        table
    }
}

/// The multiplexer: the gateway's identity, the jobs in flight, and
/// whether the link to the backend still stands.
pub struct Multiplexer<D> {
    identity: GatewayIdentity,
    table: CorrelationTable<D>,
    live: bool,
}

impl<D> Multiplexer<D> {
    /// The identity that the multiplexer sends under.
    pub closed spec fn identity(&self) -> Seq<char> {
        self.identity@
    }

    /// The jobs in flight.
    pub closed spec fn waiting(&self) -> Map<Seq<char>, CorrelationEntry<D>> {
        self.table@
    }

    /// Whether the multiplexer still takes jobs.
    pub closed spec fn live(&self) -> bool {
        self.live
    }

    /// A multiplexer with no job in flight.
    pub fn new(identity: GatewayIdentity) -> (mux: Self)
        ensures
            mux.live(),
            mux.identity() == identity@,
            mux.waiting() == Map::<Seq<char>, CorrelationEntry<D>>::empty(),
    {
        Multiplexer { identity, table: CorrelationTable::new(), live: true }
    }

    /// Whether the multiplexer still takes jobs. It stops for good when a
    /// send to the backend fails.
    pub fn is_live(&self) -> (live: bool)
        ensures
            live == self.live(),
    {
        self.live
    }

    /// Whether a job with this id is in flight.
    pub fn is_waiting(&self, job_id: &String) -> (held: bool)
        ensures
            held == self.waiting().contains_key(job_id@),
    {
        self.table.contains(job_id)
    }

    /// How many jobs are in flight. A job whose caller has gone, and for
    /// which no fragment arrives any more, stays in this count.
    pub fn in_flight(&self) -> (count: usize)
        ensures
            self.waiting().dom().finite(),
            count == self.waiting().dom().len(),
    {
        self.table.len()
    }

    /// The identity that the multiplexer sends under.
    pub fn gateway_identity(&self) -> (identity: &GatewayIdentity)
        ensures
            identity@ == self.identity(),
    {
        &self.identity
    }

    /// Whether no job is in flight.
    pub fn is_idle(&self) -> (idle: bool)
        ensures
            idle == (self.waiting() == Map::<Seq<char>, CorrelationEntry<D>>::empty()),
    {
        self.table.is_empty()
    }

    /// The frame to send to the backend for a newly submitted job:
    /// identity, job id, request. There is none if the multiplexer has
    /// stopped or if the job's id is in flight already.
    pub fn request_frame(&self, job: &Job<D>) -> (frame: Option<Vec<Vec<u8>>>)
        ensures
            frame is Some <==> self.live() && !self.waiting().contains_key(job.job_id@),
            match frame {
                Some(parts) => {
                    &&& parts@.len() == 3
                    &&& parts@[0]@ == encode_utf8(self.identity())
                    &&& parts@[1]@ == encode_utf8(job.job_id@)
                    &&& parts@[2]@ == bytes_view(job.request)
                },
                None => true,
            },
    {
        if !self.live || self.table.contains(&job.job_id) {
            None
        } else {
            Some(outbound_frame(self.identity.as_str(), job.job_id.as_str(), &job.request))
        }
    }

    /// Records how the send of a job's request frame went. If it failed,
    /// the multiplexer stops and takes no job from then on. If it went
    /// through, the job is in flight, with nothing known yet of how many
    /// fragments it is owed; a job whose id is in flight already is dropped
    /// instead and the table stays as it was.
    pub fn complete_submission(&mut self, job: Job<D>, sent: bool) -> (admission: Admission)
        ensures
            final(self).identity() == old(self).identity(),
            final(self).live() == (old(self).live() && sent),
            admission == admission_of(old(self).live(), old(self).waiting(), job.job_id@, sent),
            admission == Admission::Accepted ==> final(self).waiting() == old(
                self,
            ).waiting().insert(job.job_id@, fresh_entry(job.tx)),
            admission != Admission::Accepted ==> final(self).waiting() == old(self).waiting(),
    {
        if !self.live {
            return Admission::Stopped;
        }
        if !sent {
            self.live = false;
            return Admission::Stopped;
        }
        let entry = CorrelationEntry { delivery: job.tx, remaining: None };
        match self.table.register(job.job_id, entry) {
            Some(_) => Admission::Refused,
            None => Admission::Accepted,
        }
    }

    /// Finds the caller that waits for a fragment. If the fragment's job
    /// is in flight, its entry leaves the table and its delivery handle is
    /// handed out with the payload and the new count; `settle` brings it
    /// back. A fragment for any other id is dropped and nothing changes.
    pub fn route(&mut self, fragment: FragmentMessage) -> (routed: Routed<D>)
        ensures
            final(self).identity() == old(self).identity(),
            final(self).live() == old(self).live(),
            final(self).waiting() == old(self).waiting().remove(fragment.job_id@),
            match routed {
                Routed::Forward(forward) => {
                    &&& old(self).waiting().contains_key(fragment.job_id@)
                    &&& forward.job_id@ == fragment.job_id@
                    &&& forward.delivery == old(self).waiting()[fragment.job_id@].delivery
                    &&& forward.payload == fragment.payload
                    &&& forward.remaining == owed_after(
                        old(self).waiting()[fragment.job_id@],
                        fragment.fragment_count,
                    )
                },
                Routed::Unknown => !old(self).waiting().contains_key(fragment.job_id@),
                Routed::Malformed(_) => false,
            },
    {
        match self.table.remove(&fragment.job_id) {
            Some(entry) => {
                let before: i32 = match entry.remaining {
                    Some(remaining) => remaining,
                    None => fragment.fragment_count,
                };
                let remaining: i32 = if before > 1 {
                    before - 1
                } else {
                    0
                };
                Routed::Forward(
                    Forward {
                        job_id: fragment.job_id,
                        delivery: entry.delivery,
                        payload: fragment.payload,
                        remaining,
                    },
                )
            },
            None => Routed::Unknown,
        }
    }

    /// Reads an inbound frame and routes the fragment in it. A frame that
    /// is not understood is dropped and nothing changes.
    pub fn receive(&mut self, parts: Vec<Vec<u8>>) -> (routed: Routed<D>)
        ensures
            final(self).identity() == old(self).identity(),
            final(self).live() == old(self).live(),
            match routed {
                Routed::Forward(forward) => {
                    &&& frame_error(parts@) is None
                    &&& old(self).waiting().contains_key(forward.job_id@)
                    &&& forward.job_id@ == vstd::utf8::decode_utf8(parts@[0]@)
                    &&& forward.delivery == old(self).waiting()[forward.job_id@].delivery
                    &&& bytes_view(forward.payload) == parts@[2]@
                    &&& forward.remaining == owed_after(
                        old(self).waiting()[forward.job_id@],
                        announced_count(parts@),
                    )
                    &&& final(self).waiting() == old(self).waiting().remove(forward.job_id@)
                },
                Routed::Unknown => {
                    &&& frame_error(parts@) is None
                    &&& !old(self).waiting().contains_key(vstd::utf8::decode_utf8(parts@[0]@))
                    &&& final(self).waiting() == old(self).waiting()
                },
                Routed::Malformed(fault) => {
                    &&& frame_error(parts@) == Some(fault)
                    &&& final(self).waiting() == old(self).waiting()
                },
            },
    {
        match FragmentMessage::try_from_parts(parts) {
            Ok(message) => {
                let routed = self.route(message);
                proof {
                    if routed is Unknown {
                        assert(self.waiting() =~= old(self).waiting());
                    }
                }
                routed
            },
            Err(fault) => Routed::Malformed(fault),
        }
    }

    /// Closes the handling of one fragment. `delivered` says whether the
    /// caller took the payload. The job waits on, under the handle and the
    /// count given, if the caller took it and more fragments are owed;
    /// otherwise the job is over and the handle is dropped. Returns
    /// whether the job waits on.
    pub fn settle(&mut self, job_id: String, delivery: D, remaining: i32, delivered: bool) -> (kept:
        bool)
        ensures
            final(self).identity() == old(self).identity(),
            final(self).live() == old(self).live(),
            final(self).waiting() == settled(
                old(self).waiting(),
                job_id@,
                delivery,
                remaining,
                delivered,
            ),
            kept == (delivered && remaining > 0 && !old(self).waiting().contains_key(job_id@)),
    {
        if delivered && remaining > 0 {
            let entry = CorrelationEntry { delivery, remaining: Some(remaining) };
            self.table.register(job_id, entry).is_none()
        } else {
            false
        }
    }
}

} // verus!
