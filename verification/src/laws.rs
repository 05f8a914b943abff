//! What the correlation table guarantees, whatever the traffic.
//!
//! The theorems here speak of the table as a map from job id to entry and
//! of the transition `after_fragment`, which is what `Multiplexer::route`
//! followed by `Multiplexer::settle` does to that map.

use vstd::prelude::*;
use crate::frame::{frame_error, FrameError};
use crate::multiplexer::{
    admission_of, after_fragment, fresh_entry, owed_after, settled, Admission,
};
use crate::table::CorrelationEntry;

verus! {

/// The table after `n` fragments for `job_id` have arrived one after the
/// other, each announcing `fragment_count`, and the caller took every one.
pub open spec fn after_fragments<D>(
    table: Map<Seq<char>, CorrelationEntry<D>>,
    job_id: Seq<char>,
    fragment_count: i32,
    n: nat,
) -> Map<Seq<char>, CorrelationEntry<D>>
    decreases n,
{
    if n == 0 {
        table
    } else {
        after_fragment(
            after_fragments(table, job_id, fragment_count, (n - 1) as nat),
            job_id,
            fragment_count,
            true,
        )
    }
}

/// Routing a fragment and settling it is one step of `after_fragment`:
/// the entry leaves the table for the time of the delivery, and what
/// `settle` makes of the rest is the table after the fragment.
pub proof fn lemma_route_then_settle<D>(
    table: Map<Seq<char>, CorrelationEntry<D>>,
    job_id: Seq<char>,
    fragment_count: i32,
    delivered: bool,
)
    requires
        table.contains_key(job_id),
    ensures
        after_fragment(table, job_id, fragment_count, delivered) == settled(
            table.remove(job_id),
            job_id,
            table[job_id].delivery,
            owed_after(table[job_id], fragment_count),
            delivered,
        ),
{
}

/// A job that is answered by a single fragment is over once that fragment
/// has been passed on: its entry is gone, and a second fragment for it
/// finds nobody waiting and changes nothing.
pub proof fn lemma_single_fragment_round_trip<D>(
    table: Map<Seq<char>, CorrelationEntry<D>>,
    job_id: Seq<char>,
    delivery: D,
    late_count: i32,
    late_delivered: bool,
)
    requires
        table.contains_key(job_id),
        table[job_id] == fresh_entry(delivery),
    ensures
        after_fragment(table, job_id, 1, true) == table.remove(job_id),
        !after_fragment(table, job_id, 1, true).contains_key(job_id),
        after_fragment(
            after_fragment(table, job_id, 1, true),
            job_id,
            late_count,
            late_delivered,
        ) == after_fragment(table, job_id, 1, true),
{
}

/// A job that is answered by `fragment_count` fragments waits while fewer
/// have arrived, owed exactly the ones that are missing and under the
/// handle it was submitted with, and is over when the last has been passed
/// on. No other job is touched on the way.
pub proof fn lemma_fan_in<D>(
    table: Map<Seq<char>, CorrelationEntry<D>>,
    job_id: Seq<char>,
    delivery: D,
    fragment_count: i32,
    arrived: nat,
)
    requires
        table.contains_key(job_id),
        table[job_id] == fresh_entry(delivery),
        1 <= arrived <= fragment_count,
    ensures
        arrived < fragment_count ==> after_fragments(table, job_id, fragment_count, arrived)
            == table.insert(
            job_id,
            CorrelationEntry { delivery, remaining: Some((fragment_count - arrived) as i32) },
        ),
        arrived == fragment_count ==> after_fragments(table, job_id, fragment_count, arrived)
            == table.remove(job_id),
    decreases arrived,
{
    let before = after_fragments(table, job_id, fragment_count, (arrived - 1) as nat);
    let after = after_fragments(table, job_id, fragment_count, arrived);
    assert(after == after_fragment(before, job_id, fragment_count, true));
    if arrived == 1 {
        assert(before == table);
    } else {
        lemma_fan_in(table, job_id, delivery, fragment_count, (arrived - 1) as nat);
    }
    assert(before.contains_key(job_id));
    assert(before[job_id].delivery == delivery);
    assert(owed_after(before[job_id], fragment_count) == fragment_count - arrived);
    assert(before.remove(job_id) =~= table.remove(job_id));
    if arrived < fragment_count {
        assert(after =~= table.insert(
            job_id,
            CorrelationEntry { delivery, remaining: Some((fragment_count - arrived) as i32) },
        ));
    } else {
        assert(after =~= table.remove(job_id));
    }
}

/// Jobs do not see each other. A fragment for one job leaves every other
/// job's entry as it was, handle and count, whether or not the fragment
/// could be delivered; so the handle that a later fragment of the other
/// job is passed to is still the one that job was submitted with.
pub proof fn lemma_isolation<D>(
    table: Map<Seq<char>, CorrelationEntry<D>>,
    job_id: Seq<char>,
    other_id: Seq<char>,
    fragment_count: i32,
    delivered: bool,
)
    requires
        job_id != other_id,
    ensures
        after_fragment(table, job_id, fragment_count, delivered).contains_key(other_id)
            == table.contains_key(other_id),
        table.contains_key(other_id) ==> after_fragment(
            table,
            job_id,
            fragment_count,
            delivered,
        )[other_id] == table[other_id],
{
}

/// Fragments of two different jobs may arrive in either order: the table
/// ends up the same.
pub proof fn lemma_interleaving<D>(
    table: Map<Seq<char>, CorrelationEntry<D>>,
    job_id: Seq<char>,
    fragment_count: i32,
    delivered: bool,
    other_id: Seq<char>,
    other_count: i32,
    other_delivered: bool,
)
    requires
        job_id != other_id,
    ensures
        after_fragment(
            after_fragment(table, job_id, fragment_count, delivered),
            other_id,
            other_count,
            other_delivered,
        ) == after_fragment(
            after_fragment(table, other_id, other_count, other_delivered),
            job_id,
            fragment_count,
            delivered,
        ),
{
    lemma_isolation(table, job_id, other_id, fragment_count, delivered);
    lemma_isolation(table, other_id, job_id, other_count, other_delivered);
    assert(after_fragment(
        after_fragment(table, job_id, fragment_count, delivered),
        other_id,
        other_count,
        other_delivered,
    ) =~= after_fragment(
        after_fragment(table, other_id, other_count, other_delivered),
        job_id,
        fragment_count,
        delivered,
    ));
}

/// A fragment for an id that nobody waits for changes nothing.
pub proof fn lemma_unknown_id<D>(
    table: Map<Seq<char>, CorrelationEntry<D>>,
    job_id: Seq<char>,
    fragment_count: i32,
    delivered: bool,
)
    requires
        !table.contains_key(job_id),
    ensures
        after_fragment(table, job_id, fragment_count, delivered) == table,
{
}

/// A frame is at fault for its part count exactly when it does not have
/// three parts; no other fault is looked for in such a frame.
pub proof fn lemma_part_count(parts: Seq<Vec<u8>>)
    ensures
        parts.len() != 3 <==> frame_error(parts) == Some(FrameError::PartCount),
{
}

/// When a caller has gone, the first fragment that cannot be delivered
/// ends the job, however many fragments were still owed, and every later
/// fragment for it changes nothing.
pub proof fn lemma_cancellation<D>(
    table: Map<Seq<char>, CorrelationEntry<D>>,
    job_id: Seq<char>,
    fragment_count: i32,
    late_count: i32,
    late_delivered: bool,
)
    requires
        table.contains_key(job_id),
    ensures
        after_fragment(table, job_id, fragment_count, false) == table.remove(job_id),
        after_fragment(
            after_fragment(table, job_id, fragment_count, false),
            job_id,
            late_count,
            late_delivered,
        ) == table.remove(job_id),
{
}

/// A failed send stops the multiplexer: the job that was being sent is
/// not accepted, and neither is any job after it, whether its own send
/// goes through or not.
pub proof fn lemma_transport_failure<D>(
    live: bool,
    table: Map<Seq<char>, CorrelationEntry<D>>,
    job_id: Seq<char>,
    later_id: Seq<char>,
    later_sent: bool,
)
    ensures
        admission_of(live, table, job_id, false) == Admission::Stopped,
        admission_of(false, table, later_id, later_sent) == Admission::Stopped,
{
}

} // verus!
