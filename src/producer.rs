use vstd::prelude::*;

use crate::batching::Action;

verus! {

/// Nanoseconds in one week.
pub const NANOS_PER_WEEK: i64 = 604_800_000_000_000;

/// A patch as listed by the paged source: newest first.
pub struct PatchSummary {
    pub id: String,
    pub author: String,
    /// Creation time, in nanoseconds since the Unix epoch.
    pub created_at: i64,
    pub description: String,
}

/// The earliest creation time kept: `weeks` weeks before `now`.
pub open spec fn cutoff_spec(now: i64, weeks: i64) -> int {
    now - weeks * NANOS_PER_WEEK
}

/// The earliest creation time kept, `weeks` weeks before `now`, both in
/// nanoseconds; `None` where it does not fit in an `i64`.
pub fn lookback_cutoff(now: i64, weeks: i64) -> (r: Option<i64>)
    ensures
        r matches Some(c) ==> c == cutoff_spec(now, weeks),
        r is None <==> !(i64::MIN <= cutoff_spec(now, weeks) <= i64::MAX),
{
    assert(-100_000_000_000_000_000_000_000_000_000_000_000 <= (weeks as int) * 604_800_000_000_000
        <= 100_000_000_000_000_000_000_000_000_000_000_000);
    let span = (weeks as i128) * (NANOS_PER_WEEK as i128);
    let c = (now as i128) - span;
    if c < i64::MIN as i128 || c > i64::MAX as i128 {
        None
    } else {
        Some(c as i64)
    }
}

/// The message for one listed patch: its identifier where it was created
/// at or after `cutoff`, else `End`.
pub fn forward(summary: &PatchSummary, cutoff: i64) -> (r: Action)
    ensures
        summary.created_at < cutoff ==> r is End,
        summary.created_at >= cutoff ==> r == Action::Patch(summary.id),
{
    if summary.created_at < cutoff {
        Action::End
    } else {
        Action::Patch(summary.id.clone())
    }
}

/// The messages for a listing: the identifiers of the leading patches
/// created at or after `cutoff`, in order, then one `End`. The first patch
/// created before `cutoff` is not forwarded, nor any after it.
pub fn produce(summaries: &Vec<PatchSummary>, cutoff: i64) -> (r: Vec<Action>)
    ensures
        1 <= r@.len() <= summaries@.len() + 1,
        r@.last() is End,
        forall|j: int|
            0 <= j < r@.len() - 1 ==> #[trigger] r@[j] == Action::Patch(summaries@[j].id)
                && summaries@[j].created_at >= cutoff,
        r@.len() - 1 < summaries@.len() ==> summaries@[r@.len() - 1].created_at < cutoff,
{
    let mut out: Vec<Action> = Vec::new();
    let mut i: usize = 0;
    while i < summaries.len()
        invariant
            i <= summaries.len(),
            out@.len() == i,
            forall|j: int|
                0 <= j < i ==> #[trigger] out@[j] == Action::Patch(summaries@[j].id)
                    && summaries@[j].created_at >= cutoff,
        decreases summaries.len() - i,
    {
        let msg = forward(&summaries[i], cutoff);
        match msg {
            Action::End => {
                out.push(msg);
                return out;
            },
            Action::Patch(_) => {
                out.push(msg);
            },
        }
        i = i + 1;
    }
    out.push(Action::End);
    out
}

} // verus!
