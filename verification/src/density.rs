//! The density planner: tier selection, bucket sizing and gap filling.
//!
//! A density query covers `[start, end]` (timestamps in microseconds).  The
//! span decides which source is scanned: short spans read the raw rows,
//! longer spans one of the two pre-aggregated resolutions.  The counts come
//! back sparse — buckets with no rows are missing — and are filled out to a
//! dense, equally spaced sequence of one count per bucket.

use vstd::arithmetic::div_mod::lemma_div_is_ordered;
use vstd::prelude::*;

verus! {

/// The widest span, in milliseconds, still answered from the raw rows.
pub const RAW_SPAN_MAX_MILLIS: i64 = 100000;

/// The widest span, in milliseconds, still answered from the one-second
/// aggregate.
pub const SEC_SPAN_MAX_MILLIS: i64 = 10000000;

/// The narrowest bucket, in microseconds.
pub const MIN_BUCKET_MICROS: i64 = 10;

/// The number of buckets a query aims for.
pub const TARGET_BUCKETS: i64 = 80;

/// The source a density query reads.
#[derive(PartialEq, Eq, Structural, Clone, Copy, Debug)]
pub enum Tier {
    /// Count the raw rows per bucket.
    Raw,
    /// Sum the one-second aggregate per bucket.
    Seconds,
    /// Sum the one-minute aggregate per bucket.
    Minutes,
}

/// The tier a span resolves to.  The raw tier takes every span up to and
/// including its threshold, the one-second tier everything above it up to
/// and including its own; everything else — longer spans, and the degenerate
/// negative span — falls to the one-minute tier.
pub open spec fn tier_for(span_millis: int) -> Tier {
    if 0 <= span_millis <= RAW_SPAN_MAX_MILLIS {
        Tier::Raw
    } else if RAW_SPAN_MAX_MILLIS < span_millis <= SEC_SPAN_MAX_MILLIS {
        Tier::Seconds
    } else {
        Tier::Minutes
    }
}

/// The bucket width, in microseconds, for a span: one eightieth of the
/// span, never narrower than the minimum bucket.
pub open spec fn width_for(span_micros: int) -> int {
    if span_micros <= MIN_BUCKET_MICROS * TARGET_BUCKETS {
        MIN_BUCKET_MICROS as int
    } else {
        span_micros / (TARGET_BUCKETS as int)
    }
}

/// The bucket that the timestamp `t` falls into.
pub open spec fn bucket_of(start: int, width: int, t: int) -> int {
    (t - start) / width
}

/// How many buckets cover `[start, end]`.
pub open spec fn bucket_count(start: int, end: int, width: int) -> int {
    (end - start) / width + 1
}

/// Law: a span exactly at a tier threshold resolves to the tier below it:
/// both thresholds are inclusive, and one past each threshold falls to the
/// next tier.
pub proof fn lemma_tier_boundaries()
    ensures
        tier_for(RAW_SPAN_MAX_MILLIS as int) == Tier::Raw,
        tier_for(RAW_SPAN_MAX_MILLIS as int + 1) == Tier::Seconds,
        tier_for(SEC_SPAN_MAX_MILLIS as int) == Tier::Seconds,
        tier_for(SEC_SPAN_MAX_MILLIS as int + 1) == Tier::Minutes,
{
}

/// Law: when no row of the scan falls inside `[start, end]`, a gap-filled
/// result is a sequence of zeros covering every bucket — never empty.
pub proof fn lemma_gap_fill_no_rows(
    start: int,
    end: int,
    width: int,
    rows: Seq<(i64, i64)>,
    r: Seq<i64>,
)
    requires
        width >= 1,
        start <= end,
        r.len() == bucket_count(start, end, width),
        forall|j: int|
            0 <= j < r.len() && !(exists|p: int|
                0 <= p < rows.len() && start <= (#[trigger] rows[p]).0 <= end && bucket_of(
                    start,
                    width,
                    rows[p].0 as int,
                ) == j) ==> r[j] == 0,
        forall|p: int| 0 <= p < rows.len() ==> !(start <= (#[trigger] rows[p]).0 <= end),
    ensures
        r.len() >= 1,
        forall|j: int| 0 <= j < r.len() ==> r[j] == 0,
{
    lemma_div_is_ordered(0, end - start, width);
    assert forall|j: int| 0 <= j < r.len() implies r[j] == 0 by {
        assert(!(exists|p: int|
            0 <= p < rows.len() && start <= (#[trigger] rows[p]).0 <= end && bucket_of(
                start,
                width,
                rows[p].0 as int,
            ) == j));
    }
}

/// Picks the tier for a span.
pub fn pick_tier(span_millis: i64) -> (t: Tier)
    ensures
        t == tier_for(span_millis as int),
{
    if 0 <= span_millis && span_millis <= RAW_SPAN_MAX_MILLIS {
        Tier::Raw
    } else if RAW_SPAN_MAX_MILLIS < span_millis && span_millis <= SEC_SPAN_MAX_MILLIS {
        Tier::Seconds
    } else {
        Tier::Minutes
    }
}

/// The bucket width for a span.
pub fn bucket_width(span_micros: i64) -> (w: i64)
    ensures
        w == width_for(span_micros as int),
        w >= MIN_BUCKET_MICROS,
{
    if span_micros <= MIN_BUCKET_MICROS * TARGET_BUCKETS {
        MIN_BUCKET_MICROS
    } else {
        ((span_micros as u64) / (TARGET_BUCKETS as u64)) as i64
    }
}

/// Fills sparse per-bucket counts out to one count per bucket of
/// `[start, end]`: a bucket nothing mapped to reads zero, never missing.
/// `rows` pairs a bucket's starting timestamp with its count, as the
/// aggregate scan produced them, one entry per bucket.
pub fn gap_fill(start: i64, end: i64, width: i64, rows: &Vec<(i64, i64)>) -> (r: Vec<i64>)
    requires
        width >= 1,
        start <= end,
        end - start <= i64::MAX,
        bucket_count(start as int, end as int, width as int) <= usize::MAX,
        forall|p: int, q: int|
            0 <= p < q < rows@.len() && start <= (#[trigger] rows@[p]).0 <= end && start <= (
            #[trigger] rows@[q]).0 <= end ==> bucket_of(start as int, width as int, rows@[p].0 as int)
                != bucket_of(start as int, width as int, rows@[q].0 as int),
    ensures
        r@.len() == bucket_count(start as int, end as int, width as int),
        forall|p: int|
            0 <= p < rows@.len() && start <= (#[trigger] rows@[p]).0 <= end ==> r@[bucket_of(
                start as int,
                width as int,
                rows@[p].0 as int,
            )] == rows@[p].1,
        forall|j: int|
            0 <= j < r@.len() && !(exists|p: int|
                0 <= p < rows@.len() && start <= (#[trigger] rows@[p]).0 <= end && bucket_of(
                    start as int,
                    width as int,
                    rows@[p].0 as int,
                ) == j) ==> r@[j] == 0,
{
    let span = end - start;
    let count = ((span as u64) / (width as u64) + 1) as usize;
    let mut r: Vec<i64> = Vec::new();
    while r.len() < count
        invariant
            r@.len() <= count,
            forall|j: int| 0 <= j < r@.len() ==> r@[j] == 0,
        decreases count - r@.len(),
    {
        r.push(0);
    }
    let mut p: usize = 0;
    while p < rows.len()
        invariant
            count == bucket_count(start as int, end as int, width as int),
            width >= 1,
            start <= end,
            end - start <= i64::MAX,
            p <= rows@.len(),
            r@.len() == count,
            forall|q: int, q2: int|
                0 <= q < q2 < rows@.len() && start <= (#[trigger] rows@[q]).0 <= end && start <= (
                #[trigger] rows@[q2]).0 <= end ==> bucket_of(
                    start as int,
                    width as int,
                    rows@[q].0 as int,
                ) != bucket_of(start as int, width as int, rows@[q2].0 as int),
            forall|q: int|
                0 <= q < p && start <= (#[trigger] rows@[q]).0 <= end ==> 0 <= bucket_of(
                    start as int,
                    width as int,
                    rows@[q].0 as int,
                ) < count && r@[bucket_of(start as int, width as int, rows@[q].0 as int)]
                    == rows@[q].1,
            forall|j: int|
                0 <= j < r@.len() && !(exists|q: int|
                    0 <= q < p && start <= (#[trigger] rows@[q]).0 <= end && bucket_of(
                        start as int,
                        width as int,
                        rows@[q].0 as int,
                    ) == j) ==> r@[j] == 0,
        decreases rows@.len() - p,
    {
        let t = rows[p].0;
        let c = rows[p].1;
        if start <= t && t <= end {
            let idx = (((t - start) as u64) / (width as u64)) as usize;
            proof {
                lemma_div_is_ordered(t - start, end - start, width as int);
                assert(idx == bucket_of(start as int, width as int, t as int));
                assert(idx < count);
            }
            r[idx] = c;
        }
        p = p + 1;
    }
    r
}

} // verus!
