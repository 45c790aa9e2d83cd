//! Which date ranges a sorted run of cached days leaves uncovered.
use vstd::prelude::*;

use crate::apod::{ApodError, Url};
use crate::date::{day_of_text, Date};

verus! {

/// The gaps left by `days` from `next` onwards up to `end`: before each day
/// that lies past `next`, the range from `next` to the day before it; after
/// the last day, the range up to `end` if any of it is left.
pub open spec fn gaps_from(days: Seq<int>, next: int, end: int) -> Seq<(int, int)>
    decreases days.len(),
{
    if days.len() == 0 {
        if next <= end {
            seq![(next, end)]
        } else {
            seq![]
        }
    } else {
        let d = days[0];
        let rest = gaps_from(days.drop_first(), d + 1, end);
        if d > next {
            seq![(next, d - 1)] + rest
        } else {
            rest
        }
    }
}

/// The ranges of `[start, end]` that the ascending `days` do not cover; the
/// whole window when there are no days at all.
pub open spec fn missing_ranges(days: Seq<int>, start: int, end: int) -> Seq<(int, int)> {
    if days.len() == 0 {
        seq![(start, end)]
    } else {
        gaps_from(days, start, end)
    }
}

/// The day numbers of a sequence of dates.
pub open spec fn day_numbers(dates: Seq<Date>) -> Seq<int> {
    dates.map_values(|d: Date| d.day as int)
}

/// The day numbers of a sequence of date pairs.
pub open spec fn range_numbers(ranges: Seq<(Date, Date)>) -> Seq<(int, int)> {
    ranges.map_values(|r: (Date, Date)| (r.0.day as int, r.1.day as int))
}

/// The date ranges of `[start, end]` that the ascending `days` leave uncovered.
pub fn missing_day_ranges(days: &[Date], start: Date, end: Date) -> (r: Vec<(Date, Date)>)
    ensures
        range_numbers(r@) == missing_ranges(day_numbers(days@), start.day as int, end.day as int),
{
    let ghost ds = day_numbers(days@);
    let mut out: Vec<(Date, Date)> = Vec::new();
    if days.len() == 0 {
        out.push((start, end));
        assert(range_numbers(out@) =~= seq![(start.day as int, end.day as int)]);
        return out;
    }
    let mut next: i64 = start.day as i64;
    let mut i: usize = 0;
    assert(ds.skip(0) =~= ds);
    assert(range_numbers(out@) =~= Seq::<(int, int)>::empty());
    while i < days.len()
        invariant
            0 <= i <= days.len(),
            ds == day_numbers(days@),
            i32::MIN <= next,
            range_numbers(out@) + gaps_from(ds.skip(i as int), next as int, end.day as int)
                == gaps_from(ds, start.day as int, end.day as int),
        decreases days.len() - i,
    {
        let d = days[i].day as i64;
        let ghost before = out@;
        assert(ds.skip(i as int).drop_first() =~= ds.skip(i as int + 1));
        if d > next {
            out.push((Date { day: next as i32 }, Date { day: (d - 1) as i32 }));
            assert(range_numbers(out@) =~= range_numbers(before) + seq![(next as int, d - 1)]);
        }
        next = d + 1;
        i = i + 1;
    }
    let ghost before = out@;
    assert(ds.skip(i as int) =~= Seq::<int>::empty());
    if next <= end.day as i64 {
        out.push((Date { day: next as i32 }, end));
        assert(range_numbers(out@) =~= range_numbers(before) + seq![(next as int, end.day as int)]);
    } else {
        assert(range_numbers(out@) =~= range_numbers(before) + Seq::<(int, int)>::empty());
    }
    out
}

} // verus!

verus! {

/// Every record's date text is a calendar date.
pub open spec fn all_dates_parse(records: Seq<Url>) -> bool {
    forall|i: int| 0 <= i < records.len() ==> (#[trigger] day_of_text(records[i].date@)).is_some()
}

/// The day numbers of the records' dates.
pub open spec fn record_days(records: Seq<Url>) -> Seq<int> {
    records.map_values(|u: Url| day_of_text(u.date@).unwrap() as int)
}

/// The ranges of `[start, end]` that the cached `records`, ascending by date
/// and lying within the window, leave uncovered; `ApodError::Parse` when a
/// record's date is no calendar date.
pub fn compute_missing_ranges(records: &[Url], start_date: Date, end_date: Date) -> (r: Result<
    Vec<(Date, Date)>,
    ApodError,
>)
    ensures
        r.is_ok() == all_dates_parse(records@),
        r.is_err() ==> r == Err::<Vec<(Date, Date)>, ApodError>(ApodError::Parse),
        r.is_ok() ==> range_numbers(r.unwrap()@) == missing_ranges(
            record_days(records@),
            start_date.day as int,
            end_date.day as int,
        ),
{
    let mut days: Vec<Date> = Vec::new();
    let mut i: usize = 0;
    while i < records.len()
        invariant
            0 <= i <= records.len(),
            days@.len() == i,
            forall|k: int| 0 <= k < i ==> (#[trigger] day_of_text(records@[k].date@)).is_some(),
            forall|k: int|
                0 <= k < i ==> (#[trigger] days@[k]).day == day_of_text(records@[k].date@).unwrap(),
        decreases records.len() - i,
    {
        match Date::parse(records[i].date.as_str()) {
            Some(d) => days.push(d),
            None => return Err(ApodError::Parse),
        }
        i = i + 1;
    }
    assert(day_numbers(days@) =~= record_days(records@));
    Ok(missing_day_ranges(days.as_slice(), start_date, end_date))
}

} // verus!

verus! {

/// With nothing cached, the whole window `[start, end]` is the one gap.
pub proof fn lemma_empty_cache_is_one_gap(start: int, end: int)
    ensures
        missing_ranges(Seq::<int>::empty(), start, end) == seq![(start, end)],
{
}

/// Days that run one by one from `next` up to `end` leave no gap.
proof fn lemma_consecutive_days_no_gaps(days: Seq<int>, next: int, end: int)
    requires
        forall|i: int| 0 <= i < days.len() ==> #[trigger] days[i] == next + i,
        next + days.len() == end + 1,
    ensures
        gaps_from(days, next, end) == Seq::<(int, int)>::empty(),
    decreases days.len(),
{
    if days.len() > 0 {
        let rest = days.drop_first();
        assert forall|i: int| 0 <= i < rest.len() implies #[trigger] rest[i] == (next + 1) + i by {
            assert(rest[i] == days[i + 1]);
        }
        lemma_consecutive_days_no_gaps(rest, next + 1, end);
    }
}

/// When the cached days cover every date of a non-empty window `[start, end]`
/// once each, in ascending order, nothing is missing.
pub proof fn lemma_full_cover_no_gaps(days: Seq<int>, start: int, end: int)
    requires
        start <= end,
        days.len() == end - start + 1,
        forall|i: int| 0 <= i < days.len() ==> #[trigger] days[i] == start + i,
    ensures
        missing_ranges(days, start, end) == Seq::<(int, int)>::empty(),
{
    lemma_consecutive_days_no_gaps(days, start, end);
}

} // verus!

verus! {

/// A leading run of days that follow one another from `next` leaves no gap
/// of its own: the gaps are those of what follows it.
proof fn lemma_skip_consecutive(days: Seq<int>, next: int, end: int, k: int)
    requires
        0 <= k <= days.len(),
        forall|i: int| 0 <= i < k ==> #[trigger] days[i] == next + i,
    ensures
        gaps_from(days, next, end) == gaps_from(days.skip(k), next + k, end),
    decreases k,
{
    if k == 0 {
        assert(days.skip(0) =~= days);
    } else {
        let rest = days.drop_first();
        assert forall|i: int| 0 <= i < k - 1 implies #[trigger] rest[i] == (next + 1) + i by {
            assert(rest[i] == days[i + 1]);
        }
        lemma_skip_consecutive(rest, next + 1, end, k - 1);
        assert(rest.skip(k - 1) =~= days.skip(k));
    }
}

/// When the cache holds every date of the window `[start, end]` but one
/// contiguous run `[a, b]`, ascending and once each, that run is the only gap:
/// after a partly failed resolution has stored what it fetched, a retry of the
/// same window asks for the failed range alone.
pub proof fn lemma_one_missing_run(days: Seq<int>, start: int, end: int, a: int, b: int)
    requires
        start <= a <= b <= end,
        days.len() == (a - start) + (end - b),
        forall|i: int| 0 <= i < a - start ==> #[trigger] days[i] == start + i,
        forall|i: int| a - start <= i < days.len() ==> #[trigger] days[i] == i + (b + 1) - (a - start),
    ensures
        missing_ranges(days, start, end) == seq![(a, b)],
{
    if days.len() > 0 {
        let k = a - start;
        lemma_skip_consecutive(days, start, end, k);
        let tail = days.skip(k);
        if tail.len() > 0 {
            assert(tail[0] == days[k]);
            let after = tail.drop_first();
            assert forall|i: int| 0 <= i < after.len() implies #[trigger] after[i] == (b + 2) + i by {
                assert(after[i] == days[k + 1 + i]);
            }
            lemma_consecutive_days_no_gaps(after, b + 2, end);
            assert(gaps_from(tail, a, end) =~= seq![(a, b)] + Seq::<(int, int)>::empty());
        }
    }
}

} // verus!

verus! {

/// Some range of `gs` holds the day `x`.
pub open spec fn covers(gs: Seq<(int, int)>, x: int) -> bool {
    exists|i: int| 0 <= i < gs.len() && (#[trigger] gs[i]).0 <= x && x <= gs[i].1
}

/// The days ascend strictly and lie within `[lo, hi]`.
pub open spec fn ascending_within(days: Seq<int>, lo: int, hi: int) -> bool {
    &&& forall|i: int, j: int| 0 <= i < j < days.len() ==> days[i] < days[j]
    &&& forall|i: int| 0 <= i < days.len() ==> lo <= #[trigger] days[i] <= hi
}

/// Each range is non-empty and lies within `[lo, hi]`, and each ends before
/// the next begins, with at least one day between them.
pub open spec fn well_separated(gs: Seq<(int, int)>, lo: int, hi: int) -> bool {
    &&& forall|i: int| 0 <= i < gs.len() ==> lo <= (#[trigger] gs[i]).0 <= gs[i].1 <= hi
    &&& forall|i: int| 0 <= i < gs.len() - 1 ==> (#[trigger] gs[i]).1 + 1 < gs[i + 1].0
}

proof fn lemma_gaps_from_exact(days: Seq<int>, next: int, end: int)
    requires
        ascending_within(days, next, end),
    ensures
        well_separated(gaps_from(days, next, end), next, end),
        forall|x: int|
            next <= x <= end ==> (covers(gaps_from(days, next, end), x) <==> !days.contains(x)),
    decreases days.len(),
{
    let gs = gaps_from(days, next, end);
    if days.len() == 0 {
        assert forall|x: int| next <= x <= end implies covers(gs, x) by {
            assert(gs[0].0 <= x && x <= gs[0].1);
        }
    } else {
        let d = days[0];
        let rest = days.drop_first();
        assert forall|i: int, j: int| 0 <= i < j < rest.len() implies rest[i] < rest[j] by {
            assert(rest[i] == days[i + 1] && rest[j] == days[j + 1]);
        }
        assert forall|i: int| 0 <= i < rest.len() implies d + 1 <= #[trigger] rest[i] <= end by {
            assert(rest[i] == days[i + 1]);
        }
        lemma_gaps_from_exact(rest, d + 1, end);
        let tail = gaps_from(rest, d + 1, end);
        assert forall|x: int| next <= x <= end implies (covers(gs, x) <==> !days.contains(x)) by {
            if x < d {
                assert forall|i: int| 0 <= i < days.len() implies days[i] != x by {
                    if i > 0 {
                        assert(days[0] < days[i]);
                    }
                }
                if d > next {
                    assert(gs[0] == (next, d - 1));
                }
            } else if x == d {
                assert(days[0] == x);
                if covers(gs, x) {
                    let i = choose|i: int| 0 <= i < gs.len() && (#[trigger] gs[i]).0 <= x && x <= gs[i].1;
                    if d > next {
                        if i > 0 {
                            assert(gs[i] == tail[i - 1]);
                        }
                    } else {
                        assert(gs[i] == tail[i]);
                    }
                }
            } else {
                assert(days.contains(x) <==> rest.contains(x)) by {
                    if days.contains(x) {
                        let k = choose|k: int| 0 <= k < days.len() && days[k] == x;
                        assert(rest[k - 1] == x);
                    }
                    if rest.contains(x) {
                        let k = choose|k: int| 0 <= k < rest.len() && rest[k] == x;
                        assert(days[k + 1] == x);
                    }
                }
                if d > next {
                    if covers(tail, x) {
                        let i = choose|i: int| 0 <= i < tail.len() && (#[trigger] tail[i]).0 <= x && x <= tail[i].1;
                        assert(gs[i + 1] == tail[i]);
                    }
                    if covers(gs, x) {
                        let i = choose|i: int| 0 <= i < gs.len() && (#[trigger] gs[i]).0 <= x && x <= gs[i].1;
                        assert(i > 0);
                        assert(gs[i] == tail[i - 1]);
                    }
                }
            }
        }
        if d > next {
            assert forall|i: int| 0 <= i < gs.len() - 1 implies (#[trigger] gs[i]).1 + 1 < gs[i + 1].0 by {
                if i > 0 {
                    assert(gs[i] == tail[i - 1] && gs[i + 1] == tail[i]);
                } else {
                    assert(gs[1] == tail[0]);
                }
            }
            assert forall|i: int| 0 <= i < gs.len() implies next <= (#[trigger] gs[i]).0 <= gs[i].1 <= end by {
                if i > 0 {
                    assert(gs[i] == tail[i - 1]);
                }
            }
        }
    }
}

/// For cached days that ascend strictly within a non-empty window
/// `[start, end]`, the missing ranges are ascending, disjoint and non-empty,
/// lie within the window, and hold exactly the days of the window that are
/// not cached.
pub proof fn lemma_missing_ranges_exact(days: Seq<int>, start: int, end: int)
    requires
        start <= end,
        ascending_within(days, start, end),
    ensures
        well_separated(missing_ranges(days, start, end), start, end),
        forall|x: int|
            start <= x <= end ==> (covers(missing_ranges(days, start, end), x) <==> !days.contains(
                x,
            )),
{
    lemma_gaps_from_exact(days, start, end);
}

} // verus!
