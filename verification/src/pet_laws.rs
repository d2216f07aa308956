//! Properties of the pet's mood and activity log that hold across calls.

use vstd::prelude::*;

use crate::pet::{
    at_time, chronological, clamp_i64, count_not_after, hours_since, insert_by_time, keep_latest,
    latest_index, lemma_count_not_after_bounds, lemma_count_not_after_prefix, lemma_count_splits,
    lemma_latest_index_bounds,
    lemma_mood_for_decays, lemma_time_sorted_chronological, mood_at, recent_count, recorded,
    same_commit, time_sorted, without_commit, ActivityRecord, Mood, MoodConfig, Reaction,
    ReactionStats, CONSISTENT_RECENT_COMMITS, CURIOUS_RENAMED_FILES, LARGE_CHANGE_LINES,
    MAX_ACTIVITY_RECORDS,
};

verus! {

proof fn lemma_hours_since_grows(earlier: i64, later: i64, t: i64)
    requires
        earlier <= later,
    ensures
        hours_since(earlier, t) <= hours_since(later, t),
{
    let d1 = clamp_i64(earlier - t);
    let d2 = clamp_i64(later - t);
    let e1: int = if d1 < 0 { 0 } else { d1 };
    let e2: int = if d2 < 0 { 0 } else { d2 };
    vstd::arithmetic::div_mod::lemma_div_is_ordered(e1, e2, 3600);
}

proof fn lemma_recent_count_shrinks(s: Seq<ActivityRecord>, earlier: i64, later: i64)
    requires
        earlier <= later,
    ensures
        recent_count(s, later) <= recent_count(s, earlier),
    decreases s.len(),
{
    if s.len() > 0 {
        lemma_recent_count_shrinks(s.drop_last(), earlier, later);
        lemma_hours_since_grows(earlier, later, s.last().recorded_at_seconds);
    }
}

/// Without new commits the mood never improves as time passes: at a later
/// moment it is the same or worse.
pub proof fn lemma_mood_at_decays(
    records: Seq<ActivityRecord>,
    config: MoodConfig,
    earlier: i64,
    later: i64,
)
    requires
        earlier <= later,
    ensures
        mood_at(records, earlier, config).rank() <= mood_at(records, later, config).rank(),
{
    if records.len() > 0 {
        let t = records[latest_index(records)].recorded_at_seconds;
        lemma_hours_since_grows(earlier, later, t);
        lemma_mood_for_decays(config, hours_since(earlier, t), hours_since(later, t));
        lemma_recent_count_shrinks(records, earlier, later);
    }
}

proof fn lemma_at_time_concat(a: Seq<ActivityRecord>, b: Seq<ActivityRecord>, t: i64)
    ensures
        at_time(a + b, t) == at_time(a, t) + at_time(b, t),
    decreases b.len(),
{
    if b.len() == 0 {
        assert(a + b =~= a);
        assert(at_time(a, t) + at_time(b, t) =~= at_time(a, t));
    } else {
        lemma_at_time_concat(a, b.drop_last(), t);
        assert((a + b).drop_last() =~= a + b.drop_last());
        assert((a + b).last() == b.last());
        if b.last().recorded_at_seconds == t {
            assert(at_time(a, t) + at_time(b, t) =~= (at_time(a, t) + at_time(b.drop_last(), t)).push(
                b.last(),
            ));
        }
    }
}

proof fn lemma_at_time_all_after(s: Seq<ActivityRecord>, t: i64)
    requires
        forall|i: int| 0 <= i < s.len() ==> s[i].recorded_at_seconds > t,
    ensures
        at_time(s, t) == Seq::<ActivityRecord>::empty(),
    decreases s.len(),
{
    if s.len() > 0 {
        lemma_at_time_all_after(s.drop_last(), t);
    }
}

proof fn lemma_at_time_insert(s: Seq<ActivityRecord>, x: ActivityRecord, t: i64)
    requires
        chronological(s),
    ensures
        at_time(insert_by_time(s, x), t) == at_time(s.push(x), t),
{
    lemma_count_splits(s, x.recorded_at_seconds);
    let p = count_not_after(s, x.recorded_at_seconds) as int;
    let front = s.take(p);
    let back = s.skip(p);
    assert(s =~= front + back);
    lemma_at_time_concat(front, back, t);
    lemma_at_time_concat(front + seq![x], back, t);
    lemma_at_time_concat(front, seq![x], t);
    lemma_at_time_concat(s, seq![x], t);
    assert(seq![x].drop_last() =~= Seq::<ActivityRecord>::empty());
    assert(s + seq![x] =~= s.push(x));
    assert(front + seq![x] + back =~= insert_by_time(s, x));
    let single = at_time(seq![x], t);
    let none = Seq::<ActivityRecord>::empty();
    assert(at_time(none, t) == none);
    assert(seq![x].drop_last() == none);
    assert(seq![x].last() == x);
    if x.recorded_at_seconds == t {
        lemma_at_time_all_after(back, t);
        assert(single =~= seq![x]);
        assert(at_time(back, t) == Seq::<ActivityRecord>::empty());
        assert(at_time(s, t) =~= at_time(front, t));
        assert(at_time(insert_by_time(s, x), t) =~= at_time(front, t) + seq![x]);
    } else {
        assert(single =~= Seq::<ActivityRecord>::empty());
        assert(at_time(insert_by_time(s, x), t) =~= at_time(front, t) + at_time(back, t));
        assert(at_time(s.push(x), t) =~= at_time(s, t));
    }
}

/// Sorting by recording time orders the records, and records recorded at the
/// same time keep the order in which they came.
pub proof fn lemma_time_sorted_is_stable(s: Seq<ActivityRecord>, t: i64)
    ensures
        chronological(time_sorted(s)),
        time_sorted(s).len() == s.len(),
        at_time(time_sorted(s), t) == at_time(s, t),
    decreases s.len(),
{
    lemma_time_sorted_chronological(s);
    if s.len() > 0 {
        let d = s.drop_last();
        lemma_time_sorted_is_stable(d, t);
        lemma_time_sorted_chronological(d);
        lemma_at_time_insert(time_sorted(d), s.last(), t);
        assert(s =~= d.push(s.last()));
        let l = s.last();
        assert(time_sorted(d).push(l).drop_last() =~= time_sorted(d));
        assert(time_sorted(s) == insert_by_time(time_sorted(d), l));
    }
}

/// Every record is recorded no later than `t`.
pub open spec fn all_not_after(s: Seq<ActivityRecord>, t: i64) -> bool {
    forall|i: int| 0 <= i < s.len() ==> #[trigger] s[i].recorded_at_seconds <= t
}

/// No record is of the commit of `x`.
pub open spec fn lacks_commit(s: Seq<ActivityRecord>, x: ActivityRecord) -> bool {
    forall|i: int| 0 <= i < s.len() ==> !same_commit(#[trigger] s[i], x)
}

proof fn lemma_without_commit_parts(s: Seq<ActivityRecord>, x: ActivityRecord, t: i64)
    ensures
        lacks_commit(without_commit(s, x), x),
        all_not_after(s, t) ==> all_not_after(without_commit(s, x), t),
        lacks_commit(s, x) ==> without_commit(s, x) == s,
        without_commit(s, x).len() <= s.len(),
    decreases s.len(),
{
    if s.len() > 0 {
        let d = s.drop_last();
        lemma_without_commit_parts(d, x, t);
        if all_not_after(s, t) {
            assert(all_not_after(d, t)) by {
                assert forall|i: int| 0 <= i < d.len() implies #[trigger] d[i].recorded_at_seconds <= t by {
                    assert(d[i] == s[i]);
                }
            }
        }
        if lacks_commit(s, x) {
            assert(lacks_commit(d, x)) by {
                assert forall|i: int| 0 <= i < d.len() implies !same_commit(#[trigger] d[i], x) by {
                    assert(d[i] == s[i]);
                }
            }
            assert(!same_commit(s[s.len() - 1], x));
            assert(s =~= d.push(s.last()));
        }
    }
}

proof fn lemma_insert_keeps(s: Seq<ActivityRecord>, y: ActivityRecord, x: ActivityRecord, t: i64)
    ensures
        lacks_commit(s, x) && !same_commit(y, x) ==> lacks_commit(insert_by_time(s, y), x),
        all_not_after(s, t) && y.recorded_at_seconds <= t ==> all_not_after(insert_by_time(s, y), t),
{
    let p = count_not_after(s, y.recorded_at_seconds) as int;
    lemma_count_not_after_bounds(s, y.recorded_at_seconds);
    let r = insert_by_time(s, y);
    assert(r =~= s.take(p) + seq![y] + s.skip(p));
    assert forall|i: int| 0 <= i < r.len() implies (r[i] == y || exists|j: int|
        0 <= j < s.len() && r[i] == s[j]) by {
        if i < p {
            assert(r[i] == s[i]);
        } else if i > p {
            assert(r[i] == s[i - 1]);
        }
    }
}

proof fn lemma_time_sorted_keeps(s: Seq<ActivityRecord>, x: ActivityRecord, t: i64)
    ensures
        lacks_commit(s, x) ==> lacks_commit(time_sorted(s), x),
        all_not_after(s, t) ==> all_not_after(time_sorted(s), t),
    decreases s.len(),
{
    if s.len() > 0 {
        let d = s.drop_last();
        if lacks_commit(s, x) {
            assert(lacks_commit(d, x)) by {
                assert forall|i: int| 0 <= i < d.len() implies !same_commit(#[trigger] d[i], x) by {
                    assert(d[i] == s[i]);
                }
            }
            assert(!same_commit(s[s.len() - 1], x));
        }
        if all_not_after(s, t) {
            assert(all_not_after(d, t)) by {
                assert forall|i: int| 0 <= i < d.len() implies #[trigger] d[i].recorded_at_seconds <= t by {
                    assert(d[i] == s[i]);
                }
            }
            assert(s[s.len() - 1].recorded_at_seconds <= t);
        }
        lemma_time_sorted_keeps(d, x, t);
        lemma_insert_keeps(time_sorted(d), s.last(), x, t);
    }
}

proof fn lemma_count_all_not_after(s: Seq<ActivityRecord>, t: i64)
    requires
        all_not_after(s, t),
    ensures
        count_not_after(s, t) == s.len(),
    decreases s.len(),
{
    if s.len() > 0 {
        let d = s.drop_last();
        assert(all_not_after(d, t)) by {
            assert forall|i: int| 0 <= i < d.len() implies #[trigger] d[i].recorded_at_seconds <= t by {
                assert(d[i] == s[i]);
            }
        }
        lemma_count_all_not_after(d, t);
        assert(s[s.len() - 1].recorded_at_seconds <= t);
    }
}

/// Recording a commit no earlier than every other record puts it last:
/// the log ends with it.
proof fn lemma_recorded_latest_shape(records: Seq<ActivityRecord>, record: ActivityRecord)
    requires
        all_not_after(records, record.recorded_at_seconds),
    ensures
        ({
            let w = without_commit(records, record);
            let sorted = time_sorted(w);
            &&& recorded(records, record) == keep_latest(
                sorted.push(record),
                MAX_ACTIVITY_RECORDS as nat,
            )
            &&& chronological(sorted.push(record))
            &&& lacks_commit(sorted, record)
            &&& all_not_after(sorted, record.recorded_at_seconds)
        }),
{
    let t = record.recorded_at_seconds;
    let w = without_commit(records, record);
    lemma_without_commit_parts(records, record, t);
    lemma_time_sorted_keeps(w, record, t);
    lemma_time_sorted_chronological(w);
    let sorted = time_sorted(w);
    lemma_count_all_not_after(sorted, t);
    let kept = w.push(record);
    assert(kept.drop_last() =~= w);
    assert(sorted.take(sorted.len() as int) =~= sorted);
    assert(sorted.skip(sorted.len() as int) =~= Seq::<ActivityRecord>::empty());
    assert(insert_by_time(sorted, record) =~= sorted.push(record));
    assert(time_sorted(kept) == sorted.push(record));
    assert(chronological(sorted.push(record))) by {
        let r = sorted.push(record);
        assert forall|i: int, j: int| 0 <= i <= j < r.len() implies #[trigger] r[i].recorded_at_seconds
            <= #[trigger] r[j].recorded_at_seconds by {
            if j < sorted.len() {
                assert(r[i] == sorted[i] && r[j] == sorted[j]);
            } else if i < sorted.len() {
                assert(r[i] == sorted[i]);
            }
        }
    }
}

proof fn lemma_latest_index_of_last_max(s: Seq<ActivityRecord>)
    requires
        s.len() > 0,
        all_not_after(s, s.last().recorded_at_seconds),
    ensures
        latest_index(s) == s.len() - 1,
{
    lemma_latest_index_bounds(s.drop_last());
    let k = latest_index(s.drop_last());
    if k >= 0 {
        assert(s.drop_last()[k] == s[k]);
    }
}

/// A commit recorded no earlier than every other record becomes the last activity.
pub proof fn lemma_record_then_last_activity(records: Seq<ActivityRecord>, record: ActivityRecord)
    requires
        all_not_after(records, record.recorded_at_seconds),
    ensures
        recorded(records, record).len() > 0,
        recorded(records, record)[latest_index(recorded(records, record))] == record,
{
    lemma_recorded_latest_shape(records, record);
    let t = record.recorded_at_seconds;
    let sorted = time_sorted(without_commit(records, record));
    let full = sorted.push(record);
    let r = recorded(records, record);
    assert(r.len() > 0 && r.last() == record);
    assert(all_not_after(r, t)) by {
        assert forall|i: int| 0 <= i < r.len() implies #[trigger] r[i].recorded_at_seconds <= t by {
            if full.len() > MAX_ACTIVITY_RECORDS {
                assert(r[i] == full[i + full.len() - MAX_ACTIVITY_RECORDS]);
            }
            let k = if full.len() > MAX_ACTIVITY_RECORDS { i + full.len() - MAX_ACTIVITY_RECORDS } else { i };
            if k < sorted.len() {
                assert(full[k] == sorted[k]);
            }
        }
    }
    lemma_latest_index_of_last_max(r);
}

proof fn lemma_time_sorted_of_chronological(s: Seq<ActivityRecord>)
    requires
        chronological(s),
    ensures
        time_sorted(s) == s,
    decreases s.len(),
{
    if s.len() > 0 {
        let d = s.drop_last();
        assert(chronological(d)) by {
            assert forall|i: int, j: int| 0 <= i <= j < d.len() implies #[trigger] d[i].recorded_at_seconds
                <= #[trigger] d[j].recorded_at_seconds by {
                assert(d[i] == s[i] && d[j] == s[j]);
            }
        }
        lemma_time_sorted_of_chronological(d);
        assert(all_not_after(d, s.last().recorded_at_seconds)) by {
            assert forall|i: int| 0 <= i < d.len() implies #[trigger] d[i].recorded_at_seconds
                <= s.last().recorded_at_seconds by {
                assert(d[i] == s[i]);
            }
        }
        lemma_count_all_not_after(d, s.last().recorded_at_seconds);
        assert(d.take(d.len() as int) =~= d);
        assert(d.skip(d.len() as int) =~= Seq::<ActivityRecord>::empty());
        assert(insert_by_time(d, s.last()) =~= s);
    }
}

proof fn lemma_without_commit_concat(a: Seq<ActivityRecord>, b: Seq<ActivityRecord>, x: ActivityRecord)
    ensures
        without_commit(a + b, x) == without_commit(a, x) + without_commit(b, x),
    decreases b.len(),
{
    if b.len() == 0 {
        assert(a + b =~= a);
        assert(without_commit(a, x) + without_commit(b, x) =~= without_commit(a, x));
    } else {
        assert((a + b).drop_last() =~= a + b.drop_last());
        lemma_without_commit_concat(a, b.drop_last(), x);
        if same_commit(b.last(), x) {
        } else {
            assert(without_commit(a, x) + without_commit(b.drop_last(), x).push(b.last()) =~= (
            without_commit(a, x) + without_commit(b.drop_last(), x)).push(b.last()));
        }
    }
}

proof fn lemma_lacks_part(s: Seq<ActivityRecord>, x: ActivityRecord, lo: int, hi: int)
    requires
        lacks_commit(s, x),
        0 <= lo <= hi <= s.len(),
    ensures
        lacks_commit(s.subrange(lo, hi), x),
{
    assert forall|i: int| 0 <= i < hi - lo implies !same_commit(#[trigger] s.subrange(lo, hi)[i], x) by {
        assert(s.subrange(lo, hi)[i] == s[lo + i]);
    }
}

proof fn lemma_chronological_part(s: Seq<ActivityRecord>, lo: int, hi: int)
    requires
        chronological(s),
        0 <= lo <= hi <= s.len(),
    ensures
        chronological(s.subrange(lo, hi)),
{
    let r = s.subrange(lo, hi);
    assert forall|i: int, j: int| 0 <= i <= j < r.len() implies #[trigger] r[i].recorded_at_seconds
        <= #[trigger] r[j].recorded_at_seconds by {
        assert(r[i] == s[lo + i] && r[j] == s[lo + j]);
    }
}

/// Recording a commit a second time changes nothing: the log after
/// recording a record twice is the log after recording it once.
pub proof fn lemma_record_twice_is_once(records: Seq<ActivityRecord>, record: ActivityRecord)
    ensures
        recorded(recorded(records, record), record) == recorded(records, record),
{
    let x = record;
    let t = x.recorded_at_seconds;
    let n = MAX_ACTIVITY_RECORDS as int;
    let w = without_commit(records, x);
    lemma_without_commit_parts(records, x, t);
    lemma_time_sorted_keeps(w, x, t);
    lemma_time_sorted_chronological(w);
    let tt = time_sorted(w);
    assert(w.push(x).drop_last() =~= w);
    let s1 = time_sorted(w.push(x));
    assert(s1 == insert_by_time(tt, x));
    lemma_count_splits(tt, t);
    let p = count_not_after(tt, t) as int;
    assert(s1 =~= tt.take(p) + seq![x] + tt.skip(p));
    let k = if s1.len() > n { s1.len() - n } else { 0 };
    let r1 = recorded(records, x);
    assert(r1 =~= s1.skip(k));
    assert(same_commit(x, x));
    if k <= p {
        let a = tt.subrange(k, p);
        let b = tt.skip(p);
        assert(r1 =~= a + seq![x] + b);
        lemma_lacks_part(tt, x, k, p);
        lemma_lacks_part(tt, x, p, tt.len() as int);
        assert(tt.subrange(p, tt.len() as int) =~= b);
        lemma_without_commit_parts(a, x, t);
        lemma_without_commit_parts(b, x, t);
        lemma_without_commit_concat(a + seq![x], b, x);
        lemma_without_commit_concat(a, seq![x], x);
        assert(seq![x].drop_last() =~= Seq::<ActivityRecord>::empty());
        assert(without_commit(Seq::<ActivityRecord>::empty(), x) == Seq::<ActivityRecord>::empty());
        assert(seq![x].last() == x);
        assert(without_commit(seq![x], x) =~= Seq::<ActivityRecord>::empty());
        let u = tt.skip(k);
        assert(a + b =~= u);
        assert(without_commit(r1, x) == u) by {
            assert(a + Seq::<ActivityRecord>::empty() =~= a);
        }
        lemma_chronological_part(tt, k, tt.len() as int);
        assert(tt.subrange(k, tt.len() as int) =~= u);
        lemma_time_sorted_of_chronological(u);
        assert(u.push(x).drop_last() =~= u);
        assert(time_sorted(u.push(x)) == insert_by_time(u, x));
        assert forall|i: int| 0 <= i < p - k implies u[i].recorded_at_seconds <= t by {
            assert(u[i] == tt[k + i]);
        }
        assert forall|i: int| p - k <= i < u.len() implies u[i].recorded_at_seconds > t by {
            assert(u[i] == tt[k + i]);
        }
        lemma_count_not_after_prefix(u, t, p - k);
        assert(insert_by_time(u, x) =~= r1);
        assert(r1.len() <= n);
    } else {
        let u = tt.skip(k - 1);
        assert(r1 =~= u);
        assert(r1.len() == n);
        lemma_lacks_part(tt, x, k - 1, tt.len() as int);
        assert(tt.subrange(k - 1, tt.len() as int) =~= u);
        lemma_without_commit_parts(u, x, t);
        lemma_chronological_part(tt, k - 1, tt.len() as int);
        lemma_time_sorted_of_chronological(u);
        assert(u.push(x).drop_last() =~= u);
        assert(time_sorted(u.push(x)) == insert_by_time(u, x));
        assert forall|i: int| 0 <= i < u.len() implies u[i].recorded_at_seconds > t by {
            assert(u[i] == tt[k - 1 + i]);
        }
        lemma_count_not_after_prefix(u, t, 0);
        assert(insert_by_time(u, x) =~= seq![x] + u);
        assert((seq![x] + u).skip(1) =~= u);
    }
}

/// Every record of `x`'s commit in `s` is `x` itself.
pub open spec fn only_as(s: Seq<ActivityRecord>, x: ActivityRecord) -> bool {
    forall|i: int| 0 <= i < s.len() && same_commit(#[trigger] s[i], x) ==> s[i] == x
}

proof fn lemma_insert_only(s: Seq<ActivityRecord>, y: ActivityRecord, x: ActivityRecord)
    requires
        only_as(s, x),
        same_commit(y, x) ==> y == x,
    ensures
        only_as(insert_by_time(s, y), x),
{
    let p = count_not_after(s, y.recorded_at_seconds) as int;
    lemma_count_not_after_bounds(s, y.recorded_at_seconds);
    let r = insert_by_time(s, y);
    assert forall|i: int| 0 <= i < r.len() && same_commit(#[trigger] r[i], x) implies r[i] == x by {
        if i < p {
            assert(r[i] == s[i]);
        } else if i > p {
            assert(r[i] == s[i - 1]);
        }
    }
}

proof fn lemma_time_sorted_only(s: Seq<ActivityRecord>, x: ActivityRecord)
    requires
        only_as(s, x),
    ensures
        only_as(time_sorted(s), x),
    decreases s.len(),
{
    if s.len() > 0 {
        let d = s.drop_last();
        assert(only_as(d, x)) by {
            assert forall|i: int| 0 <= i < d.len() && same_commit(#[trigger] d[i], x) implies d[i] == x by {
                assert(d[i] == s[i]);
            }
        }
        lemma_time_sorted_only(d, x);
        assert(same_commit(s.last(), x) ==> s.last() == x) by {
            assert(s.last() == s[s.len() - 1]);
        }
        lemma_insert_only(time_sorted(d), s.last(), x);
    }
}

/// Whatever commit is recorded, the log stays ordered by recording time,
/// holds at most `MAX_ACTIVITY_RECORDS` records, and keeps no record of that
/// commit other than the new one.
pub proof fn lemma_recorded_log_shape(records: Seq<ActivityRecord>, record: ActivityRecord)
    ensures
        recorded(records, record).len() <= MAX_ACTIVITY_RECORDS,
        chronological(recorded(records, record)),
        only_as(recorded(records, record), record),
{
    let w = without_commit(records, record);
    lemma_without_commit_parts(records, record, 0);
    let full = w.push(record);
    assert(only_as(full, record)) by {
        assert forall|i: int| 0 <= i < full.len() && same_commit(#[trigger] full[i], record) implies full[i] == record by {
            if i < w.len() {
                assert(full[i] == w[i]);
            }
        }
    }
    lemma_time_sorted_only(full, record);
    lemma_time_sorted_chronological(full);
    let sorted = time_sorted(full);
    let r = recorded(records, record);
    let off = if sorted.len() > MAX_ACTIVITY_RECORDS { sorted.len() - MAX_ACTIVITY_RECORDS } else { 0 };
    assert forall|i: int| 0 <= i < r.len() implies #[trigger] r[i] == sorted[i + off] by {}
    assert(chronological(r)) by {
        assert forall|i: int, j: int| 0 <= i <= j < r.len() implies #[trigger] r[i].recorded_at_seconds
            <= #[trigger] r[j].recorded_at_seconds by {
            assert(r[i] == sorted[i + off] && r[j] == sorted[j + off]);
        }
    }
    assert(only_as(r, record)) by {
        assert forall|i: int| 0 <= i < r.len() && same_commit(#[trigger] r[i], record) implies r[i] == record by {
            assert(r[i] == sorted[i + off]);
        }
    }
}

/// No two records are of the same commit.
pub open spec fn keys_distinct(s: Seq<ActivityRecord>) -> bool {
    forall|i: int, j: int| 0 <= i < j < s.len() ==> !same_commit(#[trigger] s[i], #[trigger] s[j])
}

proof fn lemma_without_commit_lacks(s: Seq<ActivityRecord>, x: ActivityRecord, y: ActivityRecord)
    requires
        lacks_commit(s, y),
    ensures
        lacks_commit(without_commit(s, x), y),
    decreases s.len(),
{
    if s.len() > 0 {
        let d = s.drop_last();
        assert(lacks_commit(d, y)) by {
            assert forall|i: int| 0 <= i < d.len() implies !same_commit(#[trigger] d[i], y) by {
                assert(d[i] == s[i]);
            }
        }
        lemma_without_commit_lacks(d, x, y);
        assert(!same_commit(s[s.len() - 1], y));
        let rest = without_commit(d, x);
        assert forall|i: int| 0 <= i < rest.push(s.last()).len() implies !same_commit(#[trigger] rest.push(s.last())[i], y) by {
            if i < rest.len() {
                assert(rest.push(s.last())[i] == rest[i]);
            }
        }
    }
}

proof fn lemma_push_distinct(s: Seq<ActivityRecord>, y: ActivityRecord)
    requires
        keys_distinct(s),
        lacks_commit(s, y),
    ensures
        keys_distinct(s.push(y)),
{
    let r = s.push(y);
    assert forall|i: int, j: int| 0 <= i < j < r.len() implies !same_commit(#[trigger] r[i], #[trigger] r[j]) by {
        assert(r[i] == s[i]);
        if j < s.len() {
            assert(r[j] == s[j]);
        } else {
            assert(!same_commit(s[i], y));
        }
    }
}

proof fn lemma_distinct_drop_last(s: Seq<ActivityRecord>)
    requires
        keys_distinct(s),
        s.len() > 0,
    ensures
        keys_distinct(s.drop_last()),
        lacks_commit(s.drop_last(), s.last()),
{
    let d = s.drop_last();
    assert forall|i: int, j: int| 0 <= i < j < d.len() implies !same_commit(#[trigger] d[i], #[trigger] d[j]) by {
        assert(d[i] == s[i] && d[j] == s[j]);
    }
    assert forall|i: int| 0 <= i < d.len() implies !same_commit(#[trigger] d[i], s.last()) by {
        assert(d[i] == s[i]);
        assert(!same_commit(s[i], s[s.len() - 1]));
    }
}

proof fn lemma_without_commit_distinct(s: Seq<ActivityRecord>, x: ActivityRecord)
    requires
        keys_distinct(s),
    ensures
        keys_distinct(without_commit(s, x)),
    decreases s.len(),
{
    if s.len() > 0 {
        let d = s.drop_last();
        lemma_distinct_drop_last(s);
        lemma_without_commit_distinct(d, x);
        if !same_commit(s.last(), x) {
            lemma_without_commit_lacks(d, x, s.last());
            lemma_push_distinct(without_commit(d, x), s.last());
        }
    }
}

proof fn lemma_insert_distinct(s: Seq<ActivityRecord>, y: ActivityRecord)
    requires
        keys_distinct(s),
        lacks_commit(s, y),
    ensures
        keys_distinct(insert_by_time(s, y)),
{
    let p = count_not_after(s, y.recorded_at_seconds) as int;
    lemma_count_not_after_bounds(s, y.recorded_at_seconds);
    let r = insert_by_time(s, y);
    assert(r =~= s.take(p) + seq![y] + s.skip(p));
    assert forall|i: int, j: int| 0 <= i < j < r.len() implies !same_commit(#[trigger] r[i], #[trigger] r[j]) by {
        if j < p {
            assert(r[i] == s[i] && r[j] == s[j]);
        } else if j == p {
            assert(r[i] == s[i] && r[j] == y);
        } else if i < p {
            assert(r[i] == s[i] && r[j] == s[j - 1]);
        } else if i == p {
            assert(r[i] == y && r[j] == s[j - 1]);
            assert(!same_commit(s[j - 1], y));
        } else {
            assert(r[i] == s[i - 1] && r[j] == s[j - 1]);
        }
    }
}

proof fn lemma_time_sorted_distinct(s: Seq<ActivityRecord>)
    requires
        keys_distinct(s),
    ensures
        keys_distinct(time_sorted(s)),
    decreases s.len(),
{
    if s.len() > 0 {
        let d = s.drop_last();
        lemma_distinct_drop_last(s);
        lemma_time_sorted_distinct(d);
        lemma_time_sorted_keeps(d, s.last(), 0);
        lemma_insert_distinct(time_sorted(d), s.last());
    }
}

/// Recording a commit into a log whose records are of distinct commits
/// leaves a log whose records are of distinct commits, in recording-time
/// order and within the cap.
pub proof fn lemma_recorded_keeps_commits_distinct(records: Seq<ActivityRecord>, record: ActivityRecord)
    requires
        keys_distinct(records),
    ensures
        keys_distinct(recorded(records, record)),
        chronological(recorded(records, record)),
        recorded(records, record).len() <= MAX_ACTIVITY_RECORDS,
{
    lemma_recorded_log_shape(records, record);
    let w = without_commit(records, record);
    lemma_without_commit_distinct(records, record);
    lemma_without_commit_parts(records, record, 0);
    lemma_push_distinct(w, record);
    lemma_time_sorted_distinct(w.push(record));
    let sorted = time_sorted(w.push(record));
    let r = recorded(records, record);
    let off = if sorted.len() > MAX_ACTIVITY_RECORDS { sorted.len() - MAX_ACTIVITY_RECORDS } else { 0 };
    assert forall|i: int, j: int| 0 <= i < j < r.len() implies !same_commit(#[trigger] r[i], #[trigger] r[j]) by {
        assert(r[i] == sorted[i + off] && r[j] == sorted[j + off]);
    }
}

/// Steady committing softens the mood by exactly one step and never more:
/// with at least `CONSISTENT_RECENT_COMMITS` records in the recent window, a
/// neutral or anxious threshold mood (from the hours since the latest record)
/// becomes the next better mood; every other threshold mood, and every mood
/// without that many recent records, is the threshold mood itself. An empty
/// log is neutral.
pub proof fn lemma_consistency_softens_one_step(s: Seq<ActivityRecord>, now: i64, config: MoodConfig)
    ensures
        s.len() == 0 ==> mood_at(s, now, config) == Mood::Neutral,
        s.len() > 0 ==> {
            let base = config.mood_for(hours_since(now, s[latest_index(s)].recorded_at_seconds));
            let m = mood_at(s, now, config);
            &&& (recent_count(s, now) >= CONSISTENT_RECENT_COMMITS && (base.rank() == 2
                || base.rank() == 3)) ==> m.rank() == base.rank() - 1
            &&& !(recent_count(s, now) >= CONSISTENT_RECENT_COMMITS && (base.rank() == 2
                || base.rank() == 3)) ==> m == base
        },
{
}

/// Only a large diff with more additions than deletions excites, and only a
/// large diff with at least as many deletions as additions makes the pet
/// wince. Once the diff neither confuses (truncated, or binary files only)
/// nor is a rename-only commit, a large addition-heavy diff does excite and
/// a large deletion-heavy diff does make it wince, whatever the streak.
pub proof fn lemma_reaction_follows_the_heavier_side(stats: ReactionStats)
    ensures
        stats.reaction() == Reaction::Excited ==> stats.additions >= LARGE_CHANGE_LINES
            && stats.additions > stats.deletions,
        stats.reaction() == Reaction::Wincing ==> stats.deletions >= LARGE_CHANGE_LINES
            && stats.deletions >= stats.additions,
        ({
            let plain = !stats.truncated && !(stats.binary_files > 0 && stats.binary_files
                >= stats.files_changed) && !(stats.renamed_files >= CURIOUS_RENAMED_FILES
                && stats.renamed_files >= stats.files_changed && stats.additions == 0
                && stats.deletions == 0);
            &&& plain && stats.additions >= LARGE_CHANGE_LINES && stats.additions
                > stats.deletions ==> stats.reaction() == Reaction::Excited
            &&& plain && stats.deletions >= LARGE_CHANGE_LINES && stats.deletions
                >= stats.additions ==> stats.reaction() == Reaction::Wincing
        }),
{
}

} // verus!
