//! Timeline rules: jumping to a position or hash, and the pet's reaction to
//! the commit on screen.

use vstd::prelude::*;

use crate::diff::{lines_of, CommitSummary, FileDiff, FileStatus, StructuredDiff};
use crate::pet::{Reaction, ReactionStats, CURIOUS_RENAMED_FILES, NODDING_STREAK};
use crate::text::{
    ascii_lowered, chars_of, decimal, digit_char, is_white_space, lower_chars, push_decimal,
    push_str, starts_with, string_of, trim_chars, trimmed,
};

verus! {

/// The number of lines a diff shows, all files together.
pub fn count_diff_lines(diff: &StructuredDiff) -> (n: usize)
    requires
        lines_of(diff.files@) <= usize::MAX,
    ensures
        n == lines_of(diff.files@),
{
    let mut n: usize = 0;
    let mut i: usize = 0;
    while i < diff.files.len()
        invariant
            i <= diff.files.len(),
            n == lines_of(diff.files@.take(i as int)),
            lines_of(diff.files@) <= usize::MAX,
        decreases diff.files.len() - i,
    {
        assert(diff.files@.take(i + 1).drop_last() =~= diff.files@.take(i as int));
        proof {
            lemma_lines_of_prefix(diff.files@, i + 1);
        }
        n = n + diff.files[i].lines.len();
        i = i + 1;
    }
    assert(diff.files@.take(i as int) =~= diff.files@);
    n
}

proof fn lemma_lines_of_prefix(files: Seq<FileDiff>, k: int)
    requires
        0 <= k <= files.len(),
    ensures
        lines_of(files.take(k)) <= lines_of(files),
    decreases files.len(),
{
    if k < files.len() {
        assert(files.drop_last().take(k) =~= files.take(k));
        lemma_lines_of_prefix(files.drop_last(), k);
    } else {
        assert(files.take(k) =~= files);
    }
}

/// Files of a diff that are binary.
pub open spec fn binary_count(files: Seq<FileDiff>) -> nat
    decreases files.len(),
{
    if files.len() == 0 {
        0
    } else {
        binary_count(files.drop_last()) + if files.last().binary { 1nat } else { 0nat }
    }
}

/// Files of a diff that were renamed.
pub open spec fn renamed_count(files: Seq<FileDiff>) -> nat
    decreases files.len(),
{
    if files.len() == 0 {
        0
    } else {
        renamed_count(files.drop_last()) + if files.last().status is Renamed { 1nat } else { 0nat }
    }
}

/// The reaction numbers of a diff, given the tiny-commit streak so far.
pub open spec fn stats_of(diff: StructuredDiff, streak: nat) -> ReactionStats {
    ReactionStats {
        files_changed: diff.stats.files_changed,
        additions: diff.stats.additions,
        deletions: diff.stats.deletions,
        binary_files: binary_count(diff.files@) as usize,
        renamed_files: renamed_count(diff.files@) as usize,
        truncated: diff.truncated,
        tiny_commit_streak: streak as usize,
    }
}

/// The streak after a commit: one longer after a tiny commit, reset otherwise.
pub open spec fn next_streak(diff: StructuredDiff, prior: usize) -> usize {
    if stats_of(diff, 0).tiny() {
        if prior == usize::MAX { prior } else { (prior + 1) as usize }
    } else {
        0
    }
}

/// A run of tiny commits, shown one after another, counts up the streak one
/// by one; from the third on the pet nods along, unless the commit renames
/// enough files to make it curious.
pub proof fn lemma_tiny_run_nods(diffs: Seq<StructuredDiff>, streaks: Seq<usize>)
    requires
        streaks.len() == diffs.len() + 1,
        diffs.len() < usize::MAX,
        streaks[0] == 0,
        forall|k: int| 0 <= k < diffs.len() ==> #[trigger] streaks[k + 1] == next_streak(diffs[k], streaks[k]),
        forall|k: int| 0 <= k < diffs.len() ==> #[trigger] stats_of(diffs[k], 0).tiny(),
    ensures
        forall|k: int| 0 <= k < streaks.len() ==> #[trigger] streaks[k] == k,
        forall|k: int|
            0 <= k < diffs.len() && k + 1 >= NODDING_STREAK && renamed_count(diffs[k].files@)
                < CURIOUS_RENAMED_FILES ==> #[trigger] stats_of(diffs[k], streaks[k + 1] as nat).reaction()
                == Reaction::Nodding,
    decreases diffs.len(),
{
    if diffs.len() > 0 {
        let n = diffs.len() - 1;
        let d = diffs.take(n);
        let st = streaks.take(n + 1);
        assert forall|k: int| 0 <= k < d.len() implies #[trigger] st[k + 1] == next_streak(d[k], st[k]) by {
            assert(st[k + 1] == streaks[k + 1] && st[k] == streaks[k] && d[k] == diffs[k]);
            assert(streaks[k + 1] == next_streak(diffs[k], streaks[k]));
        }
        assert forall|k: int| 0 <= k < d.len() implies #[trigger] stats_of(d[k], 0).tiny() by {
            assert(d[k] == diffs[k]);
            assert(stats_of(diffs[k], 0).tiny());
        }
        lemma_tiny_run_nods(d, st);
        assert(st[n] == n);
        assert(streaks[n] == st[n]);
        assert(streaks[n + 1] == next_streak(diffs[n], streaks[n]));
        assert(stats_of(diffs[n], 0).tiny());
        assert forall|k: int| 0 <= k < streaks.len() implies #[trigger] streaks[k] == k by {
            if k <= n {
                assert(st[k] == streaks[k]);
            }
        }
    }
}

/// The pet's reaction to a diff and the new tiny-commit streak.
pub fn reaction_for_diff(diff: &StructuredDiff, prior_tiny_commit_streak: usize) -> (r: (Reaction, usize))
    ensures
        r.1 == next_streak(*diff, prior_tiny_commit_streak),
        r.0 == stats_of(*diff, r.1 as nat).reaction(),
{
    let mut binary_files: usize = 0;
    let mut renamed_files: usize = 0;
    let mut i: usize = 0;
    while i < diff.files.len()
        invariant
            i <= diff.files.len(),
            binary_files == binary_count(diff.files@.take(i as int)),
            renamed_files == renamed_count(diff.files@.take(i as int)),
            binary_files <= i,
            renamed_files <= i,
        decreases diff.files.len() - i,
    {
        assert(diff.files@.take(i + 1).drop_last() =~= diff.files@.take(i as int));
        if diff.files[i].binary {
            binary_files = binary_files + 1;
        }
        match diff.files[i].status {
            FileStatus::Renamed => {
                renamed_files = renamed_files + 1;
            },
            _ => {},
        }
        i = i + 1;
    }
    assert(diff.files@.take(i as int) =~= diff.files@);
    let mut stats = ReactionStats {
        files_changed: diff.stats.files_changed,
        additions: diff.stats.additions,
        deletions: diff.stats.deletions,
        binary_files,
        renamed_files,
        truncated: diff.truncated,
        tiny_commit_streak: 0,
    };
    let streak = if stats.is_tiny_commit() {
        prior_tiny_commit_streak.saturating_add(1)
    } else {
        0
    };
    stats.tiny_commit_streak = streak;
    (Reaction::from_stats(stats), streak)
}

/// All characters are ASCII digits.
pub open spec fn all_digits(s: Seq<char>) -> bool {
    forall|i: int| 0 <= i < s.len() ==> '0' <= #[trigger] s[i] <= '9'
}

/// The number that a string of ASCII digits writes.
pub open spec fn digits_value(s: Seq<char>) -> nat
    decreases s.len(),
{
    if s.len() == 0 {
        0
    } else {
        digits_value(s.drop_last()) * 10 + ((s.last() as u32) - ('0' as u32)) as nat
    }
}

proof fn lemma_digits_value_grows(s: Seq<char>, k: int)
    requires
        all_digits(s),
        0 <= k <= s.len(),
    ensures
        digits_value(s.take(k)) <= digits_value(s),
    decreases s.len(),
{
    if k < s.len() {
        let d = s.drop_last();
        assert(d.take(k) =~= s.take(k));
        assert(all_digits(d)) by {
            assert forall|i: int| 0 <= i < d.len() implies '0' <= #[trigger] d[i] <= '9' by {
                assert(d[i] == s[i]);
            }
        }
        lemma_digits_value_grows(d, k);
        assert('0' <= s[s.len() - 1] <= '9');
    } else {
        assert(s.take(k) =~= s);
    }
}

/// The value of a string of ASCII digits, if it fits in `usize`.
pub fn parse_digits(s: &Vec<char>) -> (r: Option<usize>)
    requires
        all_digits(s@),
    ensures
        match r {
            Some(v) => v == digits_value(s@),
            None => digits_value(s@) > usize::MAX,
        },
{
    let mut v: usize = 0;
    let mut i: usize = 0;
    while i < s.len()
        invariant
            i <= s.len(),
            all_digits(s@),
            v == digits_value(s@.take(i as int)),
        decreases s.len() - i,
    {
        assert(s@.take(i + 1).drop_last() =~= s@.take(i as int));
        assert('0' <= s@[i as int] <= '9');
        let d = (s[i] as u32 - '0' as u32) as usize;
        let next = match v.checked_mul(10) {
            Some(t) => t.checked_add(d),
            None => None,
        };
        match next {
            Some(n) => {
                v = n;
            },
            None => {
                proof {
                    lemma_digits_value_grows(s@, i + 1);
                }
                return None;
            },
        }
        i = i + 1;
    }
    assert(s@.take(i as int) =~= s@);
    Some(v)
}

fn digits_only(s: &Vec<char>) -> (r: bool)
    ensures
        r == all_digits(s@),
{
    let mut i: usize = 0;
    while i < s.len()
        invariant
            i <= s.len(),
            forall|j: int| 0 <= j < i ==> '0' <= #[trigger] s@[j] <= '9',
        decreases s.len() - i,
    {
        if !('0' <= s[i] && s[i] <= '9') {
            return false;
        }
        i = i + 1;
    }
    true
}

/// Whether a commit's hash begins with `needle`, ignoring ASCII case.
pub open spec fn hash_matches(commit: CommitSummary, needle: Seq<char>) -> bool {
    starts_with(ascii_lowered(commit.hash@), needle)
}

/// Indices of the commits whose hash begins with `needle`, in order.
pub open spec fn matching_commits(commits: Seq<CommitSummary>, needle: Seq<char>) -> Seq<usize>
    decreases commits.len(),
{
    if commits.len() == 0 {
        Seq::empty()
    } else {
        let rest = matching_commits(commits.drop_last(), needle);
        if hash_matches(commits.last(), needle) {
            rest.push((commits.len() - 1) as usize)
        } else {
            rest
        }
    }
}

proof fn lemma_matching_in_range(commits: Seq<CommitSummary>, needle: Seq<char>)
    ensures
        forall|k: int| 0 <= k < matching_commits(commits, needle).len() ==> #[trigger] matching_commits(commits, needle)[k] < commits.len(),
    decreases commits.len(),
{
    if commits.len() > 0 {
        let d = commits.drop_last();
        lemma_matching_in_range(d, needle);
        let rest = matching_commits(d, needle);
        let all = matching_commits(commits, needle);
        assert forall|k: int| 0 <= k < all.len() implies #[trigger] all[k] < commits.len() by {
            if k < rest.len() {
                assert(all[k] == rest[k]);
            }
        }
    }
}

/// A jump always leads to a commit of the timeline.
pub proof fn lemma_jump_target_in_range(query: Seq<char>, commits: Seq<CommitSummary>)
    ensures
        jump_target(query, commits) matches Ok(i) ==> i < commits.len(),
{
    lemma_matching_in_range(commits, ascii_lowered(trimmed(query)));
}

proof fn lemma_decimal_is_digits(n: nat)
    ensures
        decimal(n).len() > 0,
        all_digits(decimal(n)),
        digits_value(decimal(n)) == n,
    decreases n,
{
    let d = (n % 10) as nat;
    assert(digit_char(d) as u32 - '0' as u32 == d) by {
        assert(d < 10);
    }
    if n >= 10 {
        lemma_decimal_is_digits(n / 10);
        let s = decimal(n);
        assert(s == decimal(n / 10).push(digit_char(d)));
        assert(s.drop_last() =~= decimal(n / 10));
        assert forall|i: int| 0 <= i < s.len() implies '0' <= #[trigger] s[i] <= '9' by {
            if i < s.len() - 1 {
                assert(s[i] == decimal(n / 10)[i]);
            }
        }
        assert(s.last() == digit_char(d));
        assert(digits_value(s) == digits_value(decimal(n / 10)) * 10 + d);
        assert(n == (n / 10) * 10 + n % 10);
        assert(digits_value(s) == n);
    } else {
        let s = decimal(n);
        assert(s.drop_last() =~= Seq::<char>::empty());
        assert(digits_value(Seq::<char>::empty()) == 0);
        assert(s.last() == digit_char(d));
        assert(d == n);
    }
}

/// A position that the timeline shows, typed at the jump prompt, leads back
/// to that commit, whatever the commits' hashes.
pub proof fn lemma_jump_to_shown_position(n: nat, commits: Seq<CommitSummary>)
    requires
        1 <= n <= commits.len(),
    ensures
        jump_target(decimal(n), commits) == Ok::<usize, Seq<char>>((n - 1) as usize),
{
    lemma_decimal_is_digits(n);
    let s = decimal(n);
    assert(!is_white_space(s[0]));
    assert(!is_white_space(s.last()));
    assert(s.skip(0) =~= s);
    assert(s.take(s.len() as int) =~= s);
    assert(trimmed(s) == s);
}

proof fn lemma_starts_with_chars(s: Seq<char>, p: Seq<char>)
    ensures
        starts_with(s, p) <==> (p.len() <= s.len() && forall|j: int| 0 <= j < p.len() ==> s[j] == p[j]),
{
    if p.len() <= s.len() && forall|j: int| 0 <= j < p.len() ==> s[j] == p[j] {
        assert(s.take(p.len() as int) =~= p);
    }
    if starts_with(s, p) {
        assert forall|j: int| 0 <= j < p.len() implies s[j] == p[j] by {
            assert(s.take(p.len() as int)[j] == s[j]);
        }
    }
}

proof fn lemma_matching_exact(commits: Seq<CommitSummary>, needle: Seq<char>)
    requires
        commits.len() <= usize::MAX,
    ensures
        forall|m: int| 0 <= m < matching_commits(commits, needle).len() ==> {
            &&& #[trigger] matching_commits(commits, needle)[m] < commits.len()
            &&& hash_matches(commits[matching_commits(commits, needle)[m] as int], needle)
        },
        forall|m1: int, m2: int| 0 <= m1 < m2 < matching_commits(commits, needle).len() ==>
            #[trigger] matching_commits(commits, needle)[m1] < #[trigger] matching_commits(commits, needle)[m2],
        forall|k: int| 0 <= k < commits.len() && #[trigger] hash_matches(commits[k], needle) ==> exists|m: int|
            0 <= m < matching_commits(commits, needle).len() && matching_commits(commits, needle)[m] == k,
    decreases commits.len(),
{
    if commits.len() > 0 {
        let d = commits.drop_last();
        lemma_matching_exact(d, needle);
        let rest = matching_commits(d, needle);
        let all = matching_commits(commits, needle);
        assert(commits.last() == commits[commits.len() - 1]);
        if hash_matches(commits.last(), needle) {
            assert(all == rest.push((commits.len() - 1) as usize));
        } else {
            assert(all == rest);
        }
        assert forall|m: int| 0 <= m < all.len() implies {
            &&& #[trigger] all[m] < commits.len()
            &&& hash_matches(commits[all[m] as int], needle)
        } by {
            if m < rest.len() {
                assert(all[m] == rest[m]);
                assert(commits[rest[m] as int] == d[rest[m] as int]);
            }
        }
        assert forall|m1: int, m2: int| 0 <= m1 < m2 < all.len() implies #[trigger] all[m1] < #[trigger] all[m2] by {
            assert(all[m1] == rest[m1]);
            assert(rest[m1] < d.len());
            if m2 < rest.len() {
                assert(all[m2] == rest[m2]);
            }
        }
        assert forall|k: int| 0 <= k < commits.len() && #[trigger] hash_matches(commits[k], needle) implies exists|m: int|
            0 <= m < all.len() && all[m] == k by {
            if k < commits.len() - 1 {
                assert(commits[k] == d[k]);
                assert(hash_matches(d[k], needle));
                let m = choose|m: int| 0 <= m < rest.len() && rest[m] == k;
                assert(all[m] == rest[m]);
            } else {
                assert(all[all.len() - 1] == k);
            }
        }
    }
}

/// Whether the commit's hash, lowercased, has `n` as its first characters.
pub open spec fn lowered_hash_begins(commit: CommitSummary, n: Seq<char>) -> bool {
    let h = ascii_lowered(commit.hash@);
    n.len() <= h.len() && forall|j: int| 0 <= j < n.len() ==> #[trigger] h[j] == n[j]
}

/// A query that names no position on the timeline is matched against the
/// start of the commit hashes, ignoring ASCII case: it leads to a commit only
/// when that commit's lowercased hash begins with the lowercased, trimmed
/// query and no other commit's does; when exactly one hash begins with it,
/// the jump leads there; and when no hash begins with it, the jump is
/// refused with the query in the message. (The commits fit in memory: their
/// number is at most `usize::MAX`.)
pub proof fn lemma_jump_by_hash_prefix(query: Seq<char>, commits: Seq<CommitSummary>, i: usize)
    requires
        commits.len() <= usize::MAX,
    ensures
        ({
            let t = trimmed(query);
            let n = ascii_lowered(t);
            let by_hash = t.len() > 0 && !(all_digits(t) && 1 <= digits_value(t) <= commits.len());
            &&& by_hash && jump_target(query, commits) == Ok::<usize, Seq<char>>(i) ==> {
                &&& i < commits.len()
                &&& lowered_hash_begins(commits[i as int], n)
                &&& forall|k: int| 0 <= k < commits.len() && k != i as int ==> !lowered_hash_begins(#[trigger] commits[k], n)
            }
            &&& by_hash && i < commits.len() && lowered_hash_begins(commits[i as int], n) && (forall|k: int|
                0 <= k < commits.len() && k != i as int ==> !lowered_hash_begins(#[trigger] commits[k], n)) ==> jump_target(query, commits)
                == Ok::<usize, Seq<char>>(i)
            &&& by_hash && (forall|k: int| 0 <= k < commits.len() ==> !lowered_hash_begins(#[trigger] commits[k], n)) ==> jump_target(
                query,
                commits,
            ) == Err::<usize, Seq<char>>("no commit or position matches '"@ + t + "'"@)
        }),
{
    let t = trimmed(query);
    let n = ascii_lowered(t);
    let found = matching_commits(commits, n);
    lemma_matching_exact(commits, n);
    assert forall|k: int| 0 <= k < commits.len() implies (hash_matches(commits[k], n)
        <==> lowered_hash_begins(#[trigger] commits[k], n)) by {
        lemma_starts_with_chars(ascii_lowered(commits[k].hash@), n);
    }
    if found.len() > 0 {
        assert(hash_matches(commits[found[0] as int], n));
    }
    if i < commits.len() && hash_matches(commits[i as int], n) {
        let m = choose|m: int| 0 <= m < found.len() && found[m] == i as int;
        if found.len() > 1 {
            if m == 0 {
                assert(found[0] < found[1]);
            } else {
                assert(found[0] < found[m]);
            }
        }
    }
    if found.len() == 1 {
        assert forall|k: int| 0 <= k < commits.len() && hash_matches(commits[k], n) implies k == found[0] by {
            let m = choose|m: int| 0 <= m < found.len() && found[m] == k;
        }
    }
}

/// Where a jump query leads, or why it leads nowhere. A number within the
/// timeline is a 1-based position; any other query is matched, ignoring
/// ASCII case, as the prefix of exactly one commit hash.
pub open spec fn jump_target(query: Seq<char>, commits: Seq<CommitSummary>) -> Result<usize, Seq<char>> {
    let t = trimmed(query);
    let needle = ascii_lowered(t);
    let found = matching_commits(commits, needle);
    if t.len() == 0 {
        Err("enter a position or commit hash"@)
    } else if all_digits(t) && 1 <= digits_value(t) <= commits.len() {
        Ok((digits_value(t) - 1) as usize)
    } else if found.len() == 0 {
        Err("no commit or position matches '"@ + t + "'"@)
    } else if found.len() == 1 {
        Ok(found[0])
    } else {
        Err("'"@ + t + "' is ambiguous ("@ + decimal(found.len()) + " commits)"@)
    }
}

fn prefix_matches(s: &Vec<char>, prefix: &Vec<char>) -> (r: bool)
    ensures
        r == starts_with(s@, prefix@),
{
    if prefix.len() > s.len() {
        return false;
    }
    let mut i: usize = 0;
    while i < prefix.len()
        invariant
            prefix.len() <= s.len(),
            i <= prefix.len(),
            forall|j: int| 0 <= j < i ==> s@[j] == prefix@[j],
        decreases prefix.len() - i,
    {
        if s[i] != prefix[i] {
            assert(s@.take(prefix.len() as int)[i as int] != prefix@[i as int]);
            return false;
        }
        i = i + 1;
    }
    assert(s@.take(prefix.len() as int) =~= prefix@);
    true
}

/// Resolves a jump query to a zero-based commit index.
pub fn resolve_jump(query: &str, commits: &[CommitSummary]) -> (r: Result<usize, String>)
    ensures
        match jump_target(query@, commits@) {
            Ok(i) => r == Ok::<usize, String>(i),
            Err(m) => r matches Err(e) && e@ == m,
        },
        r matches Ok(i) ==> i < commits@.len(),
{
    proof {
        lemma_jump_target_in_range(query@, commits@);
    }
    let q = chars_of(query);
    let t = trim_chars(&q);
    if t.len() == 0 {
        return Err(String::from_str("enter a position or commit hash"));
    }
    if digits_only(&t) {
        match parse_digits(&t) {
            Some(position) => {
                if 1 <= position && position <= commits.len() {
                    return Ok(position - 1);
                }
            },
            None => {},
        }
    }
    let needle = lower_chars(&t);
    let mut found: Vec<usize> = Vec::new();
    let mut i: usize = 0;
    while i < commits.len()
        invariant
            i <= commits.len(),
            needle@ == ascii_lowered(t@),
            found@ == matching_commits(commits@.take(i as int), needle@),
        decreases commits.len() - i,
    {
        let hash = lower_chars(&chars_of(commits[i].hash.as_str()));
        assert(commits@.take(i + 1).drop_last() =~= commits@.take(i as int));
        assert(commits@.take(i + 1).last() == commits@[i as int]);
        if prefix_matches(&hash, &needle) {
            found.push(i);
        }
        i = i + 1;
    }
    assert(commits@.take(i as int) =~= commits@);
    let text = string_of(&t);
    if found.len() == 0 {
        let mut m = String::new();
        push_str(&mut m, "no commit or position matches '");
        push_str(&mut m, text.as_str());
        push_str(&mut m, "'");
        Err(m)
    } else if found.len() == 1 {
        Ok(found[0])
    } else {
        let mut m = String::new();
        push_str(&mut m, "'");
        push_str(&mut m, text.as_str());
        push_str(&mut m, "' is ambiguous (");
        push_decimal(&mut m, found.len() as u64);
        push_str(&mut m, " commits)");
        Err(m)
    }
}

} // verus!
