//! Pet mood, activity state, and the rules that keep it.

use vstd::prelude::*;

use crate::text::{push_char, push_str, str_eq};

verus! {

/// Where pet state is recorded or displayed.
#[derive(Debug, Clone, Copy, PartialEq, Eq, Structural)]
pub enum PetScope {
    Repo,
    Global,
    Both,
}

impl PetScope {
    /// The name under which a scope is written and parsed.
    pub open spec fn name(self) -> Seq<char> {
        match self {
            PetScope::Repo => "repo"@,
            PetScope::Global => "global"@,
            PetScope::Both => "both"@,
        }
    }

    pub open spec fn includes_repo_spec(self) -> bool {
        self is Repo || self is Both
    }

    pub open spec fn includes_global_spec(self) -> bool {
        self is Global || self is Both
    }

    pub fn includes_repo(self) -> (r: bool)
        ensures
            r == self.includes_repo_spec(),
    {
        match self {
            PetScope::Repo | PetScope::Both => true,
            PetScope::Global => false,
        }
    }

    pub fn includes_global(self) -> (r: bool)
        ensures
            r == self.includes_global_spec(),
    {
        match self {
            PetScope::Global | PetScope::Both => true,
            PetScope::Repo => false,
        }
    }

    pub fn as_str(self) -> (s: &'static str)
        ensures
            s@ == self.name(),
    {
        match self {
            PetScope::Repo => "repo",
            PetScope::Global => "global",
            PetScope::Both => "both",
        }
    }
}

impl Default for PetScope {
    fn default() -> (r: Self)
        ensures
            r == PetScope::Repo,
    {
        PetScope::Repo
    }
}

/// A scope name that is none of `repo`, `global` or `both`.
#[derive(Debug, Clone, PartialEq, Eq)]
pub struct ParsePetScopeError(pub String);

impl ParsePetScopeError {
    /// The text of the error, as the command line shows it.
    pub open spec fn message_text(self) -> Seq<char> {
        "invalid pet scope '"@ + self.0@ + "'; expected repo, global, or both"@
    }

    pub fn message(&self) -> (m: String)
        ensures
            m@ == self.message_text(),
    {
        let mut m = String::new();
        push_str(&mut m, "invalid pet scope '");
        push_str(&mut m, self.0.as_str());
        push_str(&mut m, "'; expected repo, global, or both");
        m
    }
}

impl PetScope {
    /// Reads a scope from its name; any other text is refused.
    pub fn parse(value: &str) -> (r: Result<PetScope, ParsePetScopeError>)
        ensures
            match r {
                Ok(scope) => scope.name() == value@,
                Err(e) => e.0@ == value@ && value@ != PetScope::Repo.name()
                    && value@ != PetScope::Global.name() && value@ != PetScope::Both.name(),
            },
    {
        if str_eq(value, "repo") {
            Ok(PetScope::Repo)
        } else if str_eq(value, "global") {
            Ok(PetScope::Global)
        } else if str_eq(value, "both") {
            Ok(PetScope::Both)
        } else {
            Err(ParsePetScopeError(value.to_owned()))
        }
    }
}

impl core::str::FromStr for PetScope {
    type Err = ParsePetScopeError;

    fn from_str(value: &str) -> (r: Result<Self, Self::Err>)
        ensures
            match r {
                Ok(scope) => scope.name() == value@,
                Err(e) => e.0@ == value@ && value@ != PetScope::Repo.name()
                    && value@ != PetScope::Global.name() && value@ != PetScope::Both.name(),
            },
    {
        PetScope::parse(value)
    }
}

/// A scope's name reads back as the same scope.
pub proof fn lemma_scope_name_round_trip(scope: PetScope, other: PetScope)
    ensures
        scope.name() == other.name() <==> scope == other,
{
    reveal_strlit("repo");
    reveal_strlit("global");
    reveal_strlit("both");
    if scope != other {
        assert(scope.name().len() != other.name().len() || scope.name()[0] != other.name()[0]);
    }
}

/// The persisted mood of the pet, from best to worst.
#[derive(Debug, Clone, Copy, PartialEq, Eq, Structural)]
pub enum Mood {
    Thriving,
    Content,
    Neutral,
    Anxious,
    Sulking,
}

impl Mood {
    /// Position of a mood on the scale from thriving (0) to sulking (4).
    pub open spec fn rank(self) -> int {
        match self {
            Mood::Thriving => 0,
            Mood::Content => 1,
            Mood::Neutral => 2,
            Mood::Anxious => 3,
            Mood::Sulking => 4,
        }
    }

    pub open spec fn name(self) -> Seq<char> {
        match self {
            Mood::Thriving => "thriving"@,
            Mood::Content => "content"@,
            Mood::Neutral => "neutral"@,
            Mood::Anxious => "anxious"@,
            Mood::Sulking => "sulking"@,
        }
    }

    pub fn as_str(self) -> (s: &'static str)
        ensures
            s@ == self.name(),
    {
        match self {
            Mood::Thriving => "thriving",
            Mood::Content => "content",
            Mood::Neutral => "neutral",
            Mood::Anxious => "anxious",
            Mood::Sulking => "sulking",
        }
    }
}

/// The pet's reaction to the commit on screen.
#[derive(Debug, Clone, Copy, PartialEq, Eq, Structural)]
pub enum Reaction {
    Calm,
    Excited,
    Curious,
    Confused,
    Wincing,
    Nodding,
}

/// Hour thresholds at which the mood drops a step.
#[derive(Debug, Clone, Copy, PartialEq, Eq, Structural)]
pub struct MoodConfig {
    pub thriving_hours: i64,
    pub content_hours: i64,
    pub neutral_hours: i64,
    pub anxious_hours: i64,
}

impl Default for MoodConfig {
    fn default() -> (r: Self)
        ensures
            r == (MoodConfig {
                thriving_hours: 24,
                content_hours: 48,
                neutral_hours: 96,
                anxious_hours: 168,
            }),
    {
        MoodConfig { thriving_hours: 24, content_hours: 48, neutral_hours: 96, anxious_hours: 168 }
    }
}

impl MoodConfig {
    /// The mood after the given number of hours without a commit: the first
    /// threshold that the hours do not exceed decides.
    pub open spec fn mood_for(self, hours: int) -> Mood {
        if hours <= self.thriving_hours {
            Mood::Thriving
        } else if hours <= self.content_hours {
            Mood::Content
        } else if hours <= self.neutral_hours {
            Mood::Neutral
        } else if hours <= self.anxious_hours {
            Mood::Anxious
        } else {
            Mood::Sulking
        }
    }

    /// Thresholds that grow from thriving to anxious, as a config file must give them.
    pub open spec fn is_ordered(self) -> bool {
        &&& 0 < self.thriving_hours
        &&& self.thriving_hours <= self.content_hours
        &&& self.content_hours <= self.neutral_hours
        &&& self.neutral_hours <= self.anxious_hours
    }

    pub fn mood_for_hours_since_commit(self, hours: i64) -> (m: Mood)
        ensures
            m == self.mood_for(hours as int),
    {
        if hours <= self.thriving_hours {
            Mood::Thriving
        } else if hours <= self.content_hours {
            Mood::Content
        } else if hours <= self.neutral_hours {
            Mood::Neutral
        } else if hours <= self.anxious_hours {
            Mood::Anxious
        } else {
            Mood::Sulking
        }
    }
}

/// Format version written into new pet state.
pub const STATE_VERSION: u32 = 1;
/// Most activity records a pet state keeps; the oldest go first.
pub const MAX_ACTIVITY_RECORDS: usize = 512;
/// Hours within which commits count as recent.
pub const RECENT_WINDOW_HOURS: i64 = 7 * 24;
/// Recent commits that soften a neutral or anxious mood by one step.
pub const CONSISTENT_RECENT_COMMITS: usize = 3;

/// One recorded commit.
#[derive(Debug, PartialEq, Eq)]
pub struct ActivityRecord {
    pub repo_id: String,
    pub commit_hash: String,
    pub commit_time_seconds: i64,
    pub recorded_at_seconds: i64,
}

impl Clone for ActivityRecord {
    fn clone(&self) -> (r: Self)
        ensures
            r == *self,
    {
        ActivityRecord {
            repo_id: self.repo_id.clone(),
            commit_hash: self.commit_hash.clone(),
            commit_time_seconds: self.commit_time_seconds,
            recorded_at_seconds: self.recorded_at_seconds,
        }
    }
}

impl ActivityRecord {
    pub fn new(
        repo_id: String,
        commit_hash: String,
        commit_time_seconds: i64,
        recorded_at_seconds: i64,
    ) -> (r: Self)
        ensures
            r.repo_id == repo_id,
            r.commit_hash == commit_hash,
            r.commit_time_seconds == commit_time_seconds,
            r.recorded_at_seconds == recorded_at_seconds,
    {
        ActivityRecord { repo_id, commit_hash, commit_time_seconds, recorded_at_seconds }
    }
}

/// Two records of the same commit in the same repository.
pub open spec fn same_commit(a: ActivityRecord, b: ActivityRecord) -> bool {
    a.repo_id@ == b.repo_id@ && a.commit_hash@ == b.commit_hash@
}

/// The records that are not of the given record's commit, in order.
pub open spec fn without_commit(s: Seq<ActivityRecord>, r: ActivityRecord) -> Seq<ActivityRecord>
    decreases s.len(),
{
    if s.len() == 0 {
        s
    } else {
        let rest = without_commit(s.drop_last(), r);
        if same_commit(s.last(), r) {
            rest
        } else {
            rest.push(s.last())
        }
    }
}

/// How many records were recorded no later than `t`.
pub open spec fn count_not_after(s: Seq<ActivityRecord>, t: i64) -> nat
    decreases s.len(),
{
    if s.len() == 0 {
        0
    } else {
        count_not_after(s.drop_last(), t) + if s.last().recorded_at_seconds <= t {
            1nat
        } else {
            0nat
        }
    }
}

/// Places `x` after every record of a chronological sequence that was
/// recorded no later than it.
pub open spec fn insert_by_time(s: Seq<ActivityRecord>, x: ActivityRecord) -> Seq<ActivityRecord> {
    let p = count_not_after(s, x.recorded_at_seconds) as int;
    s.take(p) + seq![x] + s.skip(p)
}

/// The records sorted by recording time; records of equal time keep their order.
pub open spec fn time_sorted(s: Seq<ActivityRecord>) -> Seq<ActivityRecord>
    decreases s.len(),
{
    if s.len() == 0 {
        s
    } else {
        insert_by_time(time_sorted(s.drop_last()), s.last())
    }
}

/// Records ordered by recording time.
pub open spec fn chronological(s: Seq<ActivityRecord>) -> bool {
    forall|i: int, j: int|
        0 <= i <= j < s.len() ==> #[trigger] s[i].recorded_at_seconds <= #[trigger] s[j].recorded_at_seconds
}

/// The records recorded at exactly time `t`, in order.
pub open spec fn at_time(s: Seq<ActivityRecord>, t: i64) -> Seq<ActivityRecord>
    decreases s.len(),
{
    if s.len() == 0 {
        s
    } else {
        let rest = at_time(s.drop_last(), t);
        if s.last().recorded_at_seconds == t {
            rest.push(s.last())
        } else {
            rest
        }
    }
}

/// The last `n` records, or all of them when there are fewer.
pub open spec fn keep_latest(s: Seq<ActivityRecord>, n: nat) -> Seq<ActivityRecord> {
    if s.len() > n {
        s.skip(s.len() - n)
    } else {
        s
    }
}

/// The records after `record` is recorded into `records`.
pub open spec fn recorded(records: Seq<ActivityRecord>, record: ActivityRecord) -> Seq<ActivityRecord> {
    keep_latest(
        time_sorted(without_commit(records, record).push(record)),
        MAX_ACTIVITY_RECORDS as nat,
    )
}

/// Index of the record that counts as the last activity: the latest
/// recording time, and the last of the records that share it.
pub open spec fn latest_index(s: Seq<ActivityRecord>) -> int
    decreases s.len(),
{
    if s.len() == 0 {
        -1
    } else {
        let k = latest_index(s.drop_last());
        if k < 0 || s.last().recorded_at_seconds >= s[k].recorded_at_seconds {
            s.len() - 1
        } else {
            k
        }
    }
}

/// `v` clamped to the range of `i64`, as a saturating `i64` subtraction gives it.
pub open spec fn clamp_i64(v: int) -> int {
    if v < i64::MIN {
        i64::MIN as int
    } else if v > i64::MAX {
        i64::MAX as int
    } else {
        v
    }
}

/// Whole hours from `t` to `now`, or zero when `t` is not in the past.
pub open spec fn hours_since(now: i64, t: i64) -> int {
    let d = clamp_i64(now - t);
    (if d < 0 {
        0
    } else {
        d
    }) / 3600
}

/// How many records were recorded within the recent window before `now`.
pub open spec fn recent_count(s: Seq<ActivityRecord>, now: i64) -> nat
    decreases s.len(),
{
    if s.len() == 0 {
        0
    } else {
        recent_count(s.drop_last(), now) + if hours_since(now, s.last().recorded_at_seconds)
            <= RECENT_WINDOW_HOURS {
            1nat
        } else {
            0nat
        }
    }
}

/// The pet's mood at `now`: the thresholds decide from the hours since the
/// last activity, and enough recent commits lift a neutral or anxious mood a step.
pub open spec fn mood_at(s: Seq<ActivityRecord>, now: i64, config: MoodConfig) -> Mood {
    if s.len() == 0 {
        Mood::Neutral
    } else {
        let base = config.mood_for(hours_since(now, s[latest_index(s)].recorded_at_seconds));
        if (base is Neutral || base is Anxious) && recent_count(s, now)
            >= CONSISTENT_RECENT_COMMITS {
            if base is Neutral {
                Mood::Content
            } else {
                Mood::Neutral
            }
        } else {
            base
        }
    }
}

fn saturating_sub_i64(a: i64, b: i64) -> (r: i64)
    ensures
        r == clamp_i64(a - b),
{
    let d: i128 = a as i128 - b as i128;
    if d < i64::MIN as i128 {
        i64::MIN
    } else if d > i64::MAX as i128 {
        i64::MAX
    } else {
        d as i64
    }
}

fn whole_hours_since(now: i64, t: i64) -> (h: i64)
    ensures
        h == hours_since(now, t),
{
    let d = saturating_sub_i64(now, t);
    let d = if d < 0 {
        0
    } else {
        d
    };
    d / 3600
}

/// The pet's persisted activity log.
#[derive(Debug, Clone, PartialEq, Eq)]
pub struct PetState {
    version: u32,
    records: Vec<ActivityRecord>,
}

impl PetState {
    pub closed spec fn spec_version(self) -> u32 {
        self.version
    }

    pub closed spec fn spec_records(self) -> Seq<ActivityRecord> {
        self.records@
    }

    pub fn new() -> (s: Self)
        ensures
            s.spec_version() == STATE_VERSION,
            s.spec_records() == Seq::<ActivityRecord>::empty(),
    {
        PetState { version: STATE_VERSION, records: Vec::new() }
    }

    /// A state as it was stored.
    pub fn from_parts(version: u32, records: Vec<ActivityRecord>) -> (s: Self)
        ensures
            s.spec_version() == version,
            s.spec_records() == records@,
    {
        PetState { version, records }
    }

    pub fn version(&self) -> (v: u32)
        ensures
            v == self.spec_version(),
    {
        self.version
    }

    pub fn records(&self) -> (r: &[ActivityRecord])
        ensures
            r@ == self.spec_records(),
    {
        self.records.as_slice()
    }

    /// Records a commit: an earlier record of the same commit is replaced, the
    /// log is ordered by recording time, and only the latest records are kept.
    pub fn record_commit(&mut self, record: ActivityRecord)
        ensures
            final(self).spec_version() == old(self).spec_version(),
            final(self).spec_records() == recorded(old(self).spec_records(), record),
    {
        let ghost old_records = self.records@;
        let mut kept: Vec<ActivityRecord> = Vec::new();
        let mut i: usize = 0;
        while i < self.records.len()
            invariant
                self.records@ == old_records,
                i <= old_records.len(),
                kept@ == without_commit(old_records.take(i as int), record),
            decreases old_records.len() - i,
        {
            let existing = &self.records[i];
            let same = existing.repo_id == record.repo_id && existing.commit_hash == record.commit_hash;
            assert(old_records.take(i + 1).drop_last() =~= old_records.take(i as int));
            if !same {
                kept.push(existing.clone());
            }
            i = i + 1;
        }
        assert(old_records.take(old_records.len() as int) =~= old_records);
        kept.push(record);
        let mut sorted = sort_by_time(&kept);
        if sorted.len() > MAX_ACTIVITY_RECORDS {
            let overflow = sorted.len() - MAX_ACTIVITY_RECORDS;
            let latest = sorted.split_off(overflow);
            sorted = latest;
        }
        self.records = sorted;
    }

    /// The last activity: the record with the latest recording time, the last
    /// one of those that share it.
    pub fn last_activity(&self) -> (r: Option<&ActivityRecord>)
        ensures
            r is None <==> self.spec_records().len() == 0,
            r matches Some(x) ==> *x == self.spec_records()[latest_index(self.spec_records())],
    {
        if self.records.len() == 0 {
            return None;
        }
        let mut best: usize = 0;
        let mut i: usize = 1;
        proof {
            lemma_latest_index_bounds(self.records@.take(1));
        }
        assert(self.records@.take(1).drop_last() =~= self.records@.take(0));
        while i < self.records.len()
            invariant
                1 <= i <= self.records.len(),
                best < i,
                best as int == latest_index(self.records@.take(i as int)),
            decreases self.records.len() - i,
        {
            let ghost pre = self.records@.take(i + 1);
            assert(pre.drop_last() =~= self.records@.take(i as int));
            proof {
                lemma_latest_index_bounds(self.records@.take(i as int));
            }
            if self.records[i].recorded_at_seconds >= self.records[best].recorded_at_seconds {
                best = i;
            }
            i = i + 1;
        }
        assert(self.records@.take(i as int) =~= self.records@);
        Some(&self.records[best])
    }

    /// The pet's mood at `now`.
    pub fn mood_at(&self, now_seconds: i64, config: MoodConfig) -> (m: Mood)
        ensures
            m == mood_at(self.spec_records(), now_seconds, config),
    {
        let last = match self.last_activity() {
            None => {
                return Mood::Neutral;
            },
            Some(r) => r,
        };
        let hours = whole_hours_since(now_seconds, last.recorded_at_seconds);
        let base = config.mood_for_hours_since_commit(hours);
        match base {
            Mood::Neutral | Mood::Anxious => {
                let mut count: usize = 0;
                let mut i: usize = 0;
                while i < self.records.len()
                    invariant
                        i <= self.records.len(),
                        count == recent_count(self.records@.take(i as int), now_seconds),
                        count <= i,
                    decreases self.records.len() - i,
                {
                    assert(self.records@.take(i + 1).drop_last() =~= self.records@.take(i as int));
                    let age = whole_hours_since(now_seconds, self.records[i].recorded_at_seconds);
                    if age <= RECENT_WINDOW_HOURS {
                        count = count + 1;
                    }
                    i = i + 1;
                }
                assert(self.records@.take(i as int) =~= self.records@);
                if count >= CONSISTENT_RECENT_COMMITS {
                    return match base {
                        Mood::Neutral => Mood::Content,
                        _ => Mood::Neutral,
                    };
                }
                base
            },
            _ => base,
        }
    }
}

impl Default for PetState {
    fn default() -> (s: Self)
        ensures
            s.spec_version() == STATE_VERSION,
            s.spec_records() == Seq::<ActivityRecord>::empty(),
    {
        PetState::new()
    }
}

pub(crate) proof fn lemma_latest_index_bounds(s: Seq<ActivityRecord>)
    ensures
        s.len() == 0 ==> latest_index(s) == -1,
        s.len() > 0 ==> 0 <= latest_index(s) < s.len(),
    decreases s.len(),
{
    if s.len() > 0 {
        lemma_latest_index_bounds(s.drop_last());
    }
}

pub(crate) proof fn lemma_count_not_after_bounds(s: Seq<ActivityRecord>, t: i64)
    ensures
        count_not_after(s, t) <= s.len(),
    decreases s.len(),
{
    if s.len() > 0 {
        lemma_count_not_after_bounds(s.drop_last(), t);
    }
}

/// In a chronological sequence, the records not after `t` are a prefix.
pub(crate) proof fn lemma_count_not_after_prefix(s: Seq<ActivityRecord>, t: i64, p: int)
    requires
        chronological(s),
        0 <= p <= s.len(),
        forall|i: int| 0 <= i < p ==> s[i].recorded_at_seconds <= t,
        forall|i: int| p <= i < s.len() ==> s[i].recorded_at_seconds > t,
    ensures
        count_not_after(s, t) == p,
    decreases s.len(),
{
    if s.len() > 0 {
        let d = s.drop_last();
        if p == s.len() {
            lemma_count_not_after_prefix(d, t, p - 1);
        } else {
            lemma_count_not_after_prefix(d, t, p);
        }
    }
}

/// In a chronological sequence, the records not after `t` come first.
pub(crate) proof fn lemma_count_splits(s: Seq<ActivityRecord>, t: i64)
    requires
        chronological(s),
    ensures
        count_not_after(s, t) <= s.len(),
        forall|i: int| 0 <= i < count_not_after(s, t) ==> s[i].recorded_at_seconds <= t,
        forall|i: int| count_not_after(s, t) <= i < s.len() ==> s[i].recorded_at_seconds > t,
    decreases s.len(),
{
    if s.len() > 0 {
        let d = s.drop_last();
        assert(chronological(d)) by {
            assert forall|i: int, j: int| 0 <= i <= j < d.len() implies #[trigger] d[i].recorded_at_seconds
                <= #[trigger] d[j].recorded_at_seconds by {
                assert(d[i] == s[i] && d[j] == s[j]);
            }
        }
        lemma_count_splits(d, t);
        let c = count_not_after(d, t);
        if s.last().recorded_at_seconds <= t {
            if c < d.len() {
                assert(s[c as int].recorded_at_seconds <= s[s.len() - 1].recorded_at_seconds);
                assert(d[c as int] == s[c as int]);
            }
        }
        assert forall|i: int| 0 <= i < count_not_after(s, t) implies s[i].recorded_at_seconds <= t by {
            if i < d.len() {
                assert(d[i] == s[i]);
            }
        }
        assert forall|i: int| count_not_after(s, t) <= i < s.len() implies s[i].recorded_at_seconds > t by {
            if i < d.len() {
                assert(d[i] == s[i]);
            }
        }
    }
}

/// Inserting by time keeps a sequence chronological.
pub(crate) proof fn lemma_insert_chronological(s: Seq<ActivityRecord>, x: ActivityRecord)
    requires
        chronological(s),
    ensures
        chronological(insert_by_time(s, x)),
        insert_by_time(s, x).len() == s.len() + 1,
{
    let t = x.recorded_at_seconds;
    lemma_count_splits(s, t);
    let p = count_not_after(s, t) as int;
    let r = insert_by_time(s, x);
    assert(r =~= s.take(p) + seq![x] + s.skip(p));
    assert forall|i: int, j: int| 0 <= i <= j < r.len() implies #[trigger] r[i].recorded_at_seconds
        <= #[trigger] r[j].recorded_at_seconds by {
        if i < p && j < p {
            assert(r[i] == s[i] && r[j] == s[j]);
        } else if i < p && j == p {
            assert(r[i] == s[i]);
        } else if i < p {
            assert(r[i] == s[i] && r[j] == s[j - 1]);
        } else if i == p && j > p {
            assert(r[j] == s[j - 1]);
        } else if i > p {
            assert(r[i] == s[i - 1] && r[j] == s[j - 1]);
        }
    }
}

pub(crate) proof fn lemma_time_sorted_chronological(s: Seq<ActivityRecord>)
    ensures
        chronological(time_sorted(s)),
        time_sorted(s).len() == s.len(),
    decreases s.len(),
{
    if s.len() > 0 {
        lemma_time_sorted_chronological(s.drop_last());
        lemma_insert_chronological(time_sorted(s.drop_last()), s.last());
    }
}

/// Stable sort by recording time (insertion).
fn sort_by_time(v: &Vec<ActivityRecord>) -> (r: Vec<ActivityRecord>)
    ensures
        r@ == time_sorted(v@),
{
    let mut sorted: Vec<ActivityRecord> = Vec::new();
    let mut i: usize = 0;
    assert(v@.take(0) =~= Seq::<ActivityRecord>::empty());
    while i < v.len()
        invariant
            i <= v.len(),
            sorted@ == time_sorted(v@.take(i as int)),
            chronological(sorted@),
            sorted.len() == i,
        decreases v.len() - i,
    {
        let x = v[i].clone();
        let t = x.recorded_at_seconds;
        let mut p: usize = 0;
        while p < sorted.len() && sorted[p].recorded_at_seconds <= t
            invariant
                p <= sorted.len(),
                forall|k: int| 0 <= k < p ==> sorted@[k].recorded_at_seconds <= t,
            decreases sorted.len() - p,
        {
            p = p + 1;
        }
        proof {
            assert forall|k: int| p <= k < sorted@.len() implies sorted@[k].recorded_at_seconds > t by {
                assert(sorted@[p as int].recorded_at_seconds <= sorted@[k].recorded_at_seconds);
            }
            lemma_count_not_after_prefix(sorted@, t, p as int);
            lemma_insert_chronological(sorted@, x);
            assert(v@.take(i + 1).drop_last() =~= v@.take(i as int));
        }
        let ghost before = sorted@;
        sorted.insert(p, x);
        assert(sorted@ =~= insert_by_time(before, x));
        i = i + 1;
    }
    assert(v@.take(v.len() as int) =~= v@);
    sorted
}

/// Diff numbers from which the pet picks its reaction to a commit.
#[derive(Debug, Clone, Copy, PartialEq, Eq, Structural)]
pub struct ReactionStats {
    pub files_changed: usize,
    pub additions: usize,
    pub deletions: usize,
    pub binary_files: usize,
    pub renamed_files: usize,
    pub truncated: bool,
    pub tiny_commit_streak: usize,
}

/// Changed lines from which an addition or a deletion counts as large.
pub const LARGE_CHANGE_LINES: usize = 200;
/// Renamed files from which a rename-only commit makes the pet curious.
pub const CURIOUS_RENAMED_FILES: usize = 3;
/// Most changed lines of a tiny commit.
pub const TINY_CHANGE_LINES: usize = 10;
/// Most changed files of a tiny commit.
pub const TINY_CHANGE_FILES: usize = 2;
/// Tiny commits in a row that make the pet nod along.
pub const NODDING_STREAK: usize = 3;

impl ReactionStats {
    /// A small text-only commit.
    pub open spec fn tiny(self) -> bool {
        &&& !self.truncated
        &&& self.binary_files == 0
        &&& self.files_changed <= TINY_CHANGE_FILES
        &&& self.additions + self.deletions <= TINY_CHANGE_LINES
    }

    /// The reaction to these numbers; the first rule that applies decides:
    /// a truncated or binary-only diff confuses, a rename-only commit over
    /// enough files makes curious, a large addition-heavy diff excites, a large
    /// deletion-heavy diff makes wince, a streak of tiny commits makes nod.
    pub open spec fn reaction(self) -> Reaction {
        if self.truncated || (self.binary_files > 0 && self.binary_files >= self.files_changed) {
            Reaction::Confused
        } else if self.renamed_files >= CURIOUS_RENAMED_FILES && self.renamed_files
            >= self.files_changed && self.additions == 0 && self.deletions == 0 {
            Reaction::Curious
        } else if self.additions >= LARGE_CHANGE_LINES && self.additions > self.deletions {
            Reaction::Excited
        } else if self.deletions >= LARGE_CHANGE_LINES && self.deletions >= self.additions {
            Reaction::Wincing
        } else if self.tiny_commit_streak >= NODDING_STREAK {
            Reaction::Nodding
        } else {
            Reaction::Calm
        }
    }

    pub fn is_tiny_commit(&self) -> (r: bool)
        ensures
            r == self.tiny(),
    {
        !self.truncated && self.binary_files == 0 && self.files_changed <= TINY_CHANGE_FILES
            && self.additions <= TINY_CHANGE_LINES && self.deletions <= TINY_CHANGE_LINES
            - self.additions
    }
}

impl Reaction {
    pub fn from_stats(stats: ReactionStats) -> (r: Reaction)
        ensures
            r == stats.reaction(),
    {
        if stats.truncated || (stats.binary_files > 0 && stats.binary_files >= stats.files_changed) {
            Reaction::Confused
        } else if stats.renamed_files >= CURIOUS_RENAMED_FILES && stats.renamed_files
            >= stats.files_changed && stats.additions == 0 && stats.deletions == 0 {
            Reaction::Curious
        } else if stats.additions >= LARGE_CHANGE_LINES && stats.additions > stats.deletions {
            Reaction::Excited
        } else if stats.deletions >= LARGE_CHANGE_LINES && stats.deletions >= stats.additions {
            Reaction::Wincing
        } else if stats.tiny_commit_streak >= NODDING_STREAK {
            Reaction::Nodding
        } else {
            Reaction::Calm
        }
    }
}

/// Errors of loading, saving and locating pet state.
#[derive(Debug, PartialEq, Eq)]
pub enum Error {
    /// Reading or writing the file at `path` failed; `not_found` when it does not exist.
    Io { path: String, not_found: bool, message: String },
    /// The file at `path` does not hold pet state.
    Json { path: String, message: String },
    /// No data directory is known for global pet state.
    MissingDataDirectory,
    /// A scope asked for a state file that is not configured.
    MissingStateTarget(&'static str),
}

impl Error {
    /// The text of the error, as it is shown to the user.
    pub open spec fn message_text(self) -> Seq<char> {
        match self {
            Error::Io { path, not_found, message } => "failed to read or write pet state at "@ + path@
                + ": "@ + message@,
            Error::Json { path, message } => "failed to parse pet state at "@ + path@ + ": "@ + message@,
            Error::MissingDataDirectory => "could not determine an app data directory for global pet state"@,
            Error::MissingStateTarget(scope) => "state target is not configured for "@ + scope@ + " scope"@,
        }
    }

    pub fn message(&self) -> (m: String)
        ensures
            m@ == self.message_text(),
    {
        let mut m = String::new();
        match self {
            Error::Io { path, not_found, message } => {
                push_str(&mut m, "failed to read or write pet state at ");
                push_str(&mut m, path.as_str());
                push_str(&mut m, ": ");
                push_str(&mut m, message.as_str());
            },
            Error::Json { path, message } => {
                push_str(&mut m, "failed to parse pet state at ");
                push_str(&mut m, path.as_str());
                push_str(&mut m, ": ");
                push_str(&mut m, message.as_str());
            },
            Error::MissingDataDirectory => {
                push_str(&mut m, "could not determine an app data directory for global pet state");
            },
            Error::MissingStateTarget(scope) => {
                push_str(&mut m, "state target is not configured for ");
                push_str(&mut m, scope);
                push_str(&mut m, " scope");
            },
        }
        m
    }
}

/// Whether `c` separates path components on `platform`: `/` everywhere,
/// and `\` on Windows as well.
pub open spec fn is_separator(platform: Platform, c: char) -> bool {
    c == '/' || (platform == Platform::Windows && c == '\\')
}

/// The separator that joining inserts on `platform`.
pub open spec fn main_separator(platform: Platform) -> char {
    if platform == Platform::Windows {
        '\\'
    } else {
        '/'
    }
}

/// A bare Windows drive such as `C:`, to which joining adds no separator.
pub open spec fn is_bare_drive(base: Seq<char>) -> bool {
    &&& base.len() == 2
    &&& base[1] == ':'
    &&& (('a' <= base[0] && base[0] <= 'z') || ('A' <= base[0] && base[0] <= 'Z'))
}

/// Path `base` with the relative component `part` appended, as
/// `PathBuf::join` does on `platform`: a separator goes between them unless
/// `base` is empty, already ends in a separator, or is a bare Windows drive.
/// (Windows verbatim paths, which start with `\\?\`, are joined the same way
/// here, without the normalisation that `PathBuf::join` gives them.)
pub open spec fn joined_on(platform: Platform, base: Seq<char>, part: Seq<char>) -> Seq<char> {
    if base.len() == 0 || is_separator(platform, base.last()) || (platform == Platform::Windows
        && is_bare_drive(base)) {
        base + part
    } else {
        base.push(main_separator(platform)) + part
    }
}

fn is_ascii_letter(c: char) -> (r: bool)
    ensures
        r == (('a' <= c && c <= 'z') || ('A' <= c && c <= 'Z')),
{
    ('a' <= c && c <= 'z') || ('A' <= c && c <= 'Z')
}

pub(crate) fn join_path(platform: Platform, base: &str, part: &str) -> (r: String)
    ensures
        r@ == joined_on(platform, base@, part@),
{
    let windows = match platform {
        Platform::Windows => true,
        _ => false,
    };
    let mut r = String::from_str(base);
    let n = base.unicode_len();
    let separated = if n == 0 {
        true
    } else {
        let last = base.get_char(n - 1);
        if last == '/' || (windows && last == '\\') {
            true
        } else {
            windows && n == 2 && base.get_char(1) == ':' && is_ascii_letter(base.get_char(0))
        }
    };
    if !separated {
        if windows {
            push_char(&mut r, '\\');
        } else {
            push_char(&mut r, '/');
        }
    }
    push_str(&mut r, part);
    r
}

/// `<git_dir>/commitchi/state.json`, joined as on `platform`.
pub open spec fn repo_state_path_of(platform: Platform, git_dir: Seq<char>) -> Seq<char> {
    joined_on(platform, joined_on(platform, git_dir, "commitchi"@), "state.json"@)
}

/// Where the pet state of a repository lives, inside its Git metadata, with
/// the components joined as on `platform`.
pub fn repo_state_path(git_dir: &str, platform: Platform) -> (r: String)
    ensures
        r@ == repo_state_path_of(platform, git_dir@),
{
    let dir = join_path(platform, git_dir, "commitchi");
    join_path(platform, dir.as_str(), "state.json")
}

/// The operating system, as far as the data directory depends on it.
#[derive(Debug, Clone, Copy, PartialEq, Eq, Structural)]
pub enum Platform {
    Windows,
    MacOs,
    Unix,
}

/// The environment that decides where global pet state lives.
#[derive(Debug, Clone, PartialEq, Eq)]
pub struct DataDirEnv {
    /// `COMMITCHI_DATA_DIR`
    pub commitchi_data_dir: Option<String>,
    /// `XDG_DATA_HOME`
    pub xdg_data_home: Option<String>,
    /// `APPDATA`
    pub appdata: Option<String>,
    /// `HOME`
    pub home: Option<String>,
    pub platform: Platform,
}

/// The global state path for an environment, if one can be found:
/// `COMMITCHI_DATA_DIR` first, then `XDG_DATA_HOME`, then the platform's
/// application data directory.
pub open spec fn global_state_path_of(env: DataDirEnv) -> Option<Seq<char>> {
    if env.commitchi_data_dir is Some {
        Some(joined_on(env.platform, env.commitchi_data_dir->0@, "state.json"@))
    } else if env.xdg_data_home is Some {
        Some(joined_on(env.platform, joined_on(env.platform, env.xdg_data_home->0@, "commitchi"@), "state.json"@))
    } else {
        match env.platform {
            Platform::Windows => if env.appdata is Some {
                Some(joined_on(env.platform, joined_on(env.platform, env.appdata->0@, "commitchi"@), "state.json"@))
            } else {
                None
            },
            Platform::MacOs => if env.home is Some {
                Some(
                    joined_on(env.platform,
                        joined_on(env.platform,
                            joined_on(env.platform, joined_on(env.platform, env.home->0@, "Library"@), "Application Support"@),
                            "commitchi"@,
                        ),
                        "state.json"@,
                    ),
                )
            } else {
                None
            },
            Platform::Unix => if env.home is Some {
                Some(
                    joined_on(env.platform,
                        joined_on(env.platform, joined_on(env.platform, joined_on(env.platform, env.home->0@, ".local"@), "share"@), "commitchi"@),
                        "state.json"@,
                    ),
                )
            } else {
                None
            },
        }
    }
}

/// Where the pet state shared by all repositories lives.
pub fn global_state_path(env: &DataDirEnv) -> (r: Result<String, Error>)
    ensures
        match global_state_path_of(*env) {
            Some(p) => r matches Ok(path) && path@ == p,
            None => r matches Err(Error::MissingDataDirectory),
        },
{
    if let Some(dir) = &env.commitchi_data_dir {
        return Ok(join_path(env.platform, dir.as_str(), "state.json"));
    }
    if let Some(dir) = &env.xdg_data_home {
        let d = join_path(env.platform, dir.as_str(), "commitchi");
        return Ok(join_path(env.platform, d.as_str(), "state.json"));
    }
    match env.platform {
        Platform::Windows => match &env.appdata {
            Some(dir) => {
                let d = join_path(env.platform, dir.as_str(), "commitchi");
                Ok(join_path(env.platform, d.as_str(), "state.json"))
            },
            None => Err(Error::MissingDataDirectory),
        },
        Platform::MacOs => match &env.home {
            Some(home) => {
                let a = join_path(env.platform, home.as_str(), "Library");
                let b = join_path(env.platform, a.as_str(), "Application Support");
                let c = join_path(env.platform, b.as_str(), "commitchi");
                Ok(join_path(env.platform, c.as_str(), "state.json"))
            },
            None => Err(Error::MissingDataDirectory),
        },
        Platform::Unix => match &env.home {
            Some(home) => {
                let a = join_path(env.platform, home.as_str(), ".local");
                let b = join_path(env.platform, a.as_str(), "share");
                let c = join_path(env.platform, b.as_str(), "commitchi");
                Ok(join_path(env.platform, c.as_str(), "state.json"))
            },
            None => Err(Error::MissingDataDirectory),
        },
    }
}

/// A pet state file.
#[derive(Debug, PartialEq, Eq)]
pub struct StateFile {
    path: String,
}

impl Clone for StateFile {
    fn clone(&self) -> (r: Self)
        ensures
            r == *self,
    {
        StateFile { path: self.path.clone() }
    }
}

impl StateFile {
    pub closed spec fn spec_path(self) -> Seq<char> {
        self.path@
    }

    pub fn new(path: String) -> (f: Self)
        ensures
            f.spec_path() == path@,
    {
        StateFile { path }
    }

    pub fn path(&self) -> (p: &str)
        ensures
            p@ == self.spec_path(),
    {
        self.path.as_str()
    }

    /// The state to use after an attempt to load the file: a missing file
    /// gives fresh state, any other failure is passed on.
    pub fn load_or_default(loaded: Result<PetState, Error>) -> (r: Result<PetState, Error>)
        ensures
            match loaded {
                Ok(state) => r == Ok::<PetState, Error>(state),
                Err(Error::Io { path, not_found: true, message }) => r matches Ok(state)
                    && state.spec_version() == STATE_VERSION && state.spec_records()
                    == Seq::<ActivityRecord>::empty(),
                Err(e) => r == Err::<PetState, Error>(e),
            },
    {
        match loaded {
            Ok(state) => Ok(state),
            Err(Error::Io { path, not_found: true, message }) => Ok(PetState::new()),
            Err(e) => Err(e),
        }
    }

    /// The state to save after recording a commit into the file whose load
    /// attempt is given.
    pub fn record_commit(loaded: Result<PetState, Error>, record: ActivityRecord) -> (r: Result<
        PetState,
        Error,
    >)
        ensures
            match loaded {
                Ok(before) => (r matches Ok(after) && after.spec_version() == before.spec_version()
                    && after.spec_records() == recorded(before.spec_records(), record)),
                Err(Error::Io { path, not_found: true, message }) => r matches Ok(s)
                    && s.spec_version() == STATE_VERSION && s.spec_records() == recorded(
                    Seq::empty(),
                    record,
                ),
                Err(e) => r == Err::<PetState, Error>(e),
            },
    {
        let loaded_state = StateFile::load_or_default(loaded);
        match loaded_state {
            Ok(state) => {
                let mut state = state;
                state.record_commit(record);
                Ok(state)
            },
            Err(e) => Err(e),
        }
    }
}

/// The state files of the scopes in use.
#[derive(Debug, PartialEq, Eq)]
pub struct PetStateFiles {
    repo: Option<StateFile>,
    global: Option<StateFile>,
}

/// The files to write, in order, when recording a commit, and the error that
/// stops the recording after them, if any.
#[derive(Debug, PartialEq, Eq)]
pub struct RecordPlan {
    pub targets: Vec<StateFile>,
    pub error: Option<Error>,
}

impl PetStateFiles {
    pub closed spec fn spec_repo(self) -> Option<StateFile> {
        self.repo
    }

    pub closed spec fn spec_global(self) -> Option<StateFile> {
        self.global
    }

    /// The state files for a repository's Git directory: the repository file
    /// when the scope includes it, the global file when the scope includes it.
    pub fn for_git_dir(git_dir: &str, scope: PetScope, env: &DataDirEnv) -> (r: Result<Self, Error>)
        ensures
            scope.includes_global_spec() && global_state_path_of(*env) is None ==> r matches Err(
                Error::MissingDataDirectory,
            ),
            !(scope.includes_global_spec() && global_state_path_of(*env) is None) ==> (r matches Ok(
                files,
            ) && (match files.spec_repo() {
                Some(f) => scope.includes_repo_spec() && f.spec_path() == repo_state_path_of(
                    env.platform,
                    git_dir@,
                ),
                None => !scope.includes_repo_spec(),
            }) && (match files.spec_global() {
                Some(f) => scope.includes_global_spec() && Some(f.spec_path())
                    == global_state_path_of(*env),
                None => !scope.includes_global_spec(),
            })),
    {
        let repo = if scope.includes_repo() {
            Some(StateFile::new(repo_state_path(git_dir, env.platform)))
        } else {
            None
        };
        let global = if scope.includes_global() {
            Some(StateFile::new(global_state_path(env)?))
        } else {
            None
        };
        Ok(PetStateFiles { repo, global })
    }

    pub fn from_paths(repo: Option<String>, global: Option<String>) -> (r: Self)
        ensures
            match repo {
                Some(p) => r.spec_repo() matches Some(f) && f.spec_path() == p@,
                None => r.spec_repo() is None,
            },
            match global {
                Some(p) => r.spec_global() matches Some(f) && f.spec_path() == p@,
                None => r.spec_global() is None,
            },
    {
        let repo = match repo {
            Some(p) => Some(StateFile::new(p)),
            None => None,
        };
        let global = match global {
            Some(p) => Some(StateFile::new(p)),
            None => None,
        };
        PetStateFiles { repo, global }
    }

    pub fn repo(&self) -> (r: Option<&StateFile>)
        ensures
            match self.spec_repo() {
                Some(f) => r matches Some(g) && *g == f,
                None => r is None,
            },
    {
        match &self.repo {
            Some(f) => Some(f),
            None => None,
        }
    }

    pub fn global(&self) -> (r: Option<&StateFile>)
        ensures
            match self.spec_global() {
                Some(f) => r matches Some(g) && *g == f,
                None => r is None,
            },
    {
        match &self.global {
            Some(f) => Some(f),
            None => None,
        }
    }

    /// The paths to watch for changes: the repository file, then the global one.
    pub fn watch_paths(&self) -> (r: Vec<String>)
        ensures
            r@.len() == (if self.spec_repo() is Some { 1int } else { 0 }) + (if self.spec_global() is Some { 1int } else { 0 }),
            self.spec_repo() matches Some(f) ==> r@[0]@ == f.spec_path(),
            self.spec_global() matches Some(f) ==> r@[r@.len() - 1]@ == f.spec_path(),
    {
        let mut r: Vec<String> = Vec::new();
        if let Some(f) = &self.repo {
            r.push(f.path.clone());
        }
        if let Some(f) = &self.global {
            r.push(f.path.clone());
        }
        r
    }

    /// What recording a commit in `scope` writes: the repository file first,
    /// then the global one; a file that the scope needs but that is not
    /// configured stops the recording there.
    pub fn record_plan(&self, scope: PetScope) -> (plan: RecordPlan)
        ensures
            ({
                let repo_missing = scope.includes_repo_spec() && self.spec_repo() is None;
                let global_missing = scope.includes_global_spec() && self.spec_global() is None;
                let repo_step = scope.includes_repo_spec() && self.spec_repo() is Some;
                let global_step = !repo_missing && scope.includes_global_spec() && self.spec_global() is Some;
                &&& plan.targets@.len() == (if repo_step { 1int } else { 0 }) + (if global_step { 1int } else { 0 })
                &&& repo_step ==> plan.targets@[0] == self.spec_repo()->0
                &&& global_step ==> plan.targets@[plan.targets@.len() - 1] == self.spec_global()->0
                &&& repo_missing ==> plan.error == Some(Error::MissingStateTarget("repo"))
                &&& !repo_missing && global_missing ==> plan.error == Some(Error::MissingStateTarget("global"))
                &&& !repo_missing && !global_missing ==> plan.error is None
            }),
    {
        let mut targets: Vec<StateFile> = Vec::new();
        if scope.includes_repo() {
            match &self.repo {
                Some(f) => targets.push(f.clone()),
                None => {
                    return RecordPlan { targets, error: Some(Error::MissingStateTarget("repo")) };
                },
            }
        }
        if scope.includes_global() {
            match &self.global {
                Some(f) => targets.push(f.clone()),
                None => {
                    return RecordPlan { targets, error: Some(Error::MissingStateTarget("global")) };
                },
            }
        }
        RecordPlan { targets, error: None }
    }
}

/// The longer the pet goes without a commit, the worse its mood, whatever the thresholds.
pub proof fn lemma_mood_for_decays(config: MoodConfig, earlier: int, later: int)
    requires
        earlier <= later,
    ensures
        config.mood_for(earlier).rank() <= config.mood_for(later).rank(),
{
}

} // verus!
