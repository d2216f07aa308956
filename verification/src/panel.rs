//! What the screen shows besides the diff: the timeline bar, the pet status
//! and its animation frame.

use vstd::prelude::*;

use crate::pet::{mood_at, ActivityRecord, Mood, MoodConfig, PetScope, PetState, Reaction, latest_index};
use crate::text::{decimal, push_char, push_decimal, push_str};

verus! {

/// Columns of the timeline that are not bar.
pub const TIMELINE_RESERVED: u16 = 16;
/// Fewest bar columns.
pub const TIMELINE_MIN_WIDTH: usize = 8;
/// Most bar columns.
pub const TIMELINE_MAX_WIDTH: usize = 80;

/// Bar columns for a timeline of the given width.
pub open spec fn bar_width(width: u16) -> int {
    let w: int = if width >= TIMELINE_RESERVED { width - TIMELINE_RESERVED } else { 0 };
    if w < TIMELINE_MIN_WIDTH {
        TIMELINE_MIN_WIDTH as int
    } else if w > TIMELINE_MAX_WIDTH {
        TIMELINE_MAX_WIDTH as int
    } else {
        w
    }
}

/// The column of commit `index` (zero-based) on a bar of `w` columns: the
/// first commit at the left end, the last at the right end.
pub open spec fn bar_column(index: int, w: int, total: int) -> int {
    index * (w - 1) / (total - 1)
}

/// The bar's character at column `k`: `*` for the current commit, `|` for
/// any other commit, `-` between them.
pub open spec fn bar_char(k: int, w: int, position: int, total: int) -> char {
    if total == 1 {
        if k == 0 { '*' } else { '-' }
    } else if k == bar_column(position - 1, w, total) {
        '*'
    } else if exists|i: int| 0 <= i < total && #[trigger] bar_column(i, w, total) == k {
        '|'
    } else {
        '-'
    }
}

/// The timeline line: the bar in brackets, then `position/total`.
pub open spec fn timeline_text(width: u16, position: usize, total: usize) -> Seq<char> {
    if total == 0 {
        "[] 0/0"@
    } else {
        let w = bar_width(width);
        seq!['['] + Seq::new(w as nat, |k: int| bar_char(k, w, position as int, total as int)) + "] "@
            + decimal(position as nat) + seq!['/'] + decimal(total as nat)
    }
}

proof fn lemma_bar_column_bounds(index: int, w: int, total: int)
    requires
        0 <= index < total,
        total >= 2,
        w >= 1,
    ensures
        0 <= bar_column(index, w, total) <= w - 1,
{
    assert(0 <= index * (w - 1) <= (total - 1) * (w - 1)) by (nonlinear_arith)
        requires
            0 <= index < total,
            w >= 1,
    ;
    assert(index * (w - 1) / (total - 1) <= w - 1) by (nonlinear_arith)
        requires
            0 <= index * (w - 1) <= (total - 1) * (w - 1),
            total >= 2,
    ;
    assert(0 <= index * (w - 1) / (total - 1)) by (nonlinear_arith)
        requires
            0 <= index * (w - 1),
            total >= 2,
    ;
}

/// The timeline line for the commit at `position` (1-based) of `total`.
pub fn timeline_line(width: u16, position: usize, total: usize) -> (r: String)
    requires
        total == 0 || 1 <= position <= total,
        total <= usize::MAX / TIMELINE_MAX_WIDTH,
    ensures
        r@ == timeline_text(width, position, total),
{
    if total == 0 {
        return String::from_str("[] 0/0");
    }
    let raw: usize = if width >= TIMELINE_RESERVED { (width - TIMELINE_RESERVED) as usize } else { 0 };
    let w: usize = if raw < TIMELINE_MIN_WIDTH {
        TIMELINE_MIN_WIDTH
    } else if raw > TIMELINE_MAX_WIDTH {
        TIMELINE_MAX_WIDTH
    } else {
        raw
    };
    assert(w == bar_width(width));
    let mut bar: Vec<char> = Vec::new();
    let mut k: usize = 0;
    while k < w
        invariant
            k <= w,
            bar@.len() == k,
            forall|j: int| 0 <= j < k ==> bar@[j] == '-',
        decreases w - k,
    {
        bar.push('-');
        k = k + 1;
    }
    if total == 1 {
        bar.set(0, '*');
        assert(bar@ =~= Seq::new(w as nat, |k: int| bar_char(k, w as int, position as int, total as int)));
    } else {
        let mut index: usize = 0;
        while index < total
            invariant
                2 <= total <= usize::MAX / TIMELINE_MAX_WIDTH,
                TIMELINE_MIN_WIDTH <= w <= TIMELINE_MAX_WIDTH,
                index <= total,
                bar@.len() == w,
                forall|j: int|
                    0 <= j < w ==> #[trigger] bar@[j] == (if exists|i: int| 0 <= i < index && #[trigger] bar_column(i, w as int, total as int) == j {
                        '|'
                    } else {
                        '-'
                    }),
            decreases total - index,
        {
            proof {
                lemma_bar_column_bounds(index as int, w as int, total as int);
                assert(index * (w - 1) <= total * TIMELINE_MAX_WIDTH) by (nonlinear_arith)
                    requires
                        index < total,
                        w <= TIMELINE_MAX_WIDTH,
                ;
                assert(total * TIMELINE_MAX_WIDTH <= usize::MAX) by (nonlinear_arith)
                    requires
                        total <= usize::MAX / TIMELINE_MAX_WIDTH,
                ;
            }
            let mark = index * (w - 1) / (total - 1);
            let ghost before = bar@;
            bar.set(mark, '|');
            proof {
                assert forall|j: int| 0 <= j < w implies #[trigger] bar@[j] == (if exists|i: int| 0 <= i < index + 1 && #[trigger] bar_column(i, w as int, total as int) == j {
                    '|'
                } else {
                    '-'
                }) by {
                    if j == mark {
                        assert(bar_column(index as int, w as int, total as int) == j);
                    } else {
                        assert(bar@[j] == before[j]);
                        if exists|i: int| 0 <= i < index + 1 && #[trigger] bar_column(i, w as int, total as int) == j {
                            let i = choose|i: int| 0 <= i < index + 1 && #[trigger] bar_column(i, w as int, total as int) == j;
                            assert(i != index);
                        }
                    }
                }
            }
            index = index + 1;
        }
        proof {
            lemma_bar_column_bounds(position - 1, w as int, total as int);
            assert((position - 1) * (w - 1) <= total * TIMELINE_MAX_WIDTH) by (nonlinear_arith)
                requires
                    1 <= position <= total,
                    w <= TIMELINE_MAX_WIDTH,
            ;
            assert(total * TIMELINE_MAX_WIDTH <= usize::MAX) by (nonlinear_arith)
                requires
                    total <= usize::MAX / TIMELINE_MAX_WIDTH,
            ;
        }
        let active = (position - 1) * (w - 1) / (total - 1);
        bar.set(active, '*');
        assert(bar@ =~= Seq::new(w as nat, |k: int| bar_char(k, w as int, position as int, total as int)));
    }
    let mut r = String::new();
    push_char(&mut r, '[');
    let mut i: usize = 0;
    while i < bar.len()
        invariant
            i <= bar.len(),
            r@ == seq!['['] + bar@.take(i as int),
        decreases bar.len() - i,
    {
        push_char(&mut r, bar[i]);
        i = i + 1;
        assert(r@ =~= seq!['['] + bar@.take(i as int));
    }
    assert(bar@.take(i as int) =~= bar@);
    push_str(&mut r, "] ");
    push_decimal(&mut r, position as u64);
    push_char(&mut r, '/');
    push_decimal(&mut r, total as u64);
    r
}

/// The timeline marks exactly one commit as current, the first commit at the
/// bar's left end and the last at its right end.
pub proof fn lemma_timeline_marks(width: u16, position: int, total: int, k: int)
    requires
        1 <= position <= total,
        0 <= k < bar_width(width),
    ensures
        bar_char(k, bar_width(width), position, total) == '*' <==> (if total == 1 {
            k == 0
        } else {
            k == bar_column(position - 1, bar_width(width), total)
        }),
        total >= 2 ==> bar_column(0, bar_width(width), total) == 0,
        total >= 2 ==> bar_column(total - 1, bar_width(width), total) == bar_width(width) - 1,
{
    let w = bar_width(width);
    if total >= 2 {
        assert((total - 1) * (w - 1) / (total - 1) == w - 1) by (nonlinear_arith)
            requires
                total >= 2,
        ;
    }
}

/// The mood the pet shows for a scope: the repository's, the global one, or
/// for both scopes the repository's first; neutral when unknown.
pub open spec fn shown_mood(scope: PetScope, repo_mood: Option<Mood>, global_mood: Option<Mood>) -> Mood {
    match scope {
        PetScope::Repo => match repo_mood { Some(m) => m, None => Mood::Neutral },
        PetScope::Global => match global_mood { Some(m) => m, None => Mood::Neutral },
        PetScope::Both => match repo_mood {
            Some(m) => m,
            None => match global_mood { Some(m) => m, None => Mood::Neutral },
        },
    }
}

/// What the pet panel shows.
#[derive(Debug, PartialEq, Eq)]
pub struct PetStatus {
    pub scope: PetScope,
    pub reaction: Reaction,
    pub repo_mood: Option<Mood>,
    pub global_mood: Option<Mood>,
    pub repo_last_activity: Option<ActivityRecord>,
    pub global_last_activity: Option<ActivityRecord>,
}

fn last_activity_copy(state: &PetState) -> (r: Option<ActivityRecord>)
    ensures
        state.spec_records().len() == 0 ==> r is None,
        state.spec_records().len() > 0 ==> r == Some(state.spec_records()[latest_index(state.spec_records())]),
{
    match state.last_activity() {
        Some(record) => Some(record.clone()),
        None => None,
    }
}

impl PetStatus {
    /// The panel at `now`: the moods of the scopes in use and the last
    /// activity of both states.
    pub fn at(
        scope: PetScope,
        reaction: Reaction,
        repo_state: &PetState,
        global_state: &PetState,
        now_seconds: i64,
        config: MoodConfig,
    ) -> (s: Self)
        ensures
            s.scope == scope,
            s.reaction == reaction,
            s.repo_mood == (if scope.includes_repo_spec() {
                Some(mood_at(repo_state.spec_records(), now_seconds, config))
            } else {
                None
            }),
            s.global_mood == (if scope.includes_global_spec() {
                Some(mood_at(global_state.spec_records(), now_seconds, config))
            } else {
                None
            }),
            repo_state.spec_records().len() == 0 ==> s.repo_last_activity is None,
            repo_state.spec_records().len() > 0 ==> s.repo_last_activity == Some(
                repo_state.spec_records()[latest_index(repo_state.spec_records())],
            ),
            global_state.spec_records().len() == 0 ==> s.global_last_activity is None,
            global_state.spec_records().len() > 0 ==> s.global_last_activity == Some(
                global_state.spec_records()[latest_index(global_state.spec_records())],
            ),
    {
        let repo_mood = if scope.includes_repo() {
            Some(repo_state.mood_at(now_seconds, config))
        } else {
            None
        };
        let global_mood = if scope.includes_global() {
            Some(global_state.mood_at(now_seconds, config))
        } else {
            None
        };
        PetStatus {
            scope,
            reaction,
            repo_mood,
            global_mood,
            repo_last_activity: last_activity_copy(repo_state),
            global_last_activity: last_activity_copy(global_state),
        }
    }

    /// The mood the panel shows.
    pub fn primary_mood(&self) -> (m: Mood)
        ensures
            m == shown_mood(self.scope, self.repo_mood, self.global_mood),
    {
        match self.scope {
            PetScope::Repo => match self.repo_mood {
                Some(m) => m,
                None => Mood::Neutral,
            },
            PetScope::Global => match self.global_mood {
                Some(m) => m,
                None => Mood::Neutral,
            },
            PetScope::Both => match self.repo_mood {
                Some(m) => m,
                None => match self.global_mood {
                    Some(m) => m,
                    None => Mood::Neutral,
                },
            },
        }
    }
}

/// How long ago, in words, something happened `seconds` ago.
pub open spec fn age_text(seconds: int) -> Seq<char> {
    if seconds < 60 {
        "just now"@
    } else if seconds < 3600 {
        decimal((seconds / 60) as nat) + "m ago"@
    } else if seconds < 86400 {
        decimal((seconds / 3600) as nat) + "h ago"@
    } else {
        decimal((seconds / 86400) as nat) + "d ago"@
    }
}

/// Seconds from `recorded_at` to `now`, never negative.
pub open spec fn seconds_ago(now: i64, recorded_at: i64) -> int {
    let d = crate::pet::clamp_i64(now - recorded_at);
    if d < 0 { 0 } else { d }
}

/// How long ago an activity was recorded, as of `now`.
pub fn activity_age(activity: &ActivityRecord, now_seconds: i64) -> (r: String)
    ensures
        r@ == age_text(seconds_ago(now_seconds, activity.recorded_at_seconds)),
{
    let d: i128 = now_seconds as i128 - activity.recorded_at_seconds as i128;
    let clamped: i128 = if d > i64::MAX as i128 { i64::MAX as i128 } else { d };
    let seconds: u64 = if clamped < 0 { 0 } else { clamped as u64 };
    assert(seconds == seconds_ago(now_seconds, activity.recorded_at_seconds));
    let mut r = String::new();
    if seconds < 60 {
        push_str(&mut r, "just now");
    } else if seconds < 3_600 {
        push_decimal(&mut r, seconds / 60);
        push_str(&mut r, "m ago");
    } else if seconds < 86_400 {
        push_decimal(&mut r, seconds / 3_600);
        push_str(&mut r, "h ago");
    } else {
        push_decimal(&mut r, seconds / 86_400);
        push_str(&mut r, "d ago");
    }
    r
}

/// The small face drawn for a mood.
pub open spec fn mood_face(mood: Mood) -> Seq<char> {
    match mood {
        Mood::Thriving => "( ^.^ )"@,
        Mood::Content => "( o.o )"@,
        Mood::Neutral => "( -.- )"@,
        Mood::Anxious => "( o_o )"@,
        Mood::Sulking => "( v_v )"@,
    }
}

/// The four lines of the small pet for a mood: ears, face, body, feet.
pub fn pet_sprite(mood: Mood) -> (lines: Vec<&'static str>)
    ensures
        lines@.len() == 4,
        lines@[0]@ == " /\\_/\\"@,
        lines@[1]@ == mood_face(mood),
        lines@[2]@ == " /|_|\\"@,
        lines@[3]@ == "  / \\"@,
{
    let face = match mood {
        Mood::Thriving => "( ^.^ )",
        Mood::Content => "( o.o )",
        Mood::Neutral => "( -.- )",
        Mood::Anxious => "( o_o )",
        Mood::Sulking => "( v_v )",
    };
    let mut lines: Vec<&'static str> = Vec::new();
    lines.push(" /\\_/\\");
    lines.push(face);
    lines.push(" /|_|\\");
    lines.push("  / \\");
    lines
}

/// The pet sprite's animation frame, from its free-running clock.
#[derive(Debug, Clone, Copy, PartialEq, Eq, Structural)]
pub struct PetFrameState {
    pub blink: bool,
    pub particle_phase: usize,
    pub bob: usize,
}

impl PetFrameState {
    /// The frame after `elapsed_ms` milliseconds: a short blink every few
    /// seconds, a slow two-step breathing bob, and a cycling particle phase.
    pub fn at(elapsed_ms: u128) -> (f: Self)
        ensures
            f.blink == (elapsed_ms % 3400 < 150),
            f.particle_phase == (elapsed_ms / 400) as usize,
            f.bob == ((elapsed_ms / 700) % 2) as usize,
    {
        PetFrameState {
            blink: elapsed_ms % 3_400 < 150,
            particle_phase: #[verifier::truncate] ((elapsed_ms / 400) as usize),
            bob: ((elapsed_ms / 700) % 2) as usize,
        }
    }
}

} // verus!
