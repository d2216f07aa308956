//! What the terminal screen shows, as text and colour names: the commit
//! header, the file list, the revealed part of the diff and the pet panel.
//! Drawing it is the caller's work.

use vstd::prelude::*;

use crate::diff::{display_path_of, CommitSummary, DiffLine, DiffLineKind, DiffStats, FileDiff, FileStatus, StructuredDiff};
use crate::panel::{activity_age, age_text, seconds_ago, PetStatus};
use crate::pet::{ActivityRecord, Mood, PetScope};
use crate::text::{decimal, pad_left, push_decimal, push_pad_left, push_str, starts_with};

verus! {

/// A foreground colour of the screen's palette.
#[derive(Debug, Clone, Copy, PartialEq, Eq, Structural)]
pub enum Tint {
    Plain,
    Yellow,
    Green,
    Red,
    Blue,
    Cyan,
    Magenta,
    LightRed,
    LightGreen,
    LightMagenta,
    DarkGray,
}

/// How a piece of text is drawn.
#[derive(Debug, Clone, Copy, PartialEq, Eq, Structural)]
pub struct Look {
    pub tint: Tint,
    pub bold: bool,
}

/// The look of a mood's name: green when things go well, red when sulking.
pub open spec fn mood_look_of(mood: Mood) -> Look {
    match mood {
        Mood::Thriving => Look { tint: Tint::LightGreen, bold: true },
        Mood::Content => Look { tint: Tint::Green, bold: false },
        Mood::Neutral => Look { tint: Tint::Yellow, bold: false },
        Mood::Anxious => Look { tint: Tint::LightMagenta, bold: false },
        Mood::Sulking => Look { tint: Tint::LightRed, bold: false },
    }
}

pub fn mood_look(mood: Mood) -> (l: Look)
    ensures
        l == mood_look_of(mood),
{
    match mood {
        Mood::Thriving => Look { tint: Tint::LightGreen, bold: true },
        Mood::Content => Look { tint: Tint::Green, bold: false },
        Mood::Neutral => Look { tint: Tint::Yellow, bold: false },
        Mood::Anxious => Look { tint: Tint::LightMagenta, bold: false },
        Mood::Sulking => Look { tint: Tint::LightRed, bold: false },
    }
}

/// The look of a file's status marker.
pub open spec fn file_status_look_of(status: FileStatus) -> Look {
    let tint = match status {
        FileStatus::Added => Tint::Green,
        FileStatus::Deleted => Tint::Red,
        FileStatus::Modified => Tint::Blue,
        FileStatus::Renamed | FileStatus::Copied => Tint::Cyan,
        FileStatus::TypeChanged => Tint::Magenta,
        FileStatus::Conflicted => Tint::LightRed,
        FileStatus::Truncated => Tint::DarkGray,
    };
    Look { tint, bold: false }
}

pub fn file_status_look(status: FileStatus) -> (l: Look)
    ensures
        l == file_status_look_of(status),
{
    let tint = match status {
        FileStatus::Added => Tint::Green,
        FileStatus::Deleted => Tint::Red,
        FileStatus::Modified => Tint::Blue,
        FileStatus::Renamed | FileStatus::Copied => Tint::Cyan,
        FileStatus::TypeChanged => Tint::Magenta,
        FileStatus::Conflicted => Tint::LightRed,
        FileStatus::Truncated => Tint::DarkGray,
    };
    Look { tint, bold: false }
}

/// The look of a diff line of the given kind.
pub open spec fn diff_line_look_of(kind: DiffLineKind) -> Look {
    match kind {
        DiffLineKind::Addition => Look { tint: Tint::Green, bold: false },
        DiffLineKind::Deletion => Look { tint: Tint::Red, bold: false },
        DiffLineKind::HunkHeader => Look { tint: Tint::Cyan, bold: false },
        DiffLineKind::FileHeader => Look { tint: Tint::Yellow, bold: true },
        DiffLineKind::Binary | DiffLineKind::Truncated => Look { tint: Tint::DarkGray, bold: false },
        DiffLineKind::Context => Look { tint: Tint::Plain, bold: false },
    }
}

pub fn diff_line_look(kind: DiffLineKind) -> (l: Look)
    ensures
        l == diff_line_look_of(kind),
{
    match kind {
        DiffLineKind::Addition => Look { tint: Tint::Green, bold: false },
        DiffLineKind::Deletion => Look { tint: Tint::Red, bold: false },
        DiffLineKind::HunkHeader => Look { tint: Tint::Cyan, bold: false },
        DiffLineKind::FileHeader => Look { tint: Tint::Yellow, bold: true },
        DiffLineKind::Binary | DiffLineKind::Truncated => Look { tint: Tint::DarkGray, bold: false },
        DiffLineKind::Context => Look { tint: Tint::Plain, bold: false },
    }
}

/// The second header line: author, parents and repository.
pub open spec fn author_line_text(commit: CommitSummary, repo_root: Seq<char>) -> Seq<char> {
    commit.author_name@ + " <"@ + commit.author_email@ + "> | parents: "@ + decimal(
        commit.parent_count as nat,
    ) + " | repo: "@ + repo_root
}

pub fn author_line(commit: &CommitSummary, repo_root: &str) -> (r: String)
    ensures
        r@ == author_line_text(*commit, repo_root@),
{
    let mut r = String::new();
    push_str(&mut r, commit.author_name.as_str());
    push_str(&mut r, " <");
    push_str(&mut r, commit.author_email.as_str());
    push_str(&mut r, "> | parents: ");
    push_decimal(&mut r, commit.parent_count as u64);
    push_str(&mut r, " | repo: ");
    push_str(&mut r, repo_root);
    r
}

/// The third header line: the position on the timeline and the diff's numbers.
pub open spec fn stats_line_text(position: usize, total: usize, stats: DiffStats, truncated: bool) -> Seq<char> {
    "commit "@ + decimal(position as nat) + "/"@ + decimal(total as nat) + " | "@ + decimal(
        stats.files_changed as nat,
    ) + " files | +"@ + decimal(stats.additions as nat) + " -"@ + decimal(stats.deletions as nat)
        + if truncated { " truncated"@ } else { ""@ }
}

pub fn stats_line(position: usize, total: usize, diff: &StructuredDiff) -> (r: String)
    ensures
        r@ == stats_line_text(position, total, diff.stats, diff.truncated),
{
    let mut r = String::new();
    push_str(&mut r, "commit ");
    push_decimal(&mut r, position as u64);
    push_str(&mut r, "/");
    push_decimal(&mut r, total as u64);
    push_str(&mut r, " | ");
    push_decimal(&mut r, diff.stats.files_changed as u64);
    push_str(&mut r, " files | +");
    push_decimal(&mut r, diff.stats.additions as u64);
    push_str(&mut r, " -");
    push_decimal(&mut r, diff.stats.deletions as u64);
    if diff.truncated {
        push_str(&mut r, " truncated");
    } else {
        proof {
            reveal_strlit("");
        }
        assert(r@ =~= r@ + ""@);
    }
    r
}

/// The stats line reads back as the diff's numbers: it opens with the
/// position, the total and the number of changed files; it ends with `+` and
/// the additions, ` -` and the deletions, then ` truncated` exactly when the
/// diff was cut.
pub proof fn lemma_stats_line_fields(position: usize, total: usize, stats: DiffStats, truncated: bool)
    ensures
        starts_with(
            stats_line_text(position, total, stats, truncated),
            "commit "@ + decimal(position as nat) + "/"@ + decimal(total as nat) + " | "@ + decimal(
                stats.files_changed as nat,
            ) + " files | +"@,
        ),
        exists|head: Seq<char>|
            stats_line_text(position, total, stats, truncated) == head + "+"@ + decimal(
                stats.additions as nat,
            ) + " -"@ + decimal(stats.deletions as nat) + (if truncated {
                " truncated"@
            } else {
                ""@
            }),
{
    let marker = if truncated {
        " truncated"@
    } else {
        ""@
    };
    let opening = "commit "@ + decimal(position as nat) + "/"@ + decimal(total as nat) + " | "@
        + decimal(stats.files_changed as nat) + " files | +"@;
    let text = stats_line_text(position, total, stats, truncated);
    let rest = decimal(stats.additions as nat) + " -"@ + decimal(stats.deletions as nat) + marker;
    let head = "commit "@ + decimal(position as nat) + "/"@ + decimal(total as nat) + " | "@
        + decimal(stats.files_changed as nat) + " files | "@;
    assert(" files | +"@ =~= " files | "@ + "+"@) by {
        reveal_strlit(" files | +");
        reveal_strlit(" files | ");
        reveal_strlit("+");
    }
    assert(text =~= opening + rest);
    assert(text.take(opening.len() as int) =~= opening);
    assert(text =~= head + "+"@ + decimal(stats.additions as nat) + " -"@ + decimal(
        stats.deletions as nat,
    ) + marker);
}

/// Whether playback runs, in words.
pub fn playback_label(playing: bool) -> (s: &'static str)
    ensures
        s@ == (if playing { "playing"@ } else { "paused"@ }),
{
    if playing {
        "playing"
    } else {
        "paused"
    }
}

/// The status letter of a file in the file list.
pub open spec fn file_marker_text(status: FileStatus) -> Seq<char> {
    match status {
        FileStatus::Added => "A"@,
        FileStatus::Deleted => "D"@,
        FileStatus::Modified => "M"@,
        FileStatus::Renamed => "R"@,
        FileStatus::Copied => "C"@,
        FileStatus::TypeChanged => "T"@,
        FileStatus::Conflicted => "!"@,
        FileStatus::Truncated => "..."@,
    }
}

fn file_marker(status: FileStatus) -> (s: &'static str)
    ensures
        s@ == file_marker_text(status),
{
    match status {
        FileStatus::Added => "A",
        FileStatus::Deleted => "D",
        FileStatus::Modified => "M",
        FileStatus::Renamed => "R",
        FileStatus::Copied => "C",
        FileStatus::TypeChanged => "T",
        FileStatus::Conflicted => "!",
        FileStatus::Truncated => "...",
    }
}

/// What follows a file's path: a binary note, or its line counts when it has any.
pub open spec fn file_suffix_text(file: FileDiff) -> Seq<char> {
    if file.binary {
        " binary"@
    } else if file.additions == 0 && file.deletions == 0 {
        ""@
    } else {
        " +"@ + decimal(file.additions as nat) + " -"@ + decimal(file.deletions as nat)
    }
}

/// One entry of the file list.
#[derive(Debug, PartialEq, Eq)]
pub struct FileItem {
    /// The status letter, right-aligned in three columns, and a space.
    pub marker: String,
    pub path: String,
    pub suffix: String,
    pub look: Look,
}

pub fn file_item(file: &FileDiff) -> (item: FileItem)
    ensures
        item.marker@ == pad_left(file_marker_text(file.status), 3) + " "@,
        item.path@ == display_path_of(*file),
        item.suffix@ == file_suffix_text(*file),
        item.look == file_status_look_of(file.status),
{
    let mut marker = String::new();
    push_pad_left(&mut marker, file_marker(file.status), 3);
    push_str(&mut marker, " ");
    let mut suffix = String::new();
    if file.binary {
        push_str(&mut suffix, " binary");
    } else if file.additions == 0 && file.deletions == 0 {
        proof {
            reveal_strlit("");
        }
        assert(suffix@ =~= ""@);
    } else {
        push_str(&mut suffix, " +");
        push_decimal(&mut suffix, file.additions as u64);
        push_str(&mut suffix, " -");
        push_decimal(&mut suffix, file.deletions as u64);
    }
    FileItem { marker, path: file.display_path(), suffix, look: file_status_look(file.status) }
}

/// The mark in front of a diff line.
pub open spec fn line_prefix_text(kind: DiffLineKind) -> Seq<char> {
    match kind {
        DiffLineKind::Addition => "+"@,
        DiffLineKind::Deletion => "-"@,
        DiffLineKind::Context => " "@,
        DiffLineKind::HunkHeader => "@"@,
        DiffLineKind::FileHeader => "="@,
        DiffLineKind::Binary => "!"@,
        DiffLineKind::Truncated => "..."@,
    }
}

fn line_prefix(kind: DiffLineKind) -> (s: &'static str)
    ensures
        s@ == line_prefix_text(kind),
{
    match kind {
        DiffLineKind::Addition => "+",
        DiffLineKind::Deletion => "-",
        DiffLineKind::Context => " ",
        DiffLineKind::HunkHeader => "@",
        DiffLineKind::FileHeader => "=",
        DiffLineKind::Binary => "!",
        DiffLineKind::Truncated => "...",
    }
}

/// A line number, or nothing.
pub open spec fn lineno_text(n: Option<u32>) -> Seq<char> {
    match n {
        Some(v) => decimal(v as nat),
        None => ""@,
    }
}

/// The gutter of a diff line: its mark, then its old and new line numbers,
/// each right-aligned.
pub open spec fn gutter_text(line: DiffLine) -> Seq<char> {
    pad_left(line_prefix_text(line.kind), 3) + " "@ + pad_left(lineno_text(line.old_lineno), 4) + " "@
        + pad_left(lineno_text(line.new_lineno), 4) + " "@
}

fn lineno_string(n: Option<u32>) -> (s: String)
    ensures
        s@ == lineno_text(n),
{
    let mut s = String::new();
    match n {
        Some(v) => {
            push_decimal(&mut s, v as u64);
        },
        None => {
            proof {
                reveal_strlit("");
            }
            assert(s@ =~= ""@);
        },
    }
    s
}

pub fn diff_gutter(line: &DiffLine) -> (g: String)
    ensures
        g@ == gutter_text(*line),
{
    let mut g = String::new();
    push_pad_left(&mut g, line_prefix(line.kind), 3);
    push_str(&mut g, " ");
    let old = lineno_string(line.old_lineno);
    push_pad_left(&mut g, old.as_str(), 4);
    push_str(&mut g, " ");
    let new = lineno_string(line.new_lineno);
    push_pad_left(&mut g, new.as_str(), 4);
    push_str(&mut g, " ");
    g
}

/// One row of the diff pane.
#[derive(Debug, PartialEq, Eq)]
pub enum DiffRow {
    /// The diff has lines, but none is revealed yet.
    Revealing,
    /// The diff has no line to show.
    NoTextualDiff,
    /// A line of the diff, with its gutter.
    Line { kind: DiffLineKind, gutter: String, content: String },
}

/// All lines of the files, in order.
pub open spec fn flat_lines(files: Seq<FileDiff>) -> Seq<DiffLine>
    decreases files.len(),
{
    if files.len() == 0 {
        Seq::empty()
    } else {
        flat_lines(files.drop_last()) + files.last().lines@
    }
}

/// `row` shows `line`.
pub open spec fn row_shows(row: DiffRow, line: DiffLine) -> bool {
    row matches DiffRow::Line { kind, gutter, content } && kind == line.kind && gutter@ == gutter_text(line)
        && content@ == line.content@
}

/// The rows of the diff pane when `visible` lines are revealed: the first
/// revealed lines in order; a note while nothing is revealed, or when there
/// is nothing to show.
pub open spec fn diff_rows_shown(diff: StructuredDiff, visible: usize, rows: Seq<DiffRow>) -> bool {
    let lines = flat_lines(diff.files@);
    let n = if visible < lines.len() { visible as int } else { lines.len() as int };
    if lines.len() > 0 && visible == 0 {
        rows == seq![DiffRow::Revealing]
    } else if n == 0 {
        rows == seq![DiffRow::NoTextualDiff]
    } else {
        &&& rows.len() == n
        &&& forall|i: int| 0 <= i < n ==> row_shows(#[trigger] rows[i], lines[i])
    }
}

fn row_of(line: &DiffLine) -> (r: DiffRow)
    ensures
        row_shows(r, *line),
{
    DiffRow::Line { kind: line.kind, gutter: diff_gutter(line), content: line.content.clone() }
}

proof fn lemma_flat_lines_step(files: Seq<FileDiff>, i: int)
    requires
        0 <= i < files.len(),
    ensures
        flat_lines(files.take(i + 1)) == flat_lines(files.take(i)) + files[i].lines@,
{
    assert(files.take(i + 1).drop_last() =~= files.take(i));
}

/// The rows of the diff pane with `visible_limit` lines revealed.
pub fn diff_rows(diff: &StructuredDiff, visible_limit: usize) -> (rows: Vec<DiffRow>)
    ensures
        diff_rows_shown(*diff, visible_limit, rows@),
{
    let ghost lines = flat_lines(diff.files@);
    let mut rows: Vec<DiffRow> = Vec::new();
    let mut i: usize = 0;
    let mut any = false;
    while i < diff.files.len()
        invariant
            i <= diff.files.len(),
            lines == flat_lines(diff.files@),
            any == (flat_lines(diff.files@.take(i as int)).len() > 0),
            rows@.len() <= visible_limit,
            rows@.len() <= flat_lines(diff.files@.take(i as int)).len(),
            rows@.len() < flat_lines(diff.files@.take(i as int)).len() ==> rows@.len() == visible_limit,
            forall|k: int| 0 <= k < rows@.len() ==> row_shows(#[trigger] rows@[k], flat_lines(diff.files@.take(i as int))[k]),
        decreases diff.files.len() - i,
    {
        proof {
            lemma_flat_lines_step(diff.files@, i as int);
        }
        let ghost before = flat_lines(diff.files@.take(i as int));
        let file = &diff.files[i];
        if file.lines.len() > 0 {
            any = true;
        }
        let mut j: usize = 0;
        while j < file.lines.len() && rows.len() < visible_limit
            invariant
                j <= file.lines.len(),
                *file == diff.files@[i as int],
                flat_lines(diff.files@.take(i + 1)) == before + file.lines@,
                rows@.len() <= visible_limit,
                rows@.len() <= before.len() + j,
                rows@.len() < before.len() + j ==> rows@.len() == visible_limit,
                rows@.len() < before.len() ==> rows@.len() == visible_limit,
                forall|k: int| 0 <= k < rows@.len() ==> row_shows(#[trigger] rows@[k], (before + file.lines@)[k]),
            decreases file.lines.len() - j,
        {
            let ghost k = rows@.len() as int;
            assert(k == before.len() + j);
            let row = row_of(&file.lines[j]);
            rows.push(row);
            assert((before + file.lines@)[k] == file.lines@[j as int]);
            j = j + 1;
        }
        proof {
            let after = flat_lines(diff.files@.take(i + 1));
            assert forall|k: int| 0 <= k < rows@.len() implies row_shows(#[trigger] rows@[k], after[k]) by {}
        }
        i = i + 1;
    }
    assert(diff.files@.take(i as int) =~= diff.files@);
    if any && visible_limit == 0 {
        let mut only: Vec<DiffRow> = Vec::new();
        only.push(DiffRow::Revealing);
        assert(only@ =~= seq![DiffRow::Revealing]);
        return only;
    }
    if rows.len() == 0 {
        rows.push(DiffRow::NoTextualDiff);
        assert(rows@ =~= seq![DiffRow::NoTextualDiff]);
    }
    rows
}

/// The title of the diff pane.
pub open spec fn diff_title_text(visible: usize, total: usize) -> Seq<char> {
    "Diff "@ + decimal(visible as nat) + "/"@ + decimal(total as nat)
}

pub fn diff_title(visible: usize, total: usize) -> (r: String)
    ensures
        r@ == diff_title_text(visible, total),
{
    let mut r = String::new();
    push_str(&mut r, "Diff ");
    push_decimal(&mut r, visible as u64);
    push_str(&mut r, "/");
    push_decimal(&mut r, total as u64);
    r
}

/// Terminal widths from which the pet panel is shown beside the diff.
pub const PET_PANEL_MIN_WIDTH: u16 = 78;

pub fn shows_pet_panel(width: u16) -> (r: bool)
    ensures
        r == (width >= PET_PANEL_MIN_WIDTH),
{
    width >= PET_PANEL_MIN_WIDTH
}

/// The two rows of a scope in the pet panel: its label and mood, then how
/// long ago its last commit was recorded.
#[derive(Debug, PartialEq, Eq)]
pub struct ScopeRows {
    /// The label right-aligned in six columns, and a space.
    pub label: String,
    pub mood: Mood,
    pub age: String,
}

/// What a scope's rows say.
pub open spec fn scope_rows_show(
    rows: ScopeRows,
    label: Seq<char>,
    mood: Option<Mood>,
    activity: Option<ActivityRecord>,
    now: i64,
) -> bool {
    &&& rows.label@ == pad_left(label, 6) + " "@
    &&& rows.mood == (match mood {
        Some(m) => m,
        None => Mood::Neutral,
    })
    &&& rows.age@ == (match activity {
        Some(a) => age_text(seconds_ago(now, a.recorded_at_seconds)),
        None => "no commits"@,
    })
}

pub fn scope_rows(label: &str, mood: Option<Mood>, activity: &Option<ActivityRecord>, now_seconds: i64) -> (r: ScopeRows)
    ensures
        scope_rows_show(r, label@, mood, *activity, now_seconds),
{
    let mut padded = String::new();
    push_pad_left(&mut padded, label, 6);
    push_str(&mut padded, " ");
    let mood = match mood {
        Some(m) => m,
        None => Mood::Neutral,
    };
    let age = match activity {
        Some(a) => activity_age(a, now_seconds),
        None => String::from_str("no commits"),
    };
    ScopeRows { label: padded, mood, age }
}

/// The scopes of the pet panel, in order: the repository's, then the global one.
pub fn pet_panel_rows(status: &PetStatus, now_seconds: i64) -> (rows: Vec<ScopeRows>)
    ensures
        rows@.len() == (if status.scope is Both { 2int } else { 1 }),
        status.scope.includes_repo_spec() ==> scope_rows_show(rows@[0], "repo"@, status.repo_mood, status.repo_last_activity, now_seconds),
        status.scope.includes_global_spec() ==> scope_rows_show(rows@[rows@.len() - 1], "global"@, status.global_mood, status.global_last_activity, now_seconds),
{
    let mut rows: Vec<ScopeRows> = Vec::new();
    if status.scope.includes_repo() {
        rows.push(scope_rows("repo", status.repo_mood, &status.repo_last_activity, now_seconds));
    }
    if status.scope.includes_global() {
        rows.push(scope_rows("global", status.global_mood, &status.global_last_activity, now_seconds));
    }
    rows
}

/// The title of the pet panel.
pub fn pet_panel_title(scope: PetScope) -> (r: String)
    ensures
        r@ == "Pet "@ + scope.name(),
{
    let mut r = String::new();
    push_str(&mut r, "Pet ");
    push_str(&mut r, scope.as_str());
    r
}

} // verus!
