use commitchi::diff::{
    CommitSummary, DeltaStatus, DiffCollector, DiffLine, DiffLineKind, DiffOptions, FileDiff,
    FileStatus, StructuredDiff,
};
use commitchi::panel::PetStatus;
use commitchi::pet::{ActivityRecord, Mood, PetScope, Reaction};
use commitchi::screen::{
    author_line, diff_gutter, diff_line_look, diff_rows, diff_title, file_item, file_status_look,
    mood_look, pet_panel_rows, pet_panel_title, playback_label, scope_rows, shows_pet_panel,
    stats_line, DiffRow, Look, Tint,
};

fn story_diff() -> StructuredDiff {
    let mut c = DiffCollector::new(DiffOptions::default());
    c.on_file(Some("story.txt".to_string()), Some("story.txt".to_string()), DeltaStatus::Modified);
    c.on_hunk("@@ -1 +1 @@".to_string());
    c.on_line('-', Some(1), None, "one\n".to_string());
    c.on_line('+', None, Some(1), "two\n".to_string());
    c.finish("abc".to_string(), 1, 1, 1)
}

fn empty_diff() -> StructuredDiff {
    DiffCollector::new(DiffOptions::default()).finish("e".to_string(), 0, 0, 0)
}

#[test]
fn header_lines() {
    let commit = CommitSummary::from_parts(
        "abc".to_string(),
        Some("first".to_string()),
        Some("Ada".to_string()),
        Some("ada@example.com".to_string()),
        0,
        1,
    );
    assert_eq!(author_line(&commit, "/repo"), "Ada <ada@example.com> | parents: 1 | repo: /repo");
    assert_eq!(stats_line(2, 3, &story_diff()), "commit 2/3 | 1 files | +1 -1");
    let mut truncated = story_diff();
    truncated.truncated = true;
    assert_eq!(stats_line(1, 1, &truncated), "commit 1/1 | 1 files | +1 -1 truncated");
    assert_eq!(playback_label(true), "playing");
    assert_eq!(playback_label(false), "paused");
}

#[test]
fn file_list_entries() {
    let diff = story_diff();
    let item = file_item(&diff.files[0]);
    assert_eq!(item.marker, "  M ");
    assert_eq!(item.path, "story.txt");
    assert_eq!(item.suffix, " +1 -1");
    assert_eq!(item.look, Look { tint: Tint::Blue, bold: false });

    let binary = FileDiff {
        old_path: None,
        new_path: Some("img.bin".to_string()),
        status: FileStatus::Added,
        additions: 0,
        deletions: 0,
        binary: true,
        truncated: false,
        lines: Vec::new(),
    };
    assert_eq!(file_item(&binary).suffix, " binary");
    let marker = FileDiff { status: FileStatus::Truncated, binary: false, new_path: None, ..binary };
    let item = file_item(&marker);
    assert_eq!(item.marker, "... ");
    assert_eq!(item.suffix, "");
    assert_eq!(item.path, "(unknown path)");
}

#[test]
fn diff_gutters_align_numbers() {
    let line = DiffLine {
        kind: DiffLineKind::Addition,
        old_lineno: None,
        new_lineno: Some(12),
        content: "x".to_string(),
    };
    assert_eq!(diff_gutter(&line), "  +        12 ");
    let trunc = DiffLine {
        kind: DiffLineKind::Truncated,
        old_lineno: Some(12345),
        new_lineno: None,
        content: String::new(),
    };
    assert_eq!(diff_gutter(&trunc), "... 12345      ");
}

#[test]
fn diff_rows_follow_the_reveal() {
    let diff = story_diff();
    assert_eq!(diff_rows(&diff, 0), vec![DiffRow::Revealing]);
    let rows = diff_rows(&diff, 2);
    assert_eq!(rows.len(), 2);
    match &rows[1] {
        DiffRow::Line { kind, content, .. } => {
            assert_eq!(*kind, DiffLineKind::HunkHeader);
            assert_eq!(content, "@@ -1 +1 @@");
        }
        other => panic!("unexpected {other:?}"),
    }
    assert_eq!(diff_rows(&diff, 100).len(), 4);
    assert_eq!(diff_rows(&empty_diff(), 0), vec![DiffRow::NoTextualDiff]);
    assert_eq!(diff_rows(&empty_diff(), 10), vec![DiffRow::NoTextualDiff]);
    assert_eq!(diff_title(2, 4), "Diff 2/4");
}

#[test]
fn looks_of_moods_statuses_and_lines() {
    assert_eq!(mood_look(Mood::Thriving), Look { tint: Tint::LightGreen, bold: true });
    assert_eq!(mood_look(Mood::Sulking), Look { tint: Tint::LightRed, bold: false });
    assert_eq!(file_status_look(FileStatus::Copied), Look { tint: Tint::Cyan, bold: false });
    assert_eq!(diff_line_look(DiffLineKind::FileHeader), Look { tint: Tint::Yellow, bold: true });
    assert_eq!(diff_line_look(DiffLineKind::Context), Look { tint: Tint::Plain, bold: false });
}

#[test]
fn pet_panel_shows_scopes_in_order() {
    let activity = ActivityRecord::new("r".to_string(), "h".to_string(), 0, 1_000);
    let status = PetStatus {
        scope: PetScope::Both,
        reaction: Reaction::Calm,
        repo_mood: Some(Mood::Content),
        global_mood: None,
        repo_last_activity: Some(activity),
        global_last_activity: None,
    };
    let rows = pet_panel_rows(&status, 1_000 + 7_200);
    assert_eq!(rows.len(), 2);
    assert_eq!(rows[0].label, "  repo ");
    assert_eq!(rows[0].mood, Mood::Content);
    assert_eq!(rows[0].age, "2h ago");
    assert_eq!(rows[1].label, "global ");
    assert_eq!(rows[1].mood, Mood::Neutral);
    assert_eq!(rows[1].age, "no commits");
    assert_eq!(pet_panel_title(PetScope::Both), "Pet both");
    assert_eq!(scope_rows("repository", None, &None, 0).label, "repository ");
    assert!(shows_pet_panel(78));
    assert!(!shows_pet_panel(77));
}
