use commitchi::diff::{
    commit_page_of, is_empty_head, line_kind, status_from_delta, trim_line_end, CommitSummary,
    DeltaStatus, DiffCollector, DiffLineKind, DiffOptions, DiffStats, FileStatus, GitErrorCode,
    PageCollector,
};

fn opts(line_limit: usize, file_limit: usize) -> DiffOptions {
    DiffOptions { line_limit, file_limit, context_lines: 3 }
}

fn summary(hash: &str) -> CommitSummary {
    CommitSummary::from_parts(hash.to_string(), Some(format!("msg {hash}")), None, None, 0, 1)
}

#[test]
fn default_options() {
    let o = DiffOptions::default();
    assert_eq!((o.line_limit, o.file_limit, o.context_lines), (2_000, 100, 3));
}

#[test]
fn diff_for_commit_reports_structured_lines_and_stats() {
    let mut c = DiffCollector::new(DiffOptions::default());
    c.on_file(Some("story.txt".to_string()), Some("story.txt".to_string()), DeltaStatus::Modified);
    c.on_hunk("@@ -1,2 +1,2 @@\n".to_string());
    c.on_line('-', Some(1), None, "one\n".to_string());
    c.on_line('+', None, Some(1), "two\n".to_string());
    c.on_line(' ', Some(2), Some(2), "shared\n".to_string());
    let diff = c.finish("abc".to_string(), 1, 1, 1);

    assert_eq!(diff.stats, DiffStats { files_changed: 1, additions: 1, deletions: 1 });
    assert_eq!(diff.files[0].status, FileStatus::Modified);
    assert!(diff.files[0]
        .lines
        .iter()
        .any(|line| line.kind == DiffLineKind::Addition && line.content == "two"));
    assert!(diff.files[0]
        .lines
        .iter()
        .any(|line| line.kind == DiffLineKind::Deletion && line.content == "one"));
    assert_eq!(diff.files[0].lines[0].kind, DiffLineKind::FileHeader);
    assert_eq!(diff.files[0].lines[0].content, "diff -- story.txt");
    assert_eq!(diff.files[0].lines[1].content, "@@ -1,2 +1,2 @@");
    assert_eq!((diff.files[0].additions, diff.files[0].deletions), (1, 1));
    assert!(!diff.truncated);
}

#[test]
fn deleted_file_uses_deleted_status() {
    let mut c = DiffCollector::new(DiffOptions::default());
    c.on_file(Some("old.txt".to_string()), None, DeltaStatus::Deleted);
    c.on_line('-', Some(1), None, "old\n".to_string());
    let diff = c.finish("d".to_string(), 1, 0, 1);
    assert_eq!(diff.files[0].status, FileStatus::Deleted);
    assert_eq!(diff.stats.deletions, 1);
    assert_eq!(diff.files[0].lines[0].content, "diff -- old.txt -> /dev/null");
    assert_eq!(diff.files[0].display_path(), "old.txt");
}

#[test]
fn renamed_file_uses_renamed_status() {
    let mut c = DiffCollector::new(DiffOptions::default());
    c.on_file(Some("old.txt".to_string()), Some("new.txt".to_string()), DeltaStatus::Renamed);
    let diff = c.finish("r".to_string(), 1, 0, 0);
    assert_eq!(diff.files[0].status, FileStatus::Renamed);
    assert_eq!(diff.files[0].old_path.as_deref(), Some("old.txt"));
    assert_eq!(diff.files[0].new_path.as_deref(), Some("new.txt"));
    assert_eq!(diff.files[0].lines[0].content, "diff -- old.txt -> new.txt");
}

#[test]
fn binary_file_reports_binary_line() {
    let mut c = DiffCollector::new(DiffOptions::default());
    c.on_file(None, Some("image.bin".to_string()), DeltaStatus::Added);
    c.on_binary();
    let diff = c.finish("b".to_string(), 1, 0, 0);
    assert!(diff.files[0].binary);
    assert!(diff.files[0].lines.iter().any(|line| line.kind == DiffLineKind::Binary));
    assert_eq!(diff.files[0].lines[1].content, "binary file changed");
}

#[test]
fn large_diff_truncates_lines() {
    let mut c = DiffCollector::new(opts(2, 100));
    c.on_file(Some("large.txt".to_string()), Some("large.txt".to_string()), DeltaStatus::Modified);
    c.on_hunk("@@ -1 +1,100 @@".to_string());
    for index in 0..100u32 {
        c.on_line('+', None, Some(index + 1), format!("line {index}\n"));
    }
    let diff = c.finish("l".to_string(), 1, 100, 1);
    assert!(diff.truncated);
    assert!(diff
        .files
        .iter()
        .flat_map(|file| &file.lines)
        .any(|line| line.kind == DiffLineKind::Truncated));
    assert!(diff.files[0].truncated);
    assert_eq!(diff.files[0].lines.len(), 3);
    assert_eq!(diff.files[0].lines[2].content, "diff truncated at configured line limit");
}

#[test]
fn large_diff_truncates_file_list() {
    let mut c = DiffCollector::new(opts(2_000, 1));
    for name in ["a.txt", "b.txt", "c.txt"] {
        c.on_file(None, Some(name.to_string()), DeltaStatus::Added);
        c.on_line('+', None, Some(1), format!("{name}\n"));
    }
    let diff = c.finish("m".to_string(), 3, 3, 0);
    assert!(diff.truncated);
    assert!(diff.files.iter().any(|file| file.status == FileStatus::Truncated));
    assert_eq!(diff.files.len(), 2);
    let marker = &diff.files[1];
    assert_eq!(marker.lines[0].content, "file list truncated after 1 files; 3 files changed");
    assert_eq!(marker.display_path(), "(unknown path)");
    assert_eq!(diff.files[0].lines.len(), 2);
}

#[test]
fn lines_outside_a_file_are_ignored_past_the_file_limit() {
    let mut c = DiffCollector::new(opts(10, 0));
    c.on_file(None, Some("a".to_string()), DeltaStatus::Added);
    c.on_line('+', None, Some(1), "x".to_string());
    c.on_binary();
    let diff = c.finish("z".to_string(), 1, 1, 0);
    assert_eq!(diff.files.len(), 1);
    assert_eq!(diff.files[0].status, FileStatus::Truncated);
}

#[test]
fn delta_statuses_map_to_file_statuses() {
    assert_eq!(status_from_delta(DeltaStatus::Added), FileStatus::Added);
    assert_eq!(status_from_delta(DeltaStatus::Typechange), FileStatus::TypeChanged);
    assert_eq!(status_from_delta(DeltaStatus::Untracked), FileStatus::Modified);
    assert_eq!(status_from_delta(DeltaStatus::Conflicted), FileStatus::Conflicted);
}

#[test]
fn line_kinds_and_trimming() {
    assert_eq!(line_kind('+'), DiffLineKind::Addition);
    assert_eq!(line_kind('-'), DiffLineKind::Deletion);
    assert_eq!(line_kind(' '), DiffLineKind::Context);
    assert_eq!(trim_line_end("text\r\n\n".to_string()), "text");
    assert_eq!(trim_line_end("keep  ".to_string()), "keep  ");
}

#[test]
fn commit_summary_fills_placeholders() {
    let c = CommitSummary::from_parts("0123456789abcdef".to_string(), None, None, None, 42, 0);
    assert_eq!(c.short_hash, "01234567");
    assert_eq!(c.summary, "(no summary)");
    assert_eq!(c.author_name, "unknown");
    assert_eq!(c.author_email, "");
    assert_eq!(c.time_seconds, 42);
    let short = CommitSummary::from_parts("abc".to_string(), Some("s".to_string()), None, None, 0, 1);
    assert_eq!(short.short_hash, "abc");
}

#[test]
fn commit_summaries_are_oldest_to_newest() {
    let history = vec![summary("a"), summary("b"), summary("c")];
    let page = commit_page_of(&history, 0, 10);
    let hashes: Vec<&str> = page.commits.iter().map(|c| c.hash.as_str()).collect();
    assert_eq!(hashes, ["a", "b", "c"]);
    assert!(!page.has_more);
}

#[test]
fn pages_window_the_history() {
    let history = vec![summary("a"), summary("b"), summary("c"), summary("d")];
    let page = commit_page_of(&history, 1, 2);
    let hashes: Vec<&str> = page.commits.iter().map(|c| c.hash.as_str()).collect();
    assert_eq!(hashes, ["b", "c"]);
    assert_eq!(page.offset, 1);
    assert!(page.has_more);

    let mut collector = PageCollector::new(3, 5);
    for c in &history[3..] {
        if !collector.wants_more() {
            break;
        }
        collector.accept(c.clone());
    }
    let page = collector.finish();
    assert_eq!(page.commits.len(), 1);
    assert_eq!(page.commits[0].hash, "d");
    assert!(!page.has_more);
}

#[test]
fn empty_repo_returns_no_summaries() {
    let page = commit_page_of(&Vec::new(), 0, 10);
    assert!(page.commits.is_empty());
    assert!(!page.has_more);
    assert!(is_empty_head(GitErrorCode::UnbornBranch, ""));
    assert!(is_empty_head(GitErrorCode::Other, "reference 'refs/heads/main' not found"));
    assert!(!is_empty_head(GitErrorCode::Other, "permission denied"));
}
