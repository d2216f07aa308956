//! The structured diff model, the rules that build it from a diff walk, and
//! commit paging.

use vstd::prelude::*;

use crate::text::{chars_of, contains, decimal, push_decimal, push_str, str_contains, string_of};

verus! {

/// One commit of the history.
#[derive(Debug, PartialEq, Eq)]
pub struct CommitSummary {
    pub hash: String,
    pub short_hash: String,
    pub summary: String,
    pub author_name: String,
    pub author_email: String,
    pub time_seconds: i64,
    pub parent_count: usize,
}

impl Clone for CommitSummary {
    fn clone(&self) -> (r: Self)
        ensures
            r == *self,
    {
        CommitSummary {
            hash: self.hash.clone(),
            short_hash: self.short_hash.clone(),
            summary: self.summary.clone(),
            author_name: self.author_name.clone(),
            author_email: self.author_email.clone(),
            time_seconds: self.time_seconds,
            parent_count: self.parent_count,
        }
    }
}

/// Characters of a short commit hash.
pub const SHORT_HASH_LEN: usize = 8;

/// The first characters of a hash, as many as a short hash holds.
pub open spec fn short_hash_of(hash: Seq<char>) -> Seq<char> {
    if hash.len() <= SHORT_HASH_LEN {
        hash
    } else {
        hash.take(SHORT_HASH_LEN as int)
    }
}

/// `text`, or `fallback` when there is none.
pub open spec fn text_or(text: Option<String>, fallback: Seq<char>) -> Seq<char> {
    match text {
        Some(t) => t@,
        None => fallback,
    }
}

fn owned_or(text: Option<String>, fallback: &str) -> (r: String)
    ensures
        r@ == text_or(text, fallback@),
{
    match text {
        Some(t) => t,
        None => String::from_str(fallback),
    }
}

impl CommitSummary {
    /// A summary from a commit's fields as the repository gives them; a
    /// missing summary, author name or e-mail takes its placeholder.
    pub fn from_parts(
        hash: String,
        summary: Option<String>,
        author_name: Option<String>,
        author_email: Option<String>,
        time_seconds: i64,
        parent_count: usize,
    ) -> (c: Self)
        ensures
            c.hash == hash,
            c.short_hash@ == short_hash_of(hash@),
            c.summary@ == text_or(summary, "(no summary)"@),
            c.author_name@ == text_or(author_name, "unknown"@),
            c.author_email@ == text_or(author_email, ""@),
            c.time_seconds == time_seconds,
            c.parent_count == parent_count,
    {
        let chars = chars_of(hash.as_str());
        let mut short: Vec<char> = Vec::new();
        let mut i: usize = 0;
        while i < chars.len() && i < SHORT_HASH_LEN
            invariant
                i <= chars.len(),
                i <= SHORT_HASH_LEN,
                short@ == chars@.take(i as int),
            decreases chars.len() - i,
        {
            short.push(chars[i]);
            i = i + 1;
            assert(short@ =~= chars@.take(i as int));
        }
        assert(short@ =~= short_hash_of(hash@));
        CommitSummary {
            short_hash: string_of(&short),
            hash,
            summary: owned_or(summary, "(no summary)"),
            author_name: owned_or(author_name, "unknown"),
            author_email: owned_or(author_email, ""),
            time_seconds,
            parent_count,
        }
    }
}

/// A window of the history.
#[derive(Debug, PartialEq, Eq)]
pub struct CommitPage {
    pub commits: Vec<CommitSummary>,
    pub offset: usize,
    pub has_more: bool,
}

/// Collects a page while the history is walked from the page's offset on.
pub struct PageCollector {
    offset: usize,
    limit: usize,
    commits: Vec<CommitSummary>,
    has_more: bool,
}

impl PageCollector {
    pub closed spec fn spec_offset(self) -> usize {
        self.offset
    }

    pub closed spec fn spec_limit(self) -> usize {
        self.limit
    }

    pub closed spec fn spec_commits(self) -> Seq<CommitSummary> {
        self.commits@
    }

    pub closed spec fn spec_has_more(self) -> bool {
        self.has_more
    }

    /// An empty page; a page of no commits always says that more follow.
    pub fn new(offset: usize, limit: usize) -> (c: Self)
        ensures
            c.spec_offset() == offset,
            c.spec_limit() == limit,
            c.spec_commits() == Seq::<CommitSummary>::empty(),
            c.spec_has_more() == (limit == 0),
    {
        PageCollector { offset, limit, commits: Vec::new(), has_more: limit == 0 }
    }

    /// Whether the walk must go on.
    pub fn wants_more(&self) -> (r: bool)
        ensures
            r == !self.spec_has_more(),
    {
        !self.has_more
    }

    /// Takes the next commit of the walk: a full page records that more follow.
    pub fn accept(&mut self, commit: CommitSummary)
        requires
            !old(self).spec_has_more(),
            old(self).spec_commits().len() <= old(self).spec_limit(),
        ensures
            final(self).spec_offset() == old(self).spec_offset(),
            final(self).spec_limit() == old(self).spec_limit(),
            final(self).spec_commits().len() <= final(self).spec_limit(),
            old(self).spec_commits().len() == old(self).spec_limit() ==> final(self).spec_has_more()
                && final(self).spec_commits() == old(self).spec_commits(),
            old(self).spec_commits().len() < old(self).spec_limit() ==> !final(self).spec_has_more()
                && final(self).spec_commits() == old(self).spec_commits().push(commit),
    {
        if self.commits.len() == self.limit {
            self.has_more = true;
        } else {
            self.commits.push(commit);
        }
    }

    pub fn finish(self) -> (page: CommitPage)
        ensures
            page.commits@ == self.spec_commits(),
            page.offset == self.spec_offset(),
            page.has_more == self.spec_has_more(),
    {
        CommitPage { commits: self.commits, offset: self.offset, has_more: self.has_more }
    }
}

/// The page of `history` (oldest first) that starts at `offset` and holds at
/// most `limit` commits; it says whether more follow.
pub fn commit_page_of(history: &Vec<CommitSummary>, offset: usize, limit: usize) -> (page: CommitPage)
    ensures
        page.offset == offset,
        page.commits@ == (if offset >= history.len() {
            Seq::<CommitSummary>::empty()
        } else {
            history@.skip(offset as int).take(
                if history.len() - offset < limit { history.len() - offset } else { limit as int },
            )
        }),
        page.has_more == (limit == 0 || history.len() > offset + limit),
{
    let mut collector = PageCollector::new(offset, limit);
    if limit == 0 || offset >= history.len() {
        let page = collector.finish();
        assert(page.commits@ =~= (if offset >= history.len() {
            Seq::<CommitSummary>::empty()
        } else {
            history@.skip(offset as int).take(0)
        }));
        return page;
    }
    let mut i = offset;
    while i < history.len() && collector.wants_more()
        invariant
            offset <= i <= history.len(),
            limit > 0,
            collector.spec_offset() == offset,
            collector.spec_limit() == limit,
            collector.spec_commits().len() <= limit,
            !collector.spec_has_more() ==> collector.spec_commits() == history@.subrange(offset as int, i as int),
            collector.spec_has_more() ==> collector.spec_commits() == history@.subrange(offset as int, offset + limit)
                && i > offset + limit,
        decreases history.len() - i,
    {
        collector.accept(history[i].clone());
        proof {
            if !collector.spec_has_more() {
                assert(collector.spec_commits() =~= history@.subrange(offset as int, i + 1));
            }
        }
        i = i + 1;
    }
    let page = collector.finish();
    proof {
        if page.has_more {
        } else {
            assert(i - offset <= limit);
        }
        let want = history@.skip(offset as int).take(
            if history.len() - offset < limit { history.len() - offset } else { limit as int },
        );
        assert(page.commits@ =~= want);
    }
    page
}

/// The class of a repository error, as far as reading history cares.
#[derive(Debug, Clone, Copy, PartialEq, Eq, Structural)]
pub enum GitErrorCode {
    UnbornBranch,
    NotFound,
    Other,
}

/// An error that means the repository has no commits yet.
pub open spec fn means_empty_head(code: GitErrorCode, message: Seq<char>) -> bool {
    code is UnbornBranch || code is NotFound || contains(message, "not found"@) || contains(
        message,
        "unborn"@,
    )
}

pub fn is_empty_head(code: GitErrorCode, message: &str) -> (r: bool)
    ensures
        r == means_empty_head(code, message@),
{
    match code {
        GitErrorCode::UnbornBranch | GitErrorCode::NotFound => true,
        GitErrorCode::Other => str_contains(message, "not found") || str_contains(message, "unborn"),
    }
}

/// How a file changed in a commit, as the diff walk reports it.
#[derive(Debug, Clone, Copy, PartialEq, Eq, Structural)]
pub enum DeltaStatus {
    Unmodified,
    Added,
    Deleted,
    Modified,
    Renamed,
    Copied,
    Ignored,
    Untracked,
    Typechange,
    Unreadable,
    Conflicted,
}

#[derive(Debug, Clone, Copy, PartialEq, Eq, Structural)]
pub enum FileStatus {
    Added,
    Deleted,
    Modified,
    Renamed,
    Copied,
    TypeChanged,
    Conflicted,
    Truncated,
}

/// The status a file gets for a delta; kinds without their own status count as modified.
pub open spec fn status_of(delta: DeltaStatus) -> FileStatus {
    match delta {
        DeltaStatus::Added => FileStatus::Added,
        DeltaStatus::Deleted => FileStatus::Deleted,
        DeltaStatus::Renamed => FileStatus::Renamed,
        DeltaStatus::Copied => FileStatus::Copied,
        DeltaStatus::Typechange => FileStatus::TypeChanged,
        DeltaStatus::Conflicted => FileStatus::Conflicted,
        _ => FileStatus::Modified,
    }
}

pub fn status_from_delta(delta: DeltaStatus) -> (s: FileStatus)
    ensures
        s == status_of(delta),
{
    match delta {
        DeltaStatus::Added => FileStatus::Added,
        DeltaStatus::Deleted => FileStatus::Deleted,
        DeltaStatus::Renamed => FileStatus::Renamed,
        DeltaStatus::Copied => FileStatus::Copied,
        DeltaStatus::Typechange => FileStatus::TypeChanged,
        DeltaStatus::Conflicted => FileStatus::Conflicted,
        _ => FileStatus::Modified,
    }
}

#[derive(Debug, Clone, Copy, PartialEq, Eq, Structural)]
pub enum DiffLineKind {
    Context,
    Addition,
    Deletion,
    HunkHeader,
    FileHeader,
    Binary,
    Truncated,
}

/// The kind of a content line from its origin marker.
pub open spec fn kind_of_origin(origin: char) -> DiffLineKind {
    if origin == '+' {
        DiffLineKind::Addition
    } else if origin == '-' {
        DiffLineKind::Deletion
    } else {
        DiffLineKind::Context
    }
}

pub fn line_kind(origin: char) -> (k: DiffLineKind)
    ensures
        k == kind_of_origin(origin),
{
    if origin == '+' {
        DiffLineKind::Addition
    } else if origin == '-' {
        DiffLineKind::Deletion
    } else {
        DiffLineKind::Context
    }
}

/// `s` without the line breaks (`\n`, `\r`) at its end.
pub open spec fn trimmed_line_end(s: Seq<char>) -> Seq<char>
    decreases s.len(),
{
    if s.len() > 0 && (s.last() == '\n' || s.last() == '\r') {
        trimmed_line_end(s.drop_last())
    } else {
        s
    }
}

pub fn trim_line_end(value: String) -> (r: String)
    ensures
        r@ == trimmed_line_end(value@),
{
    let mut chars = chars_of(value.as_str());
    while chars.len() > 0 && (chars[chars.len() - 1] == '\n' || chars[chars.len() - 1] == '\r')
        invariant
            trimmed_line_end(chars@) == trimmed_line_end(value@),
        decreases chars.len(),
    {
        let ghost before = chars@;
        chars.pop();
        assert(chars@ =~= before.drop_last());
    }
    string_of(&chars)
}

#[derive(Debug, PartialEq, Eq)]
pub struct DiffLine {
    pub kind: DiffLineKind,
    pub old_lineno: Option<u32>,
    pub new_lineno: Option<u32>,
    pub content: String,
}

impl Clone for DiffLine {
    fn clone(&self) -> (r: Self)
        ensures
            r == *self,
    {
        DiffLine {
            kind: self.kind,
            old_lineno: self.old_lineno,
            new_lineno: self.new_lineno,
            content: self.content.clone(),
        }
    }
}

/// How many lines a commit's diff may load, how many files, and how many
/// lines of context surround a change.
#[derive(Debug, Clone, Copy, PartialEq, Eq, Structural)]
pub struct DiffOptions {
    pub line_limit: usize,
    pub file_limit: usize,
    pub context_lines: u32,
}

impl Default for DiffOptions {
    fn default() -> (r: Self)
        ensures
            r == (DiffOptions { line_limit: 2000, file_limit: 100, context_lines: 3 }),
    {
        DiffOptions { line_limit: 2_000, file_limit: 100, context_lines: 3 }
    }
}

#[derive(Debug, PartialEq, Eq)]
pub struct FileDiff {
    pub old_path: Option<String>,
    pub new_path: Option<String>,
    pub status: FileStatus,
    pub additions: usize,
    pub deletions: usize,
    pub binary: bool,
    pub truncated: bool,
    pub lines: Vec<DiffLine>,
}

/// The path a file is shown under: its new path, else its old one.
pub open spec fn display_path_of(file: FileDiff) -> Seq<char> {
    match file.new_path {
        Some(p) => p@,
        None => match file.old_path {
            Some(p) => p@,
            None => "(unknown path)"@,
        },
    }
}

impl FileDiff {
    pub fn display_path(&self) -> (p: String)
        ensures
            p@ == display_path_of(*self),
    {
        match &self.new_path {
            Some(p) => p.clone(),
            None => match &self.old_path {
                Some(p) => p.clone(),
                None => String::from_str("(unknown path)"),
            },
        }
    }
}

#[derive(Debug, Clone, Copy, PartialEq, Eq, Structural)]
pub struct DiffStats {
    pub files_changed: usize,
    pub additions: usize,
    pub deletions: usize,
}

/// A commit's diff against its first parent.
#[derive(Debug, PartialEq, Eq)]
pub struct StructuredDiff {
    pub commit_hash: String,
    pub files: Vec<FileDiff>,
    pub stats: DiffStats,
    pub truncated: bool,
}

/// Text of the line that marks a file whose diff stopped at the line limit.
pub open spec fn line_limit_marker_text() -> Seq<char> {
    "diff truncated at configured line limit"@
}

/// Text of the line that marks a file list cut at the file limit.
pub open spec fn file_limit_marker_text(file_limit: usize, files_changed: usize) -> Seq<char> {
    "file list truncated after "@ + decimal(file_limit as nat) + " files; "@ + decimal(
        files_changed as nat,
    ) + " files changed"@
}

/// The header line that opens a file's diff.
pub open spec fn file_header_text(old_path: Option<String>, new_path: Option<String>) -> Seq<char> {
    let old = text_or(old_path, "/dev/null"@);
    let new = text_or(new_path, "/dev/null"@);
    if old == new {
        "diff -- "@ + new
    } else {
        "diff -- "@ + old + " -> "@ + new
    }
}

/// Total lines of a diff's files.
pub open spec fn lines_of(files: Seq<FileDiff>) -> nat
    decreases files.len(),
{
    if files.len() == 0 {
        0
    } else {
        lines_of(files.drop_last()) + files.last().lines@.len()
    }
}

proof fn lemma_lines_of_push(files: Seq<FileDiff>, f: FileDiff)
    ensures
        lines_of(files.push(f)) == lines_of(files) + f.lines@.len(),
{
    assert(files.push(f).drop_last() =~= files);
}

proof fn lemma_lines_of_last_replaced(before: Seq<FileDiff>, after: Seq<FileDiff>)
    requires
        same_but_last(before, after),
    ensures
        lines_of(after) + before.last().lines@.len() == lines_of(before) + after.last().lines@.len(),
{
    assert(after.drop_last() =~= before.drop_last());
}

/// The lines of the given kind.
pub open spec fn count_kind(lines: Seq<DiffLine>, kind: DiffLineKind) -> nat
    decreases lines.len(),
{
    if lines.len() == 0 {
        0
    } else {
        count_kind(lines.drop_last(), kind) + if lines.last().kind == kind { 1nat } else { 0nat }
    }
}

/// A collected file: its additions and deletions are its addition and
/// deletion lines, and it is a real file, not the marker of a cut list.
pub open spec fn tallied(f: FileDiff) -> bool {
    &&& f.additions == count_kind(f.lines@, DiffLineKind::Addition)
    &&& f.deletions == count_kind(f.lines@, DiffLineKind::Deletion)
    &&& !(f.status is Truncated)
}

/// No two files are cut at the line limit.
pub open spec fn at_most_one_cut(files: Seq<FileDiff>) -> bool {
    forall|i: int, j: int|
        0 <= i < files.len() && 0 <= j < files.len() && #[trigger] files[i].truncated
            && #[trigger] files[j].truncated ==> i == j
}

proof fn lemma_count_kind_push(lines: Seq<DiffLine>, line: DiffLine, kind: DiffLineKind)
    ensures
        count_kind(lines.push(line), kind) == count_kind(lines, kind) + if line.kind == kind { 1nat } else { 0nat },
{
    assert(lines.push(line).drop_last() =~= lines);
}

/// `after` is `before` with one more counted line: additions and deletions
/// follow the line's kind.
pub open spec fn counted(before: FileDiff, after: FileDiff, line: DiffLine) -> bool {
    &&& after.old_path == before.old_path
    &&& after.new_path == before.new_path
    &&& after.status == before.status
    &&& after.binary == before.binary
    &&& after.truncated == before.truncated
    &&& after.lines@ == before.lines@.push(line)
    &&& after.additions == before.additions + if line.kind is Addition { 1int } else { 0 }
    &&& after.deletions == before.deletions + if line.kind is Deletion { 1int } else { 0 }
}

/// `after` is `before` marked as cut at the line limit: flagged truncated,
/// with a closing marker line unless it already ends with one.
pub open spec fn cut(before: FileDiff, after: FileDiff) -> bool {
    &&& after.old_path == before.old_path
    &&& after.new_path == before.new_path
    &&& after.status == before.status
    &&& after.binary == before.binary
    &&& after.additions == before.additions
    &&& after.deletions == before.deletions
    &&& after.truncated
    &&& if before.lines@.len() > 0 && before.lines@.last().kind is Truncated {
        after.lines@ == before.lines@
    } else {
        after.lines@.len() == before.lines@.len() + 1
        && after.lines@.drop_last() == before.lines@
        && after.lines@.last().kind is Truncated
        && after.lines@.last().old_lineno is None
        && after.lines@.last().new_lineno is None
        && after.lines@.last().content@ == line_limit_marker_text()
    }
}

/// The same files, except that the last one is replaced.
pub open spec fn same_but_last(before: Seq<FileDiff>, after: Seq<FileDiff>) -> bool {
    &&& before.len() > 0
    &&& after.len() == before.len()
    &&& forall|i: int| 0 <= i < before.len() - 1 ==> after[i] == before[i]
}

/// Builds a commit's structured diff from the walk of its changes: files,
/// binary notes, hunks and lines arrive in order. Counted lines stop at the
/// line limit, files stop at the file limit, and cut files are marked.
pub struct DiffCollector {
    options: DiffOptions,
    files: Vec<FileDiff>,
    line_count: usize,
    accepting_file: bool,
    line_limit_hit: bool,
}

impl DiffCollector {
    pub closed spec fn spec_options(self) -> DiffOptions {
        self.options
    }

    pub closed spec fn spec_files(self) -> Seq<FileDiff> {
        self.files@
    }

    /// Lines counted against the line limit so far.
    pub closed spec fn spec_line_count(self) -> nat {
        self.line_count as nat
    }

    /// Whether the file being walked was taken (it was within the file limit).
    pub closed spec fn spec_accepting_file(self) -> bool {
        self.accepting_file
    }

    pub closed spec fn spec_line_limit_hit(self) -> bool {
        self.line_limit_hit
    }

    /// The collector's invariant: the line count never passes the line limit,
    /// the file count never passes the file limit, and no file counts more
    /// additions or deletions than lines were counted.
    pub closed spec fn wf(self) -> bool {
        &&& self.line_count <= self.options.line_limit
        &&& self.files@.len() <= self.options.file_limit
        &&& lines_of(self.files@) <= self.line_count + if self.line_limit_hit { 1int } else { 0 }
        &&& forall|i: int|
            0 <= i < self.files@.len() ==> #[trigger] self.files@[i].additions <= self.line_count
                && self.files@[i].deletions <= self.line_count
        &&& forall|i: int| 0 <= i < self.files@.len() ==> #[trigger] tallied(self.files@[i])
        &&& forall|i: int| 0 <= i < self.files@.len() && #[trigger] self.files@[i].truncated ==> self.line_limit_hit
        &&& at_most_one_cut(self.files@)
    }

    /// The counted lines never exceed the line limit, the files never exceed
    /// the file limit, and the files never hold more than the counted lines
    /// and one marker of the cut. Every file's additions and deletions are its
    /// addition and deletion lines, no collected file has the marker status,
    /// and at most one file is cut.
    pub proof fn lemma_within_limits(self)
        requires
            self.wf(),
        ensures
            self.spec_line_count() <= self.spec_options().line_limit,
            self.spec_files().len() <= self.spec_options().file_limit,
            lines_of(self.spec_files()) <= self.spec_line_count() + 1,
            forall|i: int| 0 <= i < self.spec_files().len() ==> #[trigger] tallied(self.spec_files()[i]),
            at_most_one_cut(self.spec_files()),
    {
    }

    pub fn new(options: DiffOptions) -> (c: Self)
        ensures
            c.wf(),
            c.spec_options() == options,
            c.spec_files() == Seq::<FileDiff>::empty(),
            c.spec_line_count() == 0,
            c.spec_accepting_file(),
            !c.spec_line_limit_hit(),
    {
        DiffCollector {
            options,
            files: Vec::new(),
            line_count: 0,
            accepting_file: true,
            line_limit_hit: false,
        }
    }

    /// What pushing a line does: at the line limit the current file is cut
    /// and the limit recorded; otherwise the line is counted into the current
    /// file, if there is one.
    pub open spec fn pushed(self, after: Self, line: DiffLine) -> bool {
        &&& after.spec_options() == self.spec_options()
        &&& after.spec_accepting_file() == self.spec_accepting_file()
        &&& if self.spec_line_count() >= self.spec_options().line_limit {
            &&& after.spec_line_limit_hit()
            &&& after.spec_line_count() == self.spec_line_count()
            &&& if self.spec_files().len() == 0 {
                after.spec_files() == self.spec_files()
            } else {
                same_but_last(self.spec_files(), after.spec_files()) && cut(
                    self.spec_files().last(),
                    after.spec_files().last(),
                )
            }
        } else {
            &&& after.spec_line_limit_hit() == self.spec_line_limit_hit()
            &&& if self.spec_files().len() == 0 {
                after.spec_files() == self.spec_files() && after.spec_line_count()
                    == self.spec_line_count()
            } else {
                &&& same_but_last(self.spec_files(), after.spec_files())
                &&& counted(self.spec_files().last(), after.spec_files().last(), line)
                &&& after.spec_line_count() == self.spec_line_count() + 1
            }
        }
    }

    /// Cuts the current file at the line limit and records that the limit was hit.
    fn mark_current_file_truncated(&mut self)
        requires
            old(self).wf(),
            !old(self).spec_line_limit_hit(),
        ensures
            final(self).wf(),
            final(self).spec_line_limit_hit(),
            final(self).spec_options() == old(self).spec_options(),
            final(self).spec_line_count() == old(self).spec_line_count(),
            final(self).spec_accepting_file() == old(self).spec_accepting_file(),
            old(self).spec_files().len() == 0 ==> final(self).spec_files() == old(self).spec_files(),
            old(self).spec_files().len() > 0 ==> same_but_last(old(self).spec_files(), final(self).spec_files())
                && cut(old(self).spec_files().last(), final(self).spec_files().last()),
    {
        self.line_limit_hit = true;
        let n = self.files.len();
        if n == 0 {
            return;
        }
        let ghost old_files = self.files@;
        let mut file = self.files.pop().unwrap();
        let ghost before = file;
        file.truncated = true;
        let ends_marked = file.lines.len() > 0 && match file.lines[file.lines.len() - 1].kind {
            DiffLineKind::Truncated => true,
            _ => false,
        };
        if !ends_marked {
            let marker = DiffLine {
                kind: DiffLineKind::Truncated,
                old_lineno: None,
                new_lineno: None,
                content: String::from_str("diff truncated at configured line limit"),
            };
            proof {
                lemma_count_kind_push(file.lines@, marker, DiffLineKind::Addition);
                lemma_count_kind_push(file.lines@, marker, DiffLineKind::Deletion);
            }
            file.lines.push(marker);
            assert(file.lines@.drop_last() =~= before.lines@);
        }
        assert(tallied(old_files[n - 1]));
        self.files.push(file);
        assert(self.files@[self.files@.len() - 1] == file);
        proof {
            lemma_lines_of_last_replaced(old_files, self.files@);
            let f = self.files@;
            assert forall|i: int| 0 <= i < f.len() implies #[trigger] tallied(f[i]) by {
                if i < n - 1 {
                    assert(f[i] == old_files[i]);
                }
            }
            assert forall|i: int| 0 <= i < f.len() && #[trigger] f[i].truncated implies i == n - 1 by {
                if i < n - 1 {
                    assert(f[i] == old_files[i]);
                    assert(old_files[i].truncated);
                }
            }
            assert forall|i: int| 0 <= i < f.len() implies #[trigger] f[i].additions <= self.line_count
                && f[i].deletions <= self.line_count by {
                if i < n - 1 {
                    assert(f[i] == old_files[i]);
                }
            }
        }
    }

    fn push_line(&mut self, line: DiffLine)
        requires
            old(self).wf(),
            !old(self).spec_line_limit_hit(),
        ensures
            final(self).wf(),
            old(self).pushed(*final(self), line),
    {
        if self.line_count >= self.options.line_limit {
            self.mark_current_file_truncated();
            return;
        }
        let n = self.files.len();
        if n == 0 {
            return;
        }
        let ghost old_files = self.files@;
        let mut file = self.files.pop().unwrap();
        let ghost before = file;
        let ghost rest = self.files@;
        match line.kind {
            DiffLineKind::Addition => {
                file.additions = file.additions + 1;
            },
            DiffLineKind::Deletion => {
                file.deletions = file.deletions + 1;
            },
            _ => {},
        }
        proof {
            lemma_count_kind_push(file.lines@, line, DiffLineKind::Addition);
            lemma_count_kind_push(file.lines@, line, DiffLineKind::Deletion);
            assert(tallied(old_files[n - 1]));
        }
        file.lines.push(line);
        self.files.push(file);
        self.line_count = self.line_count + 1;
        assert forall|i: int| 0 <= i < self.files@.len() implies #[trigger] self.files@[i].additions
            <= self.line_count && self.files@[i].deletions <= self.line_count by {
            if i < self.files@.len() - 1 {
                assert(self.files@[i] == rest[i]);
            }
        }
        proof {
            lemma_lines_of_last_replaced(old_files, self.files@);
            let f = self.files@;
            assert forall|i: int| 0 <= i < f.len() implies #[trigger] tallied(f[i]) by {
                if i < n - 1 {
                    assert(f[i] == old_files[i]);
                }
            }
            assert forall|i: int| 0 <= i < f.len() implies !#[trigger] f[i].truncated by {
                if i < n - 1 {
                    assert(f[i] == old_files[i]);
                } else {
                    assert(!old_files[n - 1].truncated);
                }
            }
        }
    }

    /// A new file: within the file limit it is taken and opened with its
    /// header line (unless the line limit was already hit); past the limit it
    /// and everything reported for it is left out.
    pub fn on_file(&mut self, old_path: Option<String>, new_path: Option<String>, delta: DeltaStatus)
        requires
            old(self).wf(),
        ensures
            final(self).wf(),
            final(self).spec_options() == old(self).spec_options(),
            old(self).spec_files().len() >= old(self).spec_options().file_limit ==> {
                &&& !final(self).spec_accepting_file()
                &&& final(self).spec_files() == old(self).spec_files()
                &&& final(self).spec_line_count() == old(self).spec_line_count()
                &&& final(self).spec_line_limit_hit() == old(self).spec_line_limit_hit()
            },
            old(self).spec_files().len() < old(self).spec_options().file_limit ==> {
                &&& final(self).spec_accepting_file()
                &&& final(self).spec_files().len() == old(self).spec_files().len() + 1
                &&& forall|i: int| 0 <= i < old(self).spec_files().len() ==> #[trigger] final(self).spec_files()[i] == old(self).spec_files()[i]
                &&& {
                    let f = final(self).spec_files().last();
                    &&& f.old_path == old_path
                    &&& f.new_path == new_path
                    &&& f.status == status_of(delta)
                    &&& !f.binary
                    &&& f.deletions == 0
                    &&& if old(self).spec_line_limit_hit() {
                        &&& f.lines@.len() == 0 && f.additions == 0 && !f.truncated
                        &&& final(self).spec_line_count() == old(self).spec_line_count()
                        &&& final(self).spec_line_limit_hit()
                    } else if old(self).spec_line_count() >= old(self).spec_options().line_limit {
                        &&& f.truncated && f.additions == 0
                        &&& f.lines@.len() == 1 && f.lines@[0].kind is Truncated
                        &&& f.lines@[0].content@ == line_limit_marker_text()
                        &&& final(self).spec_line_count() == old(self).spec_line_count()
                        &&& final(self).spec_line_limit_hit()
                    } else {
                        &&& !f.truncated && f.additions == 0
                        &&& f.lines@.len() == 1 && f.lines@[0].kind is FileHeader
                        &&& f.lines@[0].old_lineno is None && f.lines@[0].new_lineno is None
                        &&& f.lines@[0].content@ == file_header_text(old_path, new_path)
                        &&& final(self).spec_line_count() == old(self).spec_line_count() + 1
                        &&& !final(self).spec_line_limit_hit()
                    }
                }
            },
    {
        if self.files.len() >= self.options.file_limit {
            self.accepting_file = false;
            return;
        }
        self.accepting_file = true;
        let header = file_header(&old_path, &new_path);
        let status = status_from_delta(delta);
        let ghost old_files = self.files@;
        self.files.push(
            FileDiff {
                old_path,
                new_path,
                status,
                additions: 0,
                deletions: 0,
                binary: false,
                truncated: false,
                lines: Vec::new(),
            },
        );
        assert forall|i: int| 0 <= i < self.files@.len() implies #[trigger] self.files@[i].additions
            <= self.line_count && self.files@[i].deletions <= self.line_count by {
            if i < self.files@.len() - 1 {
                assert(self.files@[i] == old_files[i]);
            }
        }
        proof {
            assert(self.files@ == old_files.push(self.files@.last()));
            lemma_lines_of_push(old_files, self.files@.last());
        }
        if !self.line_limit_hit {
            let line = DiffLine {
                kind: DiffLineKind::FileHeader,
                old_lineno: None,
                new_lineno: None,
                content: header,
            };
            let ghost mid = self.files@;
            self.push_line(line);
            assert forall|i: int| 0 <= i < old_files.len() implies #[trigger] self.files@[i] == old_files[i] by {
                assert(mid[i] == old_files[i]);
            }
        }
    }

    /// A note that the current file is binary.
    pub fn on_binary(&mut self)
        requires
            old(self).wf(),
        ensures
            final(self).wf(),
            final(self).spec_options() == old(self).spec_options(),
            final(self).spec_accepting_file() == old(self).spec_accepting_file(),
            !old(self).spec_accepting_file() ==> *final(self) == *old(self),
            old(self).spec_accepting_file() && old(self).spec_files().len() == 0 ==>
                final(self).spec_files() == old(self).spec_files()
                && final(self).spec_line_count() == old(self).spec_line_count(),
            old(self).spec_accepting_file() && old(self).spec_files().len() > 0 ==> {
                &&& same_but_last(old(self).spec_files(), final(self).spec_files())
                &&& final(self).spec_files().last().binary
                &&& old(self).spec_line_limit_hit() ==> {
                    &&& final(self).spec_files().last().lines == old(self).spec_files().last().lines
                    &&& final(self).spec_files().last().truncated == old(self).spec_files().last().truncated
                    &&& final(self).spec_line_count() == old(self).spec_line_count()
                    &&& final(self).spec_line_limit_hit()
                }
                &&& !old(self).spec_line_limit_hit() && old(self).spec_line_count()
                    < old(self).spec_options().line_limit ==> {
                    let f = final(self).spec_files().last();
                    &&& f.lines@.len() == old(self).spec_files().last().lines@.len() + 1
                    &&& f.lines@.last().kind is Binary
                    &&& f.lines@.last().content@ == "binary file changed"@
                    &&& final(self).spec_line_count() == old(self).spec_line_count() + 1
                }
                &&& !old(self).spec_line_limit_hit() && old(self).spec_line_count()
                    >= old(self).spec_options().line_limit ==> {
                    &&& final(self).spec_files().last().truncated
                    &&& final(self).spec_line_limit_hit()
                }
            },
    {
        if !self.accepting_file {
            return;
        }
        let n = self.files.len();
        if n > 0 {
            let ghost all_files = self.files@;
            let mut file = self.files.pop().unwrap();
            let ghost old_files = self.files@;
            file.binary = true;
            self.files.push(file);
            assert forall|i: int| 0 <= i < self.files@.len() implies #[trigger] self.files@[i].additions
                <= self.line_count && self.files@[i].deletions <= self.line_count by {
                if i < self.files@.len() - 1 {
                    assert(self.files@[i] == old_files[i]);
                }
            }
            proof {
                lemma_lines_of_last_replaced(all_files, self.files@);
                let f = self.files@;
                assert(tallied(all_files[n - 1]));
                assert forall|i: int| 0 <= i < f.len() implies #[trigger] tallied(f[i]) by {
                    if i < n - 1 {
                        assert(f[i] == all_files[i]);
                    }
                }
                assert forall|i: int| 0 <= i < f.len() && #[trigger] f[i].truncated implies self.line_limit_hit by {
                    if i < n - 1 {
                        assert(f[i] == all_files[i]);
                    } else {
                        assert(all_files[n - 1].truncated);
                    }
                }
                assert forall|i: int, j: int| 0 <= i < f.len() && 0 <= j < f.len() && #[trigger] f[i].truncated
                    && #[trigger] f[j].truncated implies i == j by {
                    let a = if i < n - 1 { i } else { n - 1 };
                    let b = if j < n - 1 { j } else { n - 1 };
                    assert(all_files[a].truncated && all_files[b].truncated);
                    if i < n - 1 {
                        assert(f[i] == all_files[i]);
                    }
                    if j < n - 1 {
                        assert(f[j] == all_files[j]);
                    }
                }
            }
        }
        if !self.line_limit_hit {
            let line = DiffLine {
                kind: DiffLineKind::Binary,
                old_lineno: None,
                new_lineno: None,
                content: String::from_str("binary file changed"),
            };
            let ghost mid = *self;
            self.push_line(line);
            proof {
                if n > 0 {
                    assert forall|i: int| 0 <= i < old(self).spec_files().len() - 1 implies #[trigger] self.spec_files()[i] == old(self).spec_files()[i] by {
                        assert(mid.spec_files()[i] == old(self).spec_files()[i]);
                    }
                }
            }
        }
    }

    /// A hunk of the current file: its header line is pushed, trimmed of line breaks.
    pub fn on_hunk(&mut self, header: String)
        requires
            old(self).wf(),
        ensures
            final(self).wf(),
            !old(self).spec_accepting_file() || old(self).spec_line_limit_hit() ==> *final(self) == *old(self),
            old(self).spec_accepting_file() && !old(self).spec_line_limit_hit() ==> exists|line: DiffLine|
                #![trigger old(self).pushed(*final(self), line)]
                line.kind is HunkHeader && line.old_lineno is None && line.new_lineno is None
                && line.content@ == trimmed_line_end(header@) && old(self).pushed(*final(self), line),
    {
        if !self.accepting_file || self.line_limit_hit {
            return;
        }
        let line = DiffLine {
            kind: DiffLineKind::HunkHeader,
            old_lineno: None,
            new_lineno: None,
            content: trim_line_end(header),
        };
        let ghost l = line;
        self.push_line(line);
        assert(old(self).pushed(*self, l));
    }

    /// A content line of the current file; its kind comes from its origin marker.
    pub fn on_line(&mut self, origin: char, old_lineno: Option<u32>, new_lineno: Option<u32>, content: String)
        requires
            old(self).wf(),
        ensures
            final(self).wf(),
            !old(self).spec_accepting_file() || old(self).spec_line_limit_hit() ==> *final(self) == *old(self),
            old(self).spec_accepting_file() && !old(self).spec_line_limit_hit() ==> exists|line: DiffLine|
                #![trigger old(self).pushed(*final(self), line)]
                line.kind == kind_of_origin(origin) && line.old_lineno == old_lineno
                && line.new_lineno == new_lineno && line.content@ == trimmed_line_end(content@)
                && old(self).pushed(*final(self), line),
    {
        if !self.accepting_file || self.line_limit_hit {
            return;
        }
        let line = DiffLine {
            kind: line_kind(origin),
            old_lineno,
            new_lineno,
            content: trim_line_end(content),
        };
        let ghost l = line;
        self.push_line(line);
        assert(old(self).pushed(*self, l));
    }

    /// The structured diff: the collected files, the commit's full stats, and
    /// whether anything was cut. A file list cut at the file limit ends with
    /// a marker entry. However large the commit, the diff shows at most the
    /// line limit of its lines, plus one marker for each limit that was hit.
    pub fn finish(self, commit_hash: String, files_changed: usize, additions: usize, deletions: usize) -> (d: StructuredDiff)
        requires
            self.wf(),
        ensures
            lines_of(d.files@) <= self.spec_options().line_limit + 2,
            forall|i: int| 0 <= i < self.spec_files().len() ==> #[trigger] tallied(d.files@[i]),
            d.commit_hash == commit_hash,
            d.stats == (DiffStats { files_changed, additions, deletions }),
            d.truncated == (self.spec_files().len() < files_changed || exists|i: int|
                0 <= i < self.spec_files().len() && #[trigger] self.spec_files()[i].truncated),
            self.spec_files().len() >= files_changed ==> d.files@ == self.spec_files(),
            self.spec_files().len() < files_changed ==> {
                &&& d.files@.drop_last() == self.spec_files()
                &&& d.files@.len() == self.spec_files().len() + 1
                &&& {
                    let m = d.files@.last();
                    &&& m.old_path is None && m.new_path is None
                    &&& m.status is Truncated
                    &&& m.additions == 0 && m.deletions == 0
                    &&& !m.binary && m.truncated
                    &&& m.lines@.len() == 1
                    &&& m.lines@[0].kind is Truncated
                    &&& m.lines@[0].old_lineno is None && m.lines@[0].new_lineno is None
                    &&& m.lines@[0].content@ == file_limit_marker_text(self.spec_options().file_limit, files_changed)
                }
            },
    {
        let mut files = self.files;
        let file_limit_hit = files.len() < files_changed;
        let mut line_limit_hit = false;
        let mut i: usize = 0;
        while i < files.len()
            invariant
                i <= files.len(),
                line_limit_hit == exists|j: int| 0 <= j < i && #[trigger] files@[j].truncated,
            decreases files.len() - i,
        {
            if files[i].truncated {
                line_limit_hit = true;
            }
            i = i + 1;
        }
        let truncated = file_limit_hit || line_limit_hit;
        if file_limit_hit {
            let mut content = String::new();
            push_str(&mut content, "file list truncated after ");
            push_decimal(&mut content, self.options.file_limit as u64);
            push_str(&mut content, " files; ");
            push_decimal(&mut content, files_changed as u64);
            push_str(&mut content, " files changed");
            let mut lines: Vec<DiffLine> = Vec::new();
            lines.push(DiffLine { kind: DiffLineKind::Truncated, old_lineno: None, new_lineno: None, content });
            let ghost before = files@;
            files.push(
                FileDiff {
                    old_path: None,
                    new_path: None,
                    status: FileStatus::Truncated,
                    additions: 0,
                    deletions: 0,
                    binary: false,
                    truncated: true,
                    lines,
                },
            );
            assert(files@.drop_last() =~= before);
            proof {
                assert(files@ == before.push(files@.last()));
                lemma_lines_of_push(before, files@.last());
            }
        }
        StructuredDiff {
            commit_hash,
            files,
            stats: DiffStats { files_changed, additions, deletions },
            truncated,
        }
    }
}

fn file_header(old_path: &Option<String>, new_path: &Option<String>) -> (r: String)
    ensures
        r@ == file_header_text(*old_path, *new_path),
{
    let old = match old_path {
        Some(p) => p.clone(),
        None => String::from_str("/dev/null"),
    };
    let new = match new_path {
        Some(p) => p.clone(),
        None => String::from_str("/dev/null"),
    };
    let mut r = String::new();
    push_str(&mut r, "diff -- ");
    if crate::text::str_eq(old.as_str(), new.as_str()) {
        push_str(&mut r, new.as_str());
    } else {
        push_str(&mut r, old.as_str());
        push_str(&mut r, " -> ");
        push_str(&mut r, new.as_str());
    }
    r
}

} // verus!
