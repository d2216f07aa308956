//! Settings from `commitchi.toml` and the command line, and their validation.
//!
//! The reveal and playback speeds are fractional and are kept by the caller;
//! everything else is decided here.

use vstd::prelude::*;

use crate::diff::DiffOptions;
use crate::pet::{join_path, joined_on, MoodConfig, PetScope, Platform};
use crate::text::{chars_of, push_str};

verus! {

/// Errors of loading settings.
#[derive(Debug, PartialEq, Eq)]
pub enum ConfigError {
    /// The file at `path` could not be read.
    Io { path: String, message: String },
    /// The file at `path` is not valid TOML for the settings.
    Toml { path: String, message: String },
    /// `field` in `path` has a value that is not allowed.
    Invalid { path: String, field: &'static str, message: String },
}

impl ConfigError {
    /// The text of the error, as it is shown to the user.
    pub open spec fn message_text(self) -> Seq<char> {
        match self {
            ConfigError::Io { path, message } => "failed to read config at "@ + path@ + ": "@ + message@,
            ConfigError::Toml { path, message } => "failed to parse config at "@ + path@ + ": "@ + message@,
            ConfigError::Invalid { path, field, message } => "invalid config value "@ + field@ + " in "@
                + path@ + ": "@ + message@,
        }
    }

    pub fn message(&self) -> (m: String)
        ensures
            m@ == self.message_text(),
    {
        let mut m = String::new();
        match self {
            ConfigError::Io { path, message } => {
                push_str(&mut m, "failed to read config at ");
                push_str(&mut m, path.as_str());
                push_str(&mut m, ": ");
                push_str(&mut m, message.as_str());
            },
            ConfigError::Toml { path, message } => {
                push_str(&mut m, "failed to parse config at ");
                push_str(&mut m, path.as_str());
                push_str(&mut m, ": ");
                push_str(&mut m, message.as_str());
            },
            ConfigError::Invalid { path, field, message } => {
                push_str(&mut m, "invalid config value ");
                push_str(&mut m, field);
                push_str(&mut m, " in ");
                push_str(&mut m, path.as_str());
                push_str(&mut m, ": ");
                push_str(&mut m, message.as_str());
            },
        }
        m
    }
}

/// Name of the settings file in a repository's root.
pub open spec fn config_file_name() -> Seq<char> {
    "commitchi.toml"@
}

/// The settings file read from the repository root when none is named, its
/// name joined to the root as on `platform`.
pub fn repo_config_path(repo_root: &str, platform: Platform) -> (p: String)
    ensures
        p@ == joined_on(platform, repo_root@, config_file_name()),
{
    join_path(platform, repo_root, "commitchi.toml")
}

/// The settings file to read: the one named on the command line, else the
/// repository's own when it exists, else none.
pub fn config_path(
    repo_root: &str,
    explicit_path: Option<&str>,
    repo_config_is_file: bool,
    platform: Platform,
) -> (p: Option<String>)
    ensures
        match explicit_path {
            Some(e) => p matches Some(path) && path@ == e@,
            None => if repo_config_is_file {
                p matches Some(path) && path@ == joined_on(platform, repo_root@, config_file_name())
            } else {
                p is None
            },
        },
{
    match explicit_path {
        Some(e) => Some(String::from_str(e)),
        None => if repo_config_is_file {
            Some(repo_config_path(repo_root, platform))
        } else {
            None
        },
    }
}

/// An error for `field` of `path`.
fn invalid(path: &str, field: &'static str, message: &str) -> (e: ConfigError)
    ensures
        e matches ConfigError::Invalid { path: p, field: f, message: m } && p@ == path@ && f == field
            && m@ == message@,
{
    ConfigError::Invalid { path: String::from_str(path), field, message: String::from_str(message) }
}

/// `value` must be greater than zero.
pub fn validate_positive_usize(value: usize, field: &'static str, path: &str) -> (r: Result<(), ConfigError>)
    ensures
        value > 0 ==> r is Ok,
        value == 0 ==> refused(r, path@, field, "must be greater than 0"@),
{
    if value > 0 {
        Ok(())
    } else {
        Err(invalid(path, field, "must be greater than 0"))
    }
}

/// The first threshold that is not positive, by its field name.
pub open spec fn first_non_positive(config: MoodConfig) -> Option<&'static str> {
    if config.thriving_hours <= 0 {
        Some("pet.thresholds.thriving_hours")
    } else if config.content_hours <= 0 {
        Some("pet.thresholds.content_hours")
    } else if config.neutral_hours <= 0 {
        Some("pet.thresholds.neutral_hours")
    } else if config.anxious_hours <= 0 {
        Some("pet.thresholds.anxious_hours")
    } else {
        None
    }
}

/// `r` is the refusal of `field` in the file at `path`, with `message`.
pub open spec fn refused(r: Result<(), ConfigError>, path: Seq<char>, field: &'static str, message: Seq<char>) -> bool {
    r matches Err(ConfigError::Invalid { path: p, field: f, message: m }) && p@ == path && f == field && m@ == message
}

/// What is wrong with the thresholds, if anything: the first one that is not
/// positive, else their order.
pub open spec fn mood_problem(config: MoodConfig) -> Option<(&'static str, Seq<char>)> {
    match first_non_positive(config) {
        Some(field) => Some((field, "must be greater than 0"@)),
        None => if config.is_ordered() {
            None
        } else {
            Some(("pet.thresholds", "hours must be ordered thriving <= content <= neutral <= anxious"@))
        },
    }
}

/// Thresholds must be positive and ordered thriving <= content <= neutral <= anxious.
pub fn validate_mood_config(config: MoodConfig, path: &str) -> (r: Result<(), ConfigError>)
    ensures
        match mood_problem(config) {
            None => r is Ok,
            Some((field, message)) => refused(r, path@, field, message),
        },
{
    if config.thriving_hours <= 0 {
        return Err(invalid(path, "pet.thresholds.thriving_hours", "must be greater than 0"));
    }
    if config.content_hours <= 0 {
        return Err(invalid(path, "pet.thresholds.content_hours", "must be greater than 0"));
    }
    if config.neutral_hours <= 0 {
        return Err(invalid(path, "pet.thresholds.neutral_hours", "must be greater than 0"));
    }
    if config.anxious_hours <= 0 {
        return Err(invalid(path, "pet.thresholds.anxious_hours", "must be greater than 0"));
    }
    if config.thriving_hours > config.content_hours || config.content_hours > config.neutral_hours
        || config.neutral_hours > config.anxious_hours {
        return Err(
            invalid(
                path,
                "pet.thresholds",
                "hours must be ordered thriving <= content <= neutral <= anxious",
            ),
        );
    }
    Ok(())
}

/// Mood thresholds as a settings file gives them; missing ones keep their value.
#[derive(Debug, Clone, Copy, PartialEq, Eq, Structural)]
pub struct MoodThresholdsFileConfig {
    pub thriving_hours: Option<i64>,
    pub content_hours: Option<i64>,
    pub neutral_hours: Option<i64>,
    pub anxious_hours: Option<i64>,
}

/// The `[pet]` table of a settings file.
#[derive(Debug, Clone, Copy, PartialEq, Eq, Structural)]
pub struct PetFileConfig {
    pub scope: Option<PetScope>,
    pub thresholds: Option<MoodThresholdsFileConfig>,
}

/// The `[git]` table of a settings file.
#[derive(Debug, Clone, Copy, PartialEq, Eq, Structural)]
pub struct GitFileConfig {
    pub large_diff_line_limit: Option<usize>,
    pub large_diff_file_limit: Option<usize>,
}

/// `value` when given, else `current`.
pub open spec fn or_keep<T>(value: Option<T>, current: T) -> T {
    match value {
        Some(v) => v,
        None => current,
    }
}

/// The thresholds after merging a file's values over `current`.
pub open spec fn merged_thresholds(current: MoodConfig, t: MoodThresholdsFileConfig) -> MoodConfig {
    MoodConfig {
        thriving_hours: or_keep(t.thriving_hours, current.thriving_hours),
        content_hours: or_keep(t.content_hours, current.content_hours),
        neutral_hours: or_keep(t.neutral_hours, current.neutral_hours),
        anxious_hours: or_keep(t.anxious_hours, current.anxious_hours),
    }
}

/// The settings other than the animation speeds.
#[derive(Debug, Clone, Copy, PartialEq, Eq, Structural)]
pub struct Settings {
    pub diff_options: DiffOptions,
    pub pet_scope: PetScope,
    pub mood_config: MoodConfig,
}

impl Default for Settings {
    fn default() -> (s: Self)
        ensures
            s.diff_options == (DiffOptions { line_limit: 2000, file_limit: 100, context_lines: 3 }),
            s.pet_scope == PetScope::Repo,
            s.mood_config == (MoodConfig {
                thriving_hours: 24,
                content_hours: 48,
                neutral_hours: 96,
                anxious_hours: 168,
            }),
    {
        Settings {
            diff_options: DiffOptions::default(),
            pet_scope: PetScope::default(),
            mood_config: MoodConfig::default(),
        }
    }
}

impl Settings {
    /// What applying a `[pet]` table does: its scope is taken, and its
    /// thresholds, merged over the current ones, are taken if they validate;
    /// thresholds that do not are refused and left as they were.
    pub open spec fn pet_table_applied(
        before: Settings,
        after: Settings,
        pet: Option<PetFileConfig>,
        path: Seq<char>,
        r: Result<(), ConfigError>,
    ) -> bool {
        &&& after.diff_options == before.diff_options
        &&& match pet {
            None => r is Ok && after == before,
            Some(p) => {
                &&& after.pet_scope == or_keep(p.scope, before.pet_scope)
                &&& match p.thresholds {
                    None => r is Ok && after.mood_config == before.mood_config,
                    Some(t) => {
                        let m = merged_thresholds(before.mood_config, t);
                        match mood_problem(m) {
                            None => r is Ok && after.mood_config == m,
                            Some((field, message)) => refused(r, path, field, message)
                                && after.mood_config == before.mood_config,
                        }
                    },
                }
            },
        }
    }

    /// Applies a `[pet]` table of the settings file at `path`.
    pub fn apply_pet_file_config(&mut self, pet: Option<PetFileConfig>, path: &str) -> (r: Result<(), ConfigError>)
        ensures
            Settings::pet_table_applied(*old(self), *final(self), pet, path@, r),
    {
        if let Some(pet) = pet {
            if let Some(scope) = pet.scope {
                self.pet_scope = scope;
            }
            if let Some(t) = pet.thresholds {
                let mut m = self.mood_config;
                if let Some(v) = t.thriving_hours {
                    m.thriving_hours = v;
                }
                if let Some(v) = t.content_hours {
                    m.content_hours = v;
                }
                if let Some(v) = t.neutral_hours {
                    m.neutral_hours = v;
                }
                if let Some(v) = t.anxious_hours {
                    m.anxious_hours = v;
                }
                match validate_mood_config(m, path) {
                    Ok(()) => {
                        self.mood_config = m;
                    },
                    Err(e) => {
                        return Err(e);
                    },
                }
            }
        }
        Ok(())
    }

    /// Applies a `[git]` table: each given limit must be positive.
    pub fn apply_git_file_config(&mut self, git: Option<GitFileConfig>, path: &str) -> (r: Result<(), ConfigError>)
        ensures
            final(self).pet_scope == old(self).pet_scope,
            final(self).mood_config == old(self).mood_config,
            final(self).diff_options.context_lines == old(self).diff_options.context_lines,
            match git {
                None => r is Ok && *final(self) == *old(self),
                Some(g) => Settings::limits_applied(*old(self), *final(self), r, g.large_diff_line_limit, g.large_diff_file_limit, path@),
            },
    {
        match git {
            None => Ok(()),
            Some(g) => self.apply_limits(g.large_diff_line_limit, g.large_diff_file_limit, path),
        }
    }

    /// What applying the given limits does: the line limit first, then the
    /// file limit; a zero limit is refused and stops there.
    pub open spec fn limits_applied(
        before: Settings,
        after: Settings,
        r: Result<(), ConfigError>,
        line_limit: Option<usize>,
        file_limit: Option<usize>,
        path: Seq<char>,
    ) -> bool {
        if line_limit == Some(0usize) {
            refused(r, path, "git.large_diff_line_limit", "must be greater than 0"@)
                && after.diff_options == before.diff_options
        } else {
            let line = or_keep(line_limit, before.diff_options.line_limit);
            if file_limit == Some(0usize) {
                refused(r, path, "git.large_diff_file_limit", "must be greater than 0"@)
                    && after.diff_options.line_limit == line && after.diff_options.file_limit
                    == before.diff_options.file_limit
            } else {
                r is Ok && after.diff_options.line_limit == line && after.diff_options.file_limit
                    == or_keep(file_limit, before.diff_options.file_limit)
            }
        }
    }

    fn apply_limits(&mut self, line_limit: Option<usize>, file_limit: Option<usize>, path: &str) -> (r: Result<(), ConfigError>)
        ensures
            final(self).pet_scope == old(self).pet_scope,
            final(self).mood_config == old(self).mood_config,
            final(self).diff_options.context_lines == old(self).diff_options.context_lines,
            Settings::limits_applied(*old(self), *final(self), r, line_limit, file_limit, path@),
    {
        if let Some(v) = line_limit {
            if v == 0 {
                return Err(invalid(path, "git.large_diff_line_limit", "must be greater than 0"));
            }
            self.diff_options.line_limit = v;
        }
        if let Some(v) = file_limit {
            if v == 0 {
                return Err(invalid(path, "git.large_diff_file_limit", "must be greater than 0"));
            }
            self.diff_options.file_limit = v;
        }
        Ok(())
    }

    /// What applying the command line's values does: its limits, then its
    /// scope; a zero limit is refused (as coming from `<cli>`) before the
    /// scope is taken.
    pub open spec fn overrides_applied(
        before: Settings,
        after: Settings,
        r: Result<(), ConfigError>,
        line_limit: Option<usize>,
        file_limit: Option<usize>,
        pet_scope: Option<PetScope>,
    ) -> bool {
        &&& after.mood_config == before.mood_config
        &&& after.diff_options.context_lines == before.diff_options.context_lines
        &&& Settings::limits_applied(before, after, r, line_limit, file_limit, "<cli>"@)
        &&& r is Ok ==> after.pet_scope == or_keep(pet_scope, before.pet_scope)
        &&& r is Err ==> after.pet_scope == before.pet_scope
    }

    /// Applies the command line's limits, then its scope; the command line
    /// wins over the settings file.
    pub fn apply_overrides(
        &mut self,
        large_diff_line_limit: Option<usize>,
        large_diff_file_limit: Option<usize>,
        pet_scope: Option<PetScope>,
    ) -> (r: Result<(), ConfigError>)
        ensures
            Settings::overrides_applied(*old(self), *final(self), r, large_diff_line_limit, large_diff_file_limit, pet_scope),
    {
        match self.apply_limits(large_diff_line_limit, large_diff_file_limit, "<cli>") {
            Ok(()) => {},
            Err(e) => {
                return Err(e);
            },
        }
        if let Some(scope) = pet_scope {
            self.pet_scope = scope;
        }
        Ok(())
    }
}

/// `str::parse::<usize>` on the digits after an optional sign, scanned left
/// to right: the first character that is not a digit, or the first digit that
/// takes the value past `usize::MAX`, stops the scan with its error text.
pub open spec fn usize_scan(b: Seq<char>) -> Result<nat, Seq<char>>
    decreases b.len(),
{
    if b.len() == 0 {
        Ok(0)
    } else {
        match usize_scan(b.drop_last()) {
            Err(e) => Err(e),
            Ok(v) => if !('0' <= b.last() <= '9') {
                Err("invalid digit found in string"@)
            } else if v * 10 + ((b.last() as u32) - ('0' as u32)) > usize::MAX {
                Err("number too large to fit in target type"@)
            } else {
                Ok(v * 10 + ((b.last() as u32) - ('0' as u32)) as nat)
            },
        }
    }
}

/// `str::parse::<usize>`: an optional `+`, then decimal digits, within `usize`.
pub open spec fn usize_from_str(s: Seq<char>) -> Result<nat, Seq<char>> {
    if s.len() == 0 {
        Err("cannot parse integer from empty string"@)
    } else if s.len() == 1 && (s[0] == '+' || s[0] == '-') {
        Err("invalid digit found in string"@)
    } else if s[0] == '+' {
        usize_scan(s.skip(1))
    } else {
        usize_scan(s)
    }
}

/// A command-line value that must be a positive integer.
pub open spec fn positive_usize_arg(s: Seq<char>) -> Result<nat, Seq<char>> {
    match usize_from_str(s) {
        Err(e) => Err("must be an integer: "@ + e),
        Ok(v) => if v > 0 {
            Ok(v)
        } else {
            Err("must be greater than 0"@)
        },
    }
}

/// Reads a command-line value that must be a positive integer.
pub fn parse_positive_usize(value: &str) -> (r: Result<usize, String>)
    ensures
        match positive_usize_arg(value@) {
            Ok(v) => r == Ok::<usize, String>(v as usize),
            Err(m) => r matches Err(e) && e@ == m,
        },
{
    let chars = chars_of(value);
    let n = chars.len();
    let mut message = String::new();
    push_str(&mut message, "must be an integer: ");
    if n == 0 {
        push_str(&mut message, "cannot parse integer from empty string");
        return Err(message);
    }
    if n == 1 && (chars[0] == '+' || chars[0] == '-') {
        push_str(&mut message, "invalid digit found in string");
        return Err(message);
    }
    let start: usize = if chars[0] == '+' { 1 } else { 0 };
    let ghost body = chars@.skip(start as int);
    assert(chars@.skip(0) =~= chars@);
    assert(usize_from_str(value@) == usize_scan(body));
    let mut v: usize = 0;
    let mut i: usize = start;
    while i < n
        invariant
            start <= i <= n,
            n == chars@.len(),
            body == chars@.skip(start as int),
            usize_scan(body.take(i - start)) == Ok::<nat, Seq<char>>(v as nat),
            usize_from_str(value@) == usize_scan(body),
            message@ == "must be an integer: "@,
        decreases n - i,
    {
        assert(body.take(i + 1 - start).drop_last() =~= body.take(i - start));
        assert(body.take(i + 1 - start).last() == chars@[i as int]);
        let c = chars[i];
        if !('0' <= c && c <= '9') {
            push_str(&mut message, "invalid digit found in string");
            proof {
                assert(usize_scan(body.take(i + 1 - start)) == Err::<nat, Seq<char>>("invalid digit found in string"@));
                lemma_scan_stops(body, (i + 1 - start) as int);
            }
            return Err(message);
        }
        let d = (c as u32 - '0' as u32) as usize;
        let next = match v.checked_mul(10) {
            Some(t) => t.checked_add(d),
            None => None,
        };
        match next {
            Some(x) => {
                v = x;
            },
            None => {
                push_str(&mut message, "number too large to fit in target type");
                proof {
                    assert(usize_scan(body.take(i + 1 - start)) == Err::<nat, Seq<char>>("number too large to fit in target type"@));
                    lemma_scan_stops(body, (i + 1 - start) as int);
                }
                return Err(message);
            },
        }
        i = i + 1;
    }
    assert(body.take(n - start) =~= body);
    assert(start == 0 ==> chars@.skip(0) =~= chars@);
    if v == 0 {
        let mut zero = String::new();
        push_str(&mut zero, "must be greater than 0");
        return Err(zero);
    }
    Ok(v)
}

/// Once the scan of a prefix stops with an error, the whole scan stops with it.
proof fn lemma_scan_stops(b: Seq<char>, k: int)
    requires
        0 <= k <= b.len(),
        usize_scan(b.take(k)) is Err,
    ensures
        usize_scan(b) == usize_scan(b.take(k)),
    decreases b.len(),
{
    if k < b.len() {
        assert(b.drop_last().take(k) =~= b.take(k));
        lemma_scan_stops(b.drop_last(), k);
    } else {
        assert(b.take(k) =~= b);
    }
}

/// Values given on the command line win over the settings file: after a
/// successful override every given value is the one in effect, and every
/// value not given is kept.
pub proof fn lemma_overrides_win(
    before: Settings,
    after: Settings,
    r: Result<(), ConfigError>,
    line_limit: Option<usize>,
    file_limit: Option<usize>,
    pet_scope: Option<PetScope>,
)
    requires
        Settings::overrides_applied(before, after, r, line_limit, file_limit, pet_scope),
        r is Ok,
    ensures
        after.diff_options.line_limit == or_keep(line_limit, before.diff_options.line_limit),
        after.diff_options.file_limit == or_keep(file_limit, before.diff_options.file_limit),
        after.pet_scope == or_keep(pet_scope, before.pet_scope),
        after.mood_config == before.mood_config,
        line_limit matches Some(v) ==> v > 0,
        file_limit matches Some(v) ==> v > 0,
{
}

/// Thresholds that a settings file got accepted are positive and ordered,
/// so the mood they give decays step by step.
pub proof fn lemma_accepted_thresholds_ordered(
    before: Settings,
    after: Settings,
    pet: Option<PetFileConfig>,
    path: Seq<char>,
    r: Result<(), ConfigError>,
)
    requires
        before.mood_config.is_ordered(),
        Settings::pet_table_applied(before, after, pet, path, r),
        r is Ok,
    ensures
        after.mood_config.is_ordered(),
{
}

} // verus!
