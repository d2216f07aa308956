use commitchi::pet::{
    global_state_path, repo_state_path, ActivityRecord, DataDirEnv, Error, Mood, MoodConfig,
    PetScope, PetState, PetStateFiles, Platform, Reaction, ReactionStats, StateFile,
    MAX_ACTIVITY_RECORDS, STATE_VERSION,
};

fn record_at(hours_ago: i64, now: i64) -> ActivityRecord {
    ActivityRecord::new(
        "repo".to_string(),
        format!("hash-{hours_ago}"),
        now - hours_ago * 3_600,
        now - hours_ago * 3_600,
    )
}

fn record(hash: &str, time: i64) -> ActivityRecord {
    ActivityRecord::new("repo".to_string(), hash.to_string(), time, time)
}

#[test]
fn mood_decays_across_thresholds() {
    let now = 10_000_000;
    let config = MoodConfig::default();
    let mut state = PetState::new();

    state.record_commit(record_at(12, now));
    assert_eq!(state.mood_at(now, config), Mood::Thriving);

    state.record_commit(record_at(36, now));
    assert_eq!(state.mood_at(now, config), Mood::Thriving);

    let mut stale = PetState::new();
    stale.record_commit(record_at(72, now));
    assert_eq!(stale.mood_at(now, config), Mood::Neutral);

    let mut old = PetState::new();
    old.record_commit(record_at(200, now));
    assert_eq!(old.mood_at(now, config), Mood::Sulking);
}

#[test]
fn recent_consistency_softens_decay() {
    let now = 10_000_000;
    let config = MoodConfig::default();
    let mut state = PetState::new();

    state.record_commit(record_at(72, now));
    state.record_commit(record_at(80, now));
    state.record_commit(record_at(88, now));

    assert_eq!(state.mood_at(now, config), Mood::Content);
}

#[test]
fn repo_state_lives_under_git_metadata() {
    assert_eq!(
        repo_state_path("/repo/.git", Platform::Unix),
        "/repo/.git/commitchi/state.json"
    );
}

#[test]
fn repo_state_path_adds_no_second_separator() {
    assert_eq!(
        repo_state_path("/repo/.git/", Platform::Unix),
        "/repo/.git/commitchi/state.json"
    );
}

#[test]
fn repo_state_path_joins_with_backslashes_on_windows() {
    assert_eq!(
        repo_state_path("C:\\repo\\.git", Platform::Windows),
        "C:\\repo\\.git\\commitchi\\state.json"
    );
    assert_eq!(
        repo_state_path("C:/repo/.git/", Platform::Windows),
        "C:/repo/.git/commitchi\\state.json"
    );
    assert_eq!(
        repo_state_path("/repo/.git", Platform::MacOs),
        "/repo/.git/commitchi/state.json"
    );
}

#[test]
fn empty_state_is_neutral() {
    let state = PetState::new();
    assert_eq!(state.mood_at(1_000, MoodConfig::default()), Mood::Neutral);
    assert!(state.last_activity().is_none());
    assert_eq!(state.version(), STATE_VERSION);
}

#[test]
fn mood_thresholds_of_the_default_config() {
    let config = MoodConfig::default();
    assert_eq!(config.mood_for_hours_since_commit(0), Mood::Thriving);
    assert_eq!(config.mood_for_hours_since_commit(24), Mood::Thriving);
    assert_eq!(config.mood_for_hours_since_commit(25), Mood::Content);
    assert_eq!(config.mood_for_hours_since_commit(72), Mood::Neutral);
    assert_eq!(config.mood_for_hours_since_commit(120), Mood::Anxious);
    assert_eq!(config.mood_for_hours_since_commit(169), Mood::Sulking);
}

#[test]
fn mood_decays_with_time_for_one_record() {
    // Law: later moments never give a better mood.
    let config = MoodConfig::default();
    let mut state = PetState::new();
    state.record_commit(record("a", 0));
    let mut last_rank = 0;
    for hours in [0i64, 10, 30, 60, 100, 150, 200, 1000] {
        let mood = state.mood_at(hours * 3_600, config);
        let rank = match mood {
            Mood::Thriving => 0,
            Mood::Content => 1,
            Mood::Neutral => 2,
            Mood::Anxious => 3,
            Mood::Sulking => 4,
        };
        assert!(rank >= last_rank);
        last_rank = rank;
    }
}

#[test]
fn recording_a_commit_twice_keeps_one_record() {
    let mut state = PetState::new();
    state.record_commit(record("abc", 10));
    state.record_commit(record("abc", 20));
    assert_eq!(state.records().len(), 1);
    assert_eq!(state.records()[0].recorded_at_seconds, 20);
}

#[test]
fn records_are_kept_in_time_order() {
    let mut state = PetState::new();
    state.record_commit(record("b", 20));
    state.record_commit(record("a", 10));
    state.record_commit(record("c", 30));
    let times: Vec<i64> = state.records().iter().map(|r| r.recorded_at_seconds).collect();
    assert_eq!(times, vec![10, 20, 30]);
    assert_eq!(state.last_activity().expect("latest").commit_hash, "c");
}

#[test]
fn last_activity_is_the_latest_record() {
    let mut state = PetState::new();
    state.record_commit(record("first", 100));
    assert_eq!(state.last_activity().expect("latest").commit_hash, "first");
    state.record_commit(record("second", 200));
    assert_eq!(state.last_activity().expect("latest").commit_hash, "second");
}

#[test]
fn log_keeps_only_the_latest_records() {
    let mut state = PetState::new();
    for i in 0..(MAX_ACTIVITY_RECORDS as i64 + 5) {
        state.record_commit(record(&format!("h{i}"), i));
    }
    assert_eq!(state.records().len(), MAX_ACTIVITY_RECORDS);
    assert_eq!(state.records()[0].recorded_at_seconds, 5);
}

#[test]
fn scope_names_round_trip() {
    for scope in [PetScope::Repo, PetScope::Global, PetScope::Both] {
        assert_eq!(PetScope::parse(scope.as_str()), Ok(scope));
    }
    assert_eq!("both".parse::<PetScope>(), Ok(PetScope::Both));
}

#[test]
fn unknown_scope_is_rejected() {
    let err = PetScope::parse("everywhere").expect_err("unknown scope");
    assert!(err.message().contains("everywhere"));
}

#[test]
fn scope_inclusion() {
    assert!(PetScope::Repo.includes_repo());
    assert!(!PetScope::Repo.includes_global());
    assert!(PetScope::Global.includes_global());
    assert!(!PetScope::Global.includes_repo());
    assert!(PetScope::Both.includes_repo() && PetScope::Both.includes_global());
    assert_eq!(PetScope::default(), PetScope::Repo);
}

fn env(platform: Platform) -> DataDirEnv {
    DataDirEnv {
        commitchi_data_dir: None,
        xdg_data_home: None,
        appdata: None,
        home: Some("/home/me".to_string()),
        platform,
    }
}

#[test]
fn global_state_path_prefers_the_explicit_data_dir() {
    let mut e = env(Platform::Unix);
    e.commitchi_data_dir = Some("/data".to_string());
    e.xdg_data_home = Some("/xdg".to_string());
    assert_eq!(global_state_path(&e), Ok("/data/state.json".to_string()));
}

#[test]
fn global_state_path_uses_xdg_data_home() {
    let mut e = env(Platform::Unix);
    e.xdg_data_home = Some("/xdg".to_string());
    assert_eq!(global_state_path(&e), Ok("/xdg/commitchi/state.json".to_string()));
}

#[test]
fn global_state_path_per_platform() {
    assert_eq!(
        global_state_path(&env(Platform::Unix)),
        Ok("/home/me/.local/share/commitchi/state.json".to_string())
    );
    assert_eq!(
        global_state_path(&env(Platform::MacOs)),
        Ok("/home/me/Library/Application Support/commitchi/state.json".to_string())
    );
    let mut windows = env(Platform::Windows);
    windows.appdata = Some("C:\\Users\\me\\AppData\\Roaming".to_string());
    assert_eq!(
        global_state_path(&windows),
        Ok("C:\\Users\\me\\AppData\\Roaming\\commitchi\\state.json".to_string())
    );
}

#[test]
fn windows_paths_join_with_backslashes() {
    let mut e = env(Platform::Windows);
    e.commitchi_data_dir = Some("D:/data/".to_string());
    assert_eq!(global_state_path(&e), Ok("D:/data/state.json".to_string()));
    e.commitchi_data_dir = Some("D:\\data\\".to_string());
    assert_eq!(global_state_path(&e), Ok("D:\\data\\state.json".to_string()));
    e.commitchi_data_dir = Some("D:".to_string());
    assert_eq!(global_state_path(&e), Ok("D:state.json".to_string()));
    e.commitchi_data_dir = None;
    e.xdg_data_home = Some("D:\\xdg".to_string());
    assert_eq!(global_state_path(&e), Ok("D:\\xdg\\commitchi\\state.json".to_string()));
    let files = PetStateFiles::for_git_dir("C:\\r\\.git", PetScope::Repo, &e).expect("files");
    assert_eq!(
        files.repo().expect("repo").path(),
        "C:\\r\\.git\\commitchi\\state.json"
    );
}

#[test]
fn a_backslash_is_no_separator_on_unix() {
    let mut e = env(Platform::Unix);
    e.commitchi_data_dir = Some("dir\\".to_string());
    assert_eq!(global_state_path(&e), Ok("dir\\/state.json".to_string()));
}

#[test]
fn global_state_path_without_any_directory_is_an_error() {
    let mut e = env(Platform::Unix);
    e.home = None;
    assert_eq!(global_state_path(&e), Err(Error::MissingDataDirectory));
}

#[test]
fn files_for_scope_follow_the_scope() {
    let e = env(Platform::Unix);
    let files = PetStateFiles::for_git_dir("/r/.git", PetScope::Repo, &e).expect("files");
    assert_eq!(files.repo().expect("repo").path(), "/r/.git/commitchi/state.json");
    assert!(files.global().is_none());
    let both = PetStateFiles::for_git_dir("/r/.git", PetScope::Both, &e).expect("files");
    assert_eq!(
        both.watch_paths(),
        vec![
            "/r/.git/commitchi/state.json".to_string(),
            "/home/me/.local/share/commitchi/state.json".to_string()
        ]
    );
    let mut no_home = e.clone();
    no_home.home = None;
    assert_eq!(
        PetStateFiles::for_git_dir("/r/.git", PetScope::Global, &no_home),
        Err(Error::MissingDataDirectory)
    );
}

#[test]
fn scope_recording_writes_selected_targets() {
    let files = PetStateFiles::from_paths(Some("repo.json".to_string()), Some("global.json".to_string()));
    let record = ActivityRecord::new("repo".to_string(), "abc123".to_string(), 1, 2);
    let plan = files.record_plan(PetScope::Both);
    assert_eq!(plan.targets.len(), 2);
    assert_eq!(plan.targets[0].path(), "repo.json");
    assert_eq!(plan.targets[1].path(), "global.json");
    assert!(plan.error.is_none());
    // Each target starts out missing and ends with the one record.
    for target in &plan.targets {
        let missing = Err(Error::Io {
            path: target.path().to_string(),
            not_found: true,
            message: "not found".to_string(),
        });
        let state = StateFile::record_commit(missing, record.clone()).expect("recorded");
        assert_eq!(state.records().len(), 1);
    }
}

#[test]
fn record_plan_stops_at_a_missing_target() {
    let repo_only = PetStateFiles::from_paths(Some("repo.json".to_string()), None);
    let plan = repo_only.record_plan(PetScope::Both);
    assert_eq!(plan.targets.len(), 1);
    assert_eq!(plan.error, Some(Error::MissingStateTarget("global")));

    let global_only = PetStateFiles::from_paths(None, Some("global.json".to_string()));
    let plan = global_only.record_plan(PetScope::Repo);
    assert!(plan.targets.is_empty());
    assert_eq!(plan.error, Some(Error::MissingStateTarget("repo")));
}

#[test]
fn missing_state_file_loads_as_fresh_state() {
    let missing = Err(Error::Io {
        path: "state.json".to_string(),
        not_found: true,
        message: "gone".to_string(),
    });
    let state = StateFile::load_or_default(missing).expect("fresh");
    assert_eq!(state, PetState::new());

    let broken = Err(Error::Json { path: "state.json".to_string(), message: "bad".to_string() });
    assert!(StateFile::load_or_default(broken).is_err());
}

#[test]
fn recording_into_a_loaded_state() {
    let mut before = PetState::new();
    before.record_commit(record("a", 1));
    let after = StateFile::record_commit(Ok(before), record("b", 2)).expect("recorded");
    assert_eq!(after.records().len(), 2);

    let denied = Err(Error::Io {
        path: "state.json".to_string(),
        not_found: false,
        message: "denied".to_string(),
    });
    assert!(StateFile::record_commit(denied, record("b", 2)).is_err());
}

#[test]
fn state_file_keeps_its_path() {
    let file = StateFile::new("/tmp/state.json".to_string());
    assert_eq!(file.path(), "/tmp/state.json");
    let from_parts = PetState::from_parts(7, vec![record("x", 3)]);
    assert_eq!(from_parts.version(), 7);
    assert_eq!(from_parts.records().len(), 1);
}

fn stats() -> ReactionStats {
    ReactionStats {
        files_changed: 1,
        additions: 1,
        deletions: 0,
        binary_files: 0,
        renamed_files: 0,
        truncated: false,
        tiny_commit_streak: 0,
    }
}

#[test]
fn reactions_follow_the_diff_numbers() {
    assert_eq!(Reaction::from_stats(stats()), Reaction::Calm);
    assert_eq!(
        Reaction::from_stats(ReactionStats { truncated: true, ..stats() }),
        Reaction::Confused
    );
    assert_eq!(
        Reaction::from_stats(ReactionStats { binary_files: 1, ..stats() }),
        Reaction::Confused
    );
    assert_eq!(
        Reaction::from_stats(ReactionStats {
            files_changed: 3,
            renamed_files: 3,
            additions: 0,
            ..stats()
        }),
        Reaction::Curious
    );
    assert_eq!(
        Reaction::from_stats(ReactionStats { additions: 200, ..stats() }),
        Reaction::Excited
    );
    assert_eq!(
        Reaction::from_stats(ReactionStats { additions: 0, deletions: 200, ..stats() }),
        Reaction::Wincing
    );
    assert_eq!(
        Reaction::from_stats(ReactionStats { tiny_commit_streak: 3, ..stats() }),
        Reaction::Nodding
    );
}

#[test]
fn tiny_commits_are_small_text_changes() {
    assert!(stats().is_tiny_commit());
    assert!(ReactionStats { additions: 5, deletions: 5, ..stats() }.is_tiny_commit());
    assert!(!ReactionStats { additions: 6, deletions: 5, ..stats() }.is_tiny_commit());
    assert!(!ReactionStats { files_changed: 3, ..stats() }.is_tiny_commit());
    assert!(!ReactionStats { binary_files: 1, ..stats() }.is_tiny_commit());
}

#[test]
fn mood_names() {
    assert_eq!(Mood::Anxious.as_str(), "anxious");
    assert_eq!(Mood::Thriving.as_str(), "thriving");
}
