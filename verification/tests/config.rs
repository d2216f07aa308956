use commitchi::config::{
    config_path, parse_positive_usize, repo_config_path, validate_mood_config, validate_positive_usize, ConfigError,
    GitFileConfig, MoodThresholdsFileConfig, PetFileConfig, Settings,
};
use commitchi::diff::DiffOptions;
use commitchi::pet::{MoodConfig, PetScope, Platform};

fn thresholds(
    thriving: Option<i64>,
    content: Option<i64>,
    neutral: Option<i64>,
    anxious: Option<i64>,
) -> MoodThresholdsFileConfig {
    MoodThresholdsFileConfig {
        thriving_hours: thriving,
        content_hours: content,
        neutral_hours: neutral,
        anxious_hours: anxious,
    }
}

#[test]
fn missing_repo_config_uses_defaults() {
    assert_eq!(config_path("/repo", None, false, Platform::Unix), None);
    let settings = Settings::default();
    assert_eq!(settings.diff_options, DiffOptions::default());
    assert_eq!(settings.pet_scope, PetScope::Repo);
    assert_eq!(settings.mood_config, MoodConfig::default());
}

#[test]
fn config_file_is_found_in_the_repository_root() {
    assert_eq!(repo_config_path("/repo", Platform::Unix), "/repo/commitchi.toml");
    assert_eq!(
        config_path("/repo/", None, true, Platform::Unix),
        Some("/repo/commitchi.toml".to_string())
    );
    assert_eq!(
        config_path("/repo", Some("/elsewhere/c.toml"), true, Platform::Unix),
        Some("/elsewhere/c.toml".to_string())
    );
}

#[test]
fn config_file_path_follows_the_platform() {
    assert_eq!(repo_config_path("C:\\repo", Platform::Windows), "C:\\repo\\commitchi.toml");
    assert_eq!(repo_config_path("C:\\repo\\", Platform::Windows), "C:\\repo\\commitchi.toml");
    assert_eq!(repo_config_path("C:", Platform::Windows), "C:commitchi.toml");
    assert_eq!(repo_config_path("repo\\", Platform::Unix), "repo\\/commitchi.toml");
}

#[test]
fn toml_config_overrides_runtime_defaults() {
    let mut settings = Settings::default();
    let path = "commitchi.toml";
    settings
        .apply_pet_file_config(
            Some(PetFileConfig {
                scope: Some(PetScope::Both),
                thresholds: Some(thresholds(Some(6), Some(12), Some(48), Some(96))),
            }),
            path,
        )
        .expect("pet table");
    settings
        .apply_git_file_config(
            Some(GitFileConfig { large_diff_line_limit: Some(500), large_diff_file_limit: Some(20) }),
            path,
        )
        .expect("git table");

    assert_eq!(settings.pet_scope, PetScope::Both);
    assert_eq!(settings.mood_config.thriving_hours, 6);
    assert_eq!(settings.diff_options.line_limit, 500);
    assert_eq!(settings.diff_options.file_limit, 20);
}

#[test]
fn cli_overrides_win_over_file_config() {
    let mut settings = Settings::default();
    settings
        .apply_pet_file_config(Some(PetFileConfig { scope: Some(PetScope::Repo), thresholds: None }), "commitchi.toml")
        .expect("pet table");

    settings
        .apply_overrides(Some(900), None, Some(PetScope::Global))
        .expect("apply overrides");

    assert_eq!(settings.pet_scope, PetScope::Global);
    assert_eq!(settings.diff_options.line_limit, 900);
    assert_eq!(settings.diff_options.file_limit, 100);
}

#[test]
fn invalid_threshold_order_is_rejected() {
    let mut settings = Settings::default();
    let err = settings
        .apply_pet_file_config(
            Some(PetFileConfig {
                scope: None,
                thresholds: Some(thresholds(Some(48), Some(24), None, None)),
            }),
            "commitchi.toml",
        )
        .expect_err("invalid thresholds");

    assert!(err.message().contains("pet.thresholds"));
    assert_eq!(
        err.message(),
        "invalid config value pet.thresholds in commitchi.toml: hours must be ordered thriving <= content <= neutral <= anxious"
    );
    assert_eq!(settings.mood_config, MoodConfig::default());
}

#[test]
fn non_positive_threshold_names_its_field() {
    let config = MoodConfig { thriving_hours: 1, content_hours: 0, neutral_hours: 5, anxious_hours: 6 };
    match validate_mood_config(config, "c.toml") {
        Err(ConfigError::Invalid { field, message, .. }) => {
            assert_eq!(field, "pet.thresholds.content_hours");
            assert_eq!(message, "must be greater than 0");
        }
        other => panic!("unexpected {other:?}"),
    }
    assert!(validate_mood_config(MoodConfig::default(), "c.toml").is_ok());
}

#[test]
fn zero_limits_are_refused() {
    assert!(validate_positive_usize(1, "git.large_diff_line_limit", "c.toml").is_ok());
    assert!(validate_positive_usize(0, "git.large_diff_line_limit", "c.toml").is_err());

    let mut settings = Settings::default();
    let err = settings
        .apply_git_file_config(
            Some(GitFileConfig { large_diff_line_limit: Some(10), large_diff_file_limit: Some(0) }),
            "c.toml",
        )
        .expect_err("zero file limit");
    assert!(matches!(err, ConfigError::Invalid { field: "git.large_diff_file_limit", .. }));
    assert_eq!(settings.diff_options.line_limit, 10);
    assert_eq!(settings.diff_options.file_limit, 100);

    let mut cli = Settings::default();
    let err = cli.apply_overrides(Some(0), Some(5), Some(PetScope::Both)).expect_err("zero line limit");
    assert_eq!(
        err.message(),
        "invalid config value git.large_diff_line_limit in <cli>: must be greater than 0"
    );
    assert_eq!(cli, Settings::default());
}

#[test]
fn partial_thresholds_keep_the_others() {
    let mut settings = Settings::default();
    settings
        .apply_pet_file_config(
            Some(PetFileConfig { scope: None, thresholds: Some(thresholds(None, None, Some(100), None)) }),
            "c.toml",
        )
        .expect("valid");
    assert_eq!(
        settings.mood_config,
        MoodConfig { thriving_hours: 24, content_hours: 48, neutral_hours: 100, anxious_hours: 168 }
    );
}

#[test]
fn config_error_messages() {
    let io = ConfigError::Io { path: "missing.toml".to_string(), message: "not found".to_string() };
    assert_eq!(io.message(), "failed to read config at missing.toml: not found");
    let toml = ConfigError::Toml { path: "c.toml".to_string(), message: "bad".to_string() };
    assert_eq!(toml.message(), "failed to parse config at c.toml: bad");
}

#[test]
fn positive_integer_arguments() {
    assert_eq!(parse_positive_usize("42"), Ok(42));
    assert_eq!(parse_positive_usize("+7"), Ok(7));
    assert_eq!(parse_positive_usize("0"), Err("must be greater than 0".to_string()));
    assert_eq!(
        parse_positive_usize(""),
        Err("must be an integer: cannot parse integer from empty string".to_string())
    );
    assert_eq!(
        parse_positive_usize("-3"),
        Err("must be an integer: invalid digit found in string".to_string())
    );
    assert_eq!(
        parse_positive_usize("+"),
        Err("must be an integer: invalid digit found in string".to_string())
    );
    assert_eq!(
        parse_positive_usize("12a"),
        Err("must be an integer: invalid digit found in string".to_string())
    );
    assert_eq!(
        parse_positive_usize("99999999999999999999999"),
        Err("must be an integer: number too large to fit in target type".to_string())
    );
    // The messages agree with what `str::parse` reports.
    let too_big = "99999999999999999999999".parse::<usize>().unwrap_err();
    assert_eq!(
        parse_positive_usize("99999999999999999999999"),
        Err(format!("must be an integer: {too_big}"))
    );
    let bad = "1x".parse::<usize>().unwrap_err();
    assert_eq!(parse_positive_usize("1x"), Err(format!("must be an integer: {bad}")));
    let empty = "".parse::<usize>().unwrap_err();
    assert_eq!(parse_positive_usize(""), Err(format!("must be an integer: {empty}")));
}
