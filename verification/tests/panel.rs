use commitchi::panel::{activity_age, pet_sprite, timeline_line, PetFrameState, PetStatus};
use commitchi::pet::{ActivityRecord, Mood, MoodConfig, PetScope, PetState, Reaction};

#[test]
fn timeline_marks_single_commit() {
    assert!(timeline_line(40, 1, 1).contains("*"));
}

#[test]
fn timeline_marks_current_position() {
    let line = timeline_line(40, 2, 3);
    assert!(line.contains("2/3"));
    assert_eq!(line.matches('*').count(), 1);
}

#[test]
fn timeline_places_commits_across_the_bar() {
    assert_eq!(timeline_line(40, 2, 3), "[|----------*-----------|] 2/3");
    assert_eq!(timeline_line(40, 1, 1), "[*-----------------------] 1/1");
    assert_eq!(timeline_line(40, 0, 0), "[] 0/0");
}

#[test]
fn timeline_width_is_clamped() {
    // Narrow terminals still get the minimum bar, wide ones the maximum.
    let narrow = timeline_line(10, 1, 2);
    assert_eq!(narrow, "[*------|] 1/2");
    let wide = timeline_line(500, 2, 2);
    assert_eq!(wide.chars().count(), 1 + 80 + 2 + 3);
    assert!(wide.starts_with("[|"));
    assert!(wide.contains("*] 2/2"));
}

fn record(hash: &str, time: i64) -> ActivityRecord {
    ActivityRecord::new("repo".to_string(), hash.to_string(), time, time)
}

#[test]
fn pet_status_shows_the_scopes_in_use() {
    let mut repo = PetState::new();
    repo.record_commit(record("r", 1_000_000));
    let global = PetState::new();
    let config = MoodConfig::default();

    let status = PetStatus::at(PetScope::Repo, Reaction::Calm, &repo, &global, 1_000_000, config);
    assert_eq!(status.repo_mood, Some(Mood::Thriving));
    assert_eq!(status.global_mood, None);
    assert_eq!(status.primary_mood(), Mood::Thriving);
    assert_eq!(status.repo_last_activity.expect("activity").commit_hash, "r");
    assert!(status.global_last_activity.is_none());

    let both = PetStatus::at(PetScope::Both, Reaction::Excited, &repo, &global, 1_000_000, config);
    assert_eq!(both.global_mood, Some(Mood::Neutral));
    assert_eq!(both.primary_mood(), Mood::Thriving);
    assert_eq!(both.reaction, Reaction::Excited);

    let global_only = PetStatus::at(PetScope::Global, Reaction::Calm, &repo, &global, 1_000_000, config);
    assert_eq!(global_only.primary_mood(), Mood::Neutral);
}

#[test]
fn activity_age_in_words() {
    let activity = record("a", 1_000_000);
    assert_eq!(activity_age(&activity, 1_000_030), "just now");
    assert_eq!(activity_age(&activity, 1_000_000 + 5 * 60), "5m ago");
    assert_eq!(activity_age(&activity, 1_000_000 + 3 * 3_600), "3h ago");
    assert_eq!(activity_age(&activity, 1_000_000 + 2 * 86_400 + 5), "2d ago");
    assert_eq!(activity_age(&activity, 0), "just now");
}

#[test]
fn small_pet_face_follows_the_mood() {
    let lines = pet_sprite(Mood::Thriving);
    assert_eq!(lines.len(), 4);
    assert_eq!(lines[1], "( ^.^ )");
    assert_eq!(pet_sprite(Mood::Sulking)[1], "( v_v )");
}

#[test]
fn frame_state_cycles_with_time() {
    let start = PetFrameState::at(0);
    assert!(start.blink);
    assert_eq!(start.particle_phase, 0);
    assert_eq!(start.bob, 0);
    let later = PetFrameState::at(1_000);
    assert!(!later.blink);
    assert_eq!(later.particle_phase, 2);
    assert_eq!(later.bob, 1);
    assert!(PetFrameState::at(3_400 + 100).blink);
}
