use commitchi::bindings::{Command, KeyCode, KeyEvent, KeyModifiers};
use commitchi::diff::{
    CommitSummary, DeltaStatus, DiffCollector, DiffOptions, StructuredDiff,
};
use commitchi::navigator::{Navigator, Outcome, SpeedChange, JUMP_STEP};
use commitchi::pet::Reaction;
use commitchi::playback::{count_diff_lines, reaction_for_diff, resolve_jump};

const HASHES: [&str; 3] = [
    "a1b2c3d4e5f60718293a4b5c6d7e8f9012345678",
    "5f6e7d8c9b0a1f2e3d4c5b6a79880716253a4b5c",
    "9c8b7a6f5e4d3c2b1a0f9e8d7c6b5a4938271605",
];

fn commits() -> Vec<CommitSummary> {
    HASHES
        .iter()
        .map(|hash| {
            CommitSummary::from_parts(hash.to_string(), Some("msg".to_string()), None, None, 0, 1)
        })
        .collect()
}

fn tiny_diff(hash: &str) -> StructuredDiff {
    let mut c = DiffCollector::new(DiffOptions::default());
    c.on_file(Some("story.txt".to_string()), Some("story.txt".to_string()), DeltaStatus::Modified);
    c.on_hunk("@@ -1 +1 @@".to_string());
    c.on_line('-', Some(1), None, "one\n".to_string());
    c.on_line('+', None, Some(1), "two\n".to_string());
    c.finish(hash.to_string(), 1, 1, 1)
}

fn large_diff(hash: &str) -> StructuredDiff {
    let mut c = DiffCollector::new(DiffOptions::default());
    c.on_file(None, Some("big.txt".to_string()), DeltaStatus::Added);
    for i in 0..300u32 {
        c.on_line('+', None, Some(i + 1), format!("line {i}\n"));
    }
    c.finish(hash.to_string(), 1, 300, 0)
}

fn key(code: KeyCode) -> KeyEvent {
    KeyEvent::new(code, KeyModifiers::none())
}

fn type_jump(nav: &mut Navigator, text: &str, commits: &[CommitSummary]) {
    for ch in text.chars() {
        nav.handle_jump_key(key(KeyCode::Char(ch)), commits);
    }
}

fn three_commit_navigator() -> Navigator {
    let mut nav = Navigator::new(3);
    nav.show_diff(&tiny_diff(HASHES[0]));
    nav
}

#[test]
fn resolve_jump_matches_positions_then_hashes() {
    let commits = commits();

    assert_eq!(resolve_jump("1", &commits), Ok(0));
    assert_eq!(resolve_jump("  3 ", &commits), Ok(2));

    let hash = commits[1].hash.clone();
    assert_eq!(resolve_jump(&hash[..7], &commits), Ok(1));
    assert_eq!(resolve_jump(&hash.to_uppercase(), &commits), Ok(1));

    assert!(resolve_jump("", &commits).is_err());
    assert!(resolve_jump("999", &commits).is_err());
    assert!(resolve_jump("zzzz", &commits).is_err());
}

#[test]
fn resolve_jump_error_messages() {
    let commits = commits();
    assert_eq!(
        resolve_jump("   ", &commits),
        Err("enter a position or commit hash".to_string())
    );
    assert_eq!(
        resolve_jump(" zz ", &commits),
        Err("no commit or position matches 'zz'".to_string())
    );
    let twins = vec![
        CommitSummary::from_parts("abc1".to_string(), None, None, None, 0, 0),
        CommitSummary::from_parts("abc2".to_string(), None, None, None, 0, 0),
    ];
    assert_eq!(
        resolve_jump("ABC", &twins),
        Err("'ABC' is ambiguous (2 commits)".to_string())
    );
    // A number outside the timeline is tried as a hash prefix.
    let numeric = vec![CommitSummary::from_parts("123abc".to_string(), None, None, None, 0, 0)];
    assert_eq!(resolve_jump("123", &numeric), Ok(0));
    assert_eq!(resolve_jump("1", &numeric), Ok(0));
}

#[test]
fn jump_to_timeline_position_moves_selection() {
    let commits = commits();
    let mut nav = three_commit_navigator();

    nav.apply_command(Command::BeginJump);
    assert!(nav.is_jumping());

    type_jump(&mut nav, "3", &commits);
    let outcome = nav.handle_jump_key(key(KeyCode::Enter), &commits);

    assert!(!nav.is_jumping());
    assert_eq!(nav.position(), (3, 3));
    assert_eq!(outcome.load, Some(2));
    assert!(outcome.reset_progress);
}

#[test]
fn jump_to_commit_hash_prefix_moves_selection() {
    let commits = commits();
    let mut nav = three_commit_navigator();
    let prefix = commits[1].hash[..6].to_owned();

    nav.apply_command(Command::BeginJump);
    type_jump(&mut nav, &prefix, &commits);
    nav.handle_jump_key(key(KeyCode::Enter), &commits);

    assert!(!nav.is_jumping());
    assert_eq!(nav.position(), (2, 3));
}

#[test]
fn jump_keeps_prompt_open_on_invalid_query() {
    let commits = commits();
    let mut nav = three_commit_navigator();

    nav.apply_command(Command::BeginJump);
    type_jump(&mut nav, "nope", &commits);
    nav.handle_jump_key(key(KeyCode::Enter), &commits);

    assert!(nav.is_jumping());
    let prompt = nav.jump_state().expect("prompt");
    assert!(prompt.error.is_some());
    assert_eq!(prompt.buffer, "nope");
    assert_eq!(nav.position(), (1, 3));

    nav.handle_jump_key(key(KeyCode::Backspace), &commits);
    let prompt = nav.jump_state().expect("prompt");
    assert!(prompt.error.is_none());
    assert_eq!(prompt.buffer, "nop");
}

#[test]
fn jump_escape_cancels_without_moving() {
    let commits = commits();
    let mut nav = three_commit_navigator();

    nav.apply_command(Command::BeginJump);
    type_jump(&mut nav, "2", &commits);
    nav.handle_jump_key(key(KeyCode::Esc), &commits);

    assert!(!nav.is_jumping());
    assert_eq!(nav.position(), (1, 3));
}

#[test]
fn jump_prompt_quits_on_control_c_and_ignores_control_chars() {
    let commits = commits();
    let mut nav = three_commit_navigator();
    nav.apply_command(Command::BeginJump);
    nav.handle_jump_key(key(KeyCode::Char('\u{7}')), &commits);
    assert_eq!(nav.jump_state().expect("prompt").buffer, "");
    let outcome = nav.handle_jump_key(
        KeyEvent::new(KeyCode::Char('c'), KeyModifiers::control()),
        &commits,
    );
    assert!(outcome.quit);
    assert!(nav.is_jumping());
}

#[test]
fn begin_jump_stops_playback() {
    let mut nav = three_commit_navigator();

    nav.apply_command(Command::TogglePlayback);
    assert!(nav.is_playing());

    nav.apply_command(Command::BeginJump);
    assert!(!nav.is_playing());
}

#[test]
fn playback_updates_pet_reaction_for_tiny_commit_streaks() {
    let mut nav = three_commit_navigator();

    assert_eq!(nav.reaction(), Reaction::Calm);

    nav.apply_command(Command::TogglePlayback);
    let step = nav.play_step();
    assert_eq!(step.load, Some(1));
    nav.show_diff(&tiny_diff(HASHES[1]));
    assert_eq!(nav.position(), (2, 3));
    assert_eq!(nav.reaction(), Reaction::Calm);

    let step = nav.play_step();
    assert_eq!(step.load, Some(2));
    assert!(step.stopped);
    nav.show_diff(&tiny_diff(HASHES[2]));

    assert_eq!(nav.position(), (3, 3));
    assert_eq!(nav.reaction(), Reaction::Nodding);
    assert!(!nav.is_playing());
}

#[test]
fn playback_stops_at_the_newest_commit() {
    let mut nav = three_commit_navigator();
    nav.apply_command(Command::TogglePlayback);
    nav.play_step();
    assert!(nav.is_playing());
    nav.play_step();
    assert!(!nav.is_playing());
    assert!(nav.at_end());
    let step = nav.play_step();
    assert_eq!(step.load, None);
    assert!(step.stopped);
    assert_eq!(nav.position(), (3, 3));
}

#[test]
fn moving_backwards_breaks_the_streak() {
    let mut nav = three_commit_navigator();
    nav.apply_command(Command::LastCommit);
    nav.show_diff(&tiny_diff(HASHES[2]));
    nav.apply_command(Command::PreviousCommit);
    nav.show_diff(&tiny_diff(HASHES[1]));
    nav.apply_command(Command::NextCommit);
    nav.show_diff(&tiny_diff(HASHES[2]));
    assert_eq!(nav.reaction(), Reaction::Calm);
}

#[test]
fn large_commit_excites_the_pet() {
    let mut nav = three_commit_navigator();
    nav.apply_command(Command::NextCommit);
    nav.show_diff(&large_diff(HASHES[1]));
    assert_eq!(nav.reaction(), Reaction::Excited);
    assert_eq!(reaction_for_diff(&large_diff("x"), 7), (Reaction::Excited, 0));
    assert_eq!(reaction_for_diff(&tiny_diff("x"), 2), (Reaction::Nodding, 3));
}

#[test]
fn navigation_commands_stay_on_the_timeline() {
    let mut nav = Navigator::new(25);
    let outcome = nav.apply_command(Command::PreviousCommit);
    assert_eq!(outcome.load, None);
    assert_eq!(nav.selected(), 0);
    let outcome = nav.apply_command(Command::JumpForward);
    assert_eq!(outcome.load, Some(JUMP_STEP));
    nav.apply_command(Command::JumpForward);
    nav.apply_command(Command::JumpForward);
    assert_eq!(nav.selected(), 24);
    nav.apply_command(Command::JumpBackward);
    assert_eq!(nav.selected(), 14);
    nav.apply_command(Command::FirstCommit);
    assert_eq!(nav.selected(), 0);
    let outcome = nav.apply_command(Command::LastCommit);
    assert_eq!(outcome.load, Some(24));
    assert!(outcome.reset_progress);
}

#[test]
fn scrolling_and_other_commands() {
    let mut nav = Navigator::new(2);
    nav.apply_command(Command::ScrollUp);
    assert_eq!(nav.diff_scroll(), 0);
    nav.apply_command(Command::ScrollDown);
    nav.apply_command(Command::ScrollDown);
    assert_eq!(nav.diff_scroll(), 2);
    nav.apply_command(Command::NextCommit);
    assert_eq!(nav.diff_scroll(), 0);
    assert!(nav.apply_command(Command::Quit).quit);
    assert_eq!(
        nav.apply_command(Command::FasterReveal),
        Outcome { quit: false, reset_progress: false, load: None, speed: Some(SpeedChange::FasterReveal) }
    );
    assert_eq!(nav.apply_command(Command::Noop).load, None);
}

#[test]
fn counting_diff_lines() {
    assert_eq!(count_diff_lines(&tiny_diff("x")), 4);
    assert_eq!(count_diff_lines(&large_diff("x")), 301);
}

#[test]
fn keys_go_to_the_prompt_while_it_is_open() {
    let commits = commits();
    let mut nav = three_commit_navigator();
    nav.handle_key(key(KeyCode::Char('g')), &commits);
    assert!(nav.is_jumping());
    nav.handle_key(key(KeyCode::Char('3')), &commits);
    assert_eq!(nav.jump_state().expect("prompt").buffer, "3");
    let outcome = nav.handle_key(key(KeyCode::Enter), &commits);
    assert_eq!(outcome.load, Some(2));
    assert!(!nav.is_jumping());
    let outcome = nav.handle_key(key(KeyCode::Char('q')), &commits);
    assert!(outcome.quit);
}

#[test]
fn jump_keys_without_a_prompt_do_nothing() {
    let commits = commits();
    let mut nav = three_commit_navigator();
    let outcome = nav.handle_jump_key(key(KeyCode::Char('2')), &commits);
    assert_eq!(outcome.load, None);
    assert!(!outcome.quit);
    assert!(!nav.is_jumping());
    nav.handle_jump_key(key(KeyCode::Backspace), &commits);
    assert!(!nav.is_jumping());
    let outcome = nav.handle_jump_key(key(KeyCode::Enter), &commits);
    assert_eq!(outcome.load, None);
    assert_eq!(nav.position(), (1, 3));
}

#[test]
fn a_jump_onto_the_next_commit_resets_the_streak() {
    let mut nav = three_commit_navigator();
    let outcome = nav.apply_command(Command::NextCommit);
    assert_eq!(outcome.load, Some(1));
    nav.show_diff(&tiny_diff(HASHES[1]));
    assert_eq!(nav.position(), (2, 3));
    assert_eq!(nav.reaction(), Reaction::Calm);
    let outcome = nav.apply_command(Command::JumpForward);
    assert_eq!(outcome.load, Some(2));
    nav.show_diff(&tiny_diff(HASHES[2]));
    assert_eq!(nav.position(), (3, 3));
    assert_eq!(nav.reaction(), Reaction::Calm);
}

#[test]
fn single_steps_forward_keep_the_streak() {
    let mut nav = three_commit_navigator();
    nav.apply_command(Command::NextCommit);
    nav.show_diff(&tiny_diff(HASHES[1]));
    nav.apply_command(Command::NextCommit);
    nav.show_diff(&tiny_diff(HASHES[2]));
    assert_eq!(nav.reaction(), Reaction::Nodding);
}

#[test]
fn toggling_playback_keeps_the_streak() {
    let mut nav = three_commit_navigator();
    nav.apply_command(Command::NextCommit);
    nav.show_diff(&tiny_diff(HASHES[1]));
    nav.apply_command(Command::TogglePlayback);
    nav.apply_command(Command::TogglePlayback);
    nav.apply_command(Command::TogglePlayback);
    let step = nav.play_step();
    assert_eq!(step.load, Some(2));
    nav.show_diff(&tiny_diff(HASHES[2]));
    assert_eq!(nav.reaction(), Reaction::Nodding);
}
