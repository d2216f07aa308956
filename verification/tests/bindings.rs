use commitchi::bindings::{command_for_key, Command, KeyCode, KeyEvent, KeyModifiers};

#[test]
fn maps_commit_navigation_keys() {
    assert_eq!(
        command_for_key(KeyEvent::new(KeyCode::Char('h'), KeyModifiers::none())),
        Command::PreviousCommit
    );
    assert_eq!(
        command_for_key(KeyEvent::new(KeyCode::Left, KeyModifiers::none())),
        Command::PreviousCommit
    );
    assert_eq!(
        command_for_key(KeyEvent::new(KeyCode::Char('l'), KeyModifiers::none())),
        Command::NextCommit
    );
    assert_eq!(
        command_for_key(KeyEvent::new(KeyCode::Right, KeyModifiers::none())),
        Command::NextCommit
    );
}

#[test]
fn maps_jump_and_scroll_keys() {
    assert_eq!(
        command_for_key(KeyEvent::new(KeyCode::Char('j'), KeyModifiers::none())),
        Command::JumpForward
    );
    assert_eq!(
        command_for_key(KeyEvent::new(KeyCode::PageDown, KeyModifiers::none())),
        Command::JumpForward
    );
    assert_eq!(
        command_for_key(KeyEvent::new(KeyCode::Up, KeyModifiers::none())),
        Command::ScrollUp
    );
    assert_eq!(
        command_for_key(KeyEvent::new(KeyCode::Down, KeyModifiers::none())),
        Command::ScrollDown
    );
}

#[test]
fn maps_quit_keys() {
    assert_eq!(
        command_for_key(KeyEvent::new(KeyCode::Char('q'), KeyModifiers::none())),
        Command::Quit
    );
    assert_eq!(
        command_for_key(KeyEvent::new(KeyCode::Char('c'), KeyModifiers::control())),
        Command::Quit
    );
}

#[test]
fn maps_playback_and_speed_keys() {
    assert_eq!(
        command_for_key(KeyEvent::new(KeyCode::Char(' '), KeyModifiers::none())),
        Command::TogglePlayback
    );
    assert_eq!(
        command_for_key(KeyEvent::new(KeyCode::Char('+'), KeyModifiers::none())),
        Command::FasterPlayback
    );
    assert_eq!(
        command_for_key(KeyEvent::new(KeyCode::Char('-'), KeyModifiers::none())),
        Command::SlowerPlayback
    );
    assert_eq!(
        command_for_key(KeyEvent::new(KeyCode::Char(']'), KeyModifiers::none())),
        Command::FasterReveal
    );
    assert_eq!(
        command_for_key(KeyEvent::new(KeyCode::Char('['), KeyModifiers::none())),
        Command::SlowerReveal
    );
}

#[test]
fn maps_jump_keys() {
    assert_eq!(
        command_for_key(KeyEvent::new(KeyCode::Char('g'), KeyModifiers::none())),
        Command::BeginJump
    );
    assert_eq!(
        command_for_key(KeyEvent::new(KeyCode::Char(':'), KeyModifiers::none())),
        Command::BeginJump
    );
}

#[test]
fn unbound_keys_do_nothing() {
    assert_eq!(
        command_for_key(KeyEvent::new(KeyCode::Char('z'), KeyModifiers::none())),
        Command::Noop
    );
    assert_eq!(
        command_for_key(KeyEvent::new(KeyCode::Tab, KeyModifiers::none())),
        Command::Noop
    );
}

#[test]
fn control_c_is_an_interrupt_and_plain_c_is_not() {
    assert!(KeyEvent::new(KeyCode::Char('c'), KeyModifiers::control()).is_interrupt());
    assert!(!KeyEvent::new(KeyCode::Char('c'), KeyModifiers::none()).is_interrupt());
    assert!(KeyModifiers::control().contains(KeyModifiers::none()));
    assert!(!KeyModifiers::none().contains(KeyModifiers::control()));
}
