//! The timeline's state between key presses and ticks: which commit is
//! shown, playback, the jump prompt, and the pet's reaction streak.
//!
//! Loading a commit's diff is the caller's work: a step names the commit to
//! load, and the caller hands the loaded diff back with `show_diff`.

use vstd::prelude::*;

use crate::bindings::{command_for_key, command_of, Command, KeyCode, KeyEvent, KeyModifiers};
use crate::diff::{CommitSummary, StructuredDiff};
use crate::pet::Reaction;
use crate::playback::{jump_target, next_streak, reaction_for_diff, resolve_jump, stats_of};
use crate::text::{chars_of, push_char, string_of};

verus! {

/// Commits that one jump key moves over.
pub const JUMP_STEP: usize = 10;

/// A change of speed that a command asks for.
#[derive(Debug, Clone, Copy, PartialEq, Eq, Structural)]
pub enum SpeedChange {
    FasterPlayback,
    SlowerPlayback,
    FasterReveal,
    SlowerReveal,
}

/// What the caller must do after a command or key.
#[derive(Debug, Clone, Copy, PartialEq, Eq, Structural)]
pub struct Outcome {
    /// Leave the program.
    pub quit: bool,
    /// Restart the fractional playback progress at zero.
    pub reset_progress: bool,
    /// Load and show the diff of this commit.
    pub load: Option<usize>,
    /// Change a speed.
    pub speed: Option<SpeedChange>,
}

/// The text being typed at the jump prompt, and the error of the last try.
#[derive(Debug, PartialEq, Eq)]
pub struct JumpPrompt {
    pub buffer: String,
    pub error: Option<String>,
}

/// What one playback step did.
#[derive(Debug, Clone, Copy, PartialEq, Eq, Structural)]
pub struct PlayStep {
    /// Load and show the diff of this commit.
    pub load: Option<usize>,
    /// Playback reached the newest commit and stopped.
    pub stopped: bool,
}

pub struct Navigator {
    total: usize,
    selected: usize,
    diff_scroll: u16,
    playing: bool,
    tiny_commit_streak: usize,
    reaction: Reaction,
    sequential: bool,
    jump: Option<JumpPrompt>,
}

/// `c` is a control character (`char::is_control`).
pub open spec fn is_control_char(c: char) -> bool {
    ('\u{0}' <= c <= '\u{1f}') || ('\u{7f}' <= c <= '\u{9f}')
}

/// `selected + delta`, kept within the timeline.
pub open spec fn moved(selected: int, delta: int, total: int) -> int {
    let next = selected + delta;
    if next < 0 {
        0
    } else if next > total - 1 {
        total - 1
    } else {
        next
    }
}

impl Navigator {
    pub closed spec fn spec_total(self) -> usize {
        self.total
    }

    pub closed spec fn spec_selected(self) -> usize {
        self.selected
    }

    pub closed spec fn spec_diff_scroll(self) -> u16 {
        self.diff_scroll
    }

    pub closed spec fn spec_playing(self) -> bool {
        self.playing
    }

    pub closed spec fn spec_streak(self) -> usize {
        self.tiny_commit_streak
    }

    pub closed spec fn spec_reaction(self) -> Reaction {
        self.reaction
    }

    /// The next diff shown follows the previous commit directly.
    pub closed spec fn spec_sequential(self) -> bool {
        self.sequential
    }

    pub closed spec fn spec_jumping(self) -> bool {
        self.jump is Some
    }

    pub closed spec fn spec_jump_buffer(self) -> Seq<char> {
        match self.jump {
            Some(p) => p.buffer@,
            None => Seq::empty(),
        }
    }

    pub closed spec fn spec_jump_error(self) -> Option<Seq<char>> {
        match self.jump {
            Some(p) => match p.error {
                Some(e) => Some(e@),
                None => None,
            },
            None => None,
        }
    }

    /// The navigator's invariant: a non-empty timeline with the selection on it.
    pub closed spec fn wf(self) -> bool {
        0 < self.total && self.selected < self.total
    }

    /// A timeline of `total` commits showing the oldest; the caller shows its
    /// diff with `show_diff`, which starts the tiny-commit streak.
    pub fn new(total: usize) -> (n: Self)
        requires
            total > 0,
        ensures
            n.wf(),
            n.spec_total() == total,
            n.spec_selected() == 0,
            n.spec_diff_scroll() == 0,
            !n.spec_playing(),
            n.spec_streak() == 0,
            n.spec_reaction() == Reaction::Calm,
            !n.spec_sequential(),
            !n.spec_jumping(),
    {
        Navigator {
            total,
            selected: 0,
            diff_scroll: 0,
            playing: false,
            tiny_commit_streak: 0,
            reaction: Reaction::Calm,
            sequential: false,
            jump: None,
        }
    }

    /// The unchanged parts besides selection, scroll and the streak's state.
    pub open spec fn same_mode(self, other: Self) -> bool {
        &&& other.spec_total() == self.spec_total()
        &&& other.spec_playing() == self.spec_playing()
        &&& other.spec_jumping() == self.spec_jumping()
        &&& other.spec_jump_buffer() == self.spec_jump_buffer()
        &&& other.spec_jump_error() == self.spec_jump_error()
    }

    /// The pet's tiny-commit streak, its reaction, and whether the next diff
    /// continues the streak are unchanged.
    pub open spec fn keeps_pet(self, other: Self) -> bool {
        &&& other.spec_streak() == self.spec_streak()
        &&& other.spec_reaction() == self.spec_reaction()
        &&& other.spec_sequential() == self.spec_sequential()
    }

    /// The commit on screen, its scroll and the pet's streak are unchanged.
    pub open spec fn keeps_commit(self, other: Self) -> bool {
        &&& other.spec_total() == self.spec_total()
        &&& other.spec_selected() == self.spec_selected()
        &&& other.spec_diff_scroll() == self.spec_diff_scroll()
        &&& other.spec_streak() == self.spec_streak()
        &&& other.spec_reaction() == self.spec_reaction()
        &&& other.spec_sequential() == self.spec_sequential()
    }

    /// What moving to `next` does: a new commit is selected with its scroll
    /// reset and its diff to load, and the tiny-commit streak goes on only
    /// when the move is a single `step` forward; the same commit changes nothing.
    pub open spec fn moved_to(self, after: Self, next: usize, load: Option<usize>, step: bool) -> bool {
        &&& after.spec_total() == self.spec_total()
        &&& after.spec_playing() == self.spec_playing()
        &&& after.spec_streak() == self.spec_streak()
        &&& after.spec_reaction() == self.spec_reaction()
        &&& if next == self.spec_selected() {
            &&& load is None
            &&& after.spec_selected() == self.spec_selected()
            &&& after.spec_diff_scroll() == self.spec_diff_scroll()
            &&& after.spec_sequential() == self.spec_sequential()
        } else {
            &&& load == Some(next)
            &&& after.spec_selected() == next
            &&& after.spec_diff_scroll() == 0
            &&& after.spec_sequential() == (step && next == self.spec_selected() + 1)
        }
    }

    fn move_to(&mut self, next: usize, step: bool) -> (load: Option<usize>)
        requires
            old(self).wf(),
            next < old(self).spec_total(),
        ensures
            final(self).wf(),
            old(self).moved_to(*final(self), next, load, step),
            final(self).spec_jumping() == old(self).spec_jumping(),
            final(self).spec_jump_buffer() == old(self).spec_jump_buffer(),
            final(self).spec_jump_error() == old(self).spec_jump_error(),
    {
        if next == self.selected {
            return None;
        }
        let previous = self.selected;
        self.selected = next;
        self.diff_scroll = 0;
        self.sequential = step && previous < usize::MAX && next == previous + 1;
        Some(next)
    }

    fn move_by(&mut self, delta: usize, forward: bool, step: bool) -> (load: Option<usize>)
        requires
            old(self).wf(),
        ensures
            final(self).wf(),
            old(self).moved_to(
                *final(self),
                moved(old(self).spec_selected() as int, if forward { delta as int } else { -delta }, old(self).spec_total() as int) as usize,
                load,
                step,
            ),
            final(self).spec_jumping() == old(self).spec_jumping(),
            final(self).spec_jump_buffer() == old(self).spec_jump_buffer(),
            final(self).spec_jump_error() == old(self).spec_jump_error(),
    {
        let max = self.total - 1;
        let next = if forward {
            if delta > max - self.selected { max } else { self.selected + delta }
        } else {
            if delta > self.selected { 0 } else { self.selected - delta }
        };
        self.move_to(next, step)
    }

    /// The result of a command that leaves the prompt and speeds alone.
    pub open spec fn plain(quit: bool, reset: bool, load: Option<usize>) -> Outcome {
        Outcome { quit, reset_progress: reset, load, speed: None }
    }

    /// What applying `command` does: the outcome for the caller, and the navigator after it.
    pub open spec fn command_applied(self, after: Self, command: Command, o: Outcome) -> bool {
        &&& after.wf()
        &&& match command {
                Command::Quit => o == Navigator::plain(true, false, None) && after == self,
                Command::PreviousCommit => o.reset_progress && !o.quit && o.speed is None
                    && self.moved_to(after, moved(self.spec_selected() as int, -1, self.spec_total() as int) as usize, o.load, false) && after.same_mode(self),
                Command::NextCommit => o.reset_progress && !o.quit && o.speed is None
                    && self.moved_to(after, moved(self.spec_selected() as int, 1, self.spec_total() as int) as usize, o.load, true) && after.same_mode(self),
                Command::JumpBackward => o.reset_progress && !o.quit && o.speed is None
                    && self.moved_to(after, moved(self.spec_selected() as int, -(JUMP_STEP as int), self.spec_total() as int) as usize, o.load, false) && after.same_mode(self),
                Command::JumpForward => o.reset_progress && !o.quit && o.speed is None
                    && self.moved_to(after, moved(self.spec_selected() as int, JUMP_STEP as int, self.spec_total() as int) as usize, o.load, false) && after.same_mode(self),
                Command::FirstCommit => o.reset_progress && !o.quit && o.speed is None
                    && self.moved_to(after, 0, o.load, false) && after.same_mode(self),
                Command::LastCommit => o.reset_progress && !o.quit && o.speed is None
                    && self.moved_to(after, (self.spec_total() - 1) as usize, o.load, false) && after.same_mode(self),
                Command::ScrollUp => o == Navigator::plain(false, false, None) && after.spec_diff_scroll()
                    == (if self.spec_diff_scroll() == 0 { 0 } else { self.spec_diff_scroll() - 1 })
                    && after.spec_selected() == self.spec_selected() && after.same_mode(self) && after.keeps_pet(self),
                Command::ScrollDown => o == Navigator::plain(false, false, None) && after.spec_diff_scroll()
                    == (if self.spec_diff_scroll() == u16::MAX { u16::MAX as int } else { self.spec_diff_scroll() + 1 })
                    && after.spec_selected() == self.spec_selected() && after.same_mode(self) && after.keeps_pet(self),
                Command::TogglePlayback => o == Navigator::plain(false, true, None)
                    && after.spec_playing() == !self.spec_playing() && self.keeps_commit(after)
                    && after.spec_jumping() == self.spec_jumping() && after.spec_jump_buffer() == self.spec_jump_buffer()
                    && after.spec_jump_error() == self.spec_jump_error(),
                Command::FasterPlayback => o == (Outcome { quit: false, reset_progress: false, load: None, speed: Some(SpeedChange::FasterPlayback) }) && after == self,
                Command::SlowerPlayback => o == (Outcome { quit: false, reset_progress: false, load: None, speed: Some(SpeedChange::SlowerPlayback) }) && after == self,
                Command::FasterReveal => o == (Outcome { quit: false, reset_progress: false, load: None, speed: Some(SpeedChange::FasterReveal) }) && after == self,
                Command::SlowerReveal => o == (Outcome { quit: false, reset_progress: false, load: None, speed: Some(SpeedChange::SlowerReveal) }) && after == self,
                Command::BeginJump => o == Navigator::plain(false, true, None) && !after.spec_playing()
                    && after.spec_jumping() && after.spec_jump_buffer() == Seq::<char>::empty()
                    && after.spec_jump_error() is None && self.keeps_commit(after),
                Command::Noop => o == Navigator::plain(false, false, None) && after == self,
            }
    }

    /// Applies a command of the normal key bindings.
    pub fn apply_command(&mut self, command: Command) -> (o: Outcome)
        requires
            old(self).wf(),
        ensures
            old(self).command_applied(*final(self), command, o),
    {
        let none = Outcome { quit: false, reset_progress: false, load: None, speed: None };
        match command {
            Command::Quit => Outcome { quit: true, reset_progress: false, load: None, speed: None },
            Command::PreviousCommit => {
                let load = self.move_by(1, false, false);
                Outcome { quit: false, reset_progress: true, load, speed: None }
            },
            Command::NextCommit => {
                let load = self.move_by(1, true, true);
                Outcome { quit: false, reset_progress: true, load, speed: None }
            },
            Command::JumpBackward => {
                let load = self.move_by(JUMP_STEP, false, false);
                Outcome { quit: false, reset_progress: true, load, speed: None }
            },
            Command::JumpForward => {
                let load = self.move_by(JUMP_STEP, true, false);
                Outcome { quit: false, reset_progress: true, load, speed: None }
            },
            Command::FirstCommit => {
                let load = self.move_to(0, false);
                Outcome { quit: false, reset_progress: true, load, speed: None }
            },
            Command::LastCommit => {
                let last = self.total - 1;
                let load = self.move_to(last, false);
                Outcome { quit: false, reset_progress: true, load, speed: None }
            },
            Command::ScrollUp => {
                self.diff_scroll = self.diff_scroll.saturating_sub(1);
                none
            },
            Command::ScrollDown => {
                self.diff_scroll = self.diff_scroll.saturating_add(1);
                none
            },
            Command::TogglePlayback => {
                self.playing = !self.playing;
                Outcome { quit: false, reset_progress: true, load: None, speed: None }
            },
            Command::FasterPlayback => Outcome { quit: false, reset_progress: false, load: None, speed: Some(SpeedChange::FasterPlayback) },
            Command::SlowerPlayback => Outcome { quit: false, reset_progress: false, load: None, speed: Some(SpeedChange::SlowerPlayback) },
            Command::FasterReveal => Outcome { quit: false, reset_progress: false, load: None, speed: Some(SpeedChange::FasterReveal) },
            Command::SlowerReveal => Outcome { quit: false, reset_progress: false, load: None, speed: Some(SpeedChange::SlowerReveal) },
            Command::BeginJump => {
                self.playing = false;
                self.jump = Some(JumpPrompt { buffer: String::new(), error: None });
                Outcome { quit: false, reset_progress: true, load: None, speed: None }
            },
            Command::Noop => none,
        }
    }

    /// Shows a loaded diff: the pet reacts to it, and a commit that directly
    /// follows the last one shown keeps the tiny-commit streak going.
    pub fn show_diff(&mut self, diff: &StructuredDiff)
        requires
            old(self).wf(),
        ensures
            final(self).wf(),
            final(self).spec_selected() == old(self).spec_selected(),
            final(self).spec_diff_scroll() == old(self).spec_diff_scroll(),
            final(self).same_mode(*old(self)),
            !final(self).spec_sequential(),
            final(self).spec_streak() == next_streak(*diff, if old(self).spec_sequential() { old(self).spec_streak() } else { 0 }),
            final(self).spec_reaction() == stats_of(*diff, final(self).spec_streak() as nat).reaction(),
    {
        let prior = if self.sequential { self.tiny_commit_streak } else { 0 };
        let (reaction, streak) = reaction_for_diff(diff, prior);
        self.reaction = reaction;
        self.tiny_commit_streak = streak;
        self.sequential = false;
    }

    /// What one playback step does: the next commit is selected, and playback
    /// stops once the newest commit is reached; at the newest commit nothing moves.
    pub open spec fn play_stepped(self, after: Self, step: PlayStep) -> bool {
        &&& after.wf()
        &&& after.spec_total() == self.spec_total()
        &&& after.spec_jumping() == self.spec_jumping()
        &&& if self.spec_selected() + 1 >= self.spec_total() {
            &&& step.stopped && step.load is None
            &&& !after.spec_playing()
            &&& after.spec_selected() == self.spec_selected()
        } else {
            &&& step.load == Some((self.spec_selected() + 1) as usize)
            &&& after.spec_selected() == self.spec_selected() + 1
            &&& after.spec_diff_scroll() == 0
            &&& after.spec_sequential()
            &&& after.spec_streak() == self.spec_streak()
            &&& step.stopped == (self.spec_selected() + 2 >= self.spec_total())
            &&& after.spec_playing() == (self.spec_playing() && !step.stopped)
        }
    }

    /// One commit of playback.
    pub fn play_step(&mut self) -> (step: PlayStep)
        requires
            old(self).wf(),
        ensures
            old(self).play_stepped(*final(self), step),
    {
        let last = self.total - 1;
        if self.selected >= last {
            self.playing = false;
            return PlayStep { load: None, stopped: true };
        }
        let next = self.selected + 1;
        let load = self.move_to(next, true);
        let stopped = self.selected >= last;
        if stopped {
            self.playing = false;
        }
        PlayStep { load, stopped }
    }

    /// Whether playback has reached the newest commit.
    pub fn at_end(&self) -> (r: bool)
        requires
            self.wf(),
        ensures
            r == (self.spec_selected() + 1 >= self.spec_total()),
    {
        self.selected >= self.total - 1
    }

    /// Stops playback.
    pub fn stop(&mut self)
        ensures
            !final(self).spec_playing(),
            final(self).spec_selected() == old(self).spec_selected(),
            final(self).spec_total() == old(self).spec_total(),
            final(self).wf() == old(self).wf(),
    {
        self.playing = false;
    }

    /// What a key does to the jump prompt: Ctrl-C quits; with the prompt
    /// open, Esc cancels, Enter jumps to the typed position or hash (or keeps
    /// the prompt open with the error), Backspace deletes, and other printable
    /// characters are typed; without it, nothing happens.
    pub open spec fn jump_key_handled(self, after: Self, key: KeyEvent, commits: Seq<CommitSummary>, o: Outcome) -> bool {
        &&& after.wf()
        &&& after.spec_total() == self.spec_total()
        &&& after.spec_playing() == self.spec_playing()
        &&& key.spec_is_interrupt() ==> o.quit && after == self
        &&& !key.spec_is_interrupt() ==> !o.quit && o.speed is None
        &&& !key.spec_is_interrupt() && !self.spec_jumping() ==> o == Navigator::plain(false, false, None)
            && after == self
        &&& self.spec_jumping() && !key.spec_is_interrupt() && key.code == KeyCode::Esc ==> !after.spec_jumping()
            && self.keeps_commit(after) && o == Navigator::plain(false, false, None)
        &&& self.spec_jumping() && !key.spec_is_interrupt() && key.code == KeyCode::Enter ==> match jump_target(self.spec_jump_buffer(), commits) {
            Ok(i) => !after.spec_jumping() && o.reset_progress && self.moved_to(after, i, o.load, false),
            Err(m) => after.spec_jumping() && after.spec_jump_error() == Some(m)
                && after.spec_jump_buffer() == self.spec_jump_buffer()
                && self.keeps_commit(after) && o == Navigator::plain(false, false, None),
        }
        &&& self.spec_jumping() && !key.spec_is_interrupt() && key.code == KeyCode::Backspace ==> after.spec_jumping()
            && after.spec_jump_error() is None
            && after.spec_jump_buffer() == (if self.spec_jump_buffer().len() == 0 {
                self.spec_jump_buffer()
            } else {
                self.spec_jump_buffer().drop_last()
            }) && self.keeps_commit(after) && o == Navigator::plain(false, false, None)
        &&& self.spec_jumping() && !key.spec_is_interrupt() ==> (key.code matches KeyCode::Char(c) ==> after.spec_jumping()
            && self.keeps_commit(after) && o == Navigator::plain(false, false, None)
            && (if is_control_char(c) {
                after.spec_jump_buffer() == self.spec_jump_buffer()
                    && after.spec_jump_error() == self.spec_jump_error()
            } else {
                after.spec_jump_buffer() == self.spec_jump_buffer().push(c)
                    && after.spec_jump_error() is None
            }))
        &&& self.spec_jumping() && !key.spec_is_interrupt() && !(key.code is Esc || key.code is Enter
            || key.code is Backspace || key.code is Char) ==> after == self && o == Navigator::plain(false, false, None)
    }

    /// A key for the jump prompt; without an open prompt only Ctrl-C does anything.
    pub fn handle_jump_key(&mut self, key: KeyEvent, commits: &[CommitSummary]) -> (o: Outcome)
        requires
            old(self).wf(),
            commits@.len() == old(self).spec_total(),
        ensures
            old(self).jump_key_handled(*final(self), key, commits@, o),
    {
        let none = Outcome { quit: false, reset_progress: false, load: None, speed: None };
        if key.modifiers.contains(KeyModifiers::control()) && key.code == KeyCode::Char('c') {
            return Outcome { quit: true, reset_progress: false, load: None, speed: None };
        }
        if self.jump.is_none() {
            return none;
        }
        match key.code {
            KeyCode::Esc => {
                self.jump = None;
                none
            },
            KeyCode::Enter => {
                let target = match &self.jump {
                    Some(prompt) => resolve_jump(prompt.buffer.as_str(), commits),
                    None => {
                        return none;
                    },
                };
                match target {
                    Ok(index) => {
                        self.jump = None;
                        let load = self.move_to(index, false);
                        Outcome { quit: false, reset_progress: true, load, speed: None }
                    },
                    Err(message) => {
                        let buffer = match self.jump.take() {
                            Some(prompt) => prompt.buffer,
                            None => String::new(),
                        };
                        self.jump = Some(JumpPrompt { buffer, error: Some(message) });
                        none
                    },
                }
            },
            KeyCode::Backspace => {
                let buffer = match self.jump.take() {
                    Some(prompt) => prompt.buffer,
                    None => String::new(),
                };
                let mut chars = chars_of(buffer.as_str());
                chars.pop();
                self.jump = Some(JumpPrompt { buffer: string_of(&chars), error: None });
                proof {
                    if buffer@.len() == 0 {
                        assert(chars@ == buffer@);
                    } else {
                        assert(chars@ =~= buffer@.drop_last());
                    }
                }
                none
            },
            KeyCode::Char(c) => {
                if ('\u{0}' <= c && c <= '\u{1f}') || ('\u{7f}' <= c && c <= '\u{9f}') {
                    return none;
                }
                let mut buffer = match self.jump.take() {
                    Some(prompt) => prompt.buffer,
                    None => String::new(),
                };
                push_char(&mut buffer, c);
                self.jump = Some(JumpPrompt { buffer, error: None });
                none
            },
            _ => none,
        }
    }

    /// A key press: the open jump prompt takes it, otherwise the key's bound
    /// command is applied.
    pub fn handle_key(&mut self, key: KeyEvent, commits: &[CommitSummary]) -> (o: Outcome)
        requires
            old(self).wf(),
            commits@.len() == old(self).spec_total(),
        ensures
            final(self).wf(),
            old(self).spec_jumping() ==> old(self).jump_key_handled(*final(self), key, commits@, o),
            !old(self).spec_jumping() ==> old(self).command_applied(*final(self), command_of(key), o),
    {
        if self.is_jumping() {
            self.handle_jump_key(key, commits)
        } else {
            self.apply_command(command_for_key(key))
        }
    }

    pub fn is_jumping(&self) -> (r: bool)
        ensures
            r == self.spec_jumping(),
    {
        self.jump.is_some()
    }

    pub fn jump_state(&self) -> (r: Option<&JumpPrompt>)
        ensures
            r is Some == self.spec_jumping(),
            r matches Some(p) ==> p.buffer@ == self.spec_jump_buffer() && (match p.error {
                Some(e) => self.spec_jump_error() == Some(e@),
                None => self.spec_jump_error() is None,
            }),
    {
        match &self.jump {
            Some(p) => Some(p),
            None => None,
        }
    }

    pub fn is_playing(&self) -> (r: bool)
        ensures
            r == self.spec_playing(),
    {
        self.playing
    }

    /// The shown commit's 1-based position and the timeline's length.
    pub fn position(&self) -> (r: (usize, usize))
        requires
            self.wf(),
        ensures
            r == ((self.spec_selected() + 1) as usize, self.spec_total()),
    {
        (self.selected + 1, self.total)
    }

    pub fn selected(&self) -> (r: usize)
        ensures
            r == self.spec_selected(),
    {
        self.selected
    }

    pub fn diff_scroll(&self) -> (r: u16)
        ensures
            r == self.spec_diff_scroll(),
    {
        self.diff_scroll
    }

    pub fn reaction(&self) -> (r: Reaction)
        ensures
            r == self.spec_reaction(),
    {
        self.reaction
    }
}

/// Playback from any commit visits the following commits one by one, in
/// order, and comes to rest at the newest: after `k` steps the commit shown is
/// `k` further on, or the newest one.
pub proof fn lemma_playback_visits_in_order(navs: Seq<Navigator>, steps: Seq<PlayStep>)
    requires
        navs.len() == steps.len() + 1,
        navs[0].wf(),
        forall|k: int| 0 <= k < steps.len() ==> #[trigger] navs[k].play_stepped(navs[k + 1], steps[k]),
    ensures
        forall|k: int| 0 <= k < navs.len() ==> {
            &&& #[trigger] navs[k].wf()
            &&& navs[k].spec_total() == navs[0].spec_total()
            &&& navs[k].spec_selected() == (if navs[0].spec_selected() + k < navs[0].spec_total() {
                navs[0].spec_selected() + k
            } else {
                navs[0].spec_total() - 1
            })
        },
        forall|k: int| 0 <= k < steps.len() ==> (#[trigger] steps[k].load matches Some(i) ==> i == navs[k + 1].spec_selected()),
    decreases steps.len(),
{
    if steps.len() > 0 {
        let n = steps.len() - 1;
        let shorter = navs.take(navs.len() - 1);
        assert forall|k: int| 0 <= k < n implies #[trigger] shorter[k].play_stepped(shorter[k + 1], steps.take(n)[k]) by {
            assert(shorter[k] == navs[k] && shorter[k + 1] == navs[k + 1] && steps.take(n)[k] == steps[k]);
            assert(navs[k].play_stepped(navs[k + 1], steps[k]));
        }
        lemma_playback_visits_in_order(shorter, steps.take(n));
        assert(shorter[n] == navs[n]);
        assert(navs[n].wf());
        assert(navs[n].play_stepped(navs[n + 1], steps[n]));
        assert forall|k: int| 0 <= k < navs.len() implies {
            &&& #[trigger] navs[k].wf()
            &&& navs[k].spec_total() == navs[0].spec_total()
            &&& navs[k].spec_selected() == (if navs[0].spec_selected() + k < navs[0].spec_total() {
                navs[0].spec_selected() + k
            } else {
                navs[0].spec_total() - 1
            })
        } by {
            if k < navs.len() - 1 {
                assert(shorter[k] == navs[k]);
            }
        }
        assert forall|k: int| 0 <= k < steps.len() implies (#[trigger] steps[k].load matches Some(i) ==> i == navs[k + 1].spec_selected()) by {
            if k < n {
                assert(steps.take(n)[k] == steps[k]);
                assert(shorter[k + 1] == navs[k + 1]);
            }
        }
    }
}

} // verus!
