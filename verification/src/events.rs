//! The event schedule that separates input, ticks and rendering.
//!
//! Times are nanoseconds on a monotonic clock that starts when the schedule
//! is created.

use vstd::prelude::*;

use crate::bindings::KeyEvent;

verus! {

#[derive(Debug, Clone, Copy, PartialEq, Eq, Structural)]
pub enum AppEvent {
    Input(KeyEvent),
    /// A tick, with the nanoseconds since the last one.
    Tick(u64),
    Render,
    StateFileChanged,
}

/// When the next tick and render are due.
#[derive(Debug, Clone, Copy, PartialEq, Eq, Structural)]
pub struct EventSchedule {
    pub tick_interval: u64,
    pub render_interval: u64,
    pub last_tick: u64,
    pub last_render: u64,
}

/// `a - b`, or zero when `b` is larger.
pub open spec fn sat_sub(a: u64, b: u64) -> u64 {
    if a >= b { (a - b) as u64 } else { 0 }
}

/// Time left until `interval` has passed since `last`.
pub open spec fn remaining(now: u64, last: u64, interval: u64) -> u64 {
    sat_sub(interval, sat_sub(now, last))
}

pub fn remaining_until(now: u64, last: u64, interval: u64) -> (r: u64)
    ensures
        r == remaining(now, last, interval),
{
    interval.saturating_sub(now.saturating_sub(last))
}

/// The time left before the next tick or render, whichever comes first.
pub open spec fn timeout_of(s: EventSchedule, now: u64) -> u64 {
    let t = remaining(now, s.last_tick, s.tick_interval);
    let r = remaining(now, s.last_render, s.render_interval);
    if t <= r { t } else { r }
}

/// The schedule after draining at `now`: each event that was due restarts
/// its interval at `now`.
pub open spec fn drained(s: EventSchedule, now: u64) -> EventSchedule {
    EventSchedule {
        tick_interval: s.tick_interval,
        render_interval: s.render_interval,
        last_tick: if sat_sub(now, s.last_tick) >= s.tick_interval { now } else { s.last_tick },
        last_render: if sat_sub(now, s.last_render) >= s.render_interval { now } else { s.last_render },
    }
}

impl EventSchedule {
    /// A schedule whose clock starts now, at zero.
    pub fn new(tick_interval: u64, render_interval: u64) -> (s: Self)
        ensures
            s == (EventSchedule { tick_interval, render_interval, last_tick: 0, last_render: 0 }),
    {
        EventSchedule::starting_at(0, tick_interval, render_interval)
    }

    pub fn starting_at(now: u64, tick_interval: u64, render_interval: u64) -> (s: Self)
        ensures
            s == (EventSchedule { tick_interval, render_interval, last_tick: now, last_render: now }),
    {
        EventSchedule { tick_interval, render_interval, last_tick: now, last_render: now }
    }

    /// How long to wait for input before the next tick or render is due.
    pub fn poll_timeout(&self, now: u64) -> (t: u64)
        ensures
            t == timeout_of(*self, now),
    {
        let tick_remaining = remaining_until(now, self.last_tick, self.tick_interval);
        let render_remaining = remaining_until(now, self.last_render, self.render_interval);
        if tick_remaining <= render_remaining {
            tick_remaining
        } else {
            render_remaining
        }
    }

    /// The events due at `now`: a tick (with the time since the last one)
    /// once its interval has passed, then a render once its interval has
    /// passed; each due event restarts its interval.
    pub fn drain_due(&mut self, now: u64) -> (events: Vec<AppEvent>)
        ensures
            *final(self) == drained(*old(self), now),
            ({
                let tick_due = sat_sub(now, old(self).last_tick) >= old(self).tick_interval;
                let render_due = sat_sub(now, old(self).last_render) >= old(self).render_interval;
                &&& events@ == (if tick_due {
                    seq![AppEvent::Tick(sat_sub(now, old(self).last_tick))]
                } else {
                    Seq::empty()
                }) + (if render_due {
                    seq![AppEvent::Render]
                } else {
                    Seq::empty()
                })
            }),
    {
        let mut events: Vec<AppEvent> = Vec::new();
        let tick_elapsed = now.saturating_sub(self.last_tick);
        if tick_elapsed >= self.tick_interval {
            self.last_tick = now;
            events.push(AppEvent::Tick(tick_elapsed));
        }
        let render_elapsed = now.saturating_sub(self.last_render);
        if render_elapsed >= self.render_interval {
            self.last_render = now;
            events.push(AppEvent::Render);
        }
        proof {
            let tick_part: Seq<AppEvent> = if tick_elapsed >= old(self).tick_interval {
                seq![AppEvent::Tick(tick_elapsed)]
            } else {
                Seq::empty()
            };
            let render_part: Seq<AppEvent> = if render_elapsed >= old(self).render_interval {
                seq![AppEvent::Render]
            } else {
                Seq::empty()
            };
            assert(events@ =~= tick_part + render_part);
        }
        events
    }
}

/// The wait for input never exceeds an interval, and it is zero while an
/// event is due.
pub proof fn lemma_poll_timeout_bounds(s: EventSchedule, now: u64)
    ensures
        timeout_of(s, now) <= s.tick_interval,
        timeout_of(s, now) <= s.render_interval,
        sat_sub(now, s.last_tick) >= s.tick_interval ==> timeout_of(s, now) == 0,
        sat_sub(now, s.last_render) >= s.render_interval ==> timeout_of(s, now) == 0,
{
}

/// Right after the due events are drained nothing is due: with non-zero
/// intervals and a clock that does not run backwards, the next wait is positive.
pub proof fn lemma_nothing_due_after_drain(s: EventSchedule, now: u64)
    requires
        s.tick_interval > 0,
        s.render_interval > 0,
        s.last_tick <= now,
        s.last_render <= now,
    ensures
        timeout_of(drained(s, now), now) > 0,
{
}

} // verus!
