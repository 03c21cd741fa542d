//! The focus score: a bounded level that grows with every key press and
//! decays while the keyboard stays idle, and the alert raised after a long
//! idle period.
//!
//! The level is counted in half points, so that a gain of one point and a
//! decay of half a point are both whole numbers: 200 half points are a
//! level of 100.

use crate::time::{more_than_seconds_between, Timestamp};
use vstd::prelude::*;

verus! {

/// The highest level, in half points.
pub const FULL_LEVEL: u8 = 200;

/// What one key press adds to the level, in half points.
pub const ACTIVITY_GAIN: u8 = 2;

/// What one idle tick takes from the level, in half points.
pub const IDLE_DECAY: u8 = 1;

/// Seconds without activity after which the level starts to decay.
pub const DECAY_AFTER_SECONDS: u32 = 10;

/// Seconds without activity after which the alert is raised.
pub const ALERT_AFTER_SECONDS: u32 = 30;

/// The state of the focus score.
#[derive(Clone, Copy, Debug, PartialEq, Eq, Structural)]
pub struct FocusState {
    /// The level in half points, from 0 to `FULL_LEVEL`.
    pub level: u8,
    /// When a key was last pressed.
    pub last_activity: Timestamp,
    /// Whether the last tick found the keyboard idle for too long.
    pub alert: bool,
}

/// One event of the engine. Runs of events are what the laws on the
/// focus score and on the activity stream speak of.
#[derive(Clone, Copy, Debug, PartialEq, Eq, Structural)]
pub enum FocusEvent {
    /// A key was pressed at the given time.
    Activity(Timestamp),
    /// A tick boundary was reached at the given time.
    Tick(Timestamp),
}

/// The state at start-up: full level, no alert, activity counted from `now`.
pub open spec fn initial(now: Timestamp) -> FocusState {
    FocusState { level: FULL_LEVEL, last_activity: now, alert: false }
}

/// The state after a key press at `now`: the level gains a point, up to the
/// full level, and the alert is cleared.
pub open spec fn after_activity(state: FocusState, now: Timestamp) -> FocusState {
    FocusState {
        level: if state.level + ACTIVITY_GAIN >= FULL_LEVEL {
            FULL_LEVEL
        } else {
            (state.level + ACTIVITY_GAIN) as u8
        },
        last_activity: now,
        alert: false,
    }
}

/// The state after a tick at `now`: the level loses half a point, down to
/// zero, once the keyboard has been idle for more than ten seconds, and the
/// alert says whether it has been idle for more than thirty. The idle time
/// is the full time since the last key press, fractions of a second
/// counted.
pub open spec fn after_tick(state: FocusState, now: Timestamp) -> FocusState {
    let idle = now.total_nanos() - state.last_activity.total_nanos();
    FocusState {
        level: if idle > DECAY_AFTER_SECONDS * 1_000_000_000 {
            if state.level >= IDLE_DECAY {
                (state.level - IDLE_DECAY) as u8
            } else {
                0
            }
        } else {
            state.level
        },
        last_activity: state.last_activity,
        alert: idle > ALERT_AFTER_SECONDS * 1_000_000_000,
    }
}

/// The state after one event.
pub open spec fn after_event(state: FocusState, event: FocusEvent) -> FocusState {
    match event {
        FocusEvent::Activity(now) => after_activity(state, now),
        FocusEvent::Tick(now) => after_tick(state, now),
    }
}

/// The state after a sequence of events, applied in order.
pub open spec fn after_events(state: FocusState, events: Seq<FocusEvent>) -> FocusState
    decreases events.len(),
{
    if events.len() == 0 {
        state
    } else {
        after_event(after_events(state, events.drop_last()), events.last())
    }
}

impl FocusState {
    /// Whether the level is within its range.
    pub open spec fn in_range(self) -> bool {
        self.level <= FULL_LEVEL
    }

    /// The state at start-up.
    pub fn new(now: Timestamp) -> (state: FocusState)
        ensures
            state == initial(now),
            state.in_range(),
    {
        FocusState { level: FULL_LEVEL, last_activity: now, alert: false }
    }

    /// Records a key press at `now`.
    pub fn register_activity(&mut self, now: Timestamp)
        ensures
            *final(self) == after_activity(*old(self), now),
            final(self).in_range(),
            !final(self).alert,
    {
        self.last_activity = now;
        self.level = if self.level >= FULL_LEVEL - ACTIVITY_GAIN {
            FULL_LEVEL
        } else {
            self.level + ACTIVITY_GAIN
        };
        self.alert = false;
    }

    /// Evaluates decay and alert at a tick boundary at `now`.
    pub fn tick(&mut self, now: Timestamp)
        ensures
            *final(self) == after_tick(*old(self), now),
            old(self).in_range() ==> final(self).in_range(),
            final(self).alert == (now.total_nanos() - old(self).last_activity.total_nanos()
                > ALERT_AFTER_SECONDS * 1_000_000_000),
    {
        if more_than_seconds_between(&self.last_activity, &now, DECAY_AFTER_SECONDS) {
            self.level = if self.level >= IDLE_DECAY {
                self.level - IDLE_DECAY
            } else {
                0
            };
        }
        self.alert = more_than_seconds_between(&self.last_activity, &now, ALERT_AFTER_SECONDS);
    }
}

/// Whatever key presses and ticks follow, in whatever order and at
/// whatever times, a level that is within its range stays within it.
pub proof fn lemma_level_stays_in_range(state: FocusState, events: Seq<FocusEvent>)
    requires
        state.in_range(),
    ensures
        after_events(state, events).in_range(),
    decreases events.len(),
{
    if events.len() > 0 {
        lemma_level_stays_in_range(state, events.drop_last());
    }
}

/// From start-up on, the level is within its range after any sequence of
/// key presses and ticks.
pub proof fn lemma_level_in_range_from_start(start: Timestamp, events: Seq<FocusEvent>)
    ensures
        after_events(initial(start), events).in_range(),
{
    lemma_level_stays_in_range(initial(start), events);
}

/// The alert is raised exactly when the latest event was a tick that found
/// the keyboard idle for more than thirty seconds; a key press clears it
/// at once.
pub proof fn lemma_alert_follows_latest_event(state: FocusState, events: Seq<FocusEvent>)
    requires
        events.len() > 0,
    ensures
        after_events(state, events).alert == match events.last() {
            FocusEvent::Activity(_) => false,
            FocusEvent::Tick(now) => now.total_nanos() - after_events(
                state,
                events.drop_last(),
            ).last_activity.total_nanos() > ALERT_AFTER_SECONDS * 1_000_000_000,
        },
{
}

} // verus!
