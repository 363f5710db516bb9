//! Daemon events and the multiplexer's transition table.

use vstd::prelude::*;

verus! {

/// The sum type of transition triggers that flows through the multiplexer
/// queue, in arrival order.
pub enum DaemonEvent {
    /// The activity directory reports a change of current activity.
    KdeActivityChanged { activity: String },
    /// The display went idle (`true`) or input resumed (`false`).
    IdleStatusChanged { idle: bool },
    /// The system is about to suspend.
    SleepingNow,
    /// The system woke from suspend.
    WakingNow,
}

/// What the multiplexer must do with the timeline for one event.
pub enum EventAction {
    /// Close the open interval and track nothing.
    EndCurrent,
    /// Switch tracking to the named activity.
    SwitchTo(String),
    /// Ask the activity directory for the current activity and switch to
    /// it.  Resuming re-derives the activity instead of reopening the
    /// interval that was active before the pause: the directory may have
    /// changed activity while nothing was being tracked.
    SwitchToCurrent,
}

/// The transition table:
///
/// | event                      | action            |
/// |----------------------------|-------------------|
/// | activity changed to `n`    | switch to `n`     |
/// | idle status became `true`  | end current       |
/// | idle status became `false` | switch to current |
/// | sleeping now               | end current       |
/// | waking now                 | switch to current |
///
/// Idle and sleep are pause signals: no elapsed wall-clock time may be
/// attributed to any activity while they hold.
pub open spec fn spec_plan(ev: DaemonEvent) -> EventAction {
    match ev {
        DaemonEvent::KdeActivityChanged { activity } => EventAction::SwitchTo(activity),
        DaemonEvent::IdleStatusChanged { idle } => if idle {
            EventAction::EndCurrent
        } else {
            EventAction::SwitchToCurrent
        },
        DaemonEvent::SleepingNow => EventAction::EndCurrent,
        DaemonEvent::WakingNow => EventAction::SwitchToCurrent,
    }
}

/// Resolves one queued event to the action the multiplexer takes, per the
/// transition table of [`spec_plan`].
pub fn plan_event(ev: DaemonEvent) -> (a: EventAction)
    ensures
        a == spec_plan(ev),
{
    match ev {
        DaemonEvent::KdeActivityChanged { activity } => EventAction::SwitchTo(activity),
        DaemonEvent::IdleStatusChanged { idle } => {
            if idle {
                EventAction::EndCurrent
            } else {
                EventAction::SwitchToCurrent
            }
        },
        DaemonEvent::SleepingNow => EventAction::EndCurrent,
        DaemonEvent::WakingNow => EventAction::SwitchToCurrent,
    }
}

} // verus!
