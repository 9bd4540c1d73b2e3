//! The repeating timer that paces the arrival of new spheres.
//!
//! The timer itself is `bevy::time::Timer`. What this library knows of it is
//! stated here and taken on trust; everything else is proved from these
//! statements.

use vstd::prelude::*;
use bevy::time::Timer;

verus! {

/// Makes `bevy::time::Timer` known as a type whose inside is not looked at.
#[verifier::external_type_specification]
#[verifier::external_body]
pub struct ExTimer(bevy::time::Timer);

/// The nanoseconds that a timer has counted since it last wrapped round.
pub uninterp spec fn timer_elapsed(timer: Timer) -> nat;

/// The nanoseconds of a timer's duration.
pub uninterp spec fn timer_period(timer: Timer) -> nat;

/// Whether a timer is in repeating mode and not paused.
pub uninterp spec fn timer_runs(timer: Timer) -> bool;

/// What a running timer has counted after `delta` more nanoseconds: the sum
/// while it stays below the period, else the remainder of the sum by the
/// period (zero for a period of zero).
pub open spec fn elapsed_after(elapsed: nat, period: nat, delta: nat) -> nat {
    let total = elapsed + delta;
    if total < period {
        total
    } else if period == 0 {
        0
    } else {
        total % period
    }
}

/// Whether a running timer reports that it has just finished after `delta`
/// more nanoseconds. It counts the periods completed in a 32-bit number, so
/// an exact multiple of 2^32 periods in one step reads as none.
pub open spec fn fires(elapsed: nat, period: nat, delta: nat) -> bool {
    let total = elapsed + delta;
    total >= period && (period == 0 || (total / period) % 0x1_0000_0000 != 0)
}

/// `Timer::new` with a duration of `period_nanos` nanoseconds and
/// `TimerMode::Repeating`: a fresh timer has counted nothing, keeps the
/// duration it was given, and is not paused.
#[verifier::external_body]
pub(crate) fn repeating_timer(period_nanos: u64) -> (timer: Timer)
    ensures
        timer_elapsed(timer) == 0,
        timer_period(timer) == period_nanos,
        timer_runs(timer),
{
    Timer::new(core::time::Duration::from_nanos(period_nanos), bevy::time::TimerMode::Repeating)
}

/// `Timer::tick` followed by `Timer::just_finished`, for a running timer
/// whose count and duration both fit in 64 bits of nanoseconds (so that the
/// addition inside cannot overflow). The timer adds `delta_nanos` to its
/// count, wraps the count round the duration, and keeps its mode, its
/// duration and its pause flag.
#[verifier::external_body]
pub(crate) fn tick_timer(timer: &mut Timer, delta_nanos: u64) -> (fired: bool)
    requires
        timer_runs(*old(timer)),
        timer_elapsed(*old(timer)) <= u64::MAX,
        timer_period(*old(timer)) <= u64::MAX,
    ensures
        timer_runs(*final(timer)),
        timer_period(*final(timer)) == timer_period(*old(timer)),
        timer_elapsed(*final(timer)) == elapsed_after(
            timer_elapsed(*old(timer)),
            timer_period(*old(timer)),
            delta_nanos as nat,
        ),
        fired == fires(timer_elapsed(*old(timer)), timer_period(*old(timer)), delta_nanos as nat),
{
    timer.tick(core::time::Duration::from_nanos(delta_nanos)).just_finished()
}

} // verus!
