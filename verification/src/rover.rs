//! Decisions of the rover's tasks: what to do with each packet received in
//! a burst, and which drive command follows a stick update or its absence.

use vstd::prelude::*;
use crate::drive::{RoverDrive, DriveDuty, fwd_duty, rev_duty, arcade_speeds, clamp_speed, safe_max_of, lemma_duties_bounded, lemma_safe_max_bounded, Side};
use crate::package::{JoystickCoords, JoystickCommand, RadioPackage, ReadError};

verus! {

/// Time the motors keep following the last stick position, in milliseconds;
/// without a fresh one in that time the rover stops.
pub const MOTOR_UPDATE_TIMEOUT_MS: u64 = 100;

/// What the receiving task does with the result of one read.
#[derive(Debug, Clone, Copy, PartialEq, Eq)]
pub enum DrainAction {
    /// Hand the stick position to the motor task.
    Publish(JoystickCoords),
    /// Queue the command for the hardware task.
    Forward(JoystickCommand),
    /// Stop reading: clear the interrupts and rest until the next poll.
    EndBurst,
}

/// The action for the result `read` of one read.
pub open spec fn drain_action(read: Result<Option<RadioPackage>, ReadError>) -> DrainAction {
    match read {
        Ok(Some(RadioPackage::Coords(c))) => DrainAction::Publish(c),
        Ok(Some(RadioPackage::Command(cmd))) => DrainAction::Forward(cmd),
        _ => DrainAction::EndBurst,
    }
}

/// The receiving task keeps reading while packets come in, routing each by
/// its kind, and ends the burst on the first read that gives no packet.
pub fn drain_step(read: Result<Option<RadioPackage>, ReadError>) -> (a: DrainAction)
    ensures
        a == drain_action(read),
{
    match read {
        Ok(Some(RadioPackage::Coords(c))) => DrainAction::Publish(c),
        Ok(Some(RadioPackage::Command(cmd))) => DrainAction::Forward(cmd),
        _ => DrainAction::EndBurst,
    }
}

/// The forward and turn command the motors follow: the fresh stick position,
/// or standstill when none came in time.
pub open spec fn motor_target(update: Option<JoystickCoords>) -> (int, int) {
    match update {
        Some(c) => (c.x as int, c.y as int),
        None => (0, 0),
    }
}

/// Duty cycles for the motors after waiting for a stick update: the update
/// (`x` forward, `y` turn) when it came, a stop when it timed out.
pub fn motor_duty(drive: &RoverDrive, update: Option<JoystickCoords>) -> (d: DriveDuty)
    ensures
        d.left.side == Side::Left,
        d.right.side == Side::Right,
        d.left.fwd == fwd_duty(drive.max() as int, safe_max_of(drive.max() as int), arcade_speeds(motor_target(update).0, motor_target(update).1).0),
        d.left.rev == rev_duty(drive.max() as int, safe_max_of(drive.max() as int), arcade_speeds(motor_target(update).0, motor_target(update).1).0),
        d.right.fwd == fwd_duty(drive.max() as int, safe_max_of(drive.max() as int), arcade_speeds(motor_target(update).0, motor_target(update).1).1),
        d.right.rev == rev_duty(drive.max() as int, safe_max_of(drive.max() as int), arcade_speeds(motor_target(update).0, motor_target(update).1).1),
        update matches Some(c) ==> d.left.fwd == fwd_duty(drive.max() as int, safe_max_of(drive.max() as int), arcade_speeds(c.x as int, c.y as int).0)
            && d.left.rev == rev_duty(drive.max() as int, safe_max_of(drive.max() as int), arcade_speeds(c.x as int, c.y as int).0)
            && d.right.fwd == fwd_duty(drive.max() as int, safe_max_of(drive.max() as int), arcade_speeds(c.x as int, c.y as int).1)
            && d.right.rev == rev_duty(drive.max() as int, safe_max_of(drive.max() as int), arcade_speeds(c.x as int, c.y as int).1),
{
    match update {
        Some(c) => drive.arcade_drive(c.x, c.y),
        None => drive.arcade_drive(0, 0),
    }
}

/// When no stick update comes in time, every motor channel is held at full
/// duty: both sides brake and the rover stands still.
pub proof fn lemma_timeout_stops(max: int)
    requires
        0 <= max,
    ensures
        fwd_duty(max, safe_max_of(max), arcade_speeds(motor_target(None).0, motor_target(None).1).0) == max,
        rev_duty(max, safe_max_of(max), arcade_speeds(motor_target(None).0, motor_target(None).1).0) == max,
        fwd_duty(max, safe_max_of(max), arcade_speeds(motor_target(None).0, motor_target(None).1).1) == max,
        rev_duty(max, safe_max_of(max), arcade_speeds(motor_target(None).0, motor_target(None).1).1) == max,
{
    lemma_safe_max_bounded(max);
    lemma_duties_bounded(max, safe_max_of(max), 0);
}

/// A stick update is followed as it came: its `x` is the forward command and
/// its `y` the turn command, so a sideways push alone spins the rover in place.
pub proof fn lemma_update_followed(c: JoystickCoords)
    ensures
        motor_target(Some(c)) == (c.x as int, c.y as int),
        c.x == 0 ==> arcade_speeds(motor_target(Some(c)).0, motor_target(Some(c)).1) == (
            clamp_speed(c.y as int),
            -clamp_speed(c.y as int),
        ),
{
}

/// Every packet read in a burst is handed on by its kind, and the burst
/// ends exactly on the first read that gives no packet.
pub proof fn lemma_drain_routes(read: Result<Option<RadioPackage>, ReadError>)
    ensures
        (drain_action(read) == DrainAction::EndBurst) <==> !(read matches Ok(Some(_))),
        read matches Ok(Some(RadioPackage::Coords(c))) ==> drain_action(read) == DrainAction::Publish(c),
{
}

} // verus!
