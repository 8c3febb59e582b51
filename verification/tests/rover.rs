use rover_control::drive::{RoverDrive, Side, SideDuty};
use rover_control::package::{JoystickCoords, RadioPackage, ReadError};
use rover_control::rover::{drain_step, motor_duty, DrainAction};

#[test]
fn coords_are_published() {
    let c = JoystickCoords { x: 10, y: 20 };
    assert_eq!(drain_step(Ok(Some(RadioPackage::Coords(c)))), DrainAction::Publish(c));
}

#[test]
fn burst_ends_on_no_packet_or_error() {
    assert_eq!(drain_step(Ok(None)), DrainAction::EndBurst);
    assert_eq!(drain_step(Err(ReadError::Fifo)), DrainAction::EndBurst);
    assert_eq!(drain_step(Err(ReadError::Status)), DrainAction::EndBurst);
}

#[test]
fn motors_follow_update() {
    let d = RoverDrive::new(1000);
    let out = motor_duty(&d, Some(JoystickCoords { x: 50, y: 30 }));
    assert_eq!(out, d.arcade_drive(50, 30));
    assert_eq!(out.left.rev, 360);
}

#[test]
fn motors_stop_on_timeout() {
    let d = RoverDrive::new(1000);
    let out = motor_duty(&d, None);
    assert_eq!(out.left, SideDuty { side: Side::Left, fwd: 1000, rev: 1000 });
    assert_eq!(out.right, SideDuty { side: Side::Right, fwd: 1000, rev: 1000 });
}
