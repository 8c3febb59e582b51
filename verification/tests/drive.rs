use rover_control::drive::{DriveDuty, RoverDrive, Side, SideDuty};

#[test]
fn safe_ceiling_is_eighty_percent() {
    let d = RoverDrive::new(1000);
    assert_eq!(d.max_duty(), 1000);
    // full speed lowers the braking channel by 800
    assert_eq!(d.set_speed(Side::Left, 100), SideDuty { side: Side::Left, fwd: 1000, rev: 200 });
    let d = RoverDrive::new(65535);
    assert_eq!(d.set_speed(Side::Right, 100), SideDuty { side: Side::Right, fwd: 65535, rev: 13107 });
}

#[test]
fn forward_and_reverse_speeds() {
    let d = RoverDrive::new(1000);
    assert_eq!(d.set_speed(Side::Left, 50), SideDuty { side: Side::Left, fwd: 1000, rev: 600 });
    assert_eq!(d.set_speed(Side::Left, -50), SideDuty { side: Side::Left, fwd: 600, rev: 1000 });
}

#[test]
fn zero_speed_brakes() {
    let d = RoverDrive::new(1000);
    assert_eq!(d.set_speed(Side::Right, 0), SideDuty { side: Side::Right, fwd: 1000, rev: 1000 });
}

#[test]
fn speeds_beyond_hundred_saturate() {
    let d = RoverDrive::new(1000);
    assert_eq!(d.set_speed(Side::Left, 127), d.set_speed(Side::Left, 100));
    assert_eq!(d.set_speed(Side::Left, -128), d.set_speed(Side::Left, -100));
    assert_eq!(d.set_speed(Side::Left, -128).fwd, 200);
}

#[test]
fn rounding_of_duty() {
    let d = RoverDrive::new(999);
    // safe ceiling 799; 799 * 33 / 100 = 263
    assert_eq!(d.set_speed(Side::Left, 33).rev, 736);
}

#[test]
fn mirror_and_slow_decay_on_sweep() {
    let d = RoverDrive::new(1000);
    for s in -100i8..=100 {
        let a = d.set_speed(Side::Left, s);
        let b = d.set_speed(Side::Left, -s);
        assert_eq!(a.fwd, b.rev);
        assert_eq!(a.rev, b.fwd);
        assert!(a.fwd == 1000 || a.rev == 1000);
        assert!(a.fwd >= 200 && a.rev >= 200);
    }
}

#[test]
fn arcade_mixing() {
    let d = RoverDrive::new(1000);
    let out = d.arcade_drive(50, 30);
    assert_eq!(
        out,
        DriveDuty {
            left: SideDuty { side: Side::Left, fwd: 1000, rev: 360 },
            right: SideDuty { side: Side::Right, fwd: 1000, rev: 840 },
        }
    );
    let out = d.arcade_drive(100, 100);
    assert_eq!(out.left.rev, 200);
    assert_eq!(out.right, SideDuty { side: Side::Right, fwd: 1000, rev: 1000 });
    let out = d.arcade_drive(-100, 50);
    assert_eq!(out.left, SideDuty { side: Side::Left, fwd: 600, rev: 1000 });
    assert_eq!(out.right, SideDuty { side: Side::Right, fwd: 200, rev: 1000 });
    let out = d.arcade_drive(127, -128);
    assert_eq!(out.left, SideDuty { side: Side::Left, fwd: 1000, rev: 1000 });
    assert_eq!(out.right.rev, 200);
}

#[test]
fn arcade_turn_mirror() {
    let d = RoverDrive::new(1000);
    let a = d.arcade_drive(40, 25);
    let b = d.arcade_drive(40, -25);
    assert_eq!((a.left.fwd, a.left.rev), (b.right.fwd, b.right.rev));
    assert_eq!((a.right.fwd, a.right.rev), (b.left.fwd, b.left.rev));
    let straight = d.arcade_drive(-70, 0);
    assert_eq!((straight.left.fwd, straight.left.rev), (straight.right.fwd, straight.right.rev));
}

#[test]
fn arcade_stop() {
    let d = RoverDrive::new(1000);
    let out = d.arcade_drive(0, 0);
    assert_eq!(out.left, SideDuty { side: Side::Left, fwd: 1000, rev: 1000 });
    assert_eq!(out.right, SideDuty { side: Side::Right, fwd: 1000, rev: 1000 });
}

#[test]
fn zero_full_duty() {
    let d = RoverDrive::new(0);
    assert_eq!(d.set_speed(Side::Left, 100), SideDuty { side: Side::Left, fwd: 0, rev: 0 });
}
