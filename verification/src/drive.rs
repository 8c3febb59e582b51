//! Duty cycles of the rover's two-channel motor driver (one forward and one
//! reverse PWM channel per side, driven in slow-decay mode).

use vstd::prelude::*;
use vstd::arithmetic::div_mod::lemma_div_is_ordered;

verus! {

/// One side of the tracked chassis.
#[derive(Debug, Clone, Copy, PartialEq, Eq, Structural)]
pub enum Side {
    Left,
    Right,
}

/// Share, in percent, of the full duty that a motor may be driven with.
pub const SAFE_DUTY_PERCENT: u32 = 80;
/// Largest speed magnitude a side accepts.
pub const MAX_SPEED: i8 = 100;

/// Duty cycles to put on the forward and reverse channel of one side.
#[derive(Debug, Clone, Copy, PartialEq, Eq, Structural)]
pub struct SideDuty {
    pub side: Side,
    pub fwd: u16,
    pub rev: u16,
}

/// Duty cycles for both sides, left first.
#[derive(Debug, Clone, Copy, PartialEq, Eq, Structural)]
pub struct DriveDuty {
    pub left: SideDuty,
    pub right: SideDuty,
}

/// `speed` limited to `-100..=100`.
pub open spec fn clamp_speed(speed: int) -> int {
    if speed < -100 {
        -100
    } else if speed > 100 {
        100
    } else {
        speed
    }
}

/// Duty held back from full on the braking channel at `speed` (`0..=100`).
pub open spec fn drive_duty(safe_max: int, speed: int) -> int {
    (safe_max * speed) / 100
}

/// Forward channel duty at `speed`: full unless the side runs backwards.
pub open spec fn fwd_duty(max: int, safe_max: int, speed: int) -> int {
    let s = clamp_speed(speed);
    if s < 0 {
        max - drive_duty(safe_max, -s)
    } else {
        max
    }
}

/// Reverse channel duty at `speed`: full unless the side runs forwards.
pub open spec fn rev_duty(max: int, safe_max: int, speed: int) -> int {
    let s = clamp_speed(speed);
    if s > 0 {
        max - drive_duty(safe_max, s)
    } else {
        max
    }
}

/// The safe duty ceiling derived from the channel's full duty.
pub open spec fn safe_max_of(max_duty: int) -> int {
    (max_duty * SAFE_DUTY_PERCENT) / 100
}

/// Speeds of the left and right side for a forward command `mv` and a turn
/// command `rot` (arcade mixing).
pub open spec fn arcade_speeds(mv: int, rot: int) -> (int, int) {
    let m = clamp_speed(mv);
    let r = clamp_speed(rot);
    (clamp_speed(m + r), clamp_speed(m - r))
}

/// Motor driver state: the channels' full duty and the safe ceiling.
pub struct RoverDrive {
    max_duty: u16,
    safe_max_duty: u32,
}

impl RoverDrive {
    #[verifier::type_invariant]
    spec fn inv(self) -> bool {
        self.safe_max_duty == safe_max_of(self.max_duty as int)
    }

    /// Full duty of the PWM channels.
    pub closed spec fn max(&self) -> u16 {
        self.max_duty
    }

    /// A driver for channels whose full duty is `max_duty`.
    pub fn new(max_duty: u16) -> (d: RoverDrive)
        ensures
            d.max() == max_duty,
    {
        let safe_max_duty: u32 = (max_duty as u32 * SAFE_DUTY_PERCENT) / 100;
        RoverDrive { max_duty, safe_max_duty }
    }

    /// Full duty of the PWM channels.
    pub fn max_duty(&self) -> (m: u16)
        ensures
            m == self.max(),
    {
        self.max_duty
    }

    /// Duty cycles that make `side` run at `speed` (clamped to `-100..=100`):
    /// the channel of the direction of travel is held at full duty and the
    /// other one is lowered in proportion to the speed.
    pub fn set_speed(&self, side: Side, speed: i8) -> (d: SideDuty)
        ensures
            d.side == side,
            d.fwd == fwd_duty(self.max() as int, safe_max_of(self.max() as int), speed as int),
            d.rev == rev_duty(self.max() as int, safe_max_of(self.max() as int), speed as int),
    {
        proof {
            use_type_invariant(self);
            lemma_safe_max_bounded(self.max_duty as int);
        }
        let speed: i8 = if speed < -MAX_SPEED {
            -MAX_SPEED
        } else if speed > MAX_SPEED {
            MAX_SPEED
        } else {
            speed
        };
        let max: u32 = self.max_duty as u32;
        if speed > 0 {
            let s: u32 = speed as u32;
            proof {
                lemma_drive_duty_bounded(self.safe_max_duty as int, s as int);
            }
            let duty: u32 = (self.safe_max_duty * s) / 100;
            SideDuty { side, fwd: self.max_duty, rev: (max - duty) as u16 }
        } else if speed < 0 {
            let s: u32 = (-(speed as i32)) as u32;
            proof {
                lemma_drive_duty_bounded(self.safe_max_duty as int, s as int);
            }
            let duty: u32 = (self.safe_max_duty * s) / 100;
            SideDuty { side, fwd: (max - duty) as u16, rev: self.max_duty }
        } else {
            SideDuty { side, fwd: self.max_duty, rev: self.max_duty }
        }
    }

    /// Duty cycles for both sides from a forward command `move_value` and a
    /// turn command `rotate_value` (each clamped to `-100..=100`): the left
    /// side runs at their sum, the right side at their difference, each
    /// clamped again.
    pub fn arcade_drive(&self, move_value: i8, rotate_value: i8) -> (d: DriveDuty)
        ensures
            d.left.side == Side::Left,
            d.right.side == Side::Right,
            d.left.fwd == fwd_duty(self.max() as int, safe_max_of(self.max() as int), arcade_speeds(move_value as int, rotate_value as int).0),
            d.left.rev == rev_duty(self.max() as int, safe_max_of(self.max() as int), arcade_speeds(move_value as int, rotate_value as int).0),
            d.right.fwd == fwd_duty(self.max() as int, safe_max_of(self.max() as int), arcade_speeds(move_value as int, rotate_value as int).1),
            d.right.rev == rev_duty(self.max() as int, safe_max_of(self.max() as int), arcade_speeds(move_value as int, rotate_value as int).1),
    {
        let m: i16 = clamp_i16(move_value as i16);
        let r: i16 = clamp_i16(rotate_value as i16);
        let left: i8 = clamp_i16(m + r) as i8;
        let right: i8 = clamp_i16(m - r) as i8;
        DriveDuty { left: self.set_speed(Side::Left, left), right: self.set_speed(Side::Right, right) }
    }
}

fn clamp_i16(v: i16) -> (c: i16)
    ensures
        c == clamp_speed(v as int),
{
    if v < -100 {
        -100
    } else if v > 100 {
        100
    } else {
        v
    }
}

/// The safe ceiling lies between zero and the full duty.
pub proof fn lemma_safe_max_bounded(max_duty: int)
    requires
        0 <= max_duty,
    ensures
        0 <= safe_max_of(max_duty) <= max_duty,
{
    assert(0 <= (max_duty * 80) / 100 <= max_duty) by (nonlinear_arith)
        requires
            0 <= max_duty,
    ;
}

/// The duty held back never exceeds the safe ceiling, for speeds up to 100.
pub proof fn lemma_drive_duty_bounded(safe_max: int, speed: int)
    requires
        0 <= safe_max,
        0 <= speed <= 100,
    ensures
        0 <= drive_duty(safe_max, speed) <= safe_max,
{
    assert(0 <= (safe_max * speed) / 100 <= safe_max) by (nonlinear_arith)
        requires
            0 <= safe_max,
            0 <= speed <= 100,
    ;
}

/// At any speed both channel duties stay within `max - safe_max ..= max`,
/// and at least one channel is at full duty (slow decay); at speed zero both
/// are at full duty (the side brakes).
pub proof fn lemma_duties_bounded(max: int, safe_max: int, speed: int)
    requires
        0 <= safe_max <= max,
    ensures
        max - safe_max <= fwd_duty(max, safe_max, speed) <= max,
        max - safe_max <= rev_duty(max, safe_max, speed) <= max,
        fwd_duty(max, safe_max, speed) == max || rev_duty(max, safe_max, speed) == max,
        clamp_speed(speed) == 0 ==> fwd_duty(max, safe_max, speed) == max
            && rev_duty(max, safe_max, speed) == max,
{
    let s = clamp_speed(speed);
    if s > 0 {
        lemma_drive_duty_bounded(safe_max, s);
    }
    if s < 0 {
        lemma_drive_duty_bounded(safe_max, -s);
    }
}

/// Reversing the speed swaps the duties of the forward and reverse channel.
pub proof fn lemma_speed_mirror(max: int, safe_max: int, speed: int)
    ensures
        fwd_duty(max, safe_max, -speed) == rev_duty(max, safe_max, speed),
        rev_duty(max, safe_max, -speed) == fwd_duty(max, safe_max, speed),
{
}

/// Speeds beyond 100 in magnitude drive the side exactly as 100 does.
pub proof fn lemma_speed_saturates(max: int, safe_max: int, speed: int)
    requires
        speed >= 100,
    ensures
        fwd_duty(max, safe_max, speed) == fwd_duty(max, safe_max, 100),
        rev_duty(max, safe_max, speed) == rev_duty(max, safe_max, 100),
        fwd_duty(max, safe_max, -speed) == fwd_duty(max, safe_max, -100),
        rev_duty(max, safe_max, -speed) == rev_duty(max, safe_max, -100),
{
}

/// At full forward speed the reverse channel is lowered by the whole safe
/// ceiling.
pub proof fn lemma_full_speed(max: int, safe_max: int)
    ensures
        rev_duty(max, safe_max, 100) == max - safe_max,
        fwd_duty(max, safe_max, -100) == max - safe_max,
{
    assert((safe_max * 100) / 100 == safe_max) by (nonlinear_arith);
}

/// A faster forward speed lowers the reverse channel at least as far.
pub proof fn lemma_speed_monotonic(max: int, safe_max: int, s1: int, s2: int)
    requires
        0 <= safe_max,
        0 <= s1 <= s2,
    ensures
        rev_duty(max, safe_max, s2) <= rev_duty(max, safe_max, s1),
        fwd_duty(max, safe_max, -s2) <= fwd_duty(max, safe_max, -s1),
{
    let c1 = clamp_speed(s1);
    let c2 = clamp_speed(s2);
    assert(safe_max * c1 <= safe_max * c2) by (nonlinear_arith)
        requires
            0 <= safe_max,
            0 <= c1 <= c2,
    ;
    lemma_div_is_ordered(safe_max * c1, safe_max * c2, 100);
    assert(drive_duty(safe_max, 0) == 0);
}

/// Mirroring the turn command swaps the left and right side speeds; without
/// a turn both sides run at the same speed.
pub proof fn lemma_arcade_mirror(mv: int, rot: int)
    ensures
        arcade_speeds(mv, -rot).0 == arcade_speeds(mv, rot).1,
        arcade_speeds(mv, -rot).1 == arcade_speeds(mv, rot).0,
        arcade_speeds(mv, 0).0 == arcade_speeds(mv, 0).1,
        arcade_speeds(mv, 0).0 == clamp_speed(mv),
        arcade_speeds(0, 0) == (0int, 0int),
{
}

/// Arcade mixing adds the turn command to the left side and takes it from
/// the right side: within range the sides run at the sum and the difference
/// of the two commands, and a pure turn spins the sides in opposite
/// directions, the left one forwards for a turn to the right.
pub proof fn lemma_arcade_mixing(mv: int, rot: int)
    ensures
        (-100 <= mv <= 100 && -100 <= rot <= 100 && -100 <= mv + rot <= 100 && -100 <= mv - rot <= 100)
            ==> arcade_speeds(mv, rot).0 + arcade_speeds(mv, rot).1 == 2 * mv && arcade_speeds(mv, rot).0
            - arcade_speeds(mv, rot).1 == 2 * rot,
        arcade_speeds(0, rot).0 == clamp_speed(rot),
        arcade_speeds(0, rot).1 == -clamp_speed(rot),
        -100 <= arcade_speeds(mv, rot).0 <= 100,
        -100 <= arcade_speeds(mv, rot).1 <= 100,
{
}

/// More forward command never slows either side; more turn command never
/// slows the left side and never speeds up the right side.
pub proof fn lemma_arcade_monotonic(mv1: int, mv2: int, rot1: int, rot2: int)
    requires
        mv1 <= mv2,
        rot1 <= rot2,
    ensures
        arcade_speeds(mv1, rot1).0 <= arcade_speeds(mv2, rot2).0,
        arcade_speeds(mv1, rot2).1 <= arcade_speeds(mv2, rot1).1,
{
}

/// The safe ceiling is four fifths of the full duty, rounded down.
pub proof fn lemma_safe_max_ratio(max_duty: int)
    requires
        0 <= max_duty,
    ensures
        5 * safe_max_of(max_duty) <= 4 * max_duty < 5 * safe_max_of(max_duty) + 5,
{
    assert(5 * ((max_duty * 80) / 100) <= 4 * max_duty < 5 * ((max_duty * 80) / 100) + 5) by (nonlinear_arith)
        requires
            0 <= max_duty,
    ;
}

} // verus!
