//! Stick axis normalisation and centre calibration of the remote.

use vstd::prelude::*;
use vstd::arithmetic::div_mod::lemma_div_is_ordered;

verus! {

/// Deflection of the stick, each axis in `-100..=100`.
#[derive(Debug, Clone, Copy, PartialEq, Eq, Structural)]
pub struct RemoteCommand {
    pub x: i8,
    pub y: i8,
}

/// Largest raw value the 8-bit converter delivers.
pub const ADC_FULL_SCALE: i32 = 255;
/// Deflections whose distance from the centre is below this read as zero.
pub const AXIS_DEADZONE: i32 = 5;
/// Centre assumed before any calibration (middle of `0..=255`).
pub const DEFAULT_ZERO: u16 = 127;
/// Number of samples averaged by a calibration.
pub const CALIBRATION_SAMPLES: usize = 32;

/// `value` limited to `-100..=100`.
pub open spec fn clamp_percent(value: int) -> int {
    if value < -100 {
        -100
    } else if value > 100 {
        100
    } else {
        value
    }
}

/// Quotient of `a` by `b` rounded towards zero, as integer division on `i32` does.
pub open spec fn trunc_div(a: int, b: int) -> int
    recommends
        b != 0,
{
    let q = abs(a) / abs(b);
    if (a < 0) == (b < 0) {
        q
    } else {
        -q
    }
}

pub open spec fn abs(a: int) -> int {
    if a < 0 {
        -a
    } else {
        a
    }
}

/// Normalised axis value of a raw reading `raw` against the centre `zero`:
/// zero inside the dead zone, else the deflection scaled to the travel
/// available on that side and clamped to `-100..=100`.
pub open spec fn axis_value(raw: int, zero: int) -> int {
    let delta = raw - zero;
    if abs(delta) < AXIS_DEADZONE {
        0
    } else {
        let range = if delta > 0 {
            ADC_FULL_SCALE - zero
        } else {
            zero
        };
        if range == 0 {
            0
        } else {
            clamp_percent(trunc_div(delta * 100, range))
        }
    }
}

/// Sum of the first components of `samples`.
pub open spec fn sum_x(samples: Seq<(u16, u16)>) -> nat
    decreases samples.len(),
{
    if samples.len() == 0 {
        0
    } else {
        sum_x(samples.drop_last()) + samples.last().0 as nat
    }
}

/// Sum of the second components of `samples`.
pub open spec fn sum_y(samples: Seq<(u16, u16)>) -> nat
    decreases samples.len(),
{
    if samples.len() == 0 {
        0
    } else {
        sum_y(samples.drop_last()) + samples.last().1 as nat
    }
}

/// A two-axis stick with its calibrated centre.
pub struct Joystick {
    zero_x: u16,
    zero_y: u16,
}

impl Joystick {
    /// The calibrated centre `(x, y)`.
    pub closed spec fn zero(&self) -> (u16, u16) {
        (self.zero_x, self.zero_y)
    }

    /// A stick whose centre is assumed to be the middle of the range.
    pub fn new() -> (js: Joystick)
        ensures
            js.zero() == (DEFAULT_ZERO, DEFAULT_ZERO),
    {
        Joystick { zero_x: DEFAULT_ZERO, zero_y: DEFAULT_ZERO }
    }

    /// The calibrated centre `(x, y)`.
    pub fn zero_point(&self) -> (z: (u16, u16))
        ensures
            z == self.zero(),
    {
        (self.zero_x, self.zero_y)
    }

    /// Normalises one raw axis reading against the centre `zero`.
    pub fn process_axis(&self, raw: u16, zero: u16) -> (v: i8)
        ensures
            v == axis_value(raw as int, zero as int),
    {
        let delta: i32 = raw as i32 - zero as i32;
        if -AXIS_DEADZONE < delta && delta < AXIS_DEADZONE {
            return 0;
        }
        let max_range: i32 = if delta > 0 {
            ADC_FULL_SCALE - zero as i32
        } else {
            zero as i32
        };
        if max_range == 0 {
            return 0;
        }
        let scaled: i32 = delta * 100;
        let num: u32 = if scaled < 0 {
            (-scaled) as u32
        } else {
            scaled as u32
        };
        let den: u32 = if max_range < 0 {
            (-max_range) as u32
        } else {
            max_range as u32
        };
        let q: u32 = num / den;
        let limited: i8 = if q > 100 {
            100
        } else {
            q as i8
        };
        if (scaled < 0) == (max_range < 0) {
            limited
        } else {
            -limited
        }
    }

    /// Turns a raw reading of both axes into a stick command.
    pub fn read(&self, raw_x: u16, raw_y: u16) -> (cmd: RemoteCommand)
        ensures
            cmd.x == axis_value(raw_x as int, self.zero().0 as int),
            cmd.y == axis_value(raw_y as int, self.zero().1 as int),
    {
        RemoteCommand {
            x: self.process_axis(raw_x, self.zero_x),
            y: self.process_axis(raw_y, self.zero_y),
        }
    }

    /// Takes the centre as the mean, rounded down, of the samples read while
    /// the stick rests.
    pub fn calibrate(&mut self, samples: &[(u16, u16)])
        requires
            samples@.len() == CALIBRATION_SAMPLES,
        ensures
            final(self).zero().0 == sum_x(samples@) / (CALIBRATION_SAMPLES as nat),
            final(self).zero().1 == sum_y(samples@) / (CALIBRATION_SAMPLES as nat),
    {
        let mut sx: u32 = 0;
        let mut sy: u32 = 0;
        let n: usize = samples.len();
        let mut i: usize = 0;
        while i < n
            invariant
                n == samples@.len(),
                n == CALIBRATION_SAMPLES,
                i <= n,
                sx == sum_x(samples@.take(i as int)),
                sy == sum_y(samples@.take(i as int)),
                sx <= i * 65535,
                sy <= i * 65535,
            decreases n - i,
        {
            let (rx, ry) = samples[i];
            proof {
                assert(samples@.take(i + 1).drop_last() =~= samples@.take(i as int));
            }
            sx = sx + rx as u32;
            sy = sy + ry as u32;
            i = i + 1;
        }
        proof {
            assert(samples@.take(n as int) =~= samples@);
            assert(sx / 32 <= 65535) by (nonlinear_arith)
                requires
                    sx <= 32 * 65535,
            ;
            assert(sy / 32 <= 65535) by (nonlinear_arith)
                requires
                    sy <= 32 * 65535,
            ;
        }
        self.zero_x = (sx / 32) as u16;
        self.zero_y = (sy / 32) as u16;
    }
}

/// Every normalised value lies in `-100..=100`, and a reading at the centre
/// gives zero.
pub proof fn lemma_axis_value_bounded(raw: int, zero: int)
    ensures
        -100 <= axis_value(raw, zero) <= 100,
        axis_value(zero, zero) == 0,
{
}

/// A reading within the dead zone around the centre gives zero.
pub proof fn lemma_axis_deadzone(raw: int, zero: int)
    requires
        abs(raw - zero) < AXIS_DEADZONE,
    ensures
        axis_value(raw, zero) == 0,
{
}

/// With the centre inside the converter's range, pushing the stick to either
/// end of that range gives full deflection on that side.
pub proof fn lemma_axis_full_deflection(zero: int)
    requires
        0 <= zero <= ADC_FULL_SCALE,
    ensures
        zero + AXIS_DEADZONE <= ADC_FULL_SCALE ==> axis_value(ADC_FULL_SCALE as int, zero) == 100,
        zero >= AXIS_DEADZONE ==> axis_value(0, zero) == -100,
{
    if zero + AXIS_DEADZONE <= ADC_FULL_SCALE {
        let r = ADC_FULL_SCALE - zero;
        assert((r * 100) / r == 100) by (nonlinear_arith)
            requires
                r > 0,
        ;
    }
    if zero >= AXIS_DEADZONE {
        assert((zero * 100) / zero == 100) by (nonlinear_arith)
            requires
                zero > 0,
        ;
    }
}

/// With the centre inside the converter's range, the normalised value never
/// decreases as the raw reading grows, and it has the sign of the deflection.
pub proof fn lemma_axis_monotonic(raw1: int, raw2: int, zero: int)
    requires
        0 <= zero <= ADC_FULL_SCALE,
        0 <= raw1 <= raw2 <= ADC_FULL_SCALE,
    ensures
        axis_value(raw1, zero) <= axis_value(raw2, zero),
        raw1 >= zero ==> axis_value(raw1, zero) >= 0,
        raw1 <= zero ==> axis_value(raw1, zero) <= 0,
{
    let d1 = raw1 - zero;
    let d2 = raw2 - zero;
    if d1 > 0 && d2 > 0 {
        let r = ADC_FULL_SCALE - zero;
        if r > 0 {
            lemma_div_is_ordered(d1 * 100, d2 * 100, r);
        }
    }
    if d1 < 0 && d2 < 0 {
        if zero > 0 {
            lemma_div_is_ordered(-d2 * 100, -d1 * 100, zero);
        }
    }
    if d1 < 0 && zero > 0 {
        assert((-d1 * 100) / zero >= 0) by (nonlinear_arith)
            requires
                -d1 > 0,
                zero > 0,
        ;
    }
    if d2 > 0 && ADC_FULL_SCALE - zero > 0 {
        let r = ADC_FULL_SCALE - zero;
        assert((d2 * 100) / r >= 0) by (nonlinear_arith)
            requires
                d2 > 0,
                r > 0,
        ;
    }
    if d1 > 0 && ADC_FULL_SCALE - zero > 0 {
        let r = ADC_FULL_SCALE - zero;
        assert((d1 * 100) / r >= 0) by (nonlinear_arith)
            requires
                d1 > 0,
                r > 0,
        ;
    }
    if d2 < 0 && zero > 0 {
        assert((-d2 * 100) / zero >= 0) by (nonlinear_arith)
            requires
                -d2 > 0,
                zero > 0,
        ;
    }
}

proof fn lemma_sum_constant(samples: Seq<(u16, u16)>, rest: (u16, u16))
    requires
        forall|i: int| 0 <= i < samples.len() ==> samples[i] == rest,
    ensures
        sum_x(samples) == samples.len() * rest.0,
        sum_y(samples) == samples.len() * rest.1,
    decreases samples.len(),
{
    if samples.len() > 0 {
        let prev = samples.drop_last();
        assert forall|i: int| 0 <= i < prev.len() implies prev[i] == rest by {
            assert(prev[i] == samples[i]);
        }
        lemma_sum_constant(prev, rest);
        assert(samples.last() == rest);
        assert(sum_x(samples) == prev.len() * rest.0 + rest.0);
        assert(prev.len() * rest.0 + rest.0 == samples.len() * rest.0) by (nonlinear_arith)
            requires
                samples.len() == prev.len() + 1,
        ;
        assert(prev.len() * rest.1 + rest.1 == samples.len() * rest.1) by (nonlinear_arith)
            requires
                samples.len() == prev.len() + 1,
        ;
    }
}

/// Calibrating on samples that all show the same resting position makes
/// that position the centre, so the resting stick then reads zero.
pub proof fn lemma_calibration_centres_rest(samples: Seq<(u16, u16)>, rest: (u16, u16))
    requires
        samples.len() == CALIBRATION_SAMPLES,
        forall|i: int| 0 <= i < samples.len() ==> samples[i] == rest,
    ensures
        sum_x(samples) / (CALIBRATION_SAMPLES as nat) == rest.0,
        sum_y(samples) / (CALIBRATION_SAMPLES as nat) == rest.1,
        axis_value(rest.0 as int, (sum_x(samples) / (CALIBRATION_SAMPLES as nat)) as int) == 0,
        axis_value(rest.1 as int, (sum_y(samples) / (CALIBRATION_SAMPLES as nat)) as int) == 0,
{
    lemma_sum_constant(samples, rest);
    assert((32 * rest.0 as nat) / 32 == rest.0 as nat) by (nonlinear_arith);
    assert((32 * rest.1 as nat) / 32 == rest.1 as nat) by (nonlinear_arith);
}

proof fn lemma_sum_bounds(samples: Seq<(u16, u16)>, lo_x: int, hi_x: int, lo_y: int, hi_y: int)
    requires
        forall|i: int| 0 <= i < samples.len() ==> lo_x <= #[trigger] samples[i].0 <= hi_x && lo_y <= samples[i].1 <= hi_y,
    ensures
        samples.len() * lo_x <= sum_x(samples) <= samples.len() * hi_x,
        samples.len() * lo_y <= sum_y(samples) <= samples.len() * hi_y,
    decreases samples.len(),
{
    if samples.len() > 0 {
        let prev = samples.drop_last();
        assert forall|i: int| 0 <= i < prev.len() implies lo_x <= #[trigger] prev[i].0 <= hi_x && lo_y
            <= prev[i].1 <= hi_y by {
            assert(prev[i] == samples[i]);
        }
        lemma_sum_bounds(prev, lo_x, hi_x, lo_y, hi_y);
        let last = samples[samples.len() - 1];
        assert(lo_x <= last.0 <= hi_x && lo_y <= last.1 <= hi_y);
        let n = prev.len() as int;
        assert(n * lo_x + lo_x == (n + 1) * lo_x && n * hi_x + hi_x == (n + 1) * hi_x) by (nonlinear_arith);
        assert(n * lo_y + lo_y == (n + 1) * lo_y && n * hi_y + hi_y == (n + 1) * hi_y) by (nonlinear_arith);
    }
}

/// The centre that a calibration sets lies between the smallest and the
/// largest sample on each axis; so with every sample in the converter's
/// 8-bit range `0..=255`, the centre stays in that range too.
pub proof fn lemma_calibration_within_samples(
    samples: Seq<(u16, u16)>,
    lo_x: int,
    hi_x: int,
    lo_y: int,
    hi_y: int,
)
    requires
        samples.len() == CALIBRATION_SAMPLES,
        forall|i: int| 0 <= i < samples.len() ==> lo_x <= #[trigger] samples[i].0 <= hi_x && lo_y <= samples[i].1 <= hi_y,
    ensures
        lo_x <= sum_x(samples) / (CALIBRATION_SAMPLES as nat) <= hi_x,
        lo_y <= sum_y(samples) / (CALIBRATION_SAMPLES as nat) <= hi_y,
{
    lemma_sum_bounds(samples, lo_x, hi_x, lo_y, hi_y);
    let sx = sum_x(samples) as int;
    let sy = sum_y(samples) as int;
    assert(lo_x <= sx / 32 <= hi_x) by (nonlinear_arith)
        requires
            32 * lo_x <= sx <= 32 * hi_x,
    ;
    assert(lo_y <= sy / 32 <= hi_y) by (nonlinear_arith)
        requires
            32 * lo_y <= sy <= 32 * hi_y,
    ;
}

} // verus!
