//! Decisions of the remote's control loop and the text of its status screen.

use vstd::prelude::*;
use crate::package::{JoystickCoords, RadioPackage};

verus! {

/// Pause of the status screen between two refreshes, in milliseconds.
pub const DISPLAY_REFRESH_MS: u64 = 100;
/// Column where both screen lines start, in pixels.
pub const TEXT_COLUMN: i32 = 10;
/// Baseline of the stick position line, in pixels.
pub const COORDS_ROW: i32 = 20;
/// Baseline of the transmission status line, in pixels.
pub const STATUS_ROW: i32 = 40;
/// Capacity, in bytes, of the buffer the stick position line is written to.
pub const TEXT_CAPACITY: usize = 32;

#[verifier::external_type_specification]
#[verifier::external_body]
pub struct ExHeaplessString<const N: usize>(heapless::String<N>);

/// The characters held by a text buffer.
pub uninterp spec fn text_chars(s: heapless::String<32>) -> Seq<char>;

/// Every character of `s` is ASCII, so each takes one byte of the buffer.
pub open spec fn all_ascii(s: Seq<char>) -> bool {
    forall|i: int| 0 <= i < s.len() ==> (#[trigger] s[i] as u32) < 128
}

/// `heapless::String::clear`: afterwards the buffer holds no characters.
#[verifier::external_body]
fn text_clear(s: &mut heapless::String<32>)
    ensures
        text_chars(*final(s)) == Seq::<char>::empty(),
{
    s.clear();
}

/// `heapless::String::push`: appends `c` when its bytes fit in the capacity
/// and reports `Err` leaving the buffer unchanged otherwise. Of an ASCII
/// character appended to ASCII text, it fits exactly when fewer than the
/// capacity's characters are held.
#[verifier::external_body]
fn text_push(s: &mut heapless::String<32>, c: char) -> (r: Result<(), ()>)
    ensures
        r is Ok ==> text_chars(*final(s)) == text_chars(*old(s)).push(c),
        r is Err ==> text_chars(*final(s)) == text_chars(*old(s)),
        ((c as u32) < 128 && all_ascii(text_chars(*old(s)))) ==> (r is Ok <==> text_chars(*old(s)).len() < 32),
{
    s.push(c)
}

/// What the status screen shows.
#[derive(Debug, Clone, Copy, PartialEq, Eq, Structural)]
pub struct DisplayState {
    pub tx_status: bool,
    pub joy_x: i8,
    pub joy_y: i8,
}

/// The decimal digit `d` (`0..=9`).
pub open spec fn digit(d: int) -> char {
    if d == 0 {
        '0'
    } else if d == 1 {
        '1'
    } else if d == 2 {
        '2'
    } else if d == 3 {
        '3'
    } else if d == 4 {
        '4'
    } else if d == 5 {
        '5'
    } else if d == 6 {
        '6'
    } else if d == 7 {
        '7'
    } else if d == 8 {
        '8'
    } else {
        '9'
    }
}

/// Decimal digits of `n`, most significant first, without leading zeros.
pub open spec fn decimal(n: nat) -> Seq<char>
    decreases n,
{
    if n < 10 {
        seq![digit(n as int)]
    } else {
        decimal(n / 10).push(digit((n % 10) as int))
    }
}

/// `v` in decimal, with a leading `-` when negative.
pub open spec fn signed_decimal(v: int) -> Seq<char> {
    if v < 0 {
        seq!['-'] + decimal((-v) as nat)
    } else {
        decimal(v as nat)
    }
}

/// The stick position line: both axes in decimal, separated by ` : `.
pub open spec fn coords_text(x: int, y: int) -> Seq<char> {
    signed_decimal(x) + seq![' ', ':', ' '] + signed_decimal(y)
}

/// Whether the remote transmits after reading the stick: only when it is
/// deflected on some axis.
pub open spec fn transmits(x: int, y: int) -> bool {
    x != 0 || y != 0
}

/// The packet that the remote sends for the stick position `(x, y)` after
/// shaping, or none when the stick rests at the centre.
pub fn outgoing_package(x: i8, y: i8) -> (p: Option<RadioPackage>)
    ensures
        transmits(x as int, y as int) <==> p is Some,
        p is None <==> (x == 0 && y == 0),
        p is Some ==> p == Some(RadioPackage::Coords(JoystickCoords { x, y })),
{
    if x != 0 || y != 0 {
        Some(RadioPackage::Coords(JoystickCoords { x, y }))
    } else {
        None
    }
}

fn digit_char(d: u8) -> (c: char)
    requires
        d < 10,
    ensures
        c == digit(d as int),
        c as u32 == 48 + d,
        (c as u32) < 128,
{
    match d {
        0 => '0',
        1 => '1',
        2 => '2',
        3 => '3',
        4 => '4',
        5 => '5',
        6 => '6',
        7 => '7',
        8 => '8',
        _ => '9',
    }
}

fn push_ascii(buf: &mut heapless::String<32>, c: char)
    requires
        (c as u32) < 128,
        all_ascii(text_chars(*old(buf))),
        text_chars(*old(buf)).len() < 32,
    ensures
        text_chars(*final(buf)) == text_chars(*old(buf)).push(c),
        all_ascii(text_chars(*final(buf))),
{
    let _pushed = text_push(buf, c);
    proof {
        let s = text_chars(*buf);
        assert forall|i: int| 0 <= i < s.len() implies (#[trigger] s[i] as u32) < 128 by {
            if i < s.len() - 1 {
                assert(s[i] == text_chars(*old(buf))[i]);
            }
        }
    }
}

proof fn lemma_decimal_small(n: nat)
    requires
        n < 1000,
    ensures
        n < 10 ==> decimal(n) == seq![digit(n as int)],
        10 <= n < 100 ==> decimal(n) == seq![digit((n / 10) as int), digit((n % 10) as int)],
        100 <= n ==> decimal(n) == seq![
            digit((n / 100) as int),
            digit(((n / 10) % 10) as int),
            digit((n % 10) as int),
        ],
{
    if n >= 10 {
        assert(decimal((n / 10) as nat) == (if n / 10 < 10 {
            seq![digit((n / 10) as int)]
        } else {
            decimal((n / 100) as nat).push(digit(((n / 10) % 10) as int))
        }));
        if n >= 100 {
            assert((n / 10) / 10 == n / 100);
            assert(decimal((n / 100) as nat) == seq![digit((n / 100) as int)]);
        }
    }
}

/// Appends `v` in decimal to the buffer.
fn push_signed_decimal(buf: &mut heapless::String<32>, v: i8)
    requires
        all_ascii(text_chars(*old(buf))),
        text_chars(*old(buf)).len() <= 20,
    ensures
        text_chars(*final(buf)) == text_chars(*old(buf)) + signed_decimal(v as int),
        all_ascii(text_chars(*final(buf))),
        text_chars(*final(buf)).len() <= text_chars(*old(buf)).len() + 4,
{
    let ghost start = text_chars(*buf);
    let n: u8 = if v < 0 {
        push_ascii(buf, '-');
        (-(v as i16)) as u8
    } else {
        v as u8
    };
    let ghost after_sign = text_chars(*buf);
    proof {
        lemma_decimal_small(n as nat);
    }
    if n >= 100 {
        push_ascii(buf, digit_char(n / 100));
    }
    if n >= 10 {
        push_ascii(buf, digit_char((n / 10) % 10));
    }
    push_ascii(buf, digit_char(n % 10));
    proof {
        let d = decimal(n as nat);
        if n >= 100 {
            assert(text_chars(*buf) =~= after_sign + d);
        } else if n >= 10 {
            assert(n / 10 < 10);
            assert((n / 10) % 10 == n / 10);
            assert(text_chars(*buf) =~= after_sign + d);
        } else {
            assert(text_chars(*buf) =~= after_sign + d);
        }
        if v < 0 {
            assert(after_sign == start.push('-'));
            assert(text_chars(*buf) =~= start + signed_decimal(v as int));
        } else {
            assert(text_chars(*buf) =~= start + signed_decimal(v as int));
        }
    }
}

impl DisplayState {
    /// Writes the stick position line into `buf`, replacing what it held.
    pub fn write_coords(&self, buf: &mut heapless::String<32>)
        ensures
            text_chars(*final(buf)) == coords_text(self.joy_x as int, self.joy_y as int),
            text_chars(*final(buf)).len() <= 11,
    {
        text_clear(buf);
        push_signed_decimal(buf, self.joy_x);
        let ghost first = text_chars(*buf);
        push_ascii(buf, ' ');
        push_ascii(buf, ':');
        push_ascii(buf, ' ');
        let ghost sep = text_chars(*buf);
        assert(sep =~= first + seq![' ', ':', ' ']);
        push_signed_decimal(buf, self.joy_y);
        assert(text_chars(*buf) =~= coords_text(self.joy_x as int, self.joy_y as int));
    }

    /// The transmission status line: `OK` after an acknowledged packet,
    /// `ERROR` otherwise.
    pub fn status_text(&self) -> (t: &'static str)
        ensures
            t@ == (if self.tx_status {
                "OK"@
            } else {
                "ERROR"@
            }),
    {
        if self.tx_status {
            "OK"
        } else {
            "ERROR"
        }
    }
}

/// The number that a string of decimal digits denotes.
pub open spec fn digits_value(s: Seq<char>) -> int
    decreases s.len(),
{
    if s.len() == 0 {
        0
    } else {
        10 * digits_value(s.drop_last()) + (s.last() as u32 - 48)
    }
}

/// A digit is the ASCII character `'0' + d`.
pub proof fn lemma_digit_ascii(d: int)
    requires
        0 <= d <= 9,
    ensures
        digit(d) as u32 == 48 + d,
{
}

/// The decimal digits of `n` are ASCII digits without a leading zero, and
/// read back they give `n`.
pub proof fn lemma_decimal_reads_back(n: nat)
    ensures
        digits_value(decimal(n)) == n,
        decimal(n).len() >= 1,
        forall|i: int| 0 <= i < decimal(n).len() ==> 48 <= (#[trigger] decimal(n)[i] as u32) <= 57,
        n >= 10 ==> decimal(n)[0] != '0',
    decreases n,
{
    if n < 10 {
        lemma_digit_ascii(n as int);
        assert(decimal(n).drop_last() =~= Seq::<char>::empty());
        assert(digits_value(Seq::<char>::empty()) == 0);
        assert(decimal(n).last() == digit(n as int));
    } else {
        lemma_decimal_reads_back(n / 10);
        lemma_digit_ascii((n % 10) as int);
        let d = decimal(n);
        assert(d.drop_last() =~= decimal(n / 10));
        assert(d.last() == digit((n % 10) as int));
        assert(digits_value(d) == 10 * digits_value(decimal(n / 10)) + (d.last() as u32 - 48));
        assert(n == 10 * (n / 10) + n % 10);
        assert(d[0] == decimal(n / 10)[0]);
        assert forall|i: int| 0 <= i < d.len() implies 48 <= (#[trigger] d[i] as u32) <= 57 by {
            if i < d.len() - 1 {
                assert(d[i] == decimal(n / 10)[i]);
            }
        }
    }
}

/// The signed form of `v` starts with `-` exactly when `v` is negative, and
/// the digits after the sign read back as the magnitude of `v`.
pub proof fn lemma_signed_decimal_reads_back(v: int)
    ensures
        signed_decimal(v).len() >= 1,
        (signed_decimal(v)[0] == '-') <==> v < 0,
        v < 0 ==> digits_value(signed_decimal(v).drop_first()) == -v,
        v >= 0 ==> digits_value(signed_decimal(v)) == v,
{
    if v < 0 {
        lemma_decimal_reads_back((-v) as nat);
        assert(signed_decimal(v).drop_first() =~= decimal((-v) as nat));
    } else {
        lemma_decimal_reads_back(v as nat);
        assert(48 <= (decimal(v as nat)[0] as u32) <= 57);
    }
}

/// The remote transmits exactly when the stick is off centre on some axis.
pub proof fn lemma_transmits_off_centre(x: int, y: int)
    ensures
        transmits(x, y) <==> !(x == 0 && y == 0),
{
}

} // verus!
