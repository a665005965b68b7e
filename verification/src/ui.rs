//! Display helpers: the "MM:SS" time label and the integer resampling
//! that fits the waveform envelope to the terminal width.

use vstd::prelude::*;

use vstd::string::StringExecFns;

use crate::SCALE;

verus! {

/// The decimal digit character for `d` in `0..10`.
pub open spec fn digit_char(d: int) -> char {
    if d == 0 {
        '0'
    } else if d == 1 {
        '1'
    } else if d == 2 {
        '2'
    } else if d == 3 {
        '3'
    } else if d == 4 {
        '4'
    } else if d == 5 {
        '5'
    } else if d == 6 {
        '6'
    } else if d == 7 {
        '7'
    } else if d == 8 {
        '8'
    } else {
        '9'
    }
}

/// The decimal digits of `n`, most significant first.
pub open spec fn decimal_digits(n: int) -> Seq<char>
    decreases n,
{
    if n < 10 {
        seq![digit_char(n)]
    } else {
        decimal_digits(n / 10).push(digit_char(n % 10))
    }
}

/// `n` padded with a leading zero to at least two digits.
pub open spec fn two_digits(n: int) -> Seq<char> {
    if n < 10 {
        seq!['0', digit_char(n)]
    } else {
        decimal_digits(n)
    }
}

/// The "MM:SS" text for a duration in whole seconds.
pub open spec fn duration_text(secs: int) -> Seq<char> {
    two_digits(secs / 60) + seq![':'] + two_digits(secs % 60)
}

/// The digit character for a value below ten.
fn digit_str(d: u64) -> (r: &'static str)
    requires
        d < 10,
    ensures
        r@ =~= seq![digit_char(d as int)],
{
    proof {
        reveal_strlit("0");
        reveal_strlit("1");
        reveal_strlit("2");
        reveal_strlit("3");
        reveal_strlit("4");
        reveal_strlit("5");
        reveal_strlit("6");
        reveal_strlit("7");
        reveal_strlit("8");
        reveal_strlit("9");
    }
    if d == 0 {
        "0"
    } else if d == 1 {
        "1"
    } else if d == 2 {
        "2"
    } else if d == 3 {
        "3"
    } else if d == 4 {
        "4"
    } else if d == 5 {
        "5"
    } else if d == 6 {
        "6"
    } else if d == 7 {
        "7"
    } else if d == 8 {
        "8"
    } else {
        "9"
    }
}

/// Append the decimal digits of `n`, most significant first.
fn push_decimal(n: u64, out: &mut String)
    ensures
        final(out)@ =~= old(out)@ + decimal_digits(n as int),
    decreases n,
{
    if n < 10 {
        out.append(digit_str(n));
    } else {
        push_decimal(n / 10, out);
        out.append(digit_str(n % 10));
    }
}

/// The "MM:SS" label for a track position or duration, minutes and
/// seconds each padded to two digits (more digits for very long tracks).
pub fn format_duration(total_secs: u64) -> (r: String)
    ensures
        r@ =~= duration_text(total_secs as int),
{
    let minutes: u64 = total_secs / 60;
    let seconds: u64 = total_secs % 60;
    let mut out = String::new();
    proof {
        reveal_strlit("0");
        reveal_strlit(":");
    }
    if minutes < 10 {
        out.append("0");
        out.append(digit_str(minutes));
    } else {
        push_decimal(minutes, &mut out);
    }
    out.append(":");
    if seconds < 10 {
        out.append("0");
        out.append(digit_str(seconds));
    } else {
        push_decimal(seconds, &mut out);
    }
    out
}

/// What the sparkline shows at column `i` of `width`: the envelope taken
/// directly when it is at least as wide as the display, and stretched by
/// index otherwise, with values rescaled from `SCALE` units to 0..=100.
pub open spec fn display_column(envelope: Seq<u64>, width: int, i: int) -> int {
    if envelope.len() >= width {
        envelope[i] as int * 100 / (SCALE as int)
    } else {
        let idx = i * envelope.len() / width;
        if idx < envelope.len() {
            envelope[idx] as int * 100 / (SCALE as int)
        } else {
            0
        }
    }
}

/// Resample the waveform envelope to the display width, rescaling each
/// value from `SCALE` units to a 0..=100 bar height.
pub fn waveform_display(envelope: &Vec<u64>, width: usize) -> (r: Vec<u64>)
    requires
        width <= 0x1_0000,
        envelope@.len() <= 0x1_0000_0000,
        forall|i: int| 0 <= i < envelope@.len() ==> (#[trigger] envelope@[i]) <= SCALE,
    ensures
        r@.len() == width,
        forall|i: int|
            0 <= i < width ==> (#[trigger] r@[i]) as int == display_column(
                envelope@,
                width as int,
                i,
            ),
{
    let len: usize = envelope.len();
    let mut out: Vec<u64> = Vec::new();
    let mut i: usize = 0;
    while i < width
        invariant
            i <= width,
            width <= 0x1_0000,
            len == envelope@.len(),
            len <= 0x1_0000_0000,
            forall|k: int| 0 <= k < len ==> (#[trigger] envelope@[k]) <= SCALE,
            out@.len() == i,
            forall|k: int|
                0 <= k < i ==> (#[trigger] out@[k]) as int == display_column(
                    envelope@,
                    width as int,
                    k,
                ),
        decreases width - i,
    {
        if len >= width {
            let v: u64 = envelope[i];
            out.push(v * 100 / SCALE);
        } else {
            assert((i as u64) * (len as u64) <= 0x1_0000_0000_0000) by (nonlinear_arith)
                requires
                    i < 0x1_0000,
                    len <= 0x1_0000_0000,
            ;
            let pos64: u64 = (i as u64) * (len as u64);
            let idx64: u64 = pos64 / (width as u64);
            proof {
                assert(idx64 as int == (i as int * len as int) / (width as int));
            }
            if idx64 < len as u64 {
                let v: u64 = envelope[idx64 as usize];
                out.push(v * 100 / SCALE);
            } else {
                out.push(0);
            }
        }
        i = i + 1;
    }
    out
}

} // verus!
