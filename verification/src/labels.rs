//! Labels shown next to proxies: the delay text and the delay grade.
use vstd::prelude::*;
use crate::text::string_from_chars;

verus! {

/// The decimal digit character for `d` (`0 <= d < 10`).
pub open spec fn digit_char(d: int) -> char {
    seq!['0', '1', '2', '3', '4', '5', '6', '7', '8', '9'][d]
}

/// The decimal notation of `n`, without leading zeros.
pub open spec fn decimal(n: nat) -> Seq<char>
    decreases n,
{
    if n < 10 {
        seq![digit_char(n as int)]
    } else {
        decimal(n / 10).push(digit_char((n % 10) as int))
    }
}

/// `s` right-aligned in a field of `width` characters, padded with spaces
/// on the left; `s` itself when it is at least that wide.
pub open spec fn pad_left(s: Seq<char>, width: nat) -> Seq<char> {
    if s.len() < width {
        Seq::new((width - s.len()) as nat, |i: int| ' ') + s
    } else {
        s
    }
}

/// The label of a measured delay: the milliseconds right-aligned in four
/// columns followed by " ms", or "   - ms" when no delay is known.
pub open spec fn delay_text(delay: Option<u32>) -> Seq<char> {
    match delay {
        Some(ms) => pad_left(decimal(ms as nat), 4) + seq![' ', 'm', 's'],
        None => seq![' ', ' ', ' ', '-', ' ', 'm', 's'],
    }
}

fn digit(d: u32) -> (c: char)
    requires
        d < 10,
    ensures
        c == digit_char(d as int),
{
    if d == 0 {
        '0'
    } else if d == 1 {
        '1'
    } else if d == 2 {
        '2'
    } else if d == 3 {
        '3'
    } else if d == 4 {
        '4'
    } else if d == 5 {
        '5'
    } else if d == 6 {
        '6'
    } else if d == 7 {
        '7'
    } else if d == 8 {
        '8'
    } else {
        '9'
    }
}

fn push_decimal(out: &mut Vec<char>, n: u32)
    ensures
        final(out)@ == old(out)@ + decimal(n as nat),
    decreases n,
{
    if n >= 10 {
        push_decimal(out, n / 10);
    }
    out.push(digit(n % 10));
    assert(final(out)@ =~= old(out)@ + decimal(n as nat));
}

/// The text shown for a proxy's last measured delay.
pub fn delay_label(delay: Option<u32>) -> (label: String)
    ensures
        label@ == delay_text(delay),
{
    let mut chars: Vec<char> = Vec::new();
    match delay {
        Some(ms) => {
            let mut digits: Vec<char> = Vec::new();
            push_decimal(&mut digits, ms);
            assert(digits@ =~= decimal(ms as nat));
            let mut pad = digits.len();
            while pad < 4
                invariant
                    digits@.len() <= pad <= 4 || (pad == digits@.len() && pad >= 4),
                    chars@ == Seq::new((pad - digits@.len()) as nat, |i: int| ' '),
                decreases 4 - pad,
            {
                chars.push(' ');
                pad = pad + 1;
                assert(chars@ =~= Seq::new((pad - digits@.len()) as nat, |i: int| ' '));
            }
            let mut i: usize = 0;
            let ghost padding = chars@;
            while i < digits.len()
                invariant
                    i <= digits@.len(),
                    chars@ == padding + digits@.subrange(0, i as int),
                decreases digits@.len() - i,
            {
                chars.push(digits[i]);
                i = i + 1;
                assert(chars@ =~= padding + digits@.subrange(0, i as int));
            }
            assert(digits@.subrange(0, digits@.len() as int) =~= digits@);
            assert(chars@ =~= pad_left(decimal(ms as nat), 4));
            chars.push(' ');
            chars.push('m');
            chars.push('s');
        },
        None => {
            chars.push(' ');
            chars.push(' ');
            chars.push(' ');
            chars.push('-');
            chars.push(' ');
            chars.push('m');
            chars.push('s');
        },
    }
    assert(chars@ =~= delay_text(delay));
    string_from_chars(&chars)
}

/// How a measured delay is graded in the proxy list.
#[derive(Clone, Copy, Debug, PartialEq, Eq, Structural)]
pub enum DelayGrade {
    /// At most 120 ms.
    Fast,
    /// More than 120 ms and at most 350 ms.
    Medium,
    /// More than 350 ms.
    Slow,
    /// No delay measured.
    Unknown,
}

/// The grade of a delay: fast up to 120 ms, medium up to 350 ms, slow above.
pub fn delay_grade(delay: Option<u32>) -> (g: DelayGrade)
    ensures
        g == (match delay {
            Some(ms) => if ms <= 120 {
                DelayGrade::Fast
            } else if ms <= 350 {
                DelayGrade::Medium
            } else {
                DelayGrade::Slow
            },
            None => DelayGrade::Unknown,
        }),
{
    match delay {
        Some(ms) => if ms <= 120 {
            DelayGrade::Fast
        } else if ms <= 350 {
            DelayGrade::Medium
        } else {
            DelayGrade::Slow
        },
        None => DelayGrade::Unknown,
    }
}

} // verus!
