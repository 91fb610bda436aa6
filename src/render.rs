//! Decimal text of integers, of `Seconds` and of the scale-factor filter.
use vstd::prelude::*;
use crate::decimal::{Seconds, pow10_u64, lemma_pow10_bound};
use crate::factor::Ratio;

verus! {

pub open spec fn digit_char(d: nat) -> char {
    if d == 0 {
        '0'
    } else if d == 1 {
        '1'
    } else if d == 2 {
        '2'
    } else if d == 3 {
        '3'
    } else if d == 4 {
        '4'
    } else if d == 5 {
        '5'
    } else if d == 6 {
        '6'
    } else if d == 7 {
        '7'
    } else if d == 8 {
        '8'
    } else {
        '9'
    }
}

/// The shortest decimal text of `n`.
pub open spec fn digits_of(n: nat) -> Seq<char>
    decreases n,
{
    if n < 10 {
        seq![digit_char(n)]
    } else {
        digits_of(n / 10).push(digit_char(n % 10))
    }
}

/// The `w` lowest decimal digits of `n`, zeros included.
pub open spec fn padded_digits(n: nat, w: nat) -> Seq<char>
    decreases w,
{
    if w == 0 {
        Seq::empty()
    } else {
        padded_digits(n / 10, (w - 1) as nat).push(digit_char(n % 10))
    }
}

/// The decimal text of a number of seconds, with exactly `scale` digits after
/// the point (and no point where `scale` is zero).
pub open spec fn seconds_text(s: Seconds) -> Seq<char> {
    if s.scale == 0 {
        digits_of(s.units as nat)
    } else {
        digits_of(s.units as nat / s.denom()) + "."@ + padded_digits(
            s.units as nat % s.denom(),
            s.scale as nat,
        )
    }
}

/// The ffmpeg video filter that multiplies every timestamp by `f`.
pub open spec fn filter_text(f: Ratio) -> Seq<char> {
    "setpts="@ + digits_of(f.num as nat) + "/"@ + digits_of(f.den as nat) + "*PTS"@
}

fn digit_str(d: u128) -> (r: &'static str)
    requires
        d < 10,
    ensures
        r@ == seq![digit_char(d as nat)],
{
    proof {
        reveal_strlit("0");
        reveal_strlit("1");
        reveal_strlit("2");
        reveal_strlit("3");
        reveal_strlit("4");
        reveal_strlit("5");
        reveal_strlit("6");
        reveal_strlit("7");
        reveal_strlit("8");
        reveal_strlit("9");
    }
    if d == 0 {
        "0"
    } else if d == 1 {
        "1"
    } else if d == 2 {
        "2"
    } else if d == 3 {
        "3"
    } else if d == 4 {
        "4"
    } else if d == 5 {
        "5"
    } else if d == 6 {
        "6"
    } else if d == 7 {
        "7"
    } else if d == 8 {
        "8"
    } else {
        "9"
    }
}

/// Appends the decimal text of `n` to `out`.
pub fn push_digits(n: u128, out: &mut String)
    ensures
        final(out)@ == old(out)@ + digits_of(n as nat),
    decreases n,
{
    if n >= 10 {
        push_digits(n / 10, out);
    }
    out.append(digit_str(n % 10));
    assert(final(out)@ =~= old(out)@ + digits_of(n as nat));
}

/// Appends the `w` lowest decimal digits of `n` to `out`.
pub fn push_padded_digits(n: u128, w: u32, out: &mut String)
    ensures
        final(out)@ == old(out)@ + padded_digits(n as nat, w as nat),
    decreases w,
{
    if w == 0 {
        assert(final(out)@ =~= old(out)@ + padded_digits(n as nat, w as nat));
        return;
    }
    push_padded_digits(n / 10, w - 1, out);
    out.append(digit_str(n % 10));
    assert(final(out)@ =~= old(out)@ + padded_digits(n as nat, w as nat));
}

/// The decimal text of `n`.
pub fn decimal_string(n: u128) -> (r: String)
    ensures
        r@ == digits_of(n as nat),
{
    let mut out = String::new();
    push_digits(n, &mut out);
    assert(out@ =~= digits_of(n as nat));
    out
}

/// The decimal text of `s`, such as `11` or `12.500000`.
pub fn seconds_string(s: Seconds) -> (r: String)
    requires
        s.wf(),
    ensures
        r@ == seconds_text(s),
{
    let mut out = String::new();
    if s.scale == 0 {
        push_digits(s.units as u128, &mut out);
        assert(out@ =~= seconds_text(s));
        return out;
    }
    proof {
        lemma_pow10_bound(s.scale as nat);
    }
    let d = pow10_u64(s.scale);
    push_digits((s.units / d) as u128, &mut out);
    proof {
        reveal_strlit(".");
    }
    out.append(".");
    push_padded_digits((s.units % d) as u128, s.scale, &mut out);
    assert(out@ =~= seconds_text(s));
    out
}

/// The ffmpeg video filter `setpts=<num>/<den>*PTS`, which scales every
/// timestamp by exactly `f`.
pub fn setpts_filter(f: Ratio) -> (r: String)
    ensures
        r@ == filter_text(f),
{
    let mut out = String::from_str("setpts=");
    push_digits(f.num, &mut out);
    out.append("/");
    push_digits(f.den, &mut out);
    out.append("*PTS");
    assert(out@ =~= filter_text(f));
    out
}

} // verus!
