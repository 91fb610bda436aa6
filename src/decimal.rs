//! Non-negative decimal numbers of seconds, held exactly as an integer count of
//! units together with a power-of-ten scale, and their parser.
use vstd::prelude::*;

verus! {

/// The byte `.`.
pub const DOT: u8 = 46;

/// The largest number of fraction digits a value may carry.
pub const MAX_SCALE: u32 = 18;

/// A non-negative decimal number: `units / 10^scale` seconds.
#[derive(Clone, Copy, Debug, PartialEq, Eq)]
pub struct Seconds {
    pub units: u64,
    pub scale: u32,
}

pub open spec fn pow10(n: nat) -> nat
    decreases n,
{
    if n == 0 {
        1
    } else {
        10 * pow10((n - 1) as nat)
    }
}

impl Seconds {
    pub open spec fn wf(&self) -> bool {
        self.scale <= MAX_SCALE
    }

    /// The denominator of the value, `10^scale`.
    pub open spec fn denom(&self) -> nat {
        pow10(self.scale as nat)
    }
}

proof fn lemma_pow10_mono(i: nat, n: nat)
    requires
        i <= n,
    ensures
        1 <= pow10(i) <= pow10(n),
    decreases n,
{
    if i < n {
        lemma_pow10_mono(i, (n - 1) as nat);
    } else if n > 0 {
        lemma_pow10_mono(0, (n - 1) as nat);
    }
}

pub proof fn lemma_pow10_bound(n: nat)
    requires
        n <= MAX_SCALE,
    ensures
        1 <= pow10(n) <= 1_000_000_000_000_000_000,
{
    lemma_pow10_mono(n, 18);
    reveal_with_fuel(pow10, 19);
}

/// `10^n`.
pub fn pow10_u64(n: u32) -> (r: u64)
    requires
        n <= MAX_SCALE,
    ensures
        r == pow10(n as nat),
{
    let mut r: u64 = 1;
    let mut i: u32 = 0;
    while i < n
        invariant
            i <= n <= MAX_SCALE,
            r == pow10(i as nat),
        decreases n - i,
    {
        proof {
            lemma_pow10_bound((i + 1) as nat);
        }
        r = r * 10;
        i = i + 1;
    }
    r
}

impl Seconds {
    /// One second more: the same scale, `10^scale` more units. `None` where
    /// the units would not fit a `u64`.
    pub fn plus_one(&self) -> (r: Option<Seconds>)
        requires
            self.wf(),
        ensures
            r is Some <==> self.units + self.denom() <= u64::MAX,
            r is Some ==> r->Some_0 == (Seconds {
                units: (self.units + self.denom()) as u64,
                scale: self.scale,
            }),
    {
        proof {
            lemma_pow10_bound(self.scale as nat);
        }
        let d = pow10_u64(self.scale);
        match self.units.checked_add(d) {
            Some(u) => Some(Seconds { units: u, scale: self.scale }),
            None => None,
        }
    }
}

pub open spec fn is_digit(b: u8) -> bool {
    48 <= b <= 57
}

pub open spec fn all_digits(s: Seq<u8>) -> bool {
    forall|i: int| 0 <= i < s.len() ==> is_digit(#[trigger] s[i])
}

/// The number that a string of decimal digits spells.
pub open spec fn digits_value(s: Seq<u8>) -> nat
    decreases s.len(),
{
    if s.len() == 0 {
        0
    } else {
        digits_value(s.drop_last()) * 10 + (s.last() - 48) as nat
    }
}

/// `k` is the position of the first `b` in `s`.
pub open spec fn first_at(s: Seq<u8>, b: u8, k: int) -> bool {
    &&& 0 <= k < s.len()
    &&& s[k] == b
    &&& forall|j: int| 0 <= j < k ==> s[j] != b
}

/// The position of the first `b` in `s`, or its length where there is none.
pub open spec fn index_of(s: Seq<u8>, b: u8) -> int {
    if exists|k: int| first_at(s, b, k) {
        choose|k: int| first_at(s, b, k)
    } else {
        s.len() as int
    }
}

/// The digits before the decimal point (all of `s` where it has none).
pub open spec fn whole_part(s: Seq<u8>) -> Seq<u8> {
    s.take(index_of(s, DOT))
}

/// The digits after the decimal point (none where it has none).
pub open spec fn fraction_part(s: Seq<u8>) -> Seq<u8> {
    if index_of(s, DOT) < s.len() {
        s.skip(index_of(s, DOT) + 1)
    } else {
        Seq::empty()
    }
}

/// `s` is digits with at most one decimal point, and at least one digit.
pub open spec fn is_decimal(s: Seq<u8>) -> bool {
    &&& all_digits(whole_part(s))
    &&& all_digits(fraction_part(s))
    &&& whole_part(s).len() + fraction_part(s).len() > 0
}

/// The count of units that a decimal spells: its digits with the point removed.
pub open spec fn decimal_units(s: Seq<u8>) -> nat {
    digits_value(whole_part(s) + fraction_part(s))
}

#[derive(Clone, Copy, Debug, PartialEq, Eq)]
pub enum ParseError {
    /// Nothing to read.
    Empty,
    /// Something other than digits with at most one decimal point.
    NotNumeric,
    /// More than `MAX_SCALE` fraction digits, or more units than a `u64` holds.
    OutOfRange,
}

/// What reading `s` as a decimal number of seconds gives.
pub open spec fn parse_outcome(s: Seq<u8>) -> Result<Seconds, ParseError> {
    if s.len() == 0 {
        Err(ParseError::Empty)
    } else if !is_decimal(s) {
        Err(ParseError::NotNumeric)
    } else if fraction_part(s).len() > MAX_SCALE || decimal_units(s) > u64::MAX {
        Err(ParseError::OutOfRange)
    } else {
        Ok(Seconds { units: decimal_units(s) as u64, scale: fraction_part(s).len() as u32 })
    }
}

proof fn lemma_first_at_unique(s: Seq<u8>, b: u8, k1: int, k2: int)
    requires
        first_at(s, b, k1),
        first_at(s, b, k2),
    ensures
        k1 == k2,
{
    if k1 < k2 {
        assert(s[k1] != b);
    } else if k2 < k1 {
        assert(s[k2] != b);
    }
}

proof fn lemma_digits_push(t: Seq<u8>, d: u8)
    ensures
        digits_value(t.push(d)) == digits_value(t) * 10 + (d - 48) as nat,
{
    assert(t.push(d).drop_last() =~= t);
}

proof fn lemma_digits_prefix_le(t: Seq<u8>, u: Seq<u8>)
    ensures
        digits_value(t) <= digits_value(t + u),
    decreases u.len(),
{
    if u.len() > 0 {
        lemma_digits_prefix_le(t, u.drop_last());
        assert((t + u).drop_last() =~= t + u.drop_last());
    } else {
        assert(t + u =~= t);
    }
}

/// Where some leading digits of `full` already spell more than a `u64`
/// holds, so does all of `full`.
proof fn lemma_prefix_too_large(prefix: Seq<u8>, rest: Seq<u8>, full: Seq<u8>)
    requires
        prefix + rest =~= full,
        digits_value(prefix) > u64::MAX,
    ensures
        digits_value(full) > u64::MAX,
{
    lemma_digits_prefix_le(prefix, rest);
}

/// `units` with the digit `d` written after it: `units * 10 + d`, or `None`
/// where that does not fit a `u64`.
fn append_digit(units: u64, d: u8) -> (r: Option<u64>)
    ensures
        r is Some <==> units * 10 + d <= u64::MAX,
        r is Some ==> r->Some_0 == units * 10 + d,
{
    match units.checked_mul(10) {
        Some(m) => m.checked_add(d as u64),
        None => None,
    }
}

/// The position of the first `b` among the first `end` bytes of `s`, or `end`.
pub fn find_byte(s: &[u8], end: usize, b: u8) -> (r: usize)
    requires
        end <= s@.len(),
    ensures
        r as int == index_of(s@.take(end as int), b),
{
    let ghost t = s@.take(end as int);
    let mut i: usize = 0;
    while i < end
        invariant
            i <= end,
            end <= s@.len(),
            t == s@.take(end as int),
            forall|j: int| 0 <= j < i ==> t[j] != b,
        decreases end - i,
    {
        if s[i] == b {
            proof {
                assert(first_at(t, b, i as int));
                let k = choose|k: int| first_at(t, b, k);
                lemma_first_at_unique(t, b, k, i as int);
            }
            return i;
        }
        i = i + 1;
    }
    assert(!exists|k: int| first_at(t, b, k));
    end
}

/// Reads the first `end` bytes of `s` as a decimal number of seconds.
fn parse_prefix(s: &[u8], end: usize) -> (r: Result<Seconds, ParseError>)
    requires
        end <= s@.len(),
    ensures
        r == parse_outcome(s@.take(end as int)),
        r is Ok ==> r->Ok_0.wf(),
{
    let ghost t = s@.take(end as int);
    if end == 0 {
        return Err(ParseError::Empty);
    }
    let dot = find_byte(s, end, DOT);
    let ghost whole = whole_part(t);
    let ghost frac = fraction_part(t);
    assert(whole =~= t.take(dot as int));
    assert(dot < end ==> frac =~= t.skip(dot + 1));
    let mut i: usize = 0;
    while i < end
        invariant
            i <= end,
            end <= s@.len(),
            t == s@.take(end as int),
            dot <= end,
            whole == t.take(dot as int),
            dot < end ==> frac == t.skip(dot + 1),
            whole == whole_part(t),
            frac == fraction_part(t),
            forall|j: int| 0 <= j < i && j != dot ==> is_digit(#[trigger] t[j]),
        decreases end - i,
    {
        if i != dot && !(48 <= s[i] && s[i] <= 57) {
            assert(t[i as int] == s[i as int]);
            assert(!is_decimal(t)) by {
                if i < dot {
                    assert(whole[i as int] == t[i as int]);
                    assert(!is_digit(whole[i as int]));
                } else {
                    assert(frac[i - dot - 1] == t[i as int]);
                    assert(!is_digit(frac[i - dot - 1]));
                }
            }
            return Err(ParseError::NotNumeric);
        }
        i = i + 1;
    }
    assert(all_digits(whole)) by {
        assert forall|j: int| 0 <= j < whole.len() implies is_digit(#[trigger] whole[j]) by {
            assert(whole[j] == t[j]);
        }
    }
    assert(all_digits(frac)) by {
        assert forall|j: int| 0 <= j < frac.len() implies is_digit(#[trigger] frac[j]) by {
            assert(frac[j] == t[dot + 1 + j]);
        }
    }
    if dot < end && end == 1 {
        return Err(ParseError::NotNumeric);
    }
    let scale: usize = if dot < end {
        end - dot - 1
    } else {
        0
    };
    if scale > MAX_SCALE as usize {
        return Err(ParseError::OutOfRange);
    }
    assert(is_decimal(t));
    let mut units: u64 = 0;
    let mut i: usize = 0;
    while i < dot
        invariant
            i <= dot,
            dot <= end,
            end <= s@.len(),
            t == s@.take(end as int),
            whole == t.take(dot as int),
            whole == whole_part(t),
            frac == fraction_part(t),
            is_decimal(t),
            t.len() > 0,
            frac.len() <= MAX_SCALE,
            all_digits(whole),
            units == digits_value(whole.take(i as int)),
        decreases dot - i,
    {
        assert(whole[i as int] == s[i as int]);
        let d = s[i] - 48;
        proof {
            lemma_digits_push(whole.take(i as int), s[i as int]);
            assert(whole.take(i as int).push(s[i as int]) =~= whole.take(i + 1));
        }
        match append_digit(units, d) {
            Some(n) => {
                units = n;
            },
            None => {
                proof {
                    lemma_prefix_too_large(whole.take(i + 1), whole.skip(i + 1) + frac, whole + frac);
                }
                return Err(ParseError::OutOfRange);
            },
        }
        i = i + 1;
    }
    assert(whole.take(dot as int) =~= whole);
    assert(whole + frac.take(0) =~= whole);
    if dot < end {
        let mut j: usize = dot + 1;
        while j < end
            invariant
                dot < j <= end,
                end <= s@.len(),
                t == s@.take(end as int),
                frac == t.skip(dot + 1),
                whole == whole_part(t),
                frac == fraction_part(t),
                is_decimal(t),
                t.len() > 0,
                frac.len() <= MAX_SCALE,
                all_digits(frac),
                units == digits_value(whole + frac.take(j - dot - 1)),
            decreases end - j,
        {
            let ghost k: int = j - dot - 1;
            assert(frac[k] == s[j as int]);
            let d = s[j] - 48;
            proof {
                lemma_digits_push(whole + frac.take(k), s[j as int]);
                assert((whole + frac.take(k)).push(s[j as int]) =~= whole + frac.take(k + 1));
            }
            match append_digit(units, d) {
                Some(n) => {
                    units = n;
                },
                None => {
                    proof {
                        lemma_prefix_too_large(whole + frac.take(k + 1), frac.skip(k + 1), whole + frac);
                    }
                    return Err(ParseError::OutOfRange);
                },
            }
            j = j + 1;
        }
        assert(frac.take(end - dot - 1) =~= frac);
    } else {
        assert(frac =~= Seq::<u8>::empty());
    }
    Ok(Seconds { units, scale: scale as u32 })
}

/// Reads all of `s` as a decimal number of seconds, such as `12.5` or `10`:
/// digits with at most one decimal point, at least one digit. A sign, an
/// exponent, more than `MAX_SCALE` fraction digits, or more units than a `u64`
/// holds are refused.
pub fn parse_seconds(s: &[u8]) -> (r: Result<Seconds, ParseError>)
    ensures
        r == parse_outcome(s@),
        r is Ok ==> r->Ok_0.wf(),
{
    assert(s@.take(s@.len() as int) =~= s@);
    parse_prefix(s, s.len())
}

/// The first line of `out`: the bytes before its first newline.
pub open spec fn first_line(out: Seq<u8>) -> Seq<u8> {
    out.take(index_of(out, 10))
}

/// Reads a duration probe's output: the first line, as a decimal number of
/// seconds. Empty or non-numeric output is an error, never a default value.
/// The number is read exactly, in plain decimal notation only: a sign, an
/// exponent, `inf` or `nan`, a carriage return, more than `MAX_SCALE` fraction
/// digits, or more units than a `u64` holds are all refused.
pub fn parse_probe_output(out: &[u8]) -> (r: Result<Seconds, ParseError>)
    ensures
        r == parse_outcome(first_line(out@)),
        first_line(out@).len() == 0 ==> r == Err::<Seconds, ParseError>(ParseError::Empty),
        r is Ok ==> is_decimal(first_line(out@)) && r->Ok_0.wf(),
{
    assert(out@.take(out@.len() as int) =~= out@);
    let nl = find_byte(out, out.len(), 10);
    assert(out@.take(nl as int) =~= first_line(out@));
    parse_prefix(out, nl)
}

} // verus!
