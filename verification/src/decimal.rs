//! Unsigned decimal numbers as the annotation stream prints them
//! (`"1.84"`, `"2000"`), parsed exactly into a mantissa/scale pair, and
//! the exact conversions from such values into decoder ticks and frame
//! numbers.

use vstd::prelude::*;
use vstd::string::StrSliceExecFns;

use crate::rational::Rational;

verus! {

/// Largest number of fractional digits a parsed annotation value may
/// carry; enough for every value the filters print, and small enough
/// that `10^scale` fits a `u64`.
pub const MAX_SCALE: u32 = 18;

/// An unsigned decimal number `mantissa / 10^scale`.
#[derive(Clone, Copy, Debug, PartialEq, Eq, Structural)]
pub struct Decimal {
    pub mantissa: u64,
    pub scale: u32,
}

impl Decimal {
    pub open spec fn wf(self) -> bool {
        self.scale <= MAX_SCALE
    }

    /// Numerator of the exact value `mantissa / 10^scale`.
    pub open spec fn numer(self) -> nat {
        self.mantissa as nat
    }

    /// Denominator of the exact value `mantissa / 10^scale`.
    pub open spec fn denom(self) -> nat {
        pow10(self.scale as nat)
    }
}

/// `10^e`.
pub open spec fn pow10(e: nat) -> nat
    decreases e,
{
    if e == 0 {
        1
    } else {
        10 * pow10((e - 1) as nat)
    }
}

pub proof fn lemma_pow10_pos(e: nat)
    ensures
        pow10(e) >= 1,
    decreases e,
{
    if e > 0 {
        lemma_pow10_pos((e - 1) as nat);
    }
}

pub proof fn lemma_pow10_mono(a: nat, b: nat)
    requires
        a <= b,
    ensures
        pow10(a) <= pow10(b),
    decreases b,
{
    if a < b {
        lemma_pow10_mono(a, (b - 1) as nat);
        lemma_pow10_pos((b - 1) as nat);
    }
}

pub proof fn lemma_pow10_18()
    ensures
        pow10(18) == 1_000_000_000_000_000_000,
{
    reveal_with_fuel(pow10, 19);
}

/// `10^e` for the scales a well-formed decimal can carry.
pub fn pow10_u64(e: u32) -> (r: u64)
    requires
        e <= MAX_SCALE,
    ensures
        r == pow10(e as nat),
{
    let mut i: u32 = 0;
    let mut acc: u64 = 1;
    while i < e
        invariant
            i <= e <= 18,
            acc == pow10(i as nat),
        decreases e - i,
    {
        proof {
            lemma_pow10_mono(i as nat, 17);
            lemma_pow10_18();
            assert(pow10(17) == 100_000_000_000_000_000) by {
                reveal_with_fuel(pow10, 19);
            }
        }
        acc = acc * 10;
        i = i + 1;
    }
    acc
}

/// A decimal digit.
pub open spec fn is_digit(c: char) -> bool {
    48 <= c as u32 <= 57
}

/// Numeric value of one digit (zero for anything else, so the fold
/// below is total).
pub open spec fn digit_val(c: char) -> nat {
    if is_digit(c) {
        (c as u32 - 48) as nat
    } else {
        0
    }
}

/// Value of a digit string, most significant digit first.
pub open spec fn digits_value(s: Seq<char>) -> nat
    decreases s.len(),
{
    if s.len() == 0 {
        0
    } else {
        digits_value(s.drop_last()) * 10 + digit_val(s.last())
    }
}

proof fn lemma_digits_value_push(t: Seq<char>, c: char)
    ensures
        digits_value(t.push(c)) == digits_value(t) * 10 + digit_val(c),
{
    assert(t.push(c).drop_last() =~= t);
    assert(t.push(c).last() == c);
}

proof fn lemma_digits_value_step_le(t: Seq<char>, j: int)
    requires
        0 <= j < t.len(),
    ensures
        digits_value(t.subrange(0, j)) <= digits_value(t.subrange(0, j + 1)),
{
    assert(t.subrange(0, j + 1) =~= t.subrange(0, j).push(t[j]));
    lemma_digits_value_push(t.subrange(0, j), t[j]);
}

proof fn lemma_digits_value_prefix_le(t: Seq<char>, j: int)
    requires
        0 <= j <= t.len(),
    ensures
        digits_value(t.subrange(0, j)) <= digits_value(t),
    decreases t.len() - j,
{
    if j == t.len() {
        assert(t.subrange(0, j) =~= t);
    } else {
        lemma_digits_value_step_le(t, j);
        lemma_digits_value_prefix_le(t, j + 1);
    }
}

/// Index of the first `'.'`, or the length when there is none.
pub open spec fn first_dot(s: Seq<char>) -> int
    decreases s.len(),
{
    if s.len() == 0 {
        0
    } else if s[0] == '.' {
        0
    } else {
        1 + first_dot(s.subrange(1, s.len() as int))
    }
}

proof fn lemma_first_dot_props(s: Seq<char>)
    ensures
        0 <= first_dot(s) <= s.len(),
        first_dot(s) < s.len() ==> s[first_dot(s)] == '.',
        forall|k: int| 0 <= k < first_dot(s) ==> s[k] != '.',
    decreases s.len(),
{
    if s.len() > 0 && s[0] != '.' {
        let s1 = s.subrange(1, s.len() as int);
        lemma_first_dot_props(s1);
        assert forall|k: int| 0 <= k < first_dot(s) implies s[k] != '.' by {
            if k > 0 {
                assert(s1[k - 1] != '.');
            }
        }
    }
}

proof fn lemma_first_dot_is(s: Seq<char>, d: int)
    requires
        0 <= d <= s.len(),
        forall|k: int| 0 <= k < d ==> s[k] != '.',
        d < s.len() ==> s[d] == '.',
    ensures
        first_dot(s) == d,
    decreases s.len(),
{
    if s.len() == 0 {
    } else if s[0] == '.' {
        assert(d == 0);
    } else {
        let s1 = s.subrange(1, s.len() as int);
        assert(d >= 1);
        assert(forall|k: int| 0 <= k < d - 1 ==> s1[k] != '.');
        lemma_first_dot_is(s1, d - 1);
    }
}

/// The digit string of a decimal: everything but the dot.
pub open spec fn mantissa_digits(s: Seq<char>) -> Seq<char> {
    let d = first_dot(s);
    if d == s.len() {
        s
    } else {
        s.subrange(0, d) + s.subrange(d + 1, s.len() as int)
    }
}

/// Number of fractional digits.
pub open spec fn spec_scale(s: Seq<char>) -> nat {
    let d = first_dot(s);
    if d == s.len() {
        0
    } else {
        (s.len() - d - 1) as nat
    }
}

/// The unsigned decimal grammar: a non-empty run of digits, optionally
/// followed by a dot and a non-empty run of digits.
pub open spec fn spec_is_decimal(s: Seq<char>) -> bool {
    let d = first_dot(s);
    &&& d >= 1
    &&& (d == s.len() || d + 1 < s.len())
    &&& forall|k: int| 0 <= k < s.len() && k != d ==> is_digit(#[trigger] s[k])
}

/// Where the scanner believes the dot is: the recorded position, or past
/// everything scanned when none was seen yet.
pub open spec fn dot_pos(dot: Option<usize>, s: Seq<char>) -> int {
    match dot {
        Some(dp) => dp as int,
        None => s.len() as int,
    }
}

/// The digits scanned so far: the prefix of length `i` with the dot (at
/// `dp`, when `dp < i`) removed.
pub open spec fn scanned_digits(s: Seq<char>, i: int, dp: int) -> Seq<char> {
    if dp < i {
        s.subrange(0, dp) + s.subrange(dp + 1, i)
    } else {
        s.subrange(0, i)
    }
}

/// What the scan knows after `i` characters: every scanned position but
/// the recorded dot held a digit.
pub open spec fn scan_inv(s: Seq<char>, i: int, dot: Option<usize>) -> bool {
    match dot {
        None => forall|k: int| 0 <= k < i ==> is_digit(#[trigger] s[k]),
        Some(dp) => {
            &&& 0 <= dp < i
            &&& s[dp as int] == '.'
            &&& forall|k: int| 0 <= k < i && k != dp ==> is_digit(#[trigger] s[k])
        },
    }
}

proof fn lemma_first_dot_from_scan(s: Seq<char>, i: int, dot: Option<usize>)
    requires
        0 <= i <= s.len(),
        scan_inv(s, i, dot),
    ensures
        match dot {
            None => first_dot(s) >= i,
            Some(dp) => first_dot(s) == dp,
        },
{
    match dot {
        None => {
            lemma_first_dot_props(s);
            if first_dot(s) < i {
                assert(is_digit(s[first_dot(s)]));
                assert(s[first_dot(s)] as u32 == 46);
            }
        },
        Some(dp) => {
            assert forall|k: int| 0 <= k < dp implies s[k] != '.' by {
                assert(is_digit(s[k]));
                if s[k] == '.' {
                    assert(s[k] as u32 == 46);
                }
            }
            lemma_first_dot_is(s, dp as int);
        },
    }
}

proof fn lemma_reject_dot(s: Seq<char>, i: int, dot: Option<usize>)
    requires
        0 <= i < s.len(),
        s[i] == '.',
        scan_inv(s, i, dot),
        dot is Some || i == 0 || i == s.len() - 1,
    ensures
        !spec_is_decimal(s),
{
    lemma_first_dot_from_scan(s, i, dot);
    match dot {
        Some(dp) => {
            // a second dot: position `i` is neither the first dot nor a digit
            assert(s[i] as u32 == 46);
            assert(!is_digit(s[i]));
        },
        None => {
            // the first dot, but leading or trailing
            assert forall|k: int| 0 <= k < i implies s[k] != '.' by {
                assert(is_digit(s[k]));
                if s[k] == '.' {
                    assert(s[k] as u32 == 46);
                }
            }
            lemma_first_dot_is(s, i);
        },
    }
}

proof fn lemma_reject_other(s: Seq<char>, i: int, dot: Option<usize>)
    requires
        0 <= i < s.len(),
        !is_digit(s[i]),
        s[i] != '.',
        scan_inv(s, i, dot),
    ensures
        !spec_is_decimal(s),
{
    lemma_first_dot_props(s);
    let d = first_dot(s);
    if d < s.len() {
        assert(s[d] == '.');
        assert(d != i);
    }
}

proof fn lemma_reject_overflow(s: Seq<char>, i: int, dot: Option<usize>, d8: nat)
    requires
        0 <= i < s.len(),
        is_digit(s[i]),
        d8 == digit_val(s[i]),
        scan_inv(s, i, dot),
        digits_value(scanned_digits(s, i, dot_pos(dot, s))) * 10 + d8 > u64::MAX,
    ensures
        !spec_is_decimal(s) || digits_value(mantissa_digits(s)) > u64::MAX,
{
    if spec_is_decimal(s) {
        lemma_first_dot_from_scan(s, i, dot);
        let m = mantissa_digits(s);
        let dp = dot_pos(dot, s);
        let pd = scanned_digits(s, i, dp);
        lemma_digits_value_push(pd, s[i]);
        match dot {
            None => {
                // no dot scanned yet, so the first dot sits at `i` or later;
                // since position `i` holds a digit, strictly later
                assert(first_dot(s) != i) by {
                    lemma_first_dot_props(s);
                    if first_dot(s) == i {
                        assert(s[i] as u32 == 46);
                    }
                }
                assert(pd.push(s[i]) =~= m.subrange(0, i + 1));
                lemma_digits_value_prefix_le(m, i + 1);
            },
            Some(dpos) => {
                assert(pd.push(s[i]) =~= m.subrange(0, i));
                lemma_digits_value_prefix_le(m, i);
            },
        }
    }
}

/// What parsing a value yields: its exact decimal, or nothing when the
/// text is outside the grammar or beyond the representable range.
pub open spec fn spec_parse_dec(v: Seq<char>) -> Option<Decimal> {
    if spec_is_decimal(v) && digits_value(mantissa_digits(v)) <= u64::MAX && spec_scale(v)
        <= MAX_SCALE {
        Some(
            Decimal {
                mantissa: digits_value(mantissa_digits(v)) as u64,
                scale: spec_scale(v) as u32,
            },
        )
    } else {
        None
    }
}

/// Parses an unsigned decimal annotation value exactly. Returns `None`
/// on anything outside the grammar, on a mantissa beyond `u64`, and on
/// more than `MAX_SCALE` fractional digits.
pub fn parse_decimal(s: &str) -> (r: Option<Decimal>)
    ensures
        r == spec_parse_dec(s@),
        match r {
            Some(d) => {
                &&& spec_is_decimal(s@)
                &&& d.wf()
                &&& d.mantissa == digits_value(mantissa_digits(s@))
                &&& d.scale == spec_scale(s@)
            },
            None => {
                ||| !spec_is_decimal(s@)
                ||| digits_value(mantissa_digits(s@)) > u64::MAX
                ||| spec_scale(s@) > MAX_SCALE
            },
        },
{
    let n = s.unicode_len();
    if n == 0 {
        proof {
            assert(first_dot(s@) == 0);
        }
        return None;
    }
    let mut i: usize = 0;
    let mut mantissa: u64 = 0;
    let mut dot: Option<usize> = None;
    while i < n
        invariant
            n == s@.len(),
            0 < n,
            i <= n,
            scan_inv(s@, i as int, dot),
            dot matches Some(dp) ==> dp + 1 < n && 1 <= dp && i - dp <= 19,
            mantissa == digits_value(scanned_digits(s@, i as int, dot_pos(dot, s@))),
        decreases n - i,
    {
        let c = s.get_char(i);
        if c == '.' {
            if dot.is_some() || i == 0 || i == n - 1 {
                proof {
                    lemma_reject_dot(s@, i as int, dot);
                }
                return None;
            }
            proof {
                assert(scanned_digits(s@, (i + 1) as int, i as int) =~= scanned_digits(
                    s@,
                    i as int,
                    dot_pos(dot, s@),
                ));
            }
            dot = Some(i);
        } else {
            let u = c as u32;
            if 48 <= u && u <= 57 {
                let d8 = (u - 48) as u64;
                proof {
                    assert(is_digit(s@[i as int]));
                    assert(digit_val(s@[i as int]) == d8 as nat);
                }
                if let Some(dpos) = dot {
                    if i - dpos > MAX_SCALE as usize {
                        // the final scale can only be larger still
                        proof {
                            lemma_first_dot_from_scan(s@, i as int, dot);
                        }
                        return None;
                    }
                }
                let ghost dp = dot_pos(dot, s@);
                let ghost pd = scanned_digits(s@, i as int, dp);
                if mantissa > (u64::MAX - d8) / 10 {
                    // the full mantissa only grows from here
                    proof {
                        assert(10 * ((u64::MAX - d8) / 10) + ((u64::MAX - d8) % 10) == u64::MAX
                            - d8);
                        assert(digits_value(pd) * 10 + d8 as nat > u64::MAX);
                        lemma_reject_overflow(s@, i as int, dot, d8 as nat);
                    }
                    return None;
                }
                proof {
                    assert((u64::MAX - d8) / 10 * 10 <= u64::MAX - d8);
                    assert(scanned_digits(s@, (i + 1) as int, dp) =~= pd.push(s@[i as int]));
                    lemma_digits_value_push(pd, s@[i as int]);
                }
                mantissa = mantissa * 10 + d8;
            } else {
                proof {
                    assert(s@[i as int] != '.');
                    lemma_reject_other(s@, i as int, dot);
                }
                return None;
            }
        }
        i = i + 1;
    }
    match dot {
        None => {
            proof {
                assert forall|k: int| 0 <= k < n implies s@[k] != '.' by {
                    assert(is_digit(s@[k]));
                    if s@[k] == '.' {
                        assert(s@[k] as u32 == 46);
                    }
                }
                lemma_first_dot_is(s@, n as int);
                assert(scanned_digits(s@, n as int, dot_pos(dot, s@)) =~= mantissa_digits(s@));
            }
            Some(Decimal { mantissa, scale: 0 })
        },
        Some(dp) => {
            proof {
                lemma_first_dot_from_scan(s@, n as int, dot);
                assert(scanned_digits(s@, n as int, dp as int) =~= mantissa_digits(s@));
            }
            let scale = (n - 1 - dp) as u32;
            Some(Decimal { mantissa, scale })
        },
    }
}

/// `a >= b`, exactly, by cross multiplication.
pub open spec fn spec_dec_ge(a: Decimal, b: Decimal) -> bool {
    a.numer() * b.denom() >= b.numer() * a.denom()
}

/// Compares two decimals exactly.
pub fn dec_ge(a: &Decimal, b: &Decimal) -> (r: bool)
    requires
        a.wf(),
        b.wf(),
    ensures
        r == spec_dec_ge(*a, *b),
{
    let pa = pow10_u64(a.scale);
    let pb = pow10_u64(b.scale);
    proof {
        lemma_pow10_mono(a.scale as nat, 18);
        lemma_pow10_mono(b.scale as nat, 18);
        lemma_pow10_18();
        assert((a.mantissa as nat) * (pb as nat) <= (u64::MAX as nat) * (pow10(18)))
            by (nonlinear_arith)
            requires
                a.mantissa <= u64::MAX,
                pb as nat <= pow10(18),
        ;
        assert((b.mantissa as nat) * (pa as nat) <= (u64::MAX as nat) * (pow10(18)))
            by (nonlinear_arith)
            requires
                b.mantissa <= u64::MAX,
                pa as nat <= pow10(18),
        ;
    }
    let left: u128 = (a.mantissa as u128) * (pb as u128);
    let right: u128 = (b.mantissa as u128) * (pa as u128);
    left >= right
}

/// The whole part of a decimal.
pub open spec fn spec_trunc(d: Decimal) -> nat {
    d.numer() / d.denom()
}

/// Truncates a decimal to its whole part.
pub fn trunc_u64(d: &Decimal) -> (r: u64)
    requires
        d.wf(),
    ensures
        r == spec_trunc(*d),
{
    let p = pow10_u64(d.scale);
    proof {
        lemma_pow10_pos(d.scale as nat);
        assert(d.mantissa as nat / p as nat <= d.mantissa as nat) by (nonlinear_arith)
            requires
                p as nat >= 1,
        ;
    }
    d.mantissa / p
}

/// A filter score truncated to its whole part, capped at `i32::MAX`.
pub open spec fn spec_score(d: Decimal) -> int {
    if spec_trunc(d) > i32::MAX {
        i32::MAX as int
    } else {
        spec_trunc(d) as int
    }
}

/// Truncates a score annotation to the integer the result records carry.
pub fn score_i32(d: &Decimal) -> (r: i32)
    requires
        d.wf(),
    ensures
        r == spec_score(*d),
{
    let t = trunc_u64(d);
    if t > i32::MAX as u64 {
        i32::MAX
    } else {
        t as i32
    }
}

/// Decoder ticks of a duration in seconds: `floor(seconds * den / num)`
/// for a time base of `num / den` seconds per tick.
pub open spec fn spec_ticks(d: Decimal, tb: Rational) -> int {
    (d.numer() * tb.den) / (d.denom() * tb.num) as int
}

/// A tick count is never negative.
pub proof fn lemma_ticks_nonneg(d: Decimal, tb: Rational)
    requires
        tb.wf(),
    ensures
        spec_ticks(d, tb) >= 0,
{
    lemma_pow10_pos(d.scale as nat);
    assert(d.numer() * tb.den >= 0) by (nonlinear_arith)
        requires
            tb.den > 0,
    ;
    assert(d.denom() * tb.num >= 1) by (nonlinear_arith)
        requires
            d.denom() >= 1,
            tb.num >= 1,
    ;
    vstd::arithmetic::div_mod::lemma_div_pos_is_pos(
        (d.numer() * tb.den) as int,
        (d.denom() * tb.num) as int,
    );
}

/// Converts a duration in seconds into decoder ticks, exactly; `None`
/// when the tick count does not fit the decoder's native `i64`.
pub fn to_ticks(d: &Decimal, tb: &Rational) -> (r: Option<i64>)
    requires
        d.wf(),
        tb.wf(),
    ensures
        match r {
            Some(t) => t == spec_ticks(*d, *tb) && 0 <= spec_ticks(*d, *tb) <= i64::MAX,
            None => spec_ticks(*d, *tb) > i64::MAX,
        },
{
    let p = pow10_u64(d.scale);
    proof {
        lemma_pow10_pos(d.scale as nat);
        lemma_pow10_mono(d.scale as nat, 18);
        lemma_pow10_18();
        assert((d.mantissa as nat) * (tb.den as nat) <= (u64::MAX as nat) * 0x7fff_ffff)
            by (nonlinear_arith)
            requires
                d.mantissa <= u64::MAX,
                0 < tb.den <= 0x7fff_ffff,
        ;
        assert((p as nat) * (tb.num as nat) <= pow10(18) * 0x7fff_ffff) by (nonlinear_arith)
            requires
                0 < p as nat <= pow10(18),
                0 < tb.num <= 0x7fff_ffff,
        ;
        assert((p as nat) * (tb.num as nat) >= 1) by (nonlinear_arith)
            requires
                p as nat >= 1,
                tb.num >= 1,
        ;
    }
    let num: u128 = (d.mantissa as u128) * (tb.den as u128);
    let den: u128 = (p as u128) * (tb.num as u128);
    let q = num / den;
    if q <= i64::MAX as u128 {
        Some(q as i64)
    } else {
        None
    }
}

/// The scene-cut frame formula: `floor(v * time_base / 25 * frame_rate)`,
/// the filter's internal 25 fps base rescaled to the discovered rate.
pub open spec fn spec_scene_frame(v: Decimal, tb: Rational, fr: Rational) -> int {
    (v.numer() * tb.num * fr.num) / (v.denom() * tb.den * 25 * fr.den) as int
}

/// Converts a scene-cut time annotation into a native frame number,
/// exactly; `None` when it does not fit an `i64`.
pub fn scene_frame(v: &Decimal, tb: &Rational, fr: &Rational) -> (r: Option<i64>)
    requires
        v.wf(),
        tb.wf(),
        fr.wf(),
    ensures
        match r {
            Some(f) => f == spec_scene_frame(*v, *tb, *fr) && 0 <= spec_scene_frame(*v, *tb, *fr)
                <= i64::MAX,
            None => spec_scene_frame(*v, *tb, *fr) > i64::MAX,
        },
{
    let p = pow10_u64(v.scale);
    proof {
        lemma_pow10_pos(v.scale as nat);
        lemma_pow10_mono(v.scale as nat, 18);
        lemma_pow10_18();
        assert((v.mantissa as nat) * (tb.num as nat) < 0x8000_0000_0000_0000_0000_0000)
            by (nonlinear_arith)
            requires
                v.mantissa <= u64::MAX,
                0 < tb.num <= 0x7fff_ffff,
        ;
        assert((v.mantissa as nat) * (tb.num as nat) * (fr.num as nat)
            < 0x4000_0000_0000_0000_0000_0000_0000_0000) by (nonlinear_arith)
            requires
                (v.mantissa as nat) * (tb.num as nat) < 0x8000_0000_0000_0000_0000_0000,
                0 < fr.num <= 0x7fff_ffff,
        ;
        assert(1 <= (p as nat) * (tb.den as nat) < 3_000_000_000_000_000_000_000_000_000)
            by (nonlinear_arith)
            requires
                1 <= p as nat <= 1_000_000_000_000_000_000,
                0 < tb.den <= 0x7fff_ffff,
        ;
        assert(1 <= (p as nat) * (tb.den as nat) * 25
            < 100_000_000_000_000_000_000_000_000_000) by (nonlinear_arith)
            requires
                1 <= (p as nat) * (tb.den as nat) < 3_000_000_000_000_000_000_000_000_000,
        ;
        assert(1 <= (p as nat) * (tb.den as nat) * 25 * (fr.den as nat)
            < 330_000_000_000_000_000_000_000_000_000_000_000_000) by (nonlinear_arith)
            requires
                1 <= (p as nat) * (tb.den as nat) * 25 < 100_000_000_000_000_000_000_000_000_000,
                0 < fr.den <= 0x7fff_ffff,
        ;
    }
    let num: u128 = (v.mantissa as u128) * (tb.num as u128) * (fr.num as u128);
    let den: u128 = (p as u128) * (tb.den as u128) * 25 * (fr.den as u128);
    let q = num / den;
    if q <= i64::MAX as u128 {
        Some(q as i64)
    } else {
        None
    }
}

} // verus!
