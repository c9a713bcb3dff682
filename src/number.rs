//! Numbers as they appear in color strings, kept exact: a sign and a fraction
//! of two integers. Also the unit parsers: percentages, absolute channel
//! values and angles.
use vstd::prelude::*;
use crate::text::{copy_range, ends_with_str, has_suffix};

verus! {

/// How many significant digits of a number are kept; further digits round
/// the last one kept, half up.
pub const MAX_DIGITS: u64 = 15;

/// An exact rational value `±num / den`.
#[derive(Debug, Clone, Copy, PartialEq, Eq, Structural)]
pub struct Number {
    pub negative: bool,
    pub num: u64,
    pub den: u64,
}

impl Number {
    /// The signed numerator.
    pub open spec fn numer(self) -> int {
        if self.negative {
            -(self.num as int)
        } else {
            self.num as int
        }
    }
}

/// An angle: in degrees, or in radians (which no fraction of degrees can hold).
#[derive(Debug, Clone, Copy, PartialEq, Eq, Structural)]
pub enum Angle {
    Degrees(Number),
    Radians(Number),
}

pub open spec fn pow10(n: nat) -> nat
    decreases n,
{
    if n == 0 {
        1
    } else {
        10 * pow10((n - 1) as nat)
    }
}

pub open spec fn is_digit(c: char) -> bool {
    '0' <= c && c <= '9'
}

pub open spec fn digit_value(c: char) -> nat {
    (c as u32 - '0' as u32) as nat
}

/// The state of reading a number's digits from left to right: the value of
/// the significant digits kept (at most `MAX_DIGITS` of them) and how many
/// there are, the power of ten that value stands at, whether the first digit
/// dropped was 5 or more, whether any was dropped, whether the decimal point
/// was seen, and whether any digit was.
pub struct Scan {
    pub kept: nat,
    pub sig: nat,
    pub shift: int,
    pub round_up: bool,
    pub dropped: bool,
    pub dot: bool,
    pub any: bool,
}

/// Reads `s` as digits with at most one decimal point; `None` at any other
/// character. Leading zeros are not significant.
pub open spec fn scan(s: Seq<char>) -> Option<Scan>
    decreases s.len(),
{
    if s.len() == 0 {
        Some(
            Scan {
                kept: 0,
                sig: 0,
                shift: 0,
                round_up: false,
                dropped: false,
                dot: false,
                any: false,
            },
        )
    } else {
        match scan(s.drop_last()) {
            None => None,
            Some(st) => {
                let c = s.last();
                if c == '.' && !st.dot {
                    Some(Scan { dot: true, ..st })
                } else if is_digit(c) {
                    let x = digit_value(c);
                    if st.sig == 0 && x == 0 {
                        Some(
                            Scan {
                                shift: if st.dot {
                                    st.shift - 1
                                } else {
                                    st.shift
                                },
                                any: true,
                                ..st
                            },
                        )
                    } else if st.sig < MAX_DIGITS {
                        Some(
                            Scan {
                                kept: st.kept * 10 + x,
                                sig: st.sig + 1,
                                shift: if st.dot {
                                    st.shift - 1
                                } else {
                                    st.shift
                                },
                                any: true,
                                ..st
                            },
                        )
                    } else {
                        Some(
                            Scan {
                                round_up: if st.dropped {
                                    st.round_up
                                } else {
                                    x >= 5
                                },
                                dropped: true,
                                shift: if st.dot {
                                    st.shift
                                } else {
                                    st.shift + 1
                                },
                                any: true,
                                ..st
                            },
                        )
                    }
                } else {
                    None
                }
            },
        }
    }
}

/// The characters of `s` after an optional leading sign.
pub open spec fn unsigned_part(s: Seq<char>) -> Seq<char> {
    if s.len() > 0 && (s[0] == '-' || s[0] == '+') {
        s.drop_first()
    } else {
        s
    }
}

/// The bound on the numerator and the denominator of every number read:
/// `10^15`, which leaves room for the scaling the unit parsers do.
pub const LIMIT: u64 = 1_000_000_000_000_000;

/// The bound, `10^20`, beyond which the size of an exponent no longer matters.
pub const EXP_CAP: u128 = 100_000_000_000_000_000_000;

/// The position of the first `e` or `E` in `s`, or -1.
pub open spec fn exp_mark(s: Seq<char>) -> int
    decreases s.len(),
{
    if s.len() == 0 {
        -1
    } else if s[0] == 'e' || s[0] == 'E' {
        0
    } else {
        let k = exp_mark(s.drop_first());
        if k < 0 {
            -1
        } else {
            k + 1
        }
    }
}

/// The value of a run of decimal digits.
pub open spec fn digits_value(s: Seq<char>) -> nat
    decreases s.len(),
{
    if s.len() == 0 {
        0
    } else {
        digits_value(s.drop_last()) * 10 + digit_value(s.last())
    }
}

/// An exponent: an optional sign, then at least one digit.
pub open spec fn exponent(s: Seq<char>) -> Option<int> {
    let d = unsigned_part(s);
    if d.len() > 0 && forall|i: int| 0 <= i < d.len() ==> is_digit(#[trigger] d[i]) {
        Some(
            if s[0] == '-' {
                -(digits_value(d) as int)
            } else {
                digits_value(d) as int
            },
        )
    } else {
        None
    }
}

/// The part of an unsigned number before its exponent.
pub open spec fn mantissa_part(body: Seq<char>) -> Seq<char> {
    if exp_mark(body) < 0 {
        body
    } else {
        body.subrange(0, exp_mark(body))
    }
}

/// The exponent of an unsigned number: 0 when there is none.
pub open spec fn exponent_part(body: Seq<char>) -> Option<int> {
    if exp_mark(body) < 0 {
        Some(0)
    } else {
        exponent(body.subrange(exp_mark(body) + 1, body.len() as int))
    }
}

/// The significant digits of a scan, rounded half up on the first digit
/// dropped, and the power of ten they stand at; a carry out of the last kept
/// digit moves up one power.
pub open spec fn rounded(st: Scan) -> (nat, int) {
    let k = if st.round_up {
        st.kept + 1
    } else {
        st.kept
    };
    if k == pow10(MAX_DIGITS as nat) {
        (pow10((MAX_DIGITS - 1) as nat), st.shift + 1)
    } else {
        (k, st.shift)
    }
}

/// `±k · 10^p` as a fraction with both parts at most `LIMIT`: a magnitude of
/// `LIMIT` or more is held at `LIMIT`, and a value finer than `1 / LIMIT` is
/// rounded half up to a multiple of it.
pub open spec fn number_from(negative: bool, k: nat, p: int) -> Number {
    if k == 0 {
        Number { negative, num: 0, den: 1 }
    } else if p >= 0 {
        let m = k * pow10(p as nat);
        if m >= LIMIT {
            Number { negative, num: LIMIT, den: 1 }
        } else {
            Number { negative, num: m as u64, den: 1 }
        }
    } else if -p <= 15 {
        Number { negative, num: k as u64, den: pow10((-p) as nat) as u64 }
    } else {
        let r = pow10((-p - 15) as nat);
        Number { negative, num: ((2 * k + r) / (2 * r)) as u64, den: LIMIT }
    }
}

/// A number: an optional sign, digits with at most one decimal point and at
/// least one digit, then an optional exponent `e` or `E` with an optional sign
/// and digits. Its value is rounded half up to `MAX_DIGITS` significant
/// digits and kept as a fraction whose parts are at most `LIMIT` (see
/// `number_from`). `inf` and `nan` are not numbers here.
pub open spec fn decimal(s: Seq<char>) -> Option<Number> {
    let body = unsigned_part(s);
    match (scan(mantissa_part(body)), exponent_part(body)) {
        (Some(st), Some(e)) => if st.any {
            let (k, d) = rounded(st);
            Some(number_from(s.len() > 0 && s[0] == '-', k, d + e))
        } else {
            None
        },
        _ => None,
    }
}

proof fn lemma_pow10_limit()
    ensures
        pow10(MAX_DIGITS as nat) == 1_000_000_000_000_000,
        pow10((MAX_DIGITS - 1) as nat) == 100_000_000_000_000,
        pow10(1) == 10,
        pow10(16) == 10_000_000_000_000_000,
{
    reveal_with_fuel(pow10, 17);
}

proof fn lemma_scan_bounds(s: Seq<char>)
    ensures
        scan(s) matches Some(st) ==> st.kept < pow10(st.sig) && st.sig <= MAX_DIGITS && -(s.len() as int)
            <= st.shift <= s.len(),
    decreases s.len(),
{
    if s.len() > 0 {
        lemma_scan_bounds(s.drop_last());
    }
}

proof fn lemma_pow10_mono(a: nat, b: nat)
    requires
        a <= b,
    ensures
        1 <= pow10(a) <= pow10(b),
    decreases b,
{
    if b > 0 {
        if a < b {
            lemma_pow10_mono(a, (b - 1) as nat);
        } else {
            lemma_pow10_mono((b - 1) as nat, (b - 1) as nat);
        }
    }
}

proof fn lemma_rounded_bound(st: Scan)
    requires
        st.kept < pow10(st.sig),
        st.sig <= MAX_DIGITS,
    ensures
        rounded(st).0 < LIMIT,
        rounded(st).1 == st.shift || rounded(st).1 == st.shift + 1,
{
    lemma_pow10_mono(st.sig, MAX_DIGITS as nat);
    lemma_pow10_limit();
}

/// `10^k`.
fn pow10_exec(k: u64) -> (r: u64)
    requires
        k <= 15,
    ensures
        r == pow10(k as nat),
{
    let mut r: u64 = 1;
    let mut i: u64 = 0;
    while i < k
        invariant
            i <= k <= 15,
            r == pow10(i as nat),
        decreases k - i,
    {
        proof {
            lemma_pow10_mono(i as nat, 15);
            lemma_pow10_limit();
        }
        r = r * 10;
        i = i + 1;
    }
    r
}

proof fn lemma_large_power(v: nat, p: nat)
    requires
        v >= 1,
        p >= 15,
    ensures
        v * pow10(p) >= LIMIT,
{
    lemma_pow10_mono(15, p);
    lemma_pow10_limit();
    assert(v * pow10(p) >= pow10(p)) by (nonlinear_arith)
        requires
            v >= 1,
    ;
}

proof fn lemma_half_up_at_most(k: nat, r: nat)
    requires
        k >= 1,
        r >= 2,
    ensures
        (2 * k + r) / (2 * r) <= k,
{
    assert(2 * k + r <= 2 * r * k) by (nonlinear_arith)
        requires
            k >= 1,
            r >= 2,
    ;
    assert((2 * k + r) / (2 * r) <= (2 * r * k) / (2 * r)) by (nonlinear_arith)
        requires
            2 * k + r <= 2 * r * k,
            r >= 2,
    ;
    assert((2 * r * k) / (2 * r) == k) by (nonlinear_arith)
        requires
            r >= 2,
    ;
}

proof fn lemma_half_up_zero(k: nat, q: nat)
    requires
        k < LIMIT,
        q >= 16,
    ensures
        (2 * k + pow10(q)) / (2 * pow10(q)) == 0,
{
    lemma_pow10_mono(16, q);
    lemma_pow10_limit();
    let r = pow10(q);
    assert((2 * k + r) / (2 * r) == 0) by (nonlinear_arith)
        requires
            2 * k < r,
    ;
}

proof fn lemma_number_from_bounds(negative: bool, k: nat, p: int)
    requires
        k < LIMIT,
    ensures
        1 <= number_from(negative, k, p).den <= LIMIT,
        number_from(negative, k, p).num <= LIMIT,
{
    lemma_pow10_limit();
    if k > 0 && p < 0 {
        if -p <= 15 {
            lemma_pow10_mono((-p) as nat, 15);
        } else {
            lemma_pow10_mono(1, (-p - 15) as nat);
            lemma_half_up_at_most(k, pow10((-p - 15) as nat));
        }
    }
}

/// An exponent limited to `[-EXP_CAP, EXP_CAP]`.
pub open spec fn clamp_exp(e: int) -> int {
    if e > EXP_CAP {
        EXP_CAP as int
    } else if e < -(EXP_CAP as int) {
        -(EXP_CAP as int)
    } else {
        e
    }
}

/// Next to a shift no larger than a length, limiting the exponent changes
/// nothing.
proof fn lemma_clamp_exp(negative: bool, k: nat, d: int, e: int)
    requires
        k < LIMIT,
        -0x1_0000_0000_0000_0000 <= d <= 0x1_0000_0000_0000_0000,
    ensures
        number_from(negative, k, d + e) == number_from(negative, k, d + clamp_exp(e)),
{
    if k > 0 {
        if e > EXP_CAP {
            lemma_large_power(k, (d + e) as nat);
            lemma_large_power(k, (d + EXP_CAP) as nat);
        } else if e < -(EXP_CAP as int) {
            lemma_half_up_zero(k, (-(d + e) - 15) as nat);
            lemma_half_up_zero(k, (-(d - EXP_CAP) - 15) as nat);
        }
    }
}

/// Builds `number_from`.
fn build_number(negative: bool, k: u64, p: i128) -> (r: Number)
    requires
        k < LIMIT,
    ensures
        r == number_from(negative, k as nat, p as int),
{
    proof {
        lemma_pow10_limit();
    }
    if k == 0 {
        return Number { negative, num: 0, den: 1 };
    }
    if p >= 0 {
        if p >= 15 {
            proof {
                lemma_large_power(k as nat, p as nat);
            }
            return Number { negative, num: LIMIT, den: 1 };
        }
        let pw = pow10_exec(p as u64);
        proof {
            lemma_pow10_mono(p as nat, 15);
            assert(k as nat * pow10(p as nat) <= LIMIT as nat * LIMIT as nat) by (nonlinear_arith)
                requires
                    k < LIMIT,
                    pow10(p as nat) <= LIMIT,
            ;
        }
        let m: u128 = k as u128 * pw as u128;
        if m >= LIMIT as u128 {
            Number { negative, num: LIMIT, den: 1 }
        } else {
            Number { negative, num: m as u64, den: 1 }
        }
    } else if p >= -15 {
        let q = (-p) as u64;
        let d = pow10_exec(q);
        proof {
            lemma_pow10_mono(q as nat, 15);
        }
        Number { negative, num: k, den: d }
    } else if p < -30 {
        proof {
            lemma_half_up_zero(k as nat, (-p - 15) as nat);
        }
        Number { negative, num: 0, den: LIMIT }
    } else {
        let q = (-p - 15) as u64;
        let rr = pow10_exec(q);
        proof {
            lemma_pow10_mono(1, q as nat);
            lemma_half_up_at_most(k as nat, rr as nat);
        }
        let num: u128 = (2 * k as u128 + rr as u128) / (2 * rr as u128);
        Number { negative, num: num as u64, den: LIMIT }
    }
}

pub open spec fn min_cap(v: nat) -> nat {
    if v > EXP_CAP {
        EXP_CAP as nat
    } else {
        v
    }
}

/// Reads the exponent in `s[from..]`, limited to `[-EXP_CAP, EXP_CAP]`.
fn parse_exponent(s: &Vec<char>, from: usize) -> (r: Option<i128>)
    requires
        from <= s@.len(),
    ensures
        match exponent(s@.subrange(from as int, s@.len() as int)) {
            Some(e) => r == Some(clamp_exp(e) as i128),
            None => r is None,
        },
{
    let n = s.len();
    let ghost t = s@.subrange(from as int, n as int);
    let neg = from < n && s[from] == '-';
    let d0: usize = if from < n && (s[from] == '-' || s[from] == '+') {
        from + 1
    } else {
        from
    };
    let ghost d = unsigned_part(t);
    assert(d =~= s@.subrange(d0 as int, n as int));
    if d0 == n {
        assert(d.len() == 0);
        assert(t == s@.subrange(from as int, s@.len() as int));
        assert(exponent(t) is None);
        return None;
    }
    let mut acc: u128 = 0;
    let mut i: usize = d0;
    assert(s@.subrange(d0 as int, d0 as int) =~= Seq::<char>::empty());
    while i < n
        invariant
            from <= d0 <= i <= n == s@.len(),
            d == s@.subrange(d0 as int, n as int),
            t == s@.subrange(from as int, n as int),
            d == unsigned_part(t),
            neg <==> (t.len() > 0 && t[0] == '-'),
            forall|j: int| d0 <= j < i ==> is_digit(#[trigger] s@[j]),
            acc <= EXP_CAP,
            acc as nat == min_cap(digits_value(s@.subrange(d0 as int, i as int))),
        decreases n - i,
    {
        let c = s[i];
        if !('0' <= c && c <= '9') {
            assert(!is_digit(d[i - d0]));
            return None;
        }
        assert(s@.subrange(d0 as int, i + 1).drop_last() =~= s@.subrange(d0 as int, i as int));
        let x = acc * 10 + (c as u32 - '0' as u32) as u128;
        acc = if x > EXP_CAP {
            EXP_CAP
        } else {
            x
        };
        i = i + 1;
    }
    assert(s@.subrange(d0 as int, n as int) == d);
    assert forall|j: int| 0 <= j < d.len() implies is_digit(#[trigger] d[j]) by {
        assert(d[j] == s@[d0 + j]);
    }
    if neg {
        Some(-(acc as i128))
    } else {
        Some(acc as i128)
    }
}

proof fn lemma_exp_mark(s: Seq<char>, k: int)
    requires
        0 <= k <= s.len(),
        forall|j: int| 0 <= j < k ==> s[j] != 'e' && s[j] != 'E',
    ensures
        k < s.len() && (s[k] == 'e' || s[k] == 'E') ==> exp_mark(s) == k,
        k == s.len() ==> exp_mark(s) == -1,
    decreases k,
{
    if k > 0 {
        lemma_exp_mark(s.drop_first(), k - 1);
    }
}

/// Scans the digits of `s[start..k]` (see `scan`).
fn scan_digits(s: &Vec<char>, start: usize, k: usize) -> (r: Option<(u64, u64, i128, bool, bool)>)
    requires
        start <= k <= s@.len(),
    ensures
        match scan(s@.subrange(start as int, k as int)) {
            Some(st) => r == Some(
                (st.kept as u64, st.sig as u64, st.shift as i128, st.round_up, st.any),
            ) && st.kept < pow10(st.sig) && st.sig <= MAX_DIGITS && -((k - start) as int)
                <= st.shift <= k - start,
            None => r is None,
        },
{
    let ghost mant = s@.subrange(start as int, k as int);
    let mut kept: u64 = 0;
    let mut sig: u64 = 0;
    let mut shift: i128 = 0;
    let mut round_up = false;
    let mut dropped = false;
    let mut dot = false;
    let mut any = false;
    let mut i: usize = start;
    assert(s@.subrange(start as int, start as int) =~= Seq::<char>::empty());
    while i < k
        invariant
            start <= i <= k <= s@.len(),
            mant == s@.subrange(start as int, k as int),
            scan(s@.subrange(start as int, i as int)) == Some(
                Scan {
                    kept: kept as nat,
                    sig: sig as nat,
                    shift: shift as int,
                    round_up,
                    dropped,
                    dot,
                    any,
                },
            ),
            sig <= MAX_DIGITS,
            kept < pow10(sig as nat),
            -((i - start) as int) <= shift <= i - start,
        decreases k - i,
    {
        let c = s[i];
        let ghost prev = s@.subrange(start as int, i as int);
        assert(s@.subrange(start as int, i + 1).drop_last() =~= prev);
        assert(mant.subrange(0, i + 1 - start) =~= s@.subrange(start as int, i + 1));
        proof {
            lemma_pow10_mono(sig as nat, MAX_DIGITS as nat);
            lemma_pow10_limit();
        }
        if c == '.' && !dot {
            dot = true;
        } else if '0' <= c && c <= '9' {
            let x = (c as u32 - '0' as u32) as u64;
            if sig == 0 && x == 0 {
                if dot {
                    shift = shift - 1;
                }
            } else if sig < MAX_DIGITS {
                proof {
                    lemma_pow10_mono((sig + 1) as nat, MAX_DIGITS as nat);
                    assert(kept * 10 + x < pow10((sig + 1) as nat)) by (nonlinear_arith)
                        requires
                            kept < pow10(sig as nat),
                            x <= 9,
                            pow10((sig + 1) as nat) == 10 * pow10(sig as nat),
                    ;
                }
                kept = kept * 10 + x;
                sig = sig + 1;
                if dot {
                    shift = shift - 1;
                }
            } else {
                if !dropped {
                    round_up = x >= 5;
                }
                dropped = true;
                if !dot {
                    shift = shift + 1;
                }
            }
            any = true;
        } else {
            proof {
                lemma_scan_fails(mant, (i + 1 - start) as int);
            }
            return None;
        }
        i = i + 1;
    }
    assert(s@.subrange(start as int, i as int) == mant);
    Some((kept, sig, shift, round_up, any))
}

/// Rounds scanned digits and scales them by `10^e` (see `rounded` and
/// `number_from`).
fn finish(
    negative: bool,
    Ghost(st): Ghost<Scan>,
    kept: u64,
    shift: i128,
    round_up: bool,
    e: i128,
) -> (r: Number)
    requires
        st.kept == kept,
        st.shift == shift,
        st.round_up == round_up,
        st.kept < pow10(st.sig),
        st.sig <= MAX_DIGITS,
        -0x1_0000_0000_0000_0000 <= shift <= 0x1_0000_0000_0000_0000,
        -(EXP_CAP as int) <= e <= EXP_CAP,
    ensures
        r == number_from(negative, rounded(st).0, rounded(st).1 + e),
        1 <= r.den <= LIMIT && r.num <= LIMIT,
{
    proof {
        lemma_pow10_mono(st.sig, MAX_DIGITS as nat);
        lemma_pow10_limit();
        lemma_rounded_bound(st);
    }
    let kk: u64 = if round_up {
        kept + 1
    } else {
        kept
    };
    let (kr, sh): (u64, i128) = if kk == LIMIT {
        (LIMIT / 10, shift + 1)
    } else {
        (kk, shift)
    };
    assert((kr as nat, sh as int) == rounded(st));
    let r = build_number(negative, kr, sh + e);
    proof {
        lemma_number_from_bounds(negative, kr as nat, (sh + e) as int);
    }
    r
}

/// Parses a number (see `decimal`).
#[verifier::rlimit(60)]
pub fn parse_decimal(s: &Vec<char>) -> (r: Option<Number>)
    ensures
        r == decimal(s@),
        r matches Some(n) ==> 1 <= n.den <= LIMIT && n.num <= LIMIT,
{
    let n = s.len();
    let start: usize = if n > 0 && (s[0] == '-' || s[0] == '+') {
        1
    } else {
        0
    };
    let ghost body = unsigned_part(s@);
    assert(body =~= s@.subrange(start as int, n as int));
    let mut k: usize = start;
    while k < n && s[k] != 'e' && s[k] != 'E'
        invariant
            start <= k <= n == s@.len(),
            forall|j: int| start <= j < k ==> s@[j] != 'e' && s@[j] != 'E',
        decreases n - k,
    {
        k = k + 1;
    }
    proof {
        assert forall|j: int| 0 <= j < k - start implies body[j] != 'e' && body[j] != 'E' by {
            assert(body[j] == s@[start + j]);
        }
        lemma_exp_mark(body, (k - start) as int);
    }
    let ghost mant = mantissa_part(body);
    assert(mant =~= s@.subrange(start as int, k as int));
    let (kept, sig, shift, round_up, any) = match scan_digits(s, start, k) {
        Some(t) => t,
        None => return None,
    };
    let ghost st = scan(mant)->Some_0;
    proof {
        lemma_pow10_mono(st.sig, MAX_DIGITS as nat);
        lemma_pow10_limit();
        assert(st.kept == kept as nat);
        assert(st.shift == shift as int);
    }
    if !any {
        return None;
    }
    let negative = n > 0 && s[0] == '-';
    let e: i128 = if k < n {
        assert(body.subrange((k - start) + 1, body.len() as int) =~= s@.subrange(k + 1, n as int));
        match parse_exponent(s, k + 1) {
            Some(e) => e,
            None => return None,
        }
    } else {
        0
    };
    proof {
        if k < n {
            lemma_rounded_bound(st);
            lemma_clamp_exp(
                negative,
                rounded(st).0,
                rounded(st).1,
                exponent_part(body)->Some_0,
            );
        }
    }
    let r = finish(negative, Ghost(st), kept, shift, round_up, e);
    Some(r)
}

/// A prefix on which the scan fails makes it fail on the whole.
proof fn lemma_scan_fails(s: Seq<char>, k: int)
    requires
        0 <= k <= s.len(),
        scan(s.subrange(0, k)) is None,
    ensures
        scan(s) is None,
    decreases s.len() - k,
{
    if k < s.len() {
        assert(s.subrange(0, k + 1).drop_last() =~= s.subrange(0, k));
        lemma_scan_fails(s, k + 1);
    } else {
        assert(s.subrange(0, k) =~= s);
    }
}

/// `v` without its last `k` characters.
pub open spec fn drop_end(v: Seq<char>, k: nat) -> Seq<char> {
    v.subrange(0, v.len() - k)
}

/// `n` divided by `d`, exactly.
pub open spec fn scaled(n: Number, d: nat) -> Number {
    Number { negative: n.negative, num: n.num, den: (n.den * d) as u64 }
}

/// A token that is a percentage (`50%`, giving 0.5 and `true`) or an absolute
/// channel value out of 255 (`128`, giving 128/255 and `false`).
pub open spec fn percent_or_255(t: Seq<char>) -> Option<(Number, bool)> {
    if has_suffix(t, seq!['%']) {
        match decimal(drop_end(t, 1)) {
            Some(n) => Some((scaled(n, 100), true)),
            None => None,
        }
    } else {
        match decimal(t) {
            Some(n) => Some((scaled(n, 255), false)),
            None => None,
        }
    }
}

/// A token that is a percentage (`50%`, giving 0.5 and `true`) or a plain
/// number (`0.5`, giving 0.5 and `false`).
pub open spec fn percent_or_float(t: Seq<char>) -> Option<(Number, bool)> {
    if has_suffix(t, seq!['%']) {
        match decimal(drop_end(t, 1)) {
            Some(n) => Some((scaled(n, 100), true)),
            None => None,
        }
    } else {
        match decimal(t) {
            Some(n) => Some((n, false)),
            None => None,
        }
    }
}

/// An angle token: a number with the unit `deg`, `grad`, `rad` or `turn`, or a
/// bare number of degrees. A gradian is 9/10 of a degree, a turn 360 degrees.
pub open spec fn angle(t: Seq<char>) -> Option<Angle> {
    if has_suffix(t, "deg"@) {
        match decimal(drop_end(t, 3)) {
            Some(n) => Some(Angle::Degrees(n)),
            None => None,
        }
    } else if has_suffix(t, "grad"@) {
        match decimal(drop_end(t, 4)) {
            Some(n) => Some(
                Angle::Degrees(
                    Number { negative: n.negative, num: (n.num * 9) as u64, den: (n.den * 10) as u64 },
                ),
            ),
            None => None,
        }
    } else if has_suffix(t, "rad"@) {
        match decimal(drop_end(t, 3)) {
            Some(n) => Some(Angle::Radians(n)),
            None => None,
        }
    } else if has_suffix(t, "turn"@) {
        match decimal(drop_end(t, 4)) {
            Some(n) => Some(
                Angle::Degrees(Number { negative: n.negative, num: (n.num * 360) as u64, ..n }),
            ),
            None => None,
        }
    } else {
        match decimal(t) {
            Some(n) => Some(Angle::Degrees(n)),
            None => None,
        }
    }
}

/// Parses the number in `t` before a suffix of `k` characters.
fn decimal_before(t: &Vec<char>, k: usize) -> (r: Option<Number>)
    requires
        k <= t@.len(),
    ensures
        r == decimal(drop_end(t@, k as nat)),
        r matches Some(n) ==> 1 <= n.den <= LIMIT && n.num <= LIMIT,
{
    let head = copy_range(t, 0, t.len() - k);
    parse_decimal(&head)
}

/// Parses a percentage or an absolute channel value (see `percent_or_255`).
pub fn parse_percent_or_255(t: &Vec<char>) -> (r: Option<(Number, bool)>)
    ensures
        r == percent_or_255(t@),
        r matches Some((n, _)) ==> 1 <= n.den && n.num <= LIMIT,
{
    if ends_with_str(t, "%") {
        proof {
            reveal_strlit("%");
            assert("%"@ =~= seq!['%']);
        }
        match decimal_before(t, 1) {
            Some(n) => Some((Number { negative: n.negative, num: n.num, den: n.den * 100 }, true)),
            None => None,
        }
    } else {
        proof {
            reveal_strlit("%");
            assert("%"@ =~= seq!['%']);
        }
        match parse_decimal(t) {
            Some(n) => Some((Number { negative: n.negative, num: n.num, den: n.den * 255 }, false)),
            None => None,
        }
    }
}

/// Parses a percentage or a plain number (see `percent_or_float`).
pub fn parse_percent_or_float(t: &Vec<char>) -> (r: Option<(Number, bool)>)
    ensures
        r == percent_or_float(t@),
        r matches Some((n, _)) ==> 1 <= n.den && n.num <= LIMIT,
{
    proof {
        reveal_strlit("%");
        assert("%"@ =~= seq!['%']);
    }
    if ends_with_str(t, "%") {
        match decimal_before(t, 1) {
            Some(n) => Some((Number { negative: n.negative, num: n.num, den: n.den * 100 }, true)),
            None => None,
        }
    } else {
        match parse_decimal(t) {
            Some(n) => Some((n, false)),
            None => None,
        }
    }
}

/// Parses an angle token (see `angle`).
pub fn parse_angle(t: &Vec<char>) -> (r: Option<Angle>)
    ensures
        r == angle(t@),
{
    proof {
        reveal_strlit("deg");
        reveal_strlit("grad");
        reveal_strlit("rad");
        reveal_strlit("turn");
    }
    if ends_with_str(t, "deg") {
        match decimal_before(t, 3) {
            Some(n) => Some(Angle::Degrees(n)),
            None => None,
        }
    } else if ends_with_str(t, "grad") {
        match decimal_before(t, 4) {
            Some(n) => Some(
                Angle::Degrees(Number { negative: n.negative, num: n.num * 9, den: n.den * 10 }),
            ),
            None => None,
        }
    } else if ends_with_str(t, "rad") {
        match decimal_before(t, 3) {
            Some(n) => Some(Angle::Radians(n)),
            None => None,
        }
    } else if ends_with_str(t, "turn") {
        match decimal_before(t, 4) {
            Some(n) => Some(
                Angle::Degrees(Number { negative: n.negative, num: n.num * 360, den: n.den }),
            ),
            None => None,
        }
    } else {
        match parse_decimal(t) {
            Some(n) => Some(Angle::Degrees(n)),
            None => None,
        }
    }
}

/// A number's characters are digits, a decimal point, signs and an exponent mark.
pub(crate) proof fn lemma_decimal_chars(s: Seq<char>)
    requires
        decimal(s) is Some,
    ensures
        s.len() > 0,
        forall|i: int|
            0 <= i < s.len() ==> is_digit(#[trigger] s[i]) || s[i] == '.' || s[i] == '-' || s[i]
                == '+' || s[i] == 'e' || s[i] == 'E',
        decimal(s)->Some_0.negative <==> s[0] == '-',
{
    let body = unsigned_part(s);
    let mant = mantissa_part(body);
    lemma_scan_chars(mant);
    lemma_scan_digits(mant);
    let k = exp_mark(body);
    lemma_exp_mark_bounds(body);
    let off = if s.len() > 0 && (s[0] == '-' || s[0] == '+') {
        1int
    } else {
        0int
    };
    assert forall|i: int| off <= i < s.len() implies is_digit(#[trigger] s[i]) || s[i] == '.'
        || s[i] == '-' || s[i] == '+' || s[i] == 'e' || s[i] == 'E' by {
        assert(s[i] == body[i - off]);
        if k < 0 || i - off < k {
            assert(body[i - off] == mant[i - off]);
        } else if i - off > k {
            let t = body.subrange(k + 1, body.len() as int);
            let u = unsigned_part(t);
            assert(body[i - off] == t[i - off - k - 1]);
            if t.len() > 0 && (t[0] == '-' || t[0] == '+') && i - off - k - 1 > 0 {
                assert(t[i - off - k - 1] == u[i - off - k - 2]);
            } else if !(t.len() > 0 && (t[0] == '-' || t[0] == '+')) {
                assert(t[i - off - k - 1] == u[i - off - k - 1]);
            }
        }
    }
}

proof fn lemma_exp_mark_bounds(s: Seq<char>)
    ensures
        -1 <= exp_mark(s) < s.len(),
        exp_mark(s) >= 0 ==> (s[exp_mark(s)] == 'e' || s[exp_mark(s)] == 'E'),
    decreases s.len(),
{
    if s.len() > 0 && s[0] != 'e' && s[0] != 'E' {
        lemma_exp_mark_bounds(s.drop_first());
    }
}

proof fn lemma_scan_chars(s: Seq<char>)
    ensures
        scan(s) is Some ==> forall|i: int| 0 <= i < s.len() ==> is_digit(#[trigger] s[i]) || s[i] == '.',
    decreases s.len(),
{
    if s.len() > 0 {
        lemma_scan_chars(s.drop_last());
        if scan(s) is Some {
            assert forall|i: int| 0 <= i < s.len() implies is_digit(#[trigger] s[i]) || s[i] == '.' by {
                if i < s.len() - 1 {
                    assert(s[i] == s.drop_last()[i]);
                }
            }
        }
    }
}

proof fn lemma_scan_digits(s: Seq<char>)
    ensures
        scan(s) matches Some(st) ==> (st.any ==> s.len() > 0),
    decreases s.len(),
{
    if s.len() > 0 {
        lemma_scan_digits(s.drop_last());
    }
}

/// Every number read has a denominator in `[1, LIMIT]` and a numerator of at
/// most `LIMIT`.
pub proof fn lemma_decimal_bounds(s: Seq<char>)
    ensures
        decimal(s) matches Some(n) ==> 1 <= n.den <= LIMIT && n.num <= LIMIT,
{
    let body = unsigned_part(s);
    lemma_scan_bounds(mantissa_part(body));
    if let Some(st) = scan(mantissa_part(body)) {
        if let Some(e) = exponent_part(body) {
            lemma_rounded_bound(st);
            let (k, d) = rounded(st);
            lemma_number_from_bounds(s.len() > 0 && s[0] == '-', k, d + e);
        }
    }
}

} // verus!
