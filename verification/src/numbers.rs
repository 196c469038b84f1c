//! Integer readings of non-integer numbers: a double given by its IEEE-754
//! bits, and decimal text such as `"3.9"` or `"1e3"`, each truncated toward
//! zero and saturated to `i64` (`NaN` reads as `0`).

use vstd::prelude::*;

use crate::nearest::{
    frac_len, lemma_nearest_cap, lemma_nearest_nonneg, lemma_nearest_small, lemma_nearest_whole,
    lemma_nearest_zero_whole, nearest_capped, nearest_trunc,
};
use crate::parse::{all_digits, digits_value, is_digit};
use crate::text::{chars_eq_str, lower_chars, lower_seq, push_all, slice_chars};

verus! {

/// `2^n`.
pub open spec fn pow2n(n: nat) -> nat
    decreases n,
{
    if n == 0 {
        1
    } else {
        2 * pow2n((n - 1) as nat)
    }
}

/// `10^n`.
pub open spec fn pow10(n: nat) -> nat
    decreases n,
{
    if n == 0 {
        1
    } else {
        10 * pow10((n - 1) as nat)
    }
}

pub(crate) proof fn lemma_pow2n_mono(a: nat, b: nat)
    requires
        a <= b,
    ensures
        pow2n(a) <= pow2n(b),
        pow2n(a) >= 1,
    decreases b,
{
    if b > a {
        lemma_pow2n_mono(a, (b - 1) as nat);
    } else if a > 0 {
        lemma_pow2n_mono((a - 1) as nat, (a - 1) as nat);
    }
}

pub(crate) proof fn lemma_pow10_pos(n: nat)
    ensures
        pow10(n) >= 1,
    decreases n,
{
    if n > 0 {
        lemma_pow10_pos((n - 1) as nat);
    }
}

/// The saturating signed reading of a magnitude.
pub open spec fn saturate(neg: bool, mag: int) -> i64 {
    if neg {
        if mag >= 0x8000_0000_0000_0000 {
            i64::MIN
        } else {
            (-mag) as i64
        }
    } else {
        if mag > i64::MAX {
            i64::MAX
        } else {
            mag as i64
        }
    }
}

/// A double with bit pattern `bits`, truncated toward zero and saturated to
/// `i64`; `NaN` gives `0` and the infinities saturate.
pub open spec fn float_trunc(bits: u64) -> i64 {
    let neg = bits >= 0x8000_0000_0000_0000;
    let exp = (bits / 0x10_0000_0000_0000) % 2048;
    let frac = bits % 0x10_0000_0000_0000;
    if exp == 2047 {
        if frac != 0 {
            0
        } else {
            saturate(neg, 0x8000_0000_0000_0000)
        }
    } else {
        let m: int = if exp == 0 {
            frac as int
        } else {
            frac + 0x10_0000_0000_0000
        };
        let e: int = if exp == 0 {
            1
        } else {
            exp as int
        };
        let mag: int = if e >= 1075 {
            m * pow2n((e - 1075) as nat)
        } else {
            m / (pow2n((1075 - e) as nat) as int)
        };
        saturate(neg, mag)
    }
}

pub(crate) proof fn lemma_pow2n_values()
    ensures
        pow2n(10) == 1024,
        pow2n(11) == 2048,
        pow2n(62) == 0x4000_0000_0000_0000,
        pow2n(64) == 0x1_0000_0000_0000_0000,
{
    reveal_with_fuel(pow2n, 65);
}

/// `2^n` for `n < 64`.
pub(crate) fn pow2_u64(n: u64) -> (r: u64)
    requires
        n < 64,
    ensures
        r == pow2n(n as nat),
{
    let mut r: u64 = 1;
    let mut i: u64 = 0;
    while i < n
        invariant
            i <= n < 64,
            r == pow2n(i as nat),
            r <= 0x8000_0000_0000_0000,
        decreases n - i,
    {
        proof {
            lemma_pow2n_mono(i as nat, 62);
            lemma_pow2n_values();
            if i < 63 {
                assert(pow2n((i + 1) as nat) == 2 * pow2n(i as nat));
            }
        }
        assert(i + 1 <= 63);
        assert(r <= 0x4000_0000_0000_0000) by {
            lemma_pow2n_mono(i as nat, 62);
            lemma_pow2n_values();
        }
        r = r * 2;
        i = i + 1;
    }
    r
}

/// A double, given by its bits, truncated toward zero and saturated.
pub fn float_bits_trunc(bits: u64) -> (r: i64)
    ensures
        r == float_trunc(bits),
{
    let neg = bits >= 0x8000_0000_0000_0000;
    let exp: u64 = (bits / 0x10_0000_0000_0000) % 2048;
    let frac: u64 = bits % 0x10_0000_0000_0000;
    if exp == 2047 {
        if frac != 0 {
            return 0;
        }
        return if neg {
            i64::MIN
        } else {
            i64::MAX
        };
    }
    let m: u64 = if exp == 0 {
        frac
    } else {
        frac + 0x10_0000_0000_0000
    };
    let e: u64 = if exp == 0 {
        1
    } else {
        exp
    };
    if e >= 1075 {
        let shift = e - 1075;
        if shift >= 11 {
            proof {
                lemma_pow2n_mono(11, shift as nat);
                lemma_pow2n_values();
                assert(m >= 0x10_0000_0000_0000);
                assert(m * pow2n(shift as nat) >= 0x10_0000_0000_0000 * 2048) by (nonlinear_arith)
                    requires
                        m >= 0x10_0000_0000_0000,
                        pow2n(shift as nat) >= 2048,
                ;
            }
            return if neg {
                i64::MIN
            } else {
                i64::MAX
            };
        }
        let p = pow2_u64(shift);
        proof {
            lemma_pow2n_mono(shift as nat, 10);
            lemma_pow2n_values();
            assert(m < 0x20_0000_0000_0000);
            assert(m * p < 0x20_0000_0000_0000 * 1024) by (nonlinear_arith)
                requires
                    m < 0x20_0000_0000_0000,
                    p <= 1024,
                    p >= 1,
            ;
        }
        let mag: u64 = m * p;
        if neg {
            if mag >= 0x8000_0000_0000_0000 {
                i64::MIN
            } else {
                let x: i64 = mag as i64;
                -x
            }
        } else {
            if mag > 0x7fff_ffff_ffff_ffff {
                i64::MAX
            } else {
                mag as i64
            }
        }
    } else {
        let d = 1075 - e;
        if d >= 64 {
            proof {
                lemma_pow2n_mono(64, d as nat);
                lemma_pow2n_values();
                assert(m < 0x20_0000_0000_0000);
                assert((m as int) / (pow2n(d as nat) as int) == 0) by (nonlinear_arith)
                    requires
                        0 <= m < pow2n(d as nat),
                ;
            }
            return 0;
        }
        let p = pow2_u64(d);
        proof {
            lemma_pow2n_mono(0, d as nat);
        }
        let mag: u64 = m / p;
        assert(mag <= m) by (nonlinear_arith)
            requires
                mag == m / p,
                p >= 1,
        ;
        if neg {
            let x: i64 = mag as i64;
            -x
        } else {
            mag as i64
        }
    }
}


/// The saturation bound for magnitudes: `2^63`.
pub open spec fn cap() -> int {
    0x8000_0000_0000_0000
}

pub open spec fn min_cap(x: int) -> int {
    if x < cap() {
        x
    } else {
        cap()
    }
}

pub(crate) proof fn lemma_digits_value_bounds(s: Seq<char>)
    requires
        all_digits(s),
    ensures
        0 <= digits_value(s) < pow10(s.len()),
    decreases s.len(),
{
    if s.len() > 0 {
        let t = s.drop_last();
        assert(all_digits(t)) by {
            assert forall|i: int| 0 <= i < t.len() implies is_digit(#[trigger] t[i]) by {
                assert(t[i] == s[i]);
            }
        }
        lemma_digits_value_bounds(t);
        assert(is_digit(s[s.len() - 1]));
        assert(pow10(s.len()) == 10 * pow10(t.len()));
    }
}

proof fn lemma_digits_value_take_div(s: Seq<char>, q: nat)
    requires
        all_digits(s),
        q <= s.len(),
    ensures
        digits_value(s) / (pow10(q) as int) == digits_value(s.take(s.len() - q)),
    decreases q,
{
    if q == 0 {
        assert(s.take(s.len() as int) =~= s);
        assert(pow10(0) == 1);
        assert(digits_value(s) / 1 == digits_value(s));
    } else {
        let t = s.drop_last();
        assert(all_digits(t)) by {
            assert forall|i: int| 0 <= i < t.len() implies is_digit(#[trigger] t[i]) by {
                assert(t[i] == s[i]);
            }
        }
        lemma_digits_value_take_div(t, (q - 1) as nat);
        assert(t.take(t.len() - (q - 1)) =~= s.take(s.len() - q));
        assert(is_digit(s[s.len() - 1]));
        let d = (s.last() as int) - ('0' as int);
        assert(0 <= d < 10);
        let x = digits_value(t);
        lemma_digits_value_bounds(t);
        lemma_pow10_pos((q - 1) as nat);
        assert(digits_value(s) == x * 10 + d);
        assert((x * 10 + d) / 10 == x) by (nonlinear_arith)
            requires
                0 <= d < 10,
        ;
        let p = pow10((q - 1) as nat) as int;
        assert(pow10(q) == 10 * pow10((q - 1) as nat));
        assert(x * 10 + d >= 0);
        vstd::arithmetic::div_mod::lemma_div_denominator(x * 10 + d, 10, p);
        assert((x * 10 + d) / (10 * p) == ((x * 10 + d) / 10) / p);
        assert(digits_value(s) / (pow10(q) as int) == x / p);
    }
}

proof fn lemma_min_cap_step(x: int, d: int)
    requires
        x >= 0,
        0 <= d < 10,
    ensures
        min_cap(min_cap(x) * 10 + d) == min_cap(x * 10 + d),
{
}

/// `min(digits_value(s[from..to]), 2^63)`, accumulated without overflow.
fn capped_digits(s: &Vec<char>, from: usize, to: usize) -> (r: u64)
    requires
        from <= to <= s@.len(),
        all_digits(s@.subrange(from as int, to as int)),
    ensures
        r == min_cap(digits_value(s@.subrange(from as int, to as int))),
{
    let mut acc: u64 = 0;
    let mut i: usize = from;
    while i < to
        invariant
            from <= i <= to <= s@.len(),
            all_digits(s@.subrange(from as int, to as int)),
            acc == min_cap(digits_value(s@.subrange(from as int, i as int))),
        decreases to - i,
    {
        let ghost pre = s@.subrange(from as int, i as int);
        let ghost next = s@.subrange(from as int, i + 1);
        assert(next.drop_last() =~= pre);
        assert(s@.subrange(from as int, to as int)[i - from] == s@[i as int]);
        let d: u64 = ((s[i] as u32) - 48) as u64;
        proof {
            assert(all_digits(pre)) by {
                assert forall|k: int| 0 <= k < pre.len() implies is_digit(#[trigger] pre[k]) by {
                    assert(pre[k] == s@.subrange(from as int, to as int)[k]);
                }
            }
            crate::parse::lemma_digits_value_nonneg(pre);
            assert(next.last() == s@[i as int]);
            assert(digits_value(next) == digits_value(pre) * 10 + d);
            lemma_min_cap_step(digits_value(pre), d as int);
        }
        if acc > 922337203685477580 {
            acc = 0x8000_0000_0000_0000;
        } else {
            let v: u64 = acc * 10 + d;
            acc = if v >= 0x8000_0000_0000_0000 {
                0x8000_0000_0000_0000
            } else {
                v
            };
        }
        i = i + 1;
    }
    acc
}

/// `min(digits_value(digits) × 10^p, 2^63)` for `p >= 0`.
fn capped_scale_up(base: u64, p: u128) -> (r: u64)
    requires
        base <= cap(),
    ensures
        forall|x: int| #![trigger min_cap(x)] x >= 0 && base == min_cap(x) ==> r == min_cap(x * pow10(p as nat)),
{
    let mut acc: u64 = base;
    let mut j: u128 = 0;
    proof {
        assert(pow10(0) == 1);
        assert forall|x: int| #![trigger min_cap(x)] x >= 0 && base == min_cap(x) implies acc == min_cap(x * pow10(0)) by {
            assert(x * 1 == x);
        }
    }
    while j < p && acc != 0 && acc < 0x8000_0000_0000_0000
        invariant
            j <= p,
            acc <= cap(),
            forall|x: int| #![trigger min_cap(x)] x >= 0 && base == min_cap(x) ==> acc == min_cap(x * pow10(j as nat)),
        decreases p - j,
    {
        proof {
            assert forall|x: int| #![trigger min_cap(x)] x >= 0 && base == min_cap(x) implies min_cap(
                x * pow10((j + 1) as nat),
            ) == min_cap(min_cap(x * pow10(j as nat)) * 10) by {
                assert(pow10((j + 1) as nat) == 10 * pow10(j as nat));
                assert(x * pow10((j + 1) as nat) == (x * pow10(j as nat)) * 10) by (nonlinear_arith)
                    requires
                        pow10((j + 1) as nat) == 10 * pow10(j as nat),
                ;
                lemma_pow10_pos(j as nat);
                assert(x * pow10(j as nat) >= 0) by (nonlinear_arith)
                    requires
                        x >= 0,
                        pow10(j as nat) >= 1,
                ;
                lemma_min_cap_step(x * pow10(j as nat), 0);
            }
        }
        if acc > 922337203685477580 {
            acc = 0x8000_0000_0000_0000;
        } else {
            let v: u64 = acc * 10;
            acc = if v >= 0x8000_0000_0000_0000 {
                0x8000_0000_0000_0000
            } else {
                v
            };
        }
        j = j + 1;
    }
    proof {
        assert forall|x: int| #![trigger min_cap(x)] x >= 0 && base == min_cap(x) implies acc == min_cap(
            x * pow10(p as nat),
        ) by {
            if j < p {
                lemma_pow10_split(x, j as nat, p as nat);
            }
        }
    }
    acc
}

/// Once a scaled value is zero or capped, scaling further keeps it so.
proof fn lemma_pow10_split(x: int, j: nat, p: nat)
    requires
        x >= 0,
        j <= p,
        min_cap(x * pow10(j)) == 0 || min_cap(x * pow10(j)) == cap(),
    ensures
        min_cap(x * pow10(p)) == min_cap(x * pow10(j)),
    decreases p - j,
{
    if j < p {
        lemma_pow10_pos(j);
        assert(pow10((j + 1) as nat) == 10 * pow10(j));
        assert(x * pow10((j + 1) as nat) == (x * pow10(j)) * 10) by (nonlinear_arith)
            requires
                pow10((j + 1) as nat) == 10 * pow10(j),
        ;
        assert(x * pow10(j) >= 0) by (nonlinear_arith)
            requires
                x >= 0,
                pow10(j) >= 1,
        ;
        lemma_pow10_split(x, (j + 1) as nat, p);
    }
}

/// The length of the digit run of `s` starting at `from`.
fn digit_run_from(s: &Vec<char>, from: usize) -> (n: usize)
    requires
        from <= s@.len(),
    ensures
        n == digit_run(s@.skip(from as int)),
        from + n <= s@.len(),
        all_digits(s@.subrange(from as int, from + n)),
{
    let mut i: usize = from;
    proof {
        assert(s@.skip(from as int) =~= s@.skip(from as int));
    }
    while i < s.len() && s[i] >= '0' && s[i] <= '9'
        invariant
            from <= i <= s@.len(),
            digit_run(s@.skip(from as int)) == (i - from) + digit_run(s@.skip(i as int)),
            all_digits(s@.subrange(from as int, i as int)),
        decreases s@.len() - i,
    {
        proof {
            assert(s@.skip(i as int).drop_first() =~= s@.skip(i + 1));
            assert(s@.skip(i as int)[0] == s@[i as int]);
            assert forall|k: int| 0 <= k < i + 1 - from implies is_digit(
                #[trigger] s@.subrange(from as int, i + 1)[k],
            ) by {
                if k < i - from {
                    assert(s@.subrange(from as int, i + 1)[k] == s@.subrange(from as int, i as int)[k]);
                }
            }
        }
        i = i + 1;
    }
    proof {
        if i < s@.len() {
            assert(s@.skip(i as int)[0] == s@[i as int]);
        }
    }
    i - from
}

/// The length of the run of ASCII digits that begins `s`.
pub open spec fn digit_run(s: Seq<char>) -> nat
    decreases s.len(),
{
    if s.len() > 0 && is_digit(s[0]) {
        1 + digit_run(s.drop_first())
    } else {
        0
    }
}

/// The exact decimal `digits × 10^p`, truncated toward zero.
pub open spec fn scaled_trunc(digits: Seq<char>, p: int) -> int {
    if p >= 0 {
        digits_value(digits) * pow10(p as nat)
    } else {
        digits_value(digits) / (pow10((-p) as nat) as int)
    }
}

/// The exponent part `e[+|-]digits` (or nothing) at the start of `s`: its
/// value, when `s` is exactly one exponent part or empty.
pub open spec fn exponent_of(s: Seq<char>) -> Option<int> {
    if s.len() == 0 {
        Some(0)
    } else if s[0] == 'e' || s[0] == 'E' {
        let r = s.drop_first();
        let signed = r.len() > 0 && (r[0] == '+' || r[0] == '-');
        let ds = if signed {
            r.drop_first()
        } else {
            r
        };
        if ds.len() > 0 && all_digits(ds) {
            Some(
                if signed && r[0] == '-' {
                    -digits_value(ds)
                } else {
                    digits_value(ds)
                },
            )
        } else {
            None
        }
    } else {
        None
    }
}

/// The magnitude of a decimal number without sign (digits, an optional `.`
/// and digits, at least one digit in all, then an optional exponent),
/// rounded to the nearest double and truncated toward zero.
pub open spec fn decimal_magnitude(s: Seq<char>) -> Option<int> {
    let a = digit_run(s);
    let int_part = s.take(a as int);
    let after = s.skip(a as int);
    let (frac, tail) = if after.len() > 0 && after[0] == '.' {
        let f = digit_run(after.drop_first());
        (after.drop_first().take(f as int), after.drop_first().skip(f as int))
    } else {
        (Seq::<char>::empty(), after)
    };
    if int_part.len() + frac.len() == 0 {
        None
    } else {
        match exponent_of(tail) {
            Some(e) => Some(nearest_trunc(int_part + frac, e - frac.len())),
            None => None,
        }
    }
}

/// Decimal text read as a double (an optional sign, then `inf`, `infinity`
/// or `nan` in any case, or a decimal number rounded to the nearest double,
/// ties to even), truncated toward zero and saturated to `i64`.
pub open spec fn float_text_value(t: Seq<char>) -> Option<i64> {
    let signed = t.len() > 0 && (t[0] == '+' || t[0] == '-');
    let neg = signed && t[0] == '-';
    let body = if signed {
        t.drop_first()
    } else {
        t
    };
    let low = lower_seq(body);
    if low == "inf"@ || low == "infinity"@ {
        Some(saturate(neg, 0x8000_0000_0000_0000))
    } else if low == "nan"@ {
        Some(0)
    } else {
        match decimal_magnitude(body) {
            Some(mag) => Some(saturate(neg, mag)),
            None => None,
        }
    }
}


/// The exponent bound beyond which an exponent only matters by its sign.
pub open spec fn exp_cap() -> int {
    0x40_0000_0000_0000_0000
}

/// `min(digits_value(s[from..to]), 2^70)`, accumulated without overflow.
fn capped_digits_wide(s: &Vec<char>, from: usize, to: usize) -> (r: u128)
    requires
        from <= to <= s@.len(),
        all_digits(s@.subrange(from as int, to as int)),
    ensures
        r == (if digits_value(s@.subrange(from as int, to as int)) < exp_cap() {
            digits_value(s@.subrange(from as int, to as int))
        } else {
            exp_cap()
        }),
{
    let mut acc: u128 = 0;
    let mut i: usize = from;
    while i < to
        invariant
            from <= i <= to <= s@.len(),
            all_digits(s@.subrange(from as int, to as int)),
            acc == (if digits_value(s@.subrange(from as int, i as int)) < exp_cap() {
                digits_value(s@.subrange(from as int, i as int))
            } else {
                exp_cap()
            }),
        decreases to - i,
    {
        let ghost pre = s@.subrange(from as int, i as int);
        let ghost next = s@.subrange(from as int, i + 1);
        assert(next.drop_last() =~= pre);
        assert(s@.subrange(from as int, to as int)[i - from] == s@[i as int]);
        let d: u128 = ((s[i] as u32) - 48) as u128;
        proof {
            assert(all_digits(pre)) by {
                assert forall|k: int| 0 <= k < pre.len() implies is_digit(#[trigger] pre[k]) by {
                    assert(pre[k] == s@.subrange(from as int, to as int)[k]);
                }
            }
            crate::parse::lemma_digits_value_nonneg(pre);
            assert(next.last() == s@[i as int]);
            assert(digits_value(next) == digits_value(pre) * 10 + d);
        }
        if acc > 118059162071741130342 {
            acc = 0x40_0000_0000_0000_0000;
        } else {
            let v: u128 = acc * 10 + d;
            acc = if v >= 0x40_0000_0000_0000_0000 {
                0x40_0000_0000_0000_0000
            } else {
                v
            };
        }
        i = i + 1;
    }
    acc
}

/// Where the exponent part of `s` (from `from` to the end) stands: `None`
/// when malformed, else its value capped to `±2^70`.
fn exponent_exec(s: &Vec<char>, from: usize) -> (r: Option<i128>)
    requires
        from <= s@.len(),
    ensures
        r is None <==> exponent_of(s@.skip(from as int)) is None,
        r matches Some(e) ==> (exponent_of(s@.skip(from as int)) matches Some(x) && (if x
            >= exp_cap() {
            e == exp_cap()
        } else if x <= -exp_cap() {
            e == -exp_cap()
        } else {
            e == x
        })),
{
    let ghost rest = s@.skip(from as int);
    if from == s.len() {
        return Some(0);
    }
    assert(rest[0] == s@[from as int]);
    if !(s[from] == 'e' || s[from] == 'E') {
        return None;
    }
    let ghost r = rest.drop_first();
    assert(r =~= s@.skip(from + 1));
    let mut j: usize = from + 1;
    let signed = j < s.len() && (s[j] == '+' || s[j] == '-');
    let negative = signed && s[j] == '-';
    if signed {
        assert(r[0] == s@[j as int]);
        j = j + 1;
    }
    let ghost ds = if signed {
        r.drop_first()
    } else {
        r
    };
    assert(ds =~= s@.skip(j as int));
    let n = digit_run_from(s, j);
    if n == 0 || j + n != s.len() {
        proof {
            if n > 0 && ds.len() > 0 && all_digits(ds) {
                lemma_digit_run_all(ds);
            }
            if n == 0 && ds.len() > 0 {
                assert(ds[0] == s@[j as int]);
                assert(!is_digit(ds[0])) by {
                    if is_digit(ds[0]) {
                        assert(ds.drop_first() =~= s@.skip(j + 1));
                    }
                }
            }
        }
        return None;
    }
    assert(s@.subrange(j as int, j + n) =~= ds);
    let v = capped_digits_wide(s, j, j + n);
    proof {
        crate::parse::lemma_digits_value_nonneg(ds);
    }
    if negative {
        Some(-(v as i128))
    } else {
        Some(v as i128)
    }
}

/// A run of digits that spans the whole sequence has the whole length.
proof fn lemma_digit_run_all(s: Seq<char>)
    requires
        all_digits(s),
    ensures
        digit_run(s) == s.len(),
    decreases s.len(),
{
    if s.len() > 0 {
        assert(is_digit(s[0]));
        assert(all_digits(s.drop_first())) by {
            assert forall|i: int| 0 <= i < s.drop_first().len() implies is_digit(
                #[trigger] s.drop_first()[i],
            ) by {
                assert(s.drop_first()[i] == s[i + 1]);
            }
        }
        lemma_digit_run_all(s.drop_first());
    }
}

/// Scaling by a power of ten beyond the cap only matters by whether the
/// digits are zero.
pub(crate) proof fn lemma_scale_saturates(x: int, p: nat)
    requires
        x >= 1,
        p >= 19,
    ensures
        x * pow10(p) >= cap(),
    decreases p,
{
    if p == 19 {
        reveal_with_fuel(pow10, 20);
        assert(pow10(19) == 10_000_000_000_000_000_000);
        assert(x * pow10(p) >= pow10(p)) by (nonlinear_arith)
            requires
                x >= 1,
                pow10(p) >= 0,
        ;
    } else {
        lemma_scale_saturates(x, (p - 1) as nat);
        lemma_pow10_pos((p - 1) as nat);
        assert(x * pow10(p) == (x * pow10((p - 1) as nat)) * 10) by (nonlinear_arith)
            requires
                pow10(p) == 10 * pow10((p - 1) as nat),
        ;
    }
}

pub(crate) proof fn lemma_pow10_mono(a: nat, b: nat)
    requires
        a <= b,
    ensures
        pow10(a) <= pow10(b),
    decreases b,
{
    if b > a {
        lemma_pow10_mono(a, (b - 1) as nat);
        lemma_pow10_pos((b - 1) as nat);
    }
}

/// `min(scaled_trunc(digits, p), 2^63)`, for digits `s[from..to]`.
fn capped_scaled(s: &Vec<char>, p: i128) -> (r: u64)
    requires
        all_digits(s@),
        s@.len() <= 0xffff_ffff_ffff_ffff,
        -0x10_0000_0000_0000_0000_0000 <= p <= 0x10_0000_0000_0000_0000_0000,
    ensures
        r == min_cap(scaled_trunc(s@, p as int)),
{
    let nd = s.len();
    proof {
        assert(s@.subrange(0, nd as int) =~= s@);
        crate::parse::lemma_digits_value_nonneg(s@);
    }
    if p >= 0 {
        let base = capped_digits(s, 0, nd);
        let r = capped_scale_up(base, p as u128);
        r
    } else {
        let q: i128 = -p;
        if q >= nd as i128 {
            proof {
                lemma_digits_value_bounds(s@);
                lemma_pow10_mono(nd as nat, q as nat);
                let d = digits_value(s@);
                let pq = pow10(q as nat) as int;
                assert(d / pq == 0) by (nonlinear_arith)
                    requires
                        0 <= d < pq,
                ;
            }
            0
        } else {
            let keep: usize = nd - (q as usize);
            proof {
                lemma_digits_value_take_div(s@, q as nat);
                assert(s@.take(s@.len() - q) =~= s@.subrange(0, keep as int));
                assert(all_digits(s@.subrange(0, keep as int))) by {
                    assert forall|k: int| 0 <= k < keep implies is_digit(
                        #[trigger] s@.subrange(0, keep as int)[k],
                    ) by {
                        assert(s@.subrange(0, keep as int)[k] == s@[k]);
                    }
                }
            }
            capped_digits(s, 0, keep)
        }
    }
}

/// `min(nearest_trunc(digits, p), 2^63)`.
fn nearest_scaled(s: &Vec<char>, p: i128) -> (r: u64)
    requires
        all_digits(s@),
        s@.len() <= 0xffff_ffff_ffff_ffff,
        -0x10_0000_0000_0000_0000_0000 <= p <= 0x10_0000_0000_0000_0000_0000,
    ensures
        r == min_cap(nearest_trunc(s@, p as int)),
{
    let n = capped_scaled(s, p);
    nearest_capped(s, p, n)
}

/// The saturating reading of a magnitude depends on it only up to the cap.
proof fn lemma_saturate_capped(neg: bool, m: int)
    requires
        m >= 0,
    ensures
        saturate(neg, min_cap(m)) == saturate(neg, m),
{
}

/// The magnitude of an unsigned decimal number read as a double and
/// truncated, capped at `2^63`.
fn decimal_magnitude_exec(s: &Vec<char>) -> (r: Option<u64>)
    ensures
        r is None <==> decimal_magnitude(s@) is None,
        r matches Some(m) ==> (decimal_magnitude(s@) matches Some(x) && m == min_cap(x) && x >= 0),
{
    assert(s@.skip(0) =~= s@);
    let a = digit_run_from(s, 0);
    let ghost after = s@.skip(a as int);
    assert(s@.take(a as int) =~= s@.subrange(0, a as int));
    let mut fs: usize = a;
    let mut f: usize = 0;
    let mut tail: usize = a;
    if a < s.len() && s[a] == '.' {
        assert(after[0] == s@[a as int]);
        assert(after.drop_first() =~= s@.skip(a + 1));
        fs = a + 1;
        f = digit_run_from(s, fs);
        tail = fs + f;
        assert(after.drop_first().take(f as int) =~= s@.subrange(fs as int, tail as int));
        assert(after.drop_first().skip(f as int) =~= s@.skip(tail as int));
    } else {
        proof {
            if a < s@.len() {
                assert(after[0] == s@[a as int]);
            }
        }
    }
    let ghost frac = s@.subrange(fs as int, (fs + f) as int);
    if a + f == 0 {
        return None;
    }
    let e = match exponent_exec(s, tail) {
        Some(e) => e,
        None => return None,
    };
    let mut digits = slice_chars(s, 0, a);
    let fr = slice_chars(s, fs, fs + f);
    push_all(&mut digits, &fr);
    let ghost ip = s@.subrange(0, a as int);
    proof {
        assert(digits@ == ip + frac);
        assert(all_digits(digits@)) by {
            assert forall|k: int| 0 <= k < digits@.len() implies is_digit(#[trigger] digits@[k]) by {
                if k < a {
                    assert(digits@[k] == s@.subrange(0, a as int)[k]);
                } else {
                    assert(digits@[k] == s@.subrange(fs as int, (fs + f) as int)[k - a]);
                }
            }
        }
        crate::parse::lemma_digits_value_nonneg(digits@);
    }
    let p: i128 = e - (f as i128);
    let r = nearest_scaled(&digits, p);
    proof {
        let x = choose|x: int| exponent_of(s@.skip(tail as int)) == Some(x);
        assert(exponent_of(s@.skip(tail as int)) == Some(x));
        let exact = x - f;
        if x >= exp_cap() || x <= -exp_cap() {
            lemma_huge_exponent_nearest(digits@, p as int, exact);
        }
        lemma_nearest_nonneg(digits@, exact);
    }
    Some(r)
}

/// An exponent beyond the cap gives the same capped reading as the capped one.
proof fn lemma_huge_exponent_nearest(digits: Seq<char>, p: int, exact: int)
    requires
        all_digits(digits),
        digits.len() <= 0xffff_ffff_ffff_ffff,
        (p >= exp_cap() - 0xffff_ffff_ffff_ffff && exact >= p) || (p <= -exp_cap() && exact <= p),
    ensures
        min_cap(nearest_trunc(digits, p)) == min_cap(nearest_trunc(digits, exact)),
{
    let d = digits_value(digits);
    lemma_digits_value_bounds(digits);
    if p > 0 {
        if d >= 1 {
            lemma_scale_saturates(d, p as nat);
            lemma_scale_saturates(d, exact as nat);
            lemma_nearest_cap(digits, p);
            lemma_nearest_cap(digits, exact);
        } else {
            assert(d == 0);
            assert(0 * pow10(p as nat) == 0);
            assert(0 * pow10(exact as nat) == 0);
            lemma_nearest_whole(digits, p, 54);
            lemma_nearest_whole(digits, exact, 54);
            lemma_nearest_zero_whole(digits, p);
            lemma_nearest_zero_whole(digits, exact);
        }
    } else {
        lemma_nearest_small(digits, p);
        lemma_nearest_small(digits, exact);
    }
}

/// Decimal text read as a double (rounded to the nearest, ties to even),
/// truncated toward zero and saturated to `i64`.
pub fn float_text_trunc(t: &Vec<char>) -> (r: Option<i64>)
    ensures
        r == float_text_value(t@),
{
    let n = t.len();
    let signed = n > 0 && (t[0] == '+' || t[0] == '-');
    let neg = signed && t[0] == '-';
    let start: usize = if signed {
        1
    } else {
        0
    };
    let body = slice_chars(t, start, n);
    assert(signed ==> body@ =~= t@.drop_first());
    assert(!signed ==> body@ =~= t@);
    let low = lower_chars(&body);
    if chars_eq_str(&low, "inf") || chars_eq_str(&low, "infinity") {
        return Some(
            if neg {
                i64::MIN
            } else {
                i64::MAX
            },
        );
    }
    if chars_eq_str(&low, "nan") {
        return Some(0);
    }
    match decimal_magnitude_exec(&body) {
        Some(m) => {
            proof {
                let x = choose|x: int| decimal_magnitude(body@) == Some(x);
                assert(decimal_magnitude(body@) == Some(x));
                lemma_saturate_capped(neg, x);
            }
            if neg {
                if m >= 0x8000_0000_0000_0000 {
                    Some(i64::MIN)
                } else {
                    let x: i64 = m as i64;
                    Some(-x)
                }
            } else {
                if m > 0x7fff_ffff_ffff_ffff {
                    Some(i64::MAX)
                } else {
                    Some(m as i64)
                }
            }
        },
        None => None,
    }
}

} // verus!
