//! The double nearest to a non-negative decimal number, read as an integer:
//! `digits × 10^p` rounded to the nearest IEEE-754 double (ties to even),
//! then truncated toward zero. This is what reading decimal text as a
//! double and truncating it gives.

use vstd::prelude::*;

use crate::numbers::{
    cap, lemma_digits_value_bounds, lemma_pow10_mono, lemma_pow10_pos, lemma_pow2n_mono, lemma_pow2n_values, min_cap,
    pow10, pow2_u64, pow2n, scaled_trunc,
};
use crate::parse::{all_digits, digits_value, is_digit};

verus! {

/// `floor(log2(n))` for `n >= 1`.
pub open spec fn log2_floor(n: nat) -> nat
    decreases n,
{
    if n <= 1 {
        0
    } else {
        1 + log2_floor(n / 2)
    }
}

/// The fractional part of `digits × 10^p` is `frac_digits(digits, p) / 10^frac_len(p)`.
pub open spec fn frac_len(p: int) -> nat {
    if p < 0 {
        (-p) as nat
    } else {
        0
    }
}

/// The numerator of the fractional part of `digits × 10^p`.
pub open spec fn frac_num(digits: Seq<char>, p: int) -> int {
    if p < 0 {
        digits_value(digits) % (pow10(frac_len(p)) as int)
    } else {
        0
    }
}

/// The integer part of the double nearest to `x = digits × 10^p`, ties to
/// even. With `n = floor(x)`: from `2^53` up, doubles are spaced
/// `u = 2^(log2(n) - 52)` apart, and `x` rounds to the multiple of `u`
/// below or above it; below `2^53` the spacing at `x` is `2^-(k-1)`
/// (`k = 53 - log2(n)`, or `54` below one), so `x` reaches `n + 1` exactly
/// when its fractional part is at least `1 - 2^-k`.
pub open spec fn nearest_trunc(digits: Seq<char>, p: int) -> int {
    let n = scaled_trunc(digits, p);
    let m = frac_len(p);
    let f = frac_num(digits, p);
    if n >= pow2n(53) {
        let u = pow2n((log2_floor(n as nat) - 52) as nat) as int;
        let rem = n % u;
        let base = n - rem;
        let half = u / 2;
        if rem > half || (rem == half && (f > 0 || (base / u) % 2 == 1)) {
            base + u
        } else {
            base
        }
    } else {
        let k: nat = if n == 0 {
            54
        } else {
            (53 - log2_floor(n as nat)) as nat
        };
        let lhs = f * pow2n(k);
        let rhs = (pow2n(k) - 1) * pow10(m);
        if lhs > rhs || (lhs == rhs && (k >= 2 || (n + 1) % 2 == 0)) {
            n + 1
        } else {
            n
        }
    }
}

/// `2^log2(n) <= n < 2^(log2(n) + 1)`.
pub(crate) proof fn lemma_log2_floor(n: nat)
    requires
        n >= 1,
    ensures
        pow2n(log2_floor(n)) <= n < pow2n(log2_floor(n) + 1),
    decreases n,
{
    if n > 1 {
        lemma_log2_floor(n / 2);
        let l = log2_floor(n / 2);
        assert(log2_floor(n) == l + 1);
        assert(pow2n(l + 1) == 2 * pow2n(l));
        assert(pow2n(l + 2) == 2 * pow2n(l + 1));
    } else {
        assert(pow2n(1) == 2 * pow2n(0));
    }
}

/// `floor(log2(n))`.
fn log2_floor_exec(n: u64) -> (r: u32)
    requires
        n >= 1,
    ensures
        r == log2_floor(n as nat),
        r < 64,
{
    proof {
        lemma_log2_floor(n as nat);
        lemma_pow2n_values();
        if log2_floor(n as nat) >= 64 {
            lemma_pow2n_mono(64, log2_floor(n as nat));
        }
    }
    let mut x: u64 = n;
    let mut r: u32 = 0;
    while x > 1
        invariant
            1 <= x <= n,
            r + log2_floor(x as nat) == log2_floor(n as nat),
            log2_floor(n as nat) < 64,
        decreases x,
    {
        x = x / 2;
        r = r + 1;
    }
    r
}

/// The value of a run of decimal digit values.
pub open spec fn dv(s: Seq<u8>) -> int
    decreases s.len(),
{
    if s.len() == 0 {
        0
    } else {
        dv(s.drop_last()) * 10 + s.last()
    }
}

/// Every entry is a decimal digit value.
pub open spec fn digit_values(s: Seq<u8>) -> bool {
    forall|i: int| 0 <= i < s.len() ==> #[trigger] s[i] < 10
}

proof fn lemma_dv_bound(s: Seq<u8>)
    requires
        digit_values(s),
    ensures
        0 <= dv(s) < pow10(s.len()),
    decreases s.len(),
{
    if s.len() > 0 {
        let t = s.drop_last();
        assert(digit_values(t)) by {
            assert forall|i: int| 0 <= i < t.len() implies #[trigger] t[i] < 10 by {
                assert(t[i] == s[i]);
            }
        }
        lemma_dv_bound(t);
        assert(s.last() < 10);
        assert(pow10(s.len()) == 10 * pow10(t.len()));
    }
}

/// The leading digit carries `10^(len - 1)`.
proof fn lemma_dv_first(s: Seq<u8>)
    requires
        s.len() > 0,
    ensures
        dv(s) == s[0] * pow10((s.len() - 1) as nat) + dv(s.drop_first()),
    decreases s.len(),
{
    if s.len() == 1 {
        assert(dv(s.drop_last()) == 0);
        assert(dv(s.drop_first()) == 0);
        assert(s.last() == s[0]);
        assert(pow10(0) == 1);
        assert(s[0] * 1 == s[0]);
    } else {
        let t = s.drop_last();
        lemma_dv_first(t);
        assert(t.drop_first() =~= s.drop_first().drop_last());
        assert(s.drop_first().last() == s.last());
        assert(t[0] == s[0]);
        let a = pow10((t.len() - 1) as nat) as int;
        assert(pow10((s.len() - 1) as nat) == 10 * pow10((t.len() - 1) as nat));
        assert(dv(t) == t[0] * a + dv(t.drop_first()));
        assert(dv(s) == dv(t) * 10 + s.last());
        assert(dv(s) == (s[0] * a + dv(t.drop_first())) * 10 + s.last());
        assert(dv(s.drop_first()) == dv(t.drop_first()) * 10 + s.last());
        assert((s[0] * a + dv(t.drop_first())) * 10 == s[0] * (10 * a) + dv(t.drop_first()) * 10)
            by (nonlinear_arith);
    }
}

/// A digit run is worth zero exactly when every digit is zero.
proof fn lemma_dv_zero(s: Seq<u8>)
    requires
        digit_values(s),
    ensures
        dv(s) == 0 <==> forall|i: int| 0 <= i < s.len() ==> #[trigger] s[i] == 0,
    decreases s.len(),
{
    if s.len() > 0 {
        let t = s.drop_last();
        assert(digit_values(t)) by {
            assert forall|i: int| 0 <= i < t.len() implies #[trigger] t[i] < 10 by {
                assert(t[i] == s[i]);
            }
        }
        lemma_dv_zero(t);
        lemma_dv_bound(t);
        if dv(s) == 0 {
            assert(dv(t) == 0 && s.last() == 0);
            assert forall|i: int| 0 <= i < s.len() implies #[trigger] s[i] == 0 by {
                if i < t.len() {
                    assert(t[i] == s[i]);
                }
            }
        } else if forall|i: int| 0 <= i < s.len() ==> #[trigger] s[i] == 0 {
            assert forall|i: int| 0 <= i < t.len() implies #[trigger] t[i] == 0 by {
                assert(t[i] == s[i]);
            }
            assert(s[s.len() - 1] == 0);
        }
    }
}

/// The digit values of the characters `s[from..to]`.
fn values_of(s: &Vec<char>, from: usize, to: usize) -> (r: Vec<u8>)
    requires
        from <= to <= s@.len(),
        all_digits(s@),
    ensures
        digit_values(r@),
        r@.len() == to - from,
        dv(r@) == digits_value(s@.subrange(from as int, to as int)),
{
    let mut r: Vec<u8> = Vec::new();
    let mut i: usize = from;
    while i < to
        invariant
            from <= i <= to <= s@.len(),
            all_digits(s@),
            digit_values(r@),
            r@.len() == i - from,
            dv(r@) == digits_value(s@.subrange(from as int, i as int)),
        decreases to - i,
    {
        let c = s[i];
        assert(is_digit(s@[i as int]));
        let d: u8 = (c as u32 - '0' as u32) as u8;
        let ghost old_r = r@;
        r.push(d);
        proof {
            assert(r@.drop_last() =~= old_r);
            let sub = s@.subrange(from as int, i + 1);
            assert(sub.drop_last() =~= s@.subrange(from as int, i as int));
            assert(sub.last() == c);
        }
        i = i + 1;
    }
    r
}

/// Double the number the digits stand for, in place; the digit carried out
/// of the front is returned.
fn double_digits(v: &mut Vec<u8>) -> (carry: u8)
    requires
        digit_values(old(v)@),
    ensures
        digit_values(final(v)@),
        final(v)@.len() == old(v)@.len(),
        carry <= 1,
        2 * dv(old(v)@) == carry * pow10(old(v)@.len()) + dv(final(v)@),
{
    let ghost orig = v@;
    let n = v.len();
    let mut carry: u8 = 0;
    let mut i: usize = n;
    while i > 0
        invariant
            i <= n == v@.len() == orig.len(),
            carry <= 1,
            digit_values(v@),
            forall|k: int| 0 <= k < i ==> v@[k] == orig[k],
            2 * dv(orig.skip(i as int)) == carry * pow10((n - i) as nat) + dv(v@.skip(i as int)),
        decreases i,
    {
        let j = i - 1;
        let d = v[j];
        assert(d == orig[j as int]);
        let t: u8 = 2 * d + carry;
        let nd: u8 = t % 10;
        let nc: u8 = t / 10;
        let ghost before = v@;
        v.set(j, nd);
        proof {
            assert(digit_values(v@)) by {
                assert forall|k: int| 0 <= k < v@.len() implies #[trigger] v@[k] < 10 by {
                    if k != j {
                        assert(v@[k] == before[k]);
                    }
                }
            }
            let os = orig.skip(j as int);
            let ns = v@.skip(j as int);
            lemma_dv_first(os);
            lemma_dv_first(ns);
            assert(os.drop_first() =~= orig.skip(i as int));
            assert(ns.drop_first() =~= before.skip(i as int));
            assert(os[0] == d);
            assert(ns[0] == nd);
            assert(os.len() - 1 == n - i);
            let pw = pow10((n - i) as nat) as int;
            assert(pow10((n - j) as nat) == 10 * pow10((n - i) as nat));
            assert(t == nc * 10 + nd);
            assert(2 * (d * pw + dv(orig.skip(i as int))) == nc * (10 * pw) + (nd * pw + dv(
                before.skip(i as int),
            ))) by (nonlinear_arith)
                requires
                    2 * dv(orig.skip(i as int)) == carry * pw + dv(before.skip(i as int)),
                    t == 2 * d + carry,
                    t == nc * 10 + nd,
            ;
        }
        carry = nc;
        i = j;
    }
    proof {
        assert(orig.skip(0) =~= orig);
        assert(v@.skip(0) =~= v@);
    }
    carry
}

proof fn lemma_scale_below(f: int, a: nat, b: nat, big_p: int)
    requires
        a <= b,
        f >= 0,
        big_p >= 0,
        f * pow2n(a) < (pow2n(a) - 1) * big_p,
    ensures
        f * pow2n(b) < (pow2n(b) - 1) * big_p,
    decreases b - a,
{
    if a < b {
        let x = pow2n(a) as int;
        assert(pow2n(a + 1) == 2 * pow2n(a));
        assert(f * (2 * x) < (2 * x - 1) * big_p) by (nonlinear_arith)
            requires
                f * x < (x - 1) * big_p,
                big_p >= 0,
        ;
        lemma_scale_below(f, a + 1, b, big_p);
    }
}

/// Whether any digit is non-zero.
fn any_nonzero(v: &Vec<u8>) -> (r: bool)
    requires
        digit_values(v@),
    ensures
        r == (dv(v@) > 0),
{
    proof {
        lemma_dv_zero(v@);
        lemma_dv_bound(v@);
    }
    let mut i: usize = 0;
    while i < v.len()
        invariant
            i <= v@.len(),
            forall|k: int| 0 <= k < i ==> #[trigger] v@[k] == 0,
            dv(v@) >= 0,
            dv(v@) == 0 <==> forall|k: int| 0 <= k < v@.len() ==> #[trigger] v@[k] == 0,
        decreases v@.len() - i,
    {
        if v[i] != 0 {
            return true;
        }
        i = i + 1;
    }
    false
}

/// How the fraction `f / 10^m` held in `v` (`m` digits) compares with
/// `1 - 2^-k`: whether `f × 2^k` is above `(2^k - 1) × 10^m`, and whether it
/// is equal. The fraction is doubled `k` times; it stays at or above the
/// threshold only while each doubling carries a one out.
fn frac_vs_threshold(v: Vec<u8>, k: u32) -> (r: (bool, bool))
    requires
        digit_values(v@),
    ensures
        r.0 == (dv(v@) * pow2n(k as nat) > (pow2n(k as nat) - 1) * pow10(v@.len())),
        r.1 == (dv(v@) * pow2n(k as nat) == (pow2n(k as nat) - 1) * pow10(v@.len())),
{
    let ghost f = dv(v@);
    let ghost big_p = pow10(v@.len()) as int;
    let ghost m = v@.len();
    proof {
        lemma_dv_bound(v@);
        assert(pow2n(0) == 1);
    }
    let mut w = v;
    let mut j: u32 = 0;
    while j < k
        invariant
            j <= k,
            digit_values(w@),
            w@.len() == m,
            big_p == pow10(m),
            0 <= dv(w@) < big_p,
            f * pow2n(j as nat) == (pow2n(j as nat) - 1) * big_p + dv(w@),
            f >= 0,
            f == dv(v@),
            big_p == pow10(v@.len()),
        decreases k - j,
    {
        let ghost before = dv(w@);
        let c = double_digits(&mut w);
        proof {
            lemma_dv_bound(w@);
            assert(pow2n((j + 1) as nat) == 2 * pow2n(j as nat));
            let x = pow2n(j as nat) as int;
            assert(f * (2 * x) == (2 * x - 2) * big_p + 2 * before) by (nonlinear_arith)
                requires
                    f * x == (x - 1) * big_p + before,
            ;
            assert(2 * before == c * big_p + dv(w@));
            assert(f * (2 * x) == (2 * x - 2) * big_p + c * big_p + dv(w@));
            if c == 1 {
                assert(f * (2 * x) == (2 * x - 1) * big_p + dv(w@)) by (nonlinear_arith)
                    requires
                        f * (2 * x) == (2 * x - 2) * big_p + 1 * big_p + dv(w@),
                ;
            } else {
                assert(c == 0);
                assert(f * (2 * x) < (2 * x - 1) * big_p) by (nonlinear_arith)
                    requires
                        f * (2 * x) == (2 * x - 2) * big_p + 0 * big_p + dv(w@),
                        dv(w@) < big_p,
                ;
            }
        }
        if c == 0 {
            proof {
                lemma_scale_below(f, (j + 1) as nat, k as nat, big_p);
            }
            return (false, false);
        }
        j = j + 1;
    }
    let above = any_nonzero(&w);
    (above, !above)
}

proof fn lemma_pow2n_add(a: nat, b: nat)
    ensures
        pow2n(a + b) == pow2n(a) * pow2n(b),
    decreases b,
{
    if b > 0 {
        let c = (b - 1) as nat;
        lemma_pow2n_add(a, c);
        assert(a + b == (a + c) + 1);
        assert(pow2n(a + b) == 2 * pow2n(a + c));
        assert(pow2n(b) == 2 * pow2n(c));
        assert(pow2n(a) * (2 * pow2n(c)) == 2 * (pow2n(a) * pow2n(c))) by (nonlinear_arith);
    } else {
        assert(a + b == a);
        assert(pow2n(0) == 1);
        assert(pow2n(a) * 1 == pow2n(a));
    }
}

/// Digits split at `q` from the end: the front scaled by `10^q`, plus the
/// last `q` digits.
proof fn lemma_digits_split(s: Seq<char>, q: nat)
    requires
        all_digits(s),
        q <= s.len(),
    ensures
        digits_value(s) == digits_value(s.take(s.len() - q)) * pow10(q) + digits_value(
            s.skip(s.len() - q),
        ),
        0 <= digits_value(s.skip(s.len() - q)) < pow10(q),
    decreases q,
{
    let t = s.skip(s.len() - q);
    assert(all_digits(t)) by {
        assert forall|i: int| 0 <= i < t.len() implies is_digit(#[trigger] t[i]) by {
            assert(t[i] == s[s.len() - q + i]);
        }
    }
    lemma_digits_value_bounds(t);
    if q == 0 {
        assert(s.take(s.len() as int) =~= s);
        assert(digits_value(t) == 0);
        assert(pow10(0) == 1);
        assert(digits_value(s) * 1 == digits_value(s));
    } else {
        let u = s.drop_last();
        assert(all_digits(u)) by {
            assert forall|i: int| 0 <= i < u.len() implies is_digit(#[trigger] u[i]) by {
                assert(u[i] == s[i]);
            }
        }
        lemma_digits_split(u, (q - 1) as nat);
        assert(u.take(u.len() - (q - 1)) =~= s.take(s.len() - q));
        let tu = u.skip(u.len() - (q - 1));
        assert(t.drop_last() =~= tu);
        assert(t.last() == s.last());
        let d = (s.last() as int) - ('0' as int);
        let front = digits_value(s.take(s.len() - q));
        let pw = pow10((q - 1) as nat) as int;
        assert(pow10(q) == 10 * pow10((q - 1) as nat));
        assert(digits_value(s) == digits_value(u) * 10 + d);
        assert(digits_value(t) == digits_value(tu) * 10 + d);
        assert(digits_value(u) == front * pw + digits_value(tu));
        assert((front * pw + digits_value(tu)) * 10 + d == front * (10 * pw) + (digits_value(tu) * 10
            + d)) by (nonlinear_arith);
    }
}

/// The fractional numerator is the value of the last `-p` digits.
proof fn lemma_frac_num(digits: Seq<char>, p: int)
    requires
        all_digits(digits),
        p < 0,
        frac_len(p) <= digits.len(),
    ensures
        frac_num(digits, p) == digits_value(digits.skip(digits.len() - frac_len(p))),
{
    let q = frac_len(p);
    lemma_digits_split(digits, q);
    lemma_pow10_pos(q);
    let front = digits_value(digits.take(digits.len() - q));
    vstd::arithmetic::div_mod::lemma_fundamental_div_mod_converse(
        digits_value(digits),
        pow10(q) as int,
        front,
        digits_value(digits.skip(digits.len() - q)),
    );
}

/// A number at or above `2^63` reads as at least `2^63`.
pub(crate) proof fn lemma_nearest_cap(digits: Seq<char>, p: int)
    requires
        scaled_trunc(digits, p) >= cap(),
    ensures
        nearest_trunc(digits, p) >= cap(),
{
    let n = scaled_trunc(digits, p);
    let l = log2_floor(n as nat);
    lemma_log2_floor(n as nat);
    lemma_pow2n_values();
    reveal_with_fuel(pow2n, 64);
    assert(pow2n(63) == cap());
    assert(pow2n(53) <= pow2n(63)) by {
        lemma_pow2n_mono(53, 63);
    }
    if l < 63 {
        lemma_pow2n_mono(l + 1, 63);
    }
    assert(l >= 63);
    let e = (l - 52) as nat;
    lemma_pow2n_add(e, 52);
    assert(e + 52 == l);
    let u = pow2n(e) as int;
    lemma_pow2n_mono(0, e);
    assert(u >= 1);
    let top = pow2n(l) as int;
    assert(top == u * pow2n(52));
    vstd::arithmetic::div_mod::lemma_div_is_ordered(top, n, u);
    vstd::arithmetic::div_mod::lemma_div_multiples_vanish(pow2n(52) as int, u);
    assert(top / u == pow2n(52)) by {
        assert(top == u * pow2n(52));
    }
    vstd::arithmetic::div_mod::lemma_fundamental_div_mod(n, u);
    let base = n - n % u;
    assert(base == u * (n / u));
    assert(u * (n / u) >= u * pow2n(52)) by (nonlinear_arith)
        requires
            n / u >= pow2n(52),
            u >= 1,
    ;
    lemma_pow2n_mono(63, l);
    assert(base >= top);
}

/// A number whose digits all lie after the point, with leading zeros,
/// reads as zero.
pub(crate) proof fn lemma_nearest_small(digits: Seq<char>, p: int)
    requires
        all_digits(digits),
        p < 0,
        frac_len(p) > digits.len(),
    ensures
        scaled_trunc(digits, p) == 0,
        nearest_trunc(digits, p) == 0,
{
    let m = frac_len(p);
    let len = digits.len();
    let d = digits_value(digits);
    lemma_digits_value_bounds(digits);
    lemma_pow10_mono(len + 1, m);
    assert(pow10(len + 1) == 10 * pow10(len));
    let big = pow10(m) as int;
    let small = pow10(len) as int;
    assert(d / big == 0) by (nonlinear_arith)
        requires
            0 <= d < small,
            10 * small <= big,
    ;
    assert(d % big == d) by {
        vstd::arithmetic::div_mod::lemma_fundamental_div_mod_converse(d, big, 0, d);
    }
    assert(frac_num(digits, p) == d);
    let k: nat = 54;
    lemma_pow2n_mono(1, k);
    assert(pow2n(1) == 2 * pow2n(0));
    let x = pow2n(k) as int;
    assert(d * x < (x - 1) * big) by (nonlinear_arith)
        requires
            0 <= d < small,
            10 * small <= big,
            x >= 2,
    ;
}

/// A number without a fractional part below `2^53` reads as itself.
pub(crate) proof fn lemma_nearest_whole(digits: Seq<char>, p: int, k: nat)
    requires
        p >= 0,
        k >= 1,
    ensures
        0 * pow2n(k) < (pow2n(k) - 1) * pow10(frac_len(p)),
{
    lemma_pow2n_mono(1, k);
    assert(pow2n(1) == 2 * pow2n(0));
    assert(frac_len(p) == 0);
    assert(pow10(0) == 1);
    let x = pow2n(k) as int;
    assert(0 * x < (x - 1) * 1) by (nonlinear_arith)
        requires
            x >= 2,
    ;
}

proof fn lemma_pow2n_consts()
    ensures
        pow2n(53) == 0x20_0000_0000_0000,
        pow2n(63) == 0x8000_0000_0000_0000,
        pow2n(1) == 2,
{
    reveal_with_fuel(pow2n, 64);
}

/// Whether the fractional part of `digits × 10^p` is non-zero, for a number
/// of at least one.
fn has_fraction(digits: &Vec<char>, p: i128) -> (r: bool)
    requires
        all_digits(digits@),
        scaled_trunc(digits@, p as int) >= 1,
        -0x10_0000_0000_0000_0000_0000 <= p,
    ensures
        r == (frac_num(digits@, p as int) > 0),
{
    let len = digits.len();
    if p >= 0 {
        return false;
    }
    let m = (-p) as u128;
    if m > len as u128 {
        proof {
            lemma_nearest_small(digits@, p as int);
        }
        return false;
    }
    let mm = m as usize;
    let v = values_of(digits, len - mm, len);
    proof {
        lemma_frac_num(digits@, p as int);
        assert(digits@.subrange((len - mm) as int, len as int) =~= digits@.skip(
            digits@.len() - frac_len(p as int),
        ));
    }
    any_nonzero(&v)
}

/// The rounding from `2^53` up, where doubles are integers `u` apart.
fn nearest_high(digits: &Vec<char>, p: i128, n: u64) -> (r: u64)
    requires
        all_digits(digits@),
        n == scaled_trunc(digits@, p as int),
        0x20_0000_0000_0000 <= n < 0x8000_0000_0000_0000,
        -0x10_0000_0000_0000_0000_0000 <= p,
    ensures
        r == min_cap(nearest_trunc(digits@, p as int)),
{
    proof {
        lemma_pow2n_consts();
    }
    let l = log2_floor_exec(n);
    proof {
        lemma_log2_floor(n as nat);
        if l < 53 {
            lemma_pow2n_mono(l as nat + 1, 53);
        }
        if l > 62 {
            lemma_pow2n_mono(63, l as nat);
        }
    }
    let u = pow2_u64((l - 52) as u64);
    proof {
        lemma_pow2n_mono(0, (l - 52) as nat);
        lemma_pow2n_mono((l - 52) as nat, 10);
        lemma_pow2n_values();
    }
    let rem = n % u;
    let base = n - rem;
    let half = u / 2;
    let sticky = has_fraction(digits, p);
    let up = rem > half || (rem == half && (sticky || (base / u) % 2 == 1));
    let v: u64 = if up {
        base + u
    } else {
        base
    };
    if v > 0x8000_0000_0000_0000 {
        0x8000_0000_0000_0000
    } else {
        v
    }
}

/// The rounding below `2^53`: `n` or `n + 1`.
fn nearest_low(digits: &Vec<char>, p: i128, n: u64) -> (r: u64)
    requires
        all_digits(digits@),
        n == scaled_trunc(digits@, p as int),
        n < 0x20_0000_0000_0000,
        -0x10_0000_0000_0000_0000_0000 <= p,
    ensures
        r == min_cap(nearest_trunc(digits@, p as int)),
{
    proof {
        lemma_pow2n_consts();
    }
    let len = digits.len();
    let k: u32 = if n == 0 {
        54
    } else {
        let l = log2_floor_exec(n);
        proof {
            lemma_log2_floor(n as nat);
            if l > 52 {
                lemma_pow2n_mono(53, l as nat);
            }
        }
        53 - l
    };
    if p >= 0 {
        proof {
            lemma_nearest_whole(digits@, p as int, k as nat);
            assert(frac_num(digits@, p as int) == 0);
        }
        return n;
    }
    let m = (-p) as u128;
    if m > len as u128 {
        proof {
            lemma_nearest_small(digits@, p as int);
        }
        return n;
    }
    let mm = m as usize;
    let v = values_of(digits, len - mm, len);
    proof {
        lemma_frac_num(digits@, p as int);
        assert(digits@.subrange((len - mm) as int, len as int) =~= digits@.skip(
            digits@.len() - frac_len(p as int),
        ));
    }
    let (above, equal) = frac_vs_threshold(v, k);
    let up = above || (equal && (k >= 2 || (n + 1) % 2 == 0));
    if up {
        n + 1
    } else {
        n
    }
}

/// `min(nearest_trunc(digits, p), 2^63)`, given
/// `n = min(scaled_trunc(digits, p), 2^63)`.
pub(crate) fn nearest_capped(digits: &Vec<char>, p: i128, n: u64) -> (r: u64)
    requires
        all_digits(digits@),
        n == min_cap(scaled_trunc(digits@, p as int)),
        -0x10_0000_0000_0000_0000_0000 <= p,
    ensures
        r == min_cap(nearest_trunc(digits@, p as int)),
{
    proof {
        lemma_scaled_nonneg(digits@, p as int);
    }
    if n >= 0x8000_0000_0000_0000 {
        proof {
            lemma_nearest_cap(digits@, p as int);
        }
        return 0x8000_0000_0000_0000;
    }
    if n >= 0x20_0000_0000_0000 {
        nearest_high(digits, p, n)
    } else {
        nearest_low(digits, p, n)
    }
}

/// A whole number of zero reads as zero.
pub(crate) proof fn lemma_nearest_zero_whole(digits: Seq<char>, p: int)
    requires
        p >= 0,
        scaled_trunc(digits, p) == 0,
    ensures
        nearest_trunc(digits, p) == 0,
{
    lemma_pow2n_consts();
    lemma_nearest_whole(digits, p, 54);
}

/// The reading of a non-negative number is non-negative.
pub(crate) proof fn lemma_nearest_nonneg(digits: Seq<char>, p: int)
    requires
        all_digits(digits),
    ensures
        scaled_trunc(digits, p) >= 0,
        nearest_trunc(digits, p) >= 0,
{
    lemma_scaled_nonneg(digits, p);
    let n = scaled_trunc(digits, p);
    if n >= pow2n(53) {
        let u = pow2n((log2_floor(n as nat) - 52) as nat) as int;
        lemma_pow2n_mono(0, (log2_floor(n as nat) - 52) as nat);
        assert(pow2n(0) == 1);
        assert(n % u <= n) by {
            vstd::arithmetic::div_mod::lemma_fundamental_div_mod(n, u);
            assert(n / u >= 0) by {
                vstd::arithmetic::div_mod::lemma_div_pos_is_pos(n, u);
            }
            assert(u * (n / u) >= 0) by (nonlinear_arith)
                requires
                    u >= 1,
                    n / u >= 0,
            ;
        }
    }
}

/// A decimal number is non-negative.
proof fn lemma_scaled_nonneg(digits: Seq<char>, p: int)
    requires
        all_digits(digits),
    ensures
        scaled_trunc(digits, p) >= 0,
{
    lemma_digits_value_bounds(digits);
    if p >= 0 {
        lemma_pow10_pos(p as nat);
        assert(digits_value(digits) * pow10(p as nat) >= 0) by (nonlinear_arith)
            requires
                digits_value(digits) >= 0,
        ;
    } else {
        lemma_pow10_pos((-p) as nat);
        vstd::arithmetic::div_mod::lemma_div_pos_is_pos(digits_value(digits), pow10((-p) as nat) as int);
    }
}

} // verus!
