//! Integer parsing (`str::parse::<i64>`) and whitespace tokenizing
//! (`str::split_whitespace`) on characters.

use vstd::prelude::*;

use crate::text::{is_ws, is_ws_exec};

verus! {

/// An ASCII decimal digit.
pub open spec fn is_digit(c: char) -> bool {
    '0' <= c && c <= '9'
}

/// Every character is an ASCII decimal digit.
pub open spec fn all_digits(s: Seq<char>) -> bool {
    forall|i: int| 0 <= i < s.len() ==> is_digit(#[trigger] s[i])
}

/// The value of a run of decimal digits.
pub open spec fn digits_value(s: Seq<char>) -> int
    decreases s.len(),
{
    if s.len() == 0 {
        0
    } else {
        digits_value(s.drop_last()) * 10 + ((s.last() as int) - ('0' as int))
    }
}

/// The integer written by `s` in the grammar of `i64::from_str`: an optional
/// `+` or `-`, then one or more ASCII digits, nothing else.
pub open spec fn int_text(s: Seq<char>) -> Option<int> {
    if s.len() > 0 && (s[0] == '+' || s[0] == '-') {
        let rest = s.drop_first();
        if rest.len() > 0 && all_digits(rest) {
            Some(
                if s[0] == '-' {
                    -digits_value(rest)
                } else {
                    digits_value(rest)
                },
            )
        } else {
            None
        }
    } else if s.len() > 0 && all_digits(s) {
        Some(digits_value(s))
    } else {
        None
    }
}

/// What `str::parse::<i64>` returns: the written integer when it fits.
pub open spec fn i64_text(s: Seq<char>) -> Option<i64> {
    match int_text(s) {
        Some(v) => if i64::MIN <= v <= i64::MAX {
            Some(v as i64)
        } else {
            None
        },
        None => None,
    }
}

/// Digits have a non-negative value.
pub proof fn lemma_digits_value_nonneg(s: Seq<char>)
    requires
        all_digits(s),
    ensures
        digits_value(s) >= 0,
    decreases s.len(),
{
    if s.len() > 0 {
        assert(all_digits(s.drop_last())) by {
            assert forall|i: int| 0 <= i < s.drop_last().len() implies is_digit(
                #[trigger] s.drop_last()[i],
            ) by {
                assert(s.drop_last()[i] == s[i]);
            }
        }
        lemma_digits_value_nonneg(s.drop_last());
        assert(is_digit(s[s.len() - 1]));
    }
}

/// The value of the digits `s[start..]`, or `None` once it exceeds `limit`.
fn digits_upto(s: &Vec<char>, start: usize, limit: u64) -> (r: Option<u64>)
    requires
        start <= s@.len(),
        all_digits(s@.skip(start as int)),
    ensures
        r matches Some(v) ==> v == digits_value(s@.skip(start as int)) && v <= limit,
        r is None ==> digits_value(s@.skip(start as int)) > limit,
{
    let mut acc: u64 = 0;
    let mut i: usize = start;
    while i < s.len()
        invariant
            start <= i <= s@.len(),
            all_digits(s@.skip(start as int)),
            acc == digits_value(s@.subrange(start as int, i as int)),
            acc <= limit,
        decreases s@.len() - i,
    {
        let ghost pre = s@.subrange(start as int, i as int);
        let ghost next = s@.subrange(start as int, i + 1);
        assert(next.drop_last() =~= pre);
        assert(s@.skip(start as int)[i - start] == s@[i as int]);
        let c = s[i];
        let d: u64 = ((c as u32) - 48) as u64;
        assert(digits_value(next) == acc * 10 + d);
        if d > limit {
            proof {
                lemma_prefix_value_grows(s@.skip(start as int), (i - start + 1) as int);
                assert(s@.skip(start as int).subrange(0, i - start + 1) =~= next);
                lemma_digits_value_nonneg(pre);
                assert(all_digits(pre)) by {
                    assert forall|k: int| 0 <= k < pre.len() implies is_digit(#[trigger] pre[k]) by {
                        assert(pre[k] == s@.skip(start as int)[k]);
                    }
                }
            }
            return None;
        }
        if acc > (limit - d) / 10 {
            proof {
                lemma_prefix_value_grows(s@.skip(start as int), (i - start + 1) as int);
                assert(s@.skip(start as int).subrange(0, i - start + 1) =~= next);
                assert(acc * 10 + d > limit) by (nonlinear_arith)
                    requires
                        acc > (limit - d) / 10,
                        d <= limit,
                ;
            }
            return None;
        }
        assert(acc * 10 + d <= limit) by (nonlinear_arith)
            requires
                acc <= (limit - d) / 10,
                d <= limit,
        ;
        acc = acc * 10 + d;
        i = i + 1;
    }
    assert(s@.subrange(start as int, s@.len() as int) =~= s@.skip(start as int));
    Some(acc)
}

/// The value of the first `k` digits never exceeds the value of all of them.
proof fn lemma_prefix_value_grows(s: Seq<char>, k: int)
    requires
        all_digits(s),
        0 <= k <= s.len(),
    ensures
        digits_value(s.subrange(0, k)) <= digits_value(s),
    decreases s.len(),
{
    if k < s.len() {
        let t = s.drop_last();
        assert(all_digits(t)) by {
            assert forall|i: int| 0 <= i < t.len() implies is_digit(#[trigger] t[i]) by {
                assert(t[i] == s[i]);
            }
        }
        lemma_prefix_value_grows(t, k);
        assert(t.subrange(0, k) =~= s.subrange(0, k));
        lemma_digits_value_nonneg(t);
        assert(is_digit(s[s.len() - 1]));
        assert(digits_value(t) <= digits_value(t) * 10);
    } else {
        assert(s.subrange(0, k) =~= s);
    }
}

/// Whether `s[start..]` is all digits (executable).
fn digits_from(s: &Vec<char>, start: usize) -> (r: bool)
    requires
        start <= s@.len(),
    ensures
        r == all_digits(s@.skip(start as int)),
{
    let mut i: usize = start;
    while i < s.len()
        invariant
            start <= i <= s@.len(),
            forall|k: int| start <= k < i ==> is_digit(#[trigger] s@[k]),
        decreases s@.len() - i,
    {
        if !(s[i] >= '0' && s[i] <= '9') {
            proof {
                assert(s@.skip(start as int)[i - start] == s@[i as int]);
            }
            return false;
        }
        i = i + 1;
    }
    proof {
        assert forall|k: int| 0 <= k < s@.skip(start as int).len() implies is_digit(
            #[trigger] s@.skip(start as int)[k],
        ) by {
            assert(s@.skip(start as int)[k] == s@[start + k]);
        }
    }
    true
}

/// `str::parse::<i64>`.
pub fn parse_i64(s: &Vec<char>) -> (r: Option<i64>)
    ensures
        r == i64_text(s@),
{
    if s.len() == 0 {
        return None;
    }
    let signed = s[0] == '+' || s[0] == '-';
    let start: usize = if signed {
        1
    } else {
        0
    };
    assert(s@.drop_first() =~= s@.skip(1));
    assert(s@ =~= s@.skip(0));
    if start == s.len() || !digits_from(s, start) {
        return None;
    }
    let negative = s[0] == '-';
    let limit: u64 = if negative {
        9223372036854775808
    } else {
        9223372036854775807
    };
    match digits_upto(s, start, limit) {
        Some(mag) => {
            if negative {
                if mag == 9223372036854775808 {
                    Some(i64::MIN)
                } else {
                    let m: i64 = mag as i64;
                    Some(-m)
                }
            } else {
                Some(mag as i64)
            }
        },
        None => None,
    }
}

/// The whitespace-separated words of `s` (`str::split_whitespace`).
pub open spec fn words(s: Seq<char>) -> Seq<Seq<char>>
    decreases s.len(),
{
    words_acc(s, Seq::empty())
}

/// Words of `s`, where `cur` is the word being read when `s` begins.
pub open spec fn words_acc(s: Seq<char>, cur: Seq<char>) -> Seq<Seq<char>>
    decreases s.len(),
{
    if s.len() == 0 {
        if cur.len() > 0 {
            seq![cur]
        } else {
            Seq::empty()
        }
    } else if is_ws(s[0]) {
        if cur.len() > 0 {
            seq![cur] + words_acc(s.drop_first(), Seq::empty())
        } else {
            words_acc(s.drop_first(), Seq::empty())
        }
    } else {
        words_acc(s.drop_first(), cur.push(s[0]))
    }
}

/// `str::split_whitespace`, collected.
pub fn split_words(s: &Vec<char>) -> (r: Vec<Vec<char>>)
    ensures
        r@.len() == words(s@).len(),
        forall|i: int| 0 <= i < r@.len() ==> (#[trigger] r@[i])@ == words(s@)[i],
{
    let mut out: Vec<Vec<char>> = Vec::new();
    let mut cur: Vec<char> = Vec::new();
    let mut i: usize = 0;
    proof {
        assert(s@.skip(0) =~= s@);
    }
    while i < s.len()
        invariant
            i <= s@.len(),
            words(s@) =~= Seq::new(out@.len(), |k: int| out@[k]@) + words_acc(
                s@.skip(i as int),
                cur@,
            ),
        decreases s@.len() - i,
    {
        let ghost before = Seq::new(out@.len(), |k: int| out@[k]@);
        let ghost rest = s@.skip(i as int);
        assert(rest.drop_first() =~= s@.skip(i + 1));
        assert(rest[0] == s@[i as int]);
        let c = s[i];
        let ghost cur0 = cur@;
        if is_ws_exec(c) {
            if cur.len() > 0 {
                assert(words_acc(rest, cur0) == seq![cur0] + words_acc(rest.drop_first(), Seq::empty()));
                let word = cur;
                cur = Vec::new();
                out.push(word);
                assert(Seq::new(out@.len(), |k: int| out@[k]@) =~= before.push(word@));
                assert(cur@ =~= Seq::<char>::empty());
            } else {
                assert(cur0 =~= Seq::<char>::empty());
                assert(words_acc(rest, cur0) == words_acc(rest.drop_first(), Seq::empty()));
            }
        } else {
            assert(words_acc(rest, cur0) == words_acc(rest.drop_first(), cur0.push(c)));
            cur.push(c);
        }
        i = i + 1;
    }
    let ghost before = Seq::new(out@.len(), |k: int| out@[k]@);
    assert(s@.skip(i as int) =~= Seq::<char>::empty());
    if cur.len() > 0 {
        out.push(cur);
        assert(Seq::new(out@.len(), |k: int| out@[k]@) =~= before.push(
            Seq::new(out@.len(), |k: int| out@[k]@).last(),
        ));
    }
    assert(words(s@) =~= Seq::new(out@.len(), |k: int| out@[k]@));
    out
}

/// The pieces of `s` between occurrences of `sep` (`str::split`), keeping
/// empty pieces.
pub open spec fn split_on(s: Seq<char>, sep: char) -> Seq<Seq<char>>
    decreases s.len(),
{
    split_on_acc(s, sep, Seq::empty())
}

/// Pieces of `s`, where `cur` is the piece being read when `s` begins.
pub open spec fn split_on_acc(s: Seq<char>, sep: char, cur: Seq<char>) -> Seq<Seq<char>>
    decreases s.len(),
{
    if s.len() == 0 {
        seq![cur]
    } else if s[0] == sep {
        seq![cur] + split_on_acc(s.drop_first(), sep, Seq::empty())
    } else {
        split_on_acc(s.drop_first(), sep, cur.push(s[0]))
    }
}

/// `str::split(sep)`, collected.
pub fn split_chars(s: &Vec<char>, sep: char) -> (r: Vec<Vec<char>>)
    ensures
        r@.len() == split_on(s@, sep).len(),
        forall|i: int| 0 <= i < r@.len() ==> (#[trigger] r@[i])@ == split_on(s@, sep)[i],
{
    let mut out: Vec<Vec<char>> = Vec::new();
    let mut cur: Vec<char> = Vec::new();
    let mut i: usize = 0;
    proof {
        assert(s@.skip(0) =~= s@);
    }
    while i < s.len()
        invariant
            i <= s@.len(),
            split_on(s@, sep) =~= Seq::new(out@.len(), |k: int| out@[k]@) + split_on_acc(
                s@.skip(i as int),
                sep,
                cur@,
            ),
        decreases s@.len() - i,
    {
        let ghost before = Seq::new(out@.len(), |k: int| out@[k]@);
        let ghost rest = s@.skip(i as int);
        assert(rest.drop_first() =~= s@.skip(i + 1));
        assert(rest[0] == s@[i as int]);
        let c = s[i];
        if c == sep {
            let piece = cur;
            cur = Vec::new();
            out.push(piece);
            assert(Seq::new(out@.len(), |k: int| out@[k]@) =~= before.push(piece@));
            assert(cur@ =~= Seq::<char>::empty());
        } else {
            cur.push(c);
        }
        i = i + 1;
    }
    let ghost before = Seq::new(out@.len(), |k: int| out@[k]@);
    assert(s@.skip(i as int) =~= Seq::<char>::empty());
    out.push(cur);
    assert(Seq::new(out@.len(), |k: int| out@[k]@) =~= before.push(
        Seq::new(out@.len(), |k: int| out@[k]@).last(),
    ));
    assert(split_on(s@, sep) =~= Seq::new(out@.len(), |k: int| out@[k]@));
    out
}

} // verus!
