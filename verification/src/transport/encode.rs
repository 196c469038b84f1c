//! Percent-encoding of path segments and query values, and URL assembly.

use vstd::prelude::*;

use vstd::string::StringSliceAdditionalSpecFns;
use vstd::utf8::encode_utf8;

use crate::text::{char_from_ascii, chars_of, string_from_chars};

verus! {

/// A byte of the unreserved set `A-Za-z0-9-._~`, which is kept as is.
pub open spec fn unreserved(b: u8) -> bool {
    (65 <= b <= 90) || (97 <= b <= 122) || (48 <= b <= 57) || b == 45 || b == 46 || b == 95 || b
        == 126
}

/// The upper-case hexadecimal digit for `d < 16`.
pub open spec fn hex_upper(d: u8) -> char {
    if d < 10 {
        (48 + d) as char
    } else {
        (55 + d) as char
    }
}

/// The encoding of one byte: itself when unreserved, else `%` and two
/// upper-case hex digits.
pub open spec fn pct_byte(b: u8) -> Seq<char> {
    if unreserved(b) {
        seq![b as char]
    } else {
        seq!['%', hex_upper(b / 16), hex_upper(b % 16)]
    }
}

/// The percent-encoding of a byte string.
pub open spec fn pct_encoded(bytes: Seq<u8>) -> Seq<char>
    decreases bytes.len(),
{
    if bytes.len() == 0 {
        Seq::empty()
    } else {
        pct_encoded(bytes.drop_last()) + pct_byte(bytes.last())
    }
}

/// A character that may appear in percent-encoded text: an unreserved
/// character or `%`.
pub open spec fn encoded_char(c: char) -> bool {
    ('A' <= c && c <= 'Z') || ('a' <= c && c <= 'z') || ('0' <= c && c <= '9') || c == '-' || c
        == '.' || c == '_' || c == '~' || c == '%'
}

fn hex_upper_exec(d: u8) -> (c: char)
    requires
        d < 16,
    ensures
        c == hex_upper(d),
{
    if d < 10 {
        char_from_ascii((48 + d) as u32)
    } else {
        char_from_ascii((55 + d) as u32)
    }
}

/// Percent-encode a byte string into `out`.
fn pct_encode_bytes(bytes: &[u8], out: &mut Vec<char>)
    ensures
        final(out)@ == old(out)@ + pct_encoded(bytes@),
{
    let mut i: usize = 0;
    while i < bytes.len()
        invariant
            i <= bytes@.len(),
            out@ == old(out)@ + pct_encoded(bytes@.subrange(0, i as int)),
        decreases bytes@.len() - i,
    {
        let b = bytes[i];
        let ghost before = out@;
        if (65 <= b && b <= 90) || (97 <= b && b <= 122) || (48 <= b && b <= 57) || b == 45 || b
            == 46 || b == 95 || b == 126 {
            out.push(char_from_ascii(b as u32));
        } else {
            out.push('%');
            out.push(hex_upper_exec(b / 16));
            out.push(hex_upper_exec(b % 16));
        }
        proof {
            let pre = bytes@.subrange(0, i + 1);
            assert(pre.drop_last() =~= bytes@.subrange(0, i as int));
            assert(pre.last() == b);
            assert(out@ =~= before + pct_byte(b));
        }
        i = i + 1;
    }
    proof {
        assert(bytes@.subrange(0, bytes@.len() as int) =~= bytes@);
    }
}

/// Percent-encode reserved bytes of the UTF-8 encoding of `s`, keeping the
/// unreserved set (`A-Za-z0-9-._~`).
pub fn pct_encode(s: &str) -> (r: String)
    ensures
        r@ == pct_encoded(s.spec_bytes()),
{
    let mut out: Vec<char> = Vec::new();
    pct_encode_bytes(s.as_bytes(), &mut out);
    string_from_chars(&out)
}

/// Encode a single dynamic path segment (job or preset id, stats period or
/// filter) so it cannot inject extra path structure.
pub fn encode_segment(s: &str) -> (r: String)
    ensures
        r@ == pct_encoded(s.spec_bytes()),
{
    pct_encode(s)
}

/// The value of a hexadecimal digit character.
pub open spec fn hex_value(c: char) -> Option<u8> {
    if '0' <= c && c <= '9' {
        Some(((c as u32) - 48) as u8)
    } else if 'A' <= c && c <= 'F' {
        Some(((c as u32) - 55) as u8)
    } else if 'a' <= c && c <= 'f' {
        Some(((c as u32) - 87) as u8)
    } else {
        None
    }
}

/// Percent-decoding: each `%XY` gives the byte `0xXY`, each unreserved
/// character its own byte; `None` for anything else.
pub open spec fn pct_decoded(t: Seq<char>) -> Option<Seq<u8>>
    decreases t.len(),
{
    if t.len() == 0 {
        Some(Seq::empty())
    } else if t[0] == '%' {
        if t.len() >= 3 && hex_value(t[1]) is Some && hex_value(t[2]) is Some {
            match pct_decoded(t.skip(3)) {
                Some(rest) => Some(
                    seq![(hex_value(t[1])->0 * 16 + hex_value(t[2])->0) as u8] + rest,
                ),
                None => None,
            }
        } else {
            None
        }
    } else if (t[0] as u32) < 128 && unreserved(t[0] as u8) {
        match pct_decoded(t.skip(1)) {
            Some(rest) => Some(seq![t[0] as u8] + rest),
            None => None,
        }
    } else {
        None
    }
}

/// Encoding distributes over concatenation.
proof fn lemma_pct_encoded_concat(a: Seq<u8>, b: Seq<u8>)
    ensures
        pct_encoded(a + b) == pct_encoded(a) + pct_encoded(b),
    decreases b.len(),
{
    if b.len() == 0 {
        assert(a + b =~= a);
        assert(pct_encoded(a) + pct_encoded(b) =~= pct_encoded(a));
    } else {
        lemma_pct_encoded_concat(a, b.drop_last());
        assert((a + b).drop_last() =~= a + b.drop_last());
        assert((a + b).last() == b.last());
        assert(pct_encoded(a) + pct_encoded(b) =~= pct_encoded(a) + pct_encoded(b.drop_last())
            + pct_byte(b.last()));
    }
}

/// Percent-decoding the encoding of a byte string gives the bytes back.
pub proof fn pct_encoding_round_trips(bytes: Seq<u8>)
    ensures
        pct_decoded(pct_encoded(bytes)) == Some(bytes),
    decreases bytes.len(),
{
    if bytes.len() > 0 {
        let x = bytes[0];
        let rest = bytes.drop_first();
        assert(seq![x] + rest =~= bytes);
        lemma_pct_encoded_concat(seq![x], rest);
        assert(seq![x].drop_last() =~= Seq::<u8>::empty());
        assert(seq![x].last() == x);
        assert(pct_encoded(Seq::<u8>::empty()) == Seq::<char>::empty());
        assert(pct_encoded(seq![x]) =~= pct_byte(x));
        pct_encoding_round_trips(rest);
        let t = pct_encoded(bytes);
        let tail = pct_encoded(rest);
        assert(t =~= pct_byte(x) + tail);
        if unreserved(x) {
            assert(t[0] == x as char);
            assert((x as char) as u32 == x as u32);
            assert(t.skip(1) =~= tail);
            assert(seq![x] + rest =~= bytes);
        } else {
            let hi = x / 16;
            let lo = x % 16;
            assert(t[0] == '%');
            assert(t[1] == hex_upper(hi));
            assert(t[2] == hex_upper(lo));
            assert(hex_value(hex_upper(hi)) == Some(hi));
            assert(hex_value(hex_upper(lo)) == Some(lo));
            assert(t.skip(3) =~= tail);
            assert((hi * 16 + lo) as u8 == x);
        }
    }
}

/// Text made of unreserved characters only is its own encoding.
pub proof fn unreserved_text_is_unchanged(s: Seq<char>)
    requires
        vstd::utf8::is_ascii_chars(s),
        forall|i: int| 0 <= i < s.len() ==> unreserved(#[trigger] s[i] as u8),
    ensures
        pct_encoded(encode_utf8(s)) == s,
{
    vstd::utf8::is_ascii_chars_encode_utf8(s);
    let b = encode_utf8(s);
    lemma_unreserved_bytes(b);
    assert(Seq::new(b.len(), |i: int| b[i] as char) =~= s) by {
        assert forall|i: int| 0 <= i < s.len() implies Seq::new(b.len(), |i: int| b[i] as char)[i] == s[i] by {
            assert(b[i] == s[i] as u8);
            assert('\0' <= s[i] <= '\u{7f}');
        }
    }
}

proof fn lemma_unreserved_bytes(b: Seq<u8>)
    requires
        forall|i: int| 0 <= i < b.len() ==> unreserved(#[trigger] b[i]),
    ensures
        pct_encoded(b) == Seq::new(b.len(), |i: int| b[i] as char),
    decreases b.len(),
{
    if b.len() > 0 {
        let p = b.drop_last();
        assert forall|i: int| 0 <= i < p.len() implies unreserved(#[trigger] p[i]) by {
            assert(p[i] == b[i]);
        }
        lemma_unreserved_bytes(p);
        assert(unreserved(b[b.len() - 1]));
        assert(Seq::new(b.len(), |i: int| b[i] as char) =~= Seq::new(p.len(), |i: int| p[i] as char)
            + pct_byte(b.last()));
    }
}

/// Percent-encoded text holds only unreserved characters and `%`; in
/// particular no `/`, `?`, `#`, `&` or `=`, so an encoded segment or query
/// value cannot change the structure of the URL it is placed in.
pub proof fn pct_encoded_is_inert(bytes: Seq<u8>)
    ensures
        forall|i: int| 0 <= i < pct_encoded(bytes).len() ==> encoded_char(#[trigger] pct_encoded(bytes)[i]),
    decreases bytes.len(),
{
    if bytes.len() > 0 {
        pct_encoded_is_inert(bytes.drop_last());
        let b = bytes.last();
        let pre = pct_encoded(bytes.drop_last());
        let all = pct_encoded(bytes);
        assert forall|i: int| 0 <= i < all.len() implies encoded_char(#[trigger] all[i]) by {
            if i >= pre.len() {
                if unreserved(b) {
                    assert(all[i] == b as char);
                } else {
                    let k = i - pre.len();
                    assert(b / 16 < 16 && b % 16 < 16);
                    if k == 1 {
                        assert(all[i] == hex_upper(b / 16));
                    } else if k == 2 {
                        assert(all[i] == hex_upper(b % 16));
                    }
                }
            }
        }
    }
}

/// `s` without its leading `/` characters (`trim_start_matches('/')`).
pub open spec fn strip_leading_slashes(s: Seq<char>) -> Seq<char>
    decreases s.len(),
{
    if s.len() > 0 && s[0] == '/' {
        strip_leading_slashes(s.drop_first())
    } else {
        s
    }
}

/// The query string `k1=v1&k2=v2…` of `pairs` (each side already encoded).
pub open spec fn query_string(pairs: Seq<(Seq<u8>, Seq<u8>)>) -> Seq<char>
    decreases pairs.len(),
{
    if pairs.len() == 0 {
        Seq::empty()
    } else if pairs.len() == 1 {
        pct_encoded(pairs[0].0) + seq!['='] + pct_encoded(pairs[0].1)
    } else {
        query_string(pairs.drop_last()) + seq!['&'] + pct_encoded(pairs.last().0) + seq!['=']
            + pct_encoded(pairs.last().1)
    }
}

/// The URL of an account request: `{base}/{path without leading '/'}`,
/// followed by `?` and the encoded query when there is one.
pub open spec fn url_of(base: Seq<char>, path: Seq<char>, query: Seq<(Seq<u8>, Seq<u8>)>) -> Seq<
    char,
> {
    let head = base + seq!['/'] + strip_leading_slashes(path);
    if query.len() == 0 {
        head
    } else {
        head + seq!['?'] + query_string(query)
    }
}

/// The byte form of each query pair.
pub open spec fn query_bytes(query: Seq<(String, String)>) -> Seq<(Seq<u8>, Seq<u8>)> {
    Seq::new(query.len(), |i: int| (encode_utf8(query[i].0@), encode_utf8(query[i].1@)))
}

/// Assemble a request URL from the base URL, a path (its dynamic segments
/// already encoded with [`encode_segment`]) and query pairs, whose keys and
/// values are percent-encoded here.
pub fn build_url(base_url: &str, path: &str, query: &Vec<(String, String)>) -> (r: String)
    ensures
        r@ == url_of(base_url@, path@, query_bytes(query@)),
{
    let mut out = chars_of(base_url);
    out.push('/');
    let p = chars_of(path);
    let mut start: usize = 0;
    proof {
        assert(p@.skip(0) =~= p@);
    }
    while start < p.len() && p[start] == '/'
        invariant
            start <= p@.len(),
            strip_leading_slashes(p@) == strip_leading_slashes(p@.skip(start as int)),
        decreases p@.len() - start,
    {
        proof {
            assert(p@.skip(start as int).drop_first() =~= p@.skip(start + 1));
        }
        start = start + 1;
    }
    let mut k: usize = start;
    let ghost head_before = out@;
    while k < p.len()
        invariant
            start <= k <= p@.len(),
            out@ == head_before + p@.subrange(start as int, k as int),
        decreases p@.len() - k,
    {
        out.push(p[k]);
        proof {
            assert(p@.subrange(start as int, k + 1) =~= p@.subrange(start as int, k as int).push(p@[k as int]));
        }
        k = k + 1;
    }
    proof {
        assert(p@.subrange(start as int, p@.len() as int) =~= p@.skip(start as int));
        assert(strip_leading_slashes(p@.skip(start as int)) == p@.skip(start as int));
    }
    if query.len() > 0 {
        out.push('?');
        let ghost with_q = out@;
        let mut i: usize = 0;
        while i < query.len()
            invariant
                i <= query@.len(),
                query@.len() > 0,
                i == 0 ==> out@ == with_q,
                i > 0 ==> out@ == with_q + query_string(query_bytes(query@).subrange(0, i as int)),
            decreases query@.len() - i,
        {
            let ghost before = out@;
            if i > 0 {
                out.push('&');
            }
            pct_encode_bytes(query[i].0.as_str().as_bytes(), &mut out);
            out.push('=');
            pct_encode_bytes(query[i].1.as_str().as_bytes(), &mut out);
            proof {
                let qb = query_bytes(query@);
                let pre = qb.subrange(0, i + 1);
                assert(pre.drop_last() =~= qb.subrange(0, i as int));
                assert(pre.last() == qb[i as int]);
                if i == 0 {
                    assert(out@ =~= with_q + query_string(pre));
                } else {
                    assert(out@ =~= with_q + query_string(pre));
                }
            }
            i = i + 1;
        }
        proof {
            assert(query_bytes(query@).subrange(0, query@.len() as int) =~= query_bytes(query@));
        }
    }
    string_from_chars(&out)
}

} // verus!
