//! Webhook signature verification and parsing. A delivery is signed with
//! `X-Oc-Signature`: the hex-encoded HMAC-SHA256 of the raw body under the
//! account's signing secret. An empty secret skips verification (accounts not
//! yet on signed webhooks).

use vstd::prelude::*;

use hmac::{Hmac, Mac};
use sha2::Sha256;
use vstd::utf8::{encode_utf8, is_continuation_byte};

use crate::errors::{Api2ConvertError, Result};
use crate::json::{Json, JsonV};
use crate::models::{job_from, Job};
use crate::text::{chars_of, is_ws, lead_ws, string_from_chars, trail_ws, trim, trim_chars, trim_end, trim_start};
use crate::upload::hex_lower;
use vstd::utf8::{is_ascii_chars, is_ascii_chars_encode_utf8};

verus! {

/// The HMAC-SHA256 of `message` under `key`.
pub uninterp spec fn hmac_sha256(key: Seq<u8>, message: Seq<u8>) -> Seq<u8>;

/// The MAC check of the hmac crate: `Hmac::<Sha256>::new_from_slice(key)`,
/// `update(message)`, then `verify_slice(tag)`, which compares the length
/// and then the bytes in constant time. Claimed: the answer is whether `tag`
/// equals [`hmac_sha256`] of `message` under `key`, which is 32 bytes long
/// (the output size of SHA-256), and it always comes, since
/// the HMAC core accepts a key of any length (it hashes or pads it), so the
/// `Err` arm of `new_from_slice` never runs.
#[verifier::external_body]
fn hmac_sha256_matches(key: &[u8], message: &[u8], tag: &[u8]) -> (r: Option<bool>)
    ensures
        r == Some(tag@ == hmac_sha256(key@, message@)),
        r is Some ==> hmac_sha256(key@, message@).len() == 32,
{
    match Hmac::<Sha256>::new_from_slice(key) {
        Ok(mut mac) => {
            mac.update(message);
            Some(mac.verify_slice(tag).is_ok())
        },
        Err(_) => None,
    }
}

/// The value of an ASCII hexadecimal digit.
pub open spec fn hex_digit(b: u8) -> Option<u8> {
    if 48 <= b && b <= 57 {
        Some((b - 48) as u8)
    } else if 97 <= b && b <= 102 {
        Some((b - 87) as u8)
    } else if 65 <= b && b <= 70 {
        Some((b - 55) as u8)
    } else {
        None
    }
}

/// `u8::from_str_radix` in base 16 on the two bytes `hi lo`: an optional `+`
/// followed by hexadecimal digits.
pub open spec fn hex_pair(hi: u8, lo: u8) -> Option<u8> {
    if hi == 43 {
        hex_digit(lo)
    } else {
        match (hex_digit(hi), hex_digit(lo)) {
            (Some(a), Some(b)) => Some((a * 16 + b) as u8),
            _ => None,
        }
    }
}

/// The bytes that a hex text of even length encodes, pair by pair; `None`
/// for an odd length or a pair that is not a number.
pub open spec fn hex_decoded(bytes: Seq<u8>) -> Option<Seq<u8>>
    decreases bytes.len(),
{
    if bytes.len() % 2 != 0 {
        None
    } else if bytes.len() == 0 {
        Some(Seq::empty())
    } else {
        match (hex_pair(bytes[0], bytes[1]), hex_decoded(bytes.skip(2))) {
            (Some(b), Some(rest)) => Some(seq![b] + rest),
            _ => None,
        }
    }
}

/// Every two-byte slice that decoding reaches begins and ends on a character
/// boundary: slicing a text inside a character panics.
pub open spec fn hex_slices_on_boundaries(bytes: Seq<u8>) -> bool
    decreases bytes.len(),
{
    if bytes.len() % 2 != 0 || bytes.len() == 0 {
        true
    } else {
        (bytes.len() == 2 || !is_continuation_byte(bytes[2])) && (hex_pair(bytes[0], bytes[1]) is Some
            ==> hex_slices_on_boundaries(bytes.skip(2)))
    }
}

/// Decode a hex string (two digits per byte); `None` for an odd length or a
/// pair that is not hexadecimal.
pub fn decode_hex(s: &str) -> (r: Option<Vec<u8>>)
    requires
        hex_slices_on_boundaries(encode_utf8(s@)),
    ensures
        match hex_decoded(encode_utf8(s@)) {
            Some(d) => r matches Some(v) && v@ == d,
            None => r is None,
        },
{
    let bytes = s.as_bytes();
    let n: usize = bytes.len();
    if n % 2 != 0 {
        assert(hex_decoded(bytes@) is None);
        return None;
    }
    let ghost all = bytes@;
    let mut out: Vec<u8> = Vec::new();
    let mut i: usize = 0;
    proof {
        assert(all.skip(0) =~= all);
    }
    while i < n
        invariant
            all == bytes@,
            all == encode_utf8(s@),
            n == all.len(),
            n % 2 == 0,
            i <= n,
            i % 2 == 0,
            hex_decoded(all) == match hex_decoded(all.skip(i as int)) {
                Some(rest) => Some(out@ + rest),
                None => None,
            },
        decreases n - i,
    {
        let ghost tail = all.skip(i as int);
        assert(tail[0] == all[i as int]);
        assert(tail[1] == all[i + 1]);
        assert(tail.skip(2) =~= all.skip(i + 2));
        let hi: u8 = bytes[i];
        let lo: u8 = bytes[i + 1];
        assert(tail.len() == n - i);
        assert(tail.len() % 2 == 0 && tail.len() >= 2);
        let v = match pair_value(hi, lo) {
            Some(v) => v,
            None => {
                assert(hex_decoded(tail) is None);
                return None;
            },
        };
        proof {
            match hex_decoded(all.skip(i + 2)) {
                Some(rest) => {
                    assert(out@.push(v) + rest =~= out@ + (seq![v] + rest));
                },
                None => {},
            }
        }
        out.push(v);
        i = i + 2;
    }
    proof {
        assert(all.skip(n as int) =~= Seq::<u8>::empty());
        assert(out@ + Seq::<u8>::empty() =~= out@);
    }
    Some(out)
}

/// The value of a hex digit byte.
fn digit_value(b: u8) -> (r: Option<u8>)
    ensures
        r == hex_digit(b),
{
    if 48 <= b && b <= 57 {
        Some(b - 48)
    } else if 97 <= b && b <= 102 {
        Some(b - 87)
    } else if 65 <= b && b <= 70 {
        Some(b - 55)
    } else {
        None
    }
}

/// The value of a two-byte hex pair.
fn pair_value(hi: u8, lo: u8) -> (r: Option<u8>)
    ensures
        r == hex_pair(hi, lo),
{
    if hi == 43 {
        return digit_value(lo);
    }
    match (digit_value(hi), digit_value(lo)) {
        (Some(a), Some(b)) => Some(a * 16 + b),
        _ => None,
    }
}

/// The signature as checked: the header value with surrounding whitespace
/// removed, or `None` when it is absent or blank.
pub open spec fn trimmed_signature(signature: Option<Seq<char>>) -> Option<Seq<char>> {
    match signature {
        Some(s) => if trim(s).len() > 0 {
            Some(trim(s))
        } else {
            None
        },
        None => None,
    }
}

/// Decoding the trimmed signature does not slice inside a character (a
/// text sliced inside a character panics).
pub open spec fn signature_decodable(signature: Option<Seq<char>>, secret: Seq<char>) -> bool {
    secret.len() > 0 ==> match trimmed_signature(signature) {
        Some(t) => hex_slices_on_boundaries(encode_utf8(t)),
        None => true,
    }
}

/// Why a delivery fails verification, or `None` when it passes: with a
/// non-empty secret the signature must be present, hexadecimal, and equal to
/// the HMAC-SHA256 of the raw payload under the secret's UTF-8 bytes.
pub open spec fn signature_failure(
    payload: Seq<u8>,
    signature: Option<Seq<char>>,
    secret: Seq<char>,
) -> Option<Seq<char>> {
    if secret.len() == 0 {
        None
    } else {
        match trimmed_signature(signature) {
            None => Some("missing signature"@),
            Some(t) => match hex_decoded(encode_utf8(t)) {
                None => Some("signature is not valid hex"@),
                Some(tag) => if tag == hmac_sha256(encode_utf8(secret), payload) {
                    None
                } else {
                    Some("signature mismatch"@)
                },
            },
        }
    }
}

/// A signature-verification error carrying `m`.
pub open spec fn is_signature_error(e: Api2ConvertError, m: Seq<char>) -> bool {
    e matches Api2ConvertError::SignatureVerification(s) && s@ == m
}

/// Check the `X-Oc-Signature` of a delivery against the HMAC-SHA256 of its
/// raw body. An empty `secret` skips the check.
pub fn verify_signature(payload: &[u8], signature: Option<&str>, secret: &str) -> (r: Result<()>)
    requires
        signature_decodable(
            match signature {
                Some(s) => Some(s@),
                None => None,
            },
            secret@,
        ),
    ensures
        match signature_failure(
            payload@,
            match signature {
                Some(s) => Some(s@),
                None => None,
            },
            secret@,
        ) {
            Some(m) => r matches Err(e) && is_signature_error(e, m),
            None => r is Ok,
        },
        secret@.len() > 0 && (trimmed_signature(
            match signature {
                Some(s) => Some(s@),
                None => None,
            },
        ) matches Some(t) && hex_decoded(encode_utf8(t)) is Some) ==> hmac_sha256(
            encode_utf8(secret@),
            payload@,
        ).len() == 32,
{
    if secret.unicode_len() == 0 {
        return Ok(());
    }
    let trimmed: Vec<char> = match signature {
        Some(s) => {
            let cs = chars_of(s);
            trim_chars(&cs)
        },
        None => Vec::new(),
    };
    if trimmed.len() == 0 {
        return Err(Api2ConvertError::SignatureVerification(crate::json::owned("missing signature")));
    }
    let text = string_from_chars(&trimmed);
    let provided = match decode_hex(text.as_str()) {
        Some(p) => p,
        None => {
            return Err(
                Api2ConvertError::SignatureVerification(crate::json::owned("signature is not valid hex")),
            );
        },
    };
    match hmac_sha256_matches(secret.as_bytes(), payload, provided.as_slice()) {
        Some(true) => Ok(()),
        Some(false) => Err(Api2ConvertError::SignatureVerification(crate::json::owned("signature mismatch"))),
        None => Err(Api2ConvertError::SignatureVerification(crate::json::owned("invalid signing secret"))),
    }
}

/// The lower-case hex text of `bytes`, two digits per byte: how a signature
/// is written.
pub open spec fn hex_text(bytes: Seq<u8>) -> Seq<char>
    decreases bytes.len(),
{
    if bytes.len() == 0 {
        Seq::empty()
    } else {
        seq![hex_lower((bytes[0] / 16) as nat), hex_lower((bytes[0] % 16) as nat)] + hex_text(
            bytes.drop_first(),
        )
    }
}

/// A lower-case hex digit.
pub open spec fn hex_lower_char(c: char) -> bool {
    ('0' <= c && c <= '9') || ('a' <= c && c <= 'f')
}

proof fn lemma_hex_lower(d: nat)
    requires
        d < 16,
    ensures
        hex_lower_char(hex_lower(d)),
        hex_digit(hex_lower(d) as u8) == Some(d as u8),
        hex_lower(d) as u8 != 43,
{
}

proof fn lemma_hex_text(bytes: Seq<u8>)
    ensures
        hex_text(bytes).len() == 2 * bytes.len(),
        forall|i: int| 0 <= i < hex_text(bytes).len() ==> hex_lower_char(#[trigger] hex_text(bytes)[i]),
    decreases bytes.len(),
{
    if bytes.len() > 0 {
        let rest = hex_text(bytes.drop_first());
        lemma_hex_text(bytes.drop_first());
        lemma_hex_lower((bytes[0] / 16) as nat);
        lemma_hex_lower((bytes[0] % 16) as nat);
        let t = hex_text(bytes);
        assert forall|i: int| 0 <= i < t.len() implies hex_lower_char(#[trigger] t[i]) by {
            if i >= 2 {
                assert(t[i] == rest[i - 2]);
            }
        }
    }
}

/// The UTF-8 bytes of a hex text: one ASCII byte per digit.
proof fn lemma_hex_text_bytes(bytes: Seq<u8>)
    ensures
        encode_utf8(hex_text(bytes)).len() == 2 * bytes.len(),
        forall|i: int|
            0 <= i < encode_utf8(hex_text(bytes)).len() ==> #[trigger] encode_utf8(hex_text(bytes))[i]
                == hex_text(bytes)[i] as u8,
{
    let t = hex_text(bytes);
    lemma_hex_text(bytes);
    assert(is_ascii_chars(t)) by {
        assert forall|i: int| 0 <= i < t.len() implies '\0' <= #[trigger] t[i] <= '\u{7f}' by {
            assert(hex_lower_char(t[i]));
        }
    }
    is_ascii_chars_encode_utf8(t);
}

/// Decoding the bytes of a hex text gives back the bytes it was written
/// from, and never slices inside a character.
proof fn lemma_hex_round_trip(bytes: Seq<u8>)
    ensures
        hex_decoded(encode_utf8(hex_text(bytes))) == Some(bytes),
        hex_slices_on_boundaries(encode_utf8(hex_text(bytes))),
    decreases bytes.len(),
{
    let t = hex_text(bytes);
    let e = encode_utf8(t);
    lemma_hex_text_bytes(bytes);
    if bytes.len() == 0 {
        assert(e.len() == 0);
    } else {
        let tail = bytes.drop_first();
        let et = encode_utf8(hex_text(tail));
        lemma_hex_text_bytes(tail);
        lemma_hex_text(tail);
        lemma_hex_round_trip(tail);
        let hi: nat = (bytes[0] / 16) as nat;
        let lo: nat = (bytes[0] % 16) as nat;
        lemma_hex_lower(hi);
        lemma_hex_lower(lo);
        assert(e[0] == t[0] as u8);
        assert(e[1] == t[1] as u8);
        assert(t[0] == hex_lower(hi));
        assert(t[1] == hex_lower(lo));
        assert(hex_pair(e[0], e[1]) == Some(bytes[0]));
        let head = seq![hex_lower(hi), hex_lower(lo)];
        assert(t == head + hex_text(tail));
        assert(e.skip(2) =~= et) by {
            assert(e.len() == et.len() + 2);
            assert forall|i: int| 0 <= i < et.len() implies e.skip(2)[i] == et[i] by {
                assert(0 <= i + 2 < e.len());
                assert(e[i + 2] == t[i + 2] as u8);
                assert((head + hex_text(tail))[i + 2] == hex_text(tail)[i]);
            }
        }
        assert(seq![bytes[0]] + tail =~= bytes);
        if e.len() > 2 {
            lemma_hex_text(bytes);
            assert(hex_lower_char(t[2]));
            assert(e[2] == t[2] as u8);
            assert(!is_continuation_byte(e[2]));
        }
    }
}

/// Hex text has no surrounding whitespace to trim.
proof fn lemma_hex_text_trimmed(bytes: Seq<u8>)
    ensures
        trim(hex_text(bytes)) == hex_text(bytes),
{
    let t = hex_text(bytes);
    lemma_hex_text(bytes);
    if t.len() > 0 {
        assert(hex_lower_char(t[0]));
        assert(!is_ws(t[0]));
        assert(lead_ws(t) == 0);
        assert(t.skip(0) =~= t);
        assert(hex_lower_char(t.last()));
        assert(!is_ws(t.last()));
        assert(trail_ws(t) == 0);
        assert(t.take(t.len() as int) =~= t);
    } else {
        assert(trim_start(t) =~= t);
        assert(trim_end(t) =~= t);
    }
}

/// A delivery signed as the API signs it (the lower-case hex HMAC-SHA256 of
/// the raw body under the secret) passes verification, and its signature
/// decodes without slicing inside a character. The HMAC is 32 bytes long, as
/// the MAC check states on every call (see [`verify_signature`]).
pub proof fn signed_delivery_verifies(payload: Seq<u8>, secret: Seq<char>)
    requires
        secret.len() > 0,
        hmac_sha256(encode_utf8(secret), payload).len() == 32,
    ensures
        signature_decodable(Some(hex_text(hmac_sha256(encode_utf8(secret), payload))), secret),
        signature_failure(payload, Some(hex_text(hmac_sha256(encode_utf8(secret), payload))), secret)
            is None,
{
    let tag = hmac_sha256(encode_utf8(secret), payload);
    lemma_hex_text(tag);
    lemma_hex_text_trimmed(tag);
    lemma_hex_round_trip(tag);
}

/// The verification rules: an empty secret accepts any delivery; with a
/// secret, an absent or blank signature is refused as missing, and a
/// hexadecimal signature other than the HMAC-SHA256 of the payload is refused
/// as a mismatch.
pub proof fn signature_rules(payload: Seq<u8>, signature: Option<Seq<char>>, secret: Seq<char>)
    ensures
        secret.len() == 0 ==> signature_failure(payload, signature, secret) is None,
        secret.len() > 0 && trimmed_signature(signature) is None ==> signature_failure(
            payload,
            signature,
            secret,
        ) == Some("missing signature"@),
        secret.len() > 0 && (trimmed_signature(signature) matches Some(t) && hex_decoded(encode_utf8(t))
            matches Some(tag) && tag != hmac_sha256(encode_utf8(secret), payload)) ==> signature_failure(
            payload,
            signature,
            secret,
        ) == Some("signature mismatch"@),
{
}

/// A parsed webhook delivery: the job it describes and the decoded payload.
pub struct WebhookEvent {
    pub job: Job,
    pub payload: Json,
}

/// What parsing a payload gives: its decoded JSON (`None` when the bytes are
/// not valid JSON) must be an object, which is read as a job.
pub open spec fn parsed_event(parsed: Option<JsonV>, r: Result<WebhookEvent>) -> bool {
    match parsed {
        None => r matches Err(e) && is_signature_error(e, "webhook payload is not valid JSON"@),
        Some(v) => if v is Object {
            r matches Ok(ev) && job_from(ev.job, v) && ev.payload@ == v
        } else {
            r matches Err(e) && is_signature_error(e, "webhook payload is not a JSON object"@)
        },
    }
}

/// Verifies and parses webhook deliveries; needs no configured client.
pub struct WebhookVerifier;

impl WebhookVerifier {
    /// Verify the signature of a delivery, then parse it. `parsed` is the
    /// payload decoded as JSON, or `None` when it is not valid JSON.
    pub fn construct_event(
        &self,
        payload: &[u8],
        signature: Option<&str>,
        secret: &str,
        parsed: Option<Json>,
    ) -> (r: Result<WebhookEvent>)
        requires
            signature_decodable(
                match signature {
                    Some(s) => Some(s@),
                    None => None,
                },
                secret@,
            ),
        ensures
            match signature_failure(
                payload@,
                match signature {
                    Some(s) => Some(s@),
                    None => None,
                },
                secret@,
            ) {
                Some(m) => r matches Err(e) && is_signature_error(e, m),
                None => parsed_event(
                    match parsed {
                        Some(v) => Some(v@),
                        None => None,
                    },
                    r,
                ),
            },
    {
        match verify_signature(payload, signature, secret) {
            Ok(()) => self.parse(parsed),
            Err(e) => Err(e),
        }
    }

    /// Parse a delivery without verifying its signature. `parsed` is the
    /// payload decoded as JSON, or `None` when it is not valid JSON.
    pub fn parse(&self, parsed: Option<Json>) -> (r: Result<WebhookEvent>)
        ensures
            parsed_event(
                match parsed {
                    Some(v) => Some(v@),
                    None => None,
                },
                r,
            ),
    {
        match parsed {
            None => Err(
                Api2ConvertError::SignatureVerification(
                    crate::json::owned("webhook payload is not valid JSON"),
                ),
            ),
            Some(value) => {
                if !value.is_object() {
                    return Err(
                        Api2ConvertError::SignatureVerification(
                            crate::json::owned("webhook payload is not a JSON object"),
                        ),
                    );
                }
                let job = Job::from_value(&value);
                Ok(WebhookEvent { job, payload: value })
            },
        }
    }
}

} // verus!
