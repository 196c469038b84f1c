//! Client configuration. Every poll and timeout knob is clamped so no caller
//! value can make the poll loop busy-spin (interval floor) or wait unbounded
//! (timeout ceiling). Durations are whole nanoseconds.

use vstd::prelude::*;

use crate::errors::{Api2ConvertError, Result};
use crate::json::owned;

verus! {

/// The default API base URL.
pub const DEFAULT_BASE_URL: &'static str = "https://api.api2convert.com/v2";

/// The environment variable consulted when no API key is passed explicitly.
pub const API_KEY_ENV: &'static str = "API2CONVERT_API_KEY";

/// The poll interval floor: 500ms.
pub const MIN_POLL_INTERVAL_NS: u64 = 500_000_000;

/// The ceiling on the total poll wait: 14400s (4h).
pub const MAX_POLL_TIMEOUT_NS: u64 = 14_400_000_000_000;

/// The network timeout floor: 1s.
pub const MIN_TIMEOUT_NS: u64 = 1_000_000_000;

/// Floor the network timeout so a request can never be given zero time.
pub fn clamp_timeout(ns: u64) -> (r: u64)
    ensures
        r == (if ns < 1_000_000_000 {
            1_000_000_000
        } else {
            ns
        }),
{
    if ns < MIN_TIMEOUT_NS {
        MIN_TIMEOUT_NS
    } else {
        ns
    }
}

/// Floor the poll interval so the poll loop can never busy-spin.
pub fn clamp_poll_interval(ns: u64) -> (r: u64)
    ensures
        r == (if ns < 500_000_000 {
            500_000_000
        } else {
            ns
        }),
{
    if ns < MIN_POLL_INTERVAL_NS {
        MIN_POLL_INTERVAL_NS
    } else {
        ns
    }
}

/// Cap the total poll wait so the loop can never poll unbounded.
pub fn clamp_poll_timeout(ns: u64) -> (r: u64)
    ensures
        r == (if ns > 14_400_000_000_000 {
            14_400_000_000_000
        } else {
            ns
        }),
{
    if ns > MAX_POLL_TIMEOUT_NS {
        MAX_POLL_TIMEOUT_NS
    } else {
        ns
    }
}

/// The knobs of a client, before resolution.
pub struct ClientBuilder {
    pub api_key: Option<String>,
    pub base_url: String,
    pub timeout_ns: u64,
    pub max_retries: u32,
    pub poll_interval_ns: u64,
    pub poll_max_interval_ns: u64,
    pub poll_timeout_ns: u64,
    pub max_download_bytes: u64,
}

/// A resolved, clamped configuration.
pub struct ClientConfig {
    pub api_key: String,
    pub base_url: String,
    pub timeout_ns: u64,
    pub max_retries: u32,
    pub poll_interval_ns: u64,
    pub poll_max_interval_ns: u64,
    pub poll_timeout_ns: u64,
    pub max_download_bytes: u64,
}

/// `s` without its trailing `/` characters (`trim_end_matches('/')`).
pub open spec fn strip_trailing_slashes(s: Seq<char>) -> Seq<char>
    decreases s.len(),
{
    if s.len() > 0 && s.last() == '/' {
        strip_trailing_slashes(s.drop_last())
    } else {
        s
    }
}

/// The API key in use: the builder's when non-empty, else the environment's
/// when non-empty.
pub open spec fn chosen_key(builder_key: Option<Seq<char>>, env_key: Option<Seq<char>>) -> Option<Seq<char>> {
    match builder_key {
        Some(k) if k.len() > 0 => Some(k),
        _ => match env_key {
            Some(k) if k.len() > 0 => Some(k),
            _ => None,
        },
    }
}

/// `c` is the configuration `b` resolves to with the key `key`.
pub open spec fn resolved(b: ClientBuilder, key: Seq<char>, c: ClientConfig) -> bool {
    let interval = if b.poll_interval_ns < 500_000_000 {
        500_000_000
    } else {
        b.poll_interval_ns
    };
    &&& c.api_key@ == key
    &&& c.base_url@ == strip_trailing_slashes(b.base_url@)
    &&& c.timeout_ns == (if b.timeout_ns < 1_000_000_000 {
        1_000_000_000
    } else {
        b.timeout_ns
    })
    &&& c.max_retries == b.max_retries
    &&& c.poll_interval_ns == interval
    &&& c.poll_max_interval_ns == (if b.poll_max_interval_ns < interval {
        interval
    } else {
        b.poll_max_interval_ns
    })
    &&& c.poll_timeout_ns == (if b.poll_timeout_ns > 14_400_000_000_000 {
        14_400_000_000_000
    } else {
        b.poll_timeout_ns
    })
    &&& c.max_download_bytes == b.max_download_bytes
}

/// An optional string's characters.
pub open spec fn opt_seq(o: Option<String>) -> Option<Seq<char>> {
    match o {
        Some(s) => Some(s@),
        None => None,
    }
}

impl ClientBuilder {
    /// The defaults: no key, the default base URL, 30s timeout, 2 retries,
    /// 1s poll interval backing off to 5s, 300s poll timeout, no download cap.
    pub fn new() -> (r: ClientBuilder)
        ensures
            r.api_key is None,
            r.base_url@ == DEFAULT_BASE_URL@,
            r.timeout_ns == 30_000_000_000,
            r.max_retries == 2,
            r.poll_interval_ns == 1_000_000_000,
            r.poll_max_interval_ns == 5_000_000_000,
            r.poll_timeout_ns == 300_000_000_000,
            r.max_download_bytes == 0,
    {
        ClientBuilder {
            api_key: None,
            base_url: owned(DEFAULT_BASE_URL),
            timeout_ns: 30_000_000_000,
            max_retries: 2,
            poll_interval_ns: 1_000_000_000,
            poll_max_interval_ns: 5_000_000_000,
            poll_timeout_ns: 300_000_000_000,
            max_download_bytes: 0,
        }
    }

    /// The account API key.
    pub fn api_key(self, key: &str) -> (r: ClientBuilder)
        ensures
            opt_seq(r.api_key) == Some(key@),
            r.base_url == self.base_url,
            r.timeout_ns == self.timeout_ns && r.max_retries == self.max_retries,
            r.poll_interval_ns == self.poll_interval_ns,
            r.poll_max_interval_ns == self.poll_max_interval_ns,
            r.poll_timeout_ns == self.poll_timeout_ns,
            r.max_download_bytes == self.max_download_bytes,
    {
        ClientBuilder { api_key: Some(owned(key)), ..self }
    }

    /// The API base URL (a trailing `/` is trimmed when resolved).
    pub fn base_url(self, url: &str) -> (r: ClientBuilder)
        ensures
            r.base_url@ == url@,
            r.api_key == self.api_key,
            r.timeout_ns == self.timeout_ns && r.max_retries == self.max_retries,
            r.poll_interval_ns == self.poll_interval_ns,
            r.poll_max_interval_ns == self.poll_max_interval_ns,
            r.poll_timeout_ns == self.poll_timeout_ns,
            r.max_download_bytes == self.max_download_bytes,
    {
        ClientBuilder { base_url: owned(url), ..self }
    }

    /// The per-request network timeout for JSON calls (min 1s).
    pub fn timeout(self, ns: u64) -> (r: ClientBuilder)
        ensures
            r.timeout_ns == ns,
            r.api_key == self.api_key && r.base_url == self.base_url,
            r.max_retries == self.max_retries,
            r.poll_interval_ns == self.poll_interval_ns,
            r.poll_max_interval_ns == self.poll_max_interval_ns,
            r.poll_timeout_ns == self.poll_timeout_ns,
            r.max_download_bytes == self.max_download_bytes,
    {
        ClientBuilder { timeout_ns: ns, ..self }
    }

    /// The number of automatic retries for transient failures.
    pub fn max_retries(self, n: u32) -> (r: ClientBuilder)
        ensures
            r.max_retries == n,
            r.api_key == self.api_key && r.base_url == self.base_url,
            r.timeout_ns == self.timeout_ns,
            r.poll_interval_ns == self.poll_interval_ns,
            r.poll_max_interval_ns == self.poll_max_interval_ns,
            r.poll_timeout_ns == self.poll_timeout_ns,
            r.max_download_bytes == self.max_download_bytes,
    {
        ClientBuilder { max_retries: n, ..self }
    }

    /// The first poll interval (floored to 500ms).
    pub fn poll_interval(self, ns: u64) -> (r: ClientBuilder)
        ensures
            r.poll_interval_ns == ns,
            r.api_key == self.api_key && r.base_url == self.base_url,
            r.timeout_ns == self.timeout_ns && r.max_retries == self.max_retries,
            r.poll_max_interval_ns == self.poll_max_interval_ns,
            r.poll_timeout_ns == self.poll_timeout_ns,
            r.max_download_bytes == self.max_download_bytes,
    {
        ClientBuilder { poll_interval_ns: ns, ..self }
    }

    /// The upper bound the poll interval backs off to.
    pub fn poll_max_interval(self, ns: u64) -> (r: ClientBuilder)
        ensures
            r.poll_max_interval_ns == ns,
            r.api_key == self.api_key && r.base_url == self.base_url,
            r.timeout_ns == self.timeout_ns && r.max_retries == self.max_retries,
            r.poll_interval_ns == self.poll_interval_ns,
            r.poll_timeout_ns == self.poll_timeout_ns,
            r.max_download_bytes == self.max_download_bytes,
    {
        ClientBuilder { poll_max_interval_ns: ns, ..self }
    }

    /// How long to wait for a job before giving up (capped at 14400s).
    pub fn poll_timeout(self, ns: u64) -> (r: ClientBuilder)
        ensures
            r.poll_timeout_ns == ns,
            r.api_key == self.api_key && r.base_url == self.base_url,
            r.timeout_ns == self.timeout_ns && r.max_retries == self.max_retries,
            r.poll_interval_ns == self.poll_interval_ns,
            r.poll_max_interval_ns == self.poll_max_interval_ns,
            r.max_download_bytes == self.max_download_bytes,
    {
        ClientBuilder { poll_timeout_ns: ns, ..self }
    }

    /// Cap the size of a downloaded file; `0` means unlimited.
    pub fn max_download_bytes(self, n: u64) -> (r: ClientBuilder)
        ensures
            r.max_download_bytes == n,
            r.api_key == self.api_key && r.base_url == self.base_url,
            r.timeout_ns == self.timeout_ns && r.max_retries == self.max_retries,
            r.poll_interval_ns == self.poll_interval_ns,
            r.poll_max_interval_ns == self.poll_max_interval_ns,
            r.poll_timeout_ns == self.poll_timeout_ns,
    {
        ClientBuilder { max_download_bytes: n, ..self }
    }

    /// Resolve the configuration, clamping every knob. `env_key` is the value
    /// of the `API2CONVERT_API_KEY` environment variable, if set. Fails with
    /// [`Api2ConvertError::Config`] exactly when neither key is non-empty.
    pub fn resolve(self, env_key: Option<String>) -> (r: Result<ClientConfig>)
        ensures
            match chosen_key(opt_seq(self.api_key), opt_seq(env_key)) {
                Some(k) => r matches Ok(c) && resolved(self, k, c),
                None => r matches Err(Api2ConvertError::Config(m)) && m@
                    == "an API key is required: pass one to the builder or set API2CONVERT_API_KEY"@,
            },
    {
        let b = self;
        let key = match b.api_key {
            Some(k) if k.as_str().unicode_len() > 0 => k,
            _ => match env_key {
                Some(k) if k.as_str().unicode_len() > 0 => k,
                _ => {
                    return Err(
                        Api2ConvertError::Config(
                            owned(
                                "an API key is required: pass one to the builder or set API2CONVERT_API_KEY",
                            ),
                        ),
                    );
                },
            },
        };
        let poll_interval = clamp_poll_interval(b.poll_interval_ns);
        let poll_max_interval = if b.poll_max_interval_ns < poll_interval {
            poll_interval
        } else {
            b.poll_max_interval_ns
        };
        Ok(
            ClientConfig {
                api_key: key,
                base_url: trim_trailing_slashes(b.base_url.as_str()),
                timeout_ns: clamp_timeout(b.timeout_ns),
                max_retries: b.max_retries,
                poll_interval_ns: poll_interval,
                poll_max_interval_ns: poll_max_interval,
                poll_timeout_ns: clamp_poll_timeout(b.poll_timeout_ns),
                max_download_bytes: b.max_download_bytes,
            },
        )
    }
}

impl Default for ClientBuilder {
    /// The same as [`ClientBuilder::new`].
    fn default() -> (r: ClientBuilder)
        ensures
            r.api_key is None,
            r.base_url@ == DEFAULT_BASE_URL@,
            r.timeout_ns == 30_000_000_000,
            r.max_retries == 2,
            r.poll_interval_ns == 1_000_000_000,
            r.poll_max_interval_ns == 5_000_000_000,
            r.poll_timeout_ns == 300_000_000_000,
            r.max_download_bytes == 0,
    {
        ClientBuilder::new()
    }
}

/// `s` without its trailing `/` characters.
pub fn trim_trailing_slashes(s: &str) -> (r: String)
    ensures
        r@ == strip_trailing_slashes(s@),
{
    let v = crate::text::chars_of(s);
    let mut n: usize = v.len();
    proof {
        assert(v@.subrange(0, n as int) =~= v@);
    }
    while n > 0 && v[n - 1] == '/'
        invariant
            n <= v@.len(),
            strip_trailing_slashes(v@) == strip_trailing_slashes(v@.subrange(0, n as int)),
        decreases n,
    {
        proof {
            assert(v@.subrange(0, n as int).drop_last() =~= v@.subrange(0, n - 1));
        }
        n = n - 1;
    }
    let t = crate::text::slice_chars(&v, 0, n);
    crate::text::string_from_chars(&t)
}

/// No resolved configuration can busy-loop or poll unbounded: the poll
/// interval is at least 500ms, the backoff ceiling is at least the interval,
/// the total wait is at most 14400s, a request gets at least 1s, and the
/// base URL has no trailing `/`.
pub proof fn resolved_config_is_safe(b: ClientBuilder, key: Seq<char>, c: ClientConfig)
    requires
        resolved(b, key, c),
    ensures
        c.poll_interval_ns >= 500_000_000,
        c.poll_max_interval_ns >= c.poll_interval_ns,
        c.poll_timeout_ns <= 14_400_000_000_000,
        c.timeout_ns >= 1_000_000_000,
        c.base_url@.len() > 0 ==> c.base_url@.last() != '/',
{
    lemma_strip_trailing(b.base_url@);
}

proof fn lemma_strip_trailing(s: Seq<char>)
    ensures
        strip_trailing_slashes(s).len() > 0 ==> strip_trailing_slashes(s).last() != '/',
    decreases s.len(),
{
    if s.len() > 0 && s.last() == '/' {
        lemma_strip_trailing(s.drop_last());
    }
}

} // verus!
