//! Download client policy: configuration, retry classification, backoff.
//!
//! The HTTP transport itself lives outside the library; what is here is
//! everything the transport loop decides by: the pooled-client
//! configuration, the classification of response statuses, and the
//! deterministic exponential backoff with jitter.

use vstd::prelude::*;

verus! {

/// Configuration for the download client.
#[derive(Debug, Clone)]
pub struct ClientConfig {
    /// Maximum concurrent downloads.
    pub concurrency: usize,
    /// Total per-request timeout, in seconds.
    pub timeout_secs: u64,
    /// Maximum retry attempts for failed requests.
    pub max_retries: u32,
    /// Base delay for exponential backoff, in milliseconds.
    pub base_delay_ms: u64,
    /// Maximum delay between retries, in milliseconds.
    pub max_delay_ms: u64,
    /// User agent string.
    pub user_agent: String,
}

impl ClientConfig {
    /// The delay cap stays far below the overflow range of the
    /// millisecond arithmetic.
    pub open spec fn wf(self) -> bool {
        self.max_delay_ms <= 4_611_686_018_427_387_904
    }
}

impl Default for ClientConfig {
    /// Default policy: 10 parallel downloads, a minute per request, 10
    /// retries backing off from 500 ms to at most 30 s.
    fn default() -> (r: Self)
        ensures
            r.concurrency == 10,
            r.timeout_secs == 60,
            r.max_retries == 10,
            r.base_delay_ms == 500,
            r.max_delay_ms == 30_000,
            r.wf(),
    {
        ClientConfig {
            concurrency: 10,
            timeout_secs: 60,
            max_retries: 10,
            base_delay_ms: 500,
            max_delay_ms: 30_000,
            user_agent: String::from_str("paracas"),
        }
    }
}

/// Errors that can occur during downloads.
#[derive(Debug, Clone)]
pub enum DownloadError {
    /// HTTP request failed; holds the transport's message.
    Http(String),
    /// Request timed out after the given number of attempts.
    Timeout(u32),
    /// Server returned an error status.
    ServerError {
        /// HTTP status code.
        status: u16,
    },
}

impl DownloadError {
    /// The message a batch error carries for this failure.
    pub open spec fn message_chars(self) -> Seq<char> {
        match self {
            DownloadError::Http(s) => s@,
            DownloadError::Timeout(n) => "request timed out after "@ + crate::text::dec_chars(
                n as int,
            ) + " attempts"@,
            DownloadError::ServerError { status } => "server error: "@ + crate::text::dec_chars(
                status as int,
            ),
        }
    }

    /// Renders the failure as a single-line message.
    pub fn message(&self) -> (r: String)
        ensures
            r@ == self.message_chars(),
    {
        match self {
            DownloadError::Http(s) => s.clone(),
            DownloadError::Timeout(n) => {
                let mut out: Vec<char> = Vec::new();
                crate::text::push_str_chars(&mut out, "request timed out after ");
                crate::text::push_decimal(&mut out, *n as u64);
                crate::text::push_str_chars(&mut out, " attempts");
                proof {
                    assert(out@ =~= self.message_chars());
                }
                crate::text::chars_to_string(&out)
            },
            DownloadError::ServerError { status } => {
                let mut out: Vec<char> = Vec::new();
                crate::text::push_str_chars(&mut out, "server error: ");
                crate::text::push_decimal(&mut out, *status as u64);
                proof {
                    assert(out@ =~= self.message_chars());
                }
                crate::text::chars_to_string(&out)
            },
        }
    }
}

/// What the retry loop does with a response status.
#[derive(Clone, Copy, PartialEq, Eq, Structural, Debug)]
pub enum StatusAction {
    /// The body holds the hour file.
    Success,
    /// 404: the hour legitimately has no data; not an error, not retried.
    Missing,
    /// A transient server condition (5xx or 429): retry with backoff.
    Retry,
    /// Any other client error: fail without retrying.
    Fail,
}

/// The action for a response status: 404 means the hour is missing, 5xx
/// and 429 are transient, every other 4xx fails outright, anything else
/// carries the body.
pub open spec fn status_action_spec(status: u16) -> StatusAction {
    if status == 404 {
        StatusAction::Missing
    } else if (500 <= status <= 599) || status == 429 {
        StatusAction::Retry
    } else if 400 <= status <= 599 {
        StatusAction::Fail
    } else {
        StatusAction::Success
    }
}

/// Classifies a response status for the retry loop.
pub fn classify_status(status: u16) -> (r: StatusAction)
    ensures
        r == status_action_spec(status),
{
    if status == 404 {
        StatusAction::Missing
    } else if (500 <= status && status <= 599) || status == 429 {
        StatusAction::Retry
    } else if 400 <= status && status <= 599 {
        StatusAction::Fail
    } else {
        StatusAction::Success
    }
}

/// Two to the `e`.
pub open spec fn pow2(e: int) -> int
    decreases e,
{
    if e <= 0 {
        1
    } else {
        2 * pow2(e - 1)
    }
}

/// The uncapped exponential delay: the base delay doubled once per
/// attempt, saturating in 64 bits.
pub open spec fn exp_delay_spec(cfg: ClientConfig, attempt: int) -> int {
    let x = cfg.base_delay_ms * pow2(attempt);
    if x > u64::MAX {
        u64::MAX as int
    } else {
        x
    }
}

/// The exponential delay capped at the configured maximum.
pub open spec fn capped_delay_spec(cfg: ClientConfig, attempt: int) -> int {
    if exp_delay_spec(cfg, attempt) > cfg.max_delay_ms {
        cfg.max_delay_ms as int
    } else {
        exp_delay_spec(cfg, attempt)
    }
}

/// The retry delay: the capped exponential delay plus a deterministic
/// jitter below a quarter of it, floored at 100 ms. The jitter depends on
/// the attempt counter alone; no randomness is involved.
pub open spec fn backoff_spec(cfg: ClientConfig, attempt: int) -> int {
    let c = capped_delay_spec(cfg, attempt);
    let r = c / 4;
    let j = if r > 0 {
        let jo = (attempt * 17) % (2 * r);
        if jo >= r {
            jo - r
        } else {
            0
        }
    } else {
        0
    };
    if c + j < 100 {
        100
    } else {
        c + j
    }
}

/// Computes the capped exponential delay: the base delay doubled once
/// per attempt, cut off at the configured maximum.
fn capped_delay(cfg: &ClientConfig, attempt: u32) -> (r: u64)
    requires
        cfg.wf(),
    ensures
        r == capped_delay_spec(*cfg, attempt as int),
{
    if cfg.base_delay_ms == 0 {
        proof {
            lemma_pow2_positive(attempt as int);
            assert(cfg.base_delay_ms * pow2(attempt as int) == 0) by (nonlinear_arith)
                requires
                    cfg.base_delay_ms == 0,
            ;
        }
        return 0;
    }
    let mut exp: u64 = cfg.base_delay_ms;
    let mut i: u32 = 0;
    while i < attempt && exp < cfg.max_delay_ms && exp <= u64::MAX / 2
        invariant
            cfg.wf(),
            cfg.base_delay_ms >= 1,
            i <= attempt,
            exp as int == cfg.base_delay_ms * pow2(i as int),
        decreases attempt - i,
    {
        proof {
            assert(cfg.base_delay_ms * pow2(i as int + 1) == 2 * (cfg.base_delay_ms * pow2(
                i as int,
            ))) by (nonlinear_arith)
                requires
                    pow2(i as int + 1) == 2 * pow2(i as int),
            ;
        }
        exp = exp * 2;
        i = i + 1;
    }
    if i == attempt {
        if exp > cfg.max_delay_ms {
            cfg.max_delay_ms
        } else {
            exp
        }
    } else {
        proof {
            lemma_exp_monotone(cfg.base_delay_ms as int, i as int, attempt as int);
        }
        cfg.max_delay_ms
    }
}

/// With a non-negative base, the exponential delay does not shrink as
/// the attempt counter grows.
pub proof fn lemma_exp_monotone(b: int, i: int, j: int)
    requires
        0 <= b,
        i <= j,
    ensures
        b * pow2(i) <= b * pow2(j),
{
    lemma_pow2_le(i, j);
    assert(b * pow2(i) <= b * pow2(j)) by (nonlinear_arith)
        requires
            0 <= b,
            pow2(i) <= pow2(j),
    ;
}

/// Computes the backoff delay in milliseconds before the given retry
/// attempt. Deterministic: equal configurations and attempt numbers give
/// equal delays.
pub fn calculate_backoff_delay(cfg: &ClientConfig, attempt: u32) -> (r: u64)
    requires
        cfg.wf(),
    ensures
        r == backoff_spec(*cfg, attempt as int),
{
    let capped: u64 = capped_delay(cfg, attempt);
    let range: u64 = capped / 4;
    let jitter: u64 = if range > 0 {
        let jo: u64 = (attempt as u64 * 17) % (range * 2);
        if jo >= range {
            jo - range
        } else {
            0
        }
    } else {
        0
    };
    let total: u64 = capped + jitter;
    if total < 100 {
        100
    } else {
        total
    }
}

/// Powers of two are monotone in the exponent.
pub proof fn lemma_pow2_le(e1: int, e2: int)
    requires
        e1 <= e2,
    ensures
        pow2(e1) <= pow2(e2),
    decreases e2 - e1,
{
    if e1 < e2 {
        lemma_pow2_le(e1, e2 - 1);
        lemma_pow2_positive(e2 - 1);
    }
}

/// The backoff law. Every delay lies between the 100 ms floor joined with
/// the capped delay less a quarter, and the capped delay plus a quarter;
/// and delays do not decrease from one attempt to the next as long as the
/// exponential delay has not reached the cap. The delay is a function of
/// the configuration and the attempt counter alone.
pub proof fn lemma_backoff_bounds(cfg: ClientConfig, attempt: int)
    requires
        cfg.wf(),
        attempt >= 0,
    ensures
        ({
            let c = capped_delay_spec(cfg, attempt);
            let d = backoff_spec(cfg, attempt);
            &&& (if 100 > c - c / 4 {
                100
            } else {
                c - c / 4
            }) <= d
            &&& d <= (if c + c / 4 > 100 {
                c + c / 4
            } else {
                100
            })
        }),
{
}

/// Monotonicity of the backoff below the cap: while the doubled delay of
/// the later attempt still lies at or under the configured maximum, the
/// delay of an earlier attempt is no larger.
pub proof fn lemma_backoff_monotonic(cfg: ClientConfig, a1: int, a2: int)
    requires
        cfg.wf(),
        0 <= a1 < a2,
        cfg.base_delay_ms * pow2(a2) <= cfg.max_delay_ms,
    ensures
        backoff_spec(cfg, a1) <= backoff_spec(cfg, a2),
{
    lemma_pow2_positive(a1);
    lemma_pow2_positive(a2);
    lemma_pow2_double(a1, a2);
    let e1 = exp_delay_spec(cfg, a1);
    let e2 = exp_delay_spec(cfg, a2);
    assert(cfg.base_delay_ms * pow2(a1) * 2 <= cfg.base_delay_ms * pow2(a2)) by (nonlinear_arith)
        requires
            2 * pow2(a1) <= pow2(a2),
            cfg.base_delay_ms >= 0,
    ;
    assert(cfg.base_delay_ms * pow2(a1) >= 0) by (nonlinear_arith)
        requires
            cfg.base_delay_ms >= 0,
            pow2(a1) >= 1,
    ;
    assert(e1 == cfg.base_delay_ms * pow2(a1));
    assert(e2 == cfg.base_delay_ms * pow2(a2));
    let c1 = capped_delay_spec(cfg, a1);
    let c2 = capped_delay_spec(cfg, a2);
    assert(2 * c1 <= c2);
}

/// Doubling a smaller power of two stays at or under a larger one.
pub proof fn lemma_pow2_double(a1: int, a2: int)
    requires
        0 <= a1 < a2,
    ensures
        2 * pow2(a1) <= pow2(a2),
    decreases a2 - a1,
{
    if a1 + 1 < a2 {
        lemma_pow2_double(a1, a2 - 1);
        lemma_pow2_positive(a1);
    }
}

/// Powers of two are positive.
pub proof fn lemma_pow2_positive(e: int)
    ensures
        pow2(e) >= 1,
    decreases e,
{
    if e > 0 {
        lemma_pow2_positive(e - 1);
    }
}

} // verus!
