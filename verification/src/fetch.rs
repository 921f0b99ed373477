use crate::bytesutil::{contains_sub, spec_contains_sub};
use crate::error::Error;
use vstd::prelude::*;

verus! {

/// What one remote response amounts to, read off its status code and
/// message.
#[derive(Debug, Clone, Copy, PartialEq, Eq, Structural)]
pub enum ResponseKind {
    /// Status code zero: the payload is usable.
    Success,
    /// The credential expired: fatal, never retried.
    AuthExpired,
    /// The rate limiter struck: transient, retried with backoff.
    RateLimited,
    /// Any other non-zero status: fatal, surfaced verbatim.
    RemoteError,
}

/// The bytes of `"authkey"`.
pub open spec fn spec_authkey_marker() -> Seq<u8> {
    seq![97u8, 117u8, 116u8, 104u8, 107u8, 101u8, 121u8]
}

pub fn authkey_marker() -> (r: Vec<u8>)
    ensures
        r@ == spec_authkey_marker(),
{
    let mut v: Vec<u8> = Vec::new();
    v.push(97u8);
    v.push(117u8);
    v.push(116u8);
    v.push(104u8);
    v.push(107u8);
    v.push(101u8);
    v.push(121u8);
    proof {
        assert(v@ =~= spec_authkey_marker());
    }
    v
}

/// The bytes of `"auth key"`.
pub open spec fn spec_auth_key_marker() -> Seq<u8> {
    seq![97u8, 117u8, 116u8, 104u8, 32u8, 107u8, 101u8, 121u8]
}

pub fn auth_key_marker() -> (r: Vec<u8>)
    ensures
        r@ == spec_auth_key_marker(),
{
    let mut v: Vec<u8> = Vec::new();
    v.push(97u8);
    v.push(117u8);
    v.push(116u8);
    v.push(104u8);
    v.push(32u8);
    v.push(107u8);
    v.push(101u8);
    v.push(121u8);
    proof {
        assert(v@ =~= spec_auth_key_marker());
    }
    v
}

/// The bytes of `"visit too frequently"`.
pub open spec fn spec_too_frequent_marker() -> Seq<u8> {
    seq![
        118u8,
        105u8,
        115u8,
        105u8,
        116u8,
        32u8,
        116u8,
        111u8,
        111u8,
        32u8,
        102u8,
        114u8,
        101u8,
        113u8,
        117u8,
        101u8,
        110u8,
        116u8,
        108u8,
        121u8,
    ]
}

pub fn too_frequent_marker() -> (r: Vec<u8>)
    ensures
        r@ == spec_too_frequent_marker(),
{
    let mut v: Vec<u8> = Vec::new();
    v.push(118u8);
    v.push(105u8);
    v.push(115u8);
    v.push(105u8);
    v.push(116u8);
    v.push(32u8);
    v.push(116u8);
    v.push(111u8);
    v.push(111u8);
    v.push(32u8);
    v.push(102u8);
    v.push(114u8);
    v.push(101u8);
    v.push(113u8);
    v.push(117u8);
    v.push(101u8);
    v.push(110u8);
    v.push(116u8);
    v.push(108u8);
    v.push(121u8);
    proof {
        assert(v@ =~= spec_too_frequent_marker());
    }
    v
}

/// How a response envelope is classified. An authorization-expired
/// signal, by code or by message, is fatal and distinct from the
/// rate-limit signal, which alone is worth a retry; any other non-zero
/// code is fatal with code and message kept.
pub open spec fn spec_classify(retcode: int, msg: Seq<u8>) -> ResponseKind {
    if retcode == 0 {
        ResponseKind::Success
    } else if retcode == -101 || spec_contains_sub(msg, spec_authkey_marker()) || spec_contains_sub(
        msg,
        spec_auth_key_marker(),
    ) {
        ResponseKind::AuthExpired
    } else if retcode == -110 || spec_contains_sub(msg, spec_too_frequent_marker()) {
        ResponseKind::RateLimited
    } else {
        ResponseKind::RemoteError
    }
}

pub fn classify_response(retcode: i32, message: &Vec<u8>) -> (k: ResponseKind)
    ensures
        k == spec_classify(retcode as int, message@),
{
    if retcode == 0 {
        return ResponseKind::Success;
    }
    let authkey = authkey_marker();
    let auth_key = auth_key_marker();
    if retcode == -101 || contains_sub(message, &authkey) || contains_sub(message, &auth_key) {
        return ResponseKind::AuthExpired;
    }
    let too_frequent = too_frequent_marker();
    if retcode == -110 || contains_sub(message, &too_frequent) {
        return ResponseKind::RateLimited;
    }
    ResponseKind::RemoteError
}

/// The error a classified response propagates as, `None` on success.
pub fn error_for_response(retcode: i32, message: Vec<u8>) -> (r: Option<Error>)
    ensures
        match spec_classify(retcode as int, message@) {
            ResponseKind::Success => r is None,
            ResponseKind::AuthExpired => r == Some(Error::AuthorizationExpired),
            ResponseKind::RateLimited => r == Some(Error::RateLimited),
            ResponseKind::RemoteError => (r matches Some(e) && (e matches Error::RemoteApi {
                retcode: c,
                message: m,
            } && c == retcode && m@ == message@)),
        },
{
    match classify_response(retcode, &message) {
        ResponseKind::Success => None,
        ResponseKind::AuthExpired => Some(Error::AuthorizationExpired),
        ResponseKind::RateLimited => Some(Error::RateLimited),
        ResponseKind::RemoteError => Some(Error::RemoteApi { retcode, message }),
    }
}

/// The attempt budget of one page request.
pub const MAX_ATTEMPTS: usize = 5;

/// Shortest backoff sleep, in milliseconds.
pub const BACKOFF_MIN_MS: u64 = 200;

/// Longest backoff sleep, in milliseconds.
pub const BACKOFF_MAX_MS: u64 = 10_000;

/// Relies on `exponential_backoff::Backoff` (crate `exponential-backoff`):
/// iterating it yields exactly `max_attempts` items, every one but the
/// last a randomized duration clamped into `[min, max]`, and the last
/// `None` so that no sleep follows the final attempt.
#[verifier::external_body]
pub(crate) fn backoff_schedule(max_attempts: u32, min_ms: u64, max_ms: u64) -> (r: Vec<Option<u64>>)
    requires
        min_ms <= max_ms,
    ensures
        r@.len() == max_attempts,
        forall|i: int| 0 <= i < r@.len() - 1 ==> r@[i] is Some,
        r@.len() > 0 ==> r@[r@.len() - 1] is None,
        forall|i: int|
            0 <= i < r@.len() ==> ((#[trigger] r@[i]) matches Some(d) ==> min_ms <= d <= max_ms),
{
    let min = std::time::Duration::from_millis(min_ms);
    let max = std::time::Duration::from_millis(max_ms);
    exponential_backoff::Backoff::new(max_attempts, min, max)
        .into_iter()
        .map(|o: Option<std::time::Duration>| o.map(|d| d.as_millis() as u64))
        .collect()
}

/// The sleep schedule of one page request: five attempts, backoff between
/// 0.2 s and 10 s.
pub fn default_backoff_schedule() -> (r: Vec<Option<u64>>)
    ensures
        r@.len() == MAX_ATTEMPTS,
        forall|i: int| 0 <= i < r@.len() - 1 ==> r@[i] is Some,
        r@[r@.len() - 1] is None,
        forall|i: int|
            0 <= i < r@.len() ==> ((#[trigger] r@[i]) matches Some(d) ==> BACKOFF_MIN_MS <= d
                <= BACKOFF_MAX_MS),
{
    backoff_schedule(MAX_ATTEMPTS as u32, BACKOFF_MIN_MS, BACKOFF_MAX_MS)
}

/// Whether one more attempt follows: only a rate-limited response with
/// budget to spare is retried; success and fatal failures return at once.
pub open spec fn spec_should_retry(kind: ResponseKind, attempts_done: int, budget: int) -> bool {
    kind == ResponseKind::RateLimited && attempts_done < budget
}

pub fn should_retry(kind: ResponseKind, attempts_done: usize, budget: usize) -> (r: bool)
    ensures
        r == spec_should_retry(kind, attempts_done as int, budget as int),
{
    kind == ResponseKind::RateLimited && attempts_done < budget
}

/// The first attempt index, below the budget, whose outcome is anything
/// but rate-limited; the attempt that ends the retry loop.
pub open spec fn spec_first_decisive(outcomes: Seq<ResponseKind>, from: int, budget: int) -> Option<
    int,
>
    decreases budget - from,
{
    if from < 0 || from >= budget || from >= outcomes.len() {
        None
    } else if outcomes[from] != ResponseKind::RateLimited {
        Some(from)
    } else {
        spec_first_decisive(outcomes, from + 1, budget)
    }
}

/// Replays the retry loop against a given sequence of response outcomes:
/// attempts stop at the first outcome that is not rate-limited, and a
/// budget spent entirely on rate-limited outcomes ends as the rate-limit
/// outcome itself, not a generic failure. Returns how many attempts were
/// made and the outcome the loop ends with.
pub fn run_retry(outcomes: &Vec<ResponseKind>, budget: usize) -> (r: (usize, ResponseKind))
    requires
        budget <= outcomes.len(),
    ensures
        match spec_first_decisive(outcomes@, 0, budget as int) {
            Some(i) => r.0 == i + 1 && r.1 == outcomes@[i],
            None => r.0 == budget && r.1 == ResponseKind::RateLimited,
        },
{
    let mut i: usize = 0;
    while i < budget
        invariant
            budget <= outcomes.len(),
            i <= budget,
            spec_first_decisive(outcomes@, 0, budget as int) == spec_first_decisive(
                outcomes@,
                i as int,
                budget as int,
            ),
        decreases budget - i,
    {
        let k = outcomes[i];
        if k != ResponseKind::RateLimited {
            return (i + 1, k);
        }
        i += 1;
    }
    (budget, ResponseKind::RateLimited)
}

} // verus!
