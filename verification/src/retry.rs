//! The retry policy of the resilient fetch client.
//!
//! An outbound request is attempted up to `max_retries + 1` times. A
//! transport failure is remembered and retried after a fixed delay; a
//! non-success status is retried silently. When every attempt is exhausted,
//! the last transport failure seen is returned; a run that only ever drew
//! non-success statuses has no transport failure to return and gets a
//! dedicated failure kind. The network call itself is made outside the
//! library, which drives this policy one step at a time; the whole-run
//! outcome is fixed by `resolve_retry`.
use vstd::prelude::*;
use crate::errors::ApiError;
use crate::errors::HttpError;
use crate::errors::HttpErrorKind;

verus! {

/// What one attempt of the underlying request observed.
pub enum AttemptOutcome {
    /// A response with a success (2xx) status.
    Success,
    /// A response with the given non-success status.
    BadStatus(u16),
    /// A transport-level failure, already classified.
    Transport(HttpError),
}

/// What the driver of the retry loop must do after an attempt.
pub enum RetryStep {
    /// The attempt succeeded: decode the body and stop.
    Accept,
    /// Wait this many seconds, then attempt again.
    SleepThenRetry(u64),
    /// Attempts are exhausted: stop with this failure.
    GiveUp(ApiError),
}

/// How a whole retry run ends: how many attempts were made, and with what.
pub enum RetryResolution {
    Accepted { attempts: usize },
    Failed { attempts: usize, error: ApiError },
}

/// The index of the first successful attempt, if any.
pub open spec fn first_success(outcomes: Seq<AttemptOutcome>) -> Option<int>
    decreases outcomes.len(),
{
    if outcomes.len() == 0 {
        None
    } else if outcomes[0] is Success {
        Some(0)
    } else {
        match first_success(outcomes.drop_first()) {
            Some(i) => Some(i + 1),
            None => None,
        }
    }
}

/// The last transport failure among the attempts, if any.
pub open spec fn last_transport(outcomes: Seq<AttemptOutcome>) -> Option<HttpError>
    decreases outcomes.len(),
{
    if outcomes.len() == 0 {
        None
    } else {
        match outcomes.last() {
            AttemptOutcome::Transport(e) => Some(e),
            _ => last_transport(outcomes.drop_last()),
        }
    }
}

/// The failure an exhausted run ends with: the last transport failure, or
/// the dedicated kind for a run that only drew non-success statuses.
pub open spec fn is_exhausted_error(outcomes: Seq<AttemptOutcome>, e: ApiError) -> bool {
    match last_transport(outcomes) {
        Some(t) => e == ApiError::Http(t),
        None => match e {
            ApiError::Http(h) => h.kind == HttpErrorKind::OnlyBadStatuses && h.message@
                == "upstream returned no success status"@,
            _ => false,
        },
    }
}

/// One step of the retry loop: what to do after attempt number `attempt`
/// (counted from zero) observed `outcome`, and the transport failure to
/// remember from here on.
pub fn retry_step(
    attempt: u32,
    max_retries: u32,
    retry_delay_secs: u64,
    outcome: AttemptOutcome,
    last_err: Option<HttpError>,
) -> (r: (RetryStep, Option<HttpError>))
    requires
        attempt <= max_retries,
    ensures
        match outcome {
            AttemptOutcome::Success => r.0 == RetryStep::Accept,
            AttemptOutcome::BadStatus(_) => if attempt < max_retries {
                r.0 == RetryStep::SleepThenRetry(retry_delay_secs) && r.1 == last_err
            } else {
                match last_err {
                    Some(e) => r.0 == RetryStep::GiveUp(ApiError::Http(e)),
                    None => match r.0 {
                        RetryStep::GiveUp(g) => match g {
                            ApiError::Http(h) => h.kind == HttpErrorKind::OnlyBadStatuses
                                && h.message@ == "upstream returned no success status"@,
                            _ => false,
                        },
                        _ => false,
                    },
                }
            },
            AttemptOutcome::Transport(e) => if attempt < max_retries {
                r.0 == RetryStep::SleepThenRetry(retry_delay_secs) && r.1 == Some(e)
            } else {
                r.0 == RetryStep::GiveUp(ApiError::Http(e))
            },
        },
{
    match outcome {
        AttemptOutcome::Success => (RetryStep::Accept, last_err),
        AttemptOutcome::BadStatus(_) => {
            if attempt < max_retries {
                (RetryStep::SleepThenRetry(retry_delay_secs), last_err)
            } else {
                match last_err {
                    Some(e) => (RetryStep::GiveUp(ApiError::Http(e)), None),
                    None => {
                        let h = HttpError {
                            kind: HttpErrorKind::OnlyBadStatuses,
                            message: String::from_str("upstream returned no success status"),
                        };
                        (RetryStep::GiveUp(ApiError::Http(h)), None)
                    },
                }
            }
        },
        AttemptOutcome::Transport(e) => {
            if attempt < max_retries {
                (RetryStep::SleepThenRetry(retry_delay_secs), Some(e))
            } else {
                (RetryStep::GiveUp(ApiError::Http(e)), None)
            }
        },
    }
}

proof fn lemma_first_success_at(s: Seq<AttemptOutcome>, i: int)
    requires
        0 <= i < s.len(),
        s[i] is Success,
        forall|k: int| 0 <= k < i ==> !(#[trigger] s[k] is Success),
    ensures
        first_success(s) == Some(i),
    decreases i,
{
    if i == 0 {
    } else {
        assert(s.drop_first()[i - 1] == s[i]);
        assert(forall|k: int| 0 <= k < i - 1 ==> #[trigger] s.drop_first()[k] == s[k + 1]);
        lemma_first_success_at(s.drop_first(), i - 1);
    }
}

proof fn lemma_first_success_none(s: Seq<AttemptOutcome>)
    requires
        forall|k: int| 0 <= k < s.len() ==> !(#[trigger] s[k] is Success),
    ensures
        first_success(s) is None,
    decreases s.len(),
{
    if s.len() > 0 {
        assert(forall|k: int| 0 <= k < s.len() - 1 ==> #[trigger] s.drop_first()[k] == s[k + 1]);
        lemma_first_success_none(s.drop_first());
    }
}

/// Resolves a whole retry run from the outcome each attempt would observe:
/// the run stops at the first success, and otherwise exhausts all
/// `max_retries + 1` attempts and fails as `is_exhausted_error` says.
pub fn resolve_retry(outcomes: Vec<AttemptOutcome>, max_retries: u32) -> (r: RetryResolution)
    requires
        outcomes@.len() == max_retries as int + 1,
    ensures
        match first_success(outcomes@) {
            Some(i) => r == RetryResolution::Accepted { attempts: (i + 1) as usize },
            None => match r {
                RetryResolution::Failed { attempts, error } => attempts == outcomes@.len()
                    && is_exhausted_error(outcomes@, error),
                _ => false,
            },
        },
{
    let ghost full = outcomes@;
    let n: usize = outcomes.len();
    let mut i: usize = 0;
    while i < n
        invariant
            i <= n,
            n == full.len(),
            full == outcomes@,
            forall|k: int| 0 <= k < i ==> !(#[trigger] full[k] is Success),
        decreases n - i,
    {
        let is_success = match &outcomes[i] {
            AttemptOutcome::Success => true,
            _ => false,
        };
        if is_success {
            proof {
                lemma_first_success_at(full, i as int);
            }
            return RetryResolution::Accepted { attempts: i + 1 };
        }
        i = i + 1;
    }
    proof {
        lemma_first_success_none(full);
    }
    let mut rest = outcomes;
    loop
        invariant
            n == full.len(),
            full == outcomes@,
            first_success(full) is None,
            last_transport(full) == last_transport(rest@),
        decreases rest@.len(),
    {
        let last = rest.pop();
        match last {
            Some(AttemptOutcome::Transport(e)) => {
                return RetryResolution::Failed { attempts: n, error: ApiError::Http(e) };
            },
            Some(_) => {
            },
            None => {
                let h = HttpError {
                    kind: HttpErrorKind::OnlyBadStatuses,
                    message: String::from_str("upstream returned no success status"),
                };
                return RetryResolution::Failed { attempts: n, error: ApiError::Http(h) };
            },
        }
    }
}

/// When no attempt succeeds and at least the last failing attempt is a
/// transport failure, the run makes every one of its `max_retries + 1`
/// attempts and returns that transport failure. In particular, a client
/// whose every attempt times out makes all its attempts and reports the
/// timeout.
pub proof fn lemma_exhaustion_returns_last_transport(outcomes: Seq<AttemptOutcome>, e: HttpError)
    requires
        outcomes.len() > 0,
        forall|k: int| 0 <= k < outcomes.len() ==> (#[trigger] outcomes[k]) is Transport,
        outcomes.last() == AttemptOutcome::Transport(e),
    ensures
        first_success(outcomes) is None,
        last_transport(outcomes) == Some(e),
        forall|r: ApiError| is_exhausted_error(outcomes, r) <==> r == ApiError::Http(e),
{
    lemma_first_success_none(outcomes);
}

} // verus!
