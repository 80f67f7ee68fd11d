//! How often requests are made again.
use vstd::prelude::*;

use reqwest_retry::policies::ExponentialBackoff;
use reqwest_retry::{RetryDecision, RetryPolicy};
use std::time::{Duration, SystemTime};

verus! {

/// How often an upload is tried again.
pub const UPLOAD_RETRY_COUNT: u32 = 3;

/// How often a token is asked for again.
pub const OIDC_RETRY_COUNT: u32 = 10;

/// The name by which this program makes requests.
pub const USER_AGENT: &'static str = "codspeed-runner";

// ---------------------------------------------------------------------------------------------
// Waiting between attempts
// ---------------------------------------------------------------------------------------------

/// How often something is tried again, and between which bounds the time before that lies.
#[derive(Debug, Clone, Copy)]
pub struct Backoff {
    pub min_secs: u32,
    pub max_secs: u32,
    pub max_retries: u32,
}

/// `should_retry` of the exponential backoff of `reqwest_retry`: whether there were fewer retries
/// than there may be. Then it gives a moment, and this the time until then. How long that is depends
/// on chance and on the clock, and nothing is said of it.
#[verifier::external_body]
fn should_retry(backoff: Backoff, n_past_retries: u32) -> (r: Option<Duration>)
    requires
        backoff.min_secs <= backoff.max_secs,
    ensures
        r is Some <==> n_past_retries < backoff.max_retries,
{
    let (min, max) = (backoff.min_secs.into(), backoff.max_secs.into());
    let policy = ExponentialBackoff::builder()
        .retry_bounds(Duration::from_secs(min), Duration::from_secs(max))
        .build_with_max_retries(backoff.max_retries);
    match policy.should_retry(SystemTime::now(), n_past_retries) {
        RetryDecision::Retry { execute_after } => Some(
            execute_after.duration_since(SystemTime::now()).unwrap_or_default(),
        ),
        RetryDecision::DoNotRetry => None,
    }
}

/// How uploads are tried again.
pub fn upload_backoff() -> (r: Backoff)
    ensures
        r == (Backoff { min_secs: 1, max_secs: 1800, max_retries: UPLOAD_RETRY_COUNT }),
{
    Backoff { min_secs: 1, max_secs: 1800, max_retries: UPLOAD_RETRY_COUNT }
}

/// How tokens are asked for again.
pub fn oidc_backoff() -> (r: Backoff)
    ensures
        r == (Backoff { min_secs: 1, max_secs: 1800, max_retries: OIDC_RETRY_COUNT }),
{
    Backoff { min_secs: 1, max_secs: 1800, max_retries: OIDC_RETRY_COUNT }
}

// ---------------------------------------------------------------------------------------------
// Attempts
// ---------------------------------------------------------------------------------------------

/// Whether there is another attempt after one that failed for a reason that may pass.
pub open spec fn retries(transient: bool, n_past_retries: nat, max_retries: nat) -> bool {
    transient && n_past_retries < max_retries
}

/// How many attempts are made, if `transient` tells of each in turn whether it failed for a reason
/// that may pass.
pub open spec fn attempts(transient: Seq<bool>, n_past_retries: nat, max_retries: nat) -> nat
    decreases transient.len(),
{
    if transient.len() == 0 {
        0
    } else if retries(transient[0], n_past_retries, max_retries) {
        1 + attempts(transient.skip(1), n_past_retries + 1, max_retries)
    } else {
        1
    }
}

/// The retries of one request.
#[derive(Debug)]
pub struct Retrying {
    policy: Backoff,
    n_past_retries: u32,
}

impl Retrying {
    pub closed spec fn past(self) -> nat {
        self.n_past_retries as nat
    }

    /// How often there may be another attempt, and between which bounds the time before it lies.
    pub closed spec fn policy(self) -> Backoff {
        self.policy
    }

    pub open spec fn max(self) -> nat {
        self.policy().max_retries as nat
    }

    #[verifier::type_invariant]
    closed spec fn wf(self) -> bool {
        &&& self.policy.min_secs <= self.policy.max_secs
        &&& self.n_past_retries <= self.policy.max_retries
    }

    pub fn new(policy: Backoff) -> (r: Self)
        requires
            policy.min_secs <= policy.max_secs,
        ensures
            r.past() == 0,
            r.policy() == policy,
    {
        Retrying { policy, n_past_retries: 0 }
    }

    /// The time after which there is another attempt, if there is one.
    pub fn next(&mut self, transient: bool) -> (r: Option<Duration>)
        ensures
            r is Some <==> retries(transient, old(self).past(), old(self).max()),
            final(self).policy() == old(self).policy(),
            final(self).past() == old(self).past() + (if r is Some {
                1nat
            } else {
                0
            }),
            final(self).past() <= final(self).max(),
    {
        proof {
            use_type_invariant(&*self);
        }
        if !transient {
            return None;
        }
        let wait = should_retry(self.policy, self.n_past_retries);
        if wait.is_some() {
            self.n_past_retries = self.n_past_retries + 1;
        }
        wait
    }
}

/// There is one attempt, and at most as many more as there may be retries.
pub proof fn law_attempts_are_bounded(transient: Seq<bool>, n_past_retries: nat, max_retries: nat)
    requires
        n_past_retries <= max_retries,
    ensures
        attempts(transient, n_past_retries, max_retries) <= max_retries - n_past_retries + 1,
        attempts(transient, n_past_retries, max_retries) <= transient.len(),
        transient.len() > 0 ==> attempts(transient, n_past_retries, max_retries) > 0,
    decreases transient.len(),
{
    if transient.len() > 0 && retries(transient[0], n_past_retries, max_retries) {
        law_attempts_are_bounded(transient.skip(1), n_past_retries + 1, max_retries);
    }
}

/// Where every attempt fails for a reason that may pass, all attempts that there may be are made.
pub proof fn law_transient_failures_use_all_attempts(
    transient: Seq<bool>,
    n_past_retries: nat,
    max_retries: nat,
)
    requires
        n_past_retries <= max_retries,
        transient.len() > max_retries - n_past_retries,
        forall|i: int| 0 <= i < transient.len() ==> #[trigger] transient[i],
    ensures
        attempts(transient, n_past_retries, max_retries) == max_retries - n_past_retries + 1,
    decreases transient.len(),
{
    if retries(transient[0], n_past_retries, max_retries) {
        law_transient_failures_use_all_attempts(
            transient.skip(1),
            n_past_retries + 1,
            max_retries,
        );
    }
}

/// The first attempt that succeeds, or that fails for good, is the last, unless there may be no
/// retries before it any more.
pub proof fn law_first_final_attempt_is_the_last(
    transient: Seq<bool>,
    last: nat,
    n_past_retries: nat,
    max_retries: nat,
)
    requires
        last < transient.len(),
        !transient[last as int],
        forall|i: int| 0 <= i < last ==> #[trigger] transient[i],
        n_past_retries + last <= max_retries,
    ensures
        attempts(transient, n_past_retries, max_retries) == last + 1,
    decreases last,
{
    if last > 0 {
        assert(transient[0]);
        law_first_final_attempt_is_the_last(
            transient.skip(1),
            (last - 1) as nat,
            n_past_retries + 1,
            max_retries,
        );
    }
}

// ---------------------------------------------------------------------------------------------
// Answers
// ---------------------------------------------------------------------------------------------

/// How an attempt failed.
#[derive(Debug, Clone, Copy, PartialEq, Eq, Structural)]
pub enum Retryable {
    /// For a reason that may pass.
    Transient,
    /// For good.
    Fatal,
}

/// Whether the status of an answer means success.
pub open spec fn success_status(status: u16) -> bool {
    200 <= status < 300
}

/// How an attempt with this status failed, if it did: errors of the server, timeouts (408) and too
/// many requests (429) may pass, every other status but success is final.
pub open spec fn retryable_status(status: u16) -> Option<Retryable> {
    if success_status(status) {
        None
    } else if 500 <= status < 600 || status == 408 || status == 429 {
        Some(Retryable::Transient)
    } else {
        Some(Retryable::Fatal)
    }
}

/// Whether the status of an answer means success.
pub fn is_success(status: u16) -> (r: bool)
    ensures
        r == success_status(status),
{
    200 <= status && status < 300
}

/// How an attempt with this status failed, if it did.
pub fn classify_status(status: u16) -> (r: Option<Retryable>)
    ensures
        r == retryable_status(status),
{
    if 500 <= status && status < 600 {
        Some(Retryable::Transient)
    } else if status == 408 || status == 429 {
        Some(Retryable::Transient)
    } else if is_success(status) {
        None
    } else {
        Some(Retryable::Fatal)
    }
}

/// An attempt may pass where the server failed, took too long or had too many requests. A status from
/// 200 to 299 is success, and any other is final.
pub proof fn law_which_answers_may_pass(status: u16, success: bool, r: Option<Retryable>)
    requires
        call_ensures(is_success, (status,), success),
        call_ensures(classify_status, (status,), r),
    ensures
        success <==> 200 <= status <= 299,
        r is None <==> success,
        r == Some(Retryable::Transient) <==> 500 <= status <= 599 || status == 408 || status == 429,
{
}

/// There is another attempt exactly where one failed for a reason that may pass and not all retries
/// were used.
pub proof fn law_when_there_is_another_attempt(transient: bool, past: nat, max: nat)
    ensures
        !transient ==> !retries(transient, past, max),
        past >= max ==> !retries(transient, past, max),
        transient && past < max ==> retries(transient, past, max),
{
}

/// An upload is tried three times more, a token is asked for ten times more.
pub proof fn law_how_often_requests_are_made_again(upload: Backoff, oidc: Backoff)
    requires
        call_ensures(upload_backoff, (), upload),
        call_ensures(oidc_backoff, (), oidc),
    ensures
        upload.max_retries == 3 && upload.min_secs == 1 && upload.max_secs == 30 * 60,
        oidc.max_retries == 10 && oidc.min_secs == 1 && oidc.max_secs == 30 * 60,
{
}

/// A transient failure is followed by another attempt as long as fewer were made than may be, and
/// only such a one.
pub proof fn law_next_attempt_is_counted(
    retrying: &mut Retrying,
    transient: bool,
    r: Option<Duration>,
)
    requires
        call_ensures(Retrying::next, (retrying, transient), r),
    ensures
        r is Some <==> transient && old(retrying).past() < old(retrying).max(),
        final(retrying).past() == old(retrying).past() + (if r is Some {
            1int
        } else {
            0
        }),
        final(retrying).max() == old(retrying).max(),
{
}

} // verus!
