//! Retrying fetcher: the rule by which one frame is fetched with a bounded
//! number of HTTP GET attempts and a fixed wait between them.
//!
//! The fetcher makes no request itself. Its caller performs each attempt and
//! hands in how it ended; the fetcher says what to do next.

use vstd::prelude::*;

verus! {

/// Most attempts that are made for one frame.
pub const MAX_ATTEMPTS: u32 = 5;

/// Seconds to wait after a failed attempt before the next one.
pub const BACKOFF_SECONDS: u64 = 2;

/// The HTTP status that counts as success.
pub const SUCCESS_STATUS: u16 = 200;

/// How one attempt ended.
#[derive(Debug, PartialEq, Eq)]
pub enum AttemptOutcome {
    /// A response arrived, with this status and body.
    Response { status: u16, body: Vec<u8> },
    /// No response could be had: the transport failed.
    TransportFailure,
}

/// How one attempt ended, with the body as a sequence of bytes.
pub enum AttemptOutcomeView {
    Response { status: u16, body: Seq<u8> },
    TransportFailure,
}

impl View for AttemptOutcome {
    type V = AttemptOutcomeView;

    open spec fn view(&self) -> AttemptOutcomeView {
        match self {
            AttemptOutcome::Response { status, body } => AttemptOutcomeView::Response {
                status: *status,
                body: body@,
            },
            AttemptOutcome::TransportFailure => AttemptOutcomeView::TransportFailure,
        }
    }
}

/// What the fetcher does after an attempt.
#[derive(Debug, PartialEq, Eq)]
pub enum FetchStep {
    /// The frame has been fetched: these are its bytes.
    Deliver(Vec<u8>),
    /// Wait for this many seconds, then make another attempt.
    RetryAfter { backoff_seconds: u64 },
    /// All attempts have failed: the frame is not to be had.
    GiveUp,
}

/// What the fetcher does after an attempt, with the bytes as a sequence.
pub enum FetchStepView {
    Deliver(Seq<u8>),
    RetryAfter { backoff_seconds: u64 },
    GiveUp,
}

impl View for FetchStep {
    type V = FetchStepView;

    open spec fn view(&self) -> FetchStepView {
        match self {
            FetchStep::Deliver(bytes) => FetchStepView::Deliver(bytes@),
            FetchStep::RetryAfter { backoff_seconds } => FetchStepView::RetryAfter {
                backoff_seconds: *backoff_seconds,
            },
            FetchStep::GiveUp => FetchStepView::GiveUp,
        }
    }
}

/// An attempt succeeds when a response with the success status arrives. Any
/// other status, and any failure of the transport, is a failed attempt.
pub open spec fn is_success(outcome: AttemptOutcomeView) -> bool {
    outcome matches AttemptOutcomeView::Response { status, .. } && status == SUCCESS_STATUS
}

/// The fetcher's rule. `failures` attempts have failed so far and the next
/// one ended in `outcome`: gives the failures after it and what to do.
///
/// A successful attempt delivers its body. A failed attempt is followed by a
/// wait and another attempt, unless it was the last of `MAX_ATTEMPTS`: then
/// the fetcher gives up, without a wait. A fetcher that has used up its
/// attempts gives up whatever it is told.
pub open spec fn decide(failures: nat, outcome: AttemptOutcomeView) -> (nat, FetchStepView) {
    if failures >= MAX_ATTEMPTS {
        (failures, FetchStepView::GiveUp)
    } else {
        match outcome {
            AttemptOutcomeView::Response { status, body } if status == SUCCESS_STATUS => (
                failures,
                FetchStepView::Deliver(body),
            ),
            _ => if failures + 1 < MAX_ATTEMPTS {
                (failures + 1, FetchStepView::RetryAfter { backoff_seconds: BACKOFF_SECONDS })
            } else {
                (failures + 1, FetchStepView::GiveUp)
            },
        }
    }
}

/// What fetching one frame came to.
pub struct FetchSummary {
    /// Attempts that were made.
    pub attempts: nat,
    /// Waits that were taken between attempts.
    pub backoffs: nat,
    /// The bytes of the frame, or `None` where it could not be had.
    pub body: Option<Seq<u8>>,
}

/// Fetching against an endpoint that ends attempt number `k`, counted from 0,
/// in `endpoint(k)`, taken up where `failures` attempts have failed: the
/// attempts and waits from the first attempt on, and the body if one came.
pub open spec fn fetch_from(
    endpoint: spec_fn(nat) -> AttemptOutcomeView,
    failures: nat,
) -> FetchSummary
    decreases MAX_ATTEMPTS - failures,
{
    if failures >= MAX_ATTEMPTS {
        FetchSummary { attempts: failures, backoffs: failures, body: None }
    } else {
        match decide(failures, endpoint(failures)).1 {
            FetchStepView::Deliver(body) => FetchSummary {
                attempts: failures + 1,
                backoffs: failures,
                body: Some(body),
            },
            FetchStepView::RetryAfter { .. } => fetch_from(endpoint, failures + 1),
            FetchStepView::GiveUp => FetchSummary {
                attempts: failures + 1,
                backoffs: failures,
                body: None,
            },
        }
    }
}

/// Fetching one frame from the first attempt on.
pub open spec fn fetch(endpoint: spec_fn(nat) -> AttemptOutcomeView) -> FetchSummary {
    fetch_from(endpoint, 0)
}

/// State of the fetcher while one frame is being fetched.
#[derive(Debug, PartialEq, Eq)]
pub struct RetryingFetcher {
    failures: u32,
}

impl RetryingFetcher {
    /// Attempts that have failed so far.
    pub closed spec fn failures(&self) -> nat {
        self.failures as nat
    }

    /// A fetcher that has made no attempt yet.
    pub fn new() -> (fetcher: RetryingFetcher)
        ensures
            fetcher.failures() == 0,
    {
        RetryingFetcher { failures: 0 }
    }

    /// Attempts that have failed so far.
    pub fn failed_attempts(&self) -> (failures: u32)
        ensures
            failures == self.failures(),
    {
        self.failures
    }

    /// Takes in how an attempt ended and says what to do next: deliver the
    /// body of a successful response, wait and try again after a failure, or
    /// give up once the last attempt has failed.
    pub fn on_outcome(&mut self, outcome: AttemptOutcome) -> (step: FetchStep)
        ensures
            (final(self).failures(), step@) == decide(old(self).failures(), outcome@),
    {
        if self.failures >= MAX_ATTEMPTS {
            return FetchStep::GiveUp;
        }
        match outcome {
            AttemptOutcome::Response { status, body } => {
                if status == SUCCESS_STATUS {
                    return FetchStep::Deliver(body);
                }
            },
            AttemptOutcome::TransportFailure => {},
        }
        self.failures = self.failures + 1;
        if self.failures < MAX_ATTEMPTS {
            FetchStep::RetryAfter { backoff_seconds: BACKOFF_SECONDS }
        } else {
            FetchStep::GiveUp
        }
    }
}

/// The fetcher never makes more than `MAX_ATTEMPTS` attempts, it waits once
/// between any two attempts and not after the last, and it delivers a body
/// exactly when one of the attempts it makes succeeds: the body of the first
/// such attempt.
pub proof fn lemma_fetch_summary(endpoint: spec_fn(nat) -> AttemptOutcomeView, failures: nat)
    requires
        failures < MAX_ATTEMPTS,
    ensures
        failures < fetch_from(endpoint, failures).attempts <= MAX_ATTEMPTS,
        fetch_from(endpoint, failures).backoffs == fetch_from(endpoint, failures).attempts - 1,
        forall|k: nat|
            failures <= k < fetch_from(endpoint, failures).attempts - 1 ==> !is_success(
                #[trigger] endpoint(k),
            ),
        match fetch_from(endpoint, failures).body {
            Some(body) => endpoint((fetch_from(endpoint, failures).attempts - 1) as nat)
                == (AttemptOutcomeView::Response { status: SUCCESS_STATUS, body }),
            None => fetch_from(endpoint, failures).attempts == MAX_ATTEMPTS && !is_success(
                endpoint((MAX_ATTEMPTS - 1) as nat),
            ),
        },
    decreases MAX_ATTEMPTS - failures,
{
    if !is_success(endpoint(failures)) && failures + 1 < MAX_ATTEMPTS {
        lemma_fetch_summary(endpoint, failures + 1);
    }
}

/// Against an endpoint that fails every time, the fetcher makes exactly
/// `MAX_ATTEMPTS` attempts, waits between them, and then signals failure.
pub proof fn lemma_persistent_failure(endpoint: spec_fn(nat) -> AttemptOutcomeView)
    requires
        forall|k: nat| k < MAX_ATTEMPTS ==> !is_success(#[trigger] endpoint(k)),
    ensures
        fetch(endpoint) == (FetchSummary {
            attempts: MAX_ATTEMPTS as nat,
            backoffs: (MAX_ATTEMPTS - 1) as nat,
            body: None,
        }),
        forall|k: nat|
            k + 1 < MAX_ATTEMPTS ==> (#[trigger] decide(k, endpoint(k))).1 == (
            FetchStepView::RetryAfter { backoff_seconds: BACKOFF_SECONDS }),
        decide((MAX_ATTEMPTS - 1) as nat, endpoint((MAX_ATTEMPTS - 1) as nat)).1
            == FetchStepView::GiveUp,
{
    lemma_fetch_summary(endpoint, 0);
    let summary = fetch(endpoint);
    if summary.body is Some {
        assert(is_success(endpoint((summary.attempts - 1) as nat)));
    }
    assert forall|k: nat| k + 1 < MAX_ATTEMPTS implies (#[trigger] decide(k, endpoint(k))).1 == (
    FetchStepView::RetryAfter { backoff_seconds: BACKOFF_SECONDS }) by {
        assert(!is_success(endpoint(k)));
    }
    assert(!is_success(endpoint((MAX_ATTEMPTS - 1) as nat)));
}

} // verus!
