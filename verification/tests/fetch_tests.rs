use frame_pipeline::fetch::{
    AttemptOutcome, FetchStep, RetryingFetcher, BACKOFF_SECONDS, MAX_ATTEMPTS, SUCCESS_STATUS,
};

struct Run {
    attempts: u32,
    backoffs: u32,
    waited_seconds: u64,
    body: Option<Vec<u8>>,
}

fn run(mut endpoint: impl FnMut(u32) -> AttemptOutcome) -> Run {
    let mut fetcher = RetryingFetcher::new();
    let mut run = Run { attempts: 0, backoffs: 0, waited_seconds: 0, body: None };
    loop {
        let outcome = endpoint(run.attempts);
        run.attempts += 1;
        match fetcher.on_outcome(outcome) {
            FetchStep::Deliver(body) => {
                run.body = Some(body);
                return run;
            }
            FetchStep::RetryAfter { backoff_seconds } => {
                run.backoffs += 1;
                run.waited_seconds += backoff_seconds;
            }
            FetchStep::GiveUp => return run,
        }
        assert!(run.attempts < 100);
    }
}

#[test]
fn the_limits_are_five_attempts_and_two_seconds() {
    assert_eq!(MAX_ATTEMPTS, 5);
    assert_eq!(BACKOFF_SECONDS, 2);
    assert_eq!(SUCCESS_STATUS, 200);
}

#[test]
fn persistent_transport_failure_takes_exactly_five_attempts() {
    let run = run(|_| AttemptOutcome::TransportFailure);
    assert_eq!(run.attempts, 5);
    assert_eq!(run.backoffs, 4);
    assert_eq!(run.waited_seconds, 8);
    assert_eq!(run.body, None);
}

#[test]
fn persistent_error_status_takes_exactly_five_attempts() {
    let run = run(|_| AttemptOutcome::Response { status: 503, body: vec![1, 2, 3] });
    assert_eq!(run.attempts, 5);
    assert_eq!(run.backoffs, 4);
    assert_eq!(run.body, None);
}

#[test]
fn each_failure_but_the_last_is_followed_by_a_backoff() {
    let mut fetcher = RetryingFetcher::new();
    for failed in 1..5 {
        assert_eq!(
            fetcher.on_outcome(AttemptOutcome::TransportFailure),
            FetchStep::RetryAfter { backoff_seconds: 2 }
        );
        assert_eq!(fetcher.failed_attempts(), failed);
    }
    assert_eq!(fetcher.on_outcome(AttemptOutcome::TransportFailure), FetchStep::GiveUp);
    assert_eq!(fetcher.failed_attempts(), 5);
}

#[test]
fn success_at_the_first_attempt_delivers_without_waiting() {
    let run = run(|_| AttemptOutcome::Response { status: 200, body: vec![0xff, 0xd8] });
    assert_eq!(run.attempts, 1);
    assert_eq!(run.backoffs, 0);
    assert_eq!(run.body, Some(vec![0xff, 0xd8]));
}

#[test]
fn success_after_failures_delivers_the_body_of_the_first_success() {
    let run = run(|attempt| match attempt {
        0 => AttemptOutcome::TransportFailure,
        1 => AttemptOutcome::Response { status: 404, body: vec![9] },
        2 => AttemptOutcome::Response { status: 200, body: vec![7, 7] },
        _ => AttemptOutcome::Response { status: 200, body: vec![8] },
    });
    assert_eq!(run.attempts, 3);
    assert_eq!(run.backoffs, 2);
    assert_eq!(run.body, Some(vec![7, 7]));
}

#[test]
fn success_at_the_last_attempt_still_delivers() {
    let run = run(|attempt| {
        if attempt < 4 {
            AttemptOutcome::TransportFailure
        } else {
            AttemptOutcome::Response { status: 200, body: vec![1] }
        }
    });
    assert_eq!(run.attempts, 5);
    assert_eq!(run.backoffs, 4);
    assert_eq!(run.body, Some(vec![1]));
}

#[test]
fn only_status_200_counts_as_success() {
    for status in [0u16, 100, 199, 201, 204, 301, 302, 400, 404, 500, 65535] {
        let mut fetcher = RetryingFetcher::new();
        assert_eq!(
            fetcher.on_outcome(AttemptOutcome::Response { status, body: vec![1] }),
            FetchStep::RetryAfter { backoff_seconds: 2 }
        );
    }
    let mut fetcher = RetryingFetcher::new();
    assert_eq!(
        fetcher.on_outcome(AttemptOutcome::Response { status: 200, body: vec![] }),
        FetchStep::Deliver(vec![])
    );
    assert_eq!(fetcher.failed_attempts(), 0);
}

#[test]
fn a_fetcher_that_has_given_up_stays_so() {
    let mut fetcher = RetryingFetcher::new();
    for _ in 0..5 {
        fetcher.on_outcome(AttemptOutcome::TransportFailure);
    }
    assert_eq!(
        fetcher.on_outcome(AttemptOutcome::Response { status: 200, body: vec![1] }),
        FetchStep::GiveUp
    );
    assert_eq!(fetcher.on_outcome(AttemptOutcome::TransportFailure), FetchStep::GiveUp);
    assert_eq!(fetcher.failed_attempts(), 5);
}
