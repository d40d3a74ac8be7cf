use frame_pipeline::fetch::{AttemptOutcome, FetchStep, RetryingFetcher};
use frame_pipeline::job::Job;
use frame_pipeline::manifest::AssemblyManifest;
use frame_pipeline::orchestrator::{JobAction, JobEvent, JobState, Orchestrator};
use frame_pipeline::worker::{FrameWorker, WorkerAction, WorkerEvent, WorkerPhase};

struct Outcome {
    stored: Vec<bool>,
    fetches: Vec<i32>,
    attempts: u32,
    counter_values: Vec<i32>,
}

fn fetch(index: i32, reachable: &dyn Fn(i32, u32) -> bool, attempts: &mut u32) -> Option<Vec<u8>> {
    let mut fetcher = RetryingFetcher::new();
    let mut attempt = 0;
    loop {
        *attempts += 1;
        let outcome = if reachable(index, attempt) {
            AttemptOutcome::Response { status: 200, body: vec![index as u8] }
        } else {
            AttemptOutcome::TransportFailure
        };
        attempt += 1;
        match fetcher.on_outcome(outcome) {
            FetchStep::Deliver(body) => return Some(body),
            FetchStep::RetryAfter { .. } => {}
            FetchStep::GiveUp => return None,
        }
    }
}

fn run_job(
    last_frame_index: i32,
    parallelism: usize,
    reachable: &dyn Fn(i32, u32) -> bool,
    cancel_after: Option<usize>,
) -> (Orchestrator, Outcome) {
    let job = Job::describe("h", "root", "movie", "s", "r", last_frame_index).unwrap();
    let total = job.total_frames();
    let mut outcome = Outcome {
        stored: vec![false; total as usize],
        fetches: Vec::new(),
        attempts: 0,
        counter_values: vec![0],
    };
    let mut orchestrator = Orchestrator::new();
    assert_eq!(orchestrator.step(JobEvent::StartRequested), JobAction::Resolve);
    let intervals =
        match orchestrator.step(JobEvent::Resolved { job: job.clone(), parallelism }) {
            JobAction::SpawnWorkers { intervals, .. } => intervals,
            other => panic!("unexpected action {:?}", other),
        };
    let mut workers: Vec<FrameWorker> =
        intervals.iter().map(|interval| FrameWorker::new(*interval)).collect();
    let mut steps = 0;
    let mut live = workers.len();
    while live > 0 {
        live = 0;
        for worker in workers.iter_mut() {
            if matches!(worker.phase(), WorkerPhase::Stopped | WorkerPhase::Finished) {
                continue;
            }
            live += 1;
            if cancel_after == Some(steps) {
                orchestrator.step(JobEvent::CancelRequested);
            }
            steps += 1;
            let polled = WorkerEvent::TokenPolled { cancelled: orchestrator.is_cancelled() };
            let mut action = worker.step(&job, polled);
            loop {
                action = match action {
                    WorkerAction::Fetch { index, .. } => {
                        outcome.fetches.push(index);
                        let body = fetch(index, reachable, &mut outcome.attempts);
                        worker.step(&job, WorkerEvent::FetchEnded { body })
                    }
                    WorkerAction::Persist { index, .. } => {
                        outcome.stored[index as usize] = true;
                        worker.step(&job, WorkerEvent::PersistEnded { written: true })
                    }
                    WorkerAction::RecordFrame { .. } => {
                        orchestrator.step(JobEvent::FrameWritten);
                        outcome.counter_values.push(orchestrator.progress().completed);
                        break;
                    }
                    _ => break,
                };
            }
        }
    }
    (orchestrator, outcome)
}

#[test]
fn a_job_without_gaps_counts_every_frame() {
    for (last, parallelism) in [(9, 3), (0, 1), (1, 5), (24, 4), (99, 7)] {
        let (orchestrator, outcome) = run_job(last, parallelism, &|_, _| true, None);
        assert_eq!(orchestrator.state(), JobState::Running);
        assert_eq!(orchestrator.progress().completed, last + 1);
        assert!(orchestrator.progress().is_complete());
        assert!(outcome.stored.iter().all(|stored| *stored));
        assert_eq!(outcome.attempts, (last + 1) as u32);
        let mut fetched = outcome.fetches.clone();
        fetched.sort();
        assert_eq!(fetched, (0..=last).collect::<Vec<i32>>());
    }
}

#[test]
fn the_counter_rises_by_one_with_every_frame() {
    let (_, outcome) = run_job(29, 4, &|index, _| index % 5 != 2, None);
    for pair in outcome.counter_values.windows(2) {
        assert_eq!(pair[1], pair[0] + 1);
    }
    assert_eq!(*outcome.counter_values.last().unwrap(), 24);
}

#[test]
fn frames_that_cannot_be_fetched_stay_gaps_and_the_job_goes_on() {
    let (mut orchestrator, outcome) = run_job(4, 2, &|index, _| index != 2, None);
    assert_eq!(outcome.stored, vec![true, true, false, true, true]);
    assert_eq!(orchestrator.progress().completed, 4);
    assert_eq!(outcome.attempts, 4 + 5);
    let manifest = AssemblyManifest::build(&outcome.stored);
    assert_eq!(manifest.frames(), &vec![0, 1, 3, 4]);
    assert!(matches!(
        orchestrator.step(JobEvent::WorkersJoined { output_exists: false, tool_available: false }),
        JobAction::Assemble { .. }
    ));
}

#[test]
fn a_frame_that_comes_at_a_later_attempt_is_no_gap() {
    let (orchestrator, outcome) = run_job(3, 2, &|_, attempt| attempt == 4, None);
    assert!(outcome.stored.iter().all(|stored| *stored));
    assert_eq!(outcome.attempts, 4 * 5);
    assert_eq!(orchestrator.progress().completed, 4);
}

#[test]
fn no_fetch_is_started_after_cancellation() {
    let (orchestrator, outcome) = run_job(99, 4, &|_, _| true, Some(10));
    assert_eq!(orchestrator.state(), JobState::Cancelled);
    assert!(orchestrator.is_cancelled());
    assert_eq!(orchestrator.progress().completed, 0);
    assert_eq!(outcome.fetches.len(), 10);
    assert_eq!(outcome.stored.iter().filter(|stored| **stored).count(), 10);
}

#[test]
fn each_frame_is_fetched_by_one_worker_only() {
    let (_, outcome) = run_job(49, 6, &|_, _| true, None);
    let mut seen = vec![0; 50];
    for index in &outcome.fetches {
        seen[*index as usize] += 1;
    }
    assert!(seen.iter().all(|count| *count == 1));
}
