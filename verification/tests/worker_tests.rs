use frame_pipeline::job::Job;
use frame_pipeline::worker::{FrameWorker, WorkerAction, WorkerEvent, WorkerPhase};

fn job() -> Job {
    Job::describe("frames.example.com", "downloads", "https://movies.example.com/abc-123", "uuid", "720p", 9)
        .unwrap()
}

fn poll(cancelled: bool) -> WorkerEvent {
    WorkerEvent::TokenPolled { cancelled }
}

fn fetched(bytes: &[u8]) -> WorkerEvent {
    WorkerEvent::FetchEnded { body: Some(bytes.to_vec()) }
}

#[test]
fn a_new_worker_stands_at_the_start_of_its_interval() {
    let worker = FrameWorker::new((3, 6));
    assert_eq!(worker.phase(), WorkerPhase::Ready);
    assert_eq!(worker.interval(), (3, 6));
    assert_eq!(worker.next_index(), 3);
    assert_eq!(worker.frames_written(), 0);
    assert_eq!(worker.frames_missing(), 0);
}

#[test]
fn a_frame_is_fetched_written_and_recorded() {
    let job = job();
    let mut worker = FrameWorker::new((3, 6));
    assert_eq!(
        worker.step(&job, poll(false)),
        WorkerAction::Fetch {
            index: 3,
            url: String::from("https://frames.example.com/uuid/720p/video3.jpeg"),
        }
    );
    assert_eq!(worker.phase(), WorkerPhase::Fetching);
    assert_eq!(
        worker.step(&job, fetched(&[1, 2, 3])),
        WorkerAction::Persist {
            index: 3,
            path: String::from("downloads/abc-123/video3.jpeg"),
            bytes: vec![1, 2, 3],
        }
    );
    assert_eq!(worker.phase(), WorkerPhase::Persisting);
    assert_eq!(
        worker.step(&job, WorkerEvent::PersistEnded { written: true }),
        WorkerAction::RecordFrame { index: 3 }
    );
    assert_eq!(worker.phase(), WorkerPhase::Ready);
    assert_eq!(worker.next_index(), 4);
    assert_eq!(worker.frames_written(), 1);
    assert_eq!(worker.frames_missing(), 0);
}

#[test]
fn a_frame_that_cannot_be_fetched_is_a_gap_and_the_worker_goes_on() {
    let job = job();
    let mut worker = FrameWorker::new((0, 2));
    worker.step(&job, poll(false));
    assert_eq!(
        worker.step(&job, WorkerEvent::FetchEnded { body: None }),
        WorkerAction::ReportGap {
            index: 0,
            message: String::from(
                "Failed to download: https://frames.example.com/uuid/720p/video0.jpeg"
            ),
        }
    );
    assert_eq!(worker.phase(), WorkerPhase::Ready);
    assert_eq!(worker.next_index(), 1);
    assert_eq!(worker.frames_written(), 0);
    assert_eq!(worker.frames_missing(), 1);
    assert_eq!(
        worker.step(&job, poll(false)),
        WorkerAction::Fetch {
            index: 1,
            url: String::from("https://frames.example.com/uuid/720p/video1.jpeg"),
        }
    );
}

#[test]
fn a_frame_that_cannot_be_written_is_a_gap_and_the_worker_goes_on() {
    let job = job();
    let mut worker = FrameWorker::new((7, 9));
    worker.step(&job, poll(false));
    worker.step(&job, fetched(&[5]));
    assert_eq!(
        worker.step(&job, WorkerEvent::PersistEnded { written: false }),
        WorkerAction::ReportGap {
            index: 7,
            message: String::from("Failed to write file: downloads/abc-123/video7.jpeg"),
        }
    );
    assert_eq!(worker.next_index(), 8);
    assert_eq!(worker.frames_written(), 0);
    assert_eq!(worker.frames_missing(), 1);
    assert!(matches!(worker.step(&job, poll(false)), WorkerAction::Fetch { index: 8, .. }));
}

#[test]
fn a_worker_finishes_at_the_end_of_its_interval() {
    let job = job();
    let mut worker = FrameWorker::new((0, 2));
    for index in 0..2 {
        assert!(matches!(worker.step(&job, poll(false)), WorkerAction::Fetch { index: i, .. } if i == index));
        worker.step(&job, fetched(&[0]));
        worker.step(&job, WorkerEvent::PersistEnded { written: true });
    }
    assert_eq!(worker.step(&job, poll(false)), WorkerAction::Finish);
    assert_eq!(worker.phase(), WorkerPhase::Finished);
    assert_eq!(worker.frames_written(), 2);
    assert_eq!(worker.frames_missing(), 0);
    assert_eq!(worker.step(&job, poll(false)), WorkerAction::Finish);
    assert_eq!(worker.step(&job, fetched(&[0])), WorkerAction::Finish);
}

#[test]
fn a_worker_on_an_empty_interval_does_nothing() {
    let job = job();
    let mut worker = FrameWorker::new((0, 0));
    assert_eq!(worker.step(&job, poll(false)), WorkerAction::Finish);
    assert_eq!(worker.phase(), WorkerPhase::Finished);
    assert_eq!(worker.frames_written(), 0);
    let mut worker = FrameWorker::new((4, 4));
    assert_eq!(worker.step(&job, poll(true)), WorkerAction::Finish);
}

#[test]
fn a_worker_that_sees_the_token_set_stops_and_fetches_no_more() {
    let job = job();
    let mut worker = FrameWorker::new((0, 5));
    worker.step(&job, poll(false));
    worker.step(&job, fetched(&[0]));
    worker.step(&job, WorkerEvent::PersistEnded { written: true });
    assert_eq!(worker.step(&job, poll(true)), WorkerAction::Stop);
    assert_eq!(worker.phase(), WorkerPhase::Stopped);
    assert_eq!(worker.next_index(), 1);
    for event in [
        poll(false),
        poll(true),
        fetched(&[1]),
        WorkerEvent::FetchEnded { body: None },
        WorkerEvent::PersistEnded { written: true },
        WorkerEvent::PersistEnded { written: false },
        poll(false),
    ] {
        assert_eq!(worker.step(&job, event), WorkerAction::Stop);
        assert_eq!(worker.phase(), WorkerPhase::Stopped);
    }
    assert_eq!(worker.next_index(), 1);
    assert_eq!(worker.frames_written(), 1);
}

#[test]
fn a_fetch_under_way_is_finished_after_cancellation() {
    let job = job();
    let mut worker = FrameWorker::new((0, 5));
    worker.step(&job, poll(false));
    assert!(matches!(worker.step(&job, fetched(&[1])), WorkerAction::Persist { index: 0, .. }));
    assert_eq!(
        worker.step(&job, WorkerEvent::PersistEnded { written: true }),
        WorkerAction::RecordFrame { index: 0 }
    );
    assert_eq!(worker.step(&job, poll(true)), WorkerAction::Stop);
}

#[test]
fn events_that_do_not_fit_are_passed_over() {
    let job = job();
    let mut worker = FrameWorker::new((0, 3));
    assert_eq!(worker.step(&job, fetched(&[1])), WorkerAction::Ignore);
    assert_eq!(worker.step(&job, WorkerEvent::PersistEnded { written: true }), WorkerAction::Ignore);
    assert_eq!(worker.phase(), WorkerPhase::Ready);
    assert_eq!(worker.next_index(), 0);
    worker.step(&job, poll(false));
    assert_eq!(worker.step(&job, poll(false)), WorkerAction::Ignore);
    assert_eq!(worker.step(&job, poll(true)), WorkerAction::Ignore);
    assert_eq!(worker.step(&job, WorkerEvent::PersistEnded { written: true }), WorkerAction::Ignore);
    assert_eq!(worker.phase(), WorkerPhase::Fetching);
    worker.step(&job, fetched(&[1]));
    assert_eq!(worker.step(&job, fetched(&[2])), WorkerAction::Ignore);
    assert_eq!(worker.step(&job, poll(true)), WorkerAction::Ignore);
    assert_eq!(worker.phase(), WorkerPhase::Persisting);
    assert_eq!(worker.frames_written(), 0);
}

#[test]
fn frames_are_attempted_in_increasing_order() {
    let job = job();
    let mut worker = FrameWorker::new((2, 9));
    let mut fetched_indices = Vec::new();
    loop {
        match worker.step(&job, poll(false)) {
            WorkerAction::Fetch { index, .. } => {
                fetched_indices.push(index);
                if index % 2 == 0 {
                    worker.step(&job, fetched(&[0]));
                    worker.step(&job, WorkerEvent::PersistEnded { written: index % 4 == 0 });
                } else {
                    worker.step(&job, WorkerEvent::FetchEnded { body: None });
                }
            }
            WorkerAction::Finish => break,
            other => panic!("unexpected action {:?}", other),
        }
    }
    assert_eq!(fetched_indices, vec![2, 3, 4, 5, 6, 7, 8]);
    assert_eq!(worker.frames_written(), 2);
    assert_eq!(worker.frames_missing(), 5);
    assert_eq!(worker.frames_written() + worker.frames_missing(), 7);
}
