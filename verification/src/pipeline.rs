//! The pipeline as a whole: what holds of a job when the orchestrator and
//! its workers play together.

use crate::job::JobView;
use crate::orchestrator::{
    is_running,
    lemma_written_frames_are_counted,
    orchestrator_run,
    orchestrator_step,
    JobEventView,
    OrchestratorView,
};
use crate::partition::{lemma_chain_ordered, lemma_plan_spec, plan_spec};
use crate::worker::{
    lemma_all_frames_written,
    lemma_workers_write_different_files,
    worker_step,
    written_by,
    WorkerEventView,
    WorkerPhase,
    WorkerView,
};
use vstd::prelude::*;

verus! {

/// The workers stand on the intervals that were spawned for the job, one on
/// each, and every one of them has gone through its interval without a gap.
pub open spec fn finished_without_gaps(
    workers: Seq<WorkerView>,
    job: JobView,
    parallelism: int,
) -> bool {
    &&& workers.len() == plan_spec(job.total_frames, parallelism).len()
    &&& forall|i: int|
        0 <= i < workers.len() ==> {
            &&& (#[trigger] workers[i]).wf()
            &&& workers[i].start == plan_spec(job.total_frames, parallelism)[i].0
            &&& workers[i].end == plan_spec(job.total_frames, parallelism)[i].1
            &&& workers[i].phase == WorkerPhase::Finished
            &&& workers[i].gaps == 0
        }
}

/// A job without gaps ends its fetching with the counter at the number of
/// its frames: where every worker has gone through its interval without a
/// gap, and each frame that a worker has written was reported once, the
/// counter has risen from zero to the frames of the job, and the job still
/// runs.
pub proof fn lemma_job_without_gaps_counts_every_frame(
    orchestrator: OrchestratorView,
    job: JobView,
    parallelism: int,
    workers: Seq<WorkerView>,
    reports: Seq<JobEventView>,
)
    requires
        orchestrator.wf(),
        orchestrator.phase is Resolving,
        job.wf(),
        parallelism >= 1,
        finished_without_gaps(workers, job, parallelism),
        reports.len() == written_by(workers, workers.len() as int),
        forall|k: int| 0 <= k < reports.len() ==> #[trigger] reports[k] is FrameWritten,
    ensures
        ({
            let spawned = orchestrator_step(
                orchestrator,
                JobEventView::Resolved { job, parallelism },
            ).0;
            let joined = orchestrator_run(spawned, reports).0;
            &&& spawned.written == 0
            &&& joined.written == job.total_frames
            &&& is_running(joined.phase)
        }),
{
    let spawned = orchestrator_step(orchestrator, JobEventView::Resolved { job, parallelism }).0;
    lemma_plan_spec(job.total_frames, parallelism);
    lemma_all_frames_written(plan_spec(job.total_frames, parallelism), workers, job.total_frames);
    lemma_written_frames_are_counted(spawned, reports);
}

/// The worker stands on interval number `i` of those that were spawned for
/// the job.
pub open spec fn owns_interval(worker: WorkerView, job: JobView, parallelism: int, i: int) -> bool {
    &&& 0 <= i < plan_spec(job.total_frames, parallelism).len()
    &&& worker.wf()
    &&& worker.start == plan_spec(job.total_frames, parallelism)[i].0
    &&& worker.end == plan_spec(job.total_frames, parallelism)[i].1
}

/// No two workers of a job ever write to the same file: each worker writes
/// the frames of its own interval only, the intervals share no frame, and
/// each frame has a file of its own.
pub proof fn lemma_workers_of_a_job_write_different_files(
    job: JobView,
    parallelism: int,
    i: int,
    first: WorkerView,
    first_event: WorkerEventView,
    j: int,
    second: WorkerView,
    second_event: WorkerEventView,
)
    requires
        job.wf(),
        parallelism >= 1,
        i != j,
        owns_interval(first, job, parallelism, i),
        owns_interval(second, job, parallelism, j),
        worker_step(first, job, first_event).1 is Persist,
        worker_step(second, job, second_event).1 is Persist,
    ensures
        worker_step(first, job, first_event).1->Persist_path != worker_step(
            second,
            job,
            second_event,
        ).1->Persist_path,
{
    let intervals = plan_spec(job.total_frames, parallelism);
    lemma_plan_spec(job.total_frames, parallelism);
    if i < j {
        lemma_chain_ordered(intervals, i, j);
        lemma_workers_write_different_files(job, first, first_event, second, second_event);
    } else {
        lemma_chain_ordered(intervals, j, i);
        lemma_workers_write_different_files(job, second, second_event, first, first_event);
    }
}

} // verus!
