//! What holds of every step of a run, whatever the cursor and the event.

use crate::batch_job::count_with;
use crate::batch_job::destination_of;
use crate::batch_job::is_pending;
use crate::batch_job::next_pending;
use crate::batch_job::plan_of;
use crate::batch_job::regular_file;
use crate::batch_job::select_step;
use crate::batch_job::step;
use crate::batch_job::BatchJobView;
use crate::batch_job::JobStatus;
use crate::batch_job::JobView;
use crate::engine::ActionView;
use crate::engine::CommandView;
use crate::engine::Cursor;
use crate::engine::Event;
use crate::engine::Execution;
use crate::engine::FileProbe;
use crate::engine::JobErrorView;
use crate::paths::extension_of;
use crate::paths::lemma_relative_part_is_trimmed;
use crate::paths::lemma_relative_part_of_joined;
use crate::paths::relative_part;
use vstd::prelude::*;

verus! {

/// The job that an action is about, if it is about one.
pub open spec fn job_of(action: ActionView) -> Option<usize> {
    match action {
        ActionView::Probe { job, .. } => Some(job),
        ActionView::Execute { job, .. } => Some(job),
        ActionView::Settled { job, .. } => Some(job),
        ActionView::Save => None,
    }
}

/// `after` is `before` with at most the job at `job` settled: that job keeps
/// its source and was pending, every other job is as it was.
pub open spec fn settles_at_most(before: BatchJobView, after: BatchJobView, job: int) -> bool {
    &&& after.name == before.name
    &&& after.source_dir == before.source_dir
    &&& after.destination_dir == before.destination_dir
    &&& after.rules == before.rules
    &&& after.jobs.len() == before.jobs.len()
    &&& forall|k: int|
        0 <= k < before.jobs.len() && k != job ==> #[trigger] after.jobs[k] == before.jobs[k]
    &&& 0 <= job < before.jobs.len() ==> {
        &&& after.jobs[job].source_path == before.jobs[job].source_path
        &&& after.jobs[job].source_sha256sum == before.jobs[job].source_sha256sum
        &&& after.jobs[job].destination_sha256sum == before.jobs[job].destination_sha256sum
        &&& after.jobs[job] != before.jobs[job] ==> {
            &&& before.jobs[job].status == JobStatus::Pending
            &&& after.jobs[job].status != JobStatus::Pending
        }
    }
}

/// `next_pending` finds the first pending job from `from` on, and no job
/// before it is pending.
pub proof fn lemma_next_pending(jobs: Seq<JobView>, from: int)
    requires
        0 <= from,
    ensures
        from <= next_pending(jobs, from) || next_pending(jobs, from) == jobs.len(),
        next_pending(jobs, from) <= jobs.len(),
        next_pending(jobs, from) < jobs.len() ==> jobs[next_pending(jobs, from)].status
            == JobStatus::Pending,
        forall|k: int|
            from <= k < next_pending(jobs, from) ==> (#[trigger] jobs[k]).status
                != JobStatus::Pending,
    decreases jobs.len() - from,
{
    if from < jobs.len() && jobs[from].status != JobStatus::Pending {
        lemma_next_pending(jobs, from + 1);
    }
}

/// A run is finished exactly when no job from the cursor on is pending; any
/// other step from a ready cursor is about the first pending job.
pub proof fn lemma_select_takes_first_pending(batch: BatchJobView, from: usize)
    requires
        batch.jobs.len() <= usize::MAX,
    ensures
        select_step(batch, from).action is Save <==> forall|k: int|
            from <= k < batch.jobs.len() ==> !is_pending(batch, k),
        !(select_step(batch, from).action is Save) ==> {
            &&& job_of(select_step(batch, from).action) == Some(
                next_pending(batch.jobs, from as int) as usize,
            )
            &&& is_pending(batch, next_pending(batch.jobs, from as int))
            &&& from <= next_pending(batch.jobs, from as int)
        },
{
    lemma_next_pending(batch.jobs, from as int);
    let job = next_pending(batch.jobs, from as int);
    if job < batch.jobs.len() {
        assert(is_pending(batch, job));
    }
}

/// A step changes at most one job, and only a pending one: a job that is
/// done or failed stays as it is, the number of jobs and their sources stay,
/// and so do the name, the directories and the rules of the batch. The job
/// that the action is about was pending before the step.
pub proof fn lemma_step_settles_pending_only(batch: BatchJobView, cursor: Cursor, event: Event)
    requires
        batch.jobs.len() <= usize::MAX,
    ensures
        step(batch, cursor, event).batch.jobs.len() == batch.jobs.len(),
        forall|k: int|
            0 <= k < batch.jobs.len() && !is_pending(batch, k) ==> #[trigger] step(
                batch,
                cursor,
                event,
            ).batch.jobs[k] == batch.jobs[k],
        match job_of(step(batch, cursor, event).action) {
            Some(job) => is_pending(batch, job as int) && settles_at_most(
                batch,
                step(batch, cursor, event).batch,
                job as int,
            ),
            None => step(batch, cursor, event).batch == batch,
        },
{
    let from = match cursor {
        Cursor::Ready(from) => from,
        Cursor::Probing(job) => job,
        Cursor::Executing(job) => job,
        Cursor::Finished => 0,
    };
    lemma_next_pending(batch.jobs, from as int);
}

/// A job whose extension has no rule fails for that reason when it is
/// probed, every other job stays as it is, and the run goes on with the
/// first pending job behind it.
pub proof fn lemma_missing_rule_fails_job(
    batch: BatchJobView,
    job: usize,
    probe: FileProbe,
    extension: Seq<char>,
    event: Event,
)
    requires
        batch.jobs.len() <= usize::MAX,
        is_pending(batch, job as int),
        destination_of(batch, batch.jobs[job as int]) is Some,
        probe.exists && probe.is_file,
        extension_of(batch.jobs[job as int].source_path) == Some(extension),
        !batch.rules.dom().contains(extension),
    ensures
        ({
            let failed = step(batch, Cursor::Probing(job), Event::Probed(probe));
            &&& failed.batch.jobs[job as int].status == JobStatus::Error
            &&& failed.action == ActionView::Settled {
                job,
                failure: Some(JobErrorView::NoRule { extension }),
            }
            &&& settles_at_most(batch, failed.batch, job as int)
            &&& step(failed.batch, failed.cursor, event) == select_step(
                failed.batch,
                (job + 1) as usize,
            )
            &&& next_pending(failed.batch.jobs, job + 1) == next_pending(batch.jobs, job + 1)
        }),
{
    let failed = step(batch, Cursor::Probing(job), Event::Probed(probe));
    lemma_next_pending_behind(batch.jobs, failed.batch.jobs, job as int, job + 1);
}

/// A command that ends otherwise than with exit code 0 fails its job with
/// that code, every other job stays as it is, and the run goes on with the
/// first pending job behind it.
pub proof fn lemma_failed_command_fails_job(
    batch: BatchJobView,
    job: usize,
    command: CommandView,
    code: Option<i32>,
    event: Event,
)
    requires
        batch.jobs.len() <= usize::MAX,
        is_pending(batch, job as int),
        plan_of(batch, batch.jobs[job as int], regular_file()) == Ok::<CommandView, JobErrorView>(
            command,
        ),
        code != Some(0i32),
    ensures
        ({
            let failed = step(
                batch,
                Cursor::Executing(job),
                Event::Executed(Execution::Exited(code)),
            );
            &&& failed.batch.jobs[job as int].status == JobStatus::Error
            &&& failed.action == ActionView::Settled {
                job,
                failure: Some(JobErrorView::CommandFailed { executable: command.program, code }),
            }
            &&& settles_at_most(batch, failed.batch, job as int)
            &&& step(failed.batch, failed.cursor, event) == select_step(
                failed.batch,
                (job + 1) as usize,
            )
            &&& next_pending(failed.batch.jobs, job + 1) == next_pending(batch.jobs, job + 1)
        }),
{
    let failed = step(batch, Cursor::Executing(job), Event::Executed(Execution::Exited(code)));
    lemma_next_pending_behind(batch.jobs, failed.batch.jobs, job as int, job + 1);
}

/// A command that exits with code 0 settles its job as done, with the
/// destination that the batch computes for it.
pub proof fn lemma_successful_command_completes_job(
    batch: BatchJobView,
    job: usize,
    command: CommandView,
)
    requires
        batch.jobs.len() <= usize::MAX,
        is_pending(batch, job as int),
        plan_of(batch, batch.jobs[job as int], regular_file()) == Ok::<CommandView, JobErrorView>(
            command,
        ),
    ensures
        ({
            let done = step(
                batch,
                Cursor::Executing(job),
                Event::Executed(Execution::Exited(Some(0i32))),
            );
            &&& done.batch.jobs[job as int].status == JobStatus::Done
            &&& Some(done.batch.jobs[job as int].destination_path) == destination_of(
                batch,
                batch.jobs[job as int],
            )
            &&& done.action == ActionView::Settled { job, failure: None }
            &&& settles_at_most(batch, done.batch, job as int)
        }),
{
}

/// Two job lists that agree from `from` on have the same next pending job
/// from there.
pub proof fn lemma_next_pending_behind(
    before: Seq<JobView>,
    after: Seq<JobView>,
    job: int,
    from: int,
)
    requires
        before.len() == after.len(),
        job < from,
        forall|k: int| 0 <= k < before.len() && k != job ==> after[k] == before[k],
    ensures
        next_pending(after, from) == next_pending(before, from),
    decreases before.len() - from,
{
    if from < before.len() {
        lemma_next_pending_behind(before, after, job, from + 1);
    }
}

/// The converted file lies under the destination directory as the source
/// file lies under the source directory: the two relative paths are the same.
pub proof fn lemma_destination_mirrors_source(batch: BatchJobView, job: JobView)
    requires
        batch.source_dir.len() > 0,
        relative_part(job.source_path, batch.source_dir) is Some,
        relative_part(job.source_path, batch.source_dir)->0.len() > 0,
    ensures
        destination_of(batch, job) is Some,
        relative_part(destination_of(batch, job)->0, batch.destination_dir) == relative_part(
            job.source_path,
            batch.source_dir,
        ),
{
    lemma_relative_part_is_trimmed(job.source_path, batch.source_dir);
    lemma_relative_part_of_joined(
        batch.destination_dir,
        relative_part(job.source_path, batch.source_dir)->0,
    );
}

/// A bound on the steps that a run still takes before it asks for the save:
/// three for each pending job, and what is left of the job in hand.
pub open spec fn steps_left(batch: BatchJobView, cursor: Cursor) -> nat {
    3 * count_with(batch.jobs, JobStatus::Pending) + match cursor {
        Cursor::Finished => 0nat,
        Cursor::Ready(_) => 3nat,
        Cursor::Probing(job) => if is_pending(batch, job as int) {
            2nat
        } else {
            3nat
        },
        Cursor::Executing(job) => if is_pending(batch, job as int) {
            1nat
        } else {
            3nat
        },
    }
}

/// Settling a pending job leaves one pending job less.
pub proof fn lemma_settling_counts_down(jobs: Seq<JobView>, job: int, settled: JobView)
    requires
        0 <= job < jobs.len(),
        jobs[job].status == JobStatus::Pending,
        settled.status != JobStatus::Pending,
    ensures
        count_with(jobs.update(job, settled), JobStatus::Pending) + 1 == count_with(
            jobs,
            JobStatus::Pending,
        ),
    decreases jobs.len(),
{
    let after = jobs.update(job, settled);
    if job == jobs.len() - 1 {
        assert(after.drop_last() =~= jobs.drop_last());
    } else {
        lemma_settling_counts_down(jobs.drop_last(), job, settled);
        assert(after.drop_last() =~= jobs.drop_last().update(job, settled));
    }
}

/// Every step brings the run nearer to its end: a step that does not ask for
/// the save leaves fewer steps to take, so a run of a batch with `n` pending
/// jobs asks for the save after `3 * n + 3` steps at most. The step that asks
/// for the save changes nothing and finishes the run.
pub proof fn lemma_step_makes_progress(batch: BatchJobView, cursor: Cursor, event: Event)
    requires
        batch.jobs.len() <= usize::MAX,
    ensures
        step(batch, cursor, event).action is Save ==> step(batch, cursor, event).batch == batch
            && step(batch, cursor, event).cursor == Cursor::Finished,
        !(step(batch, cursor, event).action is Save) ==> steps_left(
            step(batch, cursor, event).batch,
            step(batch, cursor, event).cursor,
        ) < steps_left(batch, cursor),
{
    let next = step(batch, cursor, event);
    lemma_step_settles_pending_only(batch, cursor, event);
    if let Some(job) = job_of(next.action) {
        if next.batch != batch {
            lemma_settling_counts_down(batch.jobs, job as int, next.batch.jobs[job as int]);
        }
    }
}

/// The position that a cursor stands at: every job before it is behind the
/// run.
pub open spec fn position(batch: BatchJobView, cursor: Cursor) -> int {
    match cursor {
        Cursor::Ready(from) => from as int,
        Cursor::Probing(job) => job as int,
        Cursor::Executing(job) => job as int,
        Cursor::Finished => batch.jobs.len() as int,
    }
}

/// No job before the cursor is pending.
pub open spec fn settled_behind(batch: BatchJobView, cursor: Cursor) -> bool {
    forall|k: int| 0 <= k < batch.jobs.len() && k < position(batch, cursor) ==> !is_pending(batch, k)
}

/// The batch at the end of a run that is driven from `cursor` with `event`:
/// the driver answers each action with `answer`, until the batch asks for
/// the save or `fuel` steps were taken.
pub open spec fn run_to_save(
    batch: BatchJobView,
    cursor: Cursor,
    event: Event,
    answer: spec_fn(ActionView) -> Event,
    fuel: nat,
) -> BatchJobView
    decreases fuel,
{
    let next = step(batch, cursor, event);
    if fuel == 0 || next.action is Save {
        next.batch
    } else {
        run_to_save(next.batch, next.cursor, answer(next.action), answer, (fuel - 1) as nat)
    }
}

/// A step leaves no pending job behind the cursor, where there was none
/// before it.
pub proof fn lemma_step_leaves_none_behind(batch: BatchJobView, cursor: Cursor, event: Event)
    requires
        batch.jobs.len() <= usize::MAX,
        settled_behind(batch, cursor),
    ensures
        settled_behind(step(batch, cursor, event).batch, step(batch, cursor, event).cursor),
{
    let next = step(batch, cursor, event);
    lemma_next_pending(batch.jobs, position(batch, cursor));
    assert forall|k: int|
        0 <= k < next.batch.jobs.len() && k < position(next.batch, next.cursor) implies !is_pending(
        next.batch,
        k,
    ) by {
        if is_pending(batch, k) {
            assert(position(batch, cursor) <= k);
        } else {
            assert(next.batch.jobs[k] == batch.jobs[k]);
        }
    }
}

/// A run attempts every pending job: driven from a cursor that has no
/// pending job behind it, for as many steps as are left, it ends with no job
/// pending, whatever the driver answers and however the jobs fare. The jobs
/// that were done or failed before the run are as they were.
pub proof fn lemma_run_settles_every_job(
    batch: BatchJobView,
    cursor: Cursor,
    event: Event,
    answer: spec_fn(ActionView) -> Event,
    fuel: nat,
)
    requires
        batch.jobs.len() <= usize::MAX,
        settled_behind(batch, cursor),
        fuel >= steps_left(batch, cursor),
    ensures
        run_to_save(batch, cursor, event, answer, fuel).jobs.len() == batch.jobs.len(),
        forall|k: int|
            0 <= k < batch.jobs.len() ==> !is_pending(
                run_to_save(batch, cursor, event, answer, fuel),
                k,
            ),
        forall|k: int|
            0 <= k < batch.jobs.len() && !is_pending(batch, k) ==> #[trigger] run_to_save(
                batch,
                cursor,
                event,
                answer,
                fuel,
            ).jobs[k] == batch.jobs[k],
    decreases fuel,
{
    let next = step(batch, cursor, event);
    lemma_step_settles_pending_only(batch, cursor, event);
    lemma_step_makes_progress(batch, cursor, event);
    lemma_step_leaves_none_behind(batch, cursor, event);
    if !(next.action is Save) {
        lemma_run_settles_every_job(
            next.batch,
            next.cursor,
            answer(next.action),
            answer,
            (fuel - 1) as nat,
        );
    }
}

/// A run from the first job attempts every pending job of the batch: three
/// steps for each of them and three more are enough to reach the save.
pub proof fn lemma_run_from_start_settles_every_job(
    batch: BatchJobView,
    answer: spec_fn(ActionView) -> Event,
)
    requires
        batch.jobs.len() <= usize::MAX,
    ensures
        ({
            let end = run_to_save(
                batch,
                Cursor::Ready(0),
                Event::Next,
                answer,
                3 * count_with(batch.jobs, JobStatus::Pending) + 3,
            );
            &&& end.jobs.len() == batch.jobs.len()
            &&& forall|k: int| 0 <= k < batch.jobs.len() ==> !is_pending(end, k)
            &&& forall|k: int|
                0 <= k < batch.jobs.len() && !is_pending(batch, k) ==> #[trigger] end.jobs[k]
                    == batch.jobs[k]
        }),
{
    lemma_run_settles_every_job(
        batch,
        Cursor::Ready(0),
        Event::Next,
        answer,
        3 * count_with(batch.jobs, JobStatus::Pending) + 3,
    );
}

} // verus!
