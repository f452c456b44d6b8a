//! The batch: its jobs, their status, and the rules that convert them.

use crate::engine::Action;
use crate::engine::ActionView;
use crate::engine::Command;
use crate::engine::CommandView;
use crate::engine::Cursor;
use crate::engine::Event;
use crate::engine::failure_of;
use crate::engine::FileProbe;
use crate::engine::JobError;
use crate::engine::JobErrorView;
use crate::fingerprint::fingerprint;
use crate::fingerprint::fingerprint_of;
use crate::invariants::lemma_step_settles_pending_only;
use crate::paths::extension;
use crate::paths::extension_of;
use crate::paths::join;
use crate::paths::joined;
use crate::paths::parent;
use crate::paths::parent_of;
use crate::paths::relative_part;
use crate::paths::relative_to;
use crate::planner::plan_command;
use crate::planner::planned;
use crate::rules::RuleTable;
use crate::text::texts_of;
use vstd::prelude::*;
use vstd::string::StringExecFns;

verus! {

/// Where a job stands. A job starts `Pending` and is settled once, as `Done`
/// or as `Error`; a settled job is never attempted again.
#[derive(Clone, Copy, Debug, PartialEq, Eq, Structural)]
pub enum JobStatus {
    Pending,
    Done,
    Error,
}

/// One unit of work: the conversion of one source file.
pub struct Job {
    source_path: String,
    source_sha256sum: String,
    destination_path: String,
    destination_sha256sum: String,
    status: JobStatus,
}

/// A job, as text.
pub struct JobView {
    pub source_path: Seq<char>,
    pub source_sha256sum: Seq<char>,
    pub destination_path: Seq<char>,
    pub destination_sha256sum: Seq<char>,
    pub status: JobStatus,
}

impl View for Job {
    type V = JobView;

    closed spec fn view(&self) -> JobView {
        JobView {
            source_path: self.source_path@,
            source_sha256sum: self.source_sha256sum@,
            destination_path: self.destination_path@,
            destination_sha256sum: self.destination_sha256sum@,
            status: self.status,
        }
    }
}

/// The job for a source file that was just found: pending, with no
/// destination yet.
pub open spec fn pending_job(source_path: Seq<char>, source_sha256sum: Seq<char>) -> JobView {
    JobView {
        source_path,
        source_sha256sum,
        destination_path: Seq::empty(),
        destination_sha256sum: Seq::empty(),
        status: JobStatus::Pending,
    }
}

impl Job {
    /// A pending job for the file at `source_path` with the fingerprint
    /// `source_sha256sum`.
    pub fn new(source_path: &str, source_sha256sum: &str) -> (job: Job)
        ensures
            job@ == pending_job(source_path@, source_sha256sum@),
    {
        Job {
            source_path: String::from_str(source_path),
            source_sha256sum: String::from_str(source_sha256sum),
            destination_path: String::new(),
            destination_sha256sum: String::new(),
            status: JobStatus::Pending,
        }
    }

    /// A job as it was stored.
    pub fn restore(
        source_path: &str,
        source_sha256sum: &str,
        destination_path: &str,
        destination_sha256sum: &str,
        status: JobStatus,
    ) -> (job: Job)
        ensures
            job@ == (JobView {
                source_path: source_path@,
                source_sha256sum: source_sha256sum@,
                destination_path: destination_path@,
                destination_sha256sum: destination_sha256sum@,
                status,
            }),
    {
        Job {
            source_path: String::from_str(source_path),
            source_sha256sum: String::from_str(source_sha256sum),
            destination_path: String::from_str(destination_path),
            destination_sha256sum: String::from_str(destination_sha256sum),
            status,
        }
    }

    /// The path of the source file.
    pub fn source_path(&self) -> (path: &str)
        ensures
            path@ == self@.source_path,
    {
        self.source_path.as_str()
    }

    /// The fingerprint that the source file had when the batch was made.
    pub fn source_sha256sum(&self) -> (sum: &str)
        ensures
            sum@ == self@.source_sha256sum,
    {
        self.source_sha256sum.as_str()
    }

    /// The path of the converted file; empty until the job is done.
    pub fn destination_path(&self) -> (path: &str)
        ensures
            path@ == self@.destination_path,
    {
        self.destination_path.as_str()
    }

    /// The fingerprint of the converted file; empty where none was taken.
    pub fn destination_sha256sum(&self) -> (sum: &str)
        ensures
            sum@ == self@.destination_sha256sum,
    {
        self.destination_sha256sum.as_str()
    }

    /// Where the job stands.
    pub fn status(&self) -> (status: JobStatus)
        ensures
            status == self@.status,
    {
        self.status
    }
}

/// An error that ends an operation on a batch.
#[derive(Debug)]
pub struct BatchJobError {
    message: String,
}

impl View for BatchJobError {
    type V = Seq<char>;

    closed spec fn view(&self) -> Seq<char> {
        self.message@
    }
}

impl BatchJobError {
    /// An error that says `message`.
    pub fn new(message: &str) -> (error: BatchJobError)
        ensures
            error@ == message@,
    {
        BatchJobError { message: String::from_str(message) }
    }

    /// What the error says.
    pub fn description(&self) -> (message: &str)
        ensures
            message@ == self@,
    {
        self.message.as_str()
    }
}

/// A source file as the scan found it: its path and what it holds.
pub struct SourceFile {
    pub path: String,
    pub content: Vec<u8>,
}

/// A batch: a named set of jobs, one for each file that was found under the
/// source directory, with the rules that convert them.
pub struct BatchJob {
    name: String,
    source_dir: String,
    destination_dir: String,
    rules: RuleTable,
    jobs: Vec<Job>,
}

/// A batch, as text.
pub struct BatchJobView {
    pub name: Seq<char>,
    pub source_dir: Seq<char>,
    pub destination_dir: Seq<char>,
    pub rules: Map<Seq<char>, Seq<char>>,
    pub jobs: Seq<JobView>,
}

/// The jobs, as text.
pub open spec fn job_views(jobs: Seq<Job>) -> Seq<JobView> {
    jobs.map_values(|job: Job| job@)
}

impl View for BatchJob {
    type V = BatchJobView;

    closed spec fn view(&self) -> BatchJobView {
        BatchJobView {
            name: self.name@,
            source_dir: self.source_dir@,
            destination_dir: self.destination_dir@,
            rules: self.rules@,
            jobs: job_views(self.jobs@),
        }
    }
}

/// The rule that every new batch starts with: `avi` files are converted by
/// `ffmpeg`.
pub open spec fn default_rules() -> Map<Seq<char>, Seq<char>> {
    Map::<Seq<char>, Seq<char>>::empty().insert(
        "avi"@,
        "ffmpeg -i $file_path -c:v libx264 -preset slow $file_path_out"@,
    )
}

/// The directory under `source_dir` that holds the state of its batches.
pub open spec fn config_dir_of(source_dir: Seq<char>) -> Seq<char> {
    joined(source_dir, "dbfc"@)
}

/// The file that holds the state of the batch `name` of `source_dir`.
pub open spec fn filepath_of(source_dir: Seq<char>, name: Seq<char>) -> Seq<char> {
    joined(config_dir_of(source_dir), name + ".bj"@)
}

/// What the error says when a batch of that name exists already.
pub open spec fn already_exists(name: Seq<char>) -> Seq<char> {
    "A batch job with name "@ + name + " already exists"@
}

/// The pending jobs for the files that a scan found, in the scan's order,
/// each with the fingerprint of what its file holds.
pub open spec fn scanned_jobs(files: Seq<SourceFile>) -> Seq<JobView> {
    files.map_values(|file: SourceFile| pending_job(file.path@, fingerprint_of(file.content@)))
}

/// The jobs made of what a scan found are one for each file, in the scan's
/// order: pending, with the file's path as source and the fingerprint of the
/// file's content.
pub proof fn lemma_scanned_jobs(files: Seq<SourceFile>)
    ensures
        scanned_jobs(files).len() == files.len(),
        forall|i: int|
            0 <= i < files.len() ==> {
                &&& (#[trigger] scanned_jobs(files)[i]).source_path == files[i].path@
                &&& scanned_jobs(files)[i].source_sha256sum == fingerprint_of(files[i].content@)
                &&& scanned_jobs(files)[i].status == JobStatus::Pending
            },
{
}

impl BatchJob {
    /// A batch without jobs, with the default rule.
    pub fn new(name: &str, source_dir: &str, destination_dir: &str) -> (batch: BatchJob)
        ensures
            batch@ == (BatchJobView {
                name: name@,
                source_dir: source_dir@,
                destination_dir: destination_dir@,
                rules: default_rules(),
                jobs: Seq::empty(),
            }),
    {
        let mut rules = RuleTable::new();
        rules.insert("avi", "ffmpeg -i $file_path -c:v libx264 -preset slow $file_path_out");
        let batch = BatchJob {
            name: String::from_str(name),
            source_dir: String::from_str(source_dir),
            destination_dir: String::from_str(destination_dir),
            rules,
            jobs: Vec::new(),
        };
        assert(batch@.jobs =~= Seq::<JobView>::empty());
        batch
    }

    /// A batch as it was stored.
    pub fn restore(
        name: &str,
        source_dir: &str,
        destination_dir: &str,
        rules: RuleTable,
        jobs: Vec<Job>,
    ) -> (batch: BatchJob)
        ensures
            batch@ == (BatchJobView {
                name: name@,
                source_dir: source_dir@,
                destination_dir: destination_dir@,
                rules: rules@,
                jobs: job_views(jobs@),
            }),
    {
        BatchJob {
            name: String::from_str(name),
            source_dir: String::from_str(source_dir),
            destination_dir: String::from_str(destination_dir),
            rules,
            jobs,
        }
    }

    /// The directory under `source_dir` that holds the state of its batches.
    pub fn config_dir(source_dir: &str) -> (dir: String)
        ensures
            dir@ == config_dir_of(source_dir@),
    {
        join(source_dir, "dbfc")
    }

    /// The file that holds the state of the batch `name` of `source_dir`.
    pub fn filepath(source_dir: &str, name: &str) -> (path: String)
        ensures
            path@ == filepath_of(source_dir@, name@),
    {
        let dir = BatchJob::config_dir(source_dir);
        let file = String::from_str(name).concat(".bj");
        join(dir.as_str(), file.as_str())
    }

    /// The name of the batch.
    pub fn name(&self) -> (name: &str)
        ensures
            name@ == self@.name,
    {
        self.name.as_str()
    }

    /// The directory whose files the batch converts.
    pub fn source_dir(&self) -> (dir: &str)
        ensures
            dir@ == self@.source_dir,
    {
        self.source_dir.as_str()
    }

    /// The directory that takes the converted files.
    pub fn destination_dir(&self) -> (dir: &str)
        ensures
            dir@ == self@.destination_dir,
    {
        self.destination_dir.as_str()
    }

    /// The rules of the batch.
    pub fn rules(&self) -> (rules: &RuleTable)
        ensures
            rules@ == self@.rules,
    {
        &self.rules
    }

    /// The jobs of the batch, in their stored order.
    pub fn jobs(&self) -> (jobs: &Vec<Job>)
        ensures
            job_views(jobs@) == self@.jobs,
    {
        &self.jobs
    }

    /// Sets the rule for `extension`, in place of the one it had, if any.
    pub fn add_rule(&mut self, extension: &str, command_template: &str)
        ensures
            final(self)@ == (BatchJobView {
                rules: old(self)@.rules.insert(extension@, command_template@),
                ..old(self)@
            }),
    {
        self.rules.insert(extension, command_template);
    }

    /// Makes the jobs of the batch from what a scan of the source directory
    /// found: one pending job for each file, in the scan's order, with the
    /// fingerprint of the file's content.
    ///
    /// `state_exists` tells whether a state file of this batch's name exists
    /// already. Where it does, the batch is refused and nothing changes.
    pub fn init(&mut self, state_exists: bool, files: &Vec<SourceFile>) -> (result: Result<
        (),
        BatchJobError,
    >)
        ensures
            match result {
                Ok(_) => !state_exists && final(self)@ == (BatchJobView {
                    jobs: old(self)@.jobs + scanned_jobs(files@),
                    ..old(self)@
                }),
                Err(error) => state_exists && final(self)@ == old(self)@ && error@
                    == already_exists(old(self)@.name),
            },
    {
        if state_exists {
            let message = String::from_str("A batch job with name ").concat(
                self.name.as_str(),
            ).concat(" already exists");
            return Err(BatchJobError { message });
        }
        let mut i: usize = 0;
        while i < files.len()
            invariant
                i <= files@.len(),
                self@ == (BatchJobView {
                    jobs: old(self)@.jobs + scanned_jobs(files@.take(i as int)),
                    ..old(self)@
                }),
            decreases files@.len() - i,
        {
            let file = &files[i];
            let sum = fingerprint(file.content.as_slice());
            let job = Job::new(file.path.as_str(), sum.as_str());
            proof {
                assert(job_views(self.jobs@.push(job)) =~= job_views(self.jobs@).push(job@));
                assert((old(self)@.jobs + scanned_jobs(files@.take(i as int))).push(job@)
                    =~= old(self)@.jobs + scanned_jobs(files@.take(i + 1)));
            }
            self.jobs.push(job);
            i += 1;
        }
        assert(files@.take(i as int) =~= files@);
        Ok(())
    }
}

/// The number of jobs that stand at `status`.
pub open spec fn count_with(jobs: Seq<JobView>, status: JobStatus) -> nat
    decreases jobs.len(),
{
    if jobs.len() == 0 {
        0
    } else if jobs.last().status == status {
        count_with(jobs.drop_last(), status) + 1
    } else {
        count_with(jobs.drop_last(), status)
    }
}

/// How many jobs of a batch are pending, done and failed.
#[derive(Clone, Copy, Debug, PartialEq, Eq)]
pub struct Summary {
    pub pending: usize,
    pub done: usize,
    pub failed: usize,
}

/// Every job is counted once: pending, done or failed.
pub proof fn lemma_counts_add_up(jobs: Seq<JobView>)
    ensures
        count_with(jobs, JobStatus::Pending) + count_with(jobs, JobStatus::Done) + count_with(
            jobs,
            JobStatus::Error,
        ) == jobs.len(),
    decreases jobs.len(),
{
    if jobs.len() > 0 {
        lemma_counts_add_up(jobs.drop_last());
    }
}

impl BatchJob {
    /// Counts the jobs by their status.
    pub fn summary(&self) -> (summary: Summary)
        ensures
            summary.pending == count_with(self@.jobs, JobStatus::Pending),
            summary.done == count_with(self@.jobs, JobStatus::Done),
            summary.failed == count_with(self@.jobs, JobStatus::Error),
    {
        let mut summary = Summary { pending: 0, done: 0, failed: 0 };
        let mut i: usize = 0;
        while i < self.jobs.len()
            invariant
                i <= self.jobs@.len(),
                summary.pending == count_with(self@.jobs.take(i as int), JobStatus::Pending),
                summary.done == count_with(self@.jobs.take(i as int), JobStatus::Done),
                summary.failed == count_with(self@.jobs.take(i as int), JobStatus::Error),
            decreases self.jobs@.len() - i,
        {
            proof {
                lemma_counts_add_up(self@.jobs.take(i as int));
                assert(self@.jobs.take(i + 1).drop_last() =~= self@.jobs.take(i as int));
            }
            match self.jobs[i].status {
                JobStatus::Pending => summary.pending += 1,
                JobStatus::Done => summary.done += 1,
                JobStatus::Error => summary.failed += 1,
            }
            i += 1;
        }
        assert(self@.jobs.take(i as int) =~= self@.jobs);
        summary
    }
}

/// The first position from `from` on at which a job is pending; the number
/// of jobs where there is none.
pub open spec fn next_pending(jobs: Seq<JobView>, from: int) -> int
    decreases jobs.len() - from,
{
    if from >= jobs.len() {
        jobs.len() as int
    } else if from >= 0 && jobs[from].status == JobStatus::Pending {
        from
    } else {
        next_pending(jobs, from + 1)
    }
}

/// Whether `job` is a job of the batch that is still pending.
pub open spec fn is_pending(batch: BatchJobView, job: int) -> bool {
    0 <= job < batch.jobs.len() && batch.jobs[job].status == JobStatus::Pending
}

/// Where the converted file of `job` goes: as far under the destination
/// directory as the source file is under the source directory. `None` where
/// the source file is not under the source directory.
pub open spec fn destination_of(batch: BatchJobView, job: JobView) -> Option<Seq<char>> {
    match relative_part(job.source_path, batch.source_dir) {
        Some(relative) => Some(joined(batch.destination_dir, relative)),
        None => None,
    }
}

/// The command that converts `job`, given what the driver saw of its source
/// file, or the first reason why there is none.
pub open spec fn plan_of(batch: BatchJobView, job: JobView, probe: FileProbe) -> Result<
    CommandView,
    JobErrorView,
> {
    let destination = destination_of(batch, job);
    let extension = extension_of(job.source_path);
    if destination is None {
        Err(JobErrorView::NotUnderSource)
    } else if !probe.exists {
        Err(JobErrorView::SourceMissing)
    } else if !probe.is_file {
        Err(JobErrorView::SourceNotFile)
    } else if extension is None {
        Err(JobErrorView::NoExtension)
    } else if !batch.rules.dom().contains(extension->0) {
        Err(JobErrorView::NoRule { extension: extension->0 })
    } else {
        match planned(batch.rules[extension->0], job.source_path, destination->0) {
            Err(error) => Err(JobErrorView::Template(error)),
            Ok(arguments) => match parent_of(destination->0) {
                None => Err(JobErrorView::NoOutputDirectory),
                Some(output_dir) => Ok(
                    CommandView {
                        program: arguments[0],
                        arguments: arguments.skip(1),
                        destination: destination->0,
                        output_dir,
                    },
                ),
            },
        }
    }
}

/// A plan, as text.
pub open spec fn plan_view(plan: Result<Command, JobError>) -> Result<CommandView, JobErrorView> {
    match plan {
        Ok(command) => Ok(command@),
        Err(error) => Err(error@),
    }
}

/// A probe that found a regular file.
pub open spec fn regular_file() -> FileProbe {
    FileProbe { exists: true, is_file: true }
}

/// One step of a run: the batch and the cursor after it, and what is asked
/// of the driver.
pub struct Step {
    pub batch: BatchJobView,
    pub cursor: Cursor,
    pub action: ActionView,
}

/// The batch with `job` marked as failed.
pub open spec fn failed(batch: BatchJobView, job: int) -> BatchJobView {
    BatchJobView {
        jobs: batch.jobs.update(job, JobView { status: JobStatus::Error, ..batch.jobs[job] }),
        ..batch
    }
}

/// The batch with `job` marked as done, its converted file at `destination`.
pub open spec fn done(batch: BatchJobView, job: int, destination: Seq<char>) -> BatchJobView {
    BatchJobView {
        jobs: batch.jobs.update(
            job,
            JobView {
                status: JobStatus::Done,
                destination_path: destination,
                ..batch.jobs[job]
            },
        ),
        ..batch
    }
}

/// The step that fails `job` for the reason `error`: the run goes on behind
/// it.
pub open spec fn fail_step(batch: BatchJobView, job: usize, error: JobErrorView) -> Step {
    Step {
        batch: failed(batch, job as int),
        cursor: Cursor::Ready((job + 1) as usize),
        action: ActionView::Settled { job, failure: Some(error) },
    }
}

/// The step that takes up the next pending job from `from` on. Where there
/// is none, the run is finished and the batch is to be saved. A job whose
/// source is not under the source directory fails at once; any other is to
/// be probed.
pub open spec fn select_step(batch: BatchJobView, from: usize) -> Step {
    let job = next_pending(batch.jobs, from as int);
    if job >= batch.jobs.len() {
        Step { batch, cursor: Cursor::Finished, action: ActionView::Save }
    } else if destination_of(batch, batch.jobs[job]) is None {
        fail_step(batch, job as usize, JobErrorView::NotUnderSource)
    } else {
        Step {
            batch,
            cursor: Cursor::Probing(job as usize),
            action: ActionView::Probe { job: job as usize, path: batch.jobs[job].source_path },
        }
    }
}

/// The step of a pending job that waits for its probe: with the probe the
/// job is planned, and its command is to be executed, or the job fails for
/// the reason that planning found. Without a probe it fails as unanswered.
pub open spec fn probed_step(batch: BatchJobView, job: usize, event: Event) -> Step {
    match event {
        Event::Probed(probe) => match plan_of(batch, batch.jobs[job as int], probe) {
            Ok(command) => Step {
                batch,
                cursor: Cursor::Executing(job),
                action: ActionView::Execute { job, command },
            },
            Err(error) => fail_step(batch, job, error),
        },
        _ => fail_step(batch, job, JobErrorView::Unanswered),
    }
}

/// The step of a pending job that waits for its command to end: the job is
/// done where the execution shows no failure, and fails otherwise.
pub open spec fn executed_step(batch: BatchJobView, job: usize, event: Event) -> Step {
    match event {
        Event::Executed(execution) => match plan_of(
            batch,
            batch.jobs[job as int],
            regular_file(),
        ) {
            Err(error) => fail_step(batch, job, error),
            Ok(command) => match failure_of(execution, command.program) {
                Some(error) => fail_step(batch, job, error),
                None => Step {
                    batch: done(batch, job as int, command.destination),
                    cursor: Cursor::Ready((job + 1) as usize),
                    action: ActionView::Settled { job, failure: None },
                },
            },
        },
        _ => fail_step(batch, job, JobErrorView::Unanswered),
    }
}

/// One step of a run. A cursor that holds a job which is not pending, or no
/// job of the batch, is taken as ready at that position.
pub open spec fn step(batch: BatchJobView, cursor: Cursor, event: Event) -> Step {
    match cursor {
        Cursor::Finished => Step { batch, cursor: Cursor::Finished, action: ActionView::Save },
        Cursor::Ready(from) => select_step(batch, from),
        Cursor::Probing(job) => if is_pending(batch, job as int) {
            probed_step(batch, job, event)
        } else {
            select_step(batch, job)
        },
        Cursor::Executing(job) => if is_pending(batch, job as int) {
            executed_step(batch, job, event)
        } else {
            select_step(batch, job)
        },
    }
}

impl BatchJob {
    /// Plans the command that converts the job at `job`.
    fn plan_job(&self, job: usize, probe: FileProbe) -> (plan: Result<Command, JobError>)
        requires
            job < self@.jobs.len(),
        ensures
            plan_view(plan) == plan_of(self@, self@.jobs[job as int], probe),
    {
        let source = self.jobs[job].source_path.as_str();
        let relative = match relative_to(source, self.source_dir.as_str()) {
            Some(relative) => relative,
            None => {
                return Err(JobError::NotUnderSource);
            },
        };
        if !probe.exists {
            return Err(JobError::SourceMissing);
        }
        if !probe.is_file {
            return Err(JobError::SourceNotFile);
        }
        let extension = match extension(source) {
            Some(extension) => extension,
            None => {
                return Err(JobError::NoExtension);
            },
        };
        let template = match self.rules.lookup(extension.as_str()) {
            Some(template) => template,
            None => {
                return Err(JobError::NoRule { extension });
            },
        };
        let destination = join(self.destination_dir.as_str(), relative.as_str());
        let mut arguments = match plan_command(
            template.as_str(),
            source,
            destination.as_str(),
        ) {
            Ok(arguments) => arguments,
            Err(error) => {
                return Err(JobError::Template(error));
            },
        };
        let output_dir = match parent(destination.as_str()) {
            Some(output_dir) => output_dir,
            None => {
                return Err(JobError::NoOutputDirectory);
            },
        };
        let ghost planned_arguments = texts_of(arguments@);
        let program = arguments.remove(0);
        assert(texts_of(arguments@) =~= planned_arguments.skip(1));
        Ok(Command { program, arguments, destination, output_dir })
    }

    /// Marks the job at `job` as failed.
    fn fail(&mut self, job: usize, error: JobError) -> (next: (Cursor, Action))
        requires
            job < old(self)@.jobs.len(),
        ensures
            final(self)@ == fail_step(old(self)@, job, error@).batch,
            next.0 == fail_step(old(self)@, job, error@).cursor,
            next.1@ == fail_step(old(self)@, job, error@).action,
    {
        self.jobs[job].status = JobStatus::Error;
        assert(job_views(self.jobs@) =~= failed(old(self)@, job as int).jobs);
        assert(job < self.jobs.len());
        (Cursor::Ready(job + 1), Action::Settled { job, failure: Some(error) })
    }

    /// Takes up the next pending job from `from` on.
    fn select(&mut self, from: usize) -> (next: (Cursor, Action))
        ensures
            final(self)@ == select_step(old(self)@, from).batch,
            next.0 == select_step(old(self)@, from).cursor,
            next.1@ == select_step(old(self)@, from).action,
    {
        let mut job = from;
        while job < self.jobs.len() && self.jobs[job].status != JobStatus::Pending
            invariant
                from <= job,
                *self == *old(self),
                next_pending(self@.jobs, job as int) == next_pending(self@.jobs, from as int),
            decreases self.jobs@.len() - job,
        {
            job += 1;
        }
        if job >= self.jobs.len() {
            return (Cursor::Finished, Action::Save);
        }
        let source = self.jobs[job].source_path.as_str();
        match relative_to(source, self.source_dir.as_str()) {
            None => self.fail(job, JobError::NotUnderSource),
            Some(_) => (Cursor::Probing(job), Action::Probe { job, path: String::from_str(source) }),
        }
    }

    /// Tells whether the job at `job` is a job of the batch that is pending.
    fn pending(&self, job: usize) -> (pending: bool)
        ensures
            pending == is_pending(self@, job as int),
    {
        if job < self.jobs.len() {
            self.jobs[job].status == JobStatus::Pending
        } else {
            false
        }
    }

    /// Runs the batch up to the next point at which it needs its driver.
    ///
    /// A run starts with `Cursor::Ready(0)` and `Event::Next`. The driver does
    /// what the action asks, and calls again with the cursor it was given and
    /// the event that answers the action, until the action is `Action::Save`.
    /// Each pending job is taken up once, in the stored order; a job that is
    /// done or failed is never touched, and a failure never ends the run.
    pub fn run(&mut self, cursor: Cursor, event: Event) -> (next: (Cursor, Action))
        ensures
            final(self)@ == step(old(self)@, cursor, event).batch,
            next.0 == step(old(self)@, cursor, event).cursor,
            next.1@ == step(old(self)@, cursor, event).action,
            final(self)@.jobs.len() == old(self)@.jobs.len(),
            forall|k: int|
                0 <= k < old(self)@.jobs.len() && old(self)@.jobs[k].status != JobStatus::Pending
                    ==> #[trigger] final(self)@.jobs[k] == old(self)@.jobs[k],
    {
        proof {
            assert(self@.jobs.len() == self.jobs.len());
            lemma_step_settles_pending_only(self@, cursor, event);
        }
        match cursor {
            Cursor::Finished => (Cursor::Finished, Action::Save),
            Cursor::Ready(from) => self.select(from),
            Cursor::Probing(job) => {
                if !self.pending(job) {
                    return self.select(job);
                }
                match event {
                    Event::Probed(probe) => match self.plan_job(job, probe) {
                        Ok(command) => (Cursor::Executing(job), Action::Execute { job, command }),
                        Err(error) => self.fail(job, error),
                    },
                    _ => self.fail(job, JobError::Unanswered),
                }
            },
            Cursor::Executing(job) => {
                if !self.pending(job) {
                    return self.select(job);
                }
                let execution = match event {
                    Event::Executed(execution) => execution,
                    _ => {
                        return self.fail(job, JobError::Unanswered);
                    },
                };
                let command = match self.plan_job(
                    job,
                    FileProbe { exists: true, is_file: true },
                ) {
                    Ok(command) => command,
                    Err(error) => {
                        return self.fail(job, error);
                    },
                };
                match execution.failure(command.program.as_str()) {
                    Some(error) => self.fail(job, error),
                    None => {
                        self.jobs[job].status = JobStatus::Done;
                        self.jobs[job].destination_path = command.destination;
                        assert(job_views(self.jobs@) =~= done(
                            old(self)@,
                            job as int,
                            command.destination@,
                        ).jobs);
                        (Cursor::Ready(job + 1), Action::Settled { job, failure: None })
                    },
                }
            },
        }
    }
}

} // verus!
