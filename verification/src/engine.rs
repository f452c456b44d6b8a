//! What passes between the batch and its driver while a batch runs: the
//! actions that the batch asks for, the events that answer them, and the
//! reasons for which a job fails.

use crate::planner::PlanError;
use crate::text::texts_of;
use vstd::prelude::*;
use vstd::string::StringExecFns;

verus! {

/// What the driver saw of a source file.
#[derive(Clone, Copy, Debug, PartialEq, Eq)]
pub struct FileProbe {
    /// The path names something.
    pub exists: bool,
    /// It names a regular file.
    pub is_file: bool,
}

/// How the execution of a command ended.
#[derive(Clone, Copy, Debug, PartialEq, Eq)]
pub enum Execution {
    /// The directory for the output could not be created.
    DirectoryFailed,
    /// The program could not be found or started.
    NotStarted,
    /// The process ran and ended, with an exit code unless a signal ended it.
    Exited(Option<i32>),
}

/// What the driver hands to the batch.
#[derive(Clone, Copy, Debug, PartialEq, Eq)]
pub enum Event {
    /// Nothing was asked for: go on.
    Next,
    /// The answer to `Action::Probe`.
    Probed(FileProbe),
    /// The answer to `Action::Execute`.
    Executed(Execution),
}

/// Where a run stands.
#[derive(Clone, Copy, Debug, PartialEq, Eq)]
pub enum Cursor {
    /// No job is in hand; the jobs before this position are behind.
    Ready(usize),
    /// The job at this position waits for its probe.
    Probing(usize),
    /// The job at this position waits for its command to end.
    Executing(usize),
    /// Every pending job was attempted.
    Finished,
}

/// A command to run for a job.
#[derive(Clone, Debug, PartialEq, Eq)]
pub struct Command {
    /// The program to start.
    pub program: String,
    /// Its arguments.
    pub arguments: Vec<String>,
    /// The file that the command is to write.
    pub destination: String,
    /// The directory that must exist, with its parents, before the command
    /// starts.
    pub output_dir: String,
}

/// A command, as text.
pub struct CommandView {
    pub program: Seq<char>,
    pub arguments: Seq<Seq<char>>,
    pub destination: Seq<char>,
    pub output_dir: Seq<char>,
}

impl View for Command {
    type V = CommandView;

    open spec fn view(&self) -> CommandView {
        CommandView {
            program: self.program@,
            arguments: texts_of(self.arguments@),
            destination: self.destination@,
            output_dir: self.output_dir@,
        }
    }
}

/// Why a job failed. A failed job leaves the batch running.
#[derive(Clone, Debug, PartialEq, Eq)]
pub enum JobError {
    /// The source file is not under the source directory.
    NotUnderSource,
    /// The source file no longer exists.
    SourceMissing,
    /// The source path no longer names a regular file.
    SourceNotFile,
    /// The source file has no extension.
    NoExtension,
    /// No rule is defined for the extension.
    NoRule { extension: String },
    /// The rule's template plans no command.
    Template(PlanError),
    /// The destination has no directory to create.
    NoOutputDirectory,
    /// The directory for the output could not be created.
    OutputDirectory,
    /// The program could not be found or started.
    CommandNotStarted { executable: String },
    /// The command ended otherwise than with exit code 0.
    CommandFailed { executable: String, code: Option<i32> },
    /// The driver did not answer what the job was waiting for.
    Unanswered,
}

/// The reason of a failure, as text.
pub enum JobErrorView {
    NotUnderSource,
    SourceMissing,
    SourceNotFile,
    NoExtension,
    NoRule { extension: Seq<char> },
    Template(PlanError),
    NoOutputDirectory,
    OutputDirectory,
    CommandNotStarted { executable: Seq<char> },
    CommandFailed { executable: Seq<char>, code: Option<i32> },
    Unanswered,
}

impl View for JobError {
    type V = JobErrorView;

    open spec fn view(&self) -> JobErrorView {
        match *self {
            JobError::NotUnderSource => JobErrorView::NotUnderSource,
            JobError::SourceMissing => JobErrorView::SourceMissing,
            JobError::SourceNotFile => JobErrorView::SourceNotFile,
            JobError::NoExtension => JobErrorView::NoExtension,
            JobError::NoRule { extension } => JobErrorView::NoRule { extension: extension@ },
            JobError::Template(error) => JobErrorView::Template(error),
            JobError::NoOutputDirectory => JobErrorView::NoOutputDirectory,
            JobError::OutputDirectory => JobErrorView::OutputDirectory,
            JobError::CommandNotStarted { executable } => JobErrorView::CommandNotStarted {
                executable: executable@,
            },
            JobError::CommandFailed { executable, code } => JobErrorView::CommandFailed {
                executable: executable@,
                code,
            },
            JobError::Unanswered => JobErrorView::Unanswered,
        }
    }
}

/// Why the job of a command has failed, given how the execution ended;
/// `None` where it has not: the process exited with code 0. Any other exit
/// code fails the job, and so does an exit without a code.
pub open spec fn failure_of(execution: Execution, executable: Seq<char>) -> Option<JobErrorView> {
    match execution {
        Execution::DirectoryFailed => Some(JobErrorView::OutputDirectory),
        Execution::NotStarted => Some(JobErrorView::CommandNotStarted { executable }),
        Execution::Exited(code) => if code == Some(0i32) {
            None
        } else {
            Some(JobErrorView::CommandFailed { executable, code })
        },
    }
}

/// A failure, if there is one, as text.
pub open spec fn failure_view(failure: Option<JobError>) -> Option<JobErrorView> {
    match failure {
        Some(error) => Some(error@),
        None => None,
    }
}

impl Execution {
    /// Tells why the job of the command `executable` has failed, if it has.
    pub fn failure(self, executable: &str) -> (failure: Option<JobError>)
        ensures
            failure_view(failure) == failure_of(self, executable@),
    {
        match self {
            Execution::DirectoryFailed => Some(JobError::OutputDirectory),
            Execution::NotStarted => Some(
                JobError::CommandNotStarted { executable: String::from_str(executable) },
            ),
            Execution::Exited(Some(0)) => None,
            Execution::Exited(code) => Some(
                JobError::CommandFailed { executable: String::from_str(executable), code },
            ),
        }
    }
}

/// What the batch asks of its driver.
#[derive(Clone, Debug, PartialEq, Eq)]
pub enum Action {
    /// Look at the source file of `job`, and answer with `Event::Probed`.
    Probe { job: usize, path: String },
    /// Create the output directory, run the command to its end, and answer
    /// with `Event::Executed`.
    Execute { job: usize, command: Command },
    /// `job` is settled: done where `failure` is `None`, failed otherwise.
    /// Answer with `Event::Next`.
    Settled { job: usize, failure: Option<JobError> },
    /// Every pending job was attempted: save the batch, once, and stop.
    Save,
}

/// An action, as text.
pub enum ActionView {
    Probe { job: usize, path: Seq<char> },
    Execute { job: usize, command: CommandView },
    Settled { job: usize, failure: Option<JobErrorView> },
    Save,
}

impl View for Action {
    type V = ActionView;

    open spec fn view(&self) -> ActionView {
        match *self {
            Action::Probe { job, path } => ActionView::Probe { job, path: path@ },
            Action::Execute { job, command } => ActionView::Execute { job, command: command@ },
            Action::Settled { job, failure } => ActionView::Settled {
                job,
                failure: failure_view(failure),
            },
            Action::Save => ActionView::Save,
        }
    }
}

} // verus!
