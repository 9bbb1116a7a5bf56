use vstd::prelude::*;

verus! {

/// Why waiting on a task's completion failed.
#[derive(Debug)]
pub enum JoinFailure {
    /// The task's completion cell was already consumed by an earlier join.
    AlreadyJoining,
    /// The task body raised an unrecoverable fault; the payload is kept
    /// when it is string-like, otherwise it is opaque.
    TaskPanicked(Option<String>),
    /// The task was aborted before it could produce a result.
    Cancelled,
    /// A blocking task cannot be joined on the cooperative path.
    CannotJoinAsync,
    /// No executor is reachable from the calling thread, so the join
    /// cannot be bridged.
    SchedulerUnavailable,
}

/// The shell's error taxonomy.
#[derive(Debug)]
pub enum HackshellError {
    /// A plain textual error.
    Message(String),
    /// The first word of a line named no registered command.
    CommandNotFound,
    /// No task is registered under the given name.
    TaskNotFound,
    /// The user asked the shell to exit.
    Exit,
    /// The line edit was interrupted.
    Interrupted,
    /// End of input.
    Eof,
    /// Waiting on a task failed.
    JoinFailure(JoinFailure),
}

pub type HackshellResult<T> = Result<T, HackshellError>;

impl JoinFailure {
    /// A human-readable description of the failure.
    pub fn message(&self) -> (r: String)
        ensures
            match self {
                JoinFailure::AlreadyJoining => r@ == "Task has been already joined"@,
                JoinFailure::TaskPanicked(p) => match p {
                    Some(m) => r@ == "Thread panicked: "@ + m@,
                    None => r@ == "Thread panicked with non-string payload"@,
                },
                JoinFailure::Cancelled => r@ == "Task was cancelled"@,
                JoinFailure::CannotJoinAsync => r@ == "Sync task cannot be joined asynchronously"@,
                JoinFailure::SchedulerUnavailable => r@ == "No reachable async runtime on this thread"@,
            },
    {
        match self {
            JoinFailure::AlreadyJoining => String::from_str("Task has been already joined"),
            JoinFailure::TaskPanicked(p) => match p {
                Some(m) => String::from_str("Thread panicked: ").concat(m.as_str()),
                None => String::from_str("Thread panicked with non-string payload"),
            },
            JoinFailure::Cancelled => String::from_str("Task was cancelled"),
            JoinFailure::CannotJoinAsync => String::from_str("Sync task cannot be joined asynchronously"),
            JoinFailure::SchedulerUnavailable => String::from_str("No reachable async runtime on this thread"),
        }
    }
}

impl HackshellError {
    /// A human-readable description of the error.
    pub fn message(&self) -> (r: String)
        ensures
            match self {
                HackshellError::Message(m) => r@ == m@,
                HackshellError::CommandNotFound => r@ == "Command not found"@,
                HackshellError::TaskNotFound => r@ == "Task not found"@,
                HackshellError::Exit => r@ == "Shell exit"@,
                HackshellError::Interrupted => r@ == "Interrupted"@,
                HackshellError::Eof => r@ == "EOF"@,
                HackshellError::JoinFailure(e) => match e {
                    JoinFailure::AlreadyJoining => r@ == "Task has been already joined"@,
                    JoinFailure::TaskPanicked(p) => match p {
                        Some(m) => r@ == "Thread panicked: "@ + m@,
                        None => r@ == "Thread panicked with non-string payload"@,
                    },
                    JoinFailure::Cancelled => r@ == "Task was cancelled"@,
                    JoinFailure::CannotJoinAsync => r@ == "Sync task cannot be joined asynchronously"@,
                    JoinFailure::SchedulerUnavailable => r@ == "No reachable async runtime on this thread"@,
                },
            },
    {
        match self {
            HackshellError::Message(m) => m.clone(),
            HackshellError::CommandNotFound => String::from_str("Command not found"),
            HackshellError::TaskNotFound => String::from_str("Task not found"),
            HackshellError::Exit => String::from_str("Shell exit"),
            HackshellError::Interrupted => String::from_str("Interrupted"),
            HackshellError::Eof => String::from_str("EOF"),
            HackshellError::JoinFailure(e) => e.message(),
        }
    }
}

} // verus!
