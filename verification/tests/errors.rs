use hackshell::error::{HackshellError, JoinFailure};

#[test]
fn error_messages() {
    assert_eq!(HackshellError::CommandNotFound.message(), "Command not found");
    assert_eq!(HackshellError::TaskNotFound.message(), "Task not found");
    assert_eq!(HackshellError::Exit.message(), "Shell exit");
    assert_eq!(HackshellError::Interrupted.message(), "Interrupted");
    assert_eq!(HackshellError::Eof.message(), "EOF");
    assert_eq!(HackshellError::Message("oops".to_string()).message(), "oops");
}

#[test]
fn join_failure_messages() {
    assert_eq!(JoinFailure::AlreadyJoining.message(), "Task has been already joined");
    assert_eq!(
        JoinFailure::TaskPanicked(Some("boom".to_string())).message(),
        "Thread panicked: boom"
    );
    assert_eq!(
        JoinFailure::TaskPanicked(None).message(),
        "Thread panicked with non-string payload"
    );
    assert_eq!(
        JoinFailure::CannotJoinAsync.message(),
        "Sync task cannot be joined asynchronously"
    );
    assert_eq!(
        HackshellError::JoinFailure(JoinFailure::AlreadyJoining).message(),
        "Task has been already joined"
    );
}
