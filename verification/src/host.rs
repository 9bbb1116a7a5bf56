//! Bindings to the host concurrency primitives: the async executor, its
//! worker threads, the wall clock, and the shared cancellation flag.
//!
//! Everything here is a thin trusted layer over the outside crates. The
//! registry logic that uses it lives in `taskpool` and is verified against
//! the contracts below.

use vstd::prelude::*;
use std::sync::Arc;
use std::sync::atomic::{AtomicBool, Ordering};

verus! {

#[verifier::external_type_specification]
#[verifier::external_body]
#[verifier::reject_recursive_types(T)]
pub struct ExJoinHandle<T>(tokio::task::JoinHandle<T>);

#[verifier::external_type_specification]
#[verifier::external_body]
pub struct ExAbortHandle(tokio::task::AbortHandle);

#[verifier::external_type_specification]
#[verifier::external_body]
pub struct ExJoinError(tokio::task::JoinError);

#[verifier::external_type_specification]
#[verifier::external_body]
pub struct ExRuntimeHandle(tokio::runtime::Handle);

/// A shared cooperative stop flag. The pool keeps one end and hands the
/// other to a blocking task body, which is expected to poll it at
/// checkpoints of its own choosing.
pub struct CancelFlag {
    inner: Arc<AtomicBool>,
}

impl CancelFlag {
    /// A fresh flag, initially set: the body should keep running.
    pub(crate) fn new() -> CancelFlag {
        CancelFlag { inner: Arc::new(AtomicBool::new(true)) }
    }

    /// Relies on Arc::clone: the duplicate refers to the same shared flag.
    #[verifier::external_body]
    pub(crate) fn dup(&self) -> CancelFlag {
        CancelFlag { inner: Arc::clone(&self.inner) }
    }

    /// Whether the body should keep running. The flag is shared with other
    /// threads, so nothing can be said of the value read.
    pub fn should_run(&self) -> bool {
        self.inner.load(Ordering::Relaxed)
    }

    /// Ask the body to stop at its next poll.
    pub(crate) fn request_stop(&self) {
        self.inner.store(false, Ordering::Relaxed)
    }
}

/// What the executor reports when a task's completion cell is awaited.
pub enum JoinOutcome<T> {
    /// The body returned normally with this output.
    Done(Option<T>),
    /// The body panicked; the payload is kept when it is string-like.
    Panicked(Option<String>),
    /// The task was aborted before it could complete.
    Cancelled,
}

/// Relies on tokio::runtime::Handle::try_current: a handle to the executor
/// of the surrounding runtime context, if the calling thread has one.
#[verifier::external_body]
pub(crate) fn current_handle() -> Option<tokio::runtime::Handle> {
    tokio::runtime::Handle::try_current().ok()
}

/// Relies on tokio::runtime::Handle::spawn_blocking: runs the body, applied
/// to the flag, on a dedicated worker thread of the runtime, and returns the
/// handle that will resolve to the body's result.
#[verifier::external_body]
pub(crate) fn start_blocking<T, F>(
    h: &tokio::runtime::Handle,
    f: F,
    flag: CancelFlag,
) -> tokio::task::JoinHandle<Option<T>> where
    T: Send + 'static,
    F: FnOnce(CancelFlag) -> Option<T> + Send + 'static,
{
    h.spawn_blocking(move || f(flag))
}

/// Relies on tokio::runtime::Handle::spawn: submits the future to the
/// executor and returns the handle that will resolve to its output.
#[verifier::external_body]
pub(crate) fn start_scheduled<T, F>(
    h: &tokio::runtime::Handle,
    fut: F,
) -> tokio::task::JoinHandle<Option<T>> where
    T: Send + 'static,
    F: core::future::Future<Output = Option<T>> + Send + 'static,
{
    h.spawn(fut)
}

/// Relies on tokio::task::JoinHandle::abort_handle: a second handle to the
/// same task, able to abort it and to report whether it has finished.
#[verifier::external_body]
pub(crate) fn abort_handle_of<T>(
    jh: &tokio::task::JoinHandle<Option<T>>,
) -> tokio::task::AbortHandle {
    jh.abort_handle()
}

/// Relies on tokio::task::AbortHandle::is_finished: true only once the task
/// has run to completion or its cancellation has completed. The result
/// reflects a concurrently running task, so nothing can be said of it.
#[verifier::external_body]
pub(crate) fn probe_finished(p: &tokio::task::AbortHandle) -> bool {
    p.is_finished()
}

/// Relies on tokio::task::AbortHandle::abort: the task is cancelled at its
/// next suspension point if it has not yet completed.
#[verifier::external_body]
pub(crate) fn probe_abort(p: &tokio::task::AbortHandle) {
    p.abort()
}

/// Relies on tokio::runtime::Handle::block_on awaiting the task's join
/// handle: yields the body's own result when it ran to completion, and
/// otherwise tells a panicked body (with its payload when it is
/// string-like) apart from an aborted one. A blocking wait cannot be made
/// from inside a task, so the handle is given back untouched when
/// tokio::task::try_id reports one; a call from inside a bare `block_on`
/// future carries no task id and still hits the executor's own refusal,
/// which panics.
#[verifier::external_body]
pub(crate) fn block_join<T>(
    h: &tokio::runtime::Handle,
    jh: tokio::task::JoinHandle<Option<T>>,
) -> Result<JoinOutcome<T>, tokio::task::JoinHandle<Option<T>>> {
    if tokio::task::try_id().is_some() {
        return Err(jh);
    }
    Ok(match h.block_on(jh) {
        Ok(v) => JoinOutcome::Done(v),
        Err(e) => match e.try_into_panic() {
            Ok(p) => match p.downcast::<String>() {
                Ok(s) => JoinOutcome::Panicked(Some(*s)),
                Err(q) => JoinOutcome::Panicked(q.downcast_ref::<&str>().map(|s| s.to_string())),
            },
            Err(_) => JoinOutcome::Cancelled,
        },
    })
}

/// Relies on chrono::Utc::now: the current wall-clock time in milliseconds
/// since the Unix epoch. The clock is outside the model, so nothing is said
/// of the value.
#[verifier::external_body]
pub(crate) fn now_millis() -> i64 {
    chrono::Utc::now().timestamp_millis()
}

} // verus!
