//! Configuration of the export pipeline for the hierarchical tracing backend.
use vstd::prelude::*;
use std::time::Duration;
use crate::logs::{labels_view, resource_labels, resource_type_of, InternalLogContext, LogContext};

verus! {

/// The permission to append traces.
pub const TRACE_APPEND: &'static str = "https://www.googleapis.com/auth/trace.append";

/// The permission to write log entries.
pub const LOGGING_WRITE: &'static str = "https://www.googleapis.com/auth/logging.write";

/// How many batches the submission queue holds.
pub const QUEUE_CAPACITY: usize = 64;

/// How long shutdown waits for pending batches when nothing else is set.
pub const DEFAULT_SHUTDOWN_SECS: u64 = 5;

/// Settings of the export pipeline.
#[derive(Clone, Debug)]
pub struct Builder {
    pub maximum_shutdown_duration: Option<Duration>,
    pub num_concurrent_requests: Option<usize>,
    pub log_context: Option<LogContext>,
}

impl Default for Builder {
    fn default() -> (r: Self)
        ensures
            r.maximum_shutdown_duration is None,
            r.num_concurrent_requests is None,
            r.log_context is None,
    {
        Builder { maximum_shutdown_duration: None, num_concurrent_requests: None, log_context: None }
    }
}

/// What the runtime needs to run the pipeline.
pub struct ExporterConfig {
    /// The permissions each request is authorized for.
    pub scopes: Vec<&'static str>,
    pub queue_capacity: usize,
    /// At most this many batches in flight; none or zero means no limit.
    pub num_concurrent_requests: Option<usize>,
    /// How long shutdown waits for pending batches.
    pub maximum_shutdown_duration: Duration,
    pub log_context: Option<InternalLogContext>,
}

/// Relies on `std::time::Duration::from_secs`: a duration of whole seconds.
#[verifier::external_body]
fn duration_from_secs(secs: u64) -> (r: Duration) {
    Duration::from_secs(secs)
}

/// The permissions requests need: appending traces, and writing logs when
/// events go to a log.
pub open spec fn scopes_of(with_logs: bool) -> Seq<Seq<char>> {
    if with_logs {
        seq![TRACE_APPEND@, LOGGING_WRITE@]
    } else {
        seq![TRACE_APPEND@]
    }
}

impl Builder {
    /// Sets how long shutdown waits for pending batches.
    pub fn maximum_shutdown_duration(self, duration: Duration) -> (r: Self)
        ensures
            r.maximum_shutdown_duration == Some(duration),
            r.num_concurrent_requests == self.num_concurrent_requests,
            r.log_context == self.log_context,
    {
        Builder { maximum_shutdown_duration: Some(duration), ..self }
    }

    /// Sets how many batches may be exported at once; zero means no limit.
    pub fn num_concurrent_requests(self, num_concurrent_requests: usize) -> (r: Self)
        ensures
            r.maximum_shutdown_duration == self.maximum_shutdown_duration,
            r.num_concurrent_requests == Some(num_concurrent_requests),
            r.log_context == self.log_context,
    {
        Builder { num_concurrent_requests: Some(num_concurrent_requests), ..self }
    }

    /// Sends span events to a log, described by `log_context`.
    pub fn log_context(self, log_context: LogContext) -> (r: Self)
        ensures
            r.maximum_shutdown_duration == self.maximum_shutdown_duration,
            r.num_concurrent_requests == self.num_concurrent_requests,
            r.log_context == Some(log_context),
    {
        Builder { log_context: Some(log_context), ..self }
    }

    /// The pipeline's settings: the scopes to authorize, the queue's
    /// capacity, the concurrency limit as set, the shutdown wait as set or
    /// else `DEFAULT_SHUTDOWN_SECS` seconds, and the log context ready for
    /// encoding.
    pub fn config(self) -> (r: ExporterConfig)
        ensures
            r.scopes@.len() == scopes_of(self.log_context is Some).len(),
            forall|i: int| 0 <= i < r.scopes@.len() ==> (#[trigger] r.scopes@[i])@ == scopes_of(self.log_context is Some)[i],
            r.queue_capacity == QUEUE_CAPACITY,
            r.num_concurrent_requests == self.num_concurrent_requests,
            self.maximum_shutdown_duration is Some ==> r.maximum_shutdown_duration
                == self.maximum_shutdown_duration->0,
            self.log_context is None ==> r.log_context is None,
            self.log_context is Some ==> r.log_context is Some
                && r.log_context->0.log_id@ == self.log_context->0.log_id@
                && r.log_context->0.resource.resource_type@ == resource_type_of(self.log_context->0.resource)
                && labels_view(r.log_context->0.resource.labels@) == resource_labels(self.log_context->0.resource),
    {
        let mut scopes: Vec<&'static str> = Vec::new();
        scopes.push(TRACE_APPEND);
        let log_context = match self.log_context {
            Some(cx) => {
                scopes.push(LOGGING_WRITE);
                Some(InternalLogContext::from(cx))
            },
            None => None,
        };
        let shutdown_wait = match self.maximum_shutdown_duration {
            Some(d) => d,
            None => duration_from_secs(DEFAULT_SHUTDOWN_SECS),
        };
        ExporterConfig {
            scopes,
            queue_capacity: QUEUE_CAPACITY,
            num_concurrent_requests: self.num_concurrent_requests,
            maximum_shutdown_duration: shutdown_wait,
            log_context,
        }
    }
}

} // verus!
