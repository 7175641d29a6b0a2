//! The events of a run, and a filter over them.

use vstd::prelude::*;
use crate::dictionary::Dictionary;
use crate::text::{text_eq, texts};

verus! {

/// What happened.
#[allow(inconsistent_fields)]
#[derive(Debug, PartialEq)]
pub enum ExecutionEventKind {
    ExecutionStarted { definition_name: String, definition_type: String },
    ExecutionCompleted { definition_name: String, success: bool, duration_ms: u64 },
    ExecutionFailed { definition_name: String, error: String, duration_ms: u64 },
    CommandStarted { command: String, working_dir: Option<String> },
    CommandCompleted { command: String, exit_code: Option<i32>, duration_ms: u64, output_lines: usize },
    CommandFailed { command: String, error: String, exit_code: Option<i32>, duration_ms: u64 },
    /// `interceptor_type` is `global`, `directive` or `executor`.
    InterceptorTriggered { interceptor_name: String, interceptor_type: String, priority: i32 },
    InterceptorCompleted { interceptor_name: String, duration_ms: u64, success: bool },
    DirectiveEvaluated { directive_name: String, parameters: Dictionary<String>, result: String },
    StageStarted { stage_name: String, pipeline_name: String },
    StageCompleted { stage_name: String, pipeline_name: String, success: bool, duration_ms: u64 },
    JobStarted { job_name: String, stage_name: Option<String> },
    JobCompleted { job_name: String, success: bool, duration_ms: u64 },
    HookTriggered { hook_type: String, handler_name: String, payload_type: String },
    /// `percentage` is a binary32 number, held as its bits.
    ProgressUpdate { current_step: usize, total_steps: usize, current_task: String, percentage: u32 },
    /// `cpu_percent` is a binary32 number, held as its bits.
    ResourceUsage { cpu_percent: u32, memory_mb: u64, disk_io_mb: u64 },
    /// `data` is a JSON document.
    Custom { event_type: String, data: String },
    VariableResolved { variable_name: String, value: String, scope: String },
    ExpressionEvaluated { expression: String, result: String, evaluation_time_ms: u64 },
}

/// An event of a run.
#[derive(Debug, PartialEq)]
pub struct ExecutionEvent {
    pub id: String,
    pub execution_id: String,
    /// Milliseconds since the start of 1970.
    pub timestamp: u64,
    pub kind: ExecutionEventKind,
    pub metadata: Dictionary<String>,
}

impl ExecutionEventKind {
    /// Whether the event reports a failure.
    pub open spec fn failure(self) -> bool {
        self is ExecutionFailed || self is CommandFailed
    }

    /// Whether the event marks the start or the end of an execution.
    pub open spec fn lifecycle(self) -> bool {
        self is ExecutionStarted || self is ExecutionCompleted || self is ExecutionFailed
    }

    /// The duration that the event reports, in milliseconds.
    pub open spec fn lasted(self) -> Option<u64> {
        match self {
            ExecutionEventKind::ExecutionCompleted { duration_ms, .. } => Some(duration_ms),
            ExecutionEventKind::ExecutionFailed { duration_ms, .. } => Some(duration_ms),
            ExecutionEventKind::CommandCompleted { duration_ms, .. } => Some(duration_ms),
            ExecutionEventKind::CommandFailed { duration_ms, .. } => Some(duration_ms),
            ExecutionEventKind::InterceptorCompleted { duration_ms, .. } => Some(duration_ms),
            ExecutionEventKind::StageCompleted { duration_ms, .. } => Some(duration_ms),
            ExecutionEventKind::JobCompleted { duration_ms, .. } => Some(duration_ms),
            ExecutionEventKind::ExpressionEvaluated { evaluation_time_ms, .. } => Some(
                evaluation_time_ms,
            ),
            _ => None,
        }
    }
}

impl ExecutionEvent {
    /// An event of the run `execution_id`.
    pub fn new(
        id: String,
        execution_id: String,
        timestamp: u64,
        kind: ExecutionEventKind,
        metadata: Dictionary<String>,
    ) -> (r: Self)
        ensures
            r.id == id,
            r.execution_id == execution_id,
            r.timestamp == timestamp,
            r.kind == kind,
            r.metadata == metadata,
    {
        ExecutionEvent { id, execution_id, timestamp, kind, metadata }
    }

    /// Whether the event reports a failure.
    pub fn is_error(&self) -> (r: bool)
        ensures
            r == self.kind.failure(),
    {
        match &self.kind {
            ExecutionEventKind::ExecutionFailed { .. } => true,
            ExecutionEventKind::CommandFailed { .. } => true,
            _ => false,
        }
    }

    /// Whether the event marks the start or the end of an execution.
    pub fn is_lifecycle(&self) -> (r: bool)
        ensures
            r == self.kind.lifecycle(),
    {
        match &self.kind {
            ExecutionEventKind::ExecutionStarted { .. } => true,
            ExecutionEventKind::ExecutionCompleted { .. } => true,
            ExecutionEventKind::ExecutionFailed { .. } => true,
            _ => false,
        }
    }

    /// The duration that the event reports, in milliseconds.
    pub fn duration(&self) -> (r: Option<u64>)
        ensures
            r == self.kind.lasted(),
    {
        match &self.kind {
            ExecutionEventKind::ExecutionCompleted { duration_ms, .. } => Some(*duration_ms),
            ExecutionEventKind::ExecutionFailed { duration_ms, .. } => Some(*duration_ms),
            ExecutionEventKind::CommandCompleted { duration_ms, .. } => Some(*duration_ms),
            ExecutionEventKind::CommandFailed { duration_ms, .. } => Some(*duration_ms),
            ExecutionEventKind::InterceptorCompleted { duration_ms, .. } => Some(*duration_ms),
            ExecutionEventKind::StageCompleted { duration_ms, .. } => Some(*duration_ms),
            ExecutionEventKind::JobCompleted { duration_ms, .. } => Some(*duration_ms),
            ExecutionEventKind::ExpressionEvaluated { evaluation_time_ms, .. } => Some(
                *evaluation_time_ms,
            ),
            _ => None,
        }
    }
}

/// A choice of events.
#[derive(Debug, PartialEq)]
pub struct EventFilter {
    /// The runs whose events pass; all runs where there is none.
    pub execution_ids: Option<Vec<String>>,
    /// Kept for a choice by kind of event; no event is held back by it yet.
    pub event_types: Option<Vec<String>>,
    /// The first and the last time stamp that pass.
    pub time_range: Option<(u64, u64)>,
    pub only_errors: bool,
}

/// Whether an event passes a filter: its run is among the runs of the
/// filter, its time stamp lies in the range of the filter, and it reports a
/// failure where the filter asks for failures only.
pub open spec fn passes(filter: EventFilter, event: ExecutionEvent) -> bool {
    &&& filter.execution_ids matches Some(ids) ==> texts(ids@).contains(event.execution_id@)
    &&& filter.time_range matches Some(range) ==> range.0 <= event.timestamp <= range.1
    &&& filter.only_errors ==> event.kind.failure()
}

impl EventFilter {
    /// Whether the event passes the filter.
    pub fn matches(&self, event: &ExecutionEvent) -> (r: bool)
        ensures
            r == passes(*self, *event),
    {
        match &self.execution_ids {
            Some(ids) => {
                let mut found = false;
                let mut i: usize = 0;
                while i < ids.len() && !found
                    invariant
                        i <= ids.len(),
                        found ==> texts(ids@).contains(event.execution_id@),
                        !found ==> forall|j: int|
                            0 <= j < i ==> texts(ids@)[j] != event.execution_id@,
                    decreases ids.len() - i,
                {
                    if text_eq(ids[i].as_str(), event.execution_id.as_str()) {
                        assert(texts(ids@)[i as int] == event.execution_id@);
                        found = true;
                    }
                    i += 1;
                }
                if !found {
                    return false;
                }
            },
            None => {},
        }
        match self.time_range {
            Some((start, end)) => {
                if event.timestamp < start || event.timestamp > end {
                    return false;
                }
            },
            None => {},
        }
        if self.only_errors && !event.is_error() {
            return false;
        }
        true
    }
}

} // verus!
