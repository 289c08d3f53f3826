//! What a model runtime reports while it works on one request.

use vstd::prelude::*;

verus! {

/// An event of one execution. The three last are terminal.
pub enum RuntimeEvent {
    /// The model is being loaded; the progress is the bit pattern of an IEEE 754 double.
    Loading { progress: u64 },
    /// The prompt has been read.
    Prefill { elapsed_ms: u64 },
    /// A piece of the answer.
    TextDelta(String),
    /// The answer is complete.
    Finished { input_tokens: u32, output_tokens: u32, finish_reason: String },
    /// The execution failed.
    Failure { code: String, message: String, retryable: bool, output_started: bool },
    /// The execution was cancelled.
    Cancelled,
}

/// An event, as values.
pub enum RuntimeEventView {
    Loading { progress: u64 },
    Prefill { elapsed_ms: u64 },
    TextDelta(Seq<char>),
    Finished { input_tokens: u32, output_tokens: u32, finish_reason: Seq<char> },
    Failure { code: Seq<char>, message: Seq<char>, retryable: bool, output_started: bool },
    Cancelled,
}

impl View for RuntimeEvent {
    type V = RuntimeEventView;

    open spec fn view(&self) -> RuntimeEventView {
        match self {
            RuntimeEvent::Loading { progress } => RuntimeEventView::Loading { progress: *progress },
            RuntimeEvent::Prefill { elapsed_ms } => RuntimeEventView::Prefill {
                elapsed_ms: *elapsed_ms,
            },
            RuntimeEvent::TextDelta(text) => RuntimeEventView::TextDelta(text@),
            RuntimeEvent::Finished { input_tokens, output_tokens, finish_reason } =>
                RuntimeEventView::Finished {
                input_tokens: *input_tokens,
                output_tokens: *output_tokens,
                finish_reason: finish_reason@,
            },
            RuntimeEvent::Failure { code, message, retryable, output_started } =>
                RuntimeEventView::Failure {
                code: code@,
                message: message@,
                retryable: *retryable,
                output_started: *output_started,
            },
            RuntimeEvent::Cancelled => RuntimeEventView::Cancelled,
        }
    }
}

/// What a worker reports to the controller about one lease.
pub enum WorkerRuntimeEvent {
    Loading { progress: u64 },
    Prefill { elapsed_ms: u64 },
    TextDelta { text: String },
    Finished { input_tokens: u32, output_tokens: u32, finish_reason: String },
    Failure { code: String, message: String, retryable: bool, output_started: bool },
    Cancelled,
}

impl View for WorkerRuntimeEvent {
    type V = RuntimeEventView;

    open spec fn view(&self) -> RuntimeEventView {
        match self {
            WorkerRuntimeEvent::Loading { progress } => RuntimeEventView::Loading {
                progress: *progress,
            },
            WorkerRuntimeEvent::Prefill { elapsed_ms } => RuntimeEventView::Prefill {
                elapsed_ms: *elapsed_ms,
            },
            WorkerRuntimeEvent::TextDelta { text } => RuntimeEventView::TextDelta(text@),
            WorkerRuntimeEvent::Finished { input_tokens, output_tokens, finish_reason } =>
                RuntimeEventView::Finished {
                input_tokens: *input_tokens,
                output_tokens: *output_tokens,
                finish_reason: finish_reason@,
            },
            WorkerRuntimeEvent::Failure { code, message, retryable, output_started } =>
                RuntimeEventView::Failure {
                code: code@,
                message: message@,
                retryable: *retryable,
                output_started: *output_started,
            },
            WorkerRuntimeEvent::Cancelled => RuntimeEventView::Cancelled,
        }
    }
}

/// What a runtime reports, as a worker sends it to the controller.
pub fn worker_event(event: RuntimeEvent) -> (r: WorkerRuntimeEvent)
    ensures
        r@ == event@,
{
    match event {
        RuntimeEvent::Loading { progress } => WorkerRuntimeEvent::Loading { progress },
        RuntimeEvent::Prefill { elapsed_ms } => WorkerRuntimeEvent::Prefill { elapsed_ms },
        RuntimeEvent::TextDelta(text) => WorkerRuntimeEvent::TextDelta { text },
        RuntimeEvent::Finished { input_tokens, output_tokens, finish_reason } =>
            WorkerRuntimeEvent::Finished { input_tokens, output_tokens, finish_reason },
        RuntimeEvent::Failure { code, message, retryable, output_started } =>
            WorkerRuntimeEvent::Failure { code, message, retryable, output_started },
        RuntimeEvent::Cancelled => WorkerRuntimeEvent::Cancelled,
    }
}

/// What a worker sent, as a runtime would have reported it.
pub fn worker_runtime_event(event: WorkerRuntimeEvent) -> (r: RuntimeEvent)
    ensures
        r@ == event@,
{
    match event {
        WorkerRuntimeEvent::Loading { progress } => RuntimeEvent::Loading { progress },
        WorkerRuntimeEvent::Prefill { elapsed_ms } => RuntimeEvent::Prefill { elapsed_ms },
        WorkerRuntimeEvent::TextDelta { text } => RuntimeEvent::TextDelta(text),
        WorkerRuntimeEvent::Finished { input_tokens, output_tokens, finish_reason } =>
            RuntimeEvent::Finished { input_tokens, output_tokens, finish_reason },
        WorkerRuntimeEvent::Failure { code, message, retryable, output_started } =>
            RuntimeEvent::Failure { code, message, retryable, output_started },
        WorkerRuntimeEvent::Cancelled => RuntimeEvent::Cancelled,
    }
}

impl RuntimeEventView {
    /// Whether nothing follows this event.
    pub open spec fn terminal(self) -> bool {
        self is Finished || self is Failure || self is Cancelled
    }
}

/// The text that a runtime has put out: the pieces among its events, joined in order.
pub open spec fn text_put_out(events: Seq<RuntimeEventView>) -> Seq<char>
    decreases events.len(),
{
    if events.len() == 0 {
        Seq::empty()
    } else {
        text_put_out(events.drop_last()) + match events.last() {
            RuntimeEventView::TextDelta(text) => text,
            _ => Seq::empty(),
        }
    }
}

} // verus!
