//! A worker: how it carries out a lease, and what it does between leases.

use crate::api::auth::Method;
use crate::cli::files::FileSignal;
use crate::cli::{send, sending, value_or_refusal, value_or_rejected, Reply, Request, RequestView};
use crate::clock::{has_passed, parse_rfc3339, parsed_rfc3339, SECOND};
use crate::cloud_stream::saturated32;
use crate::ident::{format_uuid, hyphenated, parse_uuid, parsed_uuid, Uuid};
use crate::json::{
    fields2, fields4, has_at, id_json, json_has_at, json_text_at, text_at, Fields, Json, JsonView,
};
use crate::runtime::{
    text_put_out, worker_event, RuntimeEvent, RuntimeEventView, WorkerRuntimeEvent,
};
use crate::text;
use crate::text::{
    in_a_row, joined, law_pieces_make_the_text, split_after_each, white_space, word_count, words,
};
use vstd::prelude::*;

verus! {

// ------------------------------------------------------------------------------------------------
// Carrying out a lease

/// How far a worker has come with a lease.
#[derive(Clone, Copy, Debug, PartialEq, Eq, Structural)]
pub enum LeaseStage {
    /// It looks for a runtime that has the model.
    Finding,
    /// It loads the model.
    Loading,
    /// It starts the runtime.
    Starting,
    /// It waits for the runtime's next event.
    Running,
    /// It has sent an event and waits whether the controller takes it; the event was terminal or not.
    Reporting { terminal: bool },
    /// It has sent the event that ends the lease.
    Concluding,
    /// It has told the runtime to stop.
    Cancelling,
    Done,
}

/// What a worker hears.
pub enum LeaseSignal {
    /// Whether a runtime has the model.
    Found(bool),
    /// Whether the model was loaded, or why not.
    Loaded(Result<(), String>),
    /// Whether the runtime was started, or why not.
    Started(Result<(), String>),
    /// The runtime's next event, or that its stream is closed.
    Runtime(Option<RuntimeEvent>),
    /// Whether the controller took the event.
    Taken(bool),
    /// The runtime was told to stop.
    Cancelled,
}

/// What a runtime is asked to carry out.
pub struct RuntimeRequest {
    pub workload_id: Uuid,
    pub model: String,
    pub input: String,
    pub max_output_tokens: u32,
    pub plan: Json,
}

/// What a runtime is asked to carry out, as values.
pub struct RuntimeRequestView {
    pub workload_id: Uuid,
    pub model: Seq<char>,
    pub input: Seq<char>,
    pub max_output_tokens: u32,
    pub plan: JsonView,
}

impl RuntimeRequest {
    pub open spec fn view(&self) -> RuntimeRequestView {
        RuntimeRequestView {
            workload_id: self.workload_id,
            model: self.model@,
            input: self.input@,
            max_output_tokens: self.max_output_tokens,
            plan: self.plan@,
        }
    }
}

/// What a worker does next.
pub enum LeaseAction {
    /// Load the model into the runtime.
    Load { model: String },
    Start(RuntimeRequest),
    Await,
    Submit { sequence: u64, event: WorkerRuntimeEvent },
    /// Tell the runtime to stop its work.
    Cancel { workload_id: Uuid },
    Finish,
    /// The lease cannot be carried on with: the controller does not take its end.
    Fail,
}

/// What a worker hears, as values.
pub enum LeaseSignalView {
    Found(bool),
    Loaded(Result<(), Seq<char>>),
    Started(Result<(), Seq<char>>),
    Runtime(Option<RuntimeEventView>),
    Taken(bool),
    Cancelled,
}

/// What a worker does next, as values.
pub enum LeaseActionView {
    Load { model: Seq<char> },
    Start(RuntimeRequestView),
    Await,
    Submit { sequence: u64, event: RuntimeEventView },
    Cancel { workload_id: Uuid },
    Finish,
    Fail,
}

/// What a result says.
pub open spec fn result_view(result: Result<(), String>) -> Result<(), Seq<char>> {
    match result {
        Ok(()) => Ok(()),
        Err(message) => Err(message@),
    }
}

impl LeaseSignal {
    pub open spec fn view(&self) -> LeaseSignalView {
        match self {
            LeaseSignal::Found(found) => LeaseSignalView::Found(*found),
            LeaseSignal::Loaded(result) => LeaseSignalView::Loaded(result_view(*result)),
            LeaseSignal::Started(result) => LeaseSignalView::Started(result_view(*result)),
            LeaseSignal::Runtime(Some(event)) => LeaseSignalView::Runtime(Some(event@)),
            LeaseSignal::Runtime(None) => LeaseSignalView::Runtime(None),
            LeaseSignal::Taken(taken) => LeaseSignalView::Taken(*taken),
            LeaseSignal::Cancelled => LeaseSignalView::Cancelled,
        }
    }
}

impl LeaseAction {
    pub open spec fn view(&self) -> LeaseActionView {
        match self {
            LeaseAction::Load { model } => LeaseActionView::Load { model: model@ },
            LeaseAction::Start(request) => LeaseActionView::Start(request@),
            LeaseAction::Await => LeaseActionView::Await,
            LeaseAction::Submit { sequence, event } => LeaseActionView::Submit {
                sequence: *sequence,
                event: event@,
            },
            LeaseAction::Cancel { workload_id } => LeaseActionView::Cancel {
                workload_id: *workload_id,
            },
            LeaseAction::Finish => LeaseActionView::Finish,
            LeaseAction::Fail => LeaseActionView::Fail,
        }
    }
}

/// A lease that is being carried out.
pub struct LeaseExecution {
    /// What the runtime is asked to carry out.
    pub work: RuntimeRequest,
    pub stage: LeaseStage,
    /// The number of the last event.
    pub sequence: u64,
    pub output_started: bool,
}

/// The next number, which stops at the greatest.
pub open spec fn next_number(sequence: u64) -> u64 {
    if sequence == u64::MAX {
        u64::MAX
    } else {
        (sequence + 1) as u64
    }
}

/// A lease with which a worker begins.
pub open spec fn begun(work: RuntimeRequest) -> LeaseExecution {
    LeaseExecution { work, stage: LeaseStage::Finding, sequence: 0, output_started: false }
}

/// A failure of a lease.
pub open spec fn lease_failure(
    code: Seq<char>,
    message: Seq<char>,
    retryable: bool,
    output_started: bool,
) -> RuntimeEventView {
    RuntimeEventView::Failure { code, message, retryable, output_started }
}

/// A lease that ends with a failure before it began to run.
pub open spec fn refused(
    execution: LeaseExecution,
    code: Seq<char>,
    message: Seq<char>,
    retryable: bool,
) -> (LeaseExecution, LeaseActionView) {
    (
        LeaseExecution { stage: LeaseStage::Concluding, sequence: 1, ..execution },
        LeaseActionView::Submit {
            sequence: 1,
            event: lease_failure(code, message, retryable, false),
        },
    )
}

/// What a worker does next, and how far it is then.
pub open spec fn lease_step(execution: LeaseExecution, signal: LeaseSignalView) -> (
    LeaseExecution,
    LeaseActionView,
) {
    match (execution.stage, signal) {
        (LeaseStage::Finding, LeaseSignalView::Found(true)) => (
            LeaseExecution { stage: LeaseStage::Loading, ..execution },
            LeaseActionView::Load { model: execution.work.model@ },
        ),
        (LeaseStage::Finding, LeaseSignalView::Found(false)) => refused(
            execution,
            "model_unavailable"@,
            "selected worker does not have the requested model"@,
            false,
        ),
        (LeaseStage::Loading, LeaseSignalView::Loaded(Ok(()))) => (
            LeaseExecution { stage: LeaseStage::Starting, ..execution },
            LeaseActionView::Start(execution.work@),
        ),
        (LeaseStage::Loading, LeaseSignalView::Loaded(Err(message))) => refused(
            execution,
            "runtime_load_failed"@,
            message,
            true,
        ),
        (LeaseStage::Starting, LeaseSignalView::Started(Ok(()))) => (
            LeaseExecution { stage: LeaseStage::Running, ..execution },
            LeaseActionView::Await,
        ),
        (LeaseStage::Starting, LeaseSignalView::Started(Err(message))) => refused(
            execution,
            "runtime_start_failed"@,
            message,
            true,
        ),
        (LeaseStage::Running, LeaseSignalView::Runtime(Some(event))) => (
            LeaseExecution {
                stage: LeaseStage::Reporting { terminal: event.terminal() },
                sequence: next_number(execution.sequence),
                output_started: execution.output_started || event is TextDelta,
                ..execution
            },
            LeaseActionView::Submit { sequence: next_number(execution.sequence), event },
        ),
        (LeaseStage::Running, LeaseSignalView::Runtime(None)) => (
            LeaseExecution {
                stage: LeaseStage::Concluding,
                sequence: next_number(execution.sequence),
                ..execution
            },
            LeaseActionView::Submit {
                sequence: next_number(execution.sequence),
                event: lease_failure(
                    "runtime_stream_closed"@,
                    "runtime stream closed without a terminal event"@,
                    true,
                    execution.output_started,
                ),
            },
        ),
        (LeaseStage::Reporting { terminal }, LeaseSignalView::Taken(taken)) => if !taken {
            (
                LeaseExecution { stage: LeaseStage::Cancelling, ..execution },
                LeaseActionView::Cancel { workload_id: execution.work.workload_id },
            )
        } else if terminal {
            (LeaseExecution { stage: LeaseStage::Done, ..execution }, LeaseActionView::Finish)
        } else {
            (LeaseExecution { stage: LeaseStage::Running, ..execution }, LeaseActionView::Await)
        },
        (LeaseStage::Concluding, LeaseSignalView::Taken(taken)) => (
            LeaseExecution { stage: LeaseStage::Done, ..execution },
            if taken {
                LeaseActionView::Finish
            } else {
                LeaseActionView::Fail
            },
        ),
        (LeaseStage::Cancelling, LeaseSignalView::Cancelled) => (
            LeaseExecution { stage: LeaseStage::Done, ..execution },
            LeaseActionView::Finish,
        ),
        _ => (execution, LeaseActionView::Fail),
    }
}

/// Whether nothing follows an event.
pub fn is_terminal(event: &WorkerRuntimeEvent) -> (r: bool)
    ensures
        r == event@.terminal(),
{
    match event {
        WorkerRuntimeEvent::Finished { .. } => true,
        WorkerRuntimeEvent::Failure { .. } => true,
        WorkerRuntimeEvent::Cancelled => true,
        WorkerRuntimeEvent::Loading { .. } => false,
        WorkerRuntimeEvent::Prefill { .. } => false,
        WorkerRuntimeEvent::TextDelta { .. } => false,
    }
}

fn failure(code: &str, message: &str, retryable: bool, output_started: bool) -> (r:
    WorkerRuntimeEvent)
    ensures
        r@ == lease_failure(code@, message@, retryable, output_started),
{
    WorkerRuntimeEvent::Failure {
        code: text::owned(code),
        message: text::owned(message),
        retryable,
        output_started,
    }
}

impl LeaseExecution {
    /// Begins with a lease, which has to be this worker's own.
    pub fn begin(lease_node: Uuid, own_node: Uuid, work: RuntimeRequest) -> (r: Option<
        LeaseExecution,
    >)
        ensures
            r is Some == (lease_node == own_node),
            r matches Some(execution) ==> execution == begun(work),
    {
        if lease_node != own_node {
            return None;
        }
        Some(
            LeaseExecution {
                work,
                stage: LeaseStage::Finding,
                sequence: 0,
                output_started: false,
            },
        )
    }

    fn refuse(&mut self, code: &str, message: &str, retryable: bool) -> (action: LeaseAction)
        ensures
            (*final(self), action@) == refused(*old(self), code@, message@, retryable),
    {
        self.stage = LeaseStage::Concluding;
        self.sequence = 1;
        LeaseAction::Submit { sequence: 1, event: failure(code, message, retryable, false) }
    }

    /// Takes what the worker hears, and tells what it does next.
    pub fn next(&mut self, signal: LeaseSignal) -> (action: LeaseAction)
        ensures
            (*final(self), action@) == lease_step(*old(self), signal@),
    {
        match (self.stage, signal) {
            (LeaseStage::Finding, LeaseSignal::Found(found)) => {
                if found {
                    self.stage = LeaseStage::Loading;
                    LeaseAction::Load { model: text::owned(self.work.model.as_str()) }
                } else {
                    self.refuse(
                        "model_unavailable",
                        "selected worker does not have the requested model",
                        false,
                    )
                }
            },
            (LeaseStage::Loading, LeaseSignal::Loaded(result)) => match result {
                Ok(()) => {
                    self.stage = LeaseStage::Starting;
                    LeaseAction::Start(
                        RuntimeRequest {
                            workload_id: self.work.workload_id,
                            model: text::owned(self.work.model.as_str()),
                            input: text::owned(self.work.input.as_str()),
                            max_output_tokens: self.work.max_output_tokens,
                            plan: self.work.plan.copy(),
                        },
                    )
                },
                Err(message) => self.refuse("runtime_load_failed", message.as_str(), true),
            },
            (LeaseStage::Starting, LeaseSignal::Started(result)) => match result {
                Ok(()) => {
                    self.stage = LeaseStage::Running;
                    LeaseAction::Await
                },
                Err(message) => self.refuse("runtime_start_failed", message.as_str(), true),
            },
            (LeaseStage::Running, LeaseSignal::Runtime(next)) => {
                self.sequence = self.sequence.saturating_add(1);
                match next {
                    Some(event) => {
                        let started = match &event {
                            RuntimeEvent::TextDelta(_) => true,
                            _ => false,
                        };
                        self.output_started = self.output_started || started;
                        let event = worker_event(event);
                        self.stage = LeaseStage::Reporting { terminal: is_terminal(&event) };
                        LeaseAction::Submit { sequence: self.sequence, event }
                    },
                    None => {
                        self.stage = LeaseStage::Concluding;
                        LeaseAction::Submit {
                            sequence: self.sequence,
                            event: failure(
                                "runtime_stream_closed",
                                "runtime stream closed without a terminal event",
                                true,
                                self.output_started,
                            ),
                        }
                    },
                }
            },
            (LeaseStage::Reporting { terminal }, LeaseSignal::Taken(taken)) => {
                if !taken {
                    self.stage = LeaseStage::Cancelling;
                    LeaseAction::Cancel { workload_id: self.work.workload_id }
                } else if terminal {
                    self.stage = LeaseStage::Done;
                    LeaseAction::Finish
                } else {
                    self.stage = LeaseStage::Running;
                    LeaseAction::Await
                }
            },
            (LeaseStage::Concluding, LeaseSignal::Taken(taken)) => {
                self.stage = LeaseStage::Done;
                if taken {
                    LeaseAction::Finish
                } else {
                    LeaseAction::Fail
                }
            },
            (LeaseStage::Cancelling, LeaseSignal::Cancelled) => {
                self.stage = LeaseStage::Done;
                LeaseAction::Finish
            },
            _ => LeaseAction::Fail,
        }
    }
}

/// The lease after all that a worker hears, and the events that it has sent.
pub open spec fn lease_run(work: RuntimeRequest, signals: Seq<LeaseSignalView>) -> (
    LeaseExecution,
    Seq<(u64, RuntimeEventView)>,
)
    decreases signals.len(),
{
    if signals.len() == 0 {
        (begun(work), Seq::empty())
    } else {
        let (execution, sent) = lease_run(work, signals.drop_last());
        let (next, action) = lease_step(execution, signals.last());
        (
            next,
            match action {
                LeaseActionView::Submit { sequence, event } => sent.push((sequence, event)),
                _ => sent,
            },
        )
    }
}

/// Whatever a worker hears, it carries out the work of its lease and no other, it numbers its events from one on without gaps, sends at most one
/// terminal event, as its last, and is done only after a terminal event or after the controller
/// stopped taking its events.
pub proof fn law_a_worker_reports_in_order(work: RuntimeRequest, signals: Seq<LeaseSignalView>)
    requires
        signals.len() < u64::MAX,
    ensures
        ({
            let (execution, sent) = lease_run(work, signals);
            &&& execution.work == work
            &&& sent.len() <= signals.len()
            &&& execution.sequence == sent.len()
            &&& forall|i: int| 0 <= i < sent.len() ==> (#[trigger] sent[i]).0 == i + 1
            &&& forall|i: int|
                0 <= i < sent.len() - 1 ==> !(#[trigger] sent[i]).1.terminal()
            &&& (execution.stage == LeaseStage::Finding || execution.stage == LeaseStage::Loading
                || execution.stage == LeaseStage::Starting) ==> sent.len() == 0
            &&& execution.stage == LeaseStage::Running ==> (sent.len() > 0 ==> !sent.last().1.terminal())
            &&& execution.stage == LeaseStage::Concluding ==> sent.len() > 0
                && sent.last().1.terminal()
            &&& execution.stage matches LeaseStage::Reporting { terminal } ==> sent.len() > 0
                && sent.last().1.terminal() == terminal
            &&& execution.stage == LeaseStage::Done || execution.stage == LeaseStage::Cancelling
                ==> sent.len() > 0
        }),
    decreases signals.len(),
{
    if signals.len() > 0 {
        law_a_worker_reports_in_order(work, signals.drop_last());
        let (execution, sent) = lease_run(work, signals.drop_last());
        let (next, action) = lease_step(execution, signals.last());
    }
}

/// A worker that has put out text does not forget it, and says so where its runtime falls silent.
pub proof fn law_output_is_remembered(execution: LeaseExecution, signal: LeaseSignalView)
    requires
        execution.output_started,
    ensures
        lease_step(execution, signal).0.output_started,
        execution.stage == LeaseStage::Running && signal == LeaseSignalView::Runtime(None) ==> (
        lease_step(execution, signal).1 matches LeaseActionView::Submit { event, .. } && event
            == lease_failure(
            "runtime_stream_closed"@,
            "runtime stream closed without a terminal event"@,
            true,
            true,
        )),
{
}

// ------------------------------------------------------------------------------------------------
// The mock worker

/// What the mock model answers to an input.
pub open spec fn mock_answer(input: Seq<char>) -> Seq<char> {
    "Constellation mock response: "@ + if words(input).len() == 0 {
        "ready"@
    } else {
        joined(words(input), " "@)
    }
}

/// The pieces in which the mock model answers, at most `limit` of them.
pub open spec fn mock_chunks(input: Seq<char>, limit: int) -> Seq<Seq<char>> {
    let all = split_after_each(mock_answer(input), ' ');
    if all.len() <= limit {
        all
    } else {
        all.take(limit)
    }
}

/// The events of a lease of the mock worker, in order; they are numbered from one.
pub open spec fn mock_events(model: Seq<char>, input: Seq<char>, limit: u32) -> Seq<
    RuntimeEventView,
> {
    if model != "constellation/mock"@ {
        seq![
            lease_failure(
                "model_unavailable"@,
                "selected worker does not have the requested model"@,
                false,
                false,
            ),
        ]
    } else {
        let chunks = mock_chunks(input, limit as int);
        seq![RuntimeEventView::Prefill { elapsed_ms: 1 }] + chunks.map_values(
            |chunk: Seq<char>| RuntimeEventView::TextDelta(chunk),
        ) + seq![
            RuntimeEventView::Finished {
                input_tokens: saturated32(word_count(input) as int),
                output_tokens: saturated32(chunks.len() as int),
                finish_reason: "stop"@,
            },
        ]
    }
}

/// What events say.
pub open spec fn runtime_views(events: Seq<WorkerRuntimeEvent>) -> Seq<RuntimeEventView> {
    events.map_values(|event: WorkerRuntimeEvent| event@)
}

fn narrow(n: usize) -> (r: u32)
    ensures
        r == saturated32(n as int),
{
    if n > 4_294_967_295usize {
        u32::MAX
    } else {
        n as u32
    }
}

/// The events with which the mock worker carries out a lease, in order; they are numbered from one.
pub fn execute_mock_lease(model: &str, input: &str, maximum_output_tokens: u32) -> (events: Vec<
    WorkerRuntimeEvent,
>)
    ensures
        runtime_views(events@) == mock_events(model@, input@, maximum_output_tokens),
{
    let mut events: Vec<WorkerRuntimeEvent> = Vec::new();
    if !text::same(model, "constellation/mock") {
        events.push(
            failure(
                "model_unavailable",
                "selected worker does not have the requested model",
                false,
                false,
            ),
        );
        assert(runtime_views(events@) =~= mock_events(model@, input@, maximum_output_tokens));
        return events;
    }
    let input_words: usize = text::count_words(input);
    let body = if input_words == 0 {
        text::join2("Constellation mock response: ", "ready")
    } else {
        text::join2("Constellation mock response: ", text::normalized_words(input).as_str())
    };
    proof {
        text::lemma_words(input@);
    }
    assert(body@ == mock_answer(input@));
    let pieces = text::split_inclusive(body.as_str(), ' ');
    let ghost all = split_after_each(body@, ' ');
    let ghost chunks = mock_chunks(input@, maximum_output_tokens as int);
    let ghost deltas = chunks.map_values(|chunk: Seq<char>| RuntimeEventView::TextDelta(chunk));
    events.push(WorkerRuntimeEvent::Prefill { elapsed_ms: 1 });
    let mut i: usize = 0;
    assert(all.len() == pieces@.len());
    assert(runtime_views(events@) =~= seq![RuntimeEventView::Prefill { elapsed_ms: 1 }]
        + deltas.take(0));
    while i < pieces.len() && (i as u64) < maximum_output_tokens as u64
        invariant
            all == pieces@.map_values(|piece: String| piece@),
            all == split_after_each(mock_answer(input@), ' '),
            chunks == mock_chunks(input@, maximum_output_tokens as int),
            deltas == chunks.map_values(|chunk: Seq<char>| RuntimeEventView::TextDelta(chunk)),
            i <= chunks.len(),
            runtime_views(events@) == seq![RuntimeEventView::Prefill { elapsed_ms: 1 }]
                + deltas.take(i as int),
        decreases pieces@.len() - i,
    {
        let ghost before = events@;
        assert(chunks[i as int] == pieces@[i as int]@);
        let delta = WorkerRuntimeEvent::TextDelta { text: pieces[i].clone() };
        events.push(delta);
        assert(runtime_views(events@) =~= runtime_views(before).push(delta@));
        assert(deltas.take(i + 1) =~= deltas.take(i as int).push(deltas[i as int]));
        assert(runtime_views(events@) =~= seq![RuntimeEventView::Prefill { elapsed_ms: 1 }]
            + deltas.take(i + 1));
        i += 1;
    }
    assert(i == chunks.len());
    assert(deltas.take(i as int) =~= deltas);
    let ghost before = events@;
    let last = WorkerRuntimeEvent::Finished {
        input_tokens: narrow(input_words),
        output_tokens: narrow(i),
        finish_reason: text::owned("stop"),
    };
    events.push(last);
    assert(runtime_views(events@) =~= runtime_views(before).push(last@));
    assert(runtime_views(events@) =~= mock_events(model@, input@, maximum_output_tokens));
    events
}

// ------------------------------------------------------------------------------------------------
// Between leases

/// What is wrong with a worker's credential.
#[derive(Clone, Copy, Debug, PartialEq, Eq, Structural)]
pub enum CredentialError {
    MissingExpiration,
    UnreadableExpiration,
    Expired,
    MissingIdentity,
    UnreadableIdentity,
}

/// The text under one of two pointers: the first counts where it names anything.
pub open spec fn text_at_either(document: Seq<u8>, first: Seq<char>, second: Seq<char>) -> Option<
    Seq<char>,
> {
    if json_has_at(document, first) {
        json_text_at(document, first)
    } else {
        json_text_at(document, second)
    }
}

fn either_text(document: &[u8], first: &str, second: &str) -> (r: Option<String>)
    ensures
        match r {
            Some(found) => text_at_either(document@, first@, second@) == Some(found@),
            None => text_at_either(document@, first@, second@) is None,
        },
{
    if has_at(document, first) {
        text_at(document, first)
    } else {
        text_at(document, second)
    }
}

/// Whether a moment is not after another; both are whole seconds and nanoseconds.
pub open spec fn not_after(a: (i64, u32), b: (i64, u32)) -> bool {
    a.0 < b.0 || (a.0 == b.0 && a.1 <= b.1)
}

/// Whether a credential has to be rotated: it expires within the hour. One that has expired is an
/// error.
pub open spec fn rotation_due(document: Seq<u8>, now: (i64, u32)) -> Result<bool, CredentialError> {
    match text_at_either(document, "/credential/expires_at"@, "/expires_at"@) {
        None => Err(CredentialError::MissingExpiration),
        Some(text) => match parsed_rfc3339(text) {
            None => Err(CredentialError::UnreadableExpiration),
            Some(expiry) => if not_after(expiry, now) {
                Err(CredentialError::Expired)
            } else {
                Ok((expiry.0 - now.0) * SECOND + expiry.1 - now.1 <= 3_600 * SECOND)
            },
        },
    }
}

/// Whether a credential, given as a JSON document, has to be rotated.
pub fn credential_rotation_due(document: &[u8], now: (i64, u32)) -> (r: Result<
    bool,
    CredentialError,
>)
    ensures
        r == rotation_due(document@, now),
{
    let text = match either_text(document, "/credential/expires_at", "/expires_at") {
        Some(text) => text,
        None => return Err(CredentialError::MissingExpiration),
    };
    let expiry = match parse_rfc3339(text.as_str()) {
        Some(expiry) => expiry,
        None => return Err(CredentialError::UnreadableExpiration),
    };
    if expiry.0 < now.0 || (expiry.0 == now.0 && expiry.1 <= now.1) {
        return Err(CredentialError::Expired);
    }
    let left: i128 = (expiry.0 as i128 - now.0 as i128) * 1_000_000_000 + expiry.1 as i128
        - now.1 as i128;
    Ok(left <= 3_600_000_000_000)
}

/// The device that a credential names.
pub open spec fn credential_device(document: Seq<u8>) -> Result<Uuid, CredentialError> {
    match text_at_either(document, "/credential/device_id"@, "/device_id"@) {
        None => Err(CredentialError::MissingIdentity),
        Some(text) => match parsed_uuid(text) {
            Some(id) => Ok(id),
            None => Err(CredentialError::UnreadableIdentity),
        },
    }
}

/// The device that a credential, given as a JSON document, names.
pub fn credential_device_id(document: &[u8]) -> (r: Result<Uuid, CredentialError>)
    ensures
        r == credential_device(document@),
{
    match either_text(document, "/credential/device_id", "/device_id") {
        Some(text) => match parse_uuid(text.as_str()) {
            Some(id) => Ok(id),
            None => Err(CredentialError::UnreadableIdentity),
        },
        None => Err(CredentialError::MissingIdentity),
    }
}

/// A step of a worker between leases.
#[derive(Clone, Copy, Debug, PartialEq, Eq, Structural)]
pub enum WorkerStep {
    /// The credential is rotated, and then a heartbeat is due.
    Rotate,
    Heartbeat,
    Poll,
    Execute,
    Sleep,
    Stop,
}

/// Whether a heartbeat is due: there was none yet, or the last is at least five seconds ago.
pub open spec fn heartbeat_due(last: Option<i128>, now: i128) -> bool {
    match last {
        Some(moment) => now - moment >= 5 * SECOND,
        None => true,
    }
}

/// What a worker does first when it wakes up.
pub fn wake(last_heartbeat: Option<i128>, now: i128, rotation_due: bool) -> (step: WorkerStep)
    ensures
        step == (if !heartbeat_due(last_heartbeat, now) {
            WorkerStep::Poll
        } else if rotation_due {
            WorkerStep::Rotate
        } else {
            WorkerStep::Heartbeat
        }),
{
    let due = match last_heartbeat {
        Some(moment) => has_passed(5_000_000_000, moment, now),
        None => true,
    };
    if !due {
        WorkerStep::Poll
    } else if rotation_due {
        WorkerStep::Rotate
    } else {
        WorkerStep::Heartbeat
    }
}

/// What a worker does after a step: a lease that it polled is carried out, and then it rests, or
/// stops where it was to work only once.
pub fn after_step(step: WorkerStep, lease_given: bool, once: bool) -> (next: Option<WorkerStep>)
    ensures
        next == match step {
            WorkerStep::Rotate => Some(WorkerStep::Heartbeat),
            WorkerStep::Heartbeat => Some(WorkerStep::Poll),
            WorkerStep::Poll if lease_given => Some(WorkerStep::Execute),
            WorkerStep::Poll | WorkerStep::Execute => Some(
                if once {
                    WorkerStep::Stop
                } else {
                    WorkerStep::Sleep
                },
            ),
            WorkerStep::Sleep | WorkerStep::Stop => None,
        },
{
    match step {
        WorkerStep::Rotate => Some(WorkerStep::Heartbeat),
        WorkerStep::Heartbeat => Some(WorkerStep::Poll),
        WorkerStep::Poll => if lease_given {
            Some(WorkerStep::Execute)
        } else if once {
            Some(WorkerStep::Stop)
        } else {
            Some(WorkerStep::Sleep)
        },
        WorkerStep::Execute => if once {
            Some(WorkerStep::Stop)
        } else {
            Some(WorkerStep::Sleep)
        },
        WorkerStep::Sleep => None,
        WorkerStep::Stop => None,
    }
}

/// The path to which a worker sends the events of a lease.
pub fn lease_events_path(node_id: Uuid, lease_id: Uuid) -> (path: String)
    ensures
        path@ == "/constellation/v1/workers/"@ + hyphenated(node_id) + "/leases/"@ + hyphenated(
            lease_id,
        ) + "/events"@,
{
    let mut path = text::join3(
        "/constellation/v1/workers/",
        format_uuid(node_id).as_str(),
        "/leases/",
    );
    path.append(format_uuid(lease_id).as_str());
    path.append("/events");
    path
}

/// The path under which a worker polls for a lease.
pub fn poll_path(node_id: Uuid) -> (path: String)
    ensures
        path@ == "/constellation/v1/workers/"@ + hyphenated(node_id) + "/leases/poll"@,
{
    text::join3("/constellation/v1/workers/", format_uuid(node_id).as_str(), "/leases/poll")
}

/// A path of a device: its heartbeat, its inventory, its credentials.
pub fn device_path(node_id: Uuid, what: &str) -> (path: String)
    ensures
        path@ == "/constellation/v1/devices/"@ + hyphenated(node_id) + what@,
{
    text::join3("/constellation/v1/devices/", format_uuid(node_id).as_str(), what)
}

// ------------------------------------------------------------------------------------------------
// What a worker tells of itself, and what it is answered

/// The inventory that a worker sends; its capabilities are a document as they were encoded.
pub fn inventory_request(
    node_id: Uuid,
    name: &str,
    os: &str,
    architecture: &str,
    capabilities: Vec<u8>,
) -> (r: Request)
    ensures
        r@ == sending(
            Method::Post,
            "/constellation/v1/devices/"@ + hyphenated(node_id) + "/inventory"@,
            fields4(
                ("name"@, JsonView::Text(name@)),
                ("os"@, JsonView::Text(os@)),
                ("architecture"@, JsonView::Text(architecture@)),
                ("capabilities"@, JsonView::Document(capabilities@)),
            ),
        ),
{
    let body = Fields::new().text("name", name).text("os", os).text(
        "architecture",
        architecture,
    ).document("capabilities", capabilities).object();
    let path = device_path(node_id, "/inventory");
    send(Method::Post, path.as_str(), body)
}

/// The event of a lease that a worker sends, under its number; the event is a document as it was
/// encoded.
pub fn submit_event(node_id: Uuid, lease_id: Uuid, sequence: u64, event: Vec<u8>) -> (r: Request)
    ensures
        r@ == sending(
            Method::Post,
            "/constellation/v1/workers/"@ + hyphenated(node_id) + "/leases/"@ + hyphenated(lease_id)
                + "/events"@,
            fields2(
                ("sequence"@, JsonView::Number(sequence as int)),
                ("event"@, JsonView::Document(event@)),
            ),
        ),
{
    let body = Fields::new().number("sequence", sequence as i128).document("event", event).object();
    let path = lease_events_path(node_id, lease_id);
    send(Method::Post, path.as_str(), body)
}

/// What a worker tells of a model under a runtime. The built-in runtime is measured; of others there
/// is an estimate. Numbers with a fraction are bit patterns of IEEE 754 doubles.
pub open spec fn benchmark_note(node_id: Uuid, runtime: Seq<char>, model: Seq<char>, now: i128) -> Seq<
    (Seq<char>, JsonView),
> {
    let measured = runtime == "mock"@;
    Seq::empty().push(("node_id"@, id_json(node_id))).push(
        ("runtime"@, JsonView::Text(runtime)),
    ).push(("model"@, JsonView::Text(model))).push(
        (
            "tokens_per_second"@,
            JsonView::Real(
                if measured {
                    0x408f_4000_0000_0000
                } else {
                    0x3ff0_0000_0000_0000
                },
            ),
        ),
    ).push(
        (
            "time_to_first_token_ms"@,
            JsonView::Real(
                if measured {
                    0x4014_0000_0000_0000
                } else {
                    0x408f_4000_0000_0000
                },
            ),
        ),
    ).push(("network_latency_ms"@, JsonView::Real(0x3ff0_0000_0000_0000))).push(
        ("network_bandwidth_mbps"@, JsonView::Real(0x408f_4000_0000_0000)),
    ).push(("jitter_ms"@, JsonView::Real(0x3fb9_9999_9999_999a))).push(
        ("packet_loss"@, JsonView::Real(0)),
    ).push(
        (
            "sample_count"@,
            JsonView::Number(
                if measured {
                    5
                } else {
                    1
                },
            ),
        ),
    ).push(
        (
            "kind"@,
            JsonView::Text(
                if measured {
                    "measured"@
                } else {
                    "estimated"@
                },
            ),
        ),
    ).push(("measured_at"@, JsonView::Moment(now)))
}

fn benchmark_request(node_id: Uuid, runtime: &str, model: &str, now: i128) -> (r: Request)
    ensures
        r@ == sending(
            Method::Post,
            "/constellation/v1/benchmarks"@,
            benchmark_note(node_id, runtime@, model@, now),
        ),
{
    let measured = text::same(runtime, "mock");
    let (tokens_per_second, first_token): (u64, u64) = if measured {
        (0x408f_4000_0000_0000, 0x4014_0000_0000_0000)
    } else {
        (0x3ff0_0000_0000_0000, 0x408f_4000_0000_0000)
    };
    let samples: i128 = if measured {
        5
    } else {
        1
    };
    let kind: &str = if measured {
        "measured"
    } else {
        "estimated"
    };
    let body = Fields::new().id("node_id", node_id).text("runtime", runtime).text(
        "model",
        model,
    ).with("tokens_per_second", Json::Real(tokens_per_second)).with(
        "time_to_first_token_ms",
        Json::Real(first_token),
    ).with("network_latency_ms", Json::Real(0x3ff0_0000_0000_0000)).with(
        "network_bandwidth_mbps",
        Json::Real(0x408f_4000_0000_0000),
    ).with("jitter_ms", Json::Real(0x3fb9_9999_9999_999a)).with("packet_loss", Json::Real(0)).number(
        "sample_count",
        samples,
    ).text("kind", kind).moment("measured_at", now).object();
    send(Method::Post, "/constellation/v1/benchmarks", body)
}

/// A runtime and its models.
pub struct RuntimeCapability {
    pub runtime_id: String,
    pub models: Vec<String>,
}

/// The reports on the first `n` models of a runtime.
pub open spec fn model_reports(node_id: Uuid, capability: RuntimeCapability, now: i128, n: nat) -> Seq<
    RequestView,
>
    decreases n,
{
    if n == 0 {
        Seq::empty()
    } else {
        model_reports(node_id, capability, now, (n - 1) as nat).push(
            sending(
                Method::Post,
                "/constellation/v1/benchmarks"@,
                benchmark_note(
                    node_id,
                    capability.runtime_id@,
                    capability.models@[n - 1]@,
                    now,
                ),
            ),
        )
    }
}

/// The reports on the models of the first `n` runtimes.
pub open spec fn runtime_reports(
    node_id: Uuid,
    capabilities: Seq<RuntimeCapability>,
    now: i128,
    n: nat,
) -> Seq<RequestView>
    decreases n,
{
    if n == 0 {
        Seq::empty()
    } else {
        runtime_reports(node_id, capabilities, now, (n - 1) as nat) + model_reports(
            node_id,
            capabilities[n - 1],
            now,
            capabilities[n - 1].models@.len(),
        )
    }
}

/// What requests ask.
pub open spec fn request_views(requests: Seq<Request>) -> Seq<RequestView> {
    requests.map_values(|request: Request| request@)
}

/// The reports that a worker makes on all models of its runtimes, one after the other.
pub fn advertise_benchmarks(node_id: Uuid, capabilities: &[RuntimeCapability], now: i128) -> (requests:
    Vec<Request>)
    ensures
        request_views(requests@) == runtime_reports(
            node_id,
            capabilities@,
            now,
            capabilities@.len(),
        ),
{
    let mut requests: Vec<Request> = Vec::new();
    let mut i: usize = 0;
    assert(request_views(requests@) =~= Seq::empty());
    while i < capabilities.len()
        invariant
            i <= capabilities@.len(),
            request_views(requests@) == runtime_reports(node_id, capabilities@, now, i as nat),
        decreases capabilities@.len() - i,
    {
        let capability = &capabilities[i];
        let ghost before = request_views(requests@);
        let mut j: usize = 0;
        assert(before + model_reports(node_id, *capability, now, 0) =~= before);
        while j < capability.models.len()
            invariant
                j <= capability.models@.len(),
                request_views(requests@) == before + model_reports(
                    node_id,
                    *capability,
                    now,
                    j as nat,
                ),
            decreases capability.models@.len() - j,
        {
            let ghost sofar = requests@;
            let request = benchmark_request(
                node_id,
                capability.runtime_id.as_str(),
                capability.models[j].as_str(),
                now,
            );
            let ghost made = request@;
            requests.push(request);
            assert(request_views(requests@) =~= request_views(sofar).push(made));
            assert(before + model_reports(node_id, *capability, now, (j + 1) as nat) =~= (before
                + model_reports(node_id, *capability, now, j as nat)).push(made));
            j += 1;
        }
        i += 1;
    }
    requests
}

/// What the controller's answer to a worker means.
pub fn membership_json(status: u16, body: &[u8]) -> (r: Reply)
    ensures
        r@ == value_or_refusal(status, body@, "controller rejected the worker operation"@),
{
    value_or_rejected(status, body, "controller rejected the worker operation")
}

// ------------------------------------------------------------------------------------------------
// Storing a rotated credential

/// How far the storing of a rotated credential has come.
#[derive(Clone, Copy, Debug, PartialEq, Eq, Structural)]
pub enum RotationStage {
    /// It writes a temporary file beside the credential.
    Writing,
    /// It moves the temporary file over the credential, all at once.
    Replacing,
    /// It finds out whether an old backup is there.
    Probing,
    /// It removes an old backup.
    Clearing,
    /// It moves the credential to the backup.
    Preserving,
    /// It moves the temporary file to its place.
    Promoting,
    /// That failed: it moves the backup back.
    PuttingBack,
    /// It removes the backup.
    Forgetting,
    Done,
}

/// What is done next.
#[derive(Clone, Copy, Debug, PartialEq, Eq, Structural)]
pub enum RotationRequest {
    Write,
    Replace,
    Probe,
    Clear,
    Preserve,
    Promote,
    PutBack,
    Forget,
    Finish,
    Fail,
    /// What came back is not what was asked for.
    Unexpected,
}

/// What is done next, and how far the storing is then. Where a file cannot be moved over another the
/// credential is kept as a backup meanwhile.
pub open spec fn rotation_step(atomic: bool, stage: RotationStage, signal: FileSignal) -> (
    RotationStage,
    RotationRequest,
) {
    match (stage, signal) {
        (RotationStage::Probing, FileSignal::Found(found)) => if found {
            (RotationStage::Clearing, RotationRequest::Clear)
        } else {
            (RotationStage::Preserving, RotationRequest::Preserve)
        },
        (RotationStage::Probing, _) => (stage, RotationRequest::Unexpected),
        (RotationStage::Done, _) => (stage, RotationRequest::Unexpected),
        (RotationStage::PuttingBack, FileSignal::Worked(_)) => (
            RotationStage::Done,
            RotationRequest::Fail,
        ),
        (RotationStage::Promoting, FileSignal::Worked(false)) => (
            RotationStage::PuttingBack,
            RotationRequest::PutBack,
        ),
        (_, FileSignal::Worked(false)) => (RotationStage::Done, RotationRequest::Fail),
        (RotationStage::Writing, FileSignal::Worked(true)) => if atomic {
            (RotationStage::Replacing, RotationRequest::Replace)
        } else {
            (RotationStage::Probing, RotationRequest::Probe)
        },
        (RotationStage::Replacing, FileSignal::Worked(true)) => (
            RotationStage::Done,
            RotationRequest::Finish,
        ),
        (RotationStage::Clearing, FileSignal::Worked(true)) => (
            RotationStage::Preserving,
            RotationRequest::Preserve,
        ),
        (RotationStage::Preserving, FileSignal::Worked(true)) => (
            RotationStage::Promoting,
            RotationRequest::Promote,
        ),
        (RotationStage::Promoting, FileSignal::Worked(true)) => (
            RotationStage::Forgetting,
            RotationRequest::Forget,
        ),
        (RotationStage::Forgetting, FileSignal::Worked(true)) => (
            RotationStage::Done,
            RotationRequest::Finish,
        ),
        _ => (stage, RotationRequest::Unexpected),
    }
}

/// A rotated credential that is being stored.
#[derive(Clone, Copy)]
pub struct RotationWriting {
    /// Whether a file can be moved over another all at once.
    pub atomic: bool,
    pub stage: RotationStage,
}

impl RotationWriting {
    /// Begins to store a rotated credential.
    pub fn write_private_credential(atomic: bool) -> (r: (RotationWriting, RotationRequest))
        ensures
            r.0 == (RotationWriting { atomic, stage: RotationStage::Writing }),
            r.1 == RotationRequest::Write,
    {
        (RotationWriting { atomic, stage: RotationStage::Writing }, RotationRequest::Write)
    }

    fn go(&mut self, stage: RotationStage, request: RotationRequest) -> (r: RotationRequest)
        ensures
            *final(self) == (RotationWriting { stage, ..*old(self) }),
            r == request,
    {
        self.stage = stage;
        request
    }

    /// Takes what has come back, and tells what is to be done next.
    pub fn next(&mut self, signal: FileSignal) -> (request: RotationRequest)
        ensures
            (final(self).stage, request) == rotation_step(
                old(self).atomic,
                old(self).stage,
                signal,
            ),
            final(self).atomic == old(self).atomic,
    {
        match (self.stage, signal) {
            (RotationStage::Probing, FileSignal::Found(found)) => {
                if found {
                    self.go(RotationStage::Clearing, RotationRequest::Clear)
                } else {
                    self.go(RotationStage::Preserving, RotationRequest::Preserve)
                }
            },
            (RotationStage::Probing, _) => RotationRequest::Unexpected,
            (RotationStage::Done, _) => RotationRequest::Unexpected,
            (_, FileSignal::Found(_)) => RotationRequest::Unexpected,
            (RotationStage::PuttingBack, FileSignal::Worked(_)) => {
                self.go(RotationStage::Done, RotationRequest::Fail)
            },
            (RotationStage::Promoting, FileSignal::Worked(worked)) => {
                if worked {
                    self.go(RotationStage::Forgetting, RotationRequest::Forget)
                } else {
                    self.go(RotationStage::PuttingBack, RotationRequest::PutBack)
                }
            },
            (stage, FileSignal::Worked(worked)) => {
                if !worked {
                    return self.go(RotationStage::Done, RotationRequest::Fail);
                }
                match stage {
                    RotationStage::Writing => {
                        if self.atomic {
                            self.go(RotationStage::Replacing, RotationRequest::Replace)
                        } else {
                            self.go(RotationStage::Probing, RotationRequest::Probe)
                        }
                    },
                    RotationStage::Replacing => {
                        self.go(RotationStage::Done, RotationRequest::Finish)
                    },
                    RotationStage::Clearing => {
                        self.go(RotationStage::Preserving, RotationRequest::Preserve)
                    },
                    RotationStage::Preserving => {
                        self.go(RotationStage::Promoting, RotationRequest::Promote)
                    },
                    _ => self.go(RotationStage::Done, RotationRequest::Finish),
                }
            },
        }
    }
}

/// Whether a credential has to be moved back before a worker starts.
pub open spec fn needs_recovery(atomic: bool, credential_exists: bool, backup_exists: bool) -> bool {
    !atomic && !credential_exists && backup_exists
}

/// Whether a credential has to be moved back before a worker starts: an earlier rotation was
/// interrupted between the two moves.
pub fn recover_worker_credential(atomic: bool, credential_exists: bool, backup_exists: bool) -> (r:
    bool)
    ensures
        r == needs_recovery(atomic, credential_exists, backup_exists),
{
    !atomic && !credential_exists && backup_exists
}

/// Which of the two files are there: the credential and its backup.
pub struct RotationFiles {
    pub credential: bool,
    pub backup: bool,
}

/// Which files are there after something was done to them, or failed.
pub open spec fn files_after(
    files: RotationFiles,
    request: RotationRequest,
    signal: FileSignal,
) -> RotationFiles {
    if signal != FileSignal::Worked(true) {
        files
    } else {
        match request {
            RotationRequest::Replace => RotationFiles { credential: true, ..files },
            RotationRequest::Clear => RotationFiles { backup: false, ..files },
            RotationRequest::Preserve => RotationFiles { credential: false, backup: true },
            RotationRequest::Promote => RotationFiles { credential: true, ..files },
            RotationRequest::PutBack => RotationFiles { credential: true, backup: false },
            RotationRequest::Forget => RotationFiles { backup: false, ..files },
            _ => files,
        }
    }
}

/// How far a rotation is after what has come back, what it does next, and which files are there, where
/// the credential was there in the beginning.
pub open spec fn rotation_run(atomic: bool, backup: bool, signals: Seq<FileSignal>) -> (
    RotationStage,
    RotationRequest,
    RotationFiles,
)
    decreases signals.len(),
{
    if signals.len() == 0 {
        (
            RotationStage::Writing,
            RotationRequest::Write,
            RotationFiles { credential: true, backup },
        )
    } else {
        let (stage, request, files) = rotation_run(atomic, backup, signals.drop_last());
        let step = rotation_step(atomic, stage, signals.last());
        (step.0, step.1, files_after(files, request, signals.last()))
    }
}

/// Whether what has come back answers what was asked for: a probe finds something or not, and all else
/// works or not.
pub open spec fn rotation_answered(atomic: bool, backup: bool, signals: Seq<FileSignal>) -> bool
    decreases signals.len(),
{
    signals.len() == 0 || {
        &&& rotation_answered(atomic, backup, signals.drop_last())
        &&& signals.last() is Found == (rotation_run(atomic, backup, signals.drop_last()).1
            == RotationRequest::Probe)
    }
}

/// What is done belongs to how far the rotation is, and the credential is there except between the two
/// moves, where its backup is.
proof fn lemma_rotation(atomic: bool, backup: bool, signals: Seq<FileSignal>)
    requires
        rotation_answered(atomic, backup, signals),
    ensures
        ({
            let (stage, request, files) = rotation_run(atomic, backup, signals);
            &&& stage != RotationStage::Done ==> request == (match stage {
                RotationStage::Writing => RotationRequest::Write,
                RotationStage::Replacing => RotationRequest::Replace,
                RotationStage::Probing => RotationRequest::Probe,
                RotationStage::Clearing => RotationRequest::Clear,
                RotationStage::Preserving => RotationRequest::Preserve,
                RotationStage::Promoting => RotationRequest::Promote,
                RotationStage::PuttingBack => RotationRequest::PutBack,
                _ => RotationRequest::Forget,
            })
            &&& stage == RotationStage::Done ==> request == RotationRequest::Finish || request
                == RotationRequest::Fail || request == RotationRequest::Unexpected
            &&& stage == RotationStage::Promoting || stage == RotationStage::PuttingBack
                ==> files.backup
            &&& atomic ==> stage == RotationStage::Writing || stage == RotationStage::Replacing
                || stage == RotationStage::Done
            &&& stage != RotationStage::Promoting && stage != RotationStage::PuttingBack && stage
                != RotationStage::Done ==> files.credential
            &&& files.credential || (files.backup && !atomic)
        }),
    decreases signals.len(),
{
    if signals.len() > 0 {
        lemma_rotation(atomic, backup, signals.drop_last());
    }
}

/// A rotation may be interrupted at any moment: the credential is there, or the next start moves its
/// backup back.
pub proof fn law_an_interrupted_rotation_is_recovered(
    atomic: bool,
    backup: bool,
    signals: Seq<FileSignal>,
)
    requires
        rotation_answered(atomic, backup, signals),
    ensures
        ({
            let files = rotation_run(atomic, backup, signals).2;
            files.credential || needs_recovery(atomic, files.credential, files.backup)
        }),
{
    lemma_rotation(atomic, backup, signals);
}

// ------------------------------------------------------------------------------------------------
// What a worker does adds up

/// What a worker hears where nothing goes wrong: the model is there, loads and starts, and each event of
/// the runtime is taken.
pub open spec fn smooth_run(events: Seq<RuntimeEventView>) -> Seq<LeaseSignalView>
    decreases events.len(),
{
    if events.len() == 0 {
        seq![
            LeaseSignalView::Found(true),
            LeaseSignalView::Loaded(Ok(())),
            LeaseSignalView::Started(Ok(())),
        ]
    } else {
        smooth_run(events.drop_last()).push(LeaseSignalView::Runtime(Some(events.last()))).push(
            LeaseSignalView::Taken(true),
        )
    }
}

/// Everything that its runtime says a worker reports, as it is, once and in order; and with the last event
/// it is done, and not before.
pub proof fn law_a_worker_reports_what_its_runtime_says(
    work: RuntimeRequest,
    events: Seq<RuntimeEventView>,
)
    requires
        events.len() < u64::MAX,
        forall|i: int| 0 <= i < events.len() - 1 ==> !(#[trigger] events[i]).terminal(),
    ensures
        ({
            let (execution, sent) = lease_run(work, smooth_run(events));
            &&& sent.len() == events.len()
            &&& forall|i: int|
                0 <= i < events.len() ==> #[trigger] sent[i] == ((i + 1) as u64, events[i])
            &&& execution.sequence == events.len()
            &&& execution.output_started <==> exists|i: int|
                0 <= i < events.len() && (#[trigger] events[i]) is TextDelta
            &&& events.len() > 0 && events.last().terminal() ==> execution.stage == LeaseStage::Done
            &&& events.len() == 0 || !events.last().terminal() ==> execution.stage
                == LeaseStage::Running
        }),
    decreases events.len(),
{
    reveal_with_fuel(lease_run, 4);
    if events.len() == 0 {
        let all = smooth_run(events);
        assert(all.drop_last().drop_last().drop_last() =~= Seq::<LeaseSignalView>::empty());
        assert(all.drop_last().last() == all[1] && all.drop_last().drop_last().last() == all[0]);
    } else {
        let before = events.drop_last();
        assert forall|i: int| 0 <= i < before.len() implies !(#[trigger] before[i]).terminal() by {
            assert(before[i] == events[i]);
        }
        law_a_worker_reports_what_its_runtime_says(work, before);
        if before.len() > 0 {
            assert(!before[before.len() - 1].terminal());
        }
        let all = smooth_run(events);
        let heard = smooth_run(before).push(LeaseSignalView::Runtime(Some(events.last())));
        assert(all.drop_last() =~= heard);
        assert(heard.drop_last() =~= smooth_run(before));
        let (earlier, told) = lease_run(work, smooth_run(before));
        let (execution, sent) = lease_run(work, all);
        assert(sent == told.push((events.len() as u64, events.last())));
        assert forall|i: int| 0 <= i < events.len() implies #[trigger] sent[i] == (
            (i + 1) as u64,
            events[i],
        ) by {
            if i < before.len() {
                assert(sent[i] == told[i]);
                assert(before[i] == events[i]);
            }
        }
        assert(forall|i: int| 0 <= i < before.len() ==> before[i] == #[trigger] events[i]);
        assert(events.last() == events[events.len() - 1]);
    }
}

/// What a runtime is asked to carry out is the work of the lease, as it came, and only after its model was
/// found and loaded; and a controller that no longer takes events has the very workload stopped.
pub proof fn law_a_worker_carries_out_its_lease(execution: LeaseExecution, signal: LeaseSignalView)
    ensures
        ({
            let (after, action) = lease_step(execution, signal);
            &&& action matches LeaseActionView::Start(request) ==> {
                &&& execution.stage == LeaseStage::Loading
                &&& signal matches LeaseSignalView::Loaded(result) && result is Ok
                &&& request.workload_id == execution.work.workload_id
                &&& request.model == execution.work.model@
                &&& request.input == execution.work.input@
                &&& request.max_output_tokens == execution.work.max_output_tokens
                &&& request.plan == execution.work.plan@
            }
            &&& action matches LeaseActionView::Load { model } ==> model == execution.work.model@
                && signal == LeaseSignalView::Found(true)
            &&& action matches LeaseActionView::Cancel { workload_id } ==> workload_id
                == execution.work.workload_id && signal == LeaseSignalView::Taken(false)
            &&& after.work == execution.work
        }),
{
}

/// A failure before anything ran is reported as the first event, before any output; that the model is not
/// there is final, and that it did not load or start may be tried again.
pub proof fn law_early_failures_come_first(execution: LeaseExecution, signal: LeaseSignalView)
    requires
        execution.stage == LeaseStage::Finding || execution.stage == LeaseStage::Loading
            || execution.stage == LeaseStage::Starting,
        lease_step(execution, signal).1 is Submit,
    ensures
        ({
            let (after, action) = lease_step(execution, signal);
            &&& after.stage == LeaseStage::Concluding
            &&& action matches LeaseActionView::Submit { sequence, event } && sequence == 1 && (
            event matches RuntimeEventView::Failure { retryable, output_started, .. }
                && !output_started && retryable == !(signal is Found))
        }),
{
}

proof fn lemma_deltas_put_out(head: Seq<RuntimeEventView>, chunks: Seq<Seq<char>>)
    ensures
        text_put_out(
            head + chunks.map_values(|chunk: Seq<char>| RuntimeEventView::TextDelta(chunk)),
        ) == text_put_out(head) + in_a_row(chunks),
    decreases chunks.len(),
{
    let deltas = chunks.map_values(|chunk: Seq<char>| RuntimeEventView::TextDelta(chunk));
    let all = head + deltas;
    if chunks.len() == 0 {
        assert(all =~= head);
        assert(text_put_out(head) + in_a_row(chunks) =~= text_put_out(head));
    } else {
        let first = chunks[0];
        let rest = chunks.drop_first();
        let longer = head.push(RuntimeEventView::TextDelta(first));
        lemma_deltas_put_out(longer, rest);
        assert(longer + rest.map_values(|chunk: Seq<char>| RuntimeEventView::TextDelta(chunk))
            =~= all);
        assert(longer.drop_last() =~= head);
        assert(text_put_out(longer) + in_a_row(rest) =~= text_put_out(head) + in_a_row(chunks));
    }
}

/// The mock model puts out its answer whole where its bound allows that many pieces, and else the pieces
/// that the bound allows; it counts the words of the input and the pieces that it put out, and it ends by
/// finishing.
pub proof fn law_the_mock_model_answers_whole(input: Seq<char>, limit: u32)
    ensures
        ({
            let events = mock_events("constellation/mock"@, input, limit);
            let pieces = split_after_each(mock_answer(input), ' ');
            &&& pieces.len() <= limit ==> text_put_out(events) == mock_answer(input)
            &&& pieces.len() > limit ==> text_put_out(events) == in_a_row(pieces.take(limit as int))
            &&& events.len() >= 2 && events.first() is Prefill
            &&& events.last() matches RuntimeEventView::Finished {
                input_tokens,
                output_tokens,
                finish_reason,
            } && input_tokens == saturated32(word_count(input) as int) && output_tokens
                == saturated32(events.len() - 2) && finish_reason == "stop"@
            &&& events.len() - 2 <= limit
        }),
{
    let events = mock_events("constellation/mock"@, input, limit);
    let chunks = mock_chunks(input, limit as int);
    let start = seq![RuntimeEventView::Prefill { elapsed_ms: 1 }];
    let deltas = chunks.map_values(|chunk: Seq<char>| RuntimeEventView::TextDelta(chunk));
    law_pieces_make_the_text(mock_answer(input), ' ');
    lemma_deltas_put_out(start, chunks);
    assert(events.drop_last() =~= start + deltas);
    assert(start.drop_last() =~= Seq::<RuntimeEventView>::empty());
    reveal_with_fuel(text_put_out, 2);
    assert(text_put_out(start) =~= Seq::<char>::empty());
    assert(text_put_out(events) =~= in_a_row(chunks));
}

/// The answer of the mock model repeats the words of its input, in order.
pub proof fn law_the_mock_model_repeats_its_input(input: Seq<char>)
    requires
        words(input).len() > 0,
    ensures
        words(mock_answer(input)) == words("Constellation mock response: "@) + words(input),
{
    reveal_strlit("Constellation mock response: ");
    reveal_strlit(" ");
    let head = "Constellation mock response: "@;
    assert(head.last() == ' ');
    assert(" "@ =~= seq![' ']);
    let all = words(input);
    lemma_words_are_words(input);
    lemma_joined_words(all, head);
}

/// The words of a text are not empty, and hold no white space.
proof fn lemma_words_are_words(s: Seq<char>)
    ensures
        forall|i: int| 0 <= i < words(s).len() ==> plain_word(#[trigger] words(s)[i]),
    decreases s.len(),
{
    if s.len() > 0 {
        let before = s.drop_last();
        lemma_words_are_words(before);
        text::lemma_words(before);
        let c = s.last();
        if !white_space(c) {
            if s.len() == 1 || white_space(s[s.len() - 2]) {
            } else {
                assert(before.last() == s[s.len() - 2]);
                let old = words(before);
                assert(plain_word(old[old.len() - 1]));
                assert(plain_word(old.last().push(c)));
            }
        }
    }
}

/// Whether a text is one word.
pub open spec fn plain_word(word: Seq<char>) -> bool {
    word.len() > 0 && forall|i: int| 0 <= i < word.len() ==> !white_space(#[trigger] word[i])
}

proof fn lemma_joined_words(all: Seq<Seq<char>>, head: Seq<char>)
    requires
        all.len() > 0,
        head.len() > 0,
        white_space(head.last()),
        " "@ == seq![' '],
        forall|i: int| 0 <= i < all.len() ==> plain_word(#[trigger] all[i]),
    ensures
        words(head + joined(all, " "@)) == words(head) + all,
    decreases all.len(),
{
    let before = all.drop_last();
    let last = all.last();
    assert(plain_word(all[all.len() - 1]));
    text::law_a_word_is_one_word(last);
    if all.len() == 1 {
        assert(all =~= seq![last]);
        let front = head.drop_last();
        text::law_words_add_up(front, head.last(), last);
        text::law_words_add_up(front, head.last(), Seq::empty());
        assert(front + seq![head.last()] + last =~= head + last);
        assert(front + seq![head.last()] + Seq::<char>::empty() =~= head);
        assert(words(Seq::<char>::empty()) =~= Seq::<Seq<char>>::empty());
        assert(words(front) + words(Seq::<char>::empty()) =~= words(front));
    } else {
        assert forall|i: int| 0 <= i < before.len() implies plain_word(#[trigger] before[i]) by {
            assert(before[i] == all[i]);
        }
        lemma_joined_words(before, head);
        let so_far = head + joined(before, " "@);
        assert(white_space(' '));
        text::law_words_add_up(so_far, ' ', last);
        assert(head + joined(all, " "@) =~= so_far + seq![' '] + last);
        assert(words(head) + before + seq![last] =~= words(head) + all);
    }
}

/// A credential is rotated in the last hour before it expires, and not earlier; from the moment at which it
/// expires it is refused. (Moments are whole seconds and nanoseconds after them.)
pub proof fn law_credentials_are_rotated_in_time(document: Seq<u8>, expiry: (i64, u32), now: (i64, u32))
    requires
        text_at_either(document, "/credential/expires_at"@, "/expires_at"@) is Some,
        parsed_rfc3339(text_at_either(document, "/credential/expires_at"@, "/expires_at"@)->0) == Some(
            expiry,
        ),
        expiry.1 < 1_000_000_000,
        now.1 < 1_000_000_000,
    ensures
        ({
            let left = (expiry.0 * 1_000_000_000 + expiry.1) - (now.0 * 1_000_000_000 + now.1);
            &&& left <= 0 <==> rotation_due(document, now) == Err::<bool, CredentialError>(
                CredentialError::Expired,
            )
            &&& 0 < left <= 3_600_000_000_000 <==> rotation_due(document, now) == Ok::<
                bool,
                CredentialError,
            >(true)
            &&& left > 3_600_000_000_000 <==> rotation_due(document, now) == Ok::<
                bool,
                CredentialError,
            >(false)
        }),
{
    assert(SECOND == 1_000_000_000);
}

/// A worker says that it is alive at once, and then every five seconds: a heartbeat is not due sooner, and
/// once due it stays so.
pub proof fn law_heartbeats_are_regular(last: i128, now: i128, later: i128)
    ensures
        heartbeat_due(None, now),
        now - last < 5_000_000_000 ==> !heartbeat_due(Some(last), now),
        now - last >= 5_000_000_000 && later >= now ==> heartbeat_due(Some(last), later),
{
}

/// Of a runtime every model is reported, each once and in its order, as that model on that node.
pub proof fn law_every_model_is_reported(
    node_id: Uuid,
    capability: RuntimeCapability,
    now: i128,
    n: nat,
    i: int,
)
    requires
        0 <= i < n <= capability.models@.len(),
    ensures
        model_reports(node_id, capability, now, n).len() == n,
        model_reports(node_id, capability, now, n)[i] == sending(
            Method::Post,
            "/constellation/v1/benchmarks"@,
            benchmark_note(node_id, capability.runtime_id@, capability.models@[i]@, now),
        ),
        model_reports(node_id, capability, now, 0).len() == 0,
    decreases n,
{
    if n == 1 {
        reveal_with_fuel(model_reports, 2);
    } else if i < n - 1 {
        law_every_model_is_reported(node_id, capability, now, (n - 1) as nat, i);
    } else {
        law_every_model_is_reported(node_id, capability, now, (n - 1) as nat, 0);
    }
}

/// The reports on runtimes follow one another: those on the models of each runtime are all there, in their
/// order.
pub proof fn law_every_runtime_is_reported(
    node_id: Uuid,
    capabilities: Seq<RuntimeCapability>,
    now: i128,
    n: nat,
    j: int,
    i: int,
)
    requires
        0 <= j < n <= capabilities.len(),
        0 <= i < capabilities[j].models@.len(),
    ensures
        ({
            let before = runtime_reports(node_id, capabilities, now, j as nat).len();
            let reports = runtime_reports(node_id, capabilities, now, n);
            &&& before + i < reports.len()
            &&& reports[before + i] == sending(
                Method::Post,
                "/constellation/v1/benchmarks"@,
                benchmark_note(
                    node_id,
                    capabilities[j].runtime_id@,
                    capabilities[j].models@[i]@,
                    now,
                ),
            )
            &&& runtime_reports(node_id, capabilities, now, (j + 1) as nat).len() == before
                + capabilities[j].models@.len()
            &&& runtime_reports(node_id, capabilities, now, 0).len() == 0
        }),
    decreases n,
{
    let models = capabilities[j].models@.len();
    law_every_model_is_reported(node_id, capabilities[j], now, models, i);
    assert(runtime_reports(node_id, capabilities, now, (j + 1) as nat) == runtime_reports(
        node_id,
        capabilities,
        now,
        j as nat,
    ) + model_reports(node_id, capabilities[j], now, models));
    if j < n - 1 {
        law_every_runtime_is_reported(node_id, capabilities, now, (n - 1) as nat, j, i);
    }
}

/// A report names its node, its runtime, its model and its moment; only the built-in runtime is said to be
/// measured.
pub proof fn law_a_report_says_what_it_is_on(
    node_id: Uuid,
    runtime: Seq<char>,
    model: Seq<char>,
    now: i128,
)
    ensures
        ({
            let note = benchmark_note(node_id, runtime, model, now);
            &&& note.len() == 12
            &&& note[0] == ("node_id"@, id_json(node_id))
            &&& note[1] == ("runtime"@, JsonView::Text(runtime))
            &&& note[2] == ("model"@, JsonView::Text(model))
            &&& note[10] == (
                "kind"@,
                JsonView::Text(
                    if runtime == "mock"@ {
                        "measured"@
                    } else {
                        "estimated"@
                    },
                ),
            )
            &&& note[9].1 == JsonView::Number(
                if runtime == "mock"@ {
                    5
                } else {
                    1
                },
            )
            &&& note[11] == ("measured_at"@, JsonView::Moment(now))
        }),
{
}

/// A credential is moved back just where a rotation broke off between its two moves: the credential is gone,
/// and the one before it is there. One that is there is never overwritten.
pub proof fn law_only_a_lost_credential_is_moved_back(
    atomic: bool,
    credential_exists: bool,
    backup_exists: bool,
)
    ensures
        credential_exists ==> !needs_recovery(atomic, credential_exists, backup_exists),
        !backup_exists ==> !needs_recovery(atomic, credential_exists, backup_exists),
        atomic ==> !needs_recovery(atomic, credential_exists, backup_exists),
        needs_recovery(false, false, true),
{
}

} // verus!
