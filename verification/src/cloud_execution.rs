//! One cloud execution from its start to its last event: what is sent, what clients are told in which
//! order, and when the usage is settled.

use crate::api::execution::{cloud_request_body, cloud_request_endpoint, cloud_request_json};
use crate::cloud::{
    chat_address, endpoint_fits, executable, fits_as_endpoint, law_price_is_monotone, reserved,
    validate_execution_policy, CloudAdapterPolicy, CloudError, CloudReservation,
};
use crate::cloud_stream::{
    answer_of, cloud_failure, contents_of, law_the_pieces_of_an_answer, request_failure,
    saturated32, sendable, views, CloudStream, StreamView, Tally,
};
use crate::ident::Uuid;
use crate::json::Json;
use crate::repository::events::logged;
use crate::repository::quota::{settled, settled_event, settles, DATABASE_MAX};
use crate::repository::{ClusterEvent, Repository, RepositoryView};
use crate::runtime::{RuntimeEvent, RuntimeEventView};
use crate::text::word_count;
use vstd::prelude::*;
use vstd::utf8::encode_utf8;

verus! {

/// The number one, as the bit pattern of an IEEE 754 double.
pub const WHOLE_PROGRESS: u64 = 0x3FF0_0000_0000_0000;

/// How far a cloud execution is.
#[derive(Clone, Copy, PartialEq, Eq, Structural)]
pub enum CloudPhase {
    /// The request is on its way.
    Requesting,
    /// The answer is being read.
    Reading,
    /// Nothing more is told.
    Over,
}

/// A cloud execution under way.
pub struct CloudExecution {
    workload_id: Uuid,
    stream: CloudStream,
    phase: CloudPhase,
}

/// A cloud execution under way, as values.
#[verifier::ext_equal]
pub struct ExecutionView {
    pub workload_id: Uuid,
    pub stream: StreamView,
    pub phase: CloudPhase,
}

/// What happens to a cloud execution.
pub enum Signal {
    /// The request was answered: whether there was a connection, and a status of success.
    Answered { connected: bool, accepted: bool },
    /// A chunk of the answer came.
    Chunk(Seq<u8>),
    /// The answer broke off.
    BrokenOff,
    /// The answer is at its end; whether its usage could be settled.
    Ended { settled: bool },
}

/// The events as values.
pub open spec fn told(events: Seq<RuntimeEvent>) -> Seq<RuntimeEventView> {
    events.map_values(|event: RuntimeEvent| event@)
}

/// Pieces of text as events.
pub open spec fn delta_events(deltas: Seq<Seq<char>>) -> Seq<RuntimeEventView> {
    deltas.map_values(|delta: Seq<char>| RuntimeEventView::TextDelta(delta))
}

/// An event where there is one.
pub open spec fn any_event(event: Option<RuntimeEventView>) -> Seq<RuntimeEventView> {
    match event {
        Some(event) => seq![event],
        None => Seq::empty(),
    }
}

/// Whether an answer is complete: its completion marker came, and it lies within its reservation.
pub open spec fn complete(stream: StreamView) -> bool {
    &&& stream.tally.finished
    &&& stream.cost() <= stream.reserved_cost
    &&& stream.network() <= stream.reserved_network
}

/// The last event of an answer that is at its end.
pub open spec fn last_event(stream: StreamView, settled: bool) -> RuntimeEventView {
    if !stream.tally.finished {
        cloud_failure(
            "cloud provider ended without a completion marker"@,
            stream.tally.output_started,
        )
    } else if !complete(stream) {
        cloud_failure(
            "cloud provider exceeded its usage reservation"@,
            stream.tally.output_started,
        )
    } else if !settled {
        cloud_failure("cloud usage reconciliation failed"@, stream.tally.output_started)
    } else {
        RuntimeEventView::Finished {
            input_tokens: stream.tally.input_tokens,
            output_tokens: stream.tally.output_tokens,
            finish_reason: stream.tally.finish_reason,
        }
    }
}

/// What a signal makes of an execution, and what it tells clients. One that does not fit the phase
/// makes nothing of it.
pub open spec fn step(e: ExecutionView, signal: Signal) -> (ExecutionView, Seq<RuntimeEventView>) {
    let over = ExecutionView { phase: CloudPhase::Over, ..e };
    match signal {
        Signal::Answered { connected, accepted } if e.phase == CloudPhase::Requesting => {
            if !connected {
                (over, seq![cloud_failure("cloud provider connection failed"@, false)])
            } else if !accepted {
                (over, seq![cloud_failure("cloud provider rejected the request"@, false)])
            } else {
                (ExecutionView { phase: CloudPhase::Reading, ..e }, Seq::empty())
            }
        },
        Signal::Chunk(chunk) if e.phase == CloudPhase::Reading => {
            let failed = e.stream.failed(chunk);
            (
                ExecutionView {
                    stream: e.stream.after(chunk),
                    phase: if failed is Some {
                        CloudPhase::Over
                    } else {
                        CloudPhase::Reading
                    },
                    ..e
                },
                delta_events(e.stream.deltas(chunk)) + any_event(failed),
            )
        },
        Signal::BrokenOff if e.phase == CloudPhase::Reading => {
            (
                over,
                seq![
                    cloud_failure(
                        "cloud provider stream was interrupted"@,
                        e.stream.tally.output_started,
                    ),
                ],
            )
        },
        Signal::Ended { settled } if e.phase == CloudPhase::Reading => {
            (over, seq![last_event(e.stream, settled)])
        },
        _ => (e, Seq::empty()),
    }
}

/// Whether a usage can be settled: an open reservation of the workload covers it.
pub open spec fn can_settle(v: RepositoryView, workload_id: Uuid, cost: u64, network: u64) -> bool {
    &&& cost <= DATABASE_MAX && network <= DATABASE_MAX
    &&& exists|i: int|
        0 <= i < v.cloud_usage.len() && settles(
            #[trigger] v.cloud_usage[i],
            workload_id,
            cost,
            network,
        )
}

/// Whether the state after differs from the one before in that a usage was settled, and that this is
/// logged.
pub open spec fn usage_settled(
    before: RepositoryView,
    after: RepositoryView,
    workload_id: Uuid,
    cost: u64,
    network: u64,
    now: i128,
) -> bool {
    exists|i: int|
        0 <= i < before.cloud_usage.len() && settles(
            #[trigger] before.cloud_usage[i],
            workload_id,
            cost,
            network,
        ) && after == logged(
            RepositoryView {
                cloud_usage: before.cloud_usage.update(
                    i,
                    settled(before.cloud_usage[i], cost, network, now),
                ),
                ..before
            },
            settled_event(workload_id, cost, network),
            now,
        )
}

/// What a cloud execution starts with: what is sent where, and the first event.
pub struct CloudStart {
    pub endpoint: String,
    pub body: Json,
    pub execution: CloudExecution,
    pub event: RuntimeEvent,
}

/// The execution of a request before anything was answered.
pub open spec fn fresh(
    policy: CloudAdapterPolicy,
    input: Seq<char>,
    workload_id: Uuid,
    reservation: CloudReservation,
) -> ExecutionView {
    ExecutionView {
        workload_id,
        stream: StreamView {
            request_bytes: encode_utf8(input).len() as u64,
            response_bytes: 0,
            reserved_cost: reservation.cost_micros,
            reserved_network: reservation.network_bytes,
            input_rate: policy.input_cost_per_million_tokens_micros,
            output_rate: policy.output_cost_per_million_tokens_micros,
            buffer: Seq::empty(),
            tally: Tally {
                output_started: false,
                finished: false,
                input_tokens: saturated32(word_count(input) as int),
                output_tokens: 0,
                finish_reason: "stop"@,
                deltas: Seq::empty(),
            },
        },
        phase: CloudPhase::Requesting,
    }
}

/// Whether a provider stream starts as it should, or is refused for the right reason: its policy has to
/// allow the model and to name an exact endpoint.
pub open spec fn stream_start(
    policy: CloudAdapterPolicy,
    model: Seq<char>,
    input: Seq<char>,
    max_output_tokens: u32,
    workload_id: Uuid,
    reservation: CloudReservation,
    r: Result<CloudStart, CloudError>,
) -> bool {
    match r {
        Ok(start) => {
            &&& executable(&policy, model) && policy.endpoint is Some
            &&& chat_address(policy.endpoint->0@) == Ok::<Seq<char>, CloudError>(start.endpoint@)
            &&& start.body@ == cloud_request_json(model, input, max_output_tokens)
            &&& start.execution@ == fresh(policy, input, workload_id, reservation)
            &&& start.event@ == (RuntimeEventView::Loading { progress: WHOLE_PROGRESS })
        },
        Err(error) => if executable(&policy, model) {
            chat_address(policy.endpoint->0@) == Err::<Seq<char>, CloudError>(error)
        } else {
            error == CloudError::ModelNotEnabled
        },
    }
}

/// Starts one bounded provider stream, unless its endpoint is longer than a URL can be extended.
pub fn try_execute_stream(
    policy: &CloudAdapterPolicy,
    model: &str,
    input: &str,
    max_output_tokens: u32,
    workload_id: Uuid,
    reservation: CloudReservation,
) -> (r: Option<Result<CloudStart, CloudError>>)
    ensures
        r is None == (executable(policy, model@) && !endpoint_fits(policy.endpoint->0@)),
        r matches Some(r) ==> stream_start(
            *policy,
            model@,
            input@,
            max_output_tokens,
            workload_id,
            reservation,
            r,
        ),
{
    if validate_execution_policy(policy, model).is_ok() {
        if let Some(endpoint) = &policy.endpoint {
            if !fits_as_endpoint(endpoint.as_str()) {
                return None;
            }
        }
    }
    Some(execute_stream(policy, model, input, max_output_tokens, workload_id, reservation))
}

/// Starts one bounded provider stream: its policy has to allow the model, and the first event says that
/// the model is loaded.
pub fn execute_stream(
    policy: &CloudAdapterPolicy,
    model: &str,
    input: &str,
    max_output_tokens: u32,
    workload_id: Uuid,
    reservation: CloudReservation,
) -> (r: Result<CloudStart, CloudError>)
    requires
        executable(policy, model@) ==> endpoint_fits(policy.endpoint->0@),
    ensures
        stream_start(
            *policy,
            model@,
            input@,
            max_output_tokens,
            workload_id,
            reservation,
            r,
        ),
{
    let endpoint = match cloud_request_endpoint(policy, model) {
        Ok(endpoint) => endpoint,
        Err(error) => return Err(error),
    };
    Ok(
        CloudStart {
            endpoint,
            body: cloud_request_body(model, input, max_output_tokens),
            execution: CloudExecution {
                workload_id,
                stream: CloudStream::start(policy, input, reservation),
                phase: CloudPhase::Requesting,
            },
            event: RuntimeEvent::Loading { progress: WHOLE_PROGRESS },
        },
    )
}

impl CloudExecution {
    pub closed spec fn view(&self) -> ExecutionView {
        ExecutionView {
            workload_id: self.workload_id,
            stream: self.stream@,
            phase: self.phase,
        }
    }

    /// Whether nothing more is told.
    pub fn is_over(&self) -> (r: bool)
        ensures
            r == (self@.phase == CloudPhase::Over),
    {
        self.phase == CloudPhase::Over
    }

    /// The request was answered, or there was no connection.
    pub fn answered(&mut self, connected: bool, accepted: bool) -> (events: Vec<RuntimeEvent>)
        ensures
            (final(self)@, told(events@)) == step(
                old(self)@,
                Signal::Answered { connected, accepted },
            ),
    {
        let mut events: Vec<RuntimeEvent> = Vec::new();
        if self.phase == CloudPhase::Requesting {
            match request_failure(connected, accepted) {
                Some(event) => {
                    self.phase = CloudPhase::Over;
                    events.push(event);
                },
                None => {
                    self.phase = CloudPhase::Reading;
                },
            }
        }
        assert(told(events@) =~= step(old(self)@, Signal::Answered { connected, accepted }).1);
        events
    }

    /// A chunk of the answer came.
    pub fn receive(&mut self, chunk: &[u8]) -> (events: Vec<RuntimeEvent>)
        ensures
            (final(self)@, told(events@)) == step(old(self)@, Signal::Chunk(chunk@)),
    {
        let mut events: Vec<RuntimeEvent> = Vec::new();
        if self.phase != CloudPhase::Reading {
            assert(told(events@) =~= Seq::<RuntimeEventView>::empty());
            return events;
        }
        let read = self.stream.receive(chunk);
        let deltas = read.deltas;
        let ghost all = delta_events(views(deltas@));
        for delta in it: deltas
            invariant
                all == delta_events(views(it.seq())),
                told(events@) =~= all.take(it.index()),
        {
            let ghost k = it.index();
            let ghost before = events@;
            assert(views(it.seq())[k] == delta@);
            events.push(RuntimeEvent::TextDelta(delta));
            assert(told(events@) =~= told(before).push(RuntimeEventView::TextDelta(delta@)));
            assert(all.take(k + 1) =~= all.take(k).push(all[k]));
        }
        assert(told(events@) =~= all);
        if let Some(event) = read.failure {
            let ghost before = events@;
            events.push(event);
            assert(told(events@) =~= told(before).push(event@));
            self.phase = CloudPhase::Over;
        }
        assert(told(events@) =~= step(old(self)@, Signal::Chunk(chunk@)).1);
        events
    }

    /// The answer broke off.
    pub fn broken_off(&mut self) -> (events: Vec<RuntimeEvent>)
        ensures
            (final(self)@, told(events@)) == step(old(self)@, Signal::BrokenOff),
    {
        let mut events: Vec<RuntimeEvent> = Vec::new();
        if self.phase == CloudPhase::Reading {
            events.push(self.stream.interrupted());
            self.phase = CloudPhase::Over;
        }
        assert(told(events@) =~= step(old(self)@, Signal::BrokenOff).1);
        events
    }

    /// The answer is at its end: where it is complete, its usage is settled first, and only then clients
    /// are told that it is finished.
    pub fn ended(&mut self, repository: &mut Repository, now: i128) -> (r: (
        Vec<RuntimeEvent>,
        Option<ClusterEvent>,
    ))
        ensures
            ({
                let stream = old(self)@.stream;
                let id = old(self)@.workload_id;
                let due = old(self)@.phase == CloudPhase::Reading && complete(stream);
                &&& (final(self)@, told(r.0@)) == step(
                    old(self)@,
                    Signal::Ended { settled: r.1 is Some },
                )
                &&& r.1 is Some == (due && can_settle(
                    old(repository)@,
                    id,
                    stream.cost(),
                    stream.network(),
                ))
                &&& match r.1 {
                    Some(e) => e@ == settled_event(id, stream.cost(), stream.network())
                        && usage_settled(
                        old(repository)@,
                        final(repository)@,
                        id,
                        stream.cost(),
                        stream.network(),
                        now,
                    ),
                    None => final(repository)@ == old(repository)@,
                }
            }),
    {
        let mut events: Vec<RuntimeEvent> = Vec::new();
        if self.phase != CloudPhase::Reading {
            assert(told(events@) =~= Seq::<RuntimeEventView>::empty());
            return (events, None);
        }
        let mut receipt: Option<ClusterEvent> = None;
        match self.stream.finish() {
            Ok(usage) => {
                if let Ok(Some(e)) = repository.complete_cloud_usage(
                    self.workload_id,
                    usage.cost_micros,
                    usage.network_bytes,
                    now,
                ) {
                    receipt = Some(e);
                }
                events.push(self.stream.conclude(receipt.is_some()));
            },
            Err(event) => {
                events.push(event);
            },
        }
        self.phase = CloudPhase::Over;
        assert(told(events@) =~= seq![last_event(old(self)@.stream, receipt is Some)]);
        (events, receipt)
    }
}

// ------------------------------------------------------------------------------------------------
// Laws

/// The execution after the first `n` signals.
pub open spec fn at(e: ExecutionView, signals: Seq<Signal>, n: nat) -> ExecutionView
    decreases n,
{
    if n == 0 {
        e
    } else {
        step(at(e, signals, (n - 1) as nat), signals[n - 1]).0
    }
}

/// What clients are told during the first `n` signals.
pub open spec fn told_by(e: ExecutionView, signals: Seq<Signal>, n: nat) -> Seq<RuntimeEventView>
    decreases n,
{
    if n == 0 {
        Seq::empty()
    } else {
        told_by(e, signals, (n - 1) as nat) + step(
            at(e, signals, (n - 1) as nat),
            signals[n - 1],
        ).1
    }
}

/// All that clients are told, from the first event on.
pub open spec fn whole_story(e: ExecutionView, signals: Seq<Signal>) -> Seq<RuntimeEventView> {
    seq![RuntimeEventView::Loading { progress: WHOLE_PROGRESS }] + told_by(
        e,
        signals,
        signals.len(),
    )
}

/// Whether an event ends an execution.
pub open spec fn terminal(event: RuntimeEventView) -> bool {
    event is Finished || event is Failure || event is Cancelled
}

/// Whether the `n`th signal was the end of a complete answer whose usage was settled.
pub open spec fn earned(e: ExecutionView, signals: Seq<Signal>, n: int) -> bool {
    &&& 0 <= n < signals.len()
    &&& signals[n] == (Signal::Ended { settled: true })
    &&& at(e, signals, n as nat).phase == CloudPhase::Reading
    &&& complete(at(e, signals, n as nat).stream)
}

proof fn lemma_story(e: ExecutionView, signals: Seq<Signal>, n: nat)
    requires
        e.phase != CloudPhase::Over,
        n <= signals.len(),
    ensures
        ({
            let events = told_by(e, signals, n);
            &&& forall|i: int| 0 <= i < events.len() ==> !((#[trigger] events[i]) is Loading)
            &&& forall|i: int|
                0 <= i < events.len() && terminal(#[trigger] events[i]) ==> i == events.len() - 1
                    && at(e, signals, n).phase == CloudPhase::Over
            &&& forall|i: int|
                0 <= i < events.len() && (#[trigger] events[i]) is Finished ==> exists|k: int|
                    0 <= k < n && #[trigger] earned(e, signals, k)
        }),
    decreases n,
{
    if n > 0 {
        let m = (n - 1) as nat;
        lemma_story(e, signals, m);
        let before = told_by(e, signals, m);
        let state = at(e, signals, m);
        let signal = signals[m as int];
        let more = step(state, signal).1;
        let events = told_by(e, signals, n);
        assert(events =~= before + more);
        assert(state.phase == CloudPhase::Over ==> more.len() == 0);
        if more.len() > 0 {
            assert(forall|i: int| 0 <= i < before.len() ==> !terminal(#[trigger] before[i]));
        }
        assert forall|i: int| 0 <= i < events.len() && (#[trigger] events[i]) is Finished implies exists|
            k: int,
        |
            0 <= k < n && #[trigger] earned(e, signals, k) by {
            if i < before.len() {
                assert(before[i] is Finished);
                let k = choose|k: int| 0 <= k < m && #[trigger] earned(e, signals, k);
                assert(earned(e, signals, k));
            } else {
                assert(more[i - before.len()] is Finished);
                assert(earned(e, signals, m as int));
            }
        }
        assert forall|i: int| 0 <= i < events.len() && terminal(#[trigger] events[i]) implies i
            == events.len() - 1 && at(e, signals, n).phase == CloudPhase::Over by {
            if i < before.len() {
                assert(terminal(before[i]));
            } else {
                assert(terminal(more[i - before.len()]));
            }
        }
        assert forall|i: int| 0 <= i < events.len() implies !((#[trigger] events[i]) is Loading) by {
            if i < before.len() {
                assert(!(before[i] is Loading));
            } else {
                assert(!(more[i - before.len()] is Loading));
            }
        }
    }
}

/// What clients are told begins with the loaded model, which they are told once, and ends with the first
/// event that ends an execution.
pub proof fn law_story_has_a_beginning_and_an_end(e: ExecutionView, signals: Seq<Signal>)
    requires
        e.phase == CloudPhase::Requesting,
    ensures
        ({
            let events = whole_story(e, signals);
            &&& events.len() > 0
            &&& events[0] == (RuntimeEventView::Loading { progress: WHOLE_PROGRESS })
            &&& forall|i: int| 0 < i < events.len() ==> !((#[trigger] events[i]) is Loading)
            &&& forall|i: int|
                0 <= i < events.len() && terminal(#[trigger] events[i]) ==> i == events.len() - 1
        }),
{
    lemma_story(e, signals, signals.len());
    let events = whole_story(e, signals);
    let rest = told_by(e, signals, signals.len());
    assert forall|i: int| 0 < i < events.len() implies !((#[trigger] events[i]) is Loading) by {
        assert(events[i] == rest[i - 1]);
    }
    assert forall|i: int| 0 <= i < events.len() && terminal(#[trigger] events[i]) implies i
        == events.len() - 1 by {
        assert(events[i] == rest[i - 1]);
    }
}

/// Clients are told that an execution is finished only where the answer's completion marker came, its
/// cost and its bytes lie within the reservation, and the usage was settled; and it is the last thing
/// that they are told.
pub proof fn law_finished_is_earned(e: ExecutionView, signals: Seq<Signal>, i: int)
    requires
        e.phase == CloudPhase::Requesting,
        0 <= i < whole_story(e, signals).len(),
        whole_story(e, signals)[i] is Finished,
    ensures
        i == whole_story(e, signals).len() - 1,
        exists|k: int| #[trigger] earned(e, signals, k),
{
    lemma_story(e, signals, signals.len());
    let rest = told_by(e, signals, signals.len());
    assert(whole_story(e, signals)[i] == rest[i - 1]);
    assert(terminal(rest[i - 1]));
    let k = choose|k: int| 0 <= k < signals.len() && #[trigger] earned(e, signals, k);
    assert(earned(e, signals, k));
}

/// Once text has been put out, the failure at the end of an answer may not be tried again.
pub proof fn law_no_retry_at_the_end(stream: StreamView, settled: bool)
    requires
        stream.tally.output_started,
    ensures
        last_event(stream, settled) matches RuntimeEventView::Failure { retryable, .. }
            ==> !retryable,
{
}

/// The pieces of text among events, in order.
pub open spec fn pieces_among(events: Seq<RuntimeEventView>) -> Seq<Seq<char>>
    decreases events.len(),
{
    if events.len() == 0 {
        Seq::empty()
    } else {
        match events.last() {
            RuntimeEventView::TextDelta(text) => pieces_among(events.drop_last()).push(text),
            _ => pieces_among(events.drop_last()),
        }
    }
}

proof fn lemma_pieces_of_deltas(deltas: Seq<Seq<char>>)
    ensures
        pieces_among(delta_events(deltas)) == deltas,
    decreases deltas.len(),
{
    if deltas.len() > 0 {
        lemma_pieces_of_deltas(deltas.drop_last());
        assert(delta_events(deltas).drop_last() =~= delta_events(deltas.drop_last()));
        assert(deltas.drop_last().push(deltas.last()) =~= deltas);
    }
}

proof fn lemma_pieces_add_up(a: Seq<RuntimeEventView>, b: Seq<RuntimeEventView>)
    ensures
        pieces_among(a + b) == pieces_among(a) + pieces_among(b),
    decreases b.len(),
{
    if b.len() == 0 {
        assert(a + b =~= a);
        assert(pieces_among(a) + pieces_among(b) =~= pieces_among(a));
    } else {
        lemma_pieces_add_up(a, b.drop_last());
        assert((a + b).drop_last() =~= a + b.drop_last());
        assert((a + b).last() == b.last());
        assert(pieces_among(a + b) =~= pieces_among(a) + pieces_among(b));
    }
}

proof fn lemma_no_piece(event: RuntimeEventView)
    requires
        !(event is TextDelta),
    ensures
        pieces_among(seq![event]).len() == 0,
{
    reveal_with_fuel(pieces_among, 2);
    assert(seq![event].drop_last() =~= Seq::<RuntimeEventView>::empty());
}

/// Clients are told every piece of text that a chunk of an answer holds, in order and as it is, and no
/// other; where the chunk leads to a failure, they are told that after the pieces.
pub proof fn law_clients_are_told_every_piece(e: ExecutionView, chunk: Seq<u8>)
    requires
        e.phase == CloudPhase::Reading,
    ensures
        ({
            let events = step(e, Signal::Chunk(chunk)).1;
            &&& pieces_among(events) == e.stream.deltas(chunk)
            &&& match e.stream.failed(chunk) {
                Some(failure) => events.len() == e.stream.deltas(chunk).len() + 1 && events.last()
                    == failure,
                None => events.len() == e.stream.deltas(chunk).len(),
            }
        }),
{
    let deltas = e.stream.deltas(chunk);
    let failed = e.stream.failed(chunk);
    lemma_pieces_of_deltas(deltas);
    lemma_pieces_add_up(delta_events(deltas), any_event(failed));
    match failed {
        Some(failure) => {
            lemma_no_piece(failure);
        },
        None => {},
    }
    assert(deltas + pieces_among(any_event(failed)) =~= deltas);
}

/// What clients are told of a provider's whole answer: that the model is loaded, then every piece of text
/// that the answer carries, in order, and at last that it is finished, with the counts of the answer;
/// where the completion marker came, the answer lies within its reservation, and its usage is settled.
pub proof fn law_an_answer_is_told_whole(e: ExecutionView, payloads: Seq<Seq<u8>>)
    requires
        e.phase == CloudPhase::Requesting,
        e.stream.buffer.len() == 0,
        e.stream.tally.deltas.len() == 0,
        sendable(payloads),
        !e.stream.over_budget(answer_of(payloads).len() as int),
        complete(e.stream.after(answer_of(payloads))),
    ensures
        ({
            let signals = seq![
                Signal::Answered { connected: true, accepted: true },
                Signal::Chunk(answer_of(payloads)),
                Signal::Ended { settled: true },
            ];
            let events = whole_story(e, signals);
            let tally = e.stream.after(answer_of(payloads)).tally;
            &&& pieces_among(events) == contents_of(payloads)
            &&& events.len() == contents_of(payloads).len() + 2
            &&& events.first() is Loading
            &&& events.last() == (RuntimeEventView::Finished {
                input_tokens: tally.input_tokens,
                output_tokens: tally.output_tokens,
                finish_reason: tally.finish_reason,
            })
        }),
{
    let chunk = answer_of(payloads);
    let signals = seq![
        Signal::Answered { connected: true, accepted: true },
        Signal::Chunk(chunk),
        Signal::Ended { settled: true },
    ];
    law_the_pieces_of_an_answer(e.stream, payloads);
    reveal_with_fuel(at, 4);
    reveal_with_fuel(told_by, 4);
    let reading = at(e, signals, 1);
    assert(reading.phase == CloudPhase::Reading && reading.stream == e.stream);
    law_clients_are_told_every_piece(reading, chunk);
    let pieces = step(reading, Signal::Chunk(chunk)).1;
    let done = at(e, signals, 2);
    let last = step(done, Signal::Ended { settled: true }).1;
    let start = seq![RuntimeEventView::Loading { progress: WHOLE_PROGRESS }];
    assert(whole_story(e, signals) =~= start + pieces + last);
    lemma_pieces_add_up(start, pieces);
    lemma_pieces_add_up(start + pieces, last);
    lemma_no_piece(start[0]);
    lemma_no_piece(last[0]);
    assert(last =~= seq![last[0]]);
    assert(pieces_among(start) + pieces_among(pieces) + pieces_among(last) =~= contents_of(payloads));
}

proof fn lemma_words_within_bytes(input: Seq<char>)
    ensures
        word_count(input) <= input.len(),
        input.len() <= encode_utf8(input).len(),
    decreases input.len(),
{
    if input.len() > 0 {
        lemma_words_within_bytes(input.drop_last());
        lemma_words_within_bytes(input.drop_first());
    }
}

/// An execution never starts beyond its own reservation: before the provider reports anything, what is
/// counted lies within what was reserved for its input.
pub proof fn law_a_fresh_execution_is_covered(
    policy: CloudAdapterPolicy,
    input: Seq<char>,
    max_output_tokens: u32,
    workload_id: Uuid,
    reservation: CloudReservation,
)
    requires
        encode_utf8(input).len() <= u64::MAX,
        (reservation.cost_micros, reservation.network_bytes) == reserved(
            &policy,
            encode_utf8(input).len() as int,
            max_output_tokens as int,
        ),
    ensures
        ({
            let start = fresh(policy, input, workload_id, reservation);
            &&& start.stream.cost() <= start.stream.reserved_cost
            &&& start.stream.network() <= start.stream.reserved_network
            &&& start.stream.network() >= encode_utf8(input).len()
            &&& !start.stream.tally.output_started && !start.stream.tally.finished
            &&& start.phase == CloudPhase::Requesting
        }),
{
    lemma_words_within_bytes(input);
    let bytes = encode_utf8(input).len() as int;
    let counted = saturated32(word_count(input) as int) as int;
    let rate = policy.input_cost_per_million_tokens_micros as int;
    law_price_is_monotone(counted, bytes, rate);
    law_price_is_monotone(
        0,
        max_output_tokens as int,
        policy.output_cost_per_million_tokens_micros as int,
    );
}

/// No failure before the answer's first text keeps a client from trying again, and every failure after
/// it does: what clients are told of retrying and of partial output is the same thing.
pub proof fn law_failures_tell_of_output(e: ExecutionView, signal: Signal, i: int)
    requires
        0 <= i < step(e, signal).1.len(),
        e.phase == CloudPhase::Requesting ==> !e.stream.tally.output_started,
    ensures
        step(e, signal).1[i] matches RuntimeEventView::Failure { retryable, output_started, .. } ==> {
            &&& retryable == !output_started
            &&& output_started == step(e, signal).0.stream.tally.output_started
        },
{
}

/// A settlement changes one use, that of its workload, which then holds what it came to; all others stay, it
/// is told, and nothing else changes.
pub proof fn law_a_settlement_changes_one_use(
    before: RepositoryView,
    after: RepositoryView,
    workload_id: Uuid,
    cost: u64,
    network: u64,
    now: i128,
)
    requires
        usage_settled(before, after, workload_id, cost, network, now),
    ensures
        after.cloud_usage.len() == before.cloud_usage.len(),
        exists|i: int|
            0 <= i < before.cloud_usage.len() && (#[trigger] before.cloud_usage[i]).workload_id
                == workload_id && after.cloud_usage[i].actual == Some((cost, network))
                && after.cloud_usage[i].completed_at == Some(now) && after.cloud_usage
                == before.cloud_usage.update(i, after.cloud_usage[i]),
        after.events.len() == before.events.len() + 1,
        after.events.last().event == settled_event(workload_id, cost, network),
        after.workloads == before.workloads,
        after.leases == before.leases,
        after.cloud_policies == before.cloud_policies,
{
    let i = choose|i: int|
        0 <= i < before.cloud_usage.len() && settles(
            #[trigger] before.cloud_usage[i],
            workload_id,
            cost,
            network,
        ) && after == logged(
            RepositoryView {
                cloud_usage: before.cloud_usage.update(
                    i,
                    settled(before.cloud_usage[i], cost, network, now),
                ),
                ..before
            },
            settled_event(workload_id, cost, network),
            now,
        );
    assert(before.cloud_usage[i].workload_id == workload_id);
    assert(after.cloud_usage =~= before.cloud_usage.update(i, after.cloud_usage[i]));
}

} // verus!
