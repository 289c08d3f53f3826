//! Workloads, and the bounded queue of leases on which workers carry them out.

use crate::clock::{has_passed, LAST_MOMENT, SECOND};
use crate::ident::Uuid;
use crate::json::{
    field_of, fields2, fields3, fields4, id_json, id_list, ids_json, lemma_fields2, lemma_fields3,
    lemma_fields4, Fields, JsonView,
};
use crate::names::NodeStatus;
use crate::repository::events::{all_logged, logged};
use crate::repository::{
    event, event_of, Attempt, ClusterEvent, Device, EncryptedContent, EventView, Lease, LeaseStatus,
    Node, Repository, RepositoryError, RepositoryView, Workload, WorkloadStatus,
};
use crate::runtime::{RuntimeEventView, WorkerRuntimeEvent};
use crate::table::{lemma_one_more, Table};
use crate::text;
use crate::workload::WorkloadRequest;
use vstd::prelude::*;
use vstd::slice::slice_to_vec;

verus! {

/// How many leases may wait or be worked on at once.
pub const QUEUE_LIMIT: usize = 1_000;

/// Whether a lease waits or is worked on.
pub open spec fn active(lease: Lease) -> bool {
    lease.status == LeaseStatus::Pending || lease.status == LeaseStatus::Leased
}

/// The leases that wait or are worked on.
pub open spec fn active_leases(leases: Map<u128, Lease>) -> Set<u128> {
    Set::new(|k: u128| leases.contains_key(k) && active(leases[k]))
}

/// Whether lease `a` comes before lease `b`: it is older, or as old with a smaller identifier.
pub open spec fn lease_before(leases: Map<u128, Lease>, a: u128, b: u128) -> bool {
    leases[a].created_at < leases[b].created_at || (leases[a].created_at == leases[b].created_at
        && a < b)
}

/// Whether a lease ran out in its first attempt, before anything was put out.
pub open spec fn ran_out(lease: Lease, now: i128) -> bool {
    &&& lease.status == LeaseStatus::Leased
    &&& lease.expires_at matches Some(expiry) && expiry <= now
    &&& !lease.output_started
    &&& lease.attempt == Attempt::First
}

/// Whether a node may claim a lease: it waits for that node, or it ran out there before its output, and
/// its workload is known.
pub open spec fn claimable(v: RepositoryView, id: u128, node_id: Uuid, now: i128) -> bool {
    &&& v.leases.contains_key(id)
    &&& v.leases[id].node_id == node_id
    &&& v.leases[id].status == LeaseStatus::Pending || ran_out(v.leases[id], now)
    &&& v.workloads.contains_key(v.leases[id].workload_id)
}

/// A node that has just polled: unless it is revoked it is seen, and no longer missed.
pub open spec fn polled(device: Device, now: i128) -> Device {
    if device.node.status == NodeStatus::Revoked {
        device
    } else {
        Device {
            node: Node {
                last_seen_at: now,
                status: if device.node.status == NodeStatus::Suspect || device.node.status
                    == NodeStatus::Offline {
                    NodeStatus::Ready
                } else {
                    device.node.status
                },
                ..device.node
            },
            ..device
        }
    }
}

/// A lease that has just been claimed. One that ran out begins its second attempt, whose events are
/// numbered anew.
pub open spec fn claimed(lease: Lease, now: i128) -> Lease {
    let again = ran_out(lease, now);
    Lease {
        status: LeaseStatus::Leased,
        attempt: if again {
            Attempt::Second
        } else {
            lease.attempt
        },
        last_sequence: if again {
            0
        } else {
            lease.last_sequence
        },
        expires_at: Some((now + 30 * SECOND) as i128),
        updated_at: now,
        ..lease
    }
}

/// The state after a node has polled at `now`, without a claim.
pub open spec fn after_poll(v: RepositoryView, node_id: Uuid, now: i128) -> RepositoryView {
    RepositoryView {
        polls: v.polls.insert(node_id, now),
        nodes: if v.nodes.contains_key(node_id) {
            v.nodes.insert(node_id, polled(v.nodes[node_id], now))
        } else {
            v.nodes
        },
        ..v
    }
}

/// The state in which a worker's event leaves its lease, where it ends it.
pub open spec fn lease_outcome(event: RuntimeEventView) -> Option<LeaseStatus> {
    match event {
        RuntimeEventView::Finished { .. } => Some(LeaseStatus::Completed),
        RuntimeEventView::Failure { .. } => Some(LeaseStatus::Interrupted),
        RuntimeEventView::Cancelled => Some(LeaseStatus::Cancelled),
        _ => None,
    }
}

/// The state in which a worker's event leaves its workload, where it ends it.
pub open spec fn workload_outcome(event: RuntimeEventView) -> Option<WorkloadStatus> {
    match event {
        RuntimeEventView::Finished { .. } => Some(WorkloadStatus::Completed),
        RuntimeEventView::Failure { .. } => Some(WorkloadStatus::Interrupted),
        RuntimeEventView::Cancelled => Some(WorkloadStatus::Cancelled),
        _ => None,
    }
}

/// The type of the event that goes with a worker's event.
pub open spec fn worker_event_type(event: RuntimeEventView) -> Seq<char> {
    match event {
        RuntimeEventView::Finished { .. } => "workload.completed"@,
        RuntimeEventView::Failure { .. } => "workload.interrupted"@,
        RuntimeEventView::Cancelled => "workload.cancelled"@,
        RuntimeEventView::TextDelta(_) => "workload.output_started"@,
        _ => "workload.progress"@,
    }
}

/// Whether a lease takes an event of a node with this number: it is that node's, it is being worked
/// on, and the number is greater than all before.
pub open spec fn takes_event(v: RepositoryView, lease_id: u128, node_id: Uuid, sequence: int) -> bool {
    &&& v.leases.contains_key(lease_id)
    &&& v.leases[lease_id].node_id == node_id
    &&& v.leases[lease_id].status == LeaseStatus::Leased
    &&& v.leases[lease_id].last_sequence < sequence
}

/// Whether a worker's event begins the output: a piece of text does, whatever the worker protocol says,
/// and any other event where the protocol says so.
pub open spec fn begins_output(event: RuntimeEventView, starts_output: bool) -> bool {
    starts_output || event is TextDelta
}

/// A lease after an event.
pub open spec fn advanced(
    lease: Lease,
    sequence: i64,
    starts_output: bool,
    outcome: Option<LeaseStatus>,
    now: i128,
) -> Lease {
    Lease {
        last_sequence: sequence,
        output_started: starts_output || lease.output_started,
        status: match outcome {
            Some(status) => status,
            None => lease.status,
        },
        expires_at: Some((now + 30 * SECOND) as i128),
        updated_at: now,
        ..lease
    }
}

/// The workloads after one of them, where it is known, has come to an end.
pub open spec fn ended(
    workloads: Map<u128, Workload>,
    id: u128,
    status: WorkloadStatus,
    now: i128,
) -> Map<u128, Workload> {
    if workloads.contains_key(id) {
        workloads.insert(id, Workload { status, completed_at: Some(now), ..workloads[id] })
    } else {
        workloads
    }
}

/// Whether the time of a lease is up: it was being worked on, or it waited for its second attempt.
pub open spec fn overdue(lease: Lease, now: i128) -> bool {
    &&& lease.expires_at matches Some(expiry) && expiry <= now
    &&& lease.status == LeaseStatus::Leased || (lease.status == LeaseStatus::Pending
        && lease.attempt == Attempt::Second)
}

/// Whether an overdue lease gets another attempt: nothing was put out, and it is the first.
pub open spec fn retryable(lease: Lease) -> bool {
    !lease.output_started && lease.attempt == Attempt::First
}

/// An overdue lease after its recovery.
pub open spec fn recovered(lease: Lease, now: i128) -> Lease {
    if !overdue(lease, now) {
        lease
    } else if retryable(lease) {
        Lease {
            status: LeaseStatus::Pending,
            attempt: Attempt::Second,
            last_sequence: 0,
            expires_at: Some((now + 30 * SECOND) as i128),
            updated_at: now,
            ..lease
        }
    } else {
        Lease { status: LeaseStatus::Interrupted, updated_at: now, ..lease }
    }
}

/// Whether the recovery interrupts some lease of a workload.
pub open spec fn interrupts(leases: Map<u128, Lease>, workload: u128, now: i128) -> bool {
    exists|k: u128| #[trigger]
        leases.contains_key(k) && leases[k].workload_id == workload && overdue(leases[k], now)
            && !retryable(leases[k])
}

/// The state after the recovery of all overdue leases.
pub open spec fn all_recovered(v: RepositoryView, now: i128) -> RepositoryView {
    RepositoryView {
        leases: Map::new(
            |k: u128| v.leases.contains_key(k),
            |k: u128| recovered(v.leases[k], now),
        ),
        workloads: Map::new(
            |k: u128| v.workloads.contains_key(k),
            |k: u128|
                if interrupts(v.leases, k, now) {
                    Workload {
                        status: WorkloadStatus::Interrupted,
                        completed_at: Some(now),
                        ..v.workloads[k]
                    }
                } else {
                    v.workloads[k]
                },
        ),
        ..v
    }
}

/// The event of a lease's recovery.
pub open spec fn recovery_event(id: u128, lease: Lease) -> EventView {
    event_of(
        if retryable(lease) {
            "workload.retry_queued"@
        } else {
            "workload.interrupted"@
        },
        fields4(
            ("workload_id"@, id_json(lease.workload_id)),
            ("lease_id"@, id_json(id)),
            ("attempt"@, JsonView::Number(lease.attempt.count() as int)),
            ("output_started"@, JsonView::Bool(lease.output_started)),
        ),
    )
}

/// An encrypted request as a worker gets it.
pub struct LeasedWorkRecord {
    pub id: Uuid,
    pub workload_id: Uuid,
    pub node_id: Uuid,
    pub attempt: u8,
    pub model: String,
    pub envelope_version: u8,
    pub nonce: Vec<u8>,
    pub ciphertext: Vec<u8>,
    pub maximum_output_tokens: u32,
    pub plan: String,
    pub expires_at: i128,
}

/// Whether a record is that of a lease.
pub open spec fn record_of(record: LeasedWorkRecord, v: RepositoryView, id: u128, now: i128) -> bool {
    let lease = v.leases[id];
    let workload = v.workloads[lease.workload_id];
    &&& record.id == id
    &&& record.workload_id == lease.workload_id
    &&& record.node_id == lease.node_id
    &&& record.attempt == claimed(lease, now).attempt.count()
    &&& record.model == workload.model
    &&& record.envelope_version == lease.envelope_version
    &&& record.nonce@ == lease.nonce@
    &&& record.ciphertext@ == lease.ciphertext@
    &&& record.maximum_output_tokens == lease.maximum_output_tokens
    &&& record.plan == workload.plan
    &&& record.expires_at == now + 30 * SECOND
}

/// What became of an overdue lease.
pub struct ExpiredLeaseAction {
    pub lease_id: Uuid,
    pub retried: bool,
    pub output_started: bool,
    pub event: ClusterEvent,
}

/// What the cancellation of a workload has to stop.
pub struct WorkloadCancellation {
    pub runtime: String,
    pub lease_id: Option<Uuid>,
    pub event: ClusterEvent,
}

/// The leases that actions name, in order.
pub open spec fn action_ids(actions: Seq<ExpiredLeaseAction>) -> Seq<u128> {
    actions.map_values(|action: ExpiredLeaseAction| action.lease_id)
}

/// The events that actions bring, in order.
pub open spec fn action_events(actions: Seq<ExpiredLeaseAction>) -> Seq<EventView> {
    actions.map_values(|action: ExpiredLeaseAction| action.event@)
}

/// Whether `ids` are the overdue leases, each once, the oldest first.
pub open spec fn overdue_in_order(leases: Map<u128, Lease>, ids: Seq<u128>, now: i128) -> bool {
    &&& forall|k: u128| #[trigger]
        ids.contains(k) == (leases.contains_key(k) && overdue(leases[k], now))
    &&& forall|i: int, j: int| 0 <= i < j < ids.len() ==> lease_before(leases, ids[i], ids[j])
}

/// Puts `x`, which is in none of the places of `ids`, where it belongs in the order of the leases.
fn insert_in_order(ids: &mut Vec<u128>, x: u128, leases: &Table<u128, Lease>)
    requires
        leases@.contains_key(x),
        forall|i: int| 0 <= i < old(ids)@.len() ==> leases@.contains_key(#[trigger] old(ids)@[i]),
        forall|i: int| 0 <= i < old(ids)@.len() ==> #[trigger] old(ids)@[i] != x,
        forall|i: int, j: int|
            0 <= i < j < old(ids)@.len() ==> lease_before(leases@, old(ids)@[i], old(ids)@[j]),
    ensures
        forall|k: u128| #[trigger] final(ids)@.contains(k) == (old(ids)@.contains(k) || k == x),
        forall|i: int, j: int|
            0 <= i < j < final(ids)@.len() ==> lease_before(leases@, final(ids)@[i], final(ids)@[j]),
{
    let created: i128 = match leases.get(&x) {
        Some(lease) => lease.created_at,
        None => 0,
    };
    let mut place: usize = ids.len();
    while place > 0
        invariant
            place <= ids@.len(),
            ids@ == old(ids)@,
            leases@.contains_key(x),
            created == leases@[x].created_at,
            forall|i: int| 0 <= i < ids@.len() ==> leases@.contains_key(#[trigger] ids@[i]),
            forall|i: int| place <= i < ids@.len() ==> lease_before(leases@, x, #[trigger] ids@[i]),
        ensures
            place <= ids@.len(),
            ids@ == old(ids)@,
            forall|i: int| place <= i < ids@.len() ==> lease_before(leases@, x, #[trigger] ids@[i]),
            place > 0 ==> !lease_before(leases@, x, ids@[place - 1]),
        decreases place,
    {
        let other: u128 = ids[place - 1];
        let age: i128 = match leases.get(&other) {
            Some(lease) => lease.created_at,
            None => 0,
        };
        if !(created < age || (created == age && x < other)) {
            break;
        }
        place -= 1;
    }
    let ghost before = ids@;
    ids.insert(place, x);
    proof {
        let after = ids@;
        assert(after == before.insert(place as int, x));
        assert forall|k: u128| #[trigger] after.contains(k) == (before.contains(k) || k == x) by {
            if after.contains(k) {
                let i = choose|i: int| 0 <= i < after.len() && after[i] == k;
                if i < place {
                    assert(before[i] == k);
                } else if i > place {
                    assert(before[i - 1] == k);
                }
            }
            if before.contains(k) {
                let i = choose|i: int| 0 <= i < before.len() && before[i] == k;
                if i < place {
                    assert(after[i] == k);
                } else {
                    assert(after[i + 1] == k);
                }
            }
            if k == x {
                assert(after[place as int] == x);
            }
        }
        assert forall|i: int, j: int| 0 <= i < j < after.len() implies lease_before(
            leases@,
            after[i],
            after[j],
        ) by {
            let a = if i < place {
                i
            } else {
                i - 1
            };
            let b = if j < place {
                j
            } else {
                j - 1
            };
            if i != place && j != place {
                assert(after[i] == before[a] && after[j] == before[b]);
            } else if i == place {
                assert(after[j] == before[b]);
            } else {
                assert(after[i] == before[a]);
                assert(before[a] != x);
                if a < place - 1 {
                    assert(lease_before(leases@, before[a], before[place - 1]));
                }
            }
        }
    }
}

/// What a plan says of itself, with the plan as encoded text.
pub struct PlanSummary {
    pub id: Uuid,
    pub strategy: String,
    pub selected_nodes: Vec<Uuid>,
    pub encoded: String,
    pub created_at: i128,
}

/// The event of a workload that starts.
pub open spec fn started_event(id: Uuid, plan: PlanSummary) -> EventView {
    event_of(
        "workload.started"@,
        fields4(
            ("workload_id"@, id_json(id)),
            ("plan_id"@, id_json(plan.id)),
            ("strategy"@, JsonView::Text(plan.strategy@)),
            ("selected_nodes"@, ids_json(plan.selected_nodes@)),
        ),
    )
}

/// The event of a workload that has ended.
pub open spec fn completed_event(id: Uuid, status: WorkloadStatus) -> EventView {
    event_of(
        "workload.completed"@,
        fields2(
            ("workload_id"@, id_json(id)),
            ("status"@, JsonView::Text(workload_word(status))),
        ),
    )
}

/// A lease that waits for its node.
pub open spec fn pending_lease(
    workload_id: Uuid,
    node_id: Uuid,
    content: EncryptedContent,
    maximum_output_tokens: u32,
    now: i128,
) -> Lease {
    Lease {
        workload_id,
        node_id,
        attempt: Attempt::First,
        status: LeaseStatus::Pending,
        envelope_version: content.version,
        nonce: content.nonce,
        ciphertext: content.ciphertext,
        maximum_output_tokens,
        output_started: false,
        last_sequence: 0,
        expires_at: None,
        created_at: now,
        updated_at: now,
    }
}

/// The event of a lease that waits for its node.
pub open spec fn queued_event(workload_id: Uuid, lease_id: Uuid, node_id: Uuid) -> EventView {
    event_of(
        "workload.queued"@,
        fields3(
            ("workload_id"@, id_json(workload_id)),
            ("lease_id"@, id_json(lease_id)),
            ("node_id"@, id_json(node_id)),
        ),
    )
}

/// A workload as it is stored when it starts, with its plan.
pub open spec fn running(workload: WorkloadRequest, plan: PlanSummary) -> Workload {
    Workload {
        model: workload.model,
        runtime: workload.required_runtime,
        class: workload.class,
        policy: workload.policy,
        status: WorkloadStatus::Running,
        created_at: plan.created_at,
        completed_at: None,
        plan_id: plan.id,
        plan: plan.encoded,
    }
}

impl Repository {
    /// Stores a workload as running, with its immutable execution plan.
    pub fn create_workload(
        &mut self,
        workload: &WorkloadRequest,
        plan: PlanSummary,
        now: i128,
    ) -> (r: Result<ClusterEvent, RepositoryError>)
        ensures
            r is Err == old(self)@.workloads.contains_key(workload.id),
            r matches Err(error) ==> error == RepositoryError::Conflict && final(self)@
                == old(self)@,
            r matches Ok(e) ==> e@ == started_event(workload.id, plan) && final(self)@ == logged(
                RepositoryView {
                    workloads: old(self)@.workloads.insert(workload.id, running(*workload, plan)),
                    ..old(self)@
                },
                e@,
                now,
            ),
    {
        let id: Uuid = workload.id;
        if self.workloads.contains(&id) {
            return Err(RepositoryError::Conflict);
        }
        let e = event(
            "workload.started",
            Fields::new().id("workload_id", id).id("plan_id", plan.id).text(
                "strategy",
                plan.strategy.as_str(),
            ).with("selected_nodes", id_list(plan.selected_nodes.as_slice())),
        );
        self.workloads.put(
            id,
            Workload {
                model: workload.model.clone(),
                runtime: workload.required_runtime.clone(),
                class: workload.class,
                policy: workload.policy,
                status: WorkloadStatus::Running,
                created_at: plan.created_at,
                completed_at: None,
                plan_id: plan.id,
                plan: plan.encoded,
            },
        );
        Ok(self.record(e, now))
    }

    /// Marks a running workload as ended without storing generated content.
    pub fn complete_workload(&mut self, id: Uuid, status: WorkloadStatus, now: i128) -> (r: Option<
        ClusterEvent,
    >)
        ensures
            r is Some == (old(self)@.workloads.contains_key(id) && old(self)@.workloads[id].status
                == WorkloadStatus::Running),
            r is None ==> final(self)@ == old(self)@,
            r matches Some(e) ==> e@ == completed_event(id, status) && final(self)@ == logged(
                RepositoryView {
                    workloads: ended(old(self)@.workloads, id, status, now),
                    ..old(self)@
                },
                e@,
                now,
            ),
    {
        match self.workloads.get_mut(&id) {
            Some(workload) => {
                if workload.status != WorkloadStatus::Running {
                    return None;
                }
                workload.status = status;
                workload.completed_at = Some(now);
            },
            None => return None,
        }
        let e = event(
            "workload.completed",
            Fields::new().id("workload_id", id).text("status", workload_to_str(status)),
        );
        Some(self.record(e, now))
    }

    /// How many leases wait or are worked on.
    pub fn active_lease_count(&self) -> (n: usize)
        ensures
            n == active_leases(self@.leases).len(),
            active_leases(self@.leases).finite(),
    {
        let total: usize = self.leases.len();
        let ghost keys = self.leases.keys();
        let ghost leases = self.leases@;
        let ghost mut found: Set<u128> = Set::empty();
        let mut n: usize = 0;
        let mut i: usize = 0;
        while i < total
            invariant
                i <= total == keys.len(),
                n <= i,
                keys == self.leases.keys(),
                leases == self.leases@,
                keys.no_duplicates(),
                forall|k: u128| leases.contains_key(k) == #[trigger] keys.contains(k),
                found.finite(),
                n == found.len(),
                forall|k: u128| #[trigger]
                    found.contains(k) == (keys.take(i as int).contains(k) && active(leases[k])),
            decreases total - i,
        {
            let lease = self.leases.row_at(i);
            proof {
                lemma_one_more(keys, i as int);
            }
            if lease.status == LeaseStatus::Pending || lease.status == LeaseStatus::Leased {
                n += 1;
                proof {
                    found = found.insert(keys[i as int]);
                }
            }
            i += 1;
        }
        assert(keys.take(total as int) =~= keys);
        assert(found =~= active_leases(leases));
        n
    }

    /// Adds one encrypted request to the bounded durable worker queue.
    pub fn create_worker_lease(
        &mut self,
        id: Uuid,
        workload_id: Uuid,
        node_id: Uuid,
        envelope_version: u8,
        nonce: Vec<u8>,
        ciphertext: Vec<u8>,
        maximum_output_tokens: u32,
        now: i128,
    ) -> (r: Result<ClusterEvent, RepositoryError>)
        ensures
            match r {
                Err(error) => {
                    &&& final(self)@ == old(self)@
                    &&& if active_leases(old(self)@.leases).len() >= QUEUE_LIMIT {
                        error == RepositoryError::QueueFull
                    } else {
                        error == RepositoryError::Conflict && old(self)@.leases.contains_key(id)
                    }
                },
                Ok(e) => {
                    &&& active_leases(old(self)@.leases).len() < QUEUE_LIMIT
                    &&& !old(self)@.leases.contains_key(id)
                    &&& final(self)@ == logged(
                        RepositoryView {
                            leases: old(self)@.leases.insert(
                                id,
                                pending_lease(
                                    workload_id,
                                    node_id,
                                    EncryptedContent { version: envelope_version, nonce, ciphertext },
                                    maximum_output_tokens,
                                    now,
                                ),
                            ),
                            ..old(self)@
                        },
                        e@,
                        now,
                    )
                    &&& e@ == queued_event(workload_id, id, node_id)
                },
            },
    {
        if self.active_lease_count() >= QUEUE_LIMIT {
            return Err(RepositoryError::QueueFull);
        }
        if self.leases.contains(&id) {
            return Err(RepositoryError::Conflict);
        }
        self.leases.put(
            id,
            Lease {
                workload_id,
                node_id,
                attempt: Attempt::First,
                status: LeaseStatus::Pending,
                envelope_version,
                nonce,
                ciphertext,
                maximum_output_tokens,
                output_started: false,
                last_sequence: 0,
                expires_at: None,
                created_at: now,
                updated_at: now,
            },
        );
        let e = event(
            "workload.queued",
            Fields::new().id("workload_id", workload_id).id("lease_id", id).id("node_id", node_id),
        );
        Ok(self.record(e, now))
    }

    /// The oldest lease that a node may claim.
    fn oldest_claimable(&self, node_id: Uuid, now: i128) -> (r: Option<Uuid>)
        ensures
            match r {
                Some(id) => claimable(self@, id, node_id, now) && forall|k: u128| #[trigger]
                    claimable(self@, k, node_id, now) ==> k == id || lease_before(self@.leases, id, k),
                None => forall|k: u128| !#[trigger] claimable(self@, k, node_id, now),
            },
    {
        let total: usize = self.leases.len();
        let ghost keys = self.leases.keys();
        let mut best: Option<Uuid> = None;
        let mut best_age: i128 = 0;
        let mut i: usize = 0;
        while i < total
            invariant
                i <= total == keys.len(),
                keys == self.leases.keys(),
                forall|j: int| 0 <= j < total ==> self.leases@.contains_key(#[trigger] keys[j]),
                match best {
                    Some(id) => claimable(self@, id, node_id, now) && best_age
                        == self.leases@[id].created_at && forall|j: int|
                        0 <= j < i && claimable(self@, #[trigger] keys[j], node_id, now) ==> keys[j]
                            == id || lease_before(self@.leases, id, keys[j]),
                    None => forall|j: int|
                        0 <= j < i ==> !claimable(self@, #[trigger] keys[j], node_id, now),
                },
            decreases total - i,
        {
            let id: Uuid = *self.leases.key_at(i);
            let lease = self.leases.row_at(i);
            let expired = match lease.expires_at {
                Some(expiry) => expiry <= now,
                None => false,
            };
            let waits = lease.status == LeaseStatus::Pending || (lease.status == LeaseStatus::Leased
                && expired && !lease.output_started && lease.attempt == Attempt::First);
            if lease.node_id == node_id && waits && self.workloads.contains(
                &lease.workload_id,
            ) {
                let better = match best {
                    Some(known) => lease.created_at < best_age || (lease.created_at == best_age && id
                        < known),
                    None => true,
                };
                if better {
                    best = Some(id);
                    best_age = lease.created_at;
                }
            }
            i += 1;
        }
        proof {
            assert forall|k: u128| claimable(self@, k, node_id, now) implies keys.contains(k) by {
                assert(self.leases@.contains_key(k));
            }
            assert forall|k: u128| #[trigger] claimable(self@, k, node_id, now) implies match best {
                Some(id) => k == id || lease_before(self@.leases, id, k),
                None => false,
            } by {
                assert(keys.contains(k));
                let j = choose|j: int| 0 <= j < keys.len() && keys[j] == k;
                assert(claimable(self@, keys[j], node_id, now));
            }
        }
        best
    }

    /// Marks a worker available and claims its oldest pending or expired pre-output lease for 30
    /// seconds.
    pub fn claim_worker_lease(&mut self, node_id: Uuid, now: i128) -> (r: Option<LeasedWorkRecord>)
        requires
            now <= LAST_MOMENT,
        ensures
            match r {
                Some(record) => {
                    let id = record.id;
                    &&& claimable(old(self)@, id, node_id, now)
                    &&& forall|k: u128| #[trigger]
                        claimable(old(self)@, k, node_id, now) ==> k == id || lease_before(
                            old(self)@.leases,
                            id,
                            k,
                        )
                    &&& record_of(record, old(self)@, id, now)
                    &&& final(self)@ == (RepositoryView {
                        leases: old(self)@.leases.insert(id, claimed(old(self)@.leases[id], now)),
                        ..after_poll(old(self)@, node_id, now)
                    })
                },
                None => {
                    &&& forall|k: u128| !#[trigger] claimable(old(self)@, k, node_id, now)
                    &&& final(self)@ == after_poll(old(self)@, node_id, now)
                },
            },
    {
        self.polls.put(node_id, now);
        if let Some(device) = self.nodes.get_mut(&node_id) {
            if device.node.status != NodeStatus::Revoked {
                device.node.last_seen_at = now;
                if device.node.status == NodeStatus::Suspect || device.node.status
                    == NodeStatus::Offline {
                    device.node.status = NodeStatus::Ready;
                }
            }
        }
        assert(self@ =~= after_poll(old(self)@, node_id, now));
        proof {
            assert forall|k: u128| #[trigger] claimable(self@, k, node_id, now) == claimable(
                old(self)@,
                k,
                node_id,
                now,
            ) by {}
        }
        let id: Uuid = match self.oldest_claimable(node_id, now) {
            Some(id) => id,
            None => {
                assert forall|k: u128| !#[trigger] claimable(old(self)@, k, node_id, now) by {
                    assert(!claimable(self@, k, node_id, now));
                }
                return None;
            },
        };
        assert forall|k: u128| #[trigger] claimable(old(self)@, k, node_id, now) implies k == id
            || lease_before(old(self)@.leases, id, k) by {
            assert(claimable(self@, k, node_id, now));
        }
        let expires_at: i128 = now + 30 * SECOND;
        match self.leases.get_mut(&id) {
            Some(lease) => {
                if lease.status == LeaseStatus::Leased {
                    lease.attempt = Attempt::Second;
                    lease.last_sequence = 0;
                }
                lease.status = LeaseStatus::Leased;
                lease.expires_at = Some(expires_at);
                lease.updated_at = now;
            },
            None => {},
        }
        let lease = match self.leases.get(&id) {
            Some(lease) => lease,
            None => {
                assert(false);
                return None;
            },
        };
        let workload = match self.workloads.get(&lease.workload_id) {
            Some(workload) => workload,
            None => {
                assert(false);
                return None;
            },
        };
        Some(
            LeasedWorkRecord {
                id,
                workload_id: lease.workload_id,
                node_id: lease.node_id,
                attempt: lease.attempt.number(),
                model: workload.model.clone(),
                envelope_version: lease.envelope_version,
                nonce: slice_to_vec(lease.nonce.as_slice()),
                ciphertext: slice_to_vec(lease.ciphertext.as_slice()),
                maximum_output_tokens: lease.maximum_output_tokens,
                plan: workload.plan.clone(),
                expires_at,
            },
        )
    }
}

/// Whether one of the first `m` leases of a list ends its workload when it is recovered.
spec fn ends_workload(leases: Map<u128, Lease>, ids: Seq<u128>, m: int, workload: u128) -> bool {
    exists|j: int|
        0 <= j < m && leases[#[trigger] ids[j]].workload_id == workload && !retryable(
            leases[ids[j]],
        )
}

/// What is told of an event that a lease took.
pub open spec fn worker_event_of(
    event: RuntimeEventView,
    workload_id: Uuid,
    lease_id: Uuid,
    node_id: Uuid,
    sequence: int,
) -> EventView {
    event_of(
        worker_event_type(event),
        fields4(
            ("workload_id"@, id_json(workload_id)),
            ("lease_id"@, id_json(lease_id)),
            ("node_id"@, id_json(node_id)),
            ("sequence"@, JsonView::Number(sequence)),
        ),
    )
}

/// The state after a lease took an event: the lease has advanced, and with its last event its
/// workload has ended too.
pub open spec fn worked(
    v: RepositoryView,
    lease_id: Uuid,
    sequence: i64,
    starts_output: bool,
    event: RuntimeEventView,
    now: i128,
) -> RepositoryView {
    let lease = v.leases[lease_id];
    RepositoryView {
        leases: v.leases.insert(
            lease_id,
            advanced(
                lease,
                sequence,
                begins_output(event, starts_output),
                lease_outcome(event),
                now,
            ),
        ),
        workloads: match workload_outcome(event) {
            Some(status) => ended(v.workloads, lease.workload_id, status, now),
            None => v.workloads,
        },
        ..v
    }
}

impl Repository {
    /// Accepts one strictly ordered worker event and persists only content-free state. A piece of text
    /// begins the output; whether another event does, the worker protocol says.
    pub fn accept_worker_event(
        &mut self,
        node_id: Uuid,
        lease_id: Uuid,
        sequence: u64,
        event: &WorkerRuntimeEvent,
        starts_output: bool,
        now: i128,
    ) -> (r: Result<Option<ClusterEvent>, RepositoryError>)
        requires
            now <= LAST_MOMENT,
        ensures
            match r {
                Err(error) => {
                    &&& error == RepositoryError::OutOfRange
                    &&& sequence > i64::MAX
                    &&& final(self)@ == old(self)@
                },
                Ok(None) => {
                    &&& sequence <= i64::MAX
                    &&& !takes_event(old(self)@, lease_id, node_id, sequence as int)
                    &&& final(self)@ == old(self)@
                },
                Ok(Some(e)) => {
                    let lease = old(self)@.leases[lease_id];
                    &&& sequence <= i64::MAX
                    &&& takes_event(old(self)@, lease_id, node_id, sequence as int)
                    &&& e@ == worker_event_of(
                        event@,
                        lease.workload_id,
                        lease_id,
                        node_id,
                        sequence as int,
                    )
                    &&& final(self)@ == logged(
                        worked(
                            old(self)@,
                            lease_id,
                            sequence as i64,
                            starts_output,
                            event@,
                            now,
                        ),
                        e@,
                        now,
                    )
                },
            },
    {
        if sequence > 9_223_372_036_854_775_807u64 {
            return Err(RepositoryError::OutOfRange);
        }
        let number: i64 = sequence as i64;
        let is_delta = matches!(event, WorkerRuntimeEvent::TextDelta { .. });
        let (outcome, status, event_type) = match event {
            WorkerRuntimeEvent::Finished { .. } => (
                Some(LeaseStatus::Completed),
                Some(WorkloadStatus::Completed),
                "workload.completed",
            ),
            WorkerRuntimeEvent::Failure { .. } => (
                Some(LeaseStatus::Interrupted),
                Some(WorkloadStatus::Interrupted),
                "workload.interrupted",
            ),
            WorkerRuntimeEvent::Cancelled => (
                Some(LeaseStatus::Cancelled),
                Some(WorkloadStatus::Cancelled),
                "workload.cancelled",
            ),
            WorkerRuntimeEvent::TextDelta { .. } => (None, None, "workload.output_started"),
            WorkerRuntimeEvent::Loading { .. } => (None, None, "workload.progress"),
            WorkerRuntimeEvent::Prefill { .. } => (None, None, "workload.progress"),
        };
        let workload_id: Uuid = match self.leases.get_mut(&lease_id) {
            Some(lease) => {
                if lease.node_id != node_id || lease.status != LeaseStatus::Leased
                    || lease.last_sequence >= number {
                    return Ok(None);
                }
                lease.last_sequence = number;
                lease.output_started = starts_output || is_delta || lease.output_started;
                if let Some(status) = outcome {
                    lease.status = status;
                }
                lease.expires_at = Some(now + 30 * SECOND);
                lease.updated_at = now;
                lease.workload_id
            },
            None => return Ok(None),
        };
        if let Some(status) = status {
            if let Some(workload) = self.workloads.get_mut(&workload_id) {
                workload.status = status;
                workload.completed_at = Some(now);
            }
        }
        let e = crate::repository::event(
            event_type,
            Fields::new().id("workload_id", workload_id).id("lease_id", lease_id).id(
                "node_id",
                node_id,
            ).number("sequence", number as i128),
        );
        Ok(Some(self.record(e, now)))
    }

    /// The overdue leases, the oldest first.
    fn overdue_leases(&self, now: i128) -> (ids: Vec<u128>)
        ensures
            overdue_in_order(self@.leases, ids@, now),
    {
        let mut ids: Vec<u128> = Vec::new();
        let total: usize = self.leases.len();
        let ghost keys = self.leases.keys();
        let mut i: usize = 0;
        while i < total
            invariant
                i <= total == keys.len(),
                keys == self.leases.keys(),
                keys.no_duplicates(),
                forall|k: u128| self.leases@.contains_key(k) == #[trigger] keys.contains(k),
                forall|k: u128| #[trigger]
                    ids@.contains(k) == (keys.take(i as int).contains(k) && overdue(
                        self.leases@[k],
                        now,
                    )),
                forall|a: int, b: int|
                    0 <= a < b < ids@.len() ==> lease_before(self.leases@, ids@[a], ids@[b]),
            decreases total - i,
        {
            proof {
                lemma_one_more(keys, i as int);
            }
            let id: u128 = *self.leases.key_at(i);
            let lease = self.leases.row_at(i);
            let up = match lease.expires_at {
                Some(expiry) => expiry <= now,
                None => false,
            };
            if up && (lease.status == LeaseStatus::Leased || (lease.status == LeaseStatus::Pending
                && lease.attempt == Attempt::Second)) {
                proof {
                    assert forall|j: int| 0 <= j < ids@.len() implies self.leases@.contains_key(
                        #[trigger] ids@[j],
                    ) && ids@[j] != id by {
                        assert(ids@.contains(ids@[j]));
                        let few = keys.take(i as int);
                        let m = choose|m: int| 0 <= m < few.len() && few[m] == ids@[j];
                        assert(keys[m] == ids@[j]);
                        assert(keys.contains(ids@[j]));
                    }
                    assert(keys.contains(id));
                }
                insert_in_order(&mut ids, id, &self.leases);
            }
            i += 1;
        }
        assert(keys.take(total as int) =~= keys);
        ids
    }

    /// Requeues one pre-output failure once, then interrupts expired leases deterministically.
    pub fn reconcile_worker_leases(&mut self, now: i128) -> (actions: Vec<ExpiredLeaseAction>)
        requires
            now <= LAST_MOMENT,
        ensures
            final(self)@ == all_logged(
                all_recovered(old(self)@, now),
                action_events(actions@),
                now,
            ),
            overdue_in_order(old(self)@.leases, action_ids(actions@), now),
            forall|i: int|
                0 <= i < actions@.len() ==> {
                    let action = #[trigger] actions@[i];
                    let lease = old(self)@.leases[action.lease_id];
                    &&& action.retried == retryable(lease)
                    &&& action.output_started == lease.output_started
                    &&& action.event@ == recovery_event(action.lease_id, lease)
                    &&& action.retried ==> {
                        &&& !action.output_started
                        &&& lease.attempt == Attempt::First
                        &&& final(self)@.leases[action.lease_id].attempt == Attempt::Second
                        &&& final(self)@.leases[action.lease_id].status == LeaseStatus::Pending
                    }
                    &&& !action.retried ==> {
                        &&& final(self)@.leases[action.lease_id].status == LeaseStatus::Interrupted
                        &&& old(self)@.workloads.contains_key(lease.workload_id)
                            ==> final(self)@.workloads[lease.workload_id].status
                            == WorkloadStatus::Interrupted
                    }
                },
    {
        let ids = self.overdue_leases(now);
        let ghost start = old(self)@;
        let mut actions: Vec<ExpiredLeaseAction> = Vec::new();
        let mut i: usize = 0;
        assert(action_ids(actions@) =~= ids@.take(0));
        assert(action_events(actions@) =~= Seq::empty());
        while i < ids.len()
            invariant
                i <= ids@.len(),
                now <= LAST_MOMENT,
                start == old(self)@,
                overdue_in_order(start.leases, ids@, now),
                self@ == all_logged(
                    RepositoryView { leases: self.leases@, workloads: self.workloads@, ..start },
                    action_events(actions@),
                    now,
                ),
                self.leases@.dom() == start.leases.dom(),
                self.workloads@.dom() == start.workloads.dom(),
                forall|k: u128| #[trigger]
                    start.leases.contains_key(k) ==> self.leases@[k] == (if ids@.take(
                        i as int,
                    ).contains(k) {
                        recovered(start.leases[k], now)
                    } else {
                        start.leases[k]
                    }),
                forall|k: u128| #[trigger]
                    start.workloads.contains_key(k) ==> self.workloads@[k] == (if ends_workload(
                        start.leases,
                        ids@,
                        i as int,
                        k,
                    ) {
                        Workload {
                            status: WorkloadStatus::Interrupted,
                            completed_at: Some(now),
                            ..start.workloads[k]
                        }
                    } else {
                        start.workloads[k]
                    }),
                action_ids(actions@) == ids@.take(i as int),
                forall|j: int|
                    0 <= j < actions@.len() ==> {
                        let action = #[trigger] actions@[j];
                        let lease = start.leases[action.lease_id];
                        &&& action.retried == retryable(lease)
                        &&& action.output_started == lease.output_started
                        &&& action.event@ == recovery_event(action.lease_id, lease)
                    },
            decreases ids@.len() - i,
        {
            let id: u128 = ids[i];
            proof {
                assert(ids@.contains(id));
                lemma_ordered_ids_are_distinct(start.leases, ids@);
                lemma_one_more(ids@, i as int);
            }
            let ghost before_workloads = self.workloads@;
            let (workload_id, attempt, output_started) = match self.leases.get(&id) {
                Some(lease) => (lease.workload_id, lease.attempt, lease.output_started),
                None => {
                    assert(false);
                    return actions;
                },
            };
            let ghost lease0 = start.leases[id];
            let retried = !output_started && attempt == Attempt::First;
            if let Some(lease) = self.leases.get_mut(&id) {
                if retried {
                    lease.status = LeaseStatus::Pending;
                    lease.attempt = Attempt::Second;
                    lease.last_sequence = 0;
                    lease.expires_at = Some(now + 30 * SECOND);
                } else {
                    lease.status = LeaseStatus::Interrupted;
                }
                lease.updated_at = now;
            }
            assert(self.leases@[id] == recovered(lease0, now));
            assert(self.leases@.dom() =~= start.leases.dom());
            if !retried {
                if let Some(workload) = self.workloads.get_mut(&workload_id) {
                    workload.status = WorkloadStatus::Interrupted;
                    workload.completed_at = Some(now);
                }
            }
            assert(self.workloads@.dom() =~= start.workloads.dom());
            proof {
                assert forall|k: u128| ends_workload(start.leases, ids@, i + 1, k) == (
                ends_workload(start.leases, ids@, i as int, k) || (k == workload_id && !retried)) by {
                    if ends_workload(start.leases, ids@, i + 1, k) {
                        let j = choose|j: int|
                            0 <= j < i + 1 && start.leases[#[trigger] ids@[j]].workload_id == k
                                && !retryable(start.leases[ids@[j]]);
                        if j < i {
                            assert(start.leases[ids@[j]].workload_id == k);
                        }
                    }
                    if k == workload_id && !retried {
                        assert(start.leases[ids@[i as int]].workload_id == k);
                    }
                }
            }
            let e = event(
                if retried {
                    "workload.retry_queued"
                } else {
                    "workload.interrupted"
                },
                Fields::new().id("workload_id", workload_id).id("lease_id", id).number(
                    "attempt",
                    attempt.number() as i128,
                ).flag("output_started", output_started),
            );
            let e = self.record(e, now);
            let ghost earlier = actions@;
            actions.push(ExpiredLeaseAction { lease_id: id, retried, output_started, event: e });
            assert(action_ids(actions@) =~= action_ids(earlier).push(id));
            proof {
                let told = action_events(actions@);
                assert(told =~= action_events(earlier).push(e@));
                assert(told.drop_last() =~= action_events(earlier));
            }
            assert(ids@.take(i + 1) =~= ids@.take(i as int).push(id));
            i += 1;
        }
        proof {
            assert(ids@.take(i as int) =~= ids@);
            let target = all_recovered(start, now);
            assert(self.leases@ =~= target.leases) by {
                assert forall|k: u128| start.leases.contains_key(k) implies self.leases@[k]
                    == recovered(start.leases[k], now) by {
                    assert(ids@.contains(k) == overdue(start.leases[k], now));
                }
            }
            assert(self.workloads@ =~= target.workloads) by {
                assert forall|k: u128| ends_workload(start.leases, ids@, i as int, k) == interrupts(
                    start.leases,
                    k,
                    now,
                ) by {
                    if ends_workload(start.leases, ids@, i as int, k) {
                        let j = choose|j: int|
                            0 <= j < i && start.leases[#[trigger] ids@[j]].workload_id == k
                                && !retryable(start.leases[ids@[j]]);
                        assert(ids@.contains(ids@[j]));
                        assert(start.leases.contains_key(ids@[j]));
                    }
                    if interrupts(start.leases, k, now) {
                        let lease = choose|m: u128| #[trigger]
                            start.leases.contains_key(m) && start.leases[m].workload_id == k
                                && overdue(start.leases[m], now) && !retryable(start.leases[m]);
                        assert(ids@.contains(lease));
                        let j = choose|j: int| 0 <= j < ids@.len() && ids@[j] == lease;
                        assert(start.leases[ids@[j]].workload_id == k);
                    }
                }
            }
            assert(self@ =~= all_logged(target, action_events(actions@), now));
            assert forall|j: int| 0 <= j < actions@.len() implies {
                let action = #[trigger] actions@[j];
                let lease = start.leases[action.lease_id];
                &&& start.leases.contains_key(action.lease_id) && overdue(lease, now)
                &&& !action.retried ==> interrupts(start.leases, lease.workload_id, now)
            } by {
                let action = actions@[j];
                assert(action_ids(actions@)[j] == action.lease_id);
                assert(ids@.contains(ids@[j]));
                assert(start.leases.contains_key(action.lease_id));
            }
        }
        actions
    }

    /// The newest lease of a workload that waits or is worked on.
    fn newest_active_lease(&self, workload_id: Uuid) -> (r: Option<Uuid>)
        ensures
            match r {
                Some(id) => newest_active(self@.leases, id, workload_id),
                None => forall|k: u128| !#[trigger] active_of(self@.leases, k, workload_id),
            },
    {
        let total: usize = self.leases.len();
        let ghost keys = self.leases.keys();
        let mut best: Option<Uuid> = None;
        let mut best_age: i128 = 0;
        let mut i: usize = 0;
        while i < total
            invariant
                i <= total == keys.len(),
                keys == self.leases.keys(),
                forall|j: int| 0 <= j < total ==> self.leases@.contains_key(#[trigger] keys[j]),
                match best {
                    Some(id) => active_of(self@.leases, id, workload_id) && best_age
                        == self.leases@[id].created_at && forall|j: int|
                        0 <= j < i && active_of(self@.leases, #[trigger] keys[j], workload_id)
                            ==> self.leases@[keys[j]].created_at <= best_age,
                    None => forall|j: int|
                        0 <= j < i ==> !active_of(self@.leases, #[trigger] keys[j], workload_id),
                },
            decreases total - i,
        {
            let id: Uuid = *self.leases.key_at(i);
            let lease = self.leases.row_at(i);
            if lease.workload_id == workload_id && (lease.status == LeaseStatus::Pending
                || lease.status == LeaseStatus::Leased) {
                let better = match best {
                    Some(_) => best_age < lease.created_at,
                    None => true,
                };
                if better {
                    best = Some(id);
                    best_age = lease.created_at;
                }
            }
            i += 1;
        }
        proof {
            assert forall|k: u128| #[trigger] active_of(self@.leases, k, workload_id) implies match best {
                Some(id) => self@.leases[k].created_at <= self@.leases[id].created_at,
                None => false,
            } by {
                assert(keys.contains(k));
                let j = choose|j: int| 0 <= j < keys.len() && keys[j] == k;
                assert(active_of(self@.leases, keys[j], workload_id));
            }
        }
        best
    }

    /// Cancels a running workload and its outstanding lease, in one.
    pub fn cancel_workload(&mut self, workload_id: Uuid, now: i128) -> (r: Option<
        WorkloadCancellation,
    >)
        ensures
            r is Some == (old(self)@.workloads.contains_key(workload_id)
                && old(self)@.workloads[workload_id].status == WorkloadStatus::Running),
            r is None ==> final(self)@ == old(self)@,
            r matches Some(cancellation) ==> {
                &&& cancellation.runtime == old(self)@.workloads[workload_id].runtime
                &&& match cancellation.lease_id {
                    Some(id) => newest_active(old(self)@.leases, id, workload_id),
                    None => forall|k: u128| !#[trigger]
                        active_of(old(self)@.leases, k, workload_id),
                }
                &&& final(self)@ == logged(
                    RepositoryView {
                        workloads: ended(
                            old(self)@.workloads,
                            workload_id,
                            WorkloadStatus::Cancelled,
                            now,
                        ),
                        leases: match cancellation.lease_id {
                            Some(id) => old(self)@.leases.insert(
                                id,
                                Lease {
                                    status: LeaseStatus::Cancelled,
                                    updated_at: now,
                                    ..old(self)@.leases[id]
                                },
                            ),
                            None => old(self)@.leases,
                        },
                        ..old(self)@
                    },
                    cancellation.event@,
                    now,
                )
                &&& cancellation.event@ == event_of(
                    "workload.cancelled"@,
                    fields2(
                        ("workload_id"@, id_json(workload_id)),
                        ("remote_lease"@, JsonView::Bool(cancellation.lease_id is Some)),
                    ),
                )
            },
    {
        let runtime = match self.workloads.get_mut(&workload_id) {
            Some(workload) => {
                if workload.status != WorkloadStatus::Running {
                    return None;
                }
                workload.status = WorkloadStatus::Cancelled;
                workload.completed_at = Some(now);
                workload.runtime.clone()
            },
            None => return None,
        };
        assert(runtime == old(self)@.workloads[workload_id].runtime);
        assert(self@.leases == old(self)@.leases);
        let lease_id = self.newest_active_lease(workload_id);
        if let Some(id) = lease_id {
            if let Some(lease) = self.leases.get_mut(&id) {
                lease.status = LeaseStatus::Cancelled;
                lease.updated_at = now;
            }
        }
        let e = event(
            "workload.cancelled",
            Fields::new().id("workload_id", workload_id).flag("remote_lease", lease_id.is_some()),
        );
        let e = self.record(e, now);
        Some(WorkloadCancellation { runtime, lease_id, event: e })
    }

    /// The workers that polled recently enough to accept a new lease, in the order of their
    /// identifiers.
    pub fn available_workers(&self, now: i128) -> (ids: Vec<Uuid>)
        ensures
            forall|id: Uuid| #[trigger] ids@.contains(id) == available(self@, id, now),
            forall|i: int, j: int| 0 <= i < j < ids@.len() ==> ids@[i] < ids@[j],
    {
        let mut ids: Vec<Uuid> = Vec::new();
        let total: usize = self.polls.len();
        let ghost keys = self.polls.keys();
        let mut i: usize = 0;
        while i < total
            invariant
                i <= total == keys.len(),
                keys == self.polls.keys(),
                keys.no_duplicates(),
                forall|k: u128| self.polls@.contains_key(k) == #[trigger] keys.contains(k),
                forall|k: u128| #[trigger]
                    ids@.contains(k) == (keys.take(i as int).contains(k) && available(
                        self@,
                        k,
                        now,
                    )),
                forall|a: int, b: int| 0 <= a < b < ids@.len() ==> ids@[a] < ids@[b],
            decreases total - i,
        {
            proof {
                lemma_one_more(keys, i as int);
                assert(keys.contains(keys[i as int]));
            }
            let id: Uuid = *self.polls.key_at(i);
            let last_poll: i128 = *self.polls.row_at(i);
            let ready = match self.nodes.get(&id) {
                Some(device) => device.node.status == NodeStatus::Ready,
                None => false,
            };
            if ready && !has_passed(15_000_000_001, last_poll, now) {
                insert_sorted(&mut ids, id);
            }
            i += 1;
        }
        assert(keys.take(total as int) =~= keys);
        ids
    }
}

/// Whether a worker may get new leases: it is ready and polled in the last 15 seconds.
pub open spec fn available(v: RepositoryView, id: Uuid, now: i128) -> bool {
    &&& v.polls.contains_key(id)
    &&& now - v.polls[id] <= 15 * SECOND
    &&& v.nodes.contains_key(id)
    &&& v.nodes[id].node.status == NodeStatus::Ready
}

/// Puts a number that is not there yet in its place among increasing numbers.
fn insert_sorted(ids: &mut Vec<u128>, x: u128)
    requires
        !old(ids)@.contains(x),
        forall|a: int, b: int| 0 <= a < b < old(ids)@.len() ==> old(ids)@[a] < old(ids)@[b],
    ensures
        forall|k: u128| #[trigger] final(ids)@.contains(k) == (old(ids)@.contains(k) || k == x),
        forall|a: int, b: int| 0 <= a < b < final(ids)@.len() ==> final(ids)@[a] < final(ids)@[b],
{
    let mut place: usize = ids.len();
    while place > 0 && ids[place - 1] > x
        invariant
            place <= ids@.len(),
            ids@ == old(ids)@,
            forall|i: int| place <= i < ids@.len() ==> x < #[trigger] ids@[i],
        decreases place,
    {
        place -= 1;
    }
    let ghost before = ids@;
    ids.insert(place, x);
    proof {
        let after = ids@;
        assert forall|k: u128| #[trigger] after.contains(k) == (before.contains(k) || k == x) by {
            if after.contains(k) {
                let i = choose|i: int| 0 <= i < after.len() && after[i] == k;
                if i < place {
                    assert(before[i] == k);
                } else if i > place {
                    assert(before[i - 1] == k);
                }
            }
            if before.contains(k) {
                let i = choose|i: int| 0 <= i < before.len() && before[i] == k;
                if i < place {
                    assert(after[i] == k);
                } else {
                    assert(after[i + 1] == k);
                }
            }
            if k == x {
                assert(after[place as int] == x);
            }
        }
        if place > 0 {
            assert(before.contains(before[place - 1]));
        }
    }
}

/// Whether a lease belongs to a workload and waits or is worked on.
pub open spec fn active_of(leases: Map<u128, Lease>, id: u128, workload_id: Uuid) -> bool {
    leases.contains_key(id) && leases[id].workload_id == workload_id && active(leases[id])
}

/// Whether no lease of the workload that waits or is worked on is newer than this one.
pub open spec fn newest_active(leases: Map<u128, Lease>, id: u128, workload_id: Uuid) -> bool {
    &&& active_of(leases, id, workload_id)
    &&& forall|k: u128| #[trigger]
        active_of(leases, k, workload_id) ==> leases[k].created_at <= leases[id].created_at
}

proof fn lemma_ordered_ids_are_distinct(leases: Map<u128, Lease>, ids: Seq<u128>)
    requires
        forall|i: int, j: int| 0 <= i < j < ids.len() ==> lease_before(leases, ids[i], ids[j]),
    ensures
        ids.no_duplicates(),
{
    assert forall|i: int, j: int| 0 <= i < ids.len() && 0 <= j < ids.len() && i != j implies ids[i]
        != ids[j] by {
        if i < j {
            assert(lease_before(leases, ids[i], ids[j]));
        } else {
            assert(lease_before(leases, ids[j], ids[i]));
        }
    }
}

/// The word for the state of a workload.
pub open spec fn workload_word(status: WorkloadStatus) -> Seq<char> {
    match status {
        WorkloadStatus::Running => "running"@,
        WorkloadStatus::Completed => "completed"@,
        WorkloadStatus::Cancelled => "cancelled"@,
        WorkloadStatus::Interrupted => "interrupted"@,
    }
}

/// The word for the state of a workload.
pub fn workload_to_str(status: WorkloadStatus) -> (word: &'static str)
    ensures
        word@ == workload_word(status),
{
    match status {
        WorkloadStatus::Running => "running",
        WorkloadStatus::Completed => "completed",
        WorkloadStatus::Cancelled => "cancelled",
        WorkloadStatus::Interrupted => "interrupted",
    }
}

// ------------------------------------------------------------------------------------------------
// Laws

/// A lease is claimed once: after a claim no node can claim it before it runs out, and one that was
/// claimed a second time cannot be claimed at all.
pub proof fn law_a_lease_is_claimed_once(
    v: RepositoryView,
    id: u128,
    node_id: Uuid,
    other: Uuid,
    now: i128,
    later: i128,
)
    requires
        claimable(v, id, node_id, now),
        now <= LAST_MOMENT,
        later < now + 30 * SECOND || claimed(v.leases[id], now).attempt == Attempt::Second,
    ensures
        !claimable(
            (RepositoryView {
                leases: v.leases.insert(id, claimed(v.leases[id], now)),
                ..after_poll(v, node_id, now)
            }),
            id,
            other,
            later,
        ),
{
}

/// The events of a lease are strictly ordered: after one is taken, none with its number or a smaller
/// one is, and after a terminal one none at all.
pub proof fn law_events_are_strictly_ordered(
    v: RepositoryView,
    lease_id: u128,
    node_id: Uuid,
    sequence: i64,
    starts_output: bool,
    event: RuntimeEventView,
    later: int,
    now: i128,
)
    requires
        takes_event(v, lease_id, node_id, sequence as int),
        later <= sequence || event.terminal(),
    ensures
        !takes_event(
            (RepositoryView {
                leases: v.leases.insert(
                    lease_id,
                    advanced(v.leases[lease_id], sequence, starts_output, lease_outcome(event), now),
                ),
                ..v
            }),
            lease_id,
            node_id,
            later,
        ),
{
}

/// A lease that has ended stays as it is: it takes no event, cannot be claimed, and is not recovered.
pub proof fn law_ended_leases_stay(
    v: RepositoryView,
    id: u128,
    node_id: Uuid,
    sequence: int,
    now: i128,
)
    requires
        v.leases.contains_key(id),
        !active(v.leases[id]),
    ensures
        !claimable(v, id, node_id, now),
        !takes_event(v, id, node_id, sequence),
        all_recovered(v, now).leases[id] == v.leases[id],
{
}

/// What the recovery of overdue leases does: one is tried again only where nothing was put out, and goes
/// from its first attempt to its second; any other is interrupted, and its workload with it.
pub proof fn law_recovery_retries_or_interrupts(v: RepositoryView, id: u128, now: i128)
    requires
        v.leases.contains_key(id),
        overdue(v.leases[id], now),
    ensures
        ({
            let lease = v.leases[id];
            let after = all_recovered(v, now);
            if retryable(lease) {
                &&& !lease.output_started && lease.attempt == Attempt::First
                &&& after.leases[id].status == LeaseStatus::Pending
                &&& after.leases[id].attempt == Attempt::Second
            } else {
                &&& after.leases[id].status == LeaseStatus::Interrupted
                &&& v.workloads.contains_key(lease.workload_id)
                    ==> after.workloads[lease.workload_id].status == WorkloadStatus::Interrupted
            }
        }),
        v.leases[id].output_started ==> !retryable(v.leases[id]),
{
    if !retryable(v.leases[id]) {
        assert(interrupts(v.leases, v.leases[id].workload_id, now));
    }
}

/// Whether a claim makes one lease of another.
pub open spec fn by_claim(a: Lease, b: Lease, now: i128) -> bool {
    (a.status == LeaseStatus::Pending || ran_out(a, now)) && b == claimed(a, now)
}

/// Whether a worker's event makes one lease of another.
pub open spec fn by_event(
    a: Lease,
    b: Lease,
    sequence: i64,
    starts_output: bool,
    event: RuntimeEventView,
    now: i128,
) -> bool {
    &&& a.status == LeaseStatus::Leased && a.last_sequence < sequence
    &&& b == advanced(a, sequence, begins_output(event, starts_output), lease_outcome(event), now)
}

/// Whether the recovery of overdue leases makes one lease of another.
pub open spec fn by_recovery(a: Lease, b: Lease, now: i128) -> bool {
    b == recovered(a, now)
}

/// Whether a cancellation makes one lease of another.
pub open spec fn by_cancellation(a: Lease, b: Lease, now: i128) -> bool {
    active(a) && b == (Lease { status: LeaseStatus::Cancelled, updated_at: now, ..a })
}

/// Whether a transaction may make one lease of another: it leaves it alone, claims it, takes an event,
/// recovers or cancels it.
pub open spec fn moves(a: Lease, b: Lease) -> bool {
    ||| a == b
    ||| exists|now: i128| #[trigger] by_claim(a, b, now)
    ||| exists|sequence: i64, starts_output: bool, event: RuntimeEventView, now: i128| #[trigger]
        by_event(a, b, sequence, starts_output, event, now)
    ||| exists|now: i128| #[trigger] by_recovery(a, b, now)
    ||| exists|now: i128| #[trigger] by_cancellation(a, b, now)
}

/// Whether a lease is tried again: another attempt begins.
pub open spec fn tried_again(a: Lease, b: Lease) -> bool {
    a.attempt != b.attempt
}

/// What becomes of a lease, one transaction after the other.
pub open spec fn lease_story(story: Seq<Lease>) -> bool {
    forall|i: int| 0 <= i < story.len() - 1 ==> #[trigger] moves(story[i], story[i + 1])
}

/// Every transaction on leases moves each lease that there is as a lease may move.
pub proof fn law_transactions_move_leases(
    v: RepositoryView,
    id: u128,
    lease_id: u128,
    node_id: Uuid,
    sequence: i64,
    starts_output: bool,
    event: RuntimeEventView,
    now: i128,
)
    requires
        v.leases.contains_key(id),
        v.leases.contains_key(lease_id),
    ensures
        claimable(v, lease_id, node_id, now) ==> moves(
            v.leases[id],
            v.leases.insert(lease_id, claimed(v.leases[lease_id], now))[id],
        ),
        takes_event(v, lease_id, node_id, sequence as int) ==> moves(
            v.leases[id],
            worked(v, lease_id, sequence, starts_output, event, now).leases[id],
        ),
        moves(v.leases[id], all_recovered(v, now).leases[id]),
        active(v.leases[lease_id]) ==> moves(
            v.leases[id],
            v.leases.insert(
                lease_id,
                Lease { status: LeaseStatus::Cancelled, updated_at: now, ..v.leases[lease_id] },
            )[id],
        ),
{
    let lease = v.leases[id];
    if id == lease_id {
        if claimable(v, lease_id, node_id, now) {
            assert(by_claim(lease, claimed(lease, now), now));
        }
        let after = worked(v, lease_id, sequence, starts_output, event, now).leases[id];
        if takes_event(v, lease_id, node_id, sequence as int) {
            assert(by_event(lease, after, sequence, starts_output, event, now));
        }
        let cancelled = Lease { status: LeaseStatus::Cancelled, updated_at: now, ..lease };
        if active(lease) {
            assert(by_cancellation(lease, cancelled, now));
        }
    }
    assert(by_recovery(lease, all_recovered(v, now).leases[id], now));
}

/// A lease that is tried again goes from its first attempt to its second, before anything was put out.
pub proof fn law_a_retry_begins_the_second_attempt(a: Lease, b: Lease)
    requires
        moves(a, b),
    ensures
        tried_again(a, b) ==> a.attempt == Attempt::First && b.attempt == Attempt::Second
            && !a.output_started,
        a.attempt == Attempt::Second ==> b.attempt == Attempt::Second,
        a.output_started ==> b.output_started,
{
}

proof fn lemma_marks_stay(story: Seq<Lease>, i: int, j: int)
    requires
        lease_story(story),
        0 <= i <= j < story.len(),
    ensures
        story[i].attempt == Attempt::Second ==> story[j].attempt == Attempt::Second,
        story[i].output_started ==> story[j].output_started,
    decreases j - i,
{
    if i < j {
        lemma_marks_stay(story, i, j - 1);
        assert(moves(story[j - 1], story[j - 1 + 1]));
        law_a_retry_begins_the_second_attempt(story[j - 1], story[j]);
    }
}

/// Over all transactions a lease is tried again at most once, whether it is requeued or claimed.
pub proof fn law_a_lease_is_retried_at_most_once(story: Seq<Lease>, i: int, j: int)
    requires
        lease_story(story),
        0 <= i < j < story.len() - 1,
        tried_again(story[i], story[i + 1]),
    ensures
        !tried_again(story[j], story[j + 1]),
{
    assert(moves(story[i], story[i + 1]));
    law_a_retry_begins_the_second_attempt(story[i], story[i + 1]);
    lemma_marks_stay(story, i + 1, j);
    assert(moves(story[j], story[j + 1]));
    law_a_retry_begins_the_second_attempt(story[j], story[j + 1]);
}

/// Over all transactions a lease is never tried again after its output began.
pub proof fn law_no_retry_once_output_began(story: Seq<Lease>, i: int, j: int)
    requires
        lease_story(story),
        0 <= i <= j < story.len() - 1,
        story[i].output_started,
    ensures
        !tried_again(story[j], story[j + 1]),
{
    lemma_marks_stay(story, i, j);
    assert(moves(story[j], story[j + 1]));
    law_a_retry_begins_the_second_attempt(story[j], story[j + 1]);
}

/// A piece of text that was taken begins the output, whatever the worker protocol says of it: the lease
/// cannot be claimed again, and is interrupted when its time is up.
pub proof fn law_no_retry_after_a_piece_of_text(
    v: RepositoryView,
    lease_id: u128,
    node_id: Uuid,
    sequence: i64,
    starts_output: bool,
    text: Seq<char>,
    now: i128,
    other: Uuid,
    later: i128,
)
    requires
        takes_event(v, lease_id, node_id, sequence as int),
    ensures
        ({
            let after = worked(
                v,
                lease_id,
                sequence,
                starts_output,
                RuntimeEventView::TextDelta(text),
                now,
            );
            &&& after.leases[lease_id].output_started
            &&& !claimable(after, lease_id, other, later)
            &&& overdue(after.leases[lease_id], later) ==> all_recovered(
                after,
                later,
            ).leases[lease_id].status == LeaseStatus::Interrupted
        }),
{
}

/// A lease is never tried again after output: the mark of output is never taken back, and an overdue
/// lease with it is interrupted.
pub proof fn law_no_retry_after_output(
    lease: Lease,
    sequence: i64,
    starts_output: bool,
    outcome: Option<LeaseStatus>,
    now: i128,
)
    requires
        lease.output_started,
    ensures
        claimed(lease, now).output_started,
        advanced(lease, sequence, starts_output, outcome, now).output_started,
        recovered(lease, now).output_started,
        overdue(lease, now) ==> recovered(lease, now).status == LeaseStatus::Interrupted,
        !ran_out(lease, now),
{
}

/// A revoked node stays revoked when it polls, and is not available.
pub proof fn law_revoked_nodes_are_not_available(v: RepositoryView, node_id: Uuid, now: i128)
    requires
        v.nodes.contains_key(node_id),
        v.nodes[node_id].node.status == NodeStatus::Revoked,
    ensures
        after_poll(v, node_id, now).nodes[node_id] == v.nodes[node_id],
        !available(after_poll(v, node_id, now), node_id, now),
{
}

proof fn lemma_active_shrinks(before: Map<u128, Lease>, after: Map<u128, Lease>)
    requires
        before.dom().finite(),
        forall|k: u128| #[trigger]
            after.contains_key(k) && active(after[k]) ==> before.contains_key(k) && active(before[k]),
    ensures
        active_leases(after).finite(),
        active_leases(after).len() <= active_leases(before).len(),
{
    assert(active_leases(before).subset_of(before.dom()));
    vstd::set_lib::lemma_len_subset(active_leases(before), before.dom());
    assert(active_leases(after).subset_of(active_leases(before)));
    vstd::set_lib::lemma_len_subset(active_leases(after), active_leases(before));
}

/// The queue is bounded: no transaction on leases brings more of them to wait or to be worked on
/// than the limit, where there were no more before.
pub proof fn law_the_queue_is_bounded(
    v: RepositoryView,
    id: u128,
    fresh: Lease,
    sequence: i64,
    starts_output: bool,
    outcome: Option<LeaseStatus>,
    now: i128,
)
    requires
        v.leases.dom().finite(),
        active_leases(v.leases).len() <= QUEUE_LIMIT,
    ensures
        active_leases(v.leases).len() < QUEUE_LIMIT ==> active_leases(
            v.leases.insert(id, fresh),
        ).len() <= QUEUE_LIMIT,
        v.leases.contains_key(id) && active(v.leases[id]) ==> active_leases(
            v.leases.insert(id, claimed(v.leases[id], now)),
        ).len() <= QUEUE_LIMIT,
        v.leases.contains_key(id) && v.leases[id].status == LeaseStatus::Leased ==> active_leases(
            v.leases.insert(id, advanced(v.leases[id], sequence, starts_output, outcome, now)),
        ).len() <= QUEUE_LIMIT,
        active_leases(all_recovered(v, now).leases).len() <= QUEUE_LIMIT,
{
    assert(active_leases(v.leases).subset_of(v.leases.dom()));
    vstd::set_lib::lemma_len_subset(active_leases(v.leases), v.leases.dom());
    let added = v.leases.insert(id, fresh);
    assert(active_leases(added).subset_of(active_leases(v.leases).insert(id)));
    vstd::set_lib::lemma_len_subset(active_leases(added), active_leases(v.leases).insert(id));
    if v.leases.contains_key(id) && active(v.leases[id]) {
        lemma_active_shrinks(v.leases, v.leases.insert(id, claimed(v.leases[id], now)));
    }
    if v.leases.contains_key(id) && v.leases[id].status == LeaseStatus::Leased {
        lemma_active_shrinks(
            v.leases,
            v.leases.insert(id, advanced(v.leases[id], sequence, starts_output, outcome, now)),
        );
    }
    lemma_active_shrinks(v.leases, all_recovered(v, now).leases);
}

/// A lease that takes an event is kept for 30 seconds more: at any moment before that it is not overdue,
/// the recovery leaves it alone, and no node can claim it. From then on, unless the event ended it, it is
/// overdue.
pub proof fn law_an_event_keeps_the_lease(
    v: RepositoryView,
    lease_id: u128,
    node_id: Uuid,
    sequence: i64,
    starts_output: bool,
    event: RuntimeEventView,
    now: i128,
    other: Uuid,
    later: i128,
)
    requires
        takes_event(v, lease_id, node_id, sequence as int),
        now <= LAST_MOMENT,
    ensures
        ({
            let after = worked(v, lease_id, sequence, starts_output, event, now);
            &&& later < now + 30_000_000_000 ==> {
                &&& !overdue(after.leases[lease_id], later)
                &&& all_recovered(after, later).leases[lease_id] == after.leases[lease_id]
                &&& !claimable(after, lease_id, other, later)
            }
            &&& later >= now + 30_000_000_000 && !event.terminal() ==> overdue(
                after.leases[lease_id],
                later,
            )
        }),
{
}

/// A report of a worker on its lease, and a moment after it at which overdue leases are recovered.
pub struct Round {
    pub sequence: i64,
    pub starts_output: bool,
    pub event: RuntimeEventView,
    pub reported_at: i128,
    pub recovered_at: i128,
}

/// A lease after reports of its worker, with a recovery after each.
pub open spec fn after_rounds(lease: Lease, rounds: Seq<Round>) -> Lease
    decreases rounds.len(),
{
    if rounds.len() == 0 {
        lease
    } else {
        let round = rounds.last();
        recovered(
            advanced(
                after_rounds(lease, rounds.drop_last()),
                round.sequence,
                begins_output(round.event, round.starts_output),
                lease_outcome(round.event),
                round.reported_at,
            ),
            round.recovered_at,
        )
    }
}

/// A worker that reports at least every 30 seconds never loses its lease to the recovery: however many
/// reports it makes, and whenever overdue leases are recovered in between, the lease stays its own, in
/// the attempt in which it was, and remembers the last report.
pub proof fn law_a_reporting_worker_keeps_its_lease(lease: Lease, rounds: Seq<Round>)
    requires
        lease.status == LeaseStatus::Leased,
        forall|i: int|
            0 <= i < rounds.len() ==> {
                let round = #[trigger] rounds[i];
                &&& !round.event.terminal()
                &&& round.reported_at <= LAST_MOMENT
                &&& round.recovered_at < round.reported_at + 30_000_000_000
            },
    ensures
        ({
            let after = after_rounds(lease, rounds);
            &&& after.status == LeaseStatus::Leased
            &&& after.attempt == lease.attempt
            &&& after.node_id == lease.node_id
            &&& after.workload_id == lease.workload_id
            &&& rounds.len() > 0 ==> after.last_sequence == rounds.last().sequence
            &&& rounds.len() == 0 ==> after == lease
        }),
    decreases rounds.len(),
{
    if rounds.len() > 0 {
        let before = rounds.drop_last();
        assert forall|i: int| 0 <= i < before.len() implies {
            let round = #[trigger] before[i];
            &&& !round.event.terminal()
            &&& round.reported_at <= LAST_MOMENT
            &&& round.recovered_at < round.reported_at + 30_000_000_000
        } by {
            assert(before[i] == rounds[i]);
        }
        law_a_reporting_worker_keeps_its_lease(lease, before);
        assert(rounds.last() == rounds[rounds.len() - 1]);
    }
}

/// A claimed lease is held for 30 seconds: it is not overdue before, and is overdue from then on. What is
/// to be carried out, for which workload and on which node, stays as it was queued.
pub proof fn law_a_claim_holds_for_half_a_minute(lease: Lease, now: i128, later: i128)
    requires
        now <= LAST_MOMENT,
    ensures
        overdue(claimed(lease, now), later) <==> later >= now + 30_000_000_000,
        claimed(lease, now).workload_id == lease.workload_id,
        claimed(lease, now).node_id == lease.node_id,
        claimed(lease, now).envelope_version == lease.envelope_version,
        claimed(lease, now).nonce == lease.nonce,
        claimed(lease, now).ciphertext == lease.ciphertext,
        claimed(lease, now).maximum_output_tokens == lease.maximum_output_tokens,
        claimed(lease, now).output_started == lease.output_started,
        claimed(lease, now).created_at == lease.created_at,
{
}

/// A lease that the recovery requeues waits 30 seconds for its second attempt: its node can claim it, its
/// events are numbered anew then, and it is interrupted only where the time runs out again.
pub proof fn law_a_requeued_lease_waits_for_its_node(
    v: RepositoryView,
    id: u128,
    now: i128,
    claimed_at: i128,
    later: i128,
)
    requires
        v.leases.contains_key(id),
        overdue(v.leases[id], now),
        retryable(v.leases[id]),
        v.workloads.contains_key(v.leases[id].workload_id),
        now <= LAST_MOMENT,
        claimed_at <= LAST_MOMENT,
    ensures
        ({
            let after = all_recovered(v, now);
            let node_id = v.leases[id].node_id;
            let again = RepositoryView {
                leases: after.leases.insert(id, claimed(after.leases[id], claimed_at)),
                ..after_poll(after, node_id, claimed_at)
            };
            &&& overdue(after.leases[id], later) <==> later >= now + 30_000_000_000
            &&& claimable(after, id, node_id, claimed_at)
            &&& again.leases[id].attempt == Attempt::Second
            &&& takes_event(again, id, node_id, 1)
            &&& again.leases[id].ciphertext == v.leases[id].ciphertext
            &&& again.leases[id].nonce == v.leases[id].nonce
            &&& overdue(again.leases[id], later) ==> all_recovered(again, later).leases[id].status
                == LeaseStatus::Interrupted
        }),
{
}

/// Recovering overdue leases once is enough: a second time at the same moment changes nothing.
pub proof fn law_recovery_settles(v: RepositoryView, id: u128, now: i128)
    requires
        v.leases.contains_key(id),
        now <= LAST_MOMENT,
    ensures
        !overdue(all_recovered(v, now).leases[id], now),
        recovered(recovered(v.leases[id], now), now) == recovered(v.leases[id], now),
{
}

/// The recovery touches nothing but overdue leases and the workloads of those that it interrupts.
pub proof fn law_recovery_spares_the_rest(v: RepositoryView, id: u128, workload: u128, now: i128)
    ensures
        v.leases.contains_key(id) <==> all_recovered(v, now).leases.contains_key(id),
        v.leases.contains_key(id) && !overdue(v.leases[id], now) ==> all_recovered(
            v,
            now,
        ).leases[id] == v.leases[id],
        v.workloads.contains_key(workload) <==> all_recovered(v, now).workloads.contains_key(workload),
        v.workloads.contains_key(workload) && (forall|k: u128|
            v.leases.contains_key(k) && #[trigger] v.leases[k].workload_id == workload
                && overdue(v.leases[k], now) ==> !v.leases[k].output_started && v.leases[k].attempt
                == Attempt::First) ==> all_recovered(v, now).workloads[workload]
            == v.workloads[workload],
        all_recovered(v, now).nodes == v.nodes,
        all_recovered(v, now).events == v.events,
{
    if interrupts(v.leases, workload, now) {
        let k = choose|k: u128| #[trigger]
            v.leases.contains_key(k) && v.leases[k].workload_id == workload && overdue(
                v.leases[k],
                now,
            ) && !retryable(v.leases[k]);
        assert(v.leases[k].workload_id == workload);
    }
}

/// The event that ends a lease ends its workload in the same way and dates it; any other event leaves
/// every workload alone, and the lease takes the next number.
pub proof fn law_the_last_event_ends_the_workload(
    v: RepositoryView,
    lease_id: u128,
    node_id: Uuid,
    sequence: i64,
    starts_output: bool,
    event: RuntimeEventView,
    now: i128,
)
    requires
        takes_event(v, lease_id, node_id, sequence as int),
        v.workloads.contains_key(v.leases[lease_id].workload_id),
    ensures
        ({
            let after = worked(v, lease_id, sequence, starts_output, event, now);
            let lease = after.leases[lease_id];
            let workload = after.workloads[v.leases[lease_id].workload_id];
            &&& event is Finished ==> lease.status == LeaseStatus::Completed && workload.status
                == WorkloadStatus::Completed
            &&& event is Failure ==> lease.status == LeaseStatus::Interrupted && workload.status
                == WorkloadStatus::Interrupted
            &&& event is Cancelled ==> lease.status == LeaseStatus::Cancelled && workload.status
                == WorkloadStatus::Cancelled
            &&& event.terminal() ==> workload.completed_at == Some(now) && !active(lease)
            &&& !event.terminal() ==> {
                &&& after.workloads == v.workloads
                &&& takes_event(after, lease_id, node_id, sequence + 1)
            }
            &&& workload.model == v.workloads[v.leases[lease_id].workload_id].model
            &&& workload.plan == v.workloads[v.leases[lease_id].workload_id].plan
            &&& lease.workload_id == v.leases[lease_id].workload_id
            &&& lease.node_id == v.leases[lease_id].node_id
            &&& lease.attempt == v.leases[lease_id].attempt
            &&& lease.ciphertext == v.leases[lease_id].ciphertext
            &&& lease.nonce == v.leases[lease_id].nonce
            &&& forall|k: u128|
                k != lease_id && v.leases.contains_key(k) ==> #[trigger] after.leases[k]
                    == v.leases[k]
            &&& forall|k: u128|
                k != v.leases[lease_id].workload_id && v.workloads.contains_key(k)
                    ==> #[trigger] after.workloads[k] == v.workloads[k]
        }),
{
}

/// A request that was queued for a node can be claimed by that node and by no other, as soon as its
/// workload is known, and carries what was queued; it waits without a deadline until then.
pub proof fn law_a_queued_request_waits_for_its_node(
    v: RepositoryView,
    id: u128,
    workload_id: Uuid,
    node_id: Uuid,
    content: EncryptedContent,
    maximum_output_tokens: u32,
    now: i128,
    other: Uuid,
    later: i128,
    record: LeasedWorkRecord,
)
    requires
        v.workloads.contains_key(workload_id),
    ensures
        ({
            let lease = pending_lease(workload_id, node_id, content, maximum_output_tokens, now);
            let after = RepositoryView { leases: v.leases.insert(id, lease), ..v };
            &&& claimable(after, id, other, later) <==> other == node_id
            &&& !overdue(lease, later)
            &&& record_of(record, after, id, later) ==> {
                &&& record.ciphertext@ == content.ciphertext@
                &&& record.nonce@ == content.nonce@
                &&& record.envelope_version == content.version
                &&& record.maximum_output_tokens == maximum_output_tokens
                &&& record.workload_id == workload_id
                &&& record.node_id == node_id
                &&& record.attempt == 1
                &&& record.model == v.workloads[workload_id].model
                &&& record.plan == v.workloads[workload_id].plan
                &&& record.expires_at == later + 30_000_000_000
            }
            &&& takes_event(
                (RepositoryView { leases: after.leases.insert(id, claimed(lease, later)), ..after }),
                id,
                node_id,
                1,
            )
        }),
{
}

/// A workload ends once: after it has ended, in whatever way, neither completing nor cancelling it finds
/// it running; and it ends in the way and at the moment that it was told.
pub proof fn law_a_workload_ends_once(
    workloads: Map<u128, Workload>,
    id: u128,
    status: WorkloadStatus,
    now: i128,
    other: u128,
)
    requires
        workloads.contains_key(id),
        status != WorkloadStatus::Running,
    ensures
        ended(workloads, id, status, now)[id].status != WorkloadStatus::Running,
        ended(workloads, id, status, now)[id].status == status,
        ended(workloads, id, status, now)[id].completed_at == Some(now),
        ended(workloads, id, status, now)[id].plan == workloads[id].plan,
        ended(workloads, id, status, now)[id].created_at == workloads[id].created_at,
        other != id && workloads.contains_key(other) ==> ended(workloads, id, status, now)[other]
            == workloads[other],
        ended(workloads, id, status, now).dom() == workloads.dom(),
{
    assert(ended(workloads, id, status, now).dom() =~= workloads.dom());
}

/// A worker that polls is available for 15 seconds, unless it is revoked or set aside; a node that was
/// missed is ready again, and no other node is touched.
pub proof fn law_a_poll_makes_available(
    v: RepositoryView,
    node_id: Uuid,
    now: i128,
    later: i128,
    other: Uuid,
)
    requires
        v.nodes.contains_key(node_id),
    ensures
        ({
            let after = after_poll(v, node_id, now);
            let before = v.nodes[node_id].node.status;
            &&& before == NodeStatus::Ready || before == NodeStatus::Suspect || before
                == NodeStatus::Offline ==> (available(after, node_id, later) <==> later - now
                <= 15_000_000_000)
            &&& before != NodeStatus::Revoked ==> after.nodes[node_id].node.last_seen_at == now
            &&& other != node_id ==> (available(after, other, later) <==> available(v, other, later))
            &&& after.leases == v.leases
        }),
{
}

/// Of a lease that ran out it is told which one it was, at which attempt, whether there was output, and whether
/// it is tried again: just where there was none and the first attempt failed.
pub proof fn law_recovery_is_told(id: u128, lease: Lease)
    ensures
        ({
            let told = recovery_event(id, lease);
            &&& told.event_type == if !lease.output_started && lease.attempt == Attempt::First {
                "workload.retry_queued"@
            } else {
                "workload.interrupted"@
            }
            &&& field_of(told.payload, "workload_id"@) == Some(id_json(lease.workload_id))
            &&& field_of(told.payload, "lease_id"@) == Some(id_json(id))
            &&& field_of(told.payload, "attempt"@) == Some(JsonView::Number(if lease.attempt == Attempt::First { 1 } else { 2 }))
            &&& field_of(told.payload, "output_started"@) == Some(JsonView::Bool(lease.output_started))
        }),
{
    reveal_strlit("workload_id");
    reveal_strlit("lease_id");
    reveal_strlit("attempt");
    reveal_strlit("output_started");
    assert("workload_id"@.len() == 11);
    assert("lease_id"@.len() == 8);
    assert("attempt"@.len() == 7);
    assert("output_started"@.len() == 14);
    let a = ("workload_id"@, id_json(lease.workload_id));
    let b = ("lease_id"@, id_json(id));
    let c = ("attempt"@, JsonView::Number(if lease.attempt == Attempt::First { 1 } else { 2 }));
    let d = ("output_started"@, JsonView::Bool(lease.output_started));
    lemma_fields4(a, b, c, d, "workload_id"@);
    lemma_fields4(a, b, c, d, "lease_id"@);
    lemma_fields4(a, b, c, d, "attempt"@);
    lemma_fields4(a, b, c, d, "output_started"@);
}

/// Of a workload that starts it is told which plan it follows and on which nodes.
pub proof fn law_a_start_is_told(id: Uuid, plan: PlanSummary)
    ensures
        ({
            let told = started_event(id, plan);
            &&& told.event_type == "workload.started"@
            &&& field_of(told.payload, "workload_id"@) == Some(id_json(id))
            &&& field_of(told.payload, "plan_id"@) == Some(id_json(plan.id))
            &&& field_of(told.payload, "strategy"@) == Some(JsonView::Text(plan.strategy@))
            &&& field_of(told.payload, "selected_nodes"@) == Some(ids_json(plan.selected_nodes@))
        }),
{
    reveal_strlit("workload_id");
    reveal_strlit("plan_id");
    reveal_strlit("strategy");
    reveal_strlit("selected_nodes");
    assert("workload_id"@.len() == 11);
    assert("plan_id"@.len() == 7);
    assert("strategy"@.len() == 8);
    assert("selected_nodes"@.len() == 14);
    let a = ("workload_id"@, id_json(id));
    let b = ("plan_id"@, id_json(plan.id));
    let c = ("strategy"@, JsonView::Text(plan.strategy@));
    let d = ("selected_nodes"@, ids_json(plan.selected_nodes@));
    lemma_fields4(a, b, c, d, "workload_id"@);
    lemma_fields4(a, b, c, d, "plan_id"@);
    lemma_fields4(a, b, c, d, "strategy"@);
    lemma_fields4(a, b, c, d, "selected_nodes"@);
}

/// Of a workload that ends it is told how.
pub proof fn law_an_end_is_told(id: Uuid, status: WorkloadStatus)
    ensures
        ({
            let told = completed_event(id, status);
            &&& told.event_type == "workload.completed"@
            &&& field_of(told.payload, "workload_id"@) == Some(id_json(id))
            &&& field_of(told.payload, "status"@) == Some(JsonView::Text(match status {
                WorkloadStatus::Running => "running"@,
                WorkloadStatus::Completed => "completed"@,
                WorkloadStatus::Cancelled => "cancelled"@,
                WorkloadStatus::Interrupted => "interrupted"@,
            }))
        }),
{
    reveal_strlit("workload_id");
    reveal_strlit("status");
    assert("workload_id"@.len() == 11);
    assert("status"@.len() == 6);
    let a = ("workload_id"@, id_json(id));
    let b = ("status"@, JsonView::Text(match status {
                WorkloadStatus::Running => "running"@,
                WorkloadStatus::Completed => "completed"@,
                WorkloadStatus::Cancelled => "cancelled"@,
                WorkloadStatus::Interrupted => "interrupted"@,
            }));
    lemma_fields2(a, b, "workload_id"@);
    lemma_fields2(a, b, "status"@);
}

/// Of a request that is queued it is told for which node.
pub proof fn law_a_queued_request_is_told(workload_id: Uuid, lease_id: Uuid, node_id: Uuid)
    ensures
        ({
            let told = queued_event(workload_id, lease_id, node_id);
            &&& told.event_type == "workload.queued"@
            &&& field_of(told.payload, "workload_id"@) == Some(id_json(workload_id))
            &&& field_of(told.payload, "lease_id"@) == Some(id_json(lease_id))
            &&& field_of(told.payload, "node_id"@) == Some(id_json(node_id))
        }),
{
    reveal_strlit("workload_id");
    reveal_strlit("lease_id");
    reveal_strlit("node_id");
    assert("workload_id"@.len() == 11);
    assert("lease_id"@.len() == 8);
    assert("node_id"@.len() == 7);
    let a = ("workload_id"@, id_json(workload_id));
    let b = ("lease_id"@, id_json(lease_id));
    let c = ("node_id"@, id_json(node_id));
    lemma_fields3(a, b, c, "workload_id"@);
    lemma_fields3(a, b, c, "lease_id"@);
    lemma_fields3(a, b, c, "node_id"@);
}

/// Of what a worker reports it is told what came of the workload, from which node, and at which number.
pub proof fn law_a_report_is_told(
    event: RuntimeEventView,
    workload_id: Uuid,
    lease_id: Uuid,
    node_id: Uuid,
    sequence: int,
)
    ensures
        ({
            let told = worker_event_of(event, workload_id, lease_id, node_id, sequence);
            &&& told.event_type == match workload_outcome(event) {
                Some(WorkloadStatus::Completed) => "workload.completed"@,
                Some(WorkloadStatus::Interrupted) => "workload.interrupted"@,
                Some(WorkloadStatus::Cancelled) => "workload.cancelled"@,
                _ => if event is TextDelta {
                    "workload.output_started"@
                } else {
                    "workload.progress"@
                },
            }
            &&& field_of(told.payload, "workload_id"@) == Some(id_json(workload_id))
            &&& field_of(told.payload, "lease_id"@) == Some(id_json(lease_id))
            &&& field_of(told.payload, "node_id"@) == Some(id_json(node_id))
            &&& field_of(told.payload, "sequence"@) == Some(JsonView::Number(sequence))
        }),
{
    reveal_strlit("workload_id");
    reveal_strlit("lease_id");
    reveal_strlit("node_id");
    reveal_strlit("sequence");
    assert("workload_id"@.len() == 11);
    assert("lease_id"@.len() == 8);
    assert("node_id"@.len() == 7);
    assert("sequence"@.len() == 8);
    assert("lease_id"@[0] != "sequence"@[0]);
    let a = ("workload_id"@, id_json(workload_id));
    let b = ("lease_id"@, id_json(lease_id));
    let c = ("node_id"@, id_json(node_id));
    let d = ("sequence"@, JsonView::Number(sequence));
    lemma_fields4(a, b, c, d, "workload_id"@);
    lemma_fields4(a, b, c, d, "lease_id"@);
    lemma_fields4(a, b, c, d, "node_id"@);
    lemma_fields4(a, b, c, d, "sequence"@);
}

} // verus!
