//! The controller's state and its transactions.

use constellation::cloud::CloudAdapterPolicy;
use constellation::json::Json;
use constellation::names::{NodeStatus, OperatingSystem, Role};
use constellation::repository::controller::{
    next_term, spawn_controller_lease_monitor, ControllerGuard,
};
use constellation::repository::leases::PlanSummary;
use constellation::repository::nodes::InvitationStatus;
use constellation::repository::rows::{RowError, RunColumns};
use constellation::repository::workflows::WorkflowSchedule;
use constellation::repository::{
    EncryptedWorkflowArtifact, AuthProvider, Benchmark, ControllerLease, Credential, EncryptedContent, Grant,
    LeaseStatus, Message, Node, Plugin, PrincipalRow, Repository, RepositoryError, RunStatus,
    ExecutionTraceSpan, Template, TransferTicket, WorkloadStatus,
};
use constellation::runtime::WorkerRuntimeEvent;
use constellation::workload::local_workload;
use sha2::Digest;
use uuid::Uuid;

const SECOND: i128 = 1_000_000_000;
const HOUR: i128 = 3_600 * SECOND;
const DAY: i128 = 24 * HOUR;

fn moment() -> i128 {
    chrono::Utc::now().timestamp_nanos_opt().map_or(1_700_000_000 * SECOND, i128::from)
}

fn new_id() -> u128 {
    Uuid::now_v7().as_u128()
}

fn node(status: NodeStatus, last_seen_at: i128) -> Node {
    Node {
        id: new_id(),
        name: "test node".to_owned(),
        os: OperatingSystem::Linux,
        architecture: "x86_64".to_owned(),
        status,
        capabilities: "{}".to_owned(),
        last_seen_at,
    }
}

fn sealed(byte: u8) -> EncryptedContent {
    EncryptedContent { version: 1, nonce: vec![byte; 24], ciphertext: vec![byte; 8] }
}

/// A workload for a worker, with its plan.
fn add_workload(repository: &mut Repository, worker: u128, now: i128) -> u128 {
    let id = new_id();
    let plan = PlanSummary {
        id: new_id(),
        strategy: "single_node".to_owned(),
        selected_nodes: vec![worker],
        encoded: "{}".to_owned(),
        created_at: now,
    };
    assert!(repository
        .create_workload(&local_workload(id, "constellation/mock", "mock".to_owned()), plan, now)
        .is_ok());
    id
}

fn status_of(repository: &Repository, id: u128) -> Option<NodeStatus> {
    repository.nodes.get(&id).map(|device| device.node.status)
}

#[test]
fn liveness_thresholds_recover_and_revocation_is_terminal() {
    let mut repository = Repository::new();
    let now = moment();
    let stale = node(NodeStatus::Ready, now - 16 * SECOND);
    let offline = node(NodeStatus::Ready, now - 31 * SECOND);
    let (stale_id, offline_id) = (stale.id, offline.id);
    repository.register_node(stale, 0);
    repository.register_node(offline, 0);
    let events = repository.reconcile_liveness(now);
    assert_eq!(events.len(), 2);
    assert_eq!(status_of(&repository, stale_id), Some(NodeStatus::Suspect));
    assert_eq!(status_of(&repository, offline_id), Some(NodeStatus::Offline));
    assert!(repository.heartbeat(stale_id, now).is_some());
    assert!(repository.revoke_node(stale_id, now).is_some());
    assert!(repository.heartbeat(stale_id, now).is_none());
    assert_eq!(status_of(&repository, stale_id), Some(NodeStatus::Revoked));
}

#[test]
fn remote_usage_is_durable_and_month_scoped() {
    let mut repository = Repository::new();
    let cluster = new_id();
    let now = moment();
    assert!(repository
        .record_network_usage(7, cluster, "direct_quic".to_owned(), false, 2_048, 1_500, now)
        .is_ok());
    assert!(repository.transports.get(&7).is_some_and(|record| record.transport == "direct_quic"
        && record.observed_bytes == 1_500
        && record.estimated_bytes == 2_048));
    assert_eq!(
        repository
            .record_network_usage(7, cluster, "direct_quic".to_owned(), false, 1, 1, now)
            .err(),
        Some(RepositoryError::Conflict)
    );
    assert_eq!(repository.network_usage(cluster, now), 1_500);
    assert_eq!(repository.network_usage(cluster, now + 35 * DAY), 0);
}

#[test]
fn encrypted_worker_lease_is_claimed_once_and_orders_events() {
    let mut repository = Repository::new();
    let now = moment();
    let worker = node(NodeStatus::Ready, now);
    let worker_id = worker.id;
    repository.register_node(worker, 0);
    let workload = add_workload(&mut repository, worker_id, now);
    let lease_id = new_id();
    assert!(repository
        .create_worker_lease(
            lease_id,
            workload,
            worker_id,
            1,
            vec![1; 24],
            b"ciphertext-not-content".to_vec(),
            256,
            now,
        )
        .is_ok());
    assert!(repository.available_workers(now).is_empty());
    let claimed = repository.claim_worker_lease(worker_id, now);
    assert!(claimed.is_some_and(|lease| lease.id == lease_id));
    assert_eq!(repository.available_workers(now), vec![worker_id]);
    assert!(repository.claim_worker_lease(worker_id, now).is_none());
    let delta = WorkerRuntimeEvent::TextDelta { text: "private output".to_owned() };
    assert!(repository
        .accept_worker_event(worker_id, lease_id, 1, &delta, true, now)
        .is_ok_and(|event| event.is_some()));
    assert!(repository
        .accept_worker_event(worker_id, lease_id, 1, &delta, true, now)
        .is_ok_and(|event| event.is_none()));
    let finished = WorkerRuntimeEvent::Finished {
        input_tokens: 2,
        output_tokens: 2,
        finish_reason: "stop".to_owned(),
    };
    assert!(repository
        .accept_worker_event(worker_id, lease_id, 2, &finished, false, now)
        .is_ok_and(|event| event.is_some()));
    let stored = repository.leases.get(&lease_id).map(|lease| lease.ciphertext.clone());
    assert_eq!(stored, Some(b"ciphertext-not-content".to_vec()));
    assert_eq!(
        repository.leases.get(&lease_id).map(|lease| lease.status),
        Some(LeaseStatus::Completed)
    );
}

#[test]
fn expired_worker_lease_retries_once_then_interrupts() {
    let mut repository = Repository::new();
    let now = moment();
    let worker = node(NodeStatus::Ready, now);
    let worker_id = worker.id;
    repository.register_node(worker, 0);
    let workload = add_workload(&mut repository, worker_id, now);
    let lease_id = new_id();
    assert!(repository
        .create_worker_lease(
            lease_id,
            workload,
            worker_id,
            1,
            vec![2; 24],
            b"encrypted request".to_vec(),
            32,
            now,
        )
        .is_ok());
    assert!(repository.claim_worker_lease(worker_id, now).is_some());

    let first = repository.reconcile_worker_leases(now + 31 * SECOND);
    assert_eq!(first.len(), 1);
    assert!(first[0].retried);
    assert!(!first[0].output_started);

    let second = repository.reconcile_worker_leases(now + 62 * SECOND);
    assert_eq!(second.len(), 1);
    assert!(!second[0].retried);
    assert!(!second[0].output_started);
    assert_eq!(
        repository.workloads.get(&workload).map(|row| row.status),
        Some(WorkloadStatus::Interrupted)
    );
}

#[test]
fn expired_worker_lease_never_retries_after_output() {
    let mut repository = Repository::new();
    let now = moment();
    let worker = node(NodeStatus::Ready, now);
    let worker_id = worker.id;
    repository.register_node(worker, 0);
    let workload = add_workload(&mut repository, worker_id, now);
    let lease_id = new_id();
    assert!(repository
        .create_worker_lease(
            lease_id,
            workload,
            worker_id,
            1,
            vec![3; 24],
            b"encrypted request".to_vec(),
            32,
            now,
        )
        .is_ok());
    assert!(repository.claim_worker_lease(worker_id, now).is_some());
    let delta = WorkerRuntimeEvent::TextDelta { text: "partial".to_owned() };
    assert!(repository
        .accept_worker_event(worker_id, lease_id, 1, &delta, false, now)
        .is_ok());

    let actions = repository.reconcile_worker_leases(now + 31 * SECOND);
    assert_eq!(actions.len(), 1);
    assert!(!actions[0].retried);
    assert!(actions[0].output_started);
}

fn principal(name: &str, role: Role, key: Option<&str>, now: i128) -> PrincipalRow {
    PrincipalRow {
        name: name.to_owned(),
        role,
        scopes: vec![],
        api_key_sha256: key.map(str::to_owned),
        active: true,
        created_at: now,
    }
}

#[test]
fn browser_sessions_are_hashed_expiring_and_human_only() {
    let mut repository = Repository::new();
    let now = moment();
    let human = new_id();
    repository.put_principal(human, principal("Passkey operator", Role::Operator, None, now), 0);
    let token_hash = format!("{:x}", sha2::Sha256::digest(b"opaque browser token"));
    assert!(repository
        .put_browser_session(token_hash.clone(), human, now + 24 * HOUR, now)
        .is_ok());
    assert_eq!(repository.principal_by_session_hash(&token_hash, now), Some(human));
    assert_eq!(repository.principal_by_session_hash(&token_hash, now + 25 * HOUR), None);
    assert!(repository.sessions.get(&"opaque browser token".to_owned()).is_none());

    let service = new_id();
    repository.put_principal(service, principal("Service", Role::Service, None, now), 0);
    assert!(repository
        .put_browser_session("other".to_owned(), service, now + 24 * HOUR, now)
        .is_ok());
    assert_eq!(repository.principal_by_session_hash("other", now), None);
}

/// Claims the controller lease for a controller, with the next term ready.
fn claim(repository: &mut Repository, id: u128, now: i128) -> Option<ControllerLease> {
    let next = next_term(repository.controller_lease(), id, now, 15);
    let claimed = repository.claim_controller_lease(id, now, 15, next);
    claimed.unwrap_or_else(|error| panic!("{error:?}")).map(|(lease, _)| lease)
}

#[test]
fn controller_claim_renews_and_fences_takeover() {
    let mut repository = Repository::new();
    let now = moment();
    let first_id = new_id();
    let second_id = new_id();
    let first = claim(&mut repository, first_id, now)
        .unwrap_or_else(|| panic!("first controller should acquire"));
    let mut first_guard = ControllerGuard::new(first_id, Some(first));
    assert!(claim(&mut repository, second_id, now + 5 * SECOND).is_none());
    let renewed = claim(&mut repository, first_id, now + 5 * SECOND)
        .unwrap_or_else(|| panic!("first controller should renew"));
    assert_eq!(renewed.term, first.term);
    assert_eq!(renewed.fencing_token, first.fencing_token);
    assert_eq!(renewed.expires_at, now + 20 * SECOND);
    first_guard.update(Some(renewed));
    assert!(first_guard.authorize(repository.controller_lease(), now + 6 * SECOND));
    let takeover = claim(&mut repository, second_id, now + 21 * SECOND)
        .unwrap_or_else(|| panic!("expired lease should be taken over"));
    assert!(takeover.term > renewed.term);
    assert!(takeover.fencing_token > renewed.fencing_token);
    let second_guard = ControllerGuard::new(second_id, Some(takeover));
    assert!(second_guard.authorize(repository.controller_lease(), now + 22 * SECOND));
    assert_eq!(
        second_guard.write_claim(),
        Some((second_id, takeover.term, takeover.fencing_token))
    );
    assert!(!first_guard.authorize(repository.controller_lease(), now + 22 * SECOND));
    assert!(!second_guard.authorize(repository.controller_lease(), now + 36 * SECOND));
    first_guard.update(Some(takeover));
    assert_eq!(first_guard.write_claim(), None);
}

#[test]
fn a_term_that_does_not_follow_is_refused() {
    let mut repository = Repository::new();
    let lease = |controller_id: u128, term: u64, fencing_token: u64| ControllerLease {
        controller_id,
        term,
        fencing_token,
        expires_at: 15 * SECOND,
    };
    assert!(repository
        .claim_controller_lease(1, 0, 15, Some(lease(2, 1, 1)))
        .is_err_and(|error| error == RepositoryError::OutOfRange));
    let lasting = ControllerLease { expires_at: 15 * SECOND + 1, ..lease(1, 4, 4) };
    assert!(repository
        .claim_controller_lease(1, 0, 15, Some(lasting))
        .is_err_and(|error| error == RepositoryError::OutOfRange));
    assert!(repository.claim_controller_lease(1, 0, 15, Some(lease(1, 4, 4))).is_ok());
    for next in [lease(2, 4, 5), lease(2, 5, 4)] {
        let next = ControllerLease { expires_at: 116 * SECOND, ..next };
        assert!(repository
            .claim_controller_lease(2, 101 * SECOND, 15, Some(next))
            .is_err_and(|error| error == RepositoryError::OutOfRange));
    }
    assert_eq!(next_term(repository.controller_lease(), 2, 0, 15).map(|next| next.term), Some(5));
    assert!(next_term(Some(lease(1, u64::MAX, 1)), 1, 0, 15).is_none());
}

#[test]
fn encrypted_workflow_run_recovers_after_repository_restart() {
    let mut repository = Repository::new();
    let now = moment();
    let workflow_id = new_id();
    assert!(repository
        .create_workflow(
            workflow_id,
            "Restart recovery".to_owned(),
            "digest".to_owned(),
            sealed(41),
            now,
        )
        .is_ok());
    let run_id = new_id();
    assert!(repository
        .create_workflow_run(run_id, workflow_id, 1, RunStatus::Running, sealed(42), now)
        .is_ok());
    let row = repository.workflow_run_row(run_id).unwrap_or_else(|| panic!("row of the run"));
    drop(repository);

    let mut reopened = Repository::new();
    assert!(reopened.active_workflow_runs(10).is_empty());
    assert_eq!(reopened.restore_workflow_run(row).ok(), Some(run_id));
    assert_eq!(reopened.active_workflow_runs(10), vec![run_id]);
    let recovered = reopened
        .workflow_run(run_id)
        .unwrap_or_else(|| panic!("recover encrypted run"));
    assert_eq!(recovered.workflow_id, workflow_id);
    assert_eq!(recovered.workflow_revision, 1);
    assert!(recovered.status.is(RunStatus::Running));
    assert_eq!(recovered.content.nonce, vec![42; 24]);
    assert_eq!(recovered.content.ciphertext, vec![42; 8]);
    assert_eq!((recovered.created_at, recovered.updated_at), (now, now));
}

#[test]
fn the_row_of_a_run_reads_back_at_every_moment() {
    for at in [
        0,
        1,
        -1,
        999_999_999,
        -1_000_000_001,
        1_700_000_000 * SECOND + 120,
        i128::from(i64::MAX),
        i128::from(i64::MIN),
        -62_167_219_200 * SECOND,
        253_402_300_800 * SECOND - 1,
    ] {
        let mut repository = Repository::new();
        assert!(repository
            .create_workflow_run(5, 6, u32::MAX, RunStatus::WaitingApproval, sealed(255), at)
            .is_ok());
        let row = repository.workflow_run_row(5).unwrap_or_else(|| panic!("row of the run"));
        let mut reopened = Repository::new();
        assert_eq!(reopened.restore_workflow_run(row).ok(), Some(5), "{at}");
        assert!(reopened.workflow_run(5).is_some_and(|run| run.created_at == at
            && run.workflow_revision == u32::MAX
            && run.status.is(RunStatus::WaitingApproval)));
    }
    let mut repository = Repository::new();
    assert!(repository.create_workflow_run(5, 6, 1, RunStatus::Running, sealed(1), 0).is_ok());
    let row = || repository.workflow_run_row(5).unwrap_or_else(|| panic!("row of the run"));
    let mut reopened = Repository::new();
    for (row, error) in [
        (RunColumns { id: "five".to_owned(), ..row() }, RowError::Identifier),
        (RunColumns { workflow_id: String::new(), ..row() }, RowError::Identifier),
        (RunColumns { workflow_revision: -1, ..row() }, RowError::Number),
        (RunColumns { envelope_version: 256, ..row() }, RowError::Number),
        (RunColumns { created_at: "today".to_owned(), ..row() }, RowError::Moment),
    ] {
        assert_eq!(reopened.restore_workflow_run(row), Err(error));
    }
    assert!(repository.workflow_run_row(6).is_none());
    let asleep = RunColumns { status: "asleep".to_owned(), ..row() };
    assert_eq!(reopened.restore_workflow_run(asleep), Ok(5));
    assert!(reopened.active_workflow_runs(10).is_empty());
    assert!(reopened.workflow_run_row(5).is_some_and(|row| row.status == "asleep"));
    assert!(reopened.workflow_run(5).is_some_and(|run| !run.status.is(RunStatus::Running)
        && run.content.nonce == vec![1; 24]
        && run.workflow_revision == 1));
}

#[test]
fn postgres_repository_contract_smoke() {
    let mut repository = Repository::new();
    let now = moment();
    repository.register_node(node(NodeStatus::Ready, now), now);
    let name = format!("PostgreSQL operator {}", Uuid::now_v7());
    repository.put_principal(new_id(), principal(&name, Role::Operator, None, now), now);
    let team_name = format!("PostgreSQL team {}", Uuid::now_v7());
    assert!(repository.create_team(new_id(), team_name, now).is_ok());
    assert!(!repository.events_after(0, 100).is_empty());
}

#[test]
fn every_change_is_logged() {
    let mut repository = Repository::new();
    let now = moment();
    let worker = node(NodeStatus::Ready, now);
    let worker_id = worker.id;
    repository.register_node(worker, now);
    assert!(repository.create_team(1, "ops".to_owned(), now).is_ok());
    let workload = add_workload(&mut repository, worker_id, now);
    assert!(repository
        .create_worker_lease(9, workload, worker_id, 1, vec![1; 24], vec![2], 8, now)
        .is_ok());
    assert!(claim(&mut repository, 3, now).is_some());
    let events = repository.events_after(0, 100);
    assert_eq!(
        events.iter().map(|event| event.event_type.as_str()).collect::<Vec<_>>(),
        vec![
            "device.registered",
            "team.created",
            "workload.started",
            "workload.queued",
            "controller.lease_acquired",
        ]
    );
    assert_eq!(
        events.iter().map(|event| event.sequence).collect::<Vec<_>>(),
        vec![1, 2, 3, 4, 5]
    );
    assert!(events.iter().all(|event| event.created_at == now));
    assert!(repository.create_team(1, "other".to_owned(), now).is_err());
    assert_eq!(repository.events_after(0, 100).len(), 5);
    assert!(repository.claim_worker_lease(worker_id, now).is_some());
    let recovered = repository.reconcile_worker_leases(now + 31 * SECOND);
    assert_eq!(recovered.len(), 1);
    assert_eq!(repository.events_after(5, 100).len(), 1);
}

#[test]
fn an_expired_lease_is_claimed_again_before_its_output() {
    let mut repository = Repository::new();
    let now = moment();
    let worker = node(NodeStatus::Ready, now);
    let worker_id = worker.id;
    repository.register_node(worker, now);
    let workload = add_workload(&mut repository, worker_id, now);
    assert!(repository
        .create_worker_lease(9, workload, worker_id, 1, vec![1; 24], vec![2], 8, now)
        .is_ok());
    let first = repository.claim_worker_lease(worker_id, now);
    assert!(first.is_some_and(|lease| lease.attempt == 1));
    assert!(repository.claim_worker_lease(worker_id, now + 29 * SECOND).is_none());
    let second = repository.claim_worker_lease(worker_id, now + 30 * SECOND);
    assert!(second.is_some_and(|lease| lease.id == 9
        && lease.attempt == 2
        && lease.expires_at == now + 60 * SECOND));
    assert!(repository.claim_worker_lease(worker_id, now + 61 * SECOND).is_none());
    let actions = repository.reconcile_worker_leases(now + 61 * SECOND);
    assert!(actions.len() == 1 && !actions[0].retried);
}

#[test]
fn an_expired_lease_is_not_claimed_after_its_output() {
    let mut repository = Repository::new();
    let now = moment();
    let worker = node(NodeStatus::Ready, now);
    let worker_id = worker.id;
    repository.register_node(worker, now);
    let workload = add_workload(&mut repository, worker_id, now);
    assert!(repository
        .create_worker_lease(9, workload, worker_id, 1, vec![1; 24], vec![2], 8, now)
        .is_ok());
    assert!(repository.claim_worker_lease(worker_id, now).is_some());
    let delta = WorkerRuntimeEvent::TextDelta { text: "partial".to_owned() };
    assert!(repository.accept_worker_event(worker_id, 9, 1, &delta, false, now).is_ok());
    assert!(repository.claim_worker_lease(worker_id, now + HOUR).is_none());
}

#[test]
fn cloud_quota_is_reserved_atomically_and_reconciled_downward() {
    let mut repository = Repository::new();
    let now = moment();
    let policy = CloudAdapterPolicy {
        id: new_id(),
        provider_plugin: "com.constellation.cloud.openai-compatible".to_owned(),
        credential_reference: "test-cloud".to_owned(),
        ..CloudAdapterPolicy::default()
    };
    let policy_id = policy.id;
    repository.put_cloud_policy(policy, 0);
    let first = new_id();
    assert!(repository
        .reserve_cloud_usage(policy_id, first, 60, 60, 100, 100, now)
        .is_ok_and(|event| event.is_some()));
    assert!(repository
        .reserve_cloud_usage(policy_id, new_id(), 50, 50, 100, 100, now)
        .is_ok_and(|event| event.is_none()));
    assert!(repository
        .complete_cloud_usage(first, 10, 10, now)
        .is_ok_and(|event| event.is_some()));
    assert!(repository
        .reserve_cloud_usage(policy_id, new_id(), 50, 50, 100, 100, now)
        .is_ok_and(|event| event.is_some()));
}

#[test]
fn a_use_is_settled_once_and_never_upward() {
    let mut repository = Repository::new();
    let now = moment();
    let workload = new_id();
    assert!(repository
        .reserve_cloud_usage(1, workload, 60, 60, 100, 100, now)
        .is_ok_and(|event| event.is_some()));
    assert!(repository
        .complete_cloud_usage(workload, 61, 10, now)
        .is_ok_and(|event| event.is_none()));
    assert!(repository
        .complete_cloud_usage(workload, 10, 10, now)
        .is_ok_and(|event| event.is_some()));
    assert!(repository
        .complete_cloud_usage(workload, 5, 5, now)
        .is_ok_and(|event| event.is_none()));
    assert_eq!(
        repository.reserve_cloud_usage(1, new_id(), u64::MAX, 1, 100, 100, now).err(),
        Some(RepositoryError::OutOfRange)
    );
}

#[test]
fn policies_count_apart_and_months_too() {
    let mut repository = Repository::new();
    let january = 1_705_000_000 * SECOND;
    let february = 1_707_000_000 * SECOND;
    assert!(repository
        .reserve_cloud_usage(1, 10, 100, 100, 100, 100, january)
        .is_ok_and(|event| event.is_some()));
    assert!(repository
        .reserve_cloud_usage(2, 11, 100, 100, 100, 100, january)
        .is_ok_and(|event| event.is_some()));
    assert!(repository
        .reserve_cloud_usage(1, 12, 1, 1, 100, 100, january)
        .is_ok_and(|event| event.is_none()));
    assert!(repository
        .reserve_cloud_usage(1, 13, 1, 1, 100, 100, february)
        .is_ok_and(|event| event.is_some()));
}

#[test]
fn liveness_has_two_thresholds() {
    for (silence, expected) in [
        (14, NodeStatus::Ready),
        (15, NodeStatus::Suspect),
        (29, NodeStatus::Suspect),
        (30, NodeStatus::Offline),
    ] {
        let mut repository = Repository::new();
        let now = moment();
        let silent = node(NodeStatus::Ready, now - silence * SECOND);
        let id = silent.id;
        repository.register_node(silent, 0);
        repository.reconcile_liveness(now);
        assert_eq!(status_of(&repository, id), Some(expected), "{silence}");
        assert!(repository.reconcile_liveness(now).is_empty());
    }
}

#[test]
fn the_local_node_keeps_its_identity() {
    let mut repository = Repository::new();
    let now = moment();
    let first = node(NodeStatus::Ready, now);
    let first_id = first.id;
    let (id, event) = repository.ensure_local_node(first, 0);
    assert_eq!(id, first_id);
    assert_eq!(event.event_type, "device.local_ready");
    let (again, _) = repository.ensure_local_node(node(NodeStatus::Ready, now), 0);
    assert_eq!(again, first_id);
    assert_eq!(repository.local_node(), Some(first_id));
    assert_eq!(repository.nodes.len(), 1);
    assert!(repository.revoke_node(first_id, now).is_none());
}

#[test]
fn revocation_ends_the_credentials_of_one_device() {
    let mut repository = Repository::new();
    let now = moment();
    let mut serials = Vec::new();
    for _ in 0..2 {
        let device = node(NodeStatus::Joining, now);
        let device_id = device.id;
        let serial = new_id();
        let credential = || Credential {
            device_id,
            document: "{}".to_owned(),
            expires_at: now + DAY,
            revoked_at: None,
        };
        repository.approve_enrollment(
            device,
            serial,
            credential(),
            credential(),
            new_id(),
            Some(now),
            now,
        );
        serials.push((serial, device_id));
    }
    assert!(repository.credential_active(serials[0].0, serials[0].1));
    assert!(!repository.credential_active(serials[0].0, serials[1].1));
    assert!(repository.revoke_node(serials[0].1, now).is_some());
    assert!(!repository.credential_active(serials[0].0, serials[0].1));
    assert!(repository.credential_active(serials[1].0, serials[1].1));
    let next = Credential {
        device_id: serials[1].1,
        document: "{}".to_owned(),
        expires_at: now + DAY,
        revoked_at: None,
    };
    let certificate = Credential {
        device_id: serials[1].1,
        document: "{}".to_owned(),
        expires_at: now + DAY,
        revoked_at: None,
    };
    assert!(repository
        .put_rotated_credential(serials[1].0, next, certificate, now)
        .is_err_and(|error| error == RepositoryError::Conflict));
}

#[test]
fn invitations_are_listed_newest_first() {
    let mut repository = Repository::new();
    let now = moment();
    let status = InvitationStatus {
        expires_at: now + HOUR,
        failed_attempts: 0,
        consumed: false,
        approved: false,
        approved_at: None,
    };
    for (id, at) in [(5, now), (9, now + 2), (7, now + 1)] {
        repository.put_invitation_status(id, status, None, "enrollment.invitation_created", at);
    }
    assert_eq!(repository.invitation_statuses(), vec![9, 7, 5]);
}

#[test]
fn listings_go_by_name_and_then_by_identifier() {
    let mut repository = Repository::new();
    for (id, name) in [(4, "beta"), (3, "alpha"), (2, "gamma"), (1, "Zeta"), (9, "b\u{e9}ta")] {
        assert!(repository.create_team(id, name.to_owned(), 0).is_ok());
    }
    assert_eq!(repository.teams(), vec![1, 3, 4, 9, 2]);
    assert!(repository
        .create_team(5, "beta".to_owned(), 0)
        .is_err_and(|error| error == RepositoryError::Conflict));
    for id in [12, 11] {
        repository.put_principal(id, principal("same", Role::Viewer, None, 0), 0);
    }
    assert_eq!(repository.principals(), vec![11, 12]);
    assert!(repository
        .create_team(4, "again".to_owned(), 0)
        .is_err_and(|error| error == RepositoryError::Conflict));
    repository.put_team_membership(4, 30, Role::Viewer, 0);
    repository.put_team_membership(4, 20, Role::Admin, 0);
    repository.put_team_membership(3, 10, Role::Admin, 0);
    assert_eq!(repository.team_memberships(4), vec![20, 30]);
    assert_eq!(repository.team_role(4, 20), Some(Role::Admin));
    assert_eq!(repository.team_role(4, 10), None);
}

#[test]
fn every_table_has_its_listing() {
    let mut repository = Repository::new();
    for (id, name) in [(2, "b"), (1, "c"), (3, "a")] {
        repository.register_node(Node { id, name: name.to_owned(), ..node(NodeStatus::Ready, 0) }, 0);
        repository.put_principal(id, principal(name, Role::Viewer, None, 0), 0);
        assert!(repository
            .create_workflow(id, name.to_owned(), "d".to_owned(), sealed(1), 0)
            .is_ok());
        let template = Template {
            name: name.to_owned(),
            workflow_id: id,
            metadata: "{}".to_owned(),
            created_at: 0,
        };
        assert!(repository.put_workflow_template(id, template, 0).is_ok());
        let namesake = Template {
            name: name.to_owned(),
            workflow_id: id,
            metadata: "{}".to_owned(),
            created_at: 0,
        };
        assert!(repository
            .put_workflow_template(id + 100, namesake, 0)
            .is_err_and(|error| error == RepositoryError::Conflict));
        repository.put_cloud_policy(CloudAdapterPolicy { id, ..CloudAdapterPolicy::default() }, 0);
        repository.put_auth_provider(
            id,
            AuthProvider { provider: "{}".to_owned(), kind: "oidc".to_owned(), enabled: id != 2 },
            0,
        );
        repository.put_benchmark(
            id,
            Benchmark {
                report: "{}".to_owned(),
                tokens_per_second: 0,
                time_to_first_token_ms: 0,
                measured_at: 0,
            },
            0,
        );
        assert!(repository.create_conversation(id, None, id as i128).is_ok());
    }
    assert_eq!(repository.list_nodes(), vec![3, 2, 1]);
    assert_eq!(repository.principals(), vec![3, 2, 1]);
    assert_eq!(repository.workflows(), vec![3, 2, 1]);
    assert_eq!(repository.workflow_templates(), vec![3, 2, 1]);
    assert_eq!(repository.cloud_policies(), vec![1, 2, 3]);
    assert_eq!(repository.auth_providers(), vec![1, 2, 3]);
    assert_eq!(repository.benchmarks(), vec![1, 2, 3]);
    assert_eq!(repository.conversations(), vec![3, 2, 1]);
    assert!(repository.resource_policies().is_empty());
    assert_eq!(constellation::api::teams::list_oidc_login_providers(&repository), vec![1, 3]);
    assert!(repository.cloud_policy(2).is_some());
    assert!(repository.auth_provider(4).is_none());
    assert!(repository.workflow_template(1).is_some_and(|template| template.name == "c"));
    assert!(repository.controller_lease().is_none());
}

#[test]
fn spans_are_listed_as_they_began() {
    let mut repository = Repository::new();
    for (id, workload_id, started_at) in [(1, 7, 30), (2, 7, 10), (3, 8, 20), (4, 7, 10)] {
        let span = ExecutionTraceSpan {
            workload_id,
            node_id: 1,
            parent_span_id: None,
            operation: "prefill".to_owned(),
            started_at,
            duration_us: 5,
            status: "ok".to_owned(),
            attributes: Json::Object(vec![]),
        };
        assert!(repository.put_trace_span(id, span, 0).is_ok());
    }
    assert_eq!(repository.trace_spans(7), vec![(10, 2), (10, 4), (30, 1)]);
    let long = ExecutionTraceSpan {
        workload_id: 7,
        node_id: 1,
        parent_span_id: None,
        operation: "decode".to_owned(),
        started_at: 0,
        duration_us: u64::MAX,
        status: "ok".to_owned(),
        attributes: Json::Object(vec![]),
    };
    assert!(repository
        .put_trace_span(9, long, 0)
        .is_err_and(|error| error == RepositoryError::OutOfRange));
}

fn plugin(sha256: &str) -> Plugin {
    Plugin {
        version: "1.0.0".to_owned(),
        kind: "tool".to_owned(),
        sha256: sha256.to_owned(),
        manifest: "{}".to_owned(),
        component_path: "c.wasm".to_owned(),
        enabled: true,
    }
}

#[test]
fn an_upgrade_needs_a_new_grant() {
    let mut repository = Repository::new();
    repository.put_plugin("b.plugin".to_owned(), plugin("one"), 0);
    repository.put_plugin("a.plugin".to_owned(), plugin("one"), 0);
    assert_eq!(repository.plugins(), vec!["a.plugin".to_owned(), "b.plugin".to_owned()]);
    assert!(repository.plugin("a.plugin").is_some_and(|plugin| !plugin.enabled));
    let grant = |sha256: &str| Grant {
        component_sha256: sha256.to_owned(),
        permissions: Vec::new(),
        approved_by: "owner".to_owned(),
        approved_at: 0,
    };
    assert!(repository
        .put_plugin_grant("a.plugin".to_owned(), grant("two"), 0)
        .is_err_and(|error| error == RepositoryError::GrantMismatch));
    assert!(repository.put_plugin_grant("a.plugin".to_owned(), grant("one"), 0).is_ok());
    assert!(repository.plugin("a.plugin").is_some_and(|plugin| plugin.enabled));
    assert!(repository.plugin_grant("a.plugin").is_some());
    repository.put_plugin("a.plugin".to_owned(), plugin("two"), 0);
    assert!(repository.plugin("a.plugin").is_some_and(|plugin| !plugin.enabled));
    assert!(repository.plugin_grant("a.plugin").is_none());
}

#[test]
fn a_deleted_conversation_takes_its_messages_along() {
    let mut repository = Repository::new();
    assert!(repository.create_conversation(1, None, 5).is_ok());
    assert!(repository.create_conversation(2, None, 5).is_ok());
    for (id, conversation_id, created_at) in [(10, 1, 9), (11, 1, 7), (12, 2, 8)] {
        let message = Message {
            conversation_id,
            role: "user".to_owned(),
            content: sealed(1),
            created_at,
        };
        assert!(repository.append_encrypted_message(id, message, 0).is_ok());
    }
    assert_eq!(repository.encrypted_messages(1), vec![(7, 11), (9, 10)]);
    let sealed_messages = constellation::api::chat::list_conversation_messages(&repository, 1);
    assert_eq!(sealed_messages.len(), 2);
    assert_eq!(sealed_messages[0].place, (7, 11));
    assert_eq!(
        sealed_messages[0].associated_data,
        constellation::api::chat::message_associated_data(1, 11, "user")
    );
    assert!(repository.delete_conversation(1, 0).is_some());
    assert!(repository.delete_conversation(1, 0).is_none());
    assert!(repository.encrypted_messages(1).is_empty());
    assert_eq!(repository.encrypted_messages(2), vec![(8, 12)]);
}

#[test]
fn the_queue_of_a_worker_is_bounded() {
    let mut repository = Repository::new();
    let now = moment();
    let worker = node(NodeStatus::Ready, now);
    let worker_id = worker.id;
    repository.register_node(worker, 0);
    for _ in 0..1_000 {
        let workload = add_workload(&mut repository, worker_id, now);
        assert!(repository
            .create_worker_lease(new_id(), workload, worker_id, 1, Vec::new(), Vec::new(), 1, now)
            .is_ok());
    }
    assert_eq!(repository.active_lease_count(), 1_000);
    let workload = add_workload(&mut repository, worker_id, now);
    assert!(repository
        .create_worker_lease(new_id(), workload, worker_id, 1, Vec::new(), Vec::new(), 1, now)
        .is_err_and(|error| error == RepositoryError::QueueFull));
}

#[test]
fn a_revoked_worker_is_not_available() {
    let mut repository = Repository::new();
    let now = moment();
    let worker = node(NodeStatus::Ready, now);
    let worker_id = worker.id;
    repository.register_node(worker, 0);
    assert!(repository.claim_worker_lease(worker_id, now).is_none());
    assert_eq!(repository.available_workers(now), vec![worker_id]);
    assert!(repository.revoke_node(worker_id, now).is_some());
    assert!(repository.claim_worker_lease(worker_id, now).is_none());
    assert!(repository.available_workers(now).is_empty());
    assert_eq!(status_of(&repository, worker_id), Some(NodeStatus::Revoked));
}

#[test]
fn a_cancelled_workload_tells_what_to_stop() {
    let mut repository = Repository::new();
    let now = moment();
    let worker = node(NodeStatus::Ready, now);
    let worker_id = worker.id;
    repository.register_node(worker, 0);
    let workload = add_workload(&mut repository, worker_id, now);
    let lease_id = new_id();
    assert!(repository
        .create_worker_lease(lease_id, workload, worker_id, 1, Vec::new(), Vec::new(), 1, now)
        .is_ok());
    let stopped = repository.cancel_workload(workload, now);
    assert!(stopped.is_some_and(|stop| stop.lease_id == Some(lease_id) && stop.runtime == "mock"));
    assert!(repository.cancel_workload(workload, now).is_none());
    assert!(repository.complete_workload(workload, WorkloadStatus::Completed, now).is_none());
}

#[test]
fn a_stale_change_to_a_run_is_refused() {
    let mut repository = Repository::new();
    assert!(repository
        .create_workflow_run(1, 2, 1, RunStatus::Running, sealed(1), 10)
        .is_ok());
    let mut update = |nonce: u8, status: RunStatus| {
        repository.update_workflow_run(
            1,
            RunStatus::Running,
            &[nonce; 24],
            status,
            sealed(2),
            "step_started".to_owned(),
            Some("one".to_owned()),
            None,
            11,
        )
    };
    assert!(update(9, RunStatus::Running).is_none());
    assert!(update(1, RunStatus::Completed).is_some());
    assert!(repository.active_workflow_runs(10).is_empty());
    assert_eq!(repository.run_events.len(), 2);
    assert_eq!((repository.run_events[1].run_id, repository.run_events[1].created_at), (1, 11));
}

#[test]
fn an_occurrence_is_claimed_once() {
    let mut repository = Repository::new();
    let schedule = || WorkflowSchedule {
        id: 1,
        workflow_id: 2,
        cron_utc: "* * * * *".to_owned(),
        enabled: true,
        concurrency_limit: 1,
    };
    repository.put_workflow_schedule(schedule(), 100, 0);
    assert!(repository.due_workflow_schedules(99, 10).is_empty());
    assert_eq!(repository.due_workflow_schedules(100, 10).len(), 1);
    assert_eq!(repository.claim_workflow_schedule(1, 100, 160, 50, 100), Ok(true));
    assert_eq!(repository.claim_workflow_schedule(1, 100, 160, 51, 100), Ok(false));
    repository.put_workflow_schedule(schedule(), 100, 0);
    assert_eq!(
        repository.claim_workflow_schedule(1, 100, 160, 52, 100),
        Err(RepositoryError::Conflict)
    );
    let pending = repository.pending_workflow_schedule_firings(10);
    assert_eq!(pending.len(), 1);
    assert_eq!(pending[0].run_id, 50);
    assert_eq!(repository.active_schedule_run_count(1), Ok(0));
    assert!(repository
        .create_workflow_run(50, 2, 1, RunStatus::Running, sealed(1), 101)
        .is_ok());
    repository.mark_workflow_schedule_started(1, 100);
    assert!(repository.pending_workflow_schedule_firings(10).is_empty());
    assert_eq!(repository.active_schedule_run_count(1), Ok(1));
}

#[test]
fn keys_and_identities_find_their_principal() {
    let mut repository = Repository::new();
    repository.put_principal(1, principal("svc", Role::Service, Some("hash"), 0), 0);
    repository.put_principal(2, principal("human", Role::Operator, None, 0), 0);
    assert_eq!(repository.service_principal_by_key_hash("hash"), Some(1));
    assert_eq!(repository.service_principal_by_key_hash("other"), None);
    assert_eq!(repository.principal_by_name("human"), Some(2));
    assert_eq!(repository.principal_by_name("nobody"), None);
    repository.put_external_identity(7, "subject".to_owned(), 2, 0);
    assert_eq!(repository.principal_by_external_identity(7, "subject"), Some(2));
    assert_eq!(repository.principal_by_external_identity(8, "subject"), None);
    repository.put_principal(2, PrincipalRow { active: false, ..principal("human", Role::Operator, None, 0) }, 0);
    assert_eq!(repository.principal_by_external_identity(7, "subject"), None);
}

#[test]
fn passkeys_are_kept_by_the_digest_of_their_credential() {
    let mut repository = Repository::new();
    repository.put_principal(1, principal("human", Role::Operator, None, 0), 0);
    assert!(repository.put_passkey(b"credential", 1, "laptop".to_owned(), "{}".to_owned(), 5).is_ok());
    assert!(repository
        .put_passkey(b"credential", 1, "laptop".to_owned(), "{}".to_owned(), 5)
        .is_err_and(|error| error == RepositoryError::Conflict));
    let stored = repository.passkeys_for_principal(1);
    assert_eq!(stored.len(), 1);
    assert_eq!(
        stored[0].credential_sha256,
        format!("{:x}", sha2::Sha256::digest(b"credential"))
    );
    assert!(repository
        .update_passkey_after_authentication(b"credential", "{\"n\":2}".to_owned(), 6)
        .is_ok());
    assert_eq!(repository.passkeys_for_principal(1)[0].passkey, "{\"n\":2}");
    assert!(repository
        .update_passkey_after_authentication(b"unknown", "{}".to_owned(), 6)
        .is_err_and(|error| error == RepositoryError::Missing));
}

#[test]
fn tickets_and_artifacts_are_stored_once() {
    let mut repository = Repository::new();
    let ticket = || TransferTicket {
        source_node: 1,
        destination_node: 2,
        model_sha256: "m".to_owned(),
        chunk_sha256: "c".to_owned(),
        ticket: "{}".to_owned(),
        expires_at: 9,
    };
    assert!(repository.put_transfer_ticket(1, ticket(), 0).is_ok());
    assert!(repository
        .put_transfer_ticket(1, ticket(), 0)
        .is_err_and(|error| error == RepositoryError::Conflict));
    let artifact = || EncryptedWorkflowArtifact {
        run_id: 1,
        step_id: "s".to_owned(),
        name: "n".to_owned(),
        media_type: "text/plain".to_owned(),
        sha256: "d".to_owned(),
        size_bytes: 3,
        content: sealed(1),
        created_at: 0,
    };
    assert!(repository.put_workflow_artifact(4, artifact(), 0).is_ok());
    assert!(repository.put_workflow_artifact(4, artifact(), 0).is_err());
    assert!(repository.workflow_artifact(4).is_some_and(|stored| stored.size_bytes == 3));
    assert!(repository.workflow_artifact(5).is_none());
}

#[test]
fn a_lease_lasts_ten_to_sixty_seconds() {
    let mut repository = Repository::new();
    let lease = ControllerLease {
        controller_id: 1,
        term: 1,
        fencing_token: 1,
        expires_at: 10 * SECOND,
    };
    assert!(repository
        .claim_controller_lease(1, 0, 9, Some(lease))
        .is_err_and(|error| error == RepositoryError::LeaseDuration));
    assert!(repository
        .claim_controller_lease(1, 0, 61, Some(lease))
        .is_err_and(|error| error == RepositoryError::LeaseDuration));
    assert!(repository
        .claim_controller_lease(1, 0, 10, None)
        .is_err_and(|error| error == RepositoryError::OutOfRange));
    assert!(repository.claim_controller_lease(1, 0, 10, Some(lease)).is_ok());
}

#[test]
fn the_monitor_renews_and_stands_down() {
    let mut repository = Repository::new();
    let mut guard = ControllerGuard::new(1, None);
    assert!(!guard.authorize(repository.controller_lease(), 0));
    let first = next_term(None, 1, 0, 15);
    let event = spawn_controller_lease_monitor(&mut repository, &mut guard, 0, first);
    assert!(event.is_some_and(|event| event.event_type == "controller.lease_acquired"));
    assert!(guard.authorize(repository.controller_lease(), 14 * SECOND));
    assert!(!guard.authorize(repository.controller_lease(), 15 * SECOND));
    assert!(!guard.authorize(None, 0));
    assert!(spawn_controller_lease_monitor(&mut repository, &mut guard, 5 * SECOND, None).is_none());
    assert!(guard.authorize(repository.controller_lease(), 19 * SECOND));
    let mut other = ControllerGuard::new(2, None);
    assert!(spawn_controller_lease_monitor(&mut repository, &mut other, 6 * SECOND, None).is_none());
    assert!(!other.authorize(repository.controller_lease(), 6 * SECOND));
    assert!(spawn_controller_lease_monitor(&mut repository, &mut guard, 100 * SECOND, None).is_none());
    assert!(!guard.authorize(repository.controller_lease(), 100 * SECOND));
}
