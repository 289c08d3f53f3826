//! Requests as a whole: what each stores and logs, and that a refused one changes nothing.

use constellation::api::artifacts::trigger_workflow_webhook;
use constellation::api::auth::{token_hash, AuthenticatedPrincipal, Permission, Principal};
use constellation::api::cluster::Stop;
use constellation::api::devices::BenchmarkNumbers;
use constellation::api::requests::{
    set_network_policy, stop_workload, store_auth_provider, store_benchmark, store_cloud_adapter,
    store_identity_link, store_plugin_grant, store_principal, store_team, store_team_member,
    store_trace_span, store_workflow_template, store_workflow_webhook, take_heartbeat,
    take_worker_event,
};
use constellation::api::teams::CreatePrincipalRequest;
use constellation::api::ApiError;
use constellation::cloud::{CloudAdapterPolicy, OPENAI_COMPATIBLE_PROVIDER};
use constellation::json::Json;
use constellation::names::{NodeStatus, OperatingSystem, Role};
use constellation::oidc::external_subject_digest;
use constellation::repository::leases::PlanSummary;
use constellation::repository::{
    AuthProvider, EncryptedContent, ExecutionTraceSpan, LeaseStatus, NetworkPolicy, Node,
    Plugin, Repository, WorkloadStatus,
};
use constellation::runtime::WorkerRuntimeEvent;
use constellation::workload::local_workload;

const SECOND: i128 = 1_000_000_000;
const NOW: i128 = 1_700_000_000 * SECOND;

fn owner() -> AuthenticatedPrincipal {
    AuthenticatedPrincipal::Owner
}

fn nobody() -> AuthenticatedPrincipal {
    AuthenticatedPrincipal::Human(Principal { id: 5, allowed: Vec::<Permission>::new() })
}

fn worker(id: u128) -> AuthenticatedPrincipal {
    AuthenticatedPrincipal::Node(id)
}

fn code<T>(result: Result<T, ApiError>) -> (u16, String) {
    match result {
        Ok(_) => (200, String::new()),
        Err(error) => (error.status, error.code),
    }
}

fn words(repository: &Repository) -> Vec<String> {
    repository.events_after(0, 1_000).into_iter().map(|event| event.event_type.clone()).collect()
}

fn with_node(id: u128, status: NodeStatus) -> Repository {
    let mut repository = Repository::new();
    let node = Node {
        id,
        name: "worker".to_owned(),
        os: OperatingSystem::Linux,
        architecture: "x86_64".to_owned(),
        status,
        capabilities: "{}".to_owned(),
        last_seen_at: NOW,
    };
    repository.register_node(node, NOW);
    repository
}

fn with_workload(repository: &mut Repository, node_id: u128, workload_id: u128) {
    let plan = PlanSummary {
        id: 77,
        strategy: "single_node".to_owned(),
        selected_nodes: vec![node_id],
        encoded: "{}".to_owned(),
        created_at: NOW,
    };
    let request = local_workload(workload_id, "constellation/mock", "mock".to_owned());
    assert!(repository.create_workload(&request, plan, NOW).is_ok());
}

#[test]
fn a_team_is_stored_once_under_its_name() {
    let mut repository = Repository::new();
    assert_eq!(
        code(store_team(&mut repository, &nobody(), 1, "ops".to_owned(), NOW)),
        (403, "forbidden".to_owned())
    );
    assert_eq!(
        code(store_team(&mut repository, &owner(), 1, " ".to_owned(), NOW)),
        (400, "invalid_team".to_owned())
    );
    assert!(words(&repository).is_empty());
    let event = store_team(&mut repository, &owner(), 1, "ops".to_owned(), NOW);
    assert!(event.is_ok_and(|event| event.event_type == "team.created"));
    assert!(repository.teams.get(&1).is_some_and(|team| team.created_at == NOW));
    assert_eq!(
        code(store_team(&mut repository, &owner(), 2, "ops".to_owned(), NOW)),
        (500, "internal_error".to_owned())
    );
    assert!(store_team_member(&mut repository, &owner(), 1, 9, Role::Operator, NOW).is_ok());
    assert_eq!(
        code(store_team_member(&mut repository, &owner(), 1, 8, Role::Owner, NOW)),
        (403, "forbidden".to_owned())
    );
    assert_eq!(repository.team_memberships(1), vec![9]);
    assert_eq!(words(&repository), vec!["team.created", "team.membership_updated"]);
}

#[test]
fn a_service_is_found_by_the_key_it_was_given() {
    let mut repository = Repository::new();
    let request = |name: &str, role: Role| CreatePrincipalRequest {
        name: name.to_owned(),
        role,
        scopes: vec![],
    };
    let made = store_principal(
        &mut repository,
        &owner(),
        3,
        request("builder", Role::Service),
        10,
        11,
        NOW,
    );
    let key = made.ok().and_then(|made| made.api_key).unwrap_or_default();
    assert!(key.starts_with("cst_svc_"));
    assert_eq!(repository.service_principal_by_key_hash(&token_hash(&key)), Some(3));
    assert!(repository.principals.get(&3).is_some_and(|row| row.active
        && row.created_at == NOW
        && row.api_key_sha256 == Some(token_hash(&key))));
    assert_eq!(
        code(store_principal(
            &mut repository,
            &owner(),
            4,
            request("builder", Role::Operator),
            12,
            13,
            NOW,
        )),
        (400, "principal_name_exists".to_owned())
    );
    assert!(!repository.principals.contains(&4));
    assert_eq!(words(&repository), vec!["principal.updated"]);
}

#[test]
fn a_linked_subject_is_found_again() {
    let mut repository = Repository::new();
    let provider = |enabled: bool, kind: &str| AuthProvider {
        provider: "{}".to_owned(),
        kind: kind.to_owned(),
        enabled,
    };
    let saml = store_auth_provider(
        &mut repository,
        &owner(),
        1,
        provider(true, "saml"),
        Ok(()),
        true,
        NOW,
    );
    assert_eq!(code(saml), (400, "unsupported_feature".to_owned()));
    let silent = store_auth_provider(
        &mut repository,
        &owner(),
        1,
        provider(true, "oidc"),
        Ok(()),
        false,
        NOW,
    );
    assert_eq!(code(silent), (400, "oidc_discovery_failed".to_owned()));
    assert!(repository.auth_provider(1).is_none());
    assert!(store_auth_provider(
        &mut repository,
        &owner(),
        1,
        provider(true, "oidc"),
        Ok(()),
        true,
        NOW
    )
    .is_ok());
    assert_eq!(
        code(store_identity_link(&mut repository, &owner(), 1, 6, "alice", NOW)),
        (400, "identity_link_target_missing".to_owned())
    );
    let request = CreatePrincipalRequest {
        name: "alice".to_owned(),
        role: Role::Operator,
        scopes: vec![],
    };
    assert!(store_principal(&mut repository, &owner(), 6, request, 1, 2, NOW)
        .is_ok_and(|made| made.api_key.is_none()));
    assert!(store_identity_link(&mut repository, &owner(), 1, 6, "alice", NOW).is_ok());
    let digest = external_subject_digest(1, "alice");
    assert!(repository.principal_by_external_identity(1, &digest).is_some());
    assert_eq!(
        words(&repository),
        vec!["auth_provider.updated", "principal.updated", "external_identity.linked"]
    );
}

#[test]
fn a_plugin_is_granted_for_the_component_that_is_installed() {
    let mut repository = Repository::new();
    let permissions = || vec!["network".to_owned()];
    let missing =
        store_plugin_grant(&mut repository, &owner(), "tool".to_owned(), permissions(), Ok(()), NOW);
    assert_eq!(code(missing), (404, "plugin_not_found".to_owned()));
    let plugin = Plugin {
        version: "1.0.0".to_owned(),
        kind: "tool".to_owned(),
        sha256: "ab".to_owned(),
        manifest: "{}".to_owned(),
        component_path: "ab.wasm".to_owned(),
        enabled: false,
    };
    repository.put_plugin("tool".to_owned(), plugin, NOW);
    let invalid = store_plugin_grant(
        &mut repository,
        &owner(),
        "tool".to_owned(),
        permissions(),
        Err("too much".to_owned()),
        NOW,
    );
    assert_eq!(code(invalid), (400, "invalid_plugin_grant".to_owned()));
    assert!(repository.plugin("tool").is_some_and(|plugin| !plugin.enabled));
    assert!(store_plugin_grant(
        &mut repository,
        &owner(),
        "tool".to_owned(),
        permissions(),
        Ok(()),
        NOW
    )
    .is_ok());
    assert!(repository.plugin("tool").is_some_and(|plugin| plugin.enabled));
    assert!(repository
        .plugin_grant("tool")
        .is_some_and(|grant| grant.component_sha256 == "ab" && grant.approved_at == NOW));
}

#[test]
fn a_cloud_adapter_needs_its_credential() {
    let mut repository = Repository::new();
    let policy = || CloudAdapterPolicy {
        id: 4,
        provider_plugin: OPENAI_COMPATIBLE_PROVIDER.to_owned(),
        enabled: true,
        models: vec![],
        endpoint: None,
        credential_reference: "reference".to_owned(),
        regions: vec![],
        input_cost_per_million_tokens_micros: 0,
        output_cost_per_million_tokens_micros: 0,
        monthly_cost_limit_micros: 0,
        monthly_network_limit_bytes: 0,
    };
    assert_eq!(
        code(store_cloud_adapter(&mut repository, &owner(), policy(), Ok(()), false, NOW)),
        (400, "cloud_credential_unavailable".to_owned())
    );
    assert!(repository.cloud_policy(4).is_none());
    assert!(store_cloud_adapter(&mut repository, &owner(), policy(), Ok(()), true, NOW).is_ok());
    assert!(repository.cloud_policy(4).is_some());
    assert_eq!(words(&repository), vec!["cloud_policy.updated"]);
}

#[test]
fn the_network_policy_is_stored_and_audited() {
    let mut repository = Repository::new();
    let policy = |quota: u64| NetworkPolicy {
        remote_enabled: true,
        managed_relay_enabled: false,
        self_hosted_relay: None,
        monthly_remote_byte_quota: quota,
    };
    assert_eq!(
        code(set_network_policy(&mut repository, &owner(), policy(0), false, NOW)),
        (400, "remote_quota_required".to_owned())
    );
    assert!(!repository.network_policy().remote_enabled);
    assert!(set_network_policy(&mut repository, &owner(), policy(7), false, NOW).is_ok());
    assert_eq!(repository.network_policy().monthly_remote_byte_quota, 7);
    assert!(set_network_policy(&mut repository, &owner(), policy(9), true, NOW).is_err());
    assert_eq!(repository.network_policy().monthly_remote_byte_quota, 7);
    assert_eq!(words(&repository), vec!["network.policy_updated"]);
}

#[test]
fn a_heartbeat_brings_a_device_back_unless_it_is_revoked() {
    let mut repository = with_node(1, NodeStatus::Offline);
    assert_eq!(
        code(take_heartbeat(&mut repository, &worker(2), 1, NOW)),
        (403, "forbidden".to_owned())
    );
    assert_eq!(
        code(take_heartbeat(&mut repository, &owner(), 2, NOW)),
        (404, "device_not_found".to_owned())
    );
    let back = take_heartbeat(&mut repository, &worker(1), 1, NOW + SECOND);
    assert!(back.is_ok_and(|event| event.is_some_and(|e| e.event_type == "device.recovered")));
    let again = take_heartbeat(&mut repository, &worker(1), 1, NOW + 2 * SECOND);
    assert!(again.is_ok_and(|event| event.is_none()));
    assert!(repository.nodes.get(&1).is_some_and(|device| device.node.status
        == NodeStatus::Ready
        && device.node.last_seen_at == NOW + 2 * SECOND));
    assert!(repository.revoke_node(1, NOW).is_some());
    assert_eq!(
        code(take_heartbeat(&mut repository, &worker(1), 1, NOW + 3 * SECOND)),
        (403, "forbidden".to_owned())
    );
    assert!(repository.nodes.get(&1).is_some_and(|device| device.node.status
        == NodeStatus::Revoked));
}

#[test]
fn measurements_are_stored_for_known_devices() {
    let mut repository = with_node(1, NodeStatus::Ready);
    let numbers = BenchmarkNumbers {
        tokens_per_second: 10.0_f64.to_bits(),
        time_to_first_token_ms: 1.0_f64.to_bits(),
        network_latency_ms: 1.0_f64.to_bits(),
        network_bandwidth_mbps: 1.0_f64.to_bits(),
        jitter_ms: 1.0_f64.to_bits(),
        packet_loss: 0.0_f64.to_bits(),
        sample_count: 1,
    };
    assert_eq!(
        code(store_benchmark(&mut repository, &owner(), 2, numbers, "{}".to_owned(), NOW, NOW)),
        (404, "device_not_found".to_owned())
    );
    assert!(store_benchmark(&mut repository, &worker(1), 1, numbers, "{}".to_owned(), NOW, NOW)
        .is_ok());
    assert!(repository.benchmarks.get(&1).is_some_and(|row| row.tokens_per_second
        == 10.0_f64.to_bits()
        && row.time_to_first_token_ms == 1.0_f64.to_bits()
        && row.measured_at == NOW));
    assert!(repository.benchmarks.contains(&1) && !repository.benchmarks.contains(&2));
    let span = |duration_us: u64| ExecutionTraceSpan {
        workload_id: 3,
        node_id: 1,
        parent_span_id: None,
        operation: "prefill".to_owned(),
        started_at: NOW,
        duration_us,
        status: "ok".to_owned(),
        attributes: Json::Object(vec![]),
    };
    assert_eq!(
        code(store_trace_span(&mut repository, &worker(1), 8, span(1 << 63), NOW)),
        (500, "internal_error".to_owned())
    );
    assert!(store_trace_span(&mut repository, &worker(1), 8, span(5), NOW).is_ok());
    assert_eq!(
        code(store_trace_span(&mut repository, &worker(1), 8, span(5), NOW)),
        (500, "internal_error".to_owned())
    );
    assert_eq!(
        words(&repository),
        vec!["device.registered", "benchmark.completed", "trace.span_recorded"]
    );
}

#[test]
fn worker_events_are_taken_once_and_in_order() {
    let mut repository = with_node(1, NodeStatus::Ready);
    with_workload(&mut repository, 1, 40);
    assert!(repository.create_worker_lease(9, 40, 1, 1, vec![1; 24], vec![2], 8, NOW).is_ok());
    assert!(repository.claim_worker_lease(1, NOW).is_some());
    let text = WorkerRuntimeEvent::TextDelta { text: "a".to_owned() };
    let mut send = |principal: &AuthenticatedPrincipal, sequence: u64| {
        code(take_worker_event(
            &mut repository,
            principal,
            1,
            9,
            sequence,
            &text,
            true,
            NOW + SECOND,
        ))
    };
    assert_eq!(send(&worker(2), 1), (403, "forbidden".to_owned()));
    assert_eq!(send(&worker(1), 0), (400, "invalid_worker_sequence".to_owned()));
    assert_eq!(send(&worker(1), 1 << 63), (500, "internal_error".to_owned()));
    assert_eq!(send(&worker(1), 1).0, 200);
    assert_eq!(send(&worker(1), 1), (400, "stale_worker_event".to_owned()));
    assert_eq!(send(&worker(1), 3).0, 200);
    assert_eq!(send(&worker(1), 2), (400, "stale_worker_event".to_owned()));
    assert!(repository.leases.get(&9).is_some_and(|lease| lease.last_sequence == 3));
}

#[test]
fn a_stopped_workload_takes_its_lease_with_it() {
    let mut repository = with_node(1, NodeStatus::Ready);
    with_workload(&mut repository, 1, 40);
    assert!(repository.create_worker_lease(9, 40, 1, 1, vec![1; 24], vec![2], 8, NOW).is_ok());
    let stopped = stop_workload(&mut repository, 40, NOW);
    assert!(stopped.is_ok_and(|(stop, event)| matches!(stop, Stop::Lease(9))
        && event.event_type == "workload.cancelled"));
    assert!(repository.leases.get(&9).is_some_and(|l| l.status == LeaseStatus::Cancelled));
    assert!(repository.workloads.get(&40).is_some_and(|w| w.status == WorkloadStatus::Cancelled));
    assert_eq!(
        code(stop_workload(&mut repository, 40, NOW)),
        (400, "workload_not_cancellable".to_owned())
    );
    with_workload(&mut repository, 1, 41);
    let local = stop_workload(&mut repository, 41, NOW);
    assert!(local.is_ok_and(|(stop, _)| matches!(stop, Stop::Runtime(ref name) if name == "mock")));
}

#[test]
fn templates_and_webhooks_belong_to_a_known_workflow() {
    let mut repository = Repository::new();
    let template = |repository: &mut Repository, id: u128, metadata: &str| {
        code(store_workflow_template(
            repository,
            id,
            "nightly".to_owned(),
            30,
            metadata.to_owned(),
            metadata.starts_with('{'),
            NOW,
        ))
    };
    assert_eq!(template(&mut repository, 1, "[]"), (400, "invalid_template".to_owned()));
    assert_eq!(template(&mut repository, 1, "{}"), (404, "workflow_not_found".to_owned()));
    assert_eq!(
        code(store_workflow_webhook(&mut repository, 2, 30, 10, 11, NOW)),
        (404, "workflow_not_found".to_owned())
    );
    let sealed = EncryptedContent { version: 1, nonce: vec![0; 24], ciphertext: vec![1] };
    assert!(repository
        .create_workflow(30, "nightly".to_owned(), "ab".to_owned(), sealed, NOW)
        .is_ok());
    assert_eq!(template(&mut repository, 1, "{}").0, 200);
    assert_eq!(template(&mut repository, 3, "{}"), (500, "internal_error".to_owned()));
    let made = store_workflow_webhook(&mut repository, 2, 30, 10, 11, NOW);
    let secret = made.ok().map(|(made, _)| made.secret).unwrap_or_default();
    let stored = repository.workflow_webhook(2);
    assert!(trigger_workflow_webhook(stored, Some(secret.as_str())).is_ok());
    let stored = repository.workflow_webhook(2);
    assert!(trigger_workflow_webhook(stored, Some("another")).is_err());
}
