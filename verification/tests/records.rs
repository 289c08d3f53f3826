//! What is stored and read back: events, rows, and the words in them.

use constellation::clock::{has_passed, month_of, read_moment_text, time_between, write_moment};
use constellation::api::auth::AuthenticatedPrincipal;
use constellation::api::cluster::{health, ready};
use constellation::api::devices::poll_worker_lease;
use constellation::api::execution::{queue_remote_execution, store_cloud_execution};
use constellation::api::models::{pin_local_model, verify_local_model};
use constellation::api::plans::{record_plan_observation, simulate_distributed_plan};
use constellation::api::runs::{
    create_workflow_schedule, persist_workflow_definition, workflow_run_response, ValidDefinition,
};
use constellation::api::teams::{list_auth_providers, list_cloud_adapters};
use constellation::api::{ApiError, ModelStoreError};
use constellation::cli::ControllerClient;
use constellation::cli::CliError;
use constellation::cloud::CloudAdapterPolicy;
use constellation::cloud::OPENAI_COMPATIBLE_PROVIDER;
use constellation::digest::decode_sha256;
use constellation::json::{Fields, Json};
use constellation::text::is_white_space;
use constellation::names::{
    os_to_str, role_to_str, status_to_str, str_to_os, str_to_role, str_to_status, NodeStatus,
    OperatingSystem, Permission, Role,
};
use constellation::repository::catalog::ModelManifest;
use constellation::repository::leases::{ExpiredLeaseAction, PlanSummary};
use constellation::repository::rows::{
    decode_controller_lease, decode_conversation, decode_encrypted_message, decode_event,
    decode_invitation_status, decode_node, decode_plugin_record, decode_principal,
    decode_workflow_template, InvitationColumns, NodeColumns, RowError,
};
use constellation::repository::workflows::WorkflowSchedule;
use constellation::repository::{
    event, Attempt, EncryptedContent, LeaseStatus, NetworkPolicy, Node, PlanObservation, Repository,
};
use constellation::runtime::{worker_event, worker_runtime_event, RuntimeEvent, WorkerRuntimeEvent};
use constellation::startup::spawn_liveness_monitor;
use constellation::worker::submit_event;
use constellation::workload::{
    default_controller_lease_seconds, default_event_limit, default_model_format,
    default_schedule_concurrency, default_true, local_workload,
};

const SECOND: i128 = 1_000_000_000;

const ONE: &str = "00000000-0000-0000-0000-000000000001";

fn text<'a>(json: &'a Json, name: &str) -> &'a str {
    match json {
        Json::Object(fields) => match fields.iter().find(|(key, _)| key == name) {
            Some((_, Json::Text(text))) => text,
            _ => "",
        },
        _ => "",
    }
}

// ------------------------------------------------------------------------------------------------
// Events

#[test]
fn events_are_told_in_order_and_none_is_missed() {
    let mut repository = Repository::new();
    for number in 1..=5 {
        let made = event("test.event", Fields::new().number("n", number));
        assert_eq!(repository.insert_event(&made, number as i128 * SECOND), number as u64);
    }
    let numbers = |after: i64, limit: i64| {
        repository
            .events_after(after, limit)
            .iter()
            .map(|event| event.sequence)
            .collect::<Vec<_>>()
    };
    assert_eq!(numbers(-7, 100), vec![1, 2, 3, 4, 5]);
    assert_eq!(numbers(0, 2), vec![1, 2]);
    assert_eq!(numbers(2, 2), vec![3, 4]);
    assert_eq!(numbers(4, 0), vec![5]);
    assert!(numbers(5, 1).is_empty());
    let events = repository.events_after(2, 1);
    assert_eq!(events[0].event_type, "test.event");
    assert_eq!(events[0].created_at, 3 * SECOND);
}

#[test]
fn at_most_a_thousand_events_are_told_at_once() {
    let mut repository = Repository::new();
    for _ in 0..1_001 {
        repository.insert_event(&event("test.event", Fields::new()), 0);
    }
    assert_eq!(repository.events_after(0, 5_000).len(), 1_000);
    assert_eq!(repository.events_after(1_000, 5_000).len(), 1);
}

// ------------------------------------------------------------------------------------------------
// Rows

fn node_columns() -> NodeColumns {
    NodeColumns {
        id: ONE.to_owned(),
        name: "node".to_owned(),
        os: "macos".to_owned(),
        architecture: "aarch64".to_owned(),
        status: "suspect".to_owned(),
        capabilities: Some("{}".to_owned()),
        last_seen_at: "1970-01-01T00:00:02.5+00:00".to_owned(),
    }
}

#[test]
fn nodes_are_read_from_their_rows() {
    let node = decode_node(node_columns());
    assert!(node.is_ok_and(|node| node.id == 1
        && node.os == OperatingSystem::MacOs
        && node.status == NodeStatus::Suspect
        && node.last_seen_at == 2_500_000_000));
    let refused = |row: NodeColumns| decode_node(row).err();
    assert_eq!(
        refused(NodeColumns { id: "one".to_owned(), capabilities: None, ..node_columns() }),
        Some(RowError::Identifier)
    );
    assert_eq!(
        refused(NodeColumns { capabilities: None, ..node_columns() }),
        Some(RowError::Document)
    );
    assert_eq!(
        refused(NodeColumns { last_seen_at: "yesterday".to_owned(), ..node_columns() }),
        Some(RowError::Moment)
    );
    assert_eq!(
        decode_node(NodeColumns { last_seen_at: "3000-01-01T00:00:00Z".to_owned(), ..node_columns() })
            .ok()
            .map(|node| node.last_seen_at),
        Some(32_503_680_000 * SECOND)
    );
    assert_eq!(
        decode_node(NodeColumns { last_seen_at: "0000-01-01T00:00:00.5Z".to_owned(), ..node_columns() })
            .ok()
            .map(|node| node.last_seen_at),
        Some(-62_167_219_200 * SECOND + SECOND / 2)
    );
    assert_eq!(
        refused(NodeColumns { last_seen_at: "10000-01-01T00:00:00Z".to_owned(), ..node_columns() }),
        Some(RowError::Moment)
    );
}

#[test]
fn leases_and_invitations_are_read_from_their_rows() {
    let lease = decode_controller_lease(ONE, 3, 4, "1970-01-01T00:00:01Z");
    assert!(lease.is_ok_and(|lease| (lease.term, lease.fencing_token, lease.expires_at) == (3, 4, SECOND)));
    assert_eq!(
        decode_controller_lease(ONE, -1, 4, "1970-01-01T00:00:01Z").err(),
        Some(RowError::Number)
    );
    let columns = |failed_attempts: i64, approved_at: Option<&str>| InvitationColumns {
        id: ONE.to_owned(),
        expires_at: "1970-01-01T00:00:01Z".to_owned(),
        failed_attempts,
        consumed: 1,
        approved: 0,
        approved_at: approved_at.map(str::to_owned),
    };
    let invitation = decode_invitation_status(columns(2, Some("1970-01-01T00:00:00Z")));
    assert!(invitation.is_ok_and(|(id, status)| id == 1
        && status.failed_attempts == 2
        && status.consumed
        && !status.approved
        && status.approved_at == Some(0)));
    assert_eq!(decode_invitation_status(columns(256, None)).err(), Some(RowError::Number));
    assert_eq!(decode_invitation_status(columns(0, Some(""))).err(), Some(RowError::Moment));
}

#[test]
fn other_rows_are_read() {
    assert_eq!(decode_event("{}", "1970-01-01T00:00:01Z").ok(), Some(SECOND));
    assert_eq!(decode_event("{", "1970-01-01T00:00:01Z").err(), Some(RowError::Document));
    assert!(decode_plugin_record(Some("{}".to_owned()), "path".to_owned(), 2)
        .is_ok_and(|record| record.enabled));
    assert!(decode_plugin_record(None, "path".to_owned(), 0).is_err());
    let template = |metadata: &str| {
        decode_workflow_template(
            ONE,
            "name".to_owned(),
            ONE,
            metadata.to_owned(),
            "1970-01-01T00:00:01Z",
        )
    };
    assert!(template("{}").is_ok_and(|template| template.workflow_id == 1));
    assert_eq!(template("{").err(), Some(RowError::Document));
    let principal = decode_principal(
        ONE,
        "ada".to_owned(),
        "operator",
        Some(vec![Permission::ClusterRead]),
        1,
        "1970-01-01T00:00:01Z",
    );
    assert!(principal.is_ok_and(|principal| principal.role == Role::Operator
        && principal.active
        && principal.scopes == vec![Permission::ClusterRead]));
    assert!(decode_conversation(ONE, 0, "1970-01-01T00:00:01Z", "1970-01-01T00:00:02Z")
        .is_ok_and(|conversation| !conversation.temporary && conversation.updated_at == 2 * SECOND));
    let message = |version: i64| {
        decode_encrypted_message(ONE, "user".to_owned(), version, vec![1], vec![2], "1970-01-01T00:00:01Z")
    };
    assert!(message(1).is_ok_and(|message| message.content.ciphertext == vec![2]));
    assert_eq!(message(-1).err(), Some(RowError::Number));
}

#[test]
fn words_read_back() {
    for os in [
        OperatingSystem::Windows,
        OperatingSystem::MacOs,
        OperatingSystem::Linux,
        OperatingSystem::Unknown,
    ] {
        assert_eq!(str_to_os(os_to_str(os)), os);
    }
    for status in [
        NodeStatus::Joining,
        NodeStatus::Ready,
        NodeStatus::Suspect,
        NodeStatus::Offline,
        NodeStatus::Revoked,
        NodeStatus::Draining,
    ] {
        assert_eq!(str_to_status(status_to_str(status)), status);
    }
    for role in [Role::Owner, Role::Admin, Role::Operator, Role::Viewer, Role::Node, Role::Service] {
        assert_eq!(str_to_role(role_to_str(role)), role);
    }
    assert_eq!(str_to_status("lost"), NodeStatus::Offline);
    assert_eq!(str_to_role("root"), Role::Service);
}

#[test]
fn defaults_are_modest() {
    assert_eq!(default_model_format(), "gguf");
    assert!(default_true());
    assert_eq!(default_schedule_concurrency(), 1);
    assert_eq!(default_controller_lease_seconds(), 15);
    assert_eq!(default_event_limit(), 100);
}

// ------------------------------------------------------------------------------------------------
// Answers

#[test]
fn errors_are_answered_under_a_number() {
    let (status, body) = ApiError::forbidden("no").into_response(1);
    assert_eq!(status, 403);
    let error = match &body {
        Json::Object(fields) => &fields[0].1,
        _ => &Json::Null,
    };
    assert_eq!(text(error, "message"), "no");
    assert_eq!(text(error, "type"), "permission_error");
    assert_eq!(text(error, "code"), "forbidden");
    assert_eq!(text(error, "trace_id"), ONE);
}

#[test]
fn the_controller_says_how_it_is() {
    assert_eq!(text(&health("1.2.3"), "status"), "ok");
    assert!(ready(true, true, "1.2.3").is_ok_and(|note| text(&note, "status") == "ready"));
    assert!(ready(false, true, "1").is_err_and(|error| {
        error.message == "controller does not hold the active fencing lease"
    }));
    assert!(ready(true, false, "1").is_err_and(|error| error.message == "runtime is not ready"));
    let owner = AuthenticatedPrincipal::Owner;
    let node = AuthenticatedPrincipal::Node(1);
    assert!(list_auth_providers(&owner).is_ok() && list_auth_providers(&node).is_err());
    assert!(list_cloud_adapters(&owner).is_ok() && list_cloud_adapters(&node).is_err());
    assert!(poll_worker_lease(&node, 1).is_ok());
    assert!(poll_worker_lease(&node, 2).is_err());
}

#[test]
fn plans_over_several_nodes_may_fail() {
    assert_eq!(simulate_distributed_plan(Ok(vec![1])).ok(), Some(vec![1]));
    assert!(simulate_distributed_plan(Err("none".to_owned())).is_err_and(|error| {
        error.code == "distributed_plan_unavailable"
            && error.message == "capability-gated distributed plan is unavailable: none"
    }));
    let mut repository = Repository::new();
    let observation = || PlanObservation {
        plan_id: 50,
        observation: "{}".to_owned(),
        materially_missed: false,
    };
    assert!(record_plan_observation(&mut repository, 9, Ok(observation()), 0)
        .is_err_and(|error| error.code == "plan_not_found"));
    assert!(repository
        .create_workload(&local_workload(9, "m", "mock".to_owned()), plan(), 0)
        .is_ok());
    assert!(record_plan_observation(&mut repository, 9, Ok(observation()), 7).is_ok());
    assert!(repository.observations[0].workload_id == 9 && repository.observations[0].observed_at == 7);
    assert!(record_plan_observation(&mut repository, 9, Err("bad".to_owned()), 0)
        .is_err_and(|error| error.code == "invalid_plan_observation"));
}

// ------------------------------------------------------------------------------------------------
// Executions

fn plan() -> PlanSummary {
    PlanSummary {
        id: 50,
        strategy: "single_node".to_owned(),
        selected_nodes: vec![2],
        encoded: "{}".to_owned(),
        created_at: 7,
    }
}

fn content() -> EncryptedContent {
    EncryptedContent { version: 1, nonce: vec![1], ciphertext: vec![2] }
}

#[test]
fn remote_executions_are_queued_sealed() {
    let mut repository = Repository::new();
    assert!(queue_remote_execution(&mut repository, 5, 9, 2, None, 10, 7)
        .is_err_and(|error| error.code == "encrypted_content_unavailable"));
    assert!(queue_remote_execution(&mut repository, 5, 9, 2, Some(content()), 10, 7).is_ok());
    assert!(repository.leases.get(&5).is_some_and(|lease| lease.status == LeaseStatus::Pending
        && lease.ciphertext == vec![2]
        && lease.attempt == Attempt::First));
    assert!(queue_remote_execution(&mut repository, 5, 9, 2, Some(content()), 10, 7)
        .is_err_and(|error| error.code == "internal_error"));
}

#[test]
fn a_cloud_workload_that_is_not_stored_gives_its_reservation_back() {
    let mut repository = Repository::new();
    repository.put_cloud_policy(CloudAdapterPolicy {
        id: 4,
        provider_plugin: OPENAI_COMPATIBLE_PROVIDER.to_owned(),
        enabled: true,
        models: vec!["gpt".to_owned()],
        endpoint: Some("https://api.example".to_owned()),
        credential_reference: "reference".to_owned(),
        regions: vec![],
        input_cost_per_million_tokens_micros: 1,
        output_cost_per_million_tokens_micros: 1,
        monthly_cost_limit_micros: 10,
        monthly_network_limit_bytes: 10,
    }, 0);
    let workload = local_workload(9, "m", "mock".to_owned());
    assert!(repository.reserve_cloud_usage(4, 9, 5, 5, 10, 10, 7).is_ok_and(|event| event.is_some()));
    assert!(store_cloud_execution(&mut repository, &workload, plan(), 8).is_ok());
    assert_eq!(repository.cloud_usage[0].actual, None);
    let again = store_cloud_execution(&mut repository, &workload, plan(), 8);
    assert!(again.is_err_and(|(error, event)| error.code == "internal_error" && event.is_some()));
    assert_eq!(repository.cloud_usage[0].actual, Some((0, 0)));
}

#[test]
fn a_workload_reserves_once() {
    let mut repository = Repository::new();
    assert!(repository.reserve_cloud_usage(4, 9, 5, 5, 10, 10, 7).is_ok_and(|event| event.is_some()));
    assert!(repository.reserve_cloud_usage(4, 9, 1, 1, 10, 10, 7).is_err());
    assert!(repository.reserve_cloud_usage(4, 8, 6, 1, 10, 10, 7).is_ok_and(|event| event.is_none()));
    assert_eq!(repository.cloud_usage.len(), 1);
}

#[test]
fn worker_events_and_runtime_events_correspond() {
    let event = worker_event(RuntimeEvent::TextDelta("a".to_owned()));
    assert!(matches!(&event, WorkerRuntimeEvent::TextDelta { text } if text == "a"));
    assert!(matches!(worker_runtime_event(event), RuntimeEvent::TextDelta(text) if text == "a"));
    let request = submit_event(1, 1, 3, b"{}".to_vec());
    assert_eq!(
        request.path,
        format!("/constellation/v1/workers/{ONE}/leases/{ONE}/events")
    );
    let expired = |retried: bool, output_started: bool| ExpiredLeaseAction {
        lease_id: 5,
        retried,
        output_started,
        event: event_of_test(),
    };
    assert!(spawn_liveness_monitor(&expired(true, false)).is_none());
    assert!(matches!(
        spawn_liveness_monitor(&expired(false, true)),
        Some(RuntimeEvent::Failure { output_started: true, .. })
    ));
}

fn event_of_test() -> constellation::repository::ClusterEvent {
    event("lease.expired", Fields::new())
}

// ------------------------------------------------------------------------------------------------
// Models, workflows and memberships

#[test]
fn models_are_stored_when_the_store_has_them() {
    let manifest = |pinned: bool| ModelManifest {
        alias: "m".to_owned(),
        sha256: "ab".to_owned(),
        format: "gguf".to_owned(),
        quantization: "q4".to_owned(),
        size_bytes: 5,
        pinned,
        encoded: "{}".to_owned(),
    };
    let mut repository = Repository::new();
    assert!(verify_local_model(&mut repository, Ok(manifest(false)), 1).is_ok());
    assert!(pin_local_model(&mut repository, Ok(manifest(true)), 2).is_ok());
    assert!(repository.models.get(&"m".to_owned()).is_some_and(|model| model.pinned));
    assert!(pin_local_model(&mut repository, Err(ModelStoreError::InvalidAlias), 3)
        .is_err_and(|error| error.code == "invalid_model_alias"));
}

#[test]
fn workflows_are_stored_valid_and_sealed() {
    let mut repository = Repository::new();
    let definition = || ValidDefinition {
        name: "w".to_owned(),
        sha256: "ab".to_owned(),
        encoded: b"{}".to_vec(),
    };
    assert!(persist_workflow_definition(&mut repository, 1, Err("bad".to_owned()), Some(content()), 0)
        .is_err_and(|error| error.code == "invalid_workflow" && error.message == "bad"));
    assert!(persist_workflow_definition(&mut repository, 1, Ok(definition()), None, 0)
        .is_err_and(|error| error.code == "encrypted_content_unavailable"));
    let stored = persist_workflow_definition(&mut repository, 1, Ok(definition()), Some(content()), 0);
    assert!(stored.is_ok_and(|(_, note)| text(&note, "sha256") == "ab"));
    assert!(repository.workflow_definition(1).is_some_and(|workflow| workflow.revision == 1));
    let schedule = || WorkflowSchedule {
        id: 2,
        workflow_id: 1,
        cron_utc: "* * * * *".to_owned(),
        enabled: true,
        concurrency_limit: 1,
    };
    assert!(create_workflow_schedule(&mut repository, schedule(), Ok(60 * SECOND), 0).is_ok());
    assert!(create_workflow_schedule(&mut repository, schedule(), Err("bad".to_owned()), 0)
        .is_err_and(|error| error.code == "invalid_workflow_schedule"));
    repository.put_workflow_webhook(3, 1, "ab".to_owned(), true, 0);
    assert!(repository.workflow_webhook(3).is_some_and(|webhook| webhook.enabled));
    let shown = workflow_run_response(b"{\"id\":1}".to_vec(), Some(vec!["s".to_owned()]));
    assert!(matches!(
        &shown,
        Json::Object(fields) if matches!(&fields[1].1, Json::Array(steps) if steps.len() == 1)
    ));
}

#[test]
fn policies_are_kept() {
    let mut repository = Repository::new();
    assert!(!repository.network_policy().remote_enabled);
    repository.put_network_policy(
        NetworkPolicy {
            remote_enabled: true,
            managed_relay_enabled: false,
            self_hosted_relay: None,
            monthly_remote_byte_quota: 5,
        },
        1,
    );
    assert_eq!(repository.network_policy().monthly_remote_byte_quota, 5);
    assert!(repository.put_resource_policy(5, "{}".to_owned(), "local-owner", 1).is_none());
    repository.register_node(Node {
        id: 5,
        name: "n".to_owned(),
        os: OperatingSystem::Linux,
        architecture: "x86_64".to_owned(),
        status: NodeStatus::Ready,
        capabilities: "{}".to_owned(),
        last_seen_at: 0,
    }, 0);
    assert!(repository.put_resource_policy(5, "{}".to_owned(), "local-owner", 1).is_some());
    assert!(repository
        .resource_policy(5)
        .is_some_and(|policy| policy.is_some_and(|policy| policy.updated_by == "local-owner")));
}

#[test]
fn certificates_are_found_in_a_membership() {
    let remote = ControllerClient::new("https://controller.example", None);
    let remote = remote.unwrap_or_else(|error| panic!("{}", error.message()));
    let bundle = br#"{"device_certificate":{"certificate_pem":"c","certificate_authority_pem":"a"}}"#;
    assert!(remote
        .membership_client(bundle)
        .is_ok_and(|found| found.is_some_and(|found| found.authority_pem == "a")));
    assert_eq!(remote.membership_client(b"{}").err(), Some(CliError::NoCertificate));
    let half = br#"{"device_certificate":{"certificate_pem":"c"}}"#;
    assert_eq!(remote.membership_client(half).err(), Some(CliError::NoAuthority));
    let local = ControllerClient::new("http://127.0.0.1:9777", None);
    let local = local.unwrap_or_else(|error| panic!("{}", error.message()));
    assert!(local.membership_client(b"{}").is_ok_and(|found| found.is_none()));
}

// ------------------------------------------------------------------------------------------------
// Text and digests

#[test]
fn white_space_is_that_of_unicode() {
    let ours: Vec<char> = ('\0'..=char::MAX).filter(|c| is_white_space(*c)).collect();
    let theirs: Vec<char> = ('\0'..=char::MAX).filter(|c| c.is_whitespace()).collect();
    assert_eq!(ours, theirs);
    assert_eq!(ours.len(), 25);
}

#[test]
fn digests_are_read_in_either_case() {
    let lower = "00ff10ab".repeat(8);
    let upper = lower.to_uppercase();
    let digest = decode_sha256(&lower).unwrap_or_else(|| panic!("a digest"));
    assert_eq!(&digest[..4], &[0x00, 0xff, 0x10, 0xab]);
    assert_eq!(decode_sha256(&upper), Some(digest));
    assert_eq!(decode_sha256(&lower[..62]), None);
    assert_eq!(decode_sha256(&"g".repeat(64)), None);
}

#[test]
fn moments_are_read_and_written_over_the_whole_calendar() {
    assert_eq!(month_of(-1), (1969, 12));
    assert_eq!(month_of(32_503_680_000 * SECOND), (3000, 1));
    assert_eq!(month_of(i128::MAX), (262_142, 12));
    assert_eq!(month_of(i128::MIN), (-262_143, 1));
    assert_eq!(write_moment(0), "1970-01-01T00:00:00+00:00");
    assert_eq!(write_moment(-SECOND / 2), "1969-12-31T23:59:59.500+00:00");
    assert_eq!(write_moment(i128::MAX), "+262142-12-31T23:59:59.999999999+00:00");
    for moment in [0, -1, SECOND / 2, 253_402_300_800 * SECOND - 1, -62_167_219_200 * SECOND] {
        assert_eq!(read_moment_text(&write_moment(moment)), Some(moment));
    }
    assert_eq!(read_moment_text(&write_moment(i128::MAX)), None);
    assert_eq!(read_moment_text("2016-12-31T23:59:60.5Z"), read_moment_text("2017-01-01T00:00:00.5Z"));
    assert_eq!(time_between(i128::MIN, i128::MAX), u128::MAX);
    assert!(has_passed(5, -3, 2) && !has_passed(5, -3, 1) && !has_passed(0, 1, 0));
}
