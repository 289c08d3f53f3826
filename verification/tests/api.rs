//! The controller's rules on requests: who may do what, within which bounds, and what is answered.

use base64::Engine;
use constellation::api::artifacts::{
    create_workflow_artifact, create_workflow_template, create_workflow_webhook,
    download_workflow_artifact, instantiate_workflow_template, store_workflow_artifact,
    trigger_workflow_webhook, WorkflowArtifactRequest,
};
use constellation::api::auth::{
    authenticate, authenticated_principal_id, bearer_token, node_route_allowed, principal_allows,
    required_service_permission, token_hash, Admitted, AuthFacts, AuthOutcome, AuthRequest,
    AuthenticatedPrincipal, Membership, Method, Permission, Principal,
};
use constellation::api::chat::{
    append_conversation_message, create_conversation, message_associated_data, message_content,
    title_associated_data,
};
use constellation::api::cluster::{
    acquire_controller_lease, cancel_workload, check_controller_lease, cluster_summary,
    health, ready, run_digital_twin, Stop, SummarizedNode,
};
use constellation::api::devices::{
    device_heartbeat, ensure_node_scope, heartbeat_answer, record_trace_span,
    rotate_device_credentials, safe_trace_attributes, stale_worker_event, submit_benchmark,
    submit_worker_event, update_device_policy, validate_worker_event, BenchmarkNumbers,
};
use constellation::api::limiter::AuthRateLimiter;
use constellation::api::network::{
    check_candidates, chunk_tag, create_transfer_ticket, disable_remote_networking,
    download_model_chunk, simulate_transport, transfer_ticket, update_network_policy,
    validate_network_policy, ModelChunks, TransportChoice,
};
use constellation::api::passkeys::{
    issue_browser_session, passkey_not_stored, passkey_registration_allowed, sign_in_with_passkey,
    store_passkey, PasskeyState, PendingCeremony, VerifiedPasskey,
};
use constellation::api::routes::{allowed_headers, allowed_methods, allowed_origins, router, Endpoint};
use constellation::api::teams::{
    begin_oidc_login, component_file, create_principal, create_team, execute_plugin,
    finish_oidc_login, grant_plugin, install_plugin, link_external_identity, place_component,
    plugin_answer, put_auth_provider, put_cloud_adapter, put_team_member, CreatePrincipalRequest,
    PluginOutcome,
};
use constellation::api::{ApiError, IdentityError, ModelStoreError, NetworkError, RuntimeError};
use constellation::cloud::{CloudAdapterPolicy, OPENAI_COMPATIBLE_PROVIDER};
use constellation::json::Json;
use constellation::names::{NodeStatus, Role};
use constellation::repository::leases::WorkloadCancellation;
use constellation::repository::{
    event, ControllerLease, NetworkPolicy, Plugin, PrincipalRow, Repository, RepositoryError,
    Webhook,
};
use constellation::json::Fields;
use constellation::runtime::WorkerRuntimeEvent;
use sha2::Digest;

const SECOND: i128 = 1_000_000_000;

fn owner() -> AuthenticatedPrincipal {
    AuthenticatedPrincipal::Owner
}

fn node(id: u128) -> AuthenticatedPrincipal {
    AuthenticatedPrincipal::Node(id)
}

fn human(id: u128, allowed: &[Permission]) -> AuthenticatedPrincipal {
    AuthenticatedPrincipal::Human(Principal { id, allowed: allowed.to_vec() })
}

fn service(id: u128, allowed: &[Permission]) -> AuthenticatedPrincipal {
    AuthenticatedPrincipal::Service(Principal { id, allowed: allowed.to_vec() })
}

fn code<T>(result: Result<T, ApiError>) -> (u16, String) {
    match result {
        Ok(_) => (0, String::new()),
        Err(error) => (error.status, error.code),
    }
}

fn is<T>(result: Result<T, ApiError>, status: u16, expected: &str) {
    assert_eq!(code(result), (status, expected.to_owned()));
}

fn sha256(bytes: &[u8]) -> String {
    format!("{:x}", sha2::Sha256::digest(bytes))
}

fn base64url(bytes: &[u8]) -> String {
    base64::engine::general_purpose::URL_SAFE_NO_PAD.encode(bytes)
}

// ------------------------------------------------------------------------------------------------
// Authentication

fn request(method: Method, path: &str, token: Option<&str>) -> AuthRequest {
    AuthRequest {
        method,
        path: path.to_owned(),
        authorization: token.map(|token| format!("Bearer {token}")),
        websocket_protocol: None,
        membership: None,
    }
}

fn nothing() -> AuthFacts {
    AuthFacts { controller_active: None, session: None, service: None, membership: None }
}

fn key_hash(key: &str) -> Option<Vec<u8>> {
    Some(sha2::Sha256::digest(key.as_bytes()).to_vec())
}

#[test]
fn the_owner_comes_in_with_the_key() {
    let outcome = authenticate(
        &request(Method::Get, "/v1/models", Some("owner-key")),
        &key_hash("owner-key"),
        false,
        &nothing(),
    );
    assert!(matches!(outcome, AuthOutcome::Admit(Admitted::Owner)));
    let outcome = authenticate(
        &request(Method::Get, "/v1/models", Some("owner-kez")),
        &key_hash("owner-key"),
        false,
        &AuthFacts { session: Some(None), service: Some(None), ..nothing() },
    );
    assert!(matches!(outcome, AuthOutcome::Reject(error) if error.status == 401));
    let outcome = authenticate(&request(Method::Get, "/v1/models", None), &None, false, &nothing());
    assert!(matches!(outcome, AuthOutcome::Admit(Admitted::Owner)));
    let outcome = authenticate(&request(Method::Get, "/health", None), &key_hash("k"), false, &nothing());
    assert!(matches!(outcome, AuthOutcome::Admit(Admitted::Anyone)));
}

#[test]
fn a_standby_takes_no_writes() {
    let write = request(Method::Post, "/v1/chat/completions", Some("owner-key"));
    let outcome = authenticate(&write, &key_hash("owner-key"), false, &nothing());
    assert!(matches!(outcome, AuthOutcome::AskController));
    let standby = AuthFacts { controller_active: Some(false), ..nothing() };
    let outcome = authenticate(&write, &key_hash("owner-key"), false, &standby);
    assert!(matches!(outcome, AuthOutcome::Reject(error) if error.status == 503
        && error.message == "this controller is a standby or its fencing lease has expired"));
    let put = request(Method::Put, "/constellation/v1/network/policy", Some("owner-key"));
    let outcome = authenticate(&put, &key_hash("owner-key"), false, &standby);
    assert!(matches!(outcome, AuthOutcome::Admit(Admitted::Owner)));
    let backup = request(Method::Get, "/constellation/v1/backup", Some("owner-key"));
    let outcome = authenticate(&backup, &key_hash("owner-key"), false, &standby);
    assert!(matches!(outcome, AuthOutcome::Reject(error) if error.status == 503));
}

#[test]
fn principals_need_the_permission_of_the_route() {
    let read = request(Method::Get, "/v1/models", Some("token"));
    let asked = authenticate(&read, &key_hash("key"), false, &nothing());
    assert!(matches!(asked, AuthOutcome::AskSession(hash) if hash == sha256(b"token")));
    let known = AuthFacts {
        session: Some(Some(Principal { id: 7, allowed: vec![Permission::ClusterRead] })),
        ..nothing()
    };
    let outcome = authenticate(&read, &key_hash("key"), false, &known);
    assert!(matches!(outcome, AuthOutcome::Admit(Admitted::Human)));
    let powerless = AuthFacts {
        session: Some(Some(Principal { id: 7, allowed: vec![Permission::TeamAdmin] })),
        ..nothing()
    };
    let outcome = authenticate(&read, &key_hash("key"), false, &powerless);
    assert!(matches!(outcome, AuthOutcome::Reject(error)
        if error.message == "principal does not have the required permission"));
    let scoped = AuthFacts {
        session: Some(None),
        service: Some(Some(Principal { id: 7, allowed: vec![] })),
        ..nothing()
    };
    let outcome = authenticate(&read, &key_hash("key"), false, &scoped);
    assert!(matches!(outcome, AuthOutcome::Reject(error)
        if error.message == "service identity does not have the required scope"));
    let asked = authenticate(
        &read,
        &key_hash("key"),
        false,
        &AuthFacts { session: Some(None), ..nothing() },
    );
    assert!(matches!(asked, AuthOutcome::AskService(hash) if hash == sha256(b"token")));
}

#[test]
fn nodes_come_in_by_their_membership() {
    let beat = AuthRequest {
        membership: Some(base64url(b"{\"serial\":1}")),
        ..request(Method::Post, "/constellation/v1/devices/1/heartbeat", None)
    };
    let active = AuthFacts { controller_active: Some(true), ..nothing() };
    let asked = authenticate(&beat, &key_hash("key"), false, &active);
    assert!(matches!(asked, AuthOutcome::AskMembership(bytes) if bytes == b"{\"serial\":1}"));
    let member = |peer: Option<&str>| AuthFacts {
        controller_active: Some(true),
        membership: Some(Some(Membership {
            device_id: 9,
            verified: true,
            active: true,
            peer_common_name: peer.map(str::to_owned),
        })),
        ..nothing()
    };
    let outcome = authenticate(&beat, &key_hash("key"), false, &member(None));
    assert!(matches!(outcome, AuthOutcome::Admit(Admitted::Node(9))));
    let outcome = authenticate(&beat, &key_hash("key"), true, &member(None));
    assert!(matches!(outcome, AuthOutcome::Reject(error) if error.status == 401));
    let name = "00000000-0000-0000-0000-000000000009";
    let outcome = authenticate(&beat, &key_hash("key"), true, &member(Some(name)));
    assert!(matches!(outcome, AuthOutcome::Admit(Admitted::Node(9))));
    let elsewhere = AuthRequest { path: "/v1/chat/completions".to_owned(), ..beat };
    let outcome = authenticate(&elsewhere, &key_hash("key"), false, &member(None));
    assert!(matches!(outcome, AuthOutcome::Reject(error) if error.status == 401));
}

#[test]
fn tokens_come_in_two_headers() {
    let text = |value: &str| Some(value.to_owned());
    assert_eq!(bearer_token(&text("Bearer abc"), &None).as_deref(), Some("abc"));
    assert_eq!(bearer_token(&text("Basic abc"), &None), None);
    assert_eq!(
        bearer_token(&None, &text("chat, constellation.bearer.abc ,other")).as_deref(),
        Some("abc")
    );
    assert_eq!(bearer_token(&text("Bearer one"), &text("constellation.bearer.two")).as_deref(), Some("one"));
    assert_eq!(
        token_hash("abc"),
        "ba7816bf8f01cfea414140de5dae2223b00361a396177a9cb410ff61f20015ad"
    );
}

#[test]
fn routes_have_their_permissions() {
    let cases = [
        (Method::Get, "/v1/models", Permission::ClusterRead),
        (Method::Post, "/v1/responses", Permission::WorkloadExecute),
        (Method::Post, "/constellation/v1/emergency/disable-remote", Permission::EmergencyControl),
        (Method::Post, "/constellation/v1/devices/1/revoke", Permission::EmergencyControl),
        (Method::Post, "/constellation/v1/plugins/a/execute", Permission::WorkflowOperate),
        (Method::Get, "/constellation/v1/plugins", Permission::ClusterRead),
        (Method::Post, "/constellation/v1/plugins", Permission::PluginAdmin),
        (Method::Get, "/constellation/v1/auth-providers", Permission::ProviderAdmin),
        (Method::Post, "/constellation/v1/auth/passkeys/registration/begin", Permission::ClusterRead),
        (Method::Get, "/constellation/v1/teams", Permission::TeamAdmin),
        (Method::Get, "/constellation/v1/workflows", Permission::ClusterRead),
        (Method::Post, "/constellation/v1/workflow-runs/1/events", Permission::WorkflowOperate),
        (Method::Get, "/constellation/v1/workloads/1/plan", Permission::WorkloadExecute),
        (Method::Get, "/constellation/v1/devices", Permission::ClusterRead),
        (Method::Post, "/constellation/v1/devices", Permission::ClusterAdmin),
    ];
    for (method, path, permission) in cases {
        assert_eq!(required_service_permission(method, path), permission);
    }
    assert!(node_route_allowed(Method::Post, "/constellation/v1/workers/1/leases/2/events"));
    assert!(!node_route_allowed(Method::Post, "/constellation/v1/workflow-runs/2/events"));
    assert!(node_route_allowed(Method::Get, "/constellation/v1/models/chunks/ab"));
    assert!(node_route_allowed(Method::Patch, "/constellation/v1/devices/1/policy"));
    assert!(!node_route_allowed(Method::Put, "/constellation/v1/devices/1/policy"));
    assert!(!node_route_allowed(Method::Get, "/constellation/v1/devices"));
}

#[test]
fn principals_have_their_names() {
    assert_eq!(authenticated_principal_id(&owner()), "local-owner");
    assert_eq!(
        authenticated_principal_id(&node(1)),
        "node:00000000-0000-0000-0000-000000000001"
    );
    assert_eq!(
        authenticated_principal_id(&service(2, &[])),
        "00000000-0000-0000-0000-000000000002"
    );
    assert!(principal_allows(&owner(), Permission::ClusterAdmin));
    assert!(!principal_allows(&human(1, &[Permission::ClusterRead]), Permission::ClusterAdmin));
}

#[test]
fn routes_are_told_apart() {
    let routes = router();
    assert_eq!(routes.len(), 94);
    let found = |method: Method, path: &str| {
        routes
            .iter()
            .find(|route| route.method == method && route.path == path)
            .map(|route| route.endpoint)
    };
    assert_eq!(found(Method::Post, "/v1/chat/completions"), Some(Endpoint::ChatCompletions));
    assert_eq!(found(Method::Get, "/v1/chat/completions"), None);
    for (index, route) in routes.iter().enumerate() {
        assert!(routes[..index]
            .iter()
            .all(|other| other.method != route.method || other.path != route.path));
    }
    assert!(allowed_headers().contains(&"authorization"));
    assert!(allowed_methods().contains(&Method::Post));
    let origins = allowed_origins("https://home.example");
    assert_eq!(origins[0], "https://home.example");
    assert_eq!(origins.len(), 6);
    assert!(origins.contains(&"tauri://localhost".to_owned()));
}

#[test]
fn a_window_takes_so_many_attempts() {
    let mut limiter = AuthRateLimiter::default();
    for attempt in 0..120 {
        assert!(limiter.try_admit(attempt));
    }
    assert!(!limiter.try_admit(59_999_999_999));
    assert!(limiter.try_admit(60_000_000_000));
    assert!(!limiter.try_admit(60_000_000_000));
}

// ------------------------------------------------------------------------------------------------
// Errors

#[test]
fn errors_have_their_statuses() {
    let cases = [
        (ApiError::bad_request("code", "m"), 400, "code", "invalid_request_error"),
        (ApiError::unauthorized("m"), 401, "unauthorized", "authentication_error"),
        (ApiError::forbidden("m"), 403, "forbidden", "permission_error"),
        (ApiError::rate_limited("m"), 429, "rate_limit_exceeded", "rate_limit_error"),
        (ApiError::not_found("code", "m"), 404, "code", "not_found_error"),
        (ApiError::unavailable("m"), 503, "unavailable", "server_error"),
        (ApiError::generation_cancelled(), 409, "cancelled", "invalid_request_error"),
        (ApiError::generation_interrupted(true), 503, "generation_interrupted", "server_error"),
        (ApiError::secret(), 503, "encrypted_content_unavailable", "server_error"),
        (ApiError::internal(), 500, "internal_error", "server_error"),
        (ApiError::identity(IdentityError::InvitationExpired), 410, "invitation_expired", "invalid_request_error"),
        (ApiError::identity(IdentityError::InvitationInvalidated), 410, "invitation_invalidated", "authentication_error"),
        (ApiError::identity(IdentityError::InvalidProof), 401, "invalid_enrollment_proof", "authentication_error"),
        (ApiError::identity(IdentityError::InvalidHandshake), 401, "invalid_enrollment_proof", "authentication_error"),
        (ApiError::identity(IdentityError::ApprovalRequired), 409, "approval_required", "invalid_request_error"),
        (ApiError::identity(IdentityError::InvitationUnavailable), 404, "invitation_unavailable", "not_found_error"),
        (ApiError::identity(IdentityError::SessionConsumed), 404, "invitation_unavailable", "not_found_error"),
        (ApiError::identity(IdentityError::Certificate), 503, "unavailable", "server_error"),
        (ApiError::runtime(RuntimeError::ModelUnavailable), 404, "model_not_found", "not_found_error"),
        (ApiError::runtime(RuntimeError::UnsupportedFeature("f".to_owned())), 400, "unsupported_feature", "invalid_request_error"),
        (ApiError::runtime(RuntimeError::Unavailable), 503, "unavailable", "server_error"),
        (ApiError::runtime(RuntimeError::Execution), 503, "unavailable", "server_error"),
        (ApiError::model_store(ModelStoreError::InvalidAlias), 400, "invalid_model_alias", "invalid_request_error"),
        (ApiError::model_store(ModelStoreError::LicenseNotAccepted), 400, "license_not_accepted", "invalid_request_error"),
        (ApiError::model_store(ModelStoreError::NotFound), 404, "model_not_found", "not_found_error"),
        (ApiError::model_store(ModelStoreError::Verification), 400, "model_verification_failed", "invalid_request_error"),
        (ApiError::model_store(ModelStoreError::Io), 503, "unavailable", "server_error"),
        (ApiError::model_store(ModelStoreError::Json), 503, "unavailable", "server_error"),
        (ApiError::network(NetworkError::NoTrustedTransport, "m"), 400, "no_trusted_transport", "invalid_request_error"),
        (ApiError::network(NetworkError::RemoteDisabled, "m"), 400, "remote_networking_disabled", "invalid_request_error"),
        (ApiError::network(NetworkError::ManagedRelayDisabled, "m"), 400, "managed_relay_disabled", "invalid_request_error"),
        (ApiError::network(NetworkError::BandwidthQuotaExceeded, "m"), 400, "bandwidth_quota_exceeded", "invalid_request_error"),
        (ApiError::network(NetworkError::KillSwitchEngaged, "m"), 400, "remote_kill_switch_engaged", "invalid_request_error"),
    ];
    for (error, status, code, kind) in cases {
        assert_eq!((error.status, error.code.as_str(), error.kind.as_str()), (status, code, kind));
        assert!(!error.message.is_empty());
    }
    assert_ne!(
        ApiError::generation_interrupted(true).message,
        ApiError::generation_interrupted(false).message
    );
}

// ------------------------------------------------------------------------------------------------
// Conversations

#[test]
fn temporary_chats_are_never_stored() {
    is(create_conversation(true, None), 400, "temporary_chat_not_persisted");
    is(create_conversation(false, Some("t".repeat(201))), 400, "invalid_conversation_title");
    assert!(create_conversation(false, Some("t".repeat(200))).is_ok_and(|title| title.is_some()));
    assert!(create_conversation(false, Some(String::new())).is_ok_and(|title| title.is_none()));
    assert_eq!(
        title_associated_data(1),
        "conversation:00000000-0000-0000-0000-000000000001:title"
    );
}

#[test]
fn messages_are_bound_to_their_place() {
    let one = message_associated_data(1, 2, "user");
    assert!(one.contains("00000000-0000-0000-0000-000000000001"));
    assert!(one.contains("00000000-0000-0000-0000-000000000002"));
    assert_ne!(one, message_associated_data(2, 1, "user"));
    assert_ne!(one, message_associated_data(1, 2, "assistant"));
    assert_eq!(append_conversation_message(1, 2, "user", "hello", true).ok(), Some(one));
    assert!(append_conversation_message(1, 2, "root", "hello", true).is_err());
    assert!(append_conversation_message(1, 2, "user", "", true).is_err());
    is(append_conversation_message(1, 2, "user", "hello", false), 404, "conversation_not_found");
    assert_eq!(message_content(Some(Some("text".to_owned()))).ok().as_deref(), Some("text"));
    assert!(message_content(None).is_err());
}

// ------------------------------------------------------------------------------------------------
// Devices

#[test]
fn nodes_manage_only_themselves() {
    assert!(ensure_node_scope(&node(1), 1).is_ok());
    is(ensure_node_scope(&node(1), 2), 403, "forbidden");
    assert!(ensure_node_scope(&owner(), 2).is_ok());
    assert!(device_heartbeat(&node(1), 1).is_ok());
    assert!(device_heartbeat(&node(1), 2).is_err());
    assert!(rotate_device_credentials(&node(1), 1, 1).is_ok());
    assert!(rotate_device_credentials(&node(1), 2, 1).is_err());
    assert_eq!(heartbeat_answer(Some(NodeStatus::Ready)).ok(), Some(NodeStatus::Ready));
    assert!(heartbeat_answer(None).is_err());
}

#[test]
fn worker_events_are_bounded() {
    let delta = |length: usize| WorkerRuntimeEvent::TextDelta { text: "x".repeat(length) };
    assert!(validate_worker_event(1, &delta(65_536)).is_ok());
    is(validate_worker_event(1, &delta(65_537)), 400, "worker_delta_too_large");
    is(validate_worker_event(0, &delta(1)), 400, "invalid_worker_sequence");
    let loading = |progress: f64| WorkerRuntimeEvent::Loading { progress: progress.to_bits() };
    for progress in [0.0, -0.0, 0.5, 1.0] {
        assert!(validate_worker_event(1, &loading(progress)).is_ok());
    }
    for progress in [-0.1, 1.000_001, f64::NAN, f64::INFINITY, f64::NEG_INFINITY] {
        is(validate_worker_event(1, &loading(progress)), 400, "invalid_worker_progress");
    }
    let finished = |reason: &str| WorkerRuntimeEvent::Finished {
        input_tokens: 0,
        output_tokens: 0,
        finish_reason: reason.to_owned(),
    };
    assert!(validate_worker_event(1, &finished("stop")).is_ok());
    is(validate_worker_event(1, &finished("")), 400, "invalid_finish_reason");
    let failure = |code: &str, message: &str| WorkerRuntimeEvent::Failure {
        code: code.to_owned(),
        message: message.to_owned(),
        retryable: false,
        output_started: false,
    };
    assert!(validate_worker_event(1, &failure("code", "")).is_ok());
    is(validate_worker_event(1, &failure("", "")), 400, "invalid_worker_failure");
    is(validate_worker_event(1, &failure("code", &"m".repeat(1_025))), 400, "invalid_worker_failure");
    assert!(submit_worker_event(&node(1), 1, 1, &delta(1)).is_ok());
    assert!(submit_worker_event(&node(2), 1, 1, &delta(1)).is_err());
    assert_eq!(stale_worker_event().status, 400);
}

#[test]
fn policies_are_loosened_only_by_their_owners() {
    let admin = [Permission::ClusterAdmin];
    assert_eq!(update_device_policy(&owner(), 1, 1, true, true, false).ok().as_deref(), Some("local-owner"));
    assert_eq!(update_device_policy(&owner(), 2, 1, true, true, true).ok().as_deref(), Some("remote-owner"));
    is(update_device_policy(&owner(), 2, 1, true, true, false), 403, "forbidden");
    assert_eq!(update_device_policy(&node(2), 2, 1, true, true, false).ok().as_deref(), Some("node-owner"));
    is(update_device_policy(&human(5, &admin), 2, 1, true, true, false), 403, "forbidden");
    is(update_device_policy(&human(5, &[]), 2, 1, true, true, true), 403, "forbidden");
    assert_eq!(
        update_device_policy(&service(5, &admin), 2, 1, true, true, true).ok().as_deref(),
        Some("00000000-0000-0000-0000-000000000005")
    );
    is(update_device_policy(&owner(), 1, 1, false, true, true), 400, "invalid_resource_policy");
    is(update_device_policy(&owner(), 1, 1, true, false, true), 404, "device_not_found");
}

#[test]
fn benchmarks_are_plain_measurements() {
    let numbers = BenchmarkNumbers {
        tokens_per_second: 10.0_f64.to_bits(),
        time_to_first_token_ms: 0.0_f64.to_bits(),
        network_latency_ms: (-0.0_f64).to_bits(),
        network_bandwidth_mbps: 1e300_f64.to_bits(),
        jitter_ms: f64::MIN_POSITIVE.to_bits(),
        packet_loss: 1.0_f64.to_bits(),
        sample_count: 1,
    };
    assert!(submit_benchmark(&node(1), 1, numbers, true).is_ok());
    is(submit_benchmark(&node(1), 2, numbers, true), 403, "forbidden");
    is(submit_benchmark(&owner(), 1, numbers, false), 404, "device_not_found");
    let unsampled = BenchmarkNumbers { sample_count: 0, ..numbers };
    is(submit_benchmark(&owner(), 1, unsampled, true), 400, "invalid_benchmark");
    let lossy = BenchmarkNumbers { packet_loss: 1.1_f64.to_bits(), ..numbers };
    is(submit_benchmark(&owner(), 1, lossy, true), 400, "invalid_benchmark");
    let odd = BenchmarkNumbers { jitter_ms: f64::NAN.to_bits(), ..numbers };
    is(submit_benchmark(&owner(), 1, odd, true), 400, "invalid_benchmark");
    let negative = BenchmarkNumbers { jitter_ms: (-1.0_f64).to_bits(), ..numbers };
    is(submit_benchmark(&owner(), 1, negative, true), 400, "invalid_benchmark");
}

#[test]
fn traces_hold_nothing_private() {
    let object = |fields: Vec<(&str, Json)>| {
        Json::Object(fields.into_iter().map(|(name, value)| (name.to_owned(), value)).collect())
    };
    assert!(safe_trace_attributes(&object(vec![("stage", Json::Text("x".to_owned())), ("bytes", Json::Number(1))])));
    assert!(!safe_trace_attributes(&object(vec![("prompt", Json::Text("x".to_owned()))])));
    assert!(!safe_trace_attributes(&object(vec![("stage", Json::Text("x".repeat(129)))])));
    assert!(!safe_trace_attributes(&object(vec![("stage", Json::Array(vec![]))])));
    assert!(!safe_trace_attributes(&Json::Null));
    assert!(record_trace_span(&node(1), 1, "decode", "ok", &object(vec![])).is_ok());
    is(record_trace_span(&node(1), 2, "decode", "ok", &object(vec![])), 403, "forbidden");
    is(record_trace_span(&owner(), 1, "", "ok", &object(vec![])), 400, "invalid_trace_span");
    is(record_trace_span(&owner(), 1, "decode", "fine", &object(vec![])), 400, "invalid_trace_span");
}

// ------------------------------------------------------------------------------------------------
// The cluster

#[test]
fn the_summary_counts_ready_computers() {
    let ready = SummarizedNode { status: NodeStatus::Ready, usable_memory_bytes: 1_610_612_736 };
    let offline = SummarizedNode { status: NodeStatus::Offline, usable_memory_bytes: 9 };
    let one = cluster_summary(&[ready, offline], &["mock".to_owned(), "llama.cpp".to_owned()]);
    assert_eq!((one.ready_nodes, one.total_nodes, one.usable_memory_bytes), (1, 2, 1_610_612_736));
    assert_eq!(one.active_runtime, "mock, llama.cpp");
    assert_eq!(one.message, "1 computer is ready with 1.5 GiB of usable AI memory.");
    let two = cluster_summary(&[ready, ready], &[]);
    assert_eq!(two.message, "2 computers are ready with 3.0 GiB of usable AI memory.");
}

#[test]
fn controllers_are_elected_by_administrators() {
    assert!(check_controller_lease(&owner(), 10).is_ok());
    assert!(check_controller_lease(&owner(), 60).is_ok());
    is(check_controller_lease(&owner(), 9), 400, "invalid_controller_lease");
    is(check_controller_lease(&owner(), 61), 400, "invalid_controller_lease");
    is(check_controller_lease(&human(1, &[]), 15), 403, "forbidden");
    is(acquire_controller_lease(None), 400, "controller_lease_held");
    let lease = ControllerLease { controller_id: 1, term: 2, fencing_token: 3, expires_at: 4 };
    assert!(acquire_controller_lease(Some(lease)).is_ok_and(|held| held.term == 2));
    assert!(run_digital_twin(1, true).is_ok());
    is(run_digital_twin(0, true), 400, "invalid_simulation_scenarios");
    is(run_digital_twin(65, true), 400, "invalid_simulation_scenarios");
    is(run_digital_twin(64, false), 404, "plan_not_found");
}

#[test]
fn workloads_are_stopped_where_they_run() {
    is(cancel_workload(None), 400, "workload_not_cancellable");
    let cancellation = |lease_id: Option<u128>| WorkloadCancellation {
        runtime: "mock".to_owned(),
        lease_id,
        event: event("workload.cancelled", Fields::new()),
    };
    assert!(matches!(cancel_workload(Some(cancellation(Some(4)))), Ok(Stop::Lease(4))));
    assert!(matches!(cancel_workload(Some(cancellation(None))), Ok(Stop::Runtime(runtime)) if runtime == "mock"));
}

// ------------------------------------------------------------------------------------------------
// Networking

fn policy(remote: bool, quota: u64) -> NetworkPolicy {
    NetworkPolicy {
        remote_enabled: remote,
        managed_relay_enabled: false,
        self_hosted_relay: None,
        monthly_remote_byte_quota: quota,
    }
}

#[test]
fn remote_networking_is_opted_into() {
    assert!(validate_network_policy(&policy(true, 1)).is_ok());
    is(validate_network_policy(&policy(true, 0)), 400, "remote_quota_required");
    is(validate_network_policy(&policy(true, 1 << 63)), 400, "remote_quota_too_large");
    let relayed = NetworkPolicy { managed_relay_enabled: true, ..policy(false, 1) };
    is(validate_network_policy(&relayed), 400, "remote_opt_in_required");
    let at = |relay: &str| NetworkPolicy { self_hosted_relay: Some(relay.to_owned()), ..policy(true, 1) };
    assert!(validate_network_policy(&at("https://relay.example")).is_ok());
    for relay in [
        "http://relay.example",
        "https://user@relay.example",
        "https://relay.example/path",
        "https://relay.example/?q=1",
        "https://relay.example/#f",
    ] {
        is(validate_network_policy(&at(relay)), 400, "invalid_relay_origin");
    }
}

#[test]
fn the_kill_switch_holds() {
    assert!(update_network_policy(&owner(), &policy(true, 1), false).is_ok());
    is(update_network_policy(&owner(), &policy(true, 1), true), 400, "remote_kill_switch_engaged");
    assert!(update_network_policy(&owner(), &policy(false, 0), true).is_ok());
    is(update_network_policy(&human(1, &[]), &policy(false, 0), false), 403, "forbidden");
    let loose = NetworkPolicy { managed_relay_enabled: true, ..policy(true, 5) };
    let mut repository = Repository::new();
    let mut kill_switch = false;
    repository.put_network_policy(loose, 1);
    is(
        disable_remote_networking(&human(1, &[]), &mut kill_switch, &mut repository, 2),
        403,
        "forbidden",
    );
    assert!(!kill_switch && repository.network_policy().remote_enabled);
    let emergency = human(1, &[Permission::EmergencyControl]);
    let closed = disable_remote_networking(&emergency, &mut kill_switch, &mut repository, 2);
    assert!(closed.is_ok_and(|event| event.event_type == "network.policy_updated"));
    assert!(kill_switch);
    let stored = repository.network_policy();
    assert!(!stored.remote_enabled && !stored.managed_relay_enabled);
    assert_eq!(stored.monthly_remote_byte_quota, 5);
    assert_eq!(repository.events_after(0, 10).len(), 2);
}

#[test]
fn observed_bytes_stay_within_the_plan() {
    assert!(check_candidates(&owner(), &[1]).is_ok());
    is(check_candidates(&owner(), &[]), 400, "invalid_transport_candidates");
    is(check_candidates(&owner(), &[1; 17]), 400, "invalid_transport_candidates");
    is(check_candidates(&owner(), &[u64::MAX]), 400, "transport_budget_too_large");
    is(check_candidates(&human(1, &[]), &[1]), 403, "forbidden");
    let remote = TransportChoice { remote: true, estimated_bytes: 10 };
    let local = TransportChoice { remote: false, estimated_bytes: 10 };
    assert_eq!(simulate_transport(Ok(remote), Some(10)).ok(), Some(Some(10)));
    assert_eq!(simulate_transport(Ok(local), None).ok(), Some(None));
    is(simulate_transport(Ok(remote), Some(11)), 400, "observed_bytes_exceed_plan");
    is(simulate_transport(Ok(local), Some(1)), 400, "local_bandwidth_accounting");
    is(
        simulate_transport(Err((NetworkError::RemoteDisabled, "off".to_owned())), None),
        400,
        "remote_networking_disabled",
    );
}

#[test]
fn chunks_go_where_their_ticket_says() {
    let chunks = || Ok(vec!["a".to_owned(), "b".to_owned()]);
    assert!(create_transfer_ticket(&node(1), 1, chunks(), "b", Some(NodeStatus::Suspect)).is_ok());
    is(create_transfer_ticket(&node(1), 2, chunks(), "b", Some(NodeStatus::Ready)), 403, "forbidden");
    is(create_transfer_ticket(&owner(), 2, chunks(), "c", Some(NodeStatus::Ready)), 400, "chunk_not_in_model");
    is(create_transfer_ticket(&owner(), 2, chunks(), "a", None), 404, "device_not_found");
    is(
        create_transfer_ticket(&owner(), 2, chunks(), "a", Some(NodeStatus::Revoked)),
        400,
        "destination_unavailable",
    );
    assert_eq!(transfer_ticket(Some(&base64url(b"{}"))).ok(), Some(b"{}".to_vec()));
    is(transfer_ticket(None), 401, "unauthorized");
    is(transfer_ticket(Some("@")), 401, "unauthorized");
    is(transfer_ticket(Some(&"a".repeat(4_097))), 401, "unauthorized");
    let models = [ModelChunks { sha256: "m".to_owned(), chunks: vec!["a".to_owned()] }];
    assert!(download_model_chunk(&node(1), 1, true, &models, "m", "a").is_ok());
    is(download_model_chunk(&node(2), 1, true, &models, "m", "a"), 403, "forbidden");
    is(download_model_chunk(&node(1), 1, false, &models, "m", "a"), 401, "unauthorized");
    is(download_model_chunk(&node(1), 1, true, &models, "m", "b"), 404, "model_chunk_not_found");
    assert_eq!(chunk_tag("ab"), "\"sha256:ab\"");
}

// ------------------------------------------------------------------------------------------------
// Principals, passkeys, providers and plugins

fn principal_request(name: &str, role: Role, scopes: Vec<Permission>) -> CreatePrincipalRequest {
    CreatePrincipalRequest { name: name.to_owned(), role, scopes }
}

#[test]
fn services_get_a_key_once() {
    let made = create_principal(
        &owner(),
        principal_request("builder", Role::Service, vec![Permission::ClusterRead]),
        false,
        1,
        2,
        7,
    );
    let made = made.unwrap_or_else(|error| panic!("{}", error.message));
    let mut bytes = [0_u8; 32];
    bytes[15] = 1;
    bytes[31] = 2;
    let key = format!("cst_svc_{}", base64url(&bytes));
    assert_eq!(made.api_key.as_deref(), Some(key.as_str()));
    assert_eq!(made.row.api_key_sha256.as_deref(), Some(sha256(key.as_bytes()).as_str()));
    assert!(made.row.active);
    let human_made = create_principal(&owner(), principal_request("ada", Role::Viewer, vec![]), false, 1, 2, 7);
    assert!(human_made.is_ok_and(|made| made.api_key.is_none() && made.row.api_key_sha256.is_none()));
    let viewer = || principal_request("ada", Role::Viewer, vec![]);
    is(create_principal(&human(1, &[]), viewer(), false, 1, 2, 7), 403, "forbidden");
    is(create_principal(&owner(), viewer(), true, 1, 2, 7), 400, "principal_name_exists");
    for (name, role, scopes) in [
        (" ", Role::Viewer, vec![]),
        ("a", Role::Owner, vec![]),
        ("a", Role::Node, vec![]),
        ("a", Role::Viewer, vec![Permission::ClusterRead]),
        ("a", Role::Service, vec![Permission::ClusterRead; 33]),
    ] {
        is(
            create_principal(&owner(), principal_request(name, role, scopes), false, 1, 2, 7),
            400,
            "invalid_principal",
        );
    }
}

#[test]
fn teams_have_safe_roles() {
    assert!(create_team(&owner(), "team").is_ok());
    is(create_team(&owner(), "  "), 400, "invalid_team");
    is(create_team(&owner(), &"t".repeat(129)), 400, "invalid_team");
    is(create_team(&human(1, &[]), "team"), 403, "forbidden");
    assert!(put_team_member(&owner(), Role::Viewer).is_ok());
    is(put_team_member(&owner(), Role::Owner), 403, "forbidden");
    is(put_team_member(&human(1, &[]), Role::Viewer), 403, "forbidden");
}

#[test]
fn passkey_ceremonies_are_bounded_and_used_once() {
    let mut state = PasskeyState::new();
    let mut begin = |actor: &AuthenticatedPrincipal, ceremony: u128, now: i128| {
        state.begin_passkey_registration(
            true,
            actor,
            7,
            "key".to_owned(),
            true,
            Some("challenge".to_owned()),
            ceremony,
            now,
        )
    };
    for ceremony in 0..5 {
        assert_eq!(begin(&owner(), ceremony, 0).ok(), Some(300));
    }
    is(begin(&owner(), 5, 0), 429, "rate_limit_exceeded");
    assert!(begin(&owner(), 5, 300 * SECOND).is_ok());
    is(begin(&human(8, &[]), 6, 300 * SECOND), 403, "forbidden");
    let taken = state.finish_passkey_registration(&human(7, &[]), 5, 301 * SECOND);
    assert!(taken.is_ok_and(|ceremony| ceremony.principal_id == 7 && ceremony.state == "challenge"));
    is(
        state.finish_passkey_registration(&human(7, &[]), 5, 301 * SECOND),
        400,
        "passkey_ceremony_invalid",
    );
    is(
        state.begin_passkey_registration(false, &owner(), 7, "key".to_owned(), true, None, 9, 0),
        429,
        "rate_limit_exceeded",
    );
    is(
        state.begin_passkey_registration(true, &owner(), 7, " ".to_owned(), true, None, 9, 0),
        400,
        "invalid_passkey_name",
    );
    is(
        state.begin_passkey_registration(true, &owner(), 7, "key".to_owned(), false, None, 9, 0),
        404,
        "principal_not_found",
    );
    is(
        state.begin_passkey_registration(true, &owner(), 7, "key".to_owned(), true, None, 9, 0),
        400,
        "passkey_registration_failed",
    );
    assert_eq!(passkey_not_stored(RepositoryError::Conflict).code, "passkey_already_registered");
    assert_eq!(passkey_not_stored(RepositoryError::Missing).code, "internal_error");
}

#[test]
fn passkeys_are_registered_by_their_principal() {
    assert!(passkey_registration_allowed(&owner(), 7));
    assert!(passkey_registration_allowed(&human(7, &[]), 7));
    assert!(!passkey_registration_allowed(&human(8, &[]), 7));
    assert!(passkey_registration_allowed(&human(8, &[Permission::TeamAdmin]), 7));
    assert!(!passkey_registration_allowed(&service(7, &[]), 7));
    assert!(!passkey_registration_allowed(&node(7), 7));
}

#[test]
fn logins_fail_alike() {
    let mut state = PasskeyState::new();
    let challenge = || Some("challenge".to_owned());
    assert_eq!(state.begin_passkey_login(true, Some(7), 1, challenge(), 1, 0).ok(), Some(300));
    is(state.begin_passkey_login(false, Some(7), 1, challenge(), 2, 0), 429, "rate_limit_exceeded");
    is(state.begin_passkey_login(true, None, 1, challenge(), 2, 0), 401, "unauthorized");
    is(state.begin_passkey_login(true, Some(7), 0, challenge(), 2, 0), 401, "unauthorized");
    is(state.begin_passkey_login(true, Some(7), 1, None, 2, 0), 401, "unauthorized");
    is(state.finish_passkey_login(1, 300 * SECOND), 401, "unauthorized");
    is(state.finish_passkey_login(1, 0), 401, "unauthorized");
}

fn ceremony(principal_id: u128) -> PendingCeremony {
    PendingCeremony {
        principal_id,
        name: "laptop".to_owned(),
        created_at: 0,
        state: "challenge".to_owned(),
    }
}

fn verified(credential: &[u8]) -> Option<VerifiedPasskey> {
    Some(VerifiedPasskey { credential_id: credential.to_vec(), passkey: "{}".to_owned() })
}

#[test]
fn a_verified_passkey_signs_its_principal_in() {
    let mut repository = Repository::new();
    for id in [7, 8] {
        repository.put_principal(
            id,
            PrincipalRow {
                name: format!("p{id}"),
                role: Role::Operator,
                scopes: vec![],
                api_key_sha256: None,
                active: true,
                created_at: 0,
            },
            0,
        );
    }
    is(
        store_passkey(&mut repository, ceremony(7), None, 1),
        400,
        "passkey_verification_failed",
    );
    let stored = store_passkey(&mut repository, ceremony(7), verified(b"one"), 1);
    assert!(stored.is_ok_and(|(event, _)| event.event_type == "principal.passkey_registered"));
    is(
        store_passkey(&mut repository, ceremony(8), verified(b"one"), 1),
        400,
        "passkey_already_registered",
    );
    for (principal, answer) in [(7, None), (8, verified(b"one")), (7, verified(b"two"))] {
        is(
            sign_in_with_passkey(&mut repository, principal, answer, 1, 2, 5),
            401,
            "unauthorized",
        );
    }
    let session = sign_in_with_passkey(&mut repository, 7, verified(b"one"), 1, 2, 5);
    let session = session.unwrap_or_else(|error| panic!("{}", error.message));
    assert_eq!(session.expires_at, 5 + 86_400 * SECOND);
    assert_eq!(repository.principal_by_session_hash(&session.token_sha256, 6), Some(7));
    is(sign_in_with_passkey(&mut repository, 7, verified(b"one"), 1, 2, 5), 500, "internal_error");
}

#[test]
fn sessions_are_kept_by_their_digest() {
    let session = issue_browser_session(1, 2, 5);
    let mut bytes = [0_u8; 32];
    bytes[15] = 1;
    bytes[31] = 2;
    assert_eq!(session.token, format!("cst_session_{}", base64url(&bytes)));
    assert_eq!(session.token_sha256, sha256(session.token.as_bytes()));
    assert_eq!(session.expires_at, 5 + 86_400 * SECOND);
}

#[test]
fn providers_are_probed_before_they_are_enabled() {
    assert!(put_auth_provider(&owner(), Ok(()), true, false, true).is_ok());
    assert!(put_auth_provider(&owner(), Ok(()), false, true, false).is_ok());
    is(put_auth_provider(&owner(), Ok(()), true, true, true), 400, "unsupported_feature");
    is(put_auth_provider(&owner(), Ok(()), true, false, false), 400, "oidc_discovery_failed");
    is(
        put_auth_provider(&owner(), Err("bad".to_owned()), true, false, true),
        400,
        "invalid_auth_provider",
    );
    is(put_auth_provider(&human(1, &[]), Ok(()), true, false, true), 403, "forbidden");
    assert!(link_external_identity(&owner(), "subject", true, true).is_ok());
    is(link_external_identity(&owner(), "", true, true), 400, "invalid_external_subject");
    is(link_external_identity(&owner(), "subject", true, false), 400, "identity_link_target_missing");
    is(link_external_identity(&human(1, &[]), "subject", true, true), 403, "forbidden");
    assert!(begin_oidc_login(true, true, true).is_ok());
    is(begin_oidc_login(false, true, true), 429, "rate_limit_exceeded");
    is(begin_oidc_login(true, false, true), 400, "invalid_identity_provider");
    is(begin_oidc_login(true, true, false), 400, "oidc_login_unavailable");
    assert_eq!(finish_oidc_login(true, true, Some(3)).ok(), Some(3));
    is(finish_oidc_login(false, true, Some(3)), 401, "unauthorized");
    is(finish_oidc_login(true, false, Some(3)), 401, "unauthorized");
    is(finish_oidc_login(true, true, None), 401, "unauthorized");
}

#[test]
fn cloud_adapters_need_their_credential() {
    let adapter = |enabled: bool, plugin: &str| CloudAdapterPolicy {
        id: 1,
        provider_plugin: plugin.to_owned(),
        enabled,
        models: vec![],
        endpoint: None,
        credential_reference: "reference".to_owned(),
        regions: vec![],
        input_cost_per_million_tokens_micros: 0,
        output_cost_per_million_tokens_micros: 0,
        monthly_cost_limit_micros: 0,
        monthly_network_limit_bytes: 0,
    };
    let built_in = adapter(true, OPENAI_COMPATIBLE_PROVIDER);
    assert!(put_cloud_adapter(&owner(), Ok(()), &built_in, true).is_ok());
    is(put_cloud_adapter(&owner(), Ok(()), &built_in, false), 400, "cloud_credential_unavailable");
    is(put_cloud_adapter(&owner(), Ok(()), &adapter(true, "other"), true), 400, "unsupported_feature");
    assert!(put_cloud_adapter(&owner(), Ok(()), &adapter(false, "other"), false).is_ok());
    is(put_cloud_adapter(&owner(), Err("bad".to_owned()), &built_in, true), 400, "invalid_cloud_policy");
    is(put_cloud_adapter(&human(1, &[]), Ok(()), &built_in, true), 403, "forbidden");
}

#[test]
fn plugins_are_installed_then_granted() {
    let admin = human(1, &[Permission::PluginAdmin]);
    assert_eq!(install_plugin(&admin, &base64url(b"wasm")).ok(), Some(b"wasm".to_vec()));
    is(install_plugin(&admin, "@@"), 400, "invalid_plugin_component");
    is(install_plugin(&human(1, &[]), ""), 403, "forbidden");
    assert_eq!(place_component(Ok(()), None, b"wasm").ok(), Some(true));
    assert_eq!(place_component(Ok(()), Some(b"wasm"), b"wasm").ok(), Some(false));
    is(place_component(Ok(()), Some(b"other"), b"wasm"), 503, "unavailable");
    is(place_component(Err("bad".to_owned()), None, b"wasm"), 400, "invalid_plugin");
    assert_eq!(component_file("ab"), "ab.wasm");
    let plugin = |enabled: bool| Plugin {
        version: "1.0.0".to_owned(),
        kind: "tool".to_owned(),
        sha256: "ab".to_owned(),
        manifest: "{}".to_owned(),
        component_path: "ab.wasm".to_owned(),
        enabled,
    };
    let grant = grant_plugin(&admin, Some(&plugin(false)), vec!["read".to_owned()], Ok(()), 4);
    assert!(grant.is_ok_and(|grant| grant.component_sha256 == "ab"
        && grant.permissions == vec!["read".to_owned()]
        && grant.approved_by == "00000000-0000-0000-0000-000000000001"
        && grant.approved_at == 4));
    is(grant_plugin(&admin, None, vec![], Ok(()), 4), 404, "plugin_not_found");
    is(grant_plugin(&human(1, &[]), None, vec![], Ok(()), 4), 403, "forbidden");
    is(
        grant_plugin(&admin, Some(&plugin(false)), vec![], Err("beyond".to_owned()), 4),
        400,
        "invalid_plugin_grant",
    );
    let answered = plugin_answer("a.plugin", PluginOutcome::Output("42".to_owned()));
    assert!(answered.is_ok_and(|answer| matches!(answer, Json::Object(fields)
        if matches!(&fields[1].1, Json::Text(output) if output == "42"))));
    is(
        plugin_answer("a.plugin", PluginOutcome::Failed("trap".to_owned())),
        400,
        "plugin_execution_failed",
    );
    is(plugin_answer("a.plugin", PluginOutcome::HostFailed), 500, "internal_error");
    let operator = human(1, &[Permission::WorkflowOperate]);
    assert!(execute_plugin(&operator, Some(&plugin(true)), true, true).is_ok());
    is(execute_plugin(&operator, Some(&plugin(false)), true, true), 403, "forbidden");
    is(execute_plugin(&operator, Some(&plugin(true)), false, true), 403, "forbidden");
    is(execute_plugin(&operator, Some(&plugin(true)), true, false), 403, "forbidden");
    is(execute_plugin(&operator, None, true, true), 403, "forbidden");
    is(execute_plugin(&admin, Some(&plugin(true)), true, true), 403, "forbidden");
}

// ------------------------------------------------------------------------------------------------
// Artifacts, templates and webhooks

#[test]
fn stored_artifacts_verify() {
    let stored = store_workflow_artifact(
        1,
        2,
        "step".to_owned(),
        "step.txt".to_owned(),
        "text/plain".to_owned(),
        b"abc",
        9,
    );
    let stored = stored.unwrap_or_else(|error| panic!("{}", error.message));
    assert_eq!(stored.sha256, sha256(b"abc"));
    assert_eq!(stored.size_bytes, 3);
    assert_eq!(stored.storage_key, "00000000-0000-0000-0000-000000000001");
    assert!(download_workflow_artifact(b"abc", &stored.sha256).is_ok());
    is(download_workflow_artifact(b"abd", &stored.sha256), 503, "unavailable");
}

#[test]
fn artifacts_belong_to_a_step() {
    let input = |step: &str, content: &str| WorkflowArtifactRequest {
        step_id: step.to_owned(),
        name: "name".to_owned(),
        media_type: "text/plain".to_owned(),
        content_base64: content.to_owned(),
    };
    let steps = || Ok(vec!["one".to_owned()]);
    let made = create_workflow_artifact(1, 2, input("one", &base64url(b"abc")), steps(), 3);
    assert!(made.is_ok_and(|(metadata, content)| content == b"abc" && metadata.sha256 == sha256(b"abc")));
    is(create_workflow_artifact(1, 2, input("two", ""), steps(), 3), 400, "invalid_workflow_artifact");
    is(create_workflow_artifact(1, 2, input("one", "@"), steps(), 3), 400, "invalid_workflow_artifact");
    is(create_workflow_artifact(1, 2, input("", ""), steps(), 3), 400, "invalid_workflow_artifact");
    is(
        create_workflow_artifact(1, 2, input("one", ""), Err(ApiError::internal()), 3),
        500,
        "internal_error",
    );
}

#[test]
fn templates_are_bounded() {
    assert!(create_workflow_template("name", true, 16_384).is_ok());
    is(create_workflow_template(" ", true, 2), 400, "invalid_template");
    is(create_workflow_template("name", false, 2), 400, "invalid_template");
    is(create_workflow_template("name", true, 16_385), 400, "invalid_template");
    assert_eq!(instantiate_workflow_template(None, "base"), "base copy");
    assert_eq!(instantiate_workflow_template(Some("mine".to_owned()), "base"), "mine");
}

#[test]
fn webhooks_open_with_their_secret() {
    let secret = create_workflow_webhook(1, 2);
    assert_eq!(secret.secret_sha256, sha256(secret.secret.as_bytes()));
    let hook = |enabled: bool, digest: &str| Webhook {
        workflow_id: 5,
        secret_sha256: digest.to_owned(),
        enabled,
    };
    let open = hook(true, &secret.secret_sha256);
    assert_eq!(trigger_workflow_webhook(Some(&open), Some(&secret.secret)).ok(), Some(5));
    is(trigger_workflow_webhook(Some(&open), Some("guess")), 401, "unauthorized");
    is(trigger_workflow_webhook(Some(&open), None), 401, "unauthorized");
    is(trigger_workflow_webhook(Some(&open), Some(&"s".repeat(257))), 401, "unauthorized");
    is(
        trigger_workflow_webhook(Some(&hook(false, &secret.secret_sha256)), Some(&secret.secret)),
        403,
        "forbidden",
    );
    is(trigger_workflow_webhook(Some(&hook(true, "short")), Some("x")), 503, "unavailable");
    is(trigger_workflow_webhook(None, Some("x")), 404, "workflow_webhook_not_found");
}
