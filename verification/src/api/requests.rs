//! Requests as a whole: who asks and what is asked for is checked, the change is stored and logged,
//! or the request is refused and nothing changes.

use crate::api::artifacts::{create_workflow_template, create_workflow_webhook, opens, WebhookSecret};
use crate::api::auth::{allowed, principal_label, token_digest, AuthenticatedPrincipal, Permission};
use crate::api::cluster::Stop;
use crate::api::devices::{
    device_heartbeat, event_refusal, heartbeat_answer, in_scope, is_node, record_trace_span,
    sensible, span_refusal, stale_worker_event, submit_benchmark, submit_worker_event,
    BenchmarkNumbers,
};
use crate::api::network::{update_network_policy, update_refusal};
use crate::api::runs::find_workflow;
use crate::api::teams::{
    cloud_policy_refusal, create_principal, create_team, grant_plugin, link_external_identity,
    link_refusal, principal_refusal, provider_refusal, put_auth_provider, put_cloud_adapter,
    put_team_member, service_key, team_refusal, CreatePrincipalRequest,
};
use crate::api::{bad_request, forbidden, internal, not_found, ApiError, ErrorView};
use crate::clock::LAST_MOMENT;
use crate::cloud::CloudAdapterPolicy;
use crate::digest::base64url_encoded;
use crate::ident::{big_endian, Uuid};
use crate::json::{fields1, fields2, fields3, fields4, fields5, id_json, JsonView};
use crate::names::{role_word, NodeStatus, Role};
use crate::oidc::{external_subject_digest, subject_digest};
use crate::repository::catalog::{granted, policy_event, stored_policy};
use crate::repository::events::{logged, logged_any};
use crate::repository::leases::{
    active_of, ended, newest_active, takes_event, worked, worker_event_of,
};
use crate::repository::listings::{has_name, name_taken};
use crate::repository::nodes::status_event;
use crate::repository::principals::{active_human, with_principal};
use crate::repository::quota::DATABASE_MAX;
use crate::repository::{
    event_of, AuthProvider, Benchmark, ClusterEvent, Device, EventView, ExecutionTraceSpan, Grant,
    Lease, LeaseStatus, NetworkPolicy, Node, PrincipalRow, Repository, RepositoryView, TeamRecord,
    Template, Webhook, WorkloadStatus,
};
use crate::runtime::{RuntimeEventView, WorkerRuntimeEvent};
use crate::text;
use crate::text::is_blank;
use vstd::prelude::*;
use vstd::utf8::encode_utf8;

verus! {

// ------------------------------------------------------------------------------------------------
// Principals and teams

/// Why a team is not stored, where it is not.
pub open spec fn store_team_refusal(
    v: RepositoryView,
    actor: AuthenticatedPrincipal,
    id: Uuid,
    name: Seq<char>,
) -> Option<ErrorView> {
    if team_refusal(actor, name) is Some {
        team_refusal(actor, name)
    } else if v.teams.contains_key(id) || has_name(v.teams, name) {
        Some(internal())
    } else {
        None
    }
}

/// Stores a team, under a name that no other team has.
pub fn store_team(
    repository: &mut Repository,
    actor: &AuthenticatedPrincipal,
    id: Uuid,
    name: String,
    now: i128,
) -> (r: Result<ClusterEvent, ApiError>)
    ensures
        r is Err == store_team_refusal(old(repository)@, *actor, id, name@) is Some,
        r matches Err(error) ==> store_team_refusal(old(repository)@, *actor, id, name@) == Some(
            error@,
        ) && final(repository)@ == old(repository)@,
        r matches Ok(e) ==> final(repository)@ == logged(
            RepositoryView {
                teams: old(repository)@.teams.insert(id, TeamRecord { name, created_at: now }),
                ..old(repository)@
            },
            e@,
            now,
        ) && e@ == event_of(
            "team.created"@,
            fields1(
                ("team_id"@, id_json(id)),
            ),
        ),
{
    match create_team(actor, name.as_str()) {
        Err(error) => Err(error),
        Ok(()) => match repository.create_team(id, name, now) {
            Ok(e) => Ok(e),
            Err(_) => Err(ApiError::internal()),
        },
    }
}

/// Stores who belongs to a team, and as what.
pub fn store_team_member(
    repository: &mut Repository,
    actor: &AuthenticatedPrincipal,
    team_id: Uuid,
    principal_id: Uuid,
    role: Role,
    now: i128,
) -> (r: Result<ClusterEvent, ApiError>)
    ensures
        r is Ok == (allowed(*actor, Permission::TeamAdmin) && role != Role::Owner && role
            != Role::Node),
        r matches Err(error) ==> error@ == forbidden(
            "team membership requires team administration and a team-safe role"@,
        ) && final(repository)@ == old(repository)@,
        r matches Ok(e) ==> final(repository)@ == logged(
            RepositoryView {
                memberships: old(repository)@.memberships.insert((team_id, principal_id), role),
                ..old(repository)@
            },
            e@,
            now,
        ) && e@ == event_of(
            "team.membership_updated"@,
            fields3(
                ("team_id"@, id_json(team_id)),
                ("principal_id"@, id_json(principal_id)),
                ("role"@, JsonView::Text(role_word(role))),
            ),
        ),
{
    match put_team_member(actor, role) {
        Err(error) => Err(error),
        Ok(()) => Ok(repository.put_team_membership(team_id, principal_id, role, now)),
    }
}

/// A principal that is stored, with its key where it is a service. The key is shown once.
pub struct StoredPrincipal {
    pub api_key: Option<String>,
    pub event: ClusterEvent,
}

/// Stores a new principal; of a service's key, only the digest.
pub fn store_principal(
    repository: &mut Repository,
    actor: &AuthenticatedPrincipal,
    id: Uuid,
    input: CreatePrincipalRequest,
    first: Uuid,
    second: Uuid,
    now: i128,
) -> (r: Result<StoredPrincipal, ApiError>)
    ensures
        ({
            let refusal = principal_refusal(
                *actor,
                input,
                has_name(old(repository)@.principals, input.name@),
            );
            &&& r is Err == refusal is Some
            &&& r matches Err(error) ==> refusal == Some(error@) && final(repository)@ == old(
                repository,
            )@
        }),
        r matches Ok(stored) ==> stored.event@ == event_of(
            "principal.updated"@,
            fields3(
                ("principal_id"@, id_json(id)),
                ("role"@, JsonView::Text(role_word(input.role))),
                ("active"@, JsonView::Bool(true)),
            ),
        ),
        r matches Ok(stored) ==> exists|row: PrincipalRow|
            {
                &&& final(repository)@ == logged(
                    RepositoryView {
                        principals: #[trigger] with_principal(
                            old(repository)@.principals,
                            id,
                            row,
                        ),
                        ..old(repository)@
                    },
                    stored.event@,
                    now,
                )
                &&& row.name == input.name
                &&& row.role == input.role
                &&& row.scopes == input.scopes
                &&& row.active
                &&& row.created_at == now
                &&& row.api_key_sha256 is Some == (input.role == Role::Service)
                &&& stored.api_key is Some == (input.role == Role::Service)
                &&& stored.api_key matches Some(key) ==> key@ == service_key(first, second)
                    && row.api_key_sha256->0@ == token_digest(key@)
            },
{
    let taken = name_taken(&repository.principals, input.name.as_str());
    match create_principal(actor, input, taken, first, second, now) {
        Err(error) => Err(error),
        Ok(made) => {
            let event = repository.put_principal(id, made.row, now);
            Ok(StoredPrincipal { api_key: made.api_key, event })
        },
    }
}

/// Links the subject of a provider, by its digest, to a principal.
pub fn store_identity_link(
    repository: &mut Repository,
    actor: &AuthenticatedPrincipal,
    provider_id: Uuid,
    principal_id: Uuid,
    subject: &str,
    now: i128,
) -> (r: Result<ClusterEvent, ApiError>)
    ensures
        ({
            let refusal = link_refusal(
                *actor,
                subject@,
                old(repository)@.auth_providers.contains_key(provider_id),
                active_human(old(repository)@.principals, principal_id),
            );
            &&& r is Err == refusal is Some
            &&& r matches Err(error) ==> refusal == Some(error@) && final(repository)@ == old(
                repository,
            )@
        }),
        r matches Ok(e) ==> final(repository)@ == logged(
            RepositoryView {
                external_identities: old(repository)@.external_identities.insert(
                    (provider_id, subject_digest(provider_id, subject@)),
                    principal_id,
                ),
                ..old(repository)@
            },
            e@,
            now,
        ) && e@ == event_of(
            "external_identity.linked"@,
            fields2(
                ("provider_id"@, id_json(provider_id)),
                ("principal_id"@, id_json(principal_id)),
            ),
        ),
{
    let provider_known = repository.auth_providers.contains(&provider_id);
    let principal_known = repository.principal(principal_id).is_some();
    match link_external_identity(actor, subject, provider_known, principal_known) {
        Err(error) => Err(error),
        Ok(()) => {
            let digest = external_subject_digest(provider_id, subject);
            Ok(repository.put_external_identity(provider_id, digest, principal_id, now))
        },
    }
}

// ------------------------------------------------------------------------------------------------
// Providers and plugins

/// Stores an external authentication provider, which was found valid or not and, where it is enabled,
/// answers or not.
pub fn store_auth_provider(
    repository: &mut Repository,
    actor: &AuthenticatedPrincipal,
    id: Uuid,
    provider: AuthProvider,
    valid: Result<(), String>,
    answers: bool,
    now: i128,
) -> (r: Result<ClusterEvent, ApiError>)
    ensures
        ({
            let refusal = provider_refusal(
                *actor,
                valid,
                provider.enabled,
                provider.kind@ == "saml"@,
                answers,
            );
            &&& r is Err == refusal is Some
            &&& r matches Err(error) ==> refusal == Some(error@) && final(repository)@ == old(
                repository,
            )@
        }),
        r matches Ok(e) ==> final(repository)@ == logged(
            RepositoryView {
                auth_providers: old(repository)@.auth_providers.insert(id, provider),
                ..old(repository)@
            },
            e@,
            now,
        ) && e@ == event_of(
            "auth_provider.updated"@,
            fields3(
                ("provider_id"@, id_json(id)),
                ("kind"@, JsonView::Text(provider.kind@)),
                ("enabled"@, JsonView::Bool(provider.enabled)),
            ),
        ),
{
    let saml = text::same(provider.kind.as_str(), "saml");
    match put_auth_provider(actor, valid, provider.enabled, saml, answers) {
        Err(error) => Err(error),
        Ok(()) => Ok(repository.put_auth_provider(id, provider, now)),
    }
}

/// Stores a policy for a cloud provider, which was found valid or not, and whose credential can be
/// loaded or not.
pub fn store_cloud_adapter(
    repository: &mut Repository,
    actor: &AuthenticatedPrincipal,
    policy: CloudAdapterPolicy,
    valid: Result<(), String>,
    credential: bool,
    now: i128,
) -> (r: Result<ClusterEvent, ApiError>)
    ensures
        ({
            let refusal = cloud_policy_refusal(*actor, valid, policy, credential);
            &&& r is Err == refusal is Some
            &&& r matches Err(error) ==> refusal == Some(error@) && final(repository)@ == old(
                repository,
            )@
        }),
        r matches Ok(e) ==> final(repository)@ == logged(
            RepositoryView {
                cloud_policies: old(repository)@.cloud_policies.insert(policy.id, policy),
                ..old(repository)@
            },
            e@,
            now,
        ) && e@ == event_of(
            "cloud_policy.updated"@,
            fields3(
                ("policy_id"@, id_json(policy.id)),
                ("provider_plugin"@, JsonView::Text(policy.provider_plugin@)),
                ("enabled"@, JsonView::Bool(policy.enabled)),
            ),
        ),
{
    match put_cloud_adapter(actor, valid, &policy, credential) {
        Err(error) => Err(error),
        Ok(()) => Ok(repository.put_cloud_policy(policy, now)),
    }
}

/// Why a plugin is not granted what it asks for, where it is not.
pub open spec fn grant_refusal(
    v: RepositoryView,
    actor: AuthenticatedPrincipal,
    id: Seq<char>,
    valid: Result<(), String>,
) -> Option<ErrorView> {
    if !allowed(actor, Permission::PluginAdmin) {
        Some(forbidden("plugin grants require plugin administration permission"@))
    } else if !v.plugins.contains_key(id) {
        Some(not_found("plugin_not_found"@, "plugin is not installed"@))
    } else if valid is Err {
        Some(bad_request("invalid_plugin_grant"@, valid->Err_0@))
    } else {
        None
    }
}

/// Grants the component of a plugin that is installed what it asks for, and enables it.
pub fn store_plugin_grant(
    repository: &mut Repository,
    actor: &AuthenticatedPrincipal,
    id: String,
    permissions: Vec<String>,
    valid: Result<(), String>,
    now: i128,
) -> (r: Result<ClusterEvent, ApiError>)
    ensures
        r is Err == grant_refusal(old(repository)@, *actor, id@, valid) is Some,
        r matches Err(error) ==> grant_refusal(old(repository)@, *actor, id@, valid) == Some(error@)
            && final(repository)@ == old(repository)@,
        r matches Ok(e) ==> e@ == event_of(
            "plugin.granted"@,
            fields4(
                ("plugin_id"@, JsonView::Text(id@)),
                ("component_sha256"@, JsonView::Text(old(repository)@.plugins[id@].sha256@)),
                ("permission_count"@, JsonView::Number(permissions@.len() as int)),
                ("approved_by"@, JsonView::Text(principal_label(*actor))),
            ),
        ),
        r matches Ok(e) ==> exists|grant: Grant|
            {
                &&& final(repository)@ == logged(
                    #[trigger] granted(old(repository)@, id@, grant),
                    e@,
                    now,
                )
                &&& grant.component_sha256@ == old(repository)@.plugins[id@].sha256@
                &&& grant.permissions == permissions
                &&& grant.approved_by@ == principal_label(*actor)
                &&& grant.approved_at == now
            },
{
    match grant_plugin(actor, repository.plugin(id.as_str()), permissions, valid, now) {
        Err(error) => Err(error),
        Ok(grant) => match repository.put_plugin_grant(id, grant, now) {
            Ok(e) => Ok(e),
            Err(_) => Err(ApiError::internal()),
        },
    }
}

// ------------------------------------------------------------------------------------------------
// Networking

/// Stores what the owner opts into, and audits it.
pub fn set_network_policy(
    repository: &mut Repository,
    principal: &AuthenticatedPrincipal,
    policy: NetworkPolicy,
    kill_switch: bool,
    now: i128,
) -> (r: Result<ClusterEvent, ApiError>)
    ensures
        r is Err == update_refusal(*principal, policy, kill_switch) is Some,
        r matches Err(error) ==> update_refusal(*principal, policy, kill_switch) == Some(error@)
            && final(repository)@ == old(repository)@,
        r matches Ok(e) ==> final(repository)@ == stored_policy(old(repository)@, policy, now) && e@
            == policy_event(policy),
{
    match update_network_policy(principal, &policy, kill_switch) {
        Err(error) => Err(error),
        Ok(()) => Ok(repository.put_network_policy(policy, now)),
    }
}

// ------------------------------------------------------------------------------------------------
// Devices

/// Why a heartbeat is refused, where it is.
pub open spec fn heartbeat_refusal(
    v: RepositoryView,
    principal: AuthenticatedPrincipal,
    node_id: Uuid,
) -> Option<ErrorView> {
    if !in_scope(principal, node_id) {
        Some(forbidden("node credentials cannot heartbeat for another device"@))
    } else if !v.nodes.contains_key(node_id) {
        Some(not_found("device_not_found"@, "device does not exist"@))
    } else if v.nodes[node_id].node.status == NodeStatus::Revoked {
        Some(forbidden("device membership is revoked"@))
    } else {
        None
    }
}

/// Takes a node's heartbeat: the node is ready, and was seen now. That it is back is logged; a revoked
/// node does not come back.
pub fn take_heartbeat(
    repository: &mut Repository,
    principal: &AuthenticatedPrincipal,
    node_id: Uuid,
    now: i128,
) -> (r: Result<Option<ClusterEvent>, ApiError>)
    ensures
        r is Err == heartbeat_refusal(old(repository)@, *principal, node_id) is Some,
        r matches Err(error) ==> heartbeat_refusal(old(repository)@, *principal, node_id) == Some(
            error@,
        ) && final(repository)@ == old(repository)@,
        r matches Ok(e) ==> {
            let device = old(repository)@.nodes[node_id];
            &&& e is Some == (device.node.status != NodeStatus::Ready)
            &&& e matches Some(e) ==> e@ == status_event(
                "device.recovered"@,
                node_id,
                NodeStatus::Ready,
            )
            &&& final(repository)@ == logged_any(
                RepositoryView {
                    nodes: old(repository)@.nodes.insert(
                        node_id,
                        Device {
                            node: Node {
                                status: NodeStatus::Ready,
                                last_seen_at: now,
                                ..device.node
                            },
                            ..device
                        },
                    ),
                    ..old(repository)@
                },
                e,
                now,
            )
        },
{
    if let Err(error) = device_heartbeat(principal, node_id) {
        return Err(error);
    }
    let e = repository.heartbeat(node_id, now);
    let status = match repository.nodes.get(&node_id) {
        Some(device) => Some(device.node.status),
        None => None,
    };
    match heartbeat_answer(status) {
        Ok(_) => Ok(e),
        Err(error) => Err(error),
    }
}

/// Why what a device was measured to do is not stored, where it is not.
pub open spec fn benchmark_refusal(
    v: RepositoryView,
    principal: AuthenticatedPrincipal,
    node_id: Uuid,
    numbers: BenchmarkNumbers,
) -> Option<ErrorView> {
    if !in_scope(principal, node_id) {
        Some(forbidden("node credentials cannot submit another device's benchmark"@))
    } else if !sensible(numbers) {
        Some(
            bad_request(
                "invalid_benchmark"@,
                "benchmark values must be finite, non-negative, sampled, and packet loss must be at most one"@,
            ),
        )
    } else if !v.nodes.contains_key(node_id) {
        Some(not_found("device_not_found"@, "benchmark device does not exist"@))
    } else {
        None
    }
}

/// What is stored of measurements: the report as encoded text, and two of the numbers that were checked.
pub open spec fn benchmark_of(numbers: BenchmarkNumbers, report: String, measured_at: i128) -> Benchmark {
    Benchmark {
        report,
        tokens_per_second: numbers.tokens_per_second,
        time_to_first_token_ms: numbers.time_to_first_token_ms,
        measured_at,
    }
}

/// Stores what a device was measured to do.
pub fn store_benchmark(
    repository: &mut Repository,
    principal: &AuthenticatedPrincipal,
    node_id: Uuid,
    numbers: BenchmarkNumbers,
    report: String,
    measured_at: i128,
    now: i128,
) -> (r: Result<ClusterEvent, ApiError>)
    ensures
        r is Err == benchmark_refusal(old(repository)@, *principal, node_id, numbers) is Some,
        r matches Err(error) ==> benchmark_refusal(old(repository)@, *principal, node_id, numbers)
            == Some(error@) && final(repository)@ == old(repository)@,
        r matches Ok(e) ==> final(repository)@ == logged(
            RepositoryView {
                benchmarks: old(repository)@.benchmarks.insert(
                    node_id,
                    benchmark_of(numbers, report, measured_at),
                ),
                ..old(repository)@
            },
            e@,
            now,
        ) && e@ == event_of(
            "benchmark.completed"@,
            fields3(
                ("node_id"@, id_json(node_id)),
                ("tokens_per_second"@, JsonView::Real(numbers.tokens_per_second)),
                ("time_to_first_token_ms"@, JsonView::Real(numbers.time_to_first_token_ms)),
            ),
        ),
{
    let known = repository.nodes.contains(&node_id);
    match submit_benchmark(principal, node_id, numbers, known) {
        Err(error) => Err(error),
        Ok(()) => {
            let benchmark = Benchmark {
                report,
                tokens_per_second: numbers.tokens_per_second,
                time_to_first_token_ms: numbers.time_to_first_token_ms,
                measured_at,
            };
            Ok(repository.put_benchmark(node_id, benchmark, now))
        },
    }
}

/// Why a span of a trace is not stored, where it is not.
pub open spec fn store_span_refusal(
    v: RepositoryView,
    principal: AuthenticatedPrincipal,
    id: Uuid,
    span: ExecutionTraceSpan,
) -> Option<ErrorView> {
    let refusal = span_refusal(
        principal,
        span.node_id,
        span.operation@,
        span.status@,
        span.attributes@,
    );
    if refusal is Some {
        refusal
    } else if span.duration_us > DATABASE_MAX || v.spans.contains_key(id) {
        Some(internal())
    } else {
        None
    }
}

/// Stores a span of a trace.
pub fn store_trace_span(
    repository: &mut Repository,
    principal: &AuthenticatedPrincipal,
    id: Uuid,
    span: ExecutionTraceSpan,
    now: i128,
) -> (r: Result<ClusterEvent, ApiError>)
    ensures
        ({
            let refusal = store_span_refusal(
                old(repository)@,
                *principal,
                id,
                span,
            );
            &&& r is Err == refusal is Some
            &&& r matches Err(error) ==> refusal == Some(error@) && final(repository)@ == old(
                repository,
            )@
        }),
        r matches Ok(e) ==> final(repository)@ == logged(
            RepositoryView {
                spans: old(repository)@.spans.insert(id, span),
                ..old(repository)@
            },
            e@,
            now,
        ) && e@ == event_of(
            "trace.span_recorded"@,
            fields5(
                ("span_id"@, id_json(id)),
                ("workload_id"@, id_json(span.workload_id)),
                ("node_id"@, id_json(span.node_id)),
                ("operation"@, JsonView::Text(span.operation@)),
                ("status"@, JsonView::Text(span.status@)),
            ),
        ),
{
    match record_trace_span(
        principal,
        span.node_id,
        span.operation.as_str(),
        span.status.as_str(),
        &span.attributes,
    ) {
        Err(error) => Err(error),
        Ok(()) => match repository.put_trace_span(id, span, now) {
            Ok(e) => Ok(e),
            Err(_) => Err(ApiError::internal()),
        },
    }
}

// ------------------------------------------------------------------------------------------------
// Work

/// Why an event of a worker is not taken, where it is not.
pub open spec fn worker_event_refusal(
    v: RepositoryView,
    principal: AuthenticatedPrincipal,
    node_id: Uuid,
    lease_id: Uuid,
    sequence: u64,
    event: RuntimeEventView,
) -> Option<ErrorView> {
    if !is_node(principal, node_id) {
        Some(forbidden("a worker can submit events only for its authenticated device"@))
    } else if event_refusal(sequence, event) is Some {
        event_refusal(sequence, event)
    } else if sequence > i64::MAX {
        Some(internal())
    } else if !takes_event(v, lease_id, node_id, sequence as int) {
        Some(
            bad_request(
                "stale_worker_event"@,
                "worker event is duplicated, out of order, expired, or outside this lease"@,
            ),
        )
    } else {
        None
    }
}

/// Takes an event of a worker, once and in its order.
pub fn take_worker_event(
    repository: &mut Repository,
    principal: &AuthenticatedPrincipal,
    node_id: Uuid,
    lease_id: Uuid,
    sequence: u64,
    event: &WorkerRuntimeEvent,
    starts_output: bool,
    now: i128,
) -> (r: Result<ClusterEvent, ApiError>)
    requires
        now <= LAST_MOMENT,
    ensures
        ({
            let refusal = worker_event_refusal(
                old(repository)@,
                *principal,
                node_id,
                lease_id,
                sequence,
                event@,
            );
            &&& r is Err == refusal is Some
            &&& r matches Err(error) ==> refusal == Some(error@) && final(repository)@ == old(
                repository,
            )@
        }),
        r matches Ok(e) ==> final(repository)@ == logged(
            worked(old(repository)@, lease_id, sequence as i64, starts_output, event@, now),
            e@,
            now,
        ) && e@ == worker_event_of(
            event@,
            old(repository)@.leases[lease_id].workload_id,
            lease_id,
            node_id,
            sequence as int,
        ),
{
    match submit_worker_event(principal, node_id, sequence, event) {
        Err(error) => Err(error),
        Ok(()) => match repository.accept_worker_event(
            node_id,
            lease_id,
            sequence,
            event,
            starts_output,
            now,
        ) {
            Err(_) => Err(ApiError::internal()),
            Ok(None) => Err(stale_worker_event()),
            Ok(Some(e)) => Ok(e),
        },
    }
}

/// An event that a lease took is not taken a second time, and none is that comes before it.
pub proof fn law_worker_events_come_once(
    v: RepositoryView,
    principal: AuthenticatedPrincipal,
    node_id: Uuid,
    lease_id: Uuid,
    sequence: u64,
    starts_output: bool,
    event: RuntimeEventView,
    e: EventView,
    now: i128,
    earlier: u64,
    other: RuntimeEventView,
)
    requires
        worker_event_refusal(v, principal, node_id, lease_id, sequence, event) is None,
        earlier <= sequence,
    ensures
        worker_event_refusal(
            logged(worked(v, lease_id, sequence as i64, starts_output, event, now), e, now),
            principal,
            node_id,
            lease_id,
            earlier,
            other,
        ) is Some,
{
}

/// Stops a workload: its lease is cancelled with it.
pub fn stop_workload(repository: &mut Repository, workload_id: Uuid, now: i128) -> (r: Result<
    (Stop, ClusterEvent),
    ApiError,
>)
    ensures
        r is Ok == (old(repository)@.workloads.contains_key(workload_id) && old(
            repository,
        )@.workloads[workload_id].status == WorkloadStatus::Running),
        r matches Err(error) ==> error@ == bad_request(
            "workload_not_cancellable"@,
            "workload does not exist or is already terminal"@,
        ) && final(repository)@ == old(repository)@,
        r matches Ok((stop, e)) ==> {
            &&& match stop {
                Stop::Lease(id) => newest_active(old(repository)@.leases, id, workload_id),
                Stop::Runtime(runtime) => runtime == old(repository)@.workloads[workload_id].runtime
                    && forall|k: u128| !#[trigger]
                    active_of(old(repository)@.leases, k, workload_id),
            }
            &&& e@ == event_of(
                "workload.cancelled"@,
                fields2(
                    ("workload_id"@, id_json(workload_id)),
                    ("remote_lease"@, JsonView::Bool(stop is Lease)),
                ),
            )
            &&& final(repository)@ == logged(
                RepositoryView {
                    workloads: ended(
                        old(repository)@.workloads,
                        workload_id,
                        WorkloadStatus::Cancelled,
                        now,
                    ),
                    leases: match stop {
                        Stop::Lease(id) => old(repository)@.leases.insert(
                            id,
                            Lease {
                                status: LeaseStatus::Cancelled,
                                updated_at: now,
                                ..old(repository)@.leases[id]
                            },
                        ),
                        Stop::Runtime(_) => old(repository)@.leases,
                    },
                    ..old(repository)@
                },
                e@,
                now,
            )
        },
{
    match repository.cancel_workload(workload_id, now) {
        None => Err(
            ApiError::bad_request(
                "workload_not_cancellable",
                "workload does not exist or is already terminal",
            ),
        ),
        Some(cancellation) => {
            let stop = match cancellation.lease_id {
                Some(lease) => Stop::Lease(lease),
                None => Stop::Runtime(cancellation.runtime),
            };
            Ok((stop, cancellation.event))
        },
    }
}

// ------------------------------------------------------------------------------------------------
// Workflows

/// Why a template is not stored, where it is not.
pub open spec fn template_refusal(
    v: RepositoryView,
    id: Uuid,
    name: Seq<char>,
    workflow_id: Uuid,
    metadata: Seq<char>,
    metadata_is_object: bool,
) -> Option<ErrorView> {
    if is_blank(name) || encode_utf8(name).len() > 128 || !metadata_is_object || encode_utf8(
        metadata,
    ).len() > 16_384 {
        Some(
            bad_request(
                "invalid_template"@,
                "template name or declarative metadata is outside its bound"@,
            ),
        )
    } else if !v.workflows.contains_key(workflow_id) {
        Some(not_found("workflow_not_found"@, "workflow does not exist"@))
    } else if v.templates.contains_key(id) || has_name(v.templates, name) {
        Some(internal())
    } else {
        None
    }
}

/// Stores a template of a workflow, under a name that no other template has.
pub fn store_workflow_template(
    repository: &mut Repository,
    id: Uuid,
    name: String,
    workflow_id: Uuid,
    metadata: String,
    metadata_is_object: bool,
    now: i128,
) -> (r: Result<ClusterEvent, ApiError>)
    ensures
        ({
            let refusal = template_refusal(
                old(repository)@,
                id,
                name@,
                workflow_id,
                metadata@,
                metadata_is_object,
            );
            &&& r is Err == refusal is Some
            &&& r matches Err(error) ==> refusal == Some(error@) && final(repository)@ == old(
                repository,
            )@
        }),
        r matches Ok(e) ==> final(repository)@ == logged(
            RepositoryView {
                templates: old(repository)@.templates.insert(
                    id,
                    Template { name, workflow_id, metadata, created_at: now },
                ),
                ..old(repository)@
            },
            e@,
            now,
        ) && e@ == event_of(
            "workflow.template_created"@,
            fields2(
                ("template_id"@, id_json(id)),
                ("workflow_id"@, id_json(workflow_id)),
            ),
        ),
{
    let size: usize = text::byte_len(metadata.as_str());
    if let Err(error) = create_workflow_template(name.as_str(), metadata_is_object, size) {
        return Err(error);
    }
    if let Err(error) = find_workflow(repository, workflow_id) {
        return Err(error);
    }
    let template = Template { name, workflow_id, metadata, created_at: now };
    match repository.put_workflow_template(id, template, now) {
        Ok(e) => Ok(e),
        Err(_) => Err(ApiError::internal()),
    }
}

/// Stores a webhook of a workflow, of the same workflow as before where it is known. Its secret is
/// shown once; only the digest is stored.
pub fn store_workflow_webhook(
    repository: &mut Repository,
    id: Uuid,
    workflow_id: Uuid,
    first: Uuid,
    second: Uuid,
    now: i128,
) -> (r: Result<(WebhookSecret, ClusterEvent), ApiError>)
    ensures
        r is Ok == old(repository)@.workflows.contains_key(workflow_id),
        r matches Err(error) ==> error@ == not_found(
            "workflow_not_found"@,
            "workflow does not exist"@,
        ) && final(repository)@ == old(repository)@,
        r matches Ok((made, e)) ==> {
            &&& made.secret@ == base64url_encoded(big_endian(first) + big_endian(second))
            &&& opens(made.secret_sha256@, made.secret@)
            &&& e@ == event_of(
                "workflow.webhook_updated"@,
                fields3(
                    ("webhook_id"@, id_json(id)),
                    ("workflow_id"@, id_json(workflow_id)),
                    ("enabled"@, JsonView::Bool(true)),
                ),
            )
            &&& exists|stored: Webhook|
                {
                    &&& stored.workflow_id == (if old(repository)@.webhooks.contains_key(id) {
                        old(repository)@.webhooks[id].workflow_id
                    } else {
                        workflow_id
                    })
                    &&& stored.secret_sha256@ == made.secret_sha256@
                    &&& stored.enabled
                    &&& final(repository)@ == logged(
                        RepositoryView {
                            webhooks: #[trigger] old(repository)@.webhooks.insert(id, stored),
                            ..old(repository)@
                        },
                        e@,
                        now,
                    )
                }
        },
{
    if let Err(error) = find_workflow(repository, workflow_id) {
        return Err(error);
    }
    let made = create_workflow_webhook(first, second);
    let digest = text::owned(made.secret_sha256.as_str());
    let e = repository.put_workflow_webhook(id, workflow_id, digest, true, now);
    Ok((made, e))
}

} // verus!
