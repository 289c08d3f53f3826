//! How a request for text is prepared: where it goes, what is reserved, what is stored first.

use crate::api::auth::optional_view;
use crate::api::{
    internal, not_found, rate_limited, secret, unavailable, ApiError, ErrorView,
};
use crate::clock::since_month_start;
use crate::cloud::{
    alias_of, alias_parts, chat_address, chat_endpoint, endpoint_fits, executable,
    law_aliases_are_distinct, parse_model_alias, reservation, reserved, validate_execution_policy, CloudAdapterPolicy, CloudError, CloudReservation,
    OPENAI_COMPATIBLE_PROVIDER,
};
use crate::cloud_stream::views;
use crate::ident::{format_uuid, hyphenated, lemma_hyphenated_behind, Uuid};
use crate::json::{
    array1, field_below, field_of, fields1, fields2, fields5, lemma_fields1, lemma_fields2,
    lemma_fields5, only_item, single, Fields, Json, JsonView,
};
use crate::repository::events::logged;
use crate::repository::leases::{
    active_leases, completed_event, ended, pending_lease, queued_event, running, started_event,
    PlanSummary, QUEUE_LIMIT,
};
use crate::repository::quota::{
    has_use, law_a_settled_use_counts_exactly, one_use_each, reservation_verdict, reserved_event,
    reserved_use, settled, settled_event, settles, spent, Verdict,
};
use crate::repository::{
    CloudUse, ClusterEvent, EncryptedContent, Node, Repository, RepositoryView, WorkloadStatus,
};
use crate::text;
use crate::text::{decimal, decimal_of, joined};
use crate::web::{parse_url, parsed_url};
use crate::workload::{cloud_workload, Policy, WorkloadClass, WorkloadRequest};
use vstd::prelude::*;
use vstd::utf8::encode_utf8;

verus! {

/// Where a request for a model goes.
pub enum ExecutionRoute {
    /// To a cloud provider's model, under a policy.
    Cloud { policy_id: Uuid, provider_model: String },
    /// To a node of the cluster.
    Cluster,
}

/// Where a request for a model goes: an alias names a cloud provider's model.
pub fn execution_route(model: &str) -> (route: ExecutionRoute)
    ensures
        match route {
            ExecutionRoute::Cloud { policy_id, provider_model } => alias_parts(model@) == Some(
                (policy_id, provider_model@),
            ),
            ExecutionRoute::Cluster => alias_parts(model@) is None,
        },
{
    match parse_model_alias(model) {
        Some((policy_id, provider_model)) => ExecutionRoute::Cloud {
            policy_id,
            provider_model: text::owned(provider_model),
        },
        None => ExecutionRoute::Cluster,
    }
}

/// Whether a node may be chosen: it is the controller's own, or a worker that polls.
pub open spec fn eligible(node: Node, controller_node: Uuid, available: Seq<Uuid>) -> bool {
    node.id == controller_node || available.contains(node.id)
}

/// The nodes that may be chosen, in their order.
pub open spec fn eligible_nodes(nodes: Seq<Node>, controller_node: Uuid, available: Seq<Uuid>) -> Seq<
    Node,
>
    decreases nodes.len(),
{
    if nodes.len() == 0 {
        Seq::empty()
    } else {
        let before = eligible_nodes(nodes.drop_last(), controller_node, available);
        if eligible(nodes.last(), controller_node, available) {
            before.push(nodes.last())
        } else {
            before
        }
    }
}

/// Keeps the nodes that may be chosen, in their order.
pub fn retain_eligible(nodes: &mut Vec<Node>, controller_node: Uuid, available: &[Uuid])
    ensures
        final(nodes)@ == eligible_nodes(old(nodes)@, controller_node, available@),
{
    let ghost all = nodes@;
    let ghost mut seen: int = 0;
    let mut i: usize = 0;
    assert(all.take(0) =~= Seq::empty());
    assert(nodes@.take(0) =~= Seq::empty());
    assert(nodes@.skip(0) =~= all.skip(0));
    while i < nodes.len()
        invariant
            0 <= i <= nodes@.len(),
            0 <= seen <= all.len(),
            nodes@.len() - i == all.len() - seen,
            nodes@.take(i as int) == eligible_nodes(all.take(seen), controller_node, available@),
            nodes@.skip(i as int) == all.skip(seen),
        decreases nodes@.len() - i,
    {
        let id: Uuid = nodes[i].id;
        let mut keep = id == controller_node;
        let mut j: usize = 0;
        while j < available.len()
            invariant
                j <= available@.len(),
                keep == (id == controller_node || available@.take(j as int).contains(id)),
            decreases available@.len() - j,
        {
            if available[j] == id {
                keep = true;
            }
            proof {
                let few = available@.take(j as int);
                let more = available@.take(j + 1);
                assert(more =~= few.push(available@[j as int]));
                if few.contains(id) {
                    let k = choose|k: int| 0 <= k < few.len() && few[k] == id;
                    assert(more[k] == id);
                }
                if more.contains(id) && !few.contains(id) {
                    let k = choose|k: int| 0 <= k < more.len() && more[k] == id;
                    assert(k == j) by {
                        if k < j {
                            assert(few[k] == id);
                        }
                    }
                }
                assert(more[j as int] == available@[j as int]);
            }
            j += 1;
        }
        assert(available@.take(j as int) =~= available@);
        let ghost before = nodes@;
        proof {
            assert(before[i as int] == before.skip(i as int)[0]);
            assert(all[seen] == all.skip(seen)[0]);
            assert(all.take(seen + 1).drop_last() =~= all.take(seen));
        }
        if keep {
            i += 1;
            assert(nodes@.take(i as int) =~= before.take(i - 1).push(before[i - 1]));
            assert(nodes@.skip(i as int) =~= all.skip(seen + 1)) by {
                assert(nodes@.skip(i as int) =~= before.skip(i - 1).skip(1));
                assert(all.skip(seen + 1) =~= all.skip(seen).skip(1));
            }
        } else {
            nodes.remove(i);
            assert(nodes@.take(i as int) =~= before.take(i as int));
            assert(nodes@.skip(i as int) =~= all.skip(seen + 1)) by {
                assert(nodes@.skip(i as int) =~= before.skip(i as int).skip(1));
                assert(all.skip(seen + 1) =~= all.skip(seen).skip(1));
            }
        }
        proof {
            seen = seen + 1;
        }
    }
    assert(all.take(seen) =~= all);
    assert(nodes@.take(i as int) =~= nodes@);
}

/// The data to which the input of a lease is bound when it is encrypted.
pub open spec fn lease_binding(lease_id: Uuid, workload_id: Uuid) -> Seq<char> {
    "worker-lease:"@ + hyphenated(lease_id) + ":workload:"@ + hyphenated(workload_id)
}

/// The data to which the input of a lease is bound when it is encrypted.
pub fn lease_associated_data(lease_id: Uuid, workload_id: Uuid) -> (data: String)
    ensures
        data@ == lease_binding(lease_id, workload_id),
{
    let mut data = text::join3("worker-lease:", format_uuid(lease_id).as_str(), ":workload:");
    data.append(format_uuid(workload_id).as_str());
    data
}

/// Where a plan has a workload carried out.
#[derive(Clone, Copy, Debug, PartialEq, Eq, Structural)]
pub enum Target {
    /// On the controller's own node.
    Local,
    /// On another node, by a lease.
    Remote(Uuid),
}

/// A workload that is stored, and where it goes.
pub struct StoredExecution {
    pub target: Target,
    pub event: ClusterEvent,
}

/// Stores a planned workload and tells where its plan sends it: the first node of the plan counts.
pub fn prepare_execution(
    repository: &mut Repository,
    workload: &WorkloadRequest,
    plan: PlanSummary,
    controller_node: Uuid,
    now: i128,
) -> (r: Result<StoredExecution, ApiError>)
    ensures
        ({
            let known = old(repository)@.workloads.contains_key(workload.id);
            let stored = logged(
                RepositoryView {
                    workloads: old(repository)@.workloads.insert(
                        workload.id,
                        running(*workload, plan),
                    ),
                    ..old(repository)@
                },
                started_event(workload.id, plan),
                now,
            );
            match r {
                Ok(execution) => {
                    &&& !known
                    &&& final(repository)@ == stored
                    &&& plan.selected_nodes@.len() > 0
                    &&& execution.event@ == started_event(workload.id, plan)
                    &&& execution.target == (if plan.selected_nodes@[0] == controller_node {
                        Target::Local
                    } else {
                        Target::Remote(plan.selected_nodes@[0])
                    })
                },
                Err(error) => if known {
                    error@ == internal() && final(repository)@ == old(repository)@
                } else {
                    &&& error@ == unavailable("scheduler returned no execution target"@)
                    &&& plan.selected_nodes@.len() == 0
                    &&& final(repository)@ == stored
                },
            }
        }),
{
    let first: Option<Uuid> = if plan.selected_nodes.len() > 0 {
        Some(plan.selected_nodes[0])
    } else {
        None
    };
    let event = match repository.create_workload(workload, plan, now) {
        Ok(event) => event,
        Err(_) => return Err(ApiError::internal()),
    };
    match first {
        Some(node) => Ok(
            StoredExecution {
                target: if node == controller_node {
                    Target::Local
                } else {
                    Target::Remote(node)
                },
                event,
            },
        ),
        None => Err(ApiError::unavailable("scheduler returned no execution target")),
    }
}

/// Queues the lease under which a worker carries out a stored workload. The input comes sealed, or not
/// at all where it could not be sealed.
pub fn queue_remote_execution(
    repository: &mut Repository,
    lease_id: Uuid,
    workload_id: Uuid,
    node_id: Uuid,
    sealed: Option<EncryptedContent>,
    max_output_tokens: u32,
    now: i128,
) -> (r: Result<ClusterEvent, ApiError>)
    ensures
        ({
            let before = old(repository)@;
            let room = active_leases(before.leases).len() < QUEUE_LIMIT
                && !before.leases.contains_key(lease_id);
            match r {
                Ok(event) => {
                    &&& sealed is Some && room
                    &&& final(repository)@ == logged(
                        RepositoryView {
                            leases: before.leases.insert(
                                lease_id,
                                pending_lease(
                                    workload_id,
                                    node_id,
                                    sealed->0,
                                    max_output_tokens,
                                    now,
                                ),
                            ),
                            ..before
                        },
                        event@,
                        now,
                    )
                    &&& event@ == queued_event(workload_id, lease_id, node_id)
                },
                Err(error) => {
                    &&& !(sealed is Some && room)
                    &&& final(repository)@ == before
                    &&& error@ == (if sealed is None {
                        secret()
                    } else {
                        internal()
                    })
                },
            }
        }),
{
    let content = match sealed {
        Some(content) => content,
        None => return Err(ApiError::secret()),
    };
    match repository.create_worker_lease(
        lease_id,
        workload_id,
        node_id,
        content.version,
        content.nonce,
        content.ciphertext,
        max_output_tokens,
        now,
    ) {
        Ok(event) => Ok(event),
        Err(_) => Err(ApiError::internal()),
    }
}

// ------------------------------------------------------------------------------------------------
// Cloud providers

/// Which way a prompt takes.
pub struct PrivacyPath {
    pub prompt_nodes: Vec<Uuid>,
    pub model_weight_nodes: Vec<Uuid>,
    pub uses_relay: bool,
    pub leaves_local_network: bool,
    pub uses_cloud: bool,
    pub content_logged: bool,
}

/// The plan of a workload that a cloud provider carries out.
pub struct CloudPlan {
    pub id: Uuid,
    pub workload_id: Uuid,
    pub selected_nodes: Vec<Uuid>,
    pub estimated_ttft_ms: u32,
    pub estimated_tokens_per_second: u32,
    pub confidence_percent: u32,
    pub estimated_network_bytes: u64,
    pub reasons: Vec<String>,
    pub replan_triggers: Vec<String>,
    pub privacy: PrivacyPath,
    pub created_at: i128,
}

fn join(parts: &[String], separator: &str) -> (r: String)
    ensures
        r@ == joined(views(parts@), separator@),
{
    let mut r = String::new();
    let mut i: usize = 0;
    assert(views(parts@).take(0) =~= Seq::empty());
    while i < parts.len()
        invariant
            i <= parts@.len(),
            r@ == joined(views(parts@).take(i as int), separator@),
        decreases parts@.len() - i,
    {
        assert(views(parts@).take(i + 1).drop_last() =~= views(parts@).take(i as int));
        if i == 0 {
            r = text::owned(parts[i].as_str());
        } else {
            r.append(separator);
            r.append(parts[i].as_str());
        }
        i += 1;
    }
    assert(views(parts@).take(i as int) =~= views(parts@));
    r
}

/// The host of a provider, as the reasons of a plan name it.
pub open spec fn provider_host(endpoint: Option<Seq<char>>) -> Seq<char> {
    let host = match endpoint {
        Some(text) => match parsed_url(text) {
            Some(url) => url.host,
            None => None,
        },
        None => None,
    };
    match host {
        Some(host) => host,
        None => "configured provider"@,
    }
}

/// The reasons of a cloud plan.
pub open spec fn cloud_reasons(policy: CloudAdapterPolicy, cost: u64, network: u64) -> Seq<
    Seq<char>,
> {
    seq![
        "The request explicitly selected an enabled cloud model at "@ + provider_host(
            optional_view(policy.endpoint),
        ) + "."@,
        "A worst-case reservation of "@ + decimal(cost as nat) + " cost-millionths and "@ + decimal(
            network as nat,
        ) + " network bytes was committed before egress."@,
        "Allowed provider regions: "@ + joined(views(policy.regions@), ", "@) + "."@,
    ]
}

/// What makes a cloud plan be looked at again.
pub open spec fn cloud_triggers() -> Seq<Seq<char>> {
    seq![
        "the provider rejects the request or interrupts the stream"@,
        "actual spend or network use reaches its precommitted reservation"@,
    ]
}

/// Whether a plan is that of a cloud workload: it goes out over the controller's node, and says so.
pub open spec fn is_cloud_plan(
    plan: CloudPlan,
    id: Uuid,
    workload_id: Uuid,
    controller_node: Uuid,
    policy: CloudAdapterPolicy,
    cost: u64,
    network: u64,
    now: i128,
) -> bool {
    &&& plan.id == id
    &&& plan.workload_id == workload_id
    &&& plan.selected_nodes@ == seq![controller_node]
    &&& plan.estimated_ttft_ms == 1_000
    &&& plan.estimated_tokens_per_second == 10
    &&& plan.confidence_percent == 50
    &&& plan.estimated_network_bytes == network
    &&& views(plan.reasons@) == cloud_reasons(policy, cost, network)
    &&& views(plan.replan_triggers@) == cloud_triggers()
    &&& plan.privacy.prompt_nodes@ == seq![controller_node]
    &&& plan.privacy.model_weight_nodes@.len() == 0
    &&& !plan.privacy.uses_relay
    &&& plan.privacy.leaves_local_network
    &&& plan.privacy.uses_cloud
    &&& !plan.privacy.content_logged
    &&& plan.created_at == now
}

fn cloud_plan(
    id: Uuid,
    workload_id: Uuid,
    controller_node: Uuid,
    policy: &CloudAdapterPolicy,
    cost: u64,
    network: u64,
    now: i128,
) -> (plan: CloudPlan)
    ensures
        is_cloud_plan(plan, id, workload_id, controller_node, *policy, cost, network, now),
{
    let url = match &policy.endpoint {
        Some(endpoint) => parse_url(endpoint.as_str()),
        None => None,
    };
    let host = match url {
        Some(url) => url.host,
        None => None,
    };
    let host = match host {
        Some(host) => host,
        None => text::owned("configured provider"),
    };
    assert(host@ == provider_host(optional_view(policy.endpoint)));
    let first = text::join3(
        "The request explicitly selected an enabled cloud model at ",
        host.as_str(),
        ".",
    );
    let mut second = text::join3(
        "A worst-case reservation of ",
        decimal_of(cost).as_str(),
        " cost-millionths and ",
    );
    second.append(decimal_of(network).as_str());
    second.append(" network bytes was committed before egress.");
    let third = text::join3(
        "Allowed provider regions: ",
        join(policy.regions.as_slice(), ", ").as_str(),
        ".",
    );
    let mut reasons: Vec<String> = Vec::new();
    reasons.push(first);
    reasons.push(second);
    reasons.push(third);
    assert(views(reasons@) =~= cloud_reasons(*policy, cost, network));
    let mut replan_triggers: Vec<String> = Vec::new();
    replan_triggers.push(text::owned("the provider rejects the request or interrupts the stream"));
    replan_triggers.push(
        text::owned("actual spend or network use reaches its precommitted reservation"),
    );
    assert(views(replan_triggers@) =~= cloud_triggers());
    let mut selected_nodes: Vec<Uuid> = Vec::new();
    selected_nodes.push(controller_node);
    let mut prompt_nodes: Vec<Uuid> = Vec::new();
    prompt_nodes.push(controller_node);
    CloudPlan {
        id,
        workload_id,
        selected_nodes,
        estimated_ttft_ms: 1_000,
        estimated_tokens_per_second: 10,
        confidence_percent: 50,
        estimated_network_bytes: network,
        reasons,
        replan_triggers,
        privacy: PrivacyPath {
            prompt_nodes,
            model_weight_nodes: Vec::new(),
            uses_relay: false,
            leaves_local_network: true,
            uses_cloud: true,
            content_logged: false,
        },
        created_at: now,
    }
}

/// A cloud request for which all is reserved.
pub struct CloudPreparation {
    pub workload: WorkloadRequest,
    pub reservation: CloudReservation,
    pub plan: CloudPlan,
    pub event: ClusterEvent,
}

/// That a cloud model cannot be had.
pub open spec fn no_cloud_model() -> ErrorView {
    not_found("model_not_found"@, "requested cloud model is unavailable"@)
}

/// Prepares a cloud request: the policy has to allow the model, and the worst that the request can
/// cost is reserved before anything is sent.
pub fn prepare_cloud_execution(
    repository: &mut Repository,
    policy_id: Uuid,
    provider_model: &str,
    public_model: &str,
    input: &str,
    max_output_tokens: u32,
    controller_node: Uuid,
    workload_id: Uuid,
    plan_id: Uuid,
    now: i128,
) -> (r: Result<CloudPreparation, ApiError>)
    ensures
        ({
            let before = old(repository)@;
            let policy = before.cloud_policies[policy_id];
            let asked = reserved(
                &policy,
                encode_utf8(input@).len() as int,
                max_output_tokens as int,
            );
            let limits = (policy.monthly_cost_limit_micros, policy.monthly_network_limit_bytes);
            let verdict = reservation_verdict(
                before.cloud_usage,
                policy.id,
                workload_id,
                asked,
                limits,
                now,
            );
            let allowed = before.cloud_policies.contains_key(policy_id) && executable(
                &policy,
                provider_model@,
            );
            match r {
                Err(error) => {
                    &&& final(repository)@ == before
                    &&& if !allowed {
                        error@ == no_cloud_model()
                    } else {
                        match verdict {
                            Verdict::Exceeds => error@ == rate_limited(
                                "cloud monthly spend or network ceiling would be exceeded"@,
                            ),
                            Verdict::Unfit | Verdict::Known => error@ == internal(),
                            Verdict::Granted => false,
                        }
                    }
                },
                Ok(prepared) => {
                    &&& allowed && verdict is Granted
                    &&& final(repository)@ == logged(
                        RepositoryView {
                            cloud_usage: before.cloud_usage.push(
                                reserved_use(policy.id, workload_id, asked, now),
                            ),
                            ..before
                        },
                        prepared.event@,
                        now,
                    )
                    &&& (prepared.reservation.cost_micros, prepared.reservation.network_bytes)
                        == asked
                    &&& prepared.event@ == reserved_event(policy.id, workload_id, asked)
                    &&& prepared.workload.id == workload_id
                    &&& prepared.workload.model@ == public_model@
                    &&& prepared.workload.required_runtime@ == policy.provider_plugin@
                    &&& prepared.workload.estimated_memory_bytes == 0
                    &&& prepared.workload.class == WorkloadClass::Interactive
                    &&& prepared.workload.policy == Policy::Balanced
                    &&& prepared.workload.allowed_nodes@ == seq![controller_node]
                    &&& prepared.workload.allow_remote
                    &&& is_cloud_plan(
                        prepared.plan,
                        plan_id,
                        workload_id,
                        controller_node,
                        policy,
                        asked.0,
                        asked.1,
                        now,
                    )
                },
            }
        }),
{
    let policy = match repository.cloud_policies.get(&policy_id) {
        Some(policy) => policy,
        None => {
            return Err(
                ApiError::not_found("model_not_found", "requested cloud model is unavailable"),
            );
        },
    };
    if validate_execution_policy(policy, provider_model).is_err() {
        return Err(
            ApiError::not_found("model_not_found", "requested cloud model is unavailable"),
        );
    }
    let workload = cloud_workload(
        workload_id,
        public_model,
        policy.provider_plugin.as_str(),
        controller_node,
    );
    let reservation = reservation(policy, input, max_output_tokens);
    let plan = cloud_plan(
        plan_id,
        workload_id,
        controller_node,
        policy,
        reservation.cost_micros,
        reservation.network_bytes,
        now,
    );
    let id: Uuid = policy.id;
    let cost_limit: u64 = policy.monthly_cost_limit_micros;
    let network_limit: u64 = policy.monthly_network_limit_bytes;
    match repository.reserve_cloud_usage(
        id,
        workload_id,
        reservation.cost_micros,
        reservation.network_bytes,
        cost_limit,
        network_limit,
        now,
    ) {
        Ok(Some(event)) => Ok(CloudPreparation { workload, reservation, plan, event }),
        Ok(None) => Err(
            ApiError::rate_limited("cloud monthly spend or network ceiling would be exceeded"),
        ),
        Err(_) => Err(ApiError::internal()),
    }
}

/// Where the request of an allowed model is sent.
pub fn cloud_request_endpoint(policy: &CloudAdapterPolicy, model: &str) -> (r: Result<
    String,
    CloudError,
>)
    requires
        executable(policy, model@) ==> endpoint_fits(policy.endpoint->0@),
    ensures
        match r {
            Ok(address) => executable(policy, model@) && policy.endpoint is Some && chat_address(
                policy.endpoint->0@,
            ) == Ok::<Seq<char>, CloudError>(address@),
            Err(error) => if executable(policy, model@) {
                chat_address(policy.endpoint->0@) == Err::<Seq<char>, CloudError>(error)
            } else {
                error == CloudError::ModelNotEnabled
            },
        },
{
    match validate_execution_policy(policy, model) {
        Ok(()) => {},
        Err(error) => return Err(error),
    }
    match &policy.endpoint {
        Some(endpoint) => chat_endpoint(endpoint.as_str()),
        None => Err(CloudError::ModelNotEnabled),
    }
}

/// The body of the request to a cloud provider, as values.
pub open spec fn cloud_request_json(
    model: Seq<char>,
    input: Seq<char>,
    max_output_tokens: u32,
) -> JsonView {
    JsonView::Object(
        fields5(
            ("model"@, JsonView::Text(model)),
            (
                "messages"@,
                array1(
                    JsonView::Object(
                        fields2(
                            ("role"@, JsonView::Text("user"@)),
                            ("content"@, JsonView::Text(input)),
                        ),
                    ),
                ),
            ),
            ("stream"@, JsonView::Bool(true)),
            (
                "stream_options"@,
                JsonView::Object(fields1(("include_usage"@, JsonView::Bool(true)))),
            ),
            ("max_tokens"@, JsonView::Number(max_output_tokens as int)),
        ),
    )
}

/// The body of the request to a cloud provider.
pub fn cloud_request_body(model: &str, input: &str, max_output_tokens: u32) -> (body: Json)
    ensures
        body@ == cloud_request_json(model@, input@, max_output_tokens),
{
    let message = Fields::new().text("role", "user").text("content", input).object();
    Fields::new().text("model", model).with("messages", single(message)).flag("stream", true).with(
        "stream_options",
        Fields::new().flag("include_usage", true).object(),
    ).number("max_tokens", max_output_tokens as i128).object()
}

/// Whether the state after differs from the one before only in that the reservation of a workload,
/// where it was open, is settled at nothing, and that this is logged.
pub open spec fn released(
    before: RepositoryView,
    after: RepositoryView,
    workload_id: Uuid,
    now: i128,
) -> bool {
    if forall|i: int|
        0 <= i < before.cloud_usage.len() ==> !settles(
            #[trigger] before.cloud_usage[i],
            workload_id,
            0,
            0,
        ) {
        after == before
    } else {
        exists|i: int|
            0 <= i < before.cloud_usage.len() && settles(
                #[trigger] before.cloud_usage[i],
                workload_id,
                0,
                0,
            ) && after == logged(
                RepositoryView {
                    cloud_usage: before.cloud_usage.update(
                        i,
                        settled(before.cloud_usage[i], 0, 0, now),
                    ),
                    ..before
                },
                settled_event(workload_id, 0, 0),
                now,
            )
    }
}

/// Gives a reservation back: nothing was used of it.
pub fn release_cloud_reservation(repository: &mut Repository, workload_id: Uuid, now: i128) -> (event:
    Option<ClusterEvent>)
    ensures
        released(old(repository)@, final(repository)@, workload_id, now),
        event is Some == !(forall|i: int|
            0 <= i < old(repository)@.cloud_usage.len() ==> !settles(
                #[trigger] old(repository)@.cloud_usage[i],
                workload_id,
                0,
                0,
            )),
        event matches Some(e) ==> e@ == settled_event(workload_id, 0, 0),
{
    match repository.complete_cloud_usage(workload_id, 0, 0, now) {
        Ok(event) => event,
        Err(_) => None,
    }
}

/// Stores a cloud workload for which all is reserved, with its plan. Where it cannot be stored, the
/// reservation is given back.
pub fn store_cloud_execution(
    repository: &mut Repository,
    workload: &WorkloadRequest,
    plan: PlanSummary,
    now: i128,
) -> (r: Result<ClusterEvent, (ApiError, Option<ClusterEvent>)>)
    ensures
        ({
            let before = old(repository)@;
            let known = before.workloads.contains_key(workload.id);
            match r {
                Ok(event) => {
                    &&& !known
                    &&& final(repository)@ == logged(
                        RepositoryView {
                            workloads: before.workloads.insert(
                                workload.id,
                                running(*workload, plan),
                            ),
                            ..before
                        },
                        event@,
                        now,
                    )
                    &&& event@ == started_event(workload.id, plan)
                },
                Err((error, event)) => {
                    &&& known
                    &&& error@ == internal()
                    &&& released(before, final(repository)@, workload.id, now)
                    &&& event is Some == !(forall|i: int|
                        0 <= i < before.cloud_usage.len() ==> !settles(
                            #[trigger] before.cloud_usage[i],
                            workload.id,
                            0,
                            0,
                        ))
                    &&& event matches Some(e) ==> e@ == settled_event(workload.id, 0, 0)
                },
            }
        }),
{
    match repository.create_workload(workload, plan, now) {
        Ok(event) => Ok(event),
        Err(_) => {
            let event = release_cloud_reservation(repository, workload.id, now);
            Err((ApiError::internal(), event))
        },
    }
}

/// Gives up a cloud request that could not be started: its reservation is given back, and its
/// workload, where it is running, is interrupted.
pub fn abandon_cloud_execution(
    repository: &mut Repository,
    workload_id: Uuid,
    error: &str,
    now: i128,
) -> (r: (ApiError, Option<ClusterEvent>, Option<ClusterEvent>))
    ensures
        r.0@ == unavailable("cloud execution could not start: "@ + error@),
        ({
            let before = old(repository)@;
            let after = final(repository)@;
            let running = before.workloads.contains_key(workload_id)
                && before.workloads[workload_id].status == WorkloadStatus::Running;
            &&& exists|given_back: RepositoryView| #[trigger]
                released(before, given_back, workload_id, now) && after == (if running {
                    logged(
                        RepositoryView {
                            workloads: ended(
                                before.workloads,
                                workload_id,
                                WorkloadStatus::Interrupted,
                                now,
                            ),
                            ..given_back
                        },
                        completed_event(workload_id, WorkloadStatus::Interrupted),
                        now,
                    )
                } else {
                    given_back
                })
            &&& r.1 is Some == !(forall|i: int|
                0 <= i < before.cloud_usage.len() ==> !settles(
                    #[trigger] before.cloud_usage[i],
                    workload_id,
                    0,
                    0,
                ))
            &&& r.1 matches Some(e) ==> e@ == settled_event(workload_id, 0, 0)
            &&& r.2 is Some == running
            &&& r.2 matches Some(e) ==> e@ == completed_event(
                workload_id,
                WorkloadStatus::Interrupted,
            )
        }),
{
    let ghost before = repository@;
    let released_event = release_cloud_reservation(repository, workload_id, now);
    let ghost middle = repository@;
    let ended_event = repository.complete_workload(
        workload_id,
        WorkloadStatus::Interrupted,
        now,
    );
    assert(released(before, middle, workload_id, now));
    (
        ApiError::unavailable(text::join2("cloud execution could not start: ", error).as_str()),
        released_event,
        ended_event,
    )
}

/// The aliases of the cloud models that clients may ask for.
pub open spec fn public_aliases(policies: Seq<CloudAdapterPolicy>) -> Seq<Seq<char>>
    decreases policies.len(),
{
    if policies.len() == 0 {
        Seq::empty()
    } else {
        let policy = policies.last();
        public_aliases(policies.drop_last()) + (if policy.enabled && policy.provider_plugin@
            == OPENAI_COMPATIBLE_PROVIDER@ && policy.endpoint is Some {
            policy_aliases(policy.id, views(policy.models@))
        } else {
            Seq::empty()
        })
    }
}

/// The aliases of models under a policy.
pub open spec fn policy_aliases(id: Uuid, models: Seq<Seq<char>>) -> Seq<Seq<char>> {
    models.map_values(|model: Seq<char>| crate::cloud::alias_of(id, model))
}

/// The aliases of the cloud models that clients may ask for: those of the executable policies.
pub fn cloud_model_aliases(policies: &[CloudAdapterPolicy]) -> (aliases: Vec<String>)
    ensures
        views(aliases@) == public_aliases(policies@),
{
    let mut aliases: Vec<String> = Vec::new();
    let mut i: usize = 0;
    assert(policies@.take(0) =~= Seq::empty());
    assert(views(aliases@) =~= Seq::empty());
    while i < policies.len()
        invariant
            i <= policies@.len(),
            views(aliases@) == public_aliases(policies@.take(i as int)),
        decreases policies@.len() - i,
    {
        assert(policies@.take(i + 1).drop_last() =~= policies@.take(i as int));
        let policy = &policies[i];
        let ghost before = views(aliases@);
        if policy.enabled && text::same(
            policy.provider_plugin.as_str(),
            OPENAI_COMPATIBLE_PROVIDER,
        ) && policy.endpoint.is_some() {
            let ghost names = policy_aliases(policy.id, views(policy.models@));
            let mut j: usize = 0;
            assert(before + names.take(0) =~= before);
            while j < policy.models.len()
                invariant
                    j <= policy.models@.len(),
                    names == policy_aliases(policy.id, views(policy.models@)),
                    views(aliases@) == before + names.take(j as int),
                decreases policy.models@.len() - j,
            {
                let alias = crate::cloud::model_alias(policy.id, policy.models[j].as_str());
                let ghost sofar = aliases@;
                aliases.push(alias);
                assert(views(aliases@) =~= views(sofar).push(alias@));
                assert(names[j as int] == alias@);
                assert(before + names.take(j + 1) =~= (before + names.take(j as int)).push(alias@));
                j += 1;
            }
            assert(names.take(j as int) =~= names);
        } else {
            assert(before + Seq::<Seq<char>>::empty() =~= before);
        }
        i += 1;
    }
    assert(policies@.take(i as int) =~= policies@);
    aliases
}

/// What a cloud request may cost is reserved, under its workload, before the request is made, and it is
/// reserved once.
pub proof fn law_reserved_before_egress(
    uses: Seq<CloudUse>,
    policy_id: Uuid,
    workload_id: Uuid,
    asked: (u64, u64),
    limits: (u64, u64),
    now: i128,
    other_policy: Uuid,
    asked_again: (u64, u64),
    other_limits: (u64, u64),
    later: i128,
)
    requires
        reservation_verdict(uses, policy_id, workload_id, asked, limits, now) is Granted,
    ensures
        ({
            let after = uses.push(reserved_use(policy_id, workload_id, asked, now));
            &&& has_use(after, workload_id)
            &&& (after.last().reserved_cost_micros, after.last().reserved_network_bytes) == asked
            &&& !(reservation_verdict(
                after,
                other_policy,
                workload_id,
                asked_again,
                other_limits,
                later,
            ) is Granted)
        }),
{
    let after = uses.push(reserved_use(policy_id, workload_id, asked, now));
    assert(after[after.len() - 1].workload_id == workload_id);
}

/// The nodes that may be chosen are those of the cluster that are the controller's own or that poll, each
/// as it is, and all of them.
pub proof fn law_the_eligible_nodes_stay(
    nodes: Seq<Node>,
    controller_node: Uuid,
    available: Seq<Uuid>,
    node: Node,
)
    ensures
        eligible_nodes(nodes, controller_node, available).contains(node) <==> nodes.contains(node) && (
        node.id == controller_node || available.contains(node.id)),
    decreases nodes.len(),
{
    if nodes.len() > 0 {
        let before = nodes.drop_last();
        law_the_eligible_nodes_stay(before, controller_node, available, node);
        let few = eligible_nodes(before, controller_node, available);
        let all = eligible_nodes(nodes, controller_node, available);
        if nodes.contains(node) {
            let i = choose|i: int| 0 <= i < nodes.len() && nodes[i] == node;
            if i < before.len() {
                assert(before[i] == node);
                if few.contains(node) {
                    let j = choose|j: int| 0 <= j < few.len() && few[j] == node;
                    assert(all[j] == node);
                }
            } else if eligible(node, controller_node, available) {
                assert(all.last() == node);
            }
        }
        if before.contains(node) {
            let i = choose|i: int| 0 <= i < before.len() && before[i] == node;
            assert(nodes[i] == node);
        }
        if all.contains(node) && !few.contains(node) {
            let j = choose|j: int| 0 <= j < all.len() && all[j] == node;
            assert(j == few.len()) by {
                if j < few.len() {
                    assert(few[j] == node);
                }
            }
            assert(nodes[nodes.len() - 1] == node);
        }
        if few.contains(node) {
            let j = choose|j: int| 0 <= j < few.len() && few[j] == node;
            assert(all[j] == node);
        }
    }
}

/// Nodes that may be chosen keep their order: those of two lists in a row are those of the first and then
/// those of the second.
pub proof fn law_eligible_nodes_keep_their_order(
    a: Seq<Node>,
    b: Seq<Node>,
    controller_node: Uuid,
    available: Seq<Uuid>,
)
    ensures
        eligible_nodes(a + b, controller_node, available) == eligible_nodes(
            a,
            controller_node,
            available,
        ) + eligible_nodes(b, controller_node, available),
    decreases b.len(),
{
    if b.len() == 0 {
        assert(a + b =~= a);
        assert(eligible_nodes(a, controller_node, available) + eligible_nodes(
            b,
            controller_node,
            available,
        ) =~= eligible_nodes(a, controller_node, available));
    } else {
        law_eligible_nodes_keep_their_order(a, b.drop_last(), controller_node, available);
        assert((a + b).drop_last() =~= a + b.drop_last());
        assert((a + b).last() == b.last());
        assert(eligible_nodes(a + b, controller_node, available) =~= eligible_nodes(
            a,
            controller_node,
            available,
        ) + eligible_nodes(b, controller_node, available));
    }
}

/// The input of a lease is bound to that lease and that workload, and to nothing else.
pub proof fn law_inputs_are_bound_to_their_lease(
    lease_id: Uuid,
    workload_id: Uuid,
    other_lease: Uuid,
    other_workload: Uuid,
)
    requires
        lease_binding(lease_id, workload_id) == lease_binding(other_lease, other_workload),
    ensures
        lease_id == other_lease,
        workload_id == other_workload,
{
    let head = "worker-lease:"@;
    let middle = ":workload:"@;
    let a = middle + hyphenated(workload_id);
    let b = middle + hyphenated(other_workload);
    assert(lease_binding(lease_id, workload_id) =~= head + hyphenated(lease_id) + a);
    assert(lease_binding(other_lease, other_workload) =~= head + hyphenated(other_lease) + b);
    lemma_hyphenated_behind(head, lease_id, a, other_lease, b);
    assert(a =~= middle + hyphenated(workload_id) + Seq::<char>::empty());
    assert(b =~= middle + hyphenated(other_workload) + Seq::<char>::empty());
    lemma_hyphenated_behind(middle, workload_id, Seq::empty(), other_workload, Seq::empty());
}

/// What a provider is asked: the model and the input as they are, in one message of the user, with the bound
/// on the answer, in a stream, and with its own counts.
pub proof fn law_a_provider_is_asked_as_it_is(model: Seq<char>, input: Seq<char>, max_output_tokens: u32)
    ensures
        ({
            let body = cloud_request_json(model, input, max_output_tokens);
            &&& field_of(body, "model"@) == Some(JsonView::Text(model))
            &&& field_of(body, "max_tokens"@) == Some(JsonView::Number(max_output_tokens as int))
            &&& field_of(body, "stream"@) == Some(JsonView::Bool(true))
            &&& field_below(body, "stream_options"@, "include_usage"@) == Some(JsonView::Bool(true))
            &&& field_of(body, "messages"@) matches Some(messages) && (only_item(messages) matches Some(
                message,
            ) && field_of(message, "role"@) == Some(JsonView::Text("user"@)) && field_of(
                message,
                "content"@,
            ) == Some(JsonView::Text(input)))
        }),
{
    reveal_strlit("model");
    reveal_strlit("messages");
    reveal_strlit("stream");
    reveal_strlit("stream_options");
    reveal_strlit("max_tokens");
    reveal_strlit("role");
    reveal_strlit("content");
    reveal_strlit("include_usage");
    assert("model"@.len() == 5);
    assert("messages"@.len() == 8);
    assert("stream"@.len() == 6);
    assert("stream_options"@.len() == 14);
    assert("max_tokens"@.len() == 10);
    assert("role"@.len() == 4);
    assert("content"@.len() == 7);
    assert("include_usage"@.len() == 13);
    let r = ("role"@, JsonView::Text("user"@));
    let t = ("content"@, JsonView::Text(input));
    let a = ("model"@, JsonView::Text(model));
    let b = ("messages"@, array1(JsonView::Object(fields2(r, t))));
    let c = ("stream"@, JsonView::Bool(true));
    let u = ("include_usage"@, JsonView::Bool(true));
    let d = ("stream_options"@, JsonView::Object(fields1(u)));
    let e = ("max_tokens"@, JsonView::Number(max_output_tokens as int));
    lemma_fields2(r, t, "role"@);
    lemma_fields2(r, t, "content"@);
    lemma_fields1(u, "include_usage"@);
    lemma_fields5(a, b, c, d, e, "model"@);
    lemma_fields5(a, b, c, d, e, "messages"@);
    lemma_fields5(a, b, c, d, e, "stream"@);
    lemma_fields5(a, b, c, d, e, "stream_options"@);
    lemma_fields5(a, b, c, d, e, "max_tokens"@);
}

/// A reservation that is given back counts for nothing any more: the month's total of its policy is lower by
/// all that was reserved, no reservation of the workload is open, and no other use is touched.
pub proof fn law_a_released_reservation_counts_for_nothing(
    before: RepositoryView,
    after: RepositoryView,
    workload_id: Uuid,
    now: i128,
    i: int,
    policy_id: Uuid,
    at: i128,
)
    requires
        released(before, after, workload_id, now),
        one_use_each(before.cloud_usage),
        0 <= i < before.cloud_usage.len(),
        before.cloud_usage[i].workload_id == workload_id,
        before.cloud_usage[i].actual is None,
        before.cloud_usage[i].completed_at is None,
    ensures
        after.cloud_usage.len() == before.cloud_usage.len(),
        after.cloud_usage[i].actual == Some((0u64, 0u64)),
        forall|j: int|
            0 <= j < before.cloud_usage.len() && j != i ==> #[trigger] after.cloud_usage[j]
                == before.cloud_usage[j],
        ({
            let usage = before.cloud_usage[i];
            let was = spent(before.cloud_usage, policy_id, at);
            let is = spent(after.cloud_usage, policy_id, at);
            if usage.policy_id == policy_id && since_month_start(usage.created_at, at) {
                &&& is.0 == was.0 - usage.reserved_cost_micros
                &&& is.1 == was.1 - usage.reserved_network_bytes
            } else {
                is == was
            }
        }),
{
    assert(settles(before.cloud_usage[i], workload_id, 0, 0));
    let k = choose|k: int|
        0 <= k < before.cloud_usage.len() && settles(
            #[trigger] before.cloud_usage[k],
            workload_id,
            0,
            0,
        ) && after == logged(
            RepositoryView {
                cloud_usage: before.cloud_usage.update(
                    k,
                    settled(before.cloud_usage[k], 0, 0, now),
                ),
                ..before
            },
            settled_event(workload_id, 0, 0),
            now,
        );
    assert(before.cloud_usage[k].workload_id == before.cloud_usage[i].workload_id);
    assert(k == i);
    law_a_settled_use_counts_exactly(before.cloud_usage, i, workload_id, 0, 0, now, policy_id, at);
}

/// Whether clients may ask for a model under some policy.
pub open spec fn offered(policies: Seq<CloudAdapterPolicy>, k: int, model: Seq<char>) -> bool {
    0 <= k < policies.len() && executable(&policies[k], model)
}

/// The aliases that clients are told are those of the models that may run, and all of them: who asks for one
/// finds a policy that allows it, and every model that a policy allows has its alias among them.
pub proof fn law_the_aliases_are_those_that_run(
    policies: Seq<CloudAdapterPolicy>,
    id: Uuid,
    model: Seq<char>,
)
    ensures
        public_aliases(policies).contains(alias_of(id, model)) <==> exists|k: int| #[trigger]
            offered(policies, k, model) && policies[k].id == id,
    decreases policies.len(),
{
    let alias = alias_of(id, model);
    if policies.len() == 0 {
    } else {
        let before = policies.drop_last();
        let policy = policies.last();
        law_the_aliases_are_those_that_run(before, id, model);
        let few = public_aliases(before);
        let names = if policy.enabled && policy.provider_plugin@ == OPENAI_COMPATIBLE_PROVIDER@
            && policy.endpoint is Some {
            policy_aliases(policy.id, views(policy.models@))
        } else {
            Seq::<Seq<char>>::empty()
        };
        let all = public_aliases(policies);
        assert(all =~= few + names);
        let n = policies.len() - 1;
        if all.contains(alias) {
            let i = choose|i: int| 0 <= i < all.len() && all[i] == alias;
            if i < few.len() {
                assert(few[i] == alias);
                let k = choose|k: int| #[trigger] offered(before, k, model) && before[k].id == id;
                assert(offered(policies, k, model));
            } else {
                let j = i - few.len();
                assert(names[j] == alias);
                let listed = views(policy.models@)[j];
                law_aliases_are_distinct(policy.id, listed, id, model);
                assert(policy.models@[j]@ == model);
                assert(offered(policies, n, model));
            }
        }
        if exists|k: int| #[trigger] offered(policies, k, model) && policies[k].id == id {
            let k = choose|k: int| #[trigger] offered(policies, k, model) && policies[k].id == id;
            if k < n {
                assert(offered(before, k, model));
                let i = choose|i: int| 0 <= i < few.len() && few[i] == alias;
                assert(all[i] == alias);
            } else {
                let j = choose|j: int|
                    0 <= j < policy.models@.len() && #[trigger] policy.models@[j]@ == model;
                assert(views(policy.models@)[j] == model);
                assert(names[j] == alias);
                assert(all[few.len() + j] == alias);
            }
        }
    }
}

/// A cloud plan says what it does: the prompt leaves the local network for the cloud, over the controller's
/// node alone and over no relay; nothing of its content is logged; and it counts with the network use that
/// was reserved.
pub proof fn law_a_cloud_plan_is_honest(
    plan: CloudPlan,
    id: Uuid,
    workload_id: Uuid,
    controller_node: Uuid,
    policy: CloudAdapterPolicy,
    input: Seq<char>,
    max_output_tokens: u32,
    now: i128,
)
    requires
        is_cloud_plan(
            plan,
            id,
            workload_id,
            controller_node,
            policy,
            reserved(&policy, encode_utf8(input).len() as int, max_output_tokens as int).0,
            reserved(&policy, encode_utf8(input).len() as int, max_output_tokens as int).1,
            now,
        ),
    ensures
        plan.privacy.uses_cloud && plan.privacy.leaves_local_network,
        !plan.privacy.content_logged && !plan.privacy.uses_relay,
        plan.privacy.prompt_nodes@ == seq![controller_node],
        plan.privacy.model_weight_nodes@.len() == 0,
        plan.selected_nodes@ == seq![controller_node],
        plan.workload_id == workload_id && plan.id == id,
        encode_utf8(input).len() + 32 * max_output_tokens + 131_072 <= u64::MAX
            ==> plan.estimated_network_bytes >= encode_utf8(input).len() + 32 * max_output_tokens,
{
}

} // verus!
