//! Plans: trying them out, and seeing how they turned out.

use crate::api::{bad_request, not_found, unavailable, ApiError};
use crate::ident::Uuid;
use crate::repository::events::logged;
use crate::repository::catalog::{observation_of, observed_event};
use crate::repository::listings::{lists_by_id, lists_by_name};
use crate::repository::{ClusterEvent, PlanObservation, Repository, RepositoryView};
use crate::text;
use crate::workload::{Policy, WorkloadClass, WorkloadRequest};
use vstd::prelude::*;

verus! {

/// A workload for which a plan is tried out.
pub struct PlanSimulation {
    pub model: String,
    pub required_runtime: String,
    pub estimated_memory_bytes: u64,
    pub class: WorkloadClass,
    pub policy: Policy,
    pub allowed_nodes: Vec<Uuid>,
}

/// The workload for which a plan is tried out. It stays on the local network.
pub fn simulated_workload(id: Uuid, input: PlanSimulation) -> (r: WorkloadRequest)
    ensures
        r.id == id,
        r.model == input.model,
        r.required_runtime == input.required_runtime,
        r.estimated_memory_bytes == input.estimated_memory_bytes,
        r.class == input.class,
        r.policy == input.policy,
        r.allowed_nodes == input.allowed_nodes,
        !r.allow_remote,
{
    WorkloadRequest {
        id,
        model: input.model,
        required_runtime: input.required_runtime,
        estimated_memory_bytes: input.estimated_memory_bytes,
        class: input.class,
        policy: input.policy,
        allowed_nodes: input.allowed_nodes,
        allow_remote: false,
    }
}

/// The plan that the scheduler made, as it is encoded, or that there is none.
pub fn simulate_plan(outcome: Result<Vec<u8>, String>) -> (r: Result<Vec<u8>, ApiError>)
    ensures
        match outcome {
            Ok(plan) => r is Ok && r->Ok_0 == plan,
            Err(message) => r is Err && r->Err_0@ == unavailable(
                "no safe execution plan: "@ + message@,
            ),
        },
{
    match outcome {
        Ok(plan) => Ok(plan),
        Err(message) => Err(
            ApiError::unavailable(
                text::join2("no safe execution plan: ", message.as_str()).as_str(),
            ),
        ),
    }
}

/// The plan over several nodes that the scheduler made, as it is encoded, or that there is none.
pub fn simulate_distributed_plan(outcome: Result<Vec<u8>, String>) -> (r: Result<Vec<u8>, ApiError>)
    ensures
        match outcome {
            Ok(plan) => r is Ok && r->Ok_0 == plan,
            Err(message) => r is Err && r->Err_0@ == bad_request(
                "distributed_plan_unavailable"@,
                "capability-gated distributed plan is unavailable: "@ + message@,
            ),
        },
{
    match outcome {
        Ok(plan) => Ok(plan),
        Err(message) => Err(
            ApiError::bad_request(
                "distributed_plan_unavailable",
                text::join2(
                    "capability-gated distributed plan is unavailable: ",
                    message.as_str(),
                ).as_str(),
            ),
        ),
    }
}

/// What the scheduler is told of the cluster: its nodes, what they were measured to do, and their
/// policies.
pub struct ClusterSnapshot {
    pub nodes: Vec<Uuid>,
    pub benchmarks: Vec<Uuid>,
    pub policies: Vec<Uuid>,
    pub controller_node: Option<Uuid>,
    pub observed_at: i128,
}

/// What the scheduler is told of the cluster.
pub fn scheduling_snapshot(repository: &Repository, controller_node: Uuid, now: i128) -> (r:
    ClusterSnapshot)
    ensures
        lists_by_name(repository@.nodes, r.nodes@),
        lists_by_id(repository@.benchmarks, r.benchmarks@),
        lists_by_id(repository@.resource_policies, r.policies@),
        r.controller_node == Some(controller_node),
        r.observed_at == now,
{
    ClusterSnapshot {
        nodes: repository.list_nodes(),
        benchmarks: repository.benchmarks(),
        policies: repository.resource_policies(),
        controller_node: Some(controller_node),
        observed_at: now,
    }
}

/// The plan of a workload, as encoded text.
pub fn get_workload_plan<'a>(repository: &'a Repository, workload_id: Uuid) -> (r: Result<
    &'a String,
    ApiError,
>)
    ensures
        if repository@.workloads.contains_key(workload_id) {
            r is Ok && *r->Ok_0 == repository@.workloads[workload_id].plan
        } else {
            r is Err && r->Err_0@ == not_found(
                "plan_not_found"@,
                "execution plan does not exist"@,
            )
        },
{
    match repository.plan_for_workload(workload_id) {
        Some(plan) => Ok(plan),
        None => Err(ApiError::not_found("plan_not_found", "execution plan does not exist")),
    }
}

/// Stores how the plan of a workload turned out, by what the scheduler makes of the measurements.
pub fn record_plan_observation(
    repository: &mut Repository,
    workload_id: Uuid,
    observed: Result<PlanObservation, String>,
    now: i128,
) -> (r: Result<ClusterEvent, ApiError>)
    ensures
        if !old(repository)@.workloads.contains_key(workload_id) {
            r is Err && r->Err_0@ == not_found("plan_not_found"@, "execution plan does not exist"@)
                && final(repository)@ == old(repository)@
        } else {
            match observed {
                Ok(observation) => r is Ok && r->Ok_0@ == observed_event(
                    workload_id,
                    observation,
                )
                    && final(repository)@ == logged(
                    RepositoryView {
                        observations: old(repository)@.observations.push(
                            observation_of(workload_id, observation, now),
                        ),
                        ..old(repository)@
                    },
                    r->Ok_0@,
                    now,
                ),
                Err(message) => r is Err && r->Err_0@ == bad_request(
                    "invalid_plan_observation"@,
                    message@,
                ) && final(repository)@ == old(repository)@,
            }
        },
{
    if repository.plan_for_workload(workload_id).is_none() {
        return Err(ApiError::not_found("plan_not_found", "execution plan does not exist"));
    }
    match observed {
        Ok(observation) => Ok(repository.put_plan_observation(workload_id, observation, now)),
        Err(message) => Err(ApiError::bad_request("invalid_plan_observation", message.as_str())),
    }
}

} // verus!
