//! The cluster as a whole: its summary, its events, its plans and its controller.

use crate::api::auth::{allowed, principal_allows, AuthenticatedPrincipal, Permission};
use crate::api::{bad_request, forbidden, not_found, unavailable, ApiError};
use crate::ident::Uuid;
use crate::json::{fields2, Fields, Json, JsonView};
use crate::names::NodeStatus;
use crate::repository::leases::WorkloadCancellation;
use crate::repository::ControllerLease;
use crate::text;
use crate::text::{decimal, joined};
use vstd::prelude::*;

verus! {

/// How the controller is, as it says: a word and its version.
pub open spec fn health_note(status: Seq<char>, version: Seq<char>) -> JsonView {
    JsonView::Object(
        fields2(("status"@, JsonView::Text(status)), ("version"@, JsonView::Text(version))),
    )
}

/// That the controller is up.
pub fn health(version: &str) -> (r: Json)
    ensures
        r@ == health_note("ok"@, version@),
{
    Fields::new().text("status", "ok").text("version", version).object()
}

/// Whether the controller can work: it holds the lease, and a runtime is ready.
pub fn ready(active: bool, runtime_ready: bool, version: &str) -> (r: Result<Json, ApiError>)
    ensures
        match r {
            Ok(note) => active && runtime_ready && note@ == health_note("ready"@, version@),
            Err(error) => if !active {
                error@ == unavailable("controller does not hold the active fencing lease"@)
            } else {
                !runtime_ready && error@ == unavailable("runtime is not ready"@)
            },
        },
{
    if !active {
        return Err(ApiError::unavailable("controller does not hold the active fencing lease"));
    }
    if !runtime_ready {
        return Err(ApiError::unavailable("runtime is not ready"));
    }
    Ok(Fields::new().text("status", "ready").text("version", version).object())
}

/// A node, as far as the summary asks: its state, and how much of its memory may be used.
#[derive(Clone, Copy)]
pub struct SummarizedNode {
    pub status: NodeStatus,
    pub usable_memory_bytes: u64,
}

/// The nodes that are ready.
pub open spec fn ready_count(nodes: Seq<SummarizedNode>) -> nat
    decreases nodes.len(),
{
    if nodes.len() == 0 {
        0
    } else {
        ready_count(nodes.drop_last()) + if nodes.last().status == NodeStatus::Ready {
            1nat
        } else {
            0
        }
    }
}

/// The memory of the nodes that are ready.
pub open spec fn ready_memory(nodes: Seq<SummarizedNode>) -> nat
    decreases nodes.len(),
{
    if nodes.len() == 0 {
        0
    } else {
        ready_memory(nodes.drop_last()) + if nodes.last().status == NodeStatus::Ready {
            nodes.last().usable_memory_bytes as nat
        } else {
            0
        }
    }
}

/// A quantity of bytes in tenths of a gibibyte, rounded down; ten times as many bytes are counted up
/// to the greatest number.
pub open spec fn tenths_of_gib(bytes: nat) -> nat {
    (if 10 * bytes > u64::MAX {
        u64::MAX as nat
    } else {
        10 * bytes
    }) / 1_073_741_824
}

/// What the owner is told of the cluster.
pub open spec fn summary_message(ready_nodes: nat, usable_memory_bytes: nat) -> Seq<char> {
    let tenths = tenths_of_gib(usable_memory_bytes);
    decimal(ready_nodes) + " computer"@ + (if ready_nodes == 1 {
        " is"@
    } else {
        "s are"@
    }) + " ready with "@ + decimal(tenths / 10) + "."@ + decimal(tenths % 10)
        + " GiB of usable AI memory."@
}

/// The cluster in a few words.
pub struct ClusterSummary {
    pub ready_nodes: usize,
    pub total_nodes: usize,
    pub usable_memory_bytes: u64,
    pub active_runtime: String,
    pub local_only: bool,
    pub message: String,
}

/// More nodes never have less memory.
proof fn lemma_memory_grows(nodes: Seq<SummarizedNode>, n: int)
    requires
        0 <= n <= nodes.len(),
    ensures
        ready_memory(nodes.take(n)) <= ready_memory(nodes),
    decreases nodes.len() - n,
{
    if n == nodes.len() {
        assert(nodes.take(n) =~= nodes);
    } else {
        lemma_memory_grows(nodes, n + 1);
        let more = nodes.take(n + 1);
        assert(more.drop_last() =~= nodes.take(n));
    }
}

/// What the owner is told of the cluster.
fn summary_text(ready_nodes: usize, usable_memory_bytes: u64) -> (r: String)
    ensures
        r@ == summary_message(ready_nodes as nat, usable_memory_bytes as nat),
{
    let scaled: u64 = match usable_memory_bytes.checked_mul(10) {
        Some(scaled) => scaled,
        None => u64::MAX,
    };
    let tenths: u64 = scaled / 1_073_741_824;
    let count = text::decimal_of(ready_nodes as u64);
    let verb: &str = if ready_nodes == 1 {
        " is"
    } else {
        "s are"
    };
    let head = text::join3(count.as_str(), " computer", verb);
    let middle = text::join3(head.as_str(), " ready with ", text::decimal_of(tenths / 10).as_str());
    let number = text::join3(middle.as_str(), ".", text::decimal_of(tenths % 10).as_str());
    text::join2(number.as_str(), " GiB of usable AI memory.")
}

/// The cluster in a few words. How much of a node's memory may be used is found out elsewhere; all
/// that is ready has to add up to what a number can hold.
pub fn cluster_summary(nodes: &[SummarizedNode], runtimes: &[String]) -> (r: ClusterSummary)
    requires
        ready_memory(nodes@) <= u64::MAX,
    ensures
        r.ready_nodes == ready_count(nodes@),
        r.total_nodes == nodes@.len(),
        r.usable_memory_bytes == ready_memory(nodes@),
        r.active_runtime@ == joined(
            runtimes@.map_values(|runtime: String| runtime@),
            ", "@,
        ),
        r.local_only,
        r.message@ == summary_message(ready_count(nodes@), ready_memory(nodes@)),
{
    let mut ready_nodes: usize = 0;
    let mut usable_memory_bytes: u64 = 0;
    let mut i: usize = 0;
    while i < nodes.len()
        invariant
            i <= nodes@.len(),
            ready_memory(nodes@) <= u64::MAX,
            ready_nodes <= i,
            ready_nodes == ready_count(nodes@.take(i as int)),
            usable_memory_bytes == ready_memory(nodes@.take(i as int)),
        decreases nodes@.len() - i,
    {
        proof {
            let more = nodes@.take(i + 1);
            assert(more.drop_last() =~= nodes@.take(i as int));
            assert(more.last() == nodes@[i as int]);
            lemma_memory_grows(nodes@, i + 1);
        }
        if nodes[i].status == NodeStatus::Ready {
            ready_nodes += 1;
            usable_memory_bytes = usable_memory_bytes + nodes[i].usable_memory_bytes;
        }
        i += 1;
    }
    assert(nodes@.take(i as int) =~= nodes@);
    ClusterSummary {
        ready_nodes,
        total_nodes: nodes.len(),
        usable_memory_bytes,
        active_runtime: join_names(runtimes),
        local_only: true,
        message: summary_text(ready_nodes, usable_memory_bytes),
    }
}

/// The names of runtimes in a row.
fn join_names(names: &[String]) -> (r: String)
    ensures
        r@ == joined(names@.map_values(|name: String| name@), ", "@),
{
    let ghost views = names@.map_values(|name: String| name@);
    let mut r = String::new();
    let mut i: usize = 0;
    while i < names.len()
        invariant
            i <= names@.len(),
            views == names@.map_values(|name: String| name@),
            r@ == joined(views.take(i as int), ", "@),
        decreases names@.len() - i,
    {
        proof {
            let more = views.take(i + 1);
            assert(more.drop_last() =~= views.take(i as int));
            assert(more.last() == names@[i as int]@);
        }
        if i > 0 {
            r.append(", ");
        }
        r.append(names[i].as_str());
        i += 1;
    }
    assert(views.take(i as int) =~= views);
    r
}

/// Checks how many scenarios a plan is tried against.
pub fn run_digital_twin(scenarios: usize, plan_known: bool) -> (r: Result<(), ApiError>)
    ensures
        r is Ok == (1 <= scenarios <= 64 && plan_known),
        r matches Err(error) ==> error@ == (if scenarios == 0 || scenarios > 64 {
            bad_request(
                "invalid_simulation_scenarios"@,
                "digital twin requires between one and 64 scenarios"@,
            )
        } else {
            not_found("plan_not_found"@, "execution plan does not exist"@)
        }),
{
    if scenarios == 0 || scenarios > 64 {
        return Err(
            ApiError::bad_request(
                "invalid_simulation_scenarios",
                "digital twin requires between one and 64 scenarios",
            ),
        );
    }
    if !plan_known {
        return Err(ApiError::not_found("plan_not_found", "execution plan does not exist"));
    }
    Ok(())
}

/// Checks who asks for the controller's lease, and for how long.
pub fn check_controller_lease(actor: &AuthenticatedPrincipal, duration_seconds: u8) -> (r: Result<
    (),
    ApiError,
>)
    ensures
        r is Ok == (allowed(*actor, Permission::ClusterAdmin) && 10 <= duration_seconds <= 60),
        r matches Err(error) ==> error@ == (if !allowed(*actor, Permission::ClusterAdmin) {
            forbidden("controller election requires cluster administration permission"@)
        } else {
            bad_request(
                "invalid_controller_lease"@,
                "controller lease duration must be 10 through 60 seconds"@,
            )
        }),
{
    if !principal_allows(actor, Permission::ClusterAdmin) {
        return Err(
            ApiError::forbidden("controller election requires cluster administration permission"),
        );
    }
    if duration_seconds < 10 || duration_seconds > 60 {
        return Err(
            ApiError::bad_request(
                "invalid_controller_lease",
                "controller lease duration must be 10 through 60 seconds",
            ),
        );
    }
    Ok(())
}

/// The lease that was claimed, or that another controller holds it.
pub fn acquire_controller_lease(claimed: Option<ControllerLease>) -> (r: Result<
    ControllerLease,
    ApiError,
>)
    ensures
        match claimed {
            Some(lease) => r is Ok && r->Ok_0 == lease,
            None => r is Err && r->Err_0@ == bad_request(
                "controller_lease_held"@,
                "another controller holds an unexpired fenced lease"@,
            ),
        },
{
    match claimed {
        Some(lease) => Ok(lease),
        None => Err(
            ApiError::bad_request(
                "controller_lease_held",
                "another controller holds an unexpired fenced lease",
            ),
        ),
    }
}

/// What has to be stopped for a workload that was cancelled.
pub enum Stop {
    /// The client of the lease is told.
    Lease(Uuid),
    /// The runtime is told.
    Runtime(String),
}

/// What has to be stopped for a workload that was cancelled, or that it could not be.
pub fn cancel_workload(cancellation: Option<WorkloadCancellation>) -> (r: Result<Stop, ApiError>)
    ensures
        match cancellation {
            Some(c) => r is Ok && r->Ok_0 == (match c.lease_id {
                Some(lease) => Stop::Lease(lease),
                None => Stop::Runtime(c.runtime),
            }),
            None => r is Err && r->Err_0@ == bad_request(
                "workload_not_cancellable"@,
                "workload does not exist or is already terminal"@,
            ),
        },
{
    match cancellation {
        Some(cancellation) => match cancellation.lease_id {
            Some(lease) => Ok(Stop::Lease(lease)),
            None => Ok(Stop::Runtime(cancellation.runtime)),
        },
        None => Err(
            ApiError::bad_request(
                "workload_not_cancellable",
                "workload does not exist or is already terminal",
            ),
        ),
    }
}

/// The nodes that are ready are counted, each once, and the memory of just those is added up.
pub proof fn law_ready_nodes_add_up(a: Seq<SummarizedNode>, b: Seq<SummarizedNode>, node: SummarizedNode)
    ensures
        ready_count(a + b) == ready_count(a) + ready_count(b),
        ready_memory(a + b) == ready_memory(a) + ready_memory(b),
        ready_count(seq![node]) == if node.status == NodeStatus::Ready {
            1nat
        } else {
            0
        },
        ready_memory(seq![node]) == if node.status == NodeStatus::Ready {
            node.usable_memory_bytes as nat
        } else {
            0
        },
        ready_count(a) <= a.len(),
        ready_count(a) == 0 ==> ready_memory(a) == 0,
    decreases a.len() + b.len(),
{
    reveal_with_fuel(ready_count, 2);
    reveal_with_fuel(ready_memory, 2);
    assert(seq![node].drop_last() =~= Seq::empty());
    if b.len() > 0 {
        law_ready_nodes_add_up(a, b.drop_last(), node);
        assert((a + b).drop_last() =~= a + b.drop_last());
    } else {
        assert(a + b =~= a);
        if a.len() > 0 {
            law_ready_nodes_add_up(a.drop_last(), b, node);
            assert(a.drop_last() + b =~= a.drop_last());
        }
    }
}

/// The memory is told in tenths of a gibibyte, rounded down: what is told is there, and no tenth more.
pub proof fn law_the_memory_told_is_there(bytes: nat)
    requires
        10 * bytes <= u64::MAX,
    ensures
        tenths_of_gib(bytes) * 1_073_741_824 <= 10 * bytes,
        10 * bytes < (tenths_of_gib(bytes) + 1) * 1_073_741_824,
{
}

} // verus!
