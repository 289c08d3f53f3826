//! Devices: what a node may do for itself, and what is asked of what it sends.

use crate::api::artifacts::{fits, is_within};
use crate::api::auth::{AuthenticatedPrincipal, Permission};
use crate::api::auth::{allowed, principal_allows};
use crate::api::enroll::{make_node, node_of, DeviceRegistration};
use crate::api::{bad_request, forbidden, not_found, ApiError, ErrorView};
use crate::enrollment::{registration_refusal, validate_device_registration};
use crate::ident::{format_uuid, hyphenated, Uuid};
use crate::json::{fields1, id_json, Json, JsonView};
use crate::names::NodeStatus;
use crate::repository::events::logged;
use crate::repository::listings::lists_by_id;
use crate::repository::nodes::{node_event, restated, status_event, with_node, without_node};
use crate::repository::{
    event_of, ClusterEvent, Repository, RepositoryView, ResourcePolicy,
};
use crate::runtime::{RuntimeEventView, WorkerRuntimeEvent};
use crate::text;
use vstd::prelude::*;
use vstd::utf8::encode_utf8;

verus! {

/// Whether a request is about what its principal may speak of: a node speaks of itself only.
pub open spec fn in_scope(principal: AuthenticatedPrincipal, node_id: Uuid) -> bool {
    principal matches AuthenticatedPrincipal::Node(node) ==> node == node_id
}

/// A node that speaks of another.
pub open spec fn scope_error() -> ErrorView {
    forbidden("node credentials cannot manage another device"@)
}

/// Whether a node's credentials are those of a device.
pub open spec fn is_node(principal: AuthenticatedPrincipal, node_id: Uuid) -> bool {
    principal matches AuthenticatedPrincipal::Node(node) && node == node_id
}

/// Whether a node's credentials are those of a device.
fn node_itself(principal: &AuthenticatedPrincipal, node_id: Uuid) -> (r: bool)
    ensures
        r == is_node(*principal, node_id),
{
    match principal {
        AuthenticatedPrincipal::Node(node) => *node == node_id,
        _ => false,
    }
}

/// Whether a request is about what its principal may speak of.
fn speaks_for(principal: &AuthenticatedPrincipal, node_id: Uuid) -> (r: bool)
    ensures
        r == in_scope(*principal, node_id),
{
    match principal {
        AuthenticatedPrincipal::Node(node) => *node == node_id,
        _ => true,
    }
}

/// Checks that a node speaks of itself only.
pub fn ensure_node_scope(principal: &AuthenticatedPrincipal, requested_node: Uuid) -> (r: Result<
    (),
    ApiError,
>)
    ensures
        r is Ok == in_scope(*principal, requested_node),
        r matches Err(error) ==> error@ == scope_error(),
{
    if speaks_for(principal, requested_node) {
        Ok(())
    } else {
        Err(ApiError::forbidden("node credentials cannot manage another device"))
    }
}

/// Checks that a heartbeat is a node's own.
pub fn device_heartbeat(principal: &AuthenticatedPrincipal, node_id: Uuid) -> (r: Result<
    (),
    ApiError,
>)
    ensures
        r is Ok == in_scope(*principal, node_id),
        r matches Err(error) ==> error@ == forbidden(
            "node credentials cannot heartbeat for another device"@,
        ),
{
    if speaks_for(principal, node_id) {
        Ok(())
    } else {
        Err(ApiError::forbidden("node credentials cannot heartbeat for another device"))
    }
}

/// What a heartbeat is answered: the node's state, unless it is not known or revoked.
pub fn heartbeat_answer(status: Option<NodeStatus>) -> (r: Result<NodeStatus, ApiError>)
    ensures
        match status {
            None => r is Err && r->Err_0@ == not_found(
                "device_not_found"@,
                "device does not exist"@,
            ),
            Some(status) => if status == NodeStatus::Revoked {
                r is Err && r->Err_0@ == forbidden("device membership is revoked"@)
            } else {
                r is Ok && r->Ok_0 == status
            },
        },
{
    match status {
        Some(status) => if status == NodeStatus::Revoked {
            Err(ApiError::forbidden("device membership is revoked"))
        } else {
            Ok(status)
        },
        None => Err(ApiError::not_found("device_not_found", "device does not exist")),
    }
}

/// Checks that a node rotates its own credentials, the ones with which it comes.
pub fn rotate_device_credentials(
    principal: &AuthenticatedPrincipal,
    credential_device: Uuid,
    node_id: Uuid,
) -> (r: Result<(), ApiError>)
    ensures
        r is Ok == (is_node(*principal, node_id) && credential_device == node_id),
        r matches Err(error) ==> error@ == forbidden(
            "a node can rotate only its own authenticated credentials"@,
        ),
{
    if node_itself(principal, node_id) && credential_device == node_id {
        Ok(())
    } else {
        Err(ApiError::forbidden("a node can rotate only its own authenticated credentials"))
    }
}

/// Checks that a worker asks for its own leases.
pub fn poll_worker_lease(principal: &AuthenticatedPrincipal, node_id: Uuid) -> (r: Result<
    (),
    ApiError,
>)
    ensures
        r is Ok == is_node(*principal, node_id),
        r matches Err(error) ==> error@ == forbidden(
            "a worker can poll leases only for its authenticated device"@,
        ),
{
    if node_itself(principal, node_id) {
        Ok(())
    } else {
        Err(ApiError::forbidden("a worker can poll leases only for its authenticated device"))
    }
}

// ------------------------------------------------------------------------------------------------
// Events of a worker

/// Whether the bit pattern of an IEEE 754 double is that of a number from zero to one: up to the
/// pattern of one, or that of the negative zero.
pub open spec fn unit_interval(bits: u64) -> bool {
    bits <= 0x3FF0_0000_0000_0000 || bits == 0x8000_0000_0000_0000
}

/// Why an event of a worker is refused, where it is.
pub open spec fn event_refusal(sequence: u64, event: RuntimeEventView) -> Option<ErrorView> {
    if sequence == 0 {
        Some(bad_request("invalid_worker_sequence"@, "worker event sequence starts at one"@))
    } else {
        match event {
            RuntimeEventView::Loading { progress } => if unit_interval(progress) {
                None
            } else {
                Some(
                    bad_request(
                        "invalid_worker_progress"@,
                        "worker load progress must be between zero and one"@,
                    ),
                )
            },
            RuntimeEventView::TextDelta(text) => if encode_utf8(text).len() > 65_536 {
                Some(
                    bad_request(
                        "worker_delta_too_large"@,
                        "worker text delta exceeds 64 KiB"@,
                    ),
                )
            } else {
                None
            },
            RuntimeEventView::Finished { finish_reason, .. } => if fits(finish_reason, 64) {
                None
            } else {
                Some(
                    bad_request(
                        "invalid_finish_reason"@,
                        "worker finish reason must contain 1 to 64 characters"@,
                    ),
                )
            },
            RuntimeEventView::Failure { code, message, .. } => if fits(code, 64) && encode_utf8(
                message,
            ).len() <= 1_024 {
                None
            } else {
                Some(
                    bad_request(
                        "invalid_worker_failure"@,
                        "worker failure code or redacted message exceeds its bound"@,
                    ),
                )
            },
            _ => None,
        }
    }
}

/// Checks an event of a worker.
pub fn validate_worker_event(sequence: u64, event: &WorkerRuntimeEvent) -> (r: Result<(), ApiError>)
    ensures
        r is Err == event_refusal(sequence, event@) is Some,
        r matches Err(error) ==> event_refusal(sequence, event@) == Some(error@),
{
    if sequence == 0 {
        return Err(
            ApiError::bad_request(
                "invalid_worker_sequence",
                "worker event sequence starts at one",
            ),
        );
    }
    match event {
        WorkerRuntimeEvent::Loading { progress } => if *progress <= 0x3FF0_0000_0000_0000
            || *progress == 0x8000_0000_0000_0000 {
            Ok(())
        } else {
            Err(
                ApiError::bad_request(
                    "invalid_worker_progress",
                    "worker load progress must be between zero and one",
                ),
            )
        },
        WorkerRuntimeEvent::TextDelta { text: delta } => if text::byte_len(delta.as_str())
            > 65_536 {
            Err(
                ApiError::bad_request(
                    "worker_delta_too_large",
                    "worker text delta exceeds 64 KiB",
                ),
            )
        } else {
            Ok(())
        },
        WorkerRuntimeEvent::Finished { finish_reason, .. } => if is_within(
            finish_reason.as_str(),
            64,
        ) {
            Ok(())
        } else {
            Err(
                ApiError::bad_request(
                    "invalid_finish_reason",
                    "worker finish reason must contain 1 to 64 characters",
                ),
            )
        },
        WorkerRuntimeEvent::Failure { code, message, .. } => if is_within(code.as_str(), 64)
            && text::byte_len(message.as_str()) <= 1_024 {
            Ok(())
        } else {
            Err(
                ApiError::bad_request(
                    "invalid_worker_failure",
                    "worker failure code or redacted message exceeds its bound",
                ),
            )
        },
        WorkerRuntimeEvent::Prefill { .. } => Ok(()),
        WorkerRuntimeEvent::Cancelled => Ok(()),
    }
}

/// Checks that an event is a worker's own, and the event itself.
pub fn submit_worker_event(
    principal: &AuthenticatedPrincipal,
    node_id: Uuid,
    sequence: u64,
    event: &WorkerRuntimeEvent,
) -> (r: Result<(), ApiError>)
    ensures
        r is Ok == (is_node(*principal, node_id) && event_refusal(sequence, event@) is None),
        r matches Err(error) ==> error@ == (if !is_node(*principal, node_id) {
            forbidden("a worker can submit events only for its authenticated device"@)
        } else {
            event_refusal(sequence, event@)->0
        }),
{
    if !node_itself(principal, node_id) {
        return Err(
            ApiError::forbidden("a worker can submit events only for its authenticated device"),
        );
    }
    validate_worker_event(sequence, event)
}

/// What a worker is told of an event that its lease does not take.
pub fn stale_worker_event() -> (r: ApiError)
    ensures
        r@ == bad_request(
            "stale_worker_event"@,
            "worker event is duplicated, out of order, expired, or outside this lease"@,
        ),
{
    ApiError::bad_request(
        "stale_worker_event",
        "worker event is duplicated, out of order, expired, or outside this lease",
    )
}

// ------------------------------------------------------------------------------------------------
// Resource policies

/// Whether somebody may give a node a policy, and in whose name: the owner at the node itself, and the
/// node, may loosen it; whoever is elsewhere may not.
pub open spec fn policy_actor(
    principal: AuthenticatedPrincipal,
    at_controller: bool,
    stricter: bool,
) -> Result<Seq<char>, ErrorView> {
    match principal {
        AuthenticatedPrincipal::Owner => if at_controller {
            Ok("local-owner"@)
        } else if stricter {
            Ok("remote-owner"@)
        } else {
            Err(
                forbidden("a remote administrator cannot loosen a node owner's resource policy"@),
            )
        },
        AuthenticatedPrincipal::Node(_) => Ok("node-owner"@),
        AuthenticatedPrincipal::Human(human) => if human.may(Permission::ClusterAdmin)
            && stricter {
            Ok(hyphenated(human.id))
        } else {
            Err(
                forbidden("a remote administrator cannot loosen a node owner's resource policy"@),
            )
        },
        AuthenticatedPrincipal::Service(service) => if service.may(Permission::ClusterAdmin)
            && stricter {
            Ok(hyphenated(service.id))
        } else {
            Err(
                forbidden("a service administrator cannot loosen a node owner's resource policy"@),
            )
        },
    }
}

/// What comes of a policy for a node: in whose name it is stored, or why it is refused. Whether it is
/// valid, and whether it is as strict as the one that is there, is found out elsewhere; there is none
/// for a node that is not known.
pub open spec fn policy_update(
    principal: AuthenticatedPrincipal,
    node_id: Uuid,
    controller_node: Uuid,
    valid: bool,
    known: bool,
    stricter: bool,
) -> Result<Seq<char>, ErrorView> {
    if !in_scope(principal, node_id) {
        Err(scope_error())
    } else if !valid {
        Err(
            bad_request(
                "invalid_resource_policy"@,
                "resource percentages or thermal ceiling are outside supported bounds"@,
            ),
        )
    } else if !known {
        Err(not_found("device_not_found"@, "device does not exist"@))
    } else {
        policy_actor(principal, node_id == controller_node, stricter)
    }
}

/// In whose name a policy for a node is stored, or why it is refused.
pub fn update_device_policy(
    principal: &AuthenticatedPrincipal,
    node_id: Uuid,
    controller_node: Uuid,
    valid: bool,
    known: bool,
    stricter: bool,
) -> (r: Result<String, ApiError>)
    ensures
        match r {
            Ok(actor) => policy_update(
                *principal,
                node_id,
                controller_node,
                valid,
                known,
                stricter,
            ) == Ok::<Seq<char>, ErrorView>(actor@),
            Err(error) => policy_update(
                *principal,
                node_id,
                controller_node,
                valid,
                known,
                stricter,
            ) == Err::<Seq<char>, ErrorView>(error@),
        },
{
    if let Err(error) = ensure_node_scope(principal, node_id) {
        return Err(error);
    }
    if !valid {
        return Err(
            ApiError::bad_request(
                "invalid_resource_policy",
                "resource percentages or thermal ceiling are outside supported bounds",
            ),
        );
    }
    if !known {
        return Err(ApiError::not_found("device_not_found", "device does not exist"));
    }
    match principal {
        AuthenticatedPrincipal::Owner => if node_id == controller_node {
            Ok(text::owned("local-owner"))
        } else if stricter {
            Ok(text::owned("remote-owner"))
        } else {
            Err(
                ApiError::forbidden(
                    "a remote administrator cannot loosen a node owner's resource policy",
                ),
            )
        },
        AuthenticatedPrincipal::Node(_) => Ok(text::owned("node-owner")),
        AuthenticatedPrincipal::Human(human) => if human.allows(Permission::ClusterAdmin)
            && stricter {
            Ok(format_uuid(human.id))
        } else {
            Err(
                ApiError::forbidden(
                    "a remote administrator cannot loosen a node owner's resource policy",
                ),
            )
        },
        AuthenticatedPrincipal::Service(service) => if service.allows(Permission::ClusterAdmin)
            && stricter {
            Ok(format_uuid(service.id))
        } else {
            Err(
                ApiError::forbidden(
                    "a service administrator cannot loosen a node owner's resource policy",
                ),
            )
        },
    }
}

/// Nobody but a node itself, or the owner who sits at it, loosens its policy.
pub proof fn law_policies_are_loosened_by_their_owners(
    principal: AuthenticatedPrincipal,
    node_id: Uuid,
    controller_node: Uuid,
    valid: bool,
    known: bool,
)
    requires
        policy_update(principal, node_id, controller_node, valid, known, false) is Ok,
    ensures
        is_node(principal, node_id) || (principal is Owner && node_id == controller_node),
{
}

// ------------------------------------------------------------------------------------------------
// Measurements and traces

/// The bit patterns of the numbers of a benchmark, and how many samples it took.
#[derive(Clone, Copy)]
pub struct BenchmarkNumbers {
    pub tokens_per_second: u64,
    pub time_to_first_token_ms: u64,
    pub network_latency_ms: u64,
    pub network_bandwidth_mbps: u64,
    pub jitter_ms: u64,
    pub packet_loss: u64,
    pub sample_count: u32,
}

/// Whether the bit pattern of an IEEE 754 double is that of a finite number that is not negative.
pub open spec fn finite_not_negative(bits: u64) -> bool {
    bits < 0x7FF0_0000_0000_0000 || bits == 0x8000_0000_0000_0000
}

/// Whether the bit pattern of an IEEE 754 double is that of a finite number that is not negative.
fn is_finite_not_negative(bits: u64) -> (r: bool)
    ensures
        r == finite_not_negative(bits),
{
    bits < 0x7FF0_0000_0000_0000 || bits == 0x8000_0000_0000_0000
}

/// Whether the numbers of a benchmark make sense.
pub open spec fn sensible(numbers: BenchmarkNumbers) -> bool {
    &&& finite_not_negative(numbers.tokens_per_second)
    &&& finite_not_negative(numbers.time_to_first_token_ms)
    &&& finite_not_negative(numbers.network_latency_ms)
    &&& finite_not_negative(numbers.network_bandwidth_mbps)
    &&& finite_not_negative(numbers.jitter_ms)
    &&& unit_interval(numbers.packet_loss)
    &&& numbers.sample_count > 0
}

/// Checks a benchmark: a node measures itself only, the numbers make sense, and the node is known.
pub fn submit_benchmark(
    principal: &AuthenticatedPrincipal,
    node_id: Uuid,
    numbers: BenchmarkNumbers,
    known: bool,
) -> (r: Result<(), ApiError>)
    ensures
        r is Ok == (in_scope(*principal, node_id) && sensible(numbers) && known),
        r matches Err(error) ==> error@ == (if !in_scope(*principal, node_id) {
            forbidden("node credentials cannot submit another device's benchmark"@)
        } else if !sensible(numbers) {
            bad_request(
                "invalid_benchmark"@,
                "benchmark values must be finite, non-negative, sampled, and packet loss must be at most one"@,
            )
        } else {
            not_found("device_not_found"@, "benchmark device does not exist"@)
        }),
{
    if !speaks_for(principal, node_id) {
        return Err(
            ApiError::forbidden("node credentials cannot submit another device's benchmark"),
        );
    }
    if !is_finite_not_negative(numbers.tokens_per_second) || !is_finite_not_negative(
        numbers.time_to_first_token_ms,
    ) || !is_finite_not_negative(numbers.network_latency_ms) || !is_finite_not_negative(
        numbers.network_bandwidth_mbps,
    ) || !is_finite_not_negative(numbers.jitter_ms) || !(numbers.packet_loss
        <= 0x3FF0_0000_0000_0000 || numbers.packet_loss == 0x8000_0000_0000_0000)
        || numbers.sample_count == 0 {
        return Err(
            ApiError::bad_request(
                "invalid_benchmark",
                "benchmark values must be finite, non-negative, sampled, and packet loss must be at most one",
            ),
        );
    }
    if !known {
        return Err(
            ApiError::not_found("device_not_found", "benchmark device does not exist"),
        );
    }
    Ok(())
}

/// Whether an attribute of a trace may have a name: none that could hold content.
pub open spec fn attribute_name(name: Seq<char>) -> bool {
    ||| name == "runtime_id"@
    ||| name == "strategy"@
    ||| name == "stage"@
    ||| name == "sequence"@
    ||| name == "bytes"@
    ||| name == "tokens"@
    ||| name == "error_code"@
    ||| name == "checkpoint"@
}

/// Whether an attribute of a trace may have a value: a short text or a plain value.
pub open spec fn attribute_value(value: JsonView) -> bool {
    match value {
        JsonView::Text(text) => encode_utf8(text).len() <= 128,
        JsonView::Number(_) => true,
        JsonView::Real(_) => true,
        JsonView::Bool(_) => true,
        JsonView::Null => true,
        _ => false,
    }
}

/// Whether the attributes of a trace hold no content.
pub open spec fn safe_attributes(attributes: JsonView) -> bool {
    match attributes {
        JsonView::Object(fields) => fields.len() <= 16 && forall|i: int|
            0 <= i < fields.len() ==> attribute_name((#[trigger] fields[i]).0) && attribute_value(
                fields[i].1,
            ),
        _ => false,
    }
}

/// Whether an attribute of a trace may have a name.
fn is_attribute_name(name: &str) -> (r: bool)
    ensures
        r == attribute_name(name@),
{
    text::same(name, "runtime_id") || text::same(name, "strategy") || text::same(name, "stage")
        || text::same(name, "sequence") || text::same(name, "bytes") || text::same(name, "tokens")
        || text::same(name, "error_code") || text::same(name, "checkpoint")
}

/// Whether an attribute of a trace may have a value.
fn is_attribute_value(value: &Json) -> (r: bool)
    ensures
        r == attribute_value(value@),
{
    match value {
        Json::Text(value) => text::byte_len(value.as_str()) <= 128,
        Json::Number(_) => true,
        Json::Real(_) => true,
        Json::Bool(_) => true,
        Json::Null => true,
        Json::Moment(_) => false,
        Json::Document(_) => false,
        Json::Array(_) => false,
        Json::Object(_) => false,
    }
}

/// Whether the attributes of a trace hold no content.
pub fn safe_trace_attributes(attributes: &Json) -> (r: bool)
    ensures
        r == safe_attributes(attributes@),
{
    match attributes {
        Json::Object(fields) => {
            let ghost views = attributes@->Object_0;
            if fields.len() > 16 {
                return false;
            }
            let mut i: usize = 0;
            while i < fields.len()
                invariant
                    i <= fields@.len() <= 16,
                    attributes@ == JsonView::Object(views),
                    views.len() == fields@.len(),
                    forall|j: int|
                        0 <= j < fields@.len() ==> #[trigger] views[j] == (
                            fields@[j].0@,
                            fields@[j].1@,
                        ),
                    forall|j: int|
                        0 <= j < i ==> attribute_name((#[trigger] views[j]).0) && attribute_value(
                            views[j].1,
                        ),
                decreases fields@.len() - i,
            {
                assert(views[i as int] == (fields@[i as int].0@, fields@[i as int].1@));
                if !is_attribute_name(fields[i].0.as_str()) || !is_attribute_value(&fields[i].1) {
                    return false;
                }
                i += 1;
            }
            true
        },
        _ => false,
    }
}

/// Why a span of a trace is refused, where it is.
pub open spec fn span_refusal(
    principal: AuthenticatedPrincipal,
    node_id: Uuid,
    operation: Seq<char>,
    status: Seq<char>,
    attributes: JsonView,
) -> Option<ErrorView> {
    if !in_scope(principal, node_id) {
        Some(forbidden("a node can record trace spans only for itself"@))
    } else if !fits(operation, 64) || !(status == "ok"@ || status == "error"@ || status
        == "cancelled"@) || !safe_attributes(attributes) {
        Some(
            bad_request(
                "invalid_trace_span"@,
                "trace span operation, status, or privacy-safe attributes are invalid"@,
            ),
        )
    } else {
        None
    }
}

/// Checks a span of a trace.
pub fn record_trace_span(
    principal: &AuthenticatedPrincipal,
    node_id: Uuid,
    operation: &str,
    status: &str,
    attributes: &Json,
) -> (r: Result<(), ApiError>)
    ensures
        r is Err == span_refusal(*principal, node_id, operation@, status@, attributes@) is Some,
        r matches Err(error) ==> span_refusal(
            *principal,
            node_id,
            operation@,
            status@,
            attributes@,
        ) == Some(error@),
{
    if !speaks_for(principal, node_id) {
        return Err(ApiError::forbidden("a node can record trace spans only for itself"));
    }
    if !is_within(operation, 64) || !(text::same(status, "ok") || text::same(status, "error")
        || text::same(status, "cancelled")) || !safe_trace_attributes(attributes) {
        return Err(
            ApiError::bad_request(
                "invalid_trace_span",
                "trace span operation, status, or privacy-safe attributes are invalid",
            ),
        );
    }
    Ok(())
}

// ------------------------------------------------------------------------------------------------
// The inventory

/// A device that is not known.
pub open spec fn unknown_device() -> ErrorView {
    not_found("device_not_found"@, "device does not exist"@)
}

/// Registers a device as a new node.
pub fn register_device(
    repository: &mut Repository,
    id: Uuid,
    input: DeviceRegistration,
    now: i128,
) -> (r: Result<ClusterEvent, ApiError>)
    ensures
        match registration_refusal(input.name@, input.architecture@) {
            Some(error) => r is Err && r->Err_0@ == error && final(repository)@
                == old(repository)@,
            None => {
                let node = node_of(id, input, NodeStatus::Ready, now);
                &&& r is Ok && r->Ok_0@ == node_event("device.registered"@, node)
                &&& final(repository)@ == logged(
                    RepositoryView {
                        nodes: with_node(old(repository)@.nodes, node, false),
                        ..old(repository)@
                    },
                    r->Ok_0@,
                    now,
                )
            },
        },
{
    match validate_device_registration(input.name.as_str(), input.architecture.as_str()) {
        Ok(()) => Ok(repository.register_node(make_node(id, input, NodeStatus::Ready, now), now)),
        Err(error) => Err(error),
    }
}

/// Takes what a device says of itself, which a node can say of itself only.
pub fn update_device_inventory(
    repository: &mut Repository,
    principal: &AuthenticatedPrincipal,
    node_id: Uuid,
    input: DeviceRegistration,
    now: i128,
) -> (r: Result<ClusterEvent, ApiError>)
    ensures
        ({
            let refusal = if !in_scope(*principal, node_id) {
                Some(scope_error())
            } else {
                registration_refusal(input.name@, input.architecture@)
            };
            match refusal {
                Some(error) => r is Err && r->Err_0@ == error && final(repository)@
                    == old(repository)@,
                None => {
                    let node = node_of(node_id, input, NodeStatus::Ready, now);
                    &&& r is Ok && r->Ok_0@ == node_event("device.inventory_updated"@, node)
                    &&& final(repository)@ == logged(
                        RepositoryView {
                            nodes: with_node(old(repository)@.nodes, node, false),
                            ..old(repository)@
                        },
                        r->Ok_0@,
                        now,
                    )
                },
            }
        }),
{
    if let Err(error) = ensure_node_scope(principal, node_id) {
        return Err(error);
    }
    match validate_device_registration(input.name.as_str(), input.architecture.as_str()) {
        Ok(()) => Ok(
            repository.update_node_inventory(
                make_node(node_id, input, NodeStatus::Ready, now),
                now,
            ),
        ),
        Err(error) => Err(error),
    }
}

/// Sets the state of a device.
pub fn update_device_status(
    repository: &mut Repository,
    node_id: Uuid,
    status: NodeStatus,
    now: i128,
) -> (r: Result<ClusterEvent, ApiError>)
    ensures
        if old(repository)@.nodes.contains_key(node_id) {
            r is Ok && r->Ok_0@ == status_event("device.status_changed"@, node_id, status)
                && final(repository)@ == logged(
                restated(old(repository)@, node_id, status, now),
                r->Ok_0@,
                now,
            )
        } else {
            r is Err && r->Err_0@ == unknown_device() && final(repository)@ == old(repository)@
        },
{
    match repository.update_node_status(node_id, status, now) {
        Some(e) => Ok(e),
        None => Err(ApiError::not_found("device_not_found", "device does not exist")),
    }
}

/// Revokes a device, for one who may act in an emergency. The local node cannot be revoked.
pub fn revoke_device(
    repository: &mut Repository,
    principal: &AuthenticatedPrincipal,
    node_id: Uuid,
    now: i128,
) -> (r: Result<ClusterEvent, ApiError>)
    ensures
        if !allowed(*principal, Permission::EmergencyControl) {
            r is Err && r->Err_0@ == forbidden(
                "administrator credentials are required for revocation"@,
            ) && final(repository)@ == old(repository)@
        } else if old(repository)@.nodes.contains_key(node_id)
            && !old(repository)@.nodes[node_id].is_local {
            r is Ok && r->Ok_0@ == event_of(
                "device.revoked"@,
                fields1(("node_id"@, id_json(node_id))),
            ) && final(repository)@ == logged(
                without_node(old(repository)@, node_id, now),
                r->Ok_0@,
                now,
            )
        } else {
            r is Err && r->Err_0@ == unknown_device() && final(repository)@ == old(repository)@
        },
{
    if !principal_allows(principal, Permission::EmergencyControl) {
        return Err(ApiError::forbidden("administrator credentials are required for revocation"));
    }
    match repository.revoke_node(node_id, now) {
        Some(e) => Ok(e),
        None => Err(ApiError::not_found("device_not_found", "device does not exist")),
    }
}

/// The policy of a device: its own, or none where the defaults hold.
pub fn get_device_policy<'a>(
    repository: &'a Repository,
    principal: &AuthenticatedPrincipal,
    node_id: Uuid,
) -> (r: Result<Option<&'a ResourcePolicy>, ApiError>)
    ensures
        if !in_scope(*principal, node_id) {
            r is Err && r->Err_0@ == scope_error()
        } else if !repository@.nodes.contains_key(node_id) {
            r is Err && r->Err_0@ == unknown_device()
        } else {
            r is Ok && match r->Ok_0 {
                Some(policy) => repository@.resource_policies.contains_key(node_id) && *policy
                    == repository@.resource_policies[node_id],
                None => !repository@.resource_policies.contains_key(node_id),
            }
        },
{
    if let Err(error) = ensure_node_scope(principal, node_id) {
        return Err(error);
    }
    match repository.resource_policy(node_id) {
        Some(policy) => Ok(policy),
        None => Err(ApiError::not_found("device_not_found", "device does not exist")),
    }
}

/// What a report of measurements is made of: the nodes, the policy of each, and those of them that
/// were measured, in the order of their identifiers. It holds no content.
pub struct ReproducibleBenchmarkReport {
    pub schema_version: u32,
    pub generated_at: i128,
    pub content_included: bool,
    pub nodes: Vec<Uuid>,
    pub policies: Vec<BenchmarkPolicySnapshot>,
    pub benchmarks: Vec<Uuid>,
}

/// The policy under which a node was measured: its own, as encoded text, or none where the defaults hold.
pub struct BenchmarkPolicySnapshot {
    pub node_id: Uuid,
    pub policy: Option<String>,
}

/// Whether a snapshot says under which policy a node is.
pub open spec fn snapshot_of(
    snapshot: BenchmarkPolicySnapshot,
    policies: Map<u128, ResourcePolicy>,
    node_id: Uuid,
) -> bool {
    &&& snapshot.node_id == node_id
    &&& match snapshot.policy {
        Some(policy) => policies.contains_key(node_id) && policy@ == policies[node_id].policy@,
        None => !policies.contains_key(node_id),
    }
}

/// What a report of measurements is made of.
pub fn export_benchmark_report(repository: &Repository, now: i128) -> (r: ReproducibleBenchmarkReport)
    ensures
        r.schema_version == 1,
        r.generated_at == now,
        !r.content_included,
        lists_by_id(repository@.nodes, r.nodes@),
        r.policies@.len() == r.nodes@.len(),
        forall|i: int|
            0 <= i < r.nodes@.len() ==> snapshot_of(
                #[trigger] r.policies@[i],
                repository@.resource_policies,
                r.nodes@[i],
            ),
        lists_by_id(repository@.benchmarks, r.benchmarks@),
{
    let nodes: Vec<Uuid> = crate::repository::listings::by_id(&repository.nodes);
    let mut policies: Vec<BenchmarkPolicySnapshot> = Vec::new();
    let mut i: usize = 0;
    while i < nodes.len()
        invariant
            i <= nodes@.len(),
            policies@.len() == i,
            forall|j: int|
                0 <= j < i ==> snapshot_of(
                    #[trigger] policies@[j],
                    repository@.resource_policies,
                    nodes@[j],
                ),
        decreases nodes@.len() - i,
    {
        let policy = match repository.resource_policies.get(&nodes[i]) {
            Some(row) => Some(text::owned(row.policy.as_str())),
            None => None,
        };
        policies.push(BenchmarkPolicySnapshot { node_id: nodes[i], policy });
        i += 1;
    }
    ReproducibleBenchmarkReport {
        schema_version: 1,
        generated_at: now,
        content_included: false,
        nodes,
        policies,
        benchmarks: repository.benchmarks(),
    }
}

/// A revoked device holds no valid credential afterwards.
pub proof fn law_revocation_ends_membership(
    before: RepositoryView,
    node_id: Uuid,
    serial: Uuid,
    now: i128,
)
    ensures
        !crate::repository::nodes::credential_valid(
            without_node(before, node_id, now).credentials,
            serial,
            node_id,
        ),
{
}

/// An event of a worker is taken where its number begins at one and what it says lies within bounds; an event
/// at its bound is still taken.
pub proof fn law_worker_events_are_bounded(sequence: u64, event: RuntimeEventView)
    ensures
        event_refusal(sequence, event) is None <==> sequence >= 1 && match event {
            RuntimeEventView::Loading { progress } => unit_interval(progress),
            RuntimeEventView::TextDelta(text) => encode_utf8(text).len() <= 65_536,
            RuntimeEventView::Finished { finish_reason, .. } => 1 <= encode_utf8(finish_reason).len()
                <= 64,
            RuntimeEventView::Failure { code, message, .. } => 1 <= encode_utf8(code).len() <= 64
                && encode_utf8(message).len() <= 1_024,
            _ => true,
        },
{
}

/// The bit patterns between zero and one: nothing and the whole belong to them, more than the whole, less than
/// nothing and what is no number do not, and what is less than one of them does.
pub proof fn law_the_unit_interval(a: u64, b: u64)
    ensures
        unit_interval(0) && unit_interval(0x3FF0_0000_0000_0000),
        unit_interval(0x8000_0000_0000_0000),
        !unit_interval(0x3FF0_0000_0000_0001),
        !unit_interval(0x7FF0_0000_0000_0000) && !unit_interval(0x7FF8_0000_0000_0000),
        b > 0x8000_0000_0000_0000 ==> !unit_interval(b),
        a <= b < 0x8000_0000_0000_0000 && unit_interval(b) ==> unit_interval(a),
        unit_interval(a) ==> finite_not_negative(a),
        !finite_not_negative(0x7FF0_0000_0000_0000) && !finite_not_negative(0x7FF8_0000_0000_0000),
        b > 0x8000_0000_0000_0000 ==> !finite_not_negative(b),
        a < 0x7FF0_0000_0000_0000 ==> finite_not_negative(a),
{
}

/// A node manages itself and no other device; everyone else may manage any.
pub proof fn law_nodes_manage_themselves(principal: AuthenticatedPrincipal, node_id: Uuid, own: Uuid)
    ensures
        in_scope(AuthenticatedPrincipal::Node(own), node_id) <==> own == node_id,
        is_node(AuthenticatedPrincipal::Node(own), node_id) <==> own == node_id,
        !(principal is Node) ==> in_scope(principal, node_id) && !is_node(principal, node_id),
{
}

/// A node sets its own policy, and the owner that of the controller's node, as they like; the owner and those
/// who administer the cluster make that of any device stricter; and who did it is on record.
pub proof fn law_policies_are_set_by_their_owners(
    principal: AuthenticatedPrincipal,
    node_id: Uuid,
    controller_node: Uuid,
    stricter: bool,
)
    ensures
        ({
            let update = policy_update(principal, node_id, controller_node, true, true, stricter);
            &&& principal matches AuthenticatedPrincipal::Node(node) ==> (if node == node_id {
                update == Ok::<Seq<char>, ErrorView>("node-owner"@)
            } else {
                update is Err
            })
            &&& principal is Owner && node_id == controller_node ==> update == Ok::<
                Seq<char>,
                ErrorView,
            >("local-owner"@)
            &&& principal is Owner && node_id != controller_node ==> (if stricter {
                update == Ok::<Seq<char>, ErrorView>("remote-owner"@)
            } else {
                update is Err
            })
            &&& principal matches AuthenticatedPrincipal::Human(human) ==> (update is Ok
                <==> human.allowed@.contains(Permission::ClusterAdmin) && stricter) && (update matches Ok(
                actor,
            ) ==> actor == hyphenated(human.id))
            &&& principal matches AuthenticatedPrincipal::Service(service) ==> (update is Ok
                <==> service.allowed@.contains(Permission::ClusterAdmin) && stricter) && (
            update matches Ok(actor) ==> actor == hyphenated(service.id))
        }),
        policy_update(principal, node_id, controller_node, false, true, stricter) is Err,
        policy_update(principal, node_id, controller_node, true, false, stricter) is Err,
{
}

/// The attributes of a span say nothing of what was asked or answered: each has one of the known names and is
/// a number, a switch, nothing, or a short word; there are at most sixteen, and none holds others.
pub proof fn law_attributes_are_safe(attributes: JsonView, i: int)
    requires
        safe_attributes(attributes),
    ensures
        attributes matches JsonView::Object(fields) && fields.len() <= 16 && (0 <= i < fields.len() ==> {
            let (name, value) = fields[i];
            &&& !(value is Object) && !(value is Array) && !(value is Document)
            &&& value matches JsonView::Text(text) ==> encode_utf8(text).len() <= 128
            &&& name != "content"@ && name != "prompt"@
        }),
{
    reveal_strlit("content");
    reveal_strlit("prompt");
    reveal_strlit("runtime_id");
    reveal_strlit("strategy");
    reveal_strlit("stage");
    reveal_strlit("sequence");
    reveal_strlit("bytes");
    reveal_strlit("tokens");
    reveal_strlit("error_code");
    reveal_strlit("checkpoint");
    assert("content"@.len() == 7);
    assert("prompt"@.len() == 6);
    assert("runtime_id"@.len() == 10);
    assert("strategy"@.len() == 8);
    assert("stage"@.len() == 5);
    assert("sequence"@.len() == 8);
    assert("bytes"@.len() == 5);
    assert("tokens"@.len() == 6);
    assert("error_code"@.len() == 10);
    assert("checkpoint"@.len() == 10);
    assert("prompt"@[0] != "tokens"@[0]);
}

/// A span is taken from one in whose scope it is, with a short operation, a known outcome and safe attributes.
pub proof fn law_spans_are_taken_where_they_are_safe(
    principal: AuthenticatedPrincipal,
    node_id: Uuid,
    operation: Seq<char>,
    status: Seq<char>,
    attributes: JsonView,
)
    ensures
        span_refusal(principal, node_id, operation, status, attributes) is None <==> {
            &&& principal matches AuthenticatedPrincipal::Node(node) ==> node == node_id
            &&& 1 <= encode_utf8(operation).len() <= 64
            &&& status == "ok"@ || status == "error"@ || status == "cancelled"@
            &&& safe_attributes(attributes)
        },
{
}

/// The numbers of a benchmark are sensible where each is a finite number that is not negative, the loss is a
/// share, and something was measured at all.
pub proof fn law_sensible_numbers(numbers: BenchmarkNumbers)
    ensures
        sensible(numbers) ==> numbers.sample_count >= 1 && unit_interval(numbers.packet_loss)
            && finite_not_negative(numbers.tokens_per_second) && finite_not_negative(
            numbers.time_to_first_token_ms,
        ) && finite_not_negative(numbers.network_latency_ms) && finite_not_negative(
            numbers.network_bandwidth_mbps,
        ) && finite_not_negative(numbers.jitter_ms),
        numbers.sample_count >= 1 && numbers.packet_loss == 0 && numbers.tokens_per_second == 0
            && numbers.time_to_first_token_ms == 0 && numbers.network_latency_ms == 0
            && numbers.network_bandwidth_mbps == 0 && numbers.jitter_ms == 0 ==> sensible(numbers),
{
}

/// A report of measurements says of each node under which policy it is, or that it is under none.
pub proof fn law_snapshots_tell_the_policy(
    snapshot: BenchmarkPolicySnapshot,
    policies: Map<u128, ResourcePolicy>,
    node_id: Uuid,
)
    requires
        snapshot_of(snapshot, policies, node_id),
    ensures
        snapshot.node_id == node_id,
        policies.contains_key(node_id) ==> (snapshot.policy matches Some(policy) && policy@
            == policies[node_id].policy@),
        !policies.contains_key(node_id) ==> snapshot.policy is None,
{
}

} // verus!
