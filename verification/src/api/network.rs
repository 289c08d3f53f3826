//! Traffic that leaves the local network: what the owner opts into, and how it is accounted for; and
//! the transfer of models between nodes.

use crate::api::auth::{allowed, principal_allows, AuthenticatedPrincipal, Permission};
use crate::api::artifacts::holds_text;
use crate::api::devices::{ensure_node_scope, in_scope, scope_error};
use crate::api::workflows::text_views;
use crate::api::{
    bad_request, forbidden, network_code, not_found, unauthorized, ApiError, ErrorView,
    NetworkError,
};
use crate::digest::{base64url_decode, base64url_decoded};
use crate::ident::Uuid;
use crate::names::NodeStatus;
use crate::repository::catalog::{policy_event, same_policy, stored_policy};
use crate::repository::quota::DATABASE_MAX;
use crate::repository::{local_only, ClusterEvent, NetworkPolicy, Repository};
use crate::text;
use crate::web::{parse_url, parsed_url, UrlView};
use vstd::prelude::*;
use vstd::utf8::encode_utf8;

verus! {

/// Whether a relay is an exact HTTPS origin without credentials.
pub open spec fn relay_origin(url: UrlView) -> bool {
    &&& url.scheme == "https"@
    &&& url.host is Some
    &&& url.username.len() == 0
    &&& url.password is None
    &&& !url.has_query
    &&& !url.has_fragment
    &&& url.path.len() == 0 || url.path == "/"@
}

/// Why what the owner opts into is refused, where it is.
pub open spec fn policy_refusal(policy: NetworkPolicy) -> Option<ErrorView> {
    if policy.monthly_remote_byte_quota > DATABASE_MAX {
        Some(
            bad_request(
                "remote_quota_too_large"@,
                "monthly remote byte quota exceeds the durable accounting range"@,
            ),
        )
    } else if policy.remote_enabled && policy.monthly_remote_byte_quota == 0 {
        Some(
            bad_request(
                "remote_quota_required"@,
                "remote networking requires an explicit nonzero monthly byte quota"@,
            ),
        )
    } else if policy.managed_relay_enabled && !policy.remote_enabled {
        Some(
            bad_request(
                "remote_opt_in_required"@,
                "managed relay use requires remote networking to be enabled separately"@,
            ),
        )
    } else {
        match policy.self_hosted_relay {
            Some(relay) => match parsed_url(relay@) {
                Some(url) if relay_origin(url) => None,
                _ => Some(
                    bad_request(
                        "invalid_relay_origin"@,
                        "a self-hosted relay must be an exact credential-free https origin"@,
                    ),
                ),
            },
            None => None,
        }
    }
}

/// Whether a relay is an exact HTTPS origin without credentials.
fn is_relay_origin(relay: &str) -> (r: bool)
    ensures
        r == (parsed_url(relay@) matches Some(url) && relay_origin(url)),
{
    match parse_url(relay) {
        Some(url) => text::same(url.scheme.as_str(), "https") && url.host.is_some()
            && url.username.as_str().unicode_len() == 0 && url.password.is_none() && !url.has_query
            && !url.has_fragment && (url.path.as_str().unicode_len() == 0 || text::same(
            url.path.as_str(),
            "/",
        )),
        None => false,
    }
}

/// Checks what the owner opts into.
pub fn validate_network_policy(policy: &NetworkPolicy) -> (r: Result<(), ApiError>)
    ensures
        r is Err == policy_refusal(*policy) is Some,
        r matches Err(error) ==> policy_refusal(*policy) == Some(error@),
{
    if policy.monthly_remote_byte_quota > DATABASE_MAX {
        return Err(
            ApiError::bad_request(
                "remote_quota_too_large",
                "monthly remote byte quota exceeds the durable accounting range",
            ),
        );
    }
    if policy.remote_enabled && policy.monthly_remote_byte_quota == 0 {
        return Err(
            ApiError::bad_request(
                "remote_quota_required",
                "remote networking requires an explicit nonzero monthly byte quota",
            ),
        );
    }
    if policy.managed_relay_enabled && !policy.remote_enabled {
        return Err(
            ApiError::bad_request(
                "remote_opt_in_required",
                "managed relay use requires remote networking to be enabled separately",
            ),
        );
    }
    if let Some(relay) = &policy.self_hosted_relay {
        if !is_relay_origin(relay.as_str()) {
            return Err(
                ApiError::bad_request(
                    "invalid_relay_origin",
                    "a self-hosted relay must be an exact credential-free https origin",
                ),
            );
        }
    }
    Ok(())
}

/// Why a change of the policy is refused, where it is.
pub open spec fn update_refusal(
    principal: AuthenticatedPrincipal,
    policy: NetworkPolicy,
    kill_switch: bool,
) -> Option<ErrorView> {
    if !allowed(principal, Permission::ClusterAdmin) {
        Some(
            forbidden("administrator credentials are required to change network policy"@),
        )
    } else {
        match policy_refusal(policy) {
            Some(error) => Some(error),
            None => if policy.remote_enabled && kill_switch {
                Some(
                    bad_request(
                        "remote_kill_switch_engaged"@,
                        "restart the controller before explicitly enabling remote networking again"@,
                    ),
                )
            } else {
                None
            },
        }
    }
}

/// Checks a change of the policy. Once the kill switch is thrown, nothing but a restart lets traffic
/// out again.
pub fn update_network_policy(
    principal: &AuthenticatedPrincipal,
    policy: &NetworkPolicy,
    kill_switch: bool,
) -> (r: Result<(), ApiError>)
    ensures
        r is Err == update_refusal(*principal, *policy, kill_switch) is Some,
        r matches Err(error) ==> update_refusal(*principal, *policy, kill_switch) == Some(error@),
{
    if !principal_allows(principal, Permission::ClusterAdmin) {
        return Err(
            ApiError::forbidden(
                "administrator credentials are required to change network policy",
            ),
        );
    }
    if let Err(error) = validate_network_policy(policy) {
        return Err(error);
    }
    if policy.remote_enabled && kill_switch {
        return Err(
            ApiError::bad_request(
                "remote_kill_switch_engaged",
                "restart the controller before explicitly enabling remote networking again",
            ),
        );
    }
    Ok(())
}

/// A policy under which nothing leaves the local network, with all else as it was.
pub open spec fn closed_off(policy: NetworkPolicy, disabled: NetworkPolicy) -> bool {
    same_policy(
        disabled,
        NetworkPolicy { remote_enabled: false, managed_relay_enabled: false, ..policy },
    )
}

/// Throws the kill switch, and stores a policy under which nothing leaves the local network.
pub fn disable_remote_networking(
    principal: &AuthenticatedPrincipal,
    kill_switch: &mut bool,
    repository: &mut Repository,
    now: i128,
) -> (r: Result<ClusterEvent, ApiError>)
    ensures
        ({
            let before = old(repository)@;
            let after = final(repository)@;
            let policy = match before.network_policy {
                Some(policy) => policy,
                None => local_only(),
            };
            match r {
                Ok(event) => {
                    &&& allowed(*principal, Permission::EmergencyControl)
                    &&& *final(kill_switch)
                    &&& after.network_policy is Some
                    &&& closed_off(policy, after.network_policy->0)
                    &&& after == stored_policy(before, after.network_policy->0, now)
                    &&& event@ == policy_event(after.network_policy->0)
                },
                Err(error) => {
                    &&& !allowed(*principal, Permission::EmergencyControl)
                    &&& *final(kill_switch) == *old(kill_switch)
                    &&& after == before
                    &&& error@ == forbidden(
                        "administrator credentials are required for emergency controls"@,
                    )
                },
            }
        }),
{
    if !principal_allows(principal, Permission::EmergencyControl) {
        return Err(
            ApiError::forbidden("administrator credentials are required for emergency controls"),
        );
    }
    *kill_switch = true;
    let policy = repository.network_policy();
    Ok(
        repository.put_network_policy(
            NetworkPolicy {
                remote_enabled: false,
                managed_relay_enabled: false,
                self_hosted_relay: policy.self_hosted_relay,
                monthly_remote_byte_quota: policy.monthly_remote_byte_quota,
            },
            now,
        ),
    )
}

/// After remote networking was disabled, no policy that is accepted lets traffic out.
pub proof fn law_disabled_networking_stays_disabled(
    policy: NetworkPolicy,
    disabled: NetworkPolicy,
    principal: AuthenticatedPrincipal,
    asked: NetworkPolicy,
)
    requires
        closed_off(policy, disabled),
    ensures
        !disabled.remote_enabled && !disabled.managed_relay_enabled,
        asked.remote_enabled ==> update_refusal(principal, asked, true) is Some,
{
}

/// While the kill switch is thrown no policy that is accepted lets traffic out.
pub proof fn law_the_kill_switch_holds(principal: AuthenticatedPrincipal, policy: NetworkPolicy)
    requires
        update_refusal(principal, policy, true) is None,
    ensures
        !policy.remote_enabled,
        !policy.managed_relay_enabled,
{
}

/// A policy that lets traffic out has a quota that is not zero and that the accounts can hold.
pub proof fn law_remote_traffic_has_a_quota(policy: NetworkPolicy)
    requires
        policy_refusal(policy) is None,
        policy.remote_enabled,
    ensures
        0 < policy.monthly_remote_byte_quota <= DATABASE_MAX,
{
}

// ------------------------------------------------------------------------------------------------
// Choosing a transport

/// The transport that was chosen: whether it leaves the local network, and how many bytes it was
/// allowed.
#[derive(Clone, Copy)]
pub struct TransportChoice {
    pub remote: bool,
    pub estimated_bytes: u64,
}

/// Why no transport is looked for, where none is.
pub open spec fn candidates_refusal(principal: AuthenticatedPrincipal, estimates: Seq<u64>) -> Option<
    ErrorView,
> {
    if !allowed(principal, Permission::ClusterRead) {
        Some(
            forbidden("administrator credentials are required to inspect transport plans"@),
        )
    } else if estimates.len() == 0 || estimates.len() > 16 {
        Some(
            bad_request(
                "invalid_transport_candidates"@,
                "between one and sixteen transport candidates are required"@,
            ),
        )
    } else if exists|i: int| 0 <= i < estimates.len() && #[trigger] estimates[i] > DATABASE_MAX {
        Some(
            bad_request(
                "transport_budget_too_large"@,
                "a transport byte estimate exceeds the durable accounting range"@,
            ),
        )
    } else {
        None
    }
}

/// Checks a request for a transport: the bytes that each candidate is estimated to take.
pub fn check_candidates(principal: &AuthenticatedPrincipal, estimates: &[u64]) -> (r: Result<
    (),
    ApiError,
>)
    ensures
        r is Err == candidates_refusal(*principal, estimates@) is Some,
        r matches Err(error) ==> candidates_refusal(*principal, estimates@) == Some(error@),
{
    if !principal_allows(principal, Permission::ClusterRead) {
        return Err(
            ApiError::forbidden(
                "administrator credentials are required to inspect transport plans",
            ),
        );
    }
    if estimates.len() == 0 || estimates.len() > 16 {
        return Err(
            ApiError::bad_request(
                "invalid_transport_candidates",
                "between one and sixteen transport candidates are required",
            ),
        );
    }
    let mut i: usize = 0;
    while i < estimates.len()
        invariant
            i <= estimates@.len(),
            allowed(*principal, Permission::ClusterRead),
            0 < estimates@.len() <= 16,
            forall|j: int| 0 <= j < i ==> #[trigger] estimates@[j] <= DATABASE_MAX,
        decreases estimates@.len() - i,
    {
        if estimates[i] > DATABASE_MAX {
            return Err(
                ApiError::bad_request(
                    "transport_budget_too_large",
                    "a transport byte estimate exceeds the durable accounting range",
                ),
            );
        }
        i += 1;
    }
    Ok(())
}

/// What is accounted for, or why the request is refused: the choice comes from the network's rules.
pub open spec fn accounted(
    choice: Result<TransportChoice, (NetworkError, Seq<char>)>,
    observed: Option<u64>,
) -> Result<Option<u64>, ErrorView> {
    match choice {
        Err((error, message)) => Err(bad_request(network_code(error), message)),
        Ok(choice) => match observed {
            None => Ok(None),
            Some(bytes) => if !choice.remote {
                Err(
                    bad_request(
                        "local_bandwidth_accounting"@,
                        "observed remote bytes can only be recorded for a remote transport"@,
                    ),
                )
            } else if bytes > choice.estimated_bytes {
                Err(
                    bad_request(
                        "observed_bytes_exceed_plan"@,
                        "observed bytes exceed the authorized transport budget"@,
                    ),
                )
            } else {
                Ok(Some(bytes))
            },
        },
    }
}

/// What a choice says.
pub open spec fn choice_view(choice: Result<TransportChoice, (NetworkError, String)>) -> Result<
    TransportChoice,
    (NetworkError, Seq<char>),
> {
    match choice {
        Ok(choice) => Ok(choice),
        Err((error, message)) => Err((error, message@)),
    }
}

/// What is accounted for once a transport was chosen: observed bytes count for a transport that leaves
/// the local network only, and not beyond what it was allowed.
pub fn simulate_transport(
    choice: Result<TransportChoice, (NetworkError, String)>,
    observed: Option<u64>,
) -> (r: Result<Option<u64>, ApiError>)
    ensures
        match r {
            Ok(bytes) => accounted(choice_view(choice), observed) == Ok::<Option<u64>, ErrorView>(
                bytes,
            ),
            Err(error) => accounted(choice_view(choice), observed) == Err::<
                Option<u64>,
                ErrorView,
            >(error@),
        },
{
    let choice: TransportChoice = match choice {
        Ok(choice) => choice,
        Err((error, message)) => return Err(ApiError::network(error, message.as_str())),
    };
    match observed {
        None => Ok(None),
        Some(bytes) => {
            if !choice.remote {
                return Err(
                    ApiError::bad_request(
                        "local_bandwidth_accounting",
                        "observed remote bytes can only be recorded for a remote transport",
                    ),
                );
            }
            if bytes > choice.estimated_bytes {
                return Err(
                    ApiError::bad_request(
                        "observed_bytes_exceed_plan",
                        "observed bytes exceed the authorized transport budget",
                    ),
                );
            }
            Ok(Some(bytes))
        },
    }
}

/// What is accounted for left the local network, within what its transport was allowed.
pub proof fn law_accounts_stay_within_the_plan(
    choice: Result<TransportChoice, (NetworkError, Seq<char>)>,
    observed: Option<u64>,
    bytes: u64,
)
    requires
        accounted(choice, observed) == Ok::<Option<u64>, ErrorView>(Some(bytes)),
    ensures
        choice is Ok,
        choice->Ok_0.remote,
        bytes <= choice->Ok_0.estimated_bytes,
{
}

// ------------------------------------------------------------------------------------------------
// Transferring models

/// Why no leave to transfer a chunk is given, where none is.
pub open spec fn ticket_refusal(
    principal: AuthenticatedPrincipal,
    destination_node: Uuid,
    chunks: Result<Seq<Seq<char>>, ErrorView>,
    chunk_sha256: Seq<char>,
    destination: Option<NodeStatus>,
) -> Option<ErrorView> {
    if !in_scope(principal, destination_node) {
        Some(scope_error())
    } else {
        match chunks {
            Err(error) => Some(error),
            Ok(chunks) => if !chunks.contains(chunk_sha256) {
                Some(
                    bad_request(
                        "chunk_not_in_model"@,
                        "requested chunk is not part of the verified model manifest"@,
                    ),
                )
            } else {
                match destination {
                    None => Some(
                        not_found("device_not_found"@, "destination device does not exist"@),
                    ),
                    Some(status) => if status != NodeStatus::Ready && status
                        != NodeStatus::Suspect {
                        Some(
                            bad_request(
                                "destination_unavailable"@,
                                "destination device is not eligible for model transfer"@,
                            ),
                        )
                    } else {
                        None
                    },
                }
            },
        }
    }
}

/// What the chunks of a model are, or why they cannot be told.
pub open spec fn chunks_view(chunks: Result<Vec<String>, ApiError>) -> Result<
    Seq<Seq<char>>,
    ErrorView,
> {
    match chunks {
        Ok(chunks) => Ok(text_views(chunks@)),
        Err(error) => Err(error@),
    }
}

/// Checks whether a chunk of a model may go to a node.
pub fn create_transfer_ticket(
    principal: &AuthenticatedPrincipal,
    destination_node: Uuid,
    chunks: Result<Vec<String>, ApiError>,
    chunk_sha256: &str,
    destination: Option<NodeStatus>,
) -> (r: Result<(), ApiError>)
    ensures
        r is Err == ticket_refusal(
            *principal,
            destination_node,
            chunks_view(chunks),
            chunk_sha256@,
            destination,
        ) is Some,
        r matches Err(error) ==> ticket_refusal(
            *principal,
            destination_node,
            chunks_view(chunks),
            chunk_sha256@,
            destination,
        ) == Some(error@),
{
    if let Err(error) = ensure_node_scope(principal, destination_node) {
        return Err(error);
    }
    let known: Vec<String> = match chunks {
        Ok(known) => known,
        Err(error) => return Err(error),
    };
    if !holds_text(known.as_slice(), chunk_sha256) {
        return Err(
            ApiError::bad_request(
                "chunk_not_in_model",
                "requested chunk is not part of the verified model manifest",
            ),
        );
    }
    match destination {
        Some(status) => if status != NodeStatus::Ready && status != NodeStatus::Suspect {
            Err(
                ApiError::bad_request(
                    "destination_unavailable",
                    "destination device is not eligible for model transfer",
                ),
            )
        } else {
            Ok(())
        },
        None => Err(
            ApiError::not_found("device_not_found", "destination device does not exist"),
        ),
    }
}

/// The bytes of the ticket that a request for a chunk carries.
pub fn transfer_ticket(header: Option<&str>) -> (r: Result<Vec<u8>, ApiError>)
    ensures
        match header {
            Some(value) if encode_utf8(value@).len() <= 4_096 => match base64url_decoded(value@) {
                Some(bytes) => r is Ok && r->Ok_0@ == bytes,
                None => r is Err && r->Err_0@ == unauthorized(
                    "model transfer ticket is invalid"@,
                ),
            },
            _ => r is Err && r->Err_0@ == unauthorized("model transfer ticket is required"@),
        },
{
    let value: &str = match header {
        Some(value) => value,
        None => return Err(ApiError::unauthorized("model transfer ticket is required")),
    };
    if text::byte_len(value) > 4_096 {
        return Err(ApiError::unauthorized("model transfer ticket is required"));
    }
    match base64url_decode(value) {
        Some(bytes) => Ok(bytes),
        None => Err(ApiError::unauthorized("model transfer ticket is invalid")),
    }
}

/// A model, as far as a transfer asks: its digest and those of its chunks.
pub struct ModelChunks {
    pub sha256: String,
    pub chunks: Vec<String>,
}

/// Whether one of several models has a digest and a chunk.
pub open spec fn has_chunk(models: Seq<ModelChunks>, model_sha256: Seq<char>, chunk: Seq<char>) -> bool {
    exists|i: int|
        0 <= i < models.len() && (#[trigger] models[i]).sha256@ == model_sha256 && text_views(
            models[i].chunks@,
        ).contains(chunk)
}

/// Checks whether a chunk may be read with a ticket: by the node that it was issued to, as long as it
/// holds, and as long as the model is there. The ticket's signature is checked elsewhere.
pub fn download_model_chunk(
    principal: &AuthenticatedPrincipal,
    destination_node: Uuid,
    verified: bool,
    models: &[ModelChunks],
    model_sha256: &str,
    chunk_sha256: &str,
) -> (r: Result<(), ApiError>)
    ensures
        r is Ok == (in_scope(*principal, destination_node) && verified && has_chunk(
            models@,
            model_sha256@,
            chunk_sha256@,
        )),
        r matches Err(error) ==> error@ == (if !in_scope(*principal, destination_node) {
            scope_error()
        } else if !verified {
            unauthorized("model transfer ticket is invalid or expired"@)
        } else {
            not_found("model_chunk_not_found"@, "authorized model chunk is no longer present"@)
        }),
{
    if let Err(error) = ensure_node_scope(principal, destination_node) {
        return Err(error);
    }
    if !verified {
        return Err(ApiError::unauthorized("model transfer ticket is invalid or expired"));
    }
    let mut i: usize = 0;
    while i < models.len()
        invariant
            i <= models@.len(),
            in_scope(*principal, destination_node),
            verified,
            forall|j: int|
                0 <= j < i ==> !((#[trigger] models@[j]).sha256@ == model_sha256@ && text_views(
                    models@[j].chunks@,
                ).contains(chunk_sha256@)),
        decreases models@.len() - i,
    {
        if text::same(models[i].sha256.as_str(), model_sha256) && holds_text(
            models[i].chunks.as_slice(),
            chunk_sha256,
        ) {
            assert(models@[i as int].sha256@ == model_sha256@);
            return Ok(());
        }
        i += 1;
    }
    Err(
        ApiError::not_found("model_chunk_not_found", "authorized model chunk is no longer present"),
    )
}

/// The entity tag of a chunk.
pub fn chunk_tag(chunk_sha256: &str) -> (r: String)
    ensures
        r@ == "\"sha256:"@ + chunk_sha256@ + "\""@,
{
    text::join3("\"sha256:", chunk_sha256, "\"")
}

/// A network policy is taken where its quota fits, remote networking has one, a managed relay comes only
/// with remote networking, and a relay of one's own is an exact origin without credentials.
pub proof fn law_sound_policies_are_taken(policy: NetworkPolicy)
    ensures
        policy_refusal(policy) is None <==> {
            &&& policy.monthly_remote_byte_quota <= 9_223_372_036_854_775_807
            &&& policy.remote_enabled ==> policy.monthly_remote_byte_quota > 0
            &&& policy.managed_relay_enabled ==> policy.remote_enabled
            &&& policy.self_hosted_relay matches Some(relay) ==> (parsed_url(relay@) matches Some(url)
                && url.scheme == "https"@ && url.host is Some && url.username.len() == 0
                && url.password is None && !url.has_query && !url.has_fragment && (url.path.len() == 0
                || url.path == "/"@))
        },
{
}

/// Only an administrator changes the network policy; a sound one is taken, but that remote networking stays
/// off once the kill switch was used. Switching it off keeps the relay and the quota.
pub proof fn law_administrators_change_the_network(
    principal: AuthenticatedPrincipal,
    policy: NetworkPolicy,
    kill_switch: bool,
    disabled: NetworkPolicy,
)
    ensures
        update_refusal(principal, policy, kill_switch) is None <==> allowed(
            principal,
            Permission::ClusterAdmin,
        ) && policy_refusal(policy) is None && !(policy.remote_enabled && kill_switch),
        closed_off(policy, disabled) ==> {
            &&& disabled.monthly_remote_byte_quota == policy.monthly_remote_byte_quota
            &&& disabled.self_hosted_relay is Some == policy.self_hosted_relay is Some
            &&& policy.self_hosted_relay is Some ==> disabled.self_hosted_relay->0@
                == policy.self_hosted_relay->0@
            &&& !disabled.remote_enabled && !disabled.managed_relay_enabled
        },
{
}

/// From one to sixteen ways are looked at, each of which fits in the accounts.
pub proof fn law_candidates_are_bounded(principal: AuthenticatedPrincipal, estimates: Seq<u64>)
    ensures
        candidates_refusal(principal, estimates) is None <==> {
            &&& allowed(principal, Permission::ClusterRead)
            &&& 1 <= estimates.len() <= 16
            &&& forall|i: int|
                0 <= i < estimates.len() ==> #[trigger] estimates[i] <= 9_223_372_036_854_775_807
        },
{
}

/// What was observed of a remote transport within its plan is accounted for as it is; nothing else is, and
/// nothing where nothing was observed.
pub proof fn law_what_was_observed_is_accounted_for(choice: TransportChoice, bytes: u64)
    ensures
        accounted(Ok(choice), None) == Ok::<Option<u64>, ErrorView>(None),
        choice.remote && bytes <= choice.estimated_bytes ==> accounted(Ok(choice), Some(bytes)) == Ok::<
            Option<u64>,
            ErrorView,
        >(Some(bytes)),
        !choice.remote || bytes > choice.estimated_bytes ==> accounted(Ok(choice), Some(bytes)) is Err,
{
}

/// A ticket is written for a chunk that is part of the model, to a device that is ready or only just missed,
/// and for nobody else than the device itself or one who is no node.
pub proof fn law_tickets_are_for_known_chunks(
    principal: AuthenticatedPrincipal,
    destination_node: Uuid,
    chunks: Seq<Seq<char>>,
    chunk_sha256: Seq<char>,
    destination: Option<NodeStatus>,
)
    ensures
        ticket_refusal(principal, destination_node, Ok(chunks), chunk_sha256, destination) is None
            <==> {
            &&& principal matches AuthenticatedPrincipal::Node(node) ==> node == destination_node
            &&& chunks.contains(chunk_sha256)
            &&& destination == Some(NodeStatus::Ready) || destination == Some(NodeStatus::Suspect)
        },
{
}

} // verus!
