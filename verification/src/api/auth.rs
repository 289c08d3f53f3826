//! Who a request comes from, and whether it may be made.

use crate::api::{forbidden, unauthorized, unavailable, ApiError, ErrorView};
use crate::digest::{
    base64url_decode, base64url_decoded, equal_in_constant_time, hex, hex_of, sha256, sha256_of,
};
use crate::ident::{
    format_uuid, hyphenated, law_hyphenated_is_injective, lemma_hyphenated, lemma_hyphenated_behind,
    Uuid,
};
use crate::text;
use crate::text::{occurs_in, split_at_each, trimmed};
use vstd::prelude::*;
use vstd::utf8::encode_utf8;

pub use crate::names::Permission;

verus! {

/// The method of a request.
#[derive(Clone, Copy, Debug, PartialEq, Eq, Structural)]
pub enum Method {
    Get,
    Post,
    Put,
    Patch,
    Delete,
    Other,
}

/// A human or a service, with all that its role and its scopes allow.
pub struct Principal {
    pub id: Uuid,
    pub allowed: Vec<Permission>,
}

impl Principal {
    /// Whether the principal is allowed something.
    pub open spec fn may(&self, permission: Permission) -> bool {
        self.allowed@.contains(permission)
    }

    /// Whether the principal is allowed something.
    pub fn allows(&self, permission: Permission) -> (r: bool)
        ensures
            r == self.may(permission),
    {
        let mut i: usize = 0;
        while i < self.allowed.len()
            invariant
                i <= self.allowed@.len(),
                forall|j: int| 0 <= j < i ==> self.allowed@[j] != permission,
            decreases self.allowed@.len() - i,
        {
            if self.allowed[i] == permission {
                return true;
            }
            i += 1;
        }
        false
    }
}

/// Who a request comes from.
pub enum AuthenticatedPrincipal {
    Owner,
    Node(Uuid),
    Human(Principal),
    Service(Principal),
}

/// Whether the one a request comes from is allowed something.
pub open spec fn allowed(principal: AuthenticatedPrincipal, permission: Permission) -> bool {
    match principal {
        AuthenticatedPrincipal::Owner => true,
        AuthenticatedPrincipal::Node(_) => permission == Permission::NodeOperate,
        AuthenticatedPrincipal::Human(p) => p.may(permission),
        AuthenticatedPrincipal::Service(p) => p.may(permission),
    }
}

/// Whether the one a request comes from is allowed something.
pub fn principal_allows(principal: &AuthenticatedPrincipal, permission: Permission) -> (r: bool)
    ensures
        r == allowed(*principal, permission),
{
    match principal {
        AuthenticatedPrincipal::Owner => true,
        AuthenticatedPrincipal::Node(_) => permission == Permission::NodeOperate,
        AuthenticatedPrincipal::Human(p) => p.allows(permission),
        AuthenticatedPrincipal::Service(p) => p.allows(permission),
    }
}

/// The name under which what a principal does is recorded.
pub open spec fn principal_label(principal: AuthenticatedPrincipal) -> Seq<char> {
    match principal {
        AuthenticatedPrincipal::Owner => "local-owner"@,
        AuthenticatedPrincipal::Node(node) => "node:"@ + hyphenated(node),
        AuthenticatedPrincipal::Human(p) => hyphenated(p.id),
        AuthenticatedPrincipal::Service(p) => hyphenated(p.id),
    }
}

/// The name under which what a principal does is recorded.
pub fn authenticated_principal_id(principal: &AuthenticatedPrincipal) -> (label: String)
    ensures
        label@ == principal_label(*principal),
{
    match principal {
        AuthenticatedPrincipal::Owner => text::owned("local-owner"),
        AuthenticatedPrincipal::Node(node) => text::join2("node:", format_uuid(*node).as_str()),
        AuthenticatedPrincipal::Human(p) => format_uuid(p.id),
        AuthenticatedPrincipal::Service(p) => format_uuid(p.id),
    }
}

/// What a human or a service has to be allowed for a request.
pub open spec fn needed_permission(method: Method, path: Seq<char>) -> Permission {
    let reads = method == Method::Get;
    if "/v1/"@.is_prefix_of(path) {
        if reads {
            Permission::ClusterRead
        } else {
            Permission::WorkloadExecute
        }
    } else if occurs_in(path, "/emergency/"@) || "/revoke"@.is_suffix_of(path) {
        Permission::EmergencyControl
    } else if occurs_in(path, "/plugins/"@) && "/execute"@.is_suffix_of(path) {
        Permission::WorkflowOperate
    } else if occurs_in(path, "/plugins"@) {
        if reads {
            Permission::ClusterRead
        } else {
            Permission::PluginAdmin
        }
    } else if occurs_in(path, "/auth-providers"@) || occurs_in(path, "/cloud-adapters"@) {
        Permission::ProviderAdmin
    } else if occurs_in(path, "/auth/passkeys/registration"@) {
        Permission::ClusterRead
    } else if occurs_in(path, "/teams"@) || occurs_in(path, "/principals"@) {
        Permission::TeamAdmin
    } else if occurs_in(path, "/workflows"@) || occurs_in(path, "/workflow-"@) {
        if reads {
            Permission::ClusterRead
        } else {
            Permission::WorkflowOperate
        }
    } else if occurs_in(path, "/workloads"@) {
        Permission::WorkloadExecute
    } else if reads {
        Permission::ClusterRead
    } else {
        Permission::ClusterAdmin
    }
}

/// What a human or a service has to be allowed for a request.
pub fn required_service_permission(method: Method, path: &str) -> (permission: Permission)
    ensures
        permission == needed_permission(method, path@),
{
    let reads = method == Method::Get;
    if text::starts_with(path, "/v1/") {
        return if reads {
            Permission::ClusterRead
        } else {
            Permission::WorkloadExecute
        };
    }
    if text::contains(path, "/emergency/") || text::ends_with(path, "/revoke") {
        Permission::EmergencyControl
    } else if text::contains(path, "/plugins/") && text::ends_with(path, "/execute") {
        Permission::WorkflowOperate
    } else if text::contains(path, "/plugins") {
        if reads {
            Permission::ClusterRead
        } else {
            Permission::PluginAdmin
        }
    } else if text::contains(path, "/auth-providers") || text::contains(path, "/cloud-adapters") {
        Permission::ProviderAdmin
    } else if text::contains(path, "/auth/passkeys/registration") {
        Permission::ClusterRead
    } else if text::contains(path, "/teams") || text::contains(path, "/principals") {
        Permission::TeamAdmin
    } else if text::contains(path, "/workflows") || text::contains(path, "/workflow-") {
        if reads {
            Permission::ClusterRead
        } else {
            Permission::WorkflowOperate
        }
    } else if text::contains(path, "/workloads") {
        Permission::WorkloadExecute
    } else if reads {
        Permission::ClusterRead
    } else {
        Permission::ClusterAdmin
    }
}

/// The requests that a node may make with its membership.
pub open spec fn node_may_request(method: Method, path: Seq<char>) -> bool {
    ||| method == Method::Post && ("/heartbeat"@.is_suffix_of(path) || path
        == "/constellation/v1/benchmarks"@ || "/inventory"@.is_suffix_of(path) || path
        == "/constellation/v1/models/transfer-tickets"@ || "/leases/poll"@.is_suffix_of(path) || (
    "/events"@.is_suffix_of(path) && occurs_in(path, "/workers/"@))
        || "/credentials/rotate"@.is_suffix_of(path))
    ||| method == Method::Get && "/constellation/v1/models/chunks/"@.is_prefix_of(path)
    ||| (method == Method::Get || method == Method::Patch) && "/policy"@.is_suffix_of(path)
}

/// Whether a node may make a request with its membership.
pub fn node_route_allowed(method: Method, path: &str) -> (r: bool)
    ensures
        r == node_may_request(method, path@),
{
    (method == Method::Post && (text::ends_with(path, "/heartbeat") || text::same(
        path,
        "/constellation/v1/benchmarks",
    ) || text::ends_with(path, "/inventory") || text::same(
        path,
        "/constellation/v1/models/transfer-tickets",
    ) || text::ends_with(path, "/leases/poll") || (text::ends_with(path, "/events")
        && text::contains(path, "/workers/")) || text::ends_with(path, "/credentials/rotate")))
        || (method == Method::Get && text::starts_with(path, "/constellation/v1/models/chunks/"))
        || ((method == Method::Get || method == Method::Patch) && text::ends_with(path, "/policy"))
}

/// Whether only the active controller may answer a request.
pub open spec fn needs_active_controller(method: Method, path: Seq<char>) -> bool {
    method == Method::Post || method == Method::Patch || method == Method::Delete || path
        == "/constellation/v1/backup"@
}

/// Whether only the active controller may answer a request.
pub fn requires_active_controller(method: Method, path: &str) -> (r: bool)
    ensures
        r == needs_active_controller(method, path@),
{
    method == Method::Post || method == Method::Patch || method == Method::Delete || text::same(
        path,
        "/constellation/v1/backup",
    )
}

/// Whether a path is open to everyone: what is behind it checks for itself.
pub open spec fn open_to_all(path: Seq<char>) -> bool {
    ||| path == "/health"@
    ||| path == "/ready"@
    ||| "/constellation/v1/enrollment/"@.is_prefix_of(path)
    ||| "/constellation/v1/workflow-webhooks/"@.is_prefix_of(path) && "/trigger"@.is_suffix_of(path)
    ||| "/constellation/v1/auth/passkeys/login/"@.is_prefix_of(path)
    ||| "/constellation/v1/auth/oidc/"@.is_prefix_of(path)
}

/// Whether a path is open to everyone.
pub fn is_public(path: &str) -> (r: bool)
    ensures
        r == open_to_all(path@),
{
    text::same(path, "/health") || text::same(path, "/ready") || text::starts_with(
        path,
        "/constellation/v1/enrollment/",
    ) || (text::starts_with(path, "/constellation/v1/workflow-webhooks/") && text::ends_with(
        path,
        "/trigger",
    )) || text::starts_with(path, "/constellation/v1/auth/passkeys/login/") || text::starts_with(
        path,
        "/constellation/v1/auth/oidc/",
    )
}

/// What follows a prefix.
pub open spec fn after_prefix(s: Seq<char>, prefix: Seq<char>) -> Option<Seq<char>> {
    if prefix.is_prefix_of(s) {
        Some(s.skip(prefix.len() as int))
    } else {
        None
    }
}

/// The token in the first of a list of protocols that carries one.
pub open spec fn protocol_token(protocols: Seq<Seq<char>>) -> Option<Seq<char>>
    decreases protocols.len(),
{
    if protocols.len() == 0 {
        None
    } else {
        match after_prefix(trimmed(protocols[0]), "constellation.bearer."@) {
            Some(token) => Some(token),
            None => protocol_token(protocols.drop_first()),
        }
    }
}

/// The token of a request: the bearer token of its authorization, else the one among its WebSocket
/// protocols.
pub open spec fn token_of(authorization: Option<Seq<char>>, protocols: Option<Seq<char>>) -> Option<
    Seq<char>,
> {
    let bearer = match authorization {
        Some(value) => after_prefix(value, "Bearer "@),
        None => None,
    };
    match bearer {
        Some(token) => Some(token),
        None => match protocols {
            Some(value) => protocol_token(split_at_each(value, ',')),
            None => None,
        },
    }
}

/// What an optional text says.
pub open spec fn optional_view(text: Option<String>) -> Option<Seq<char>> {
    match text {
        Some(t) => Some(t@),
        None => None,
    }
}

/// The token of a request, from the values of its authorization header and of its WebSocket protocol
/// header.
pub fn bearer_token(authorization: &Option<String>, websocket_protocol: &Option<String>) -> (token:
    Option<String>)
    ensures
        optional_view(token) == token_of(
            optional_view(*authorization),
            optional_view(*websocket_protocol),
        ),
{
    if let Some(value) = authorization {
        if let Some(token) = text::strip_prefix(value.as_str(), "Bearer ") {
            return Some(text::owned(token));
        }
    }
    match websocket_protocol {
        Some(value) => {
            let protocols = text::split(value.as_str(), ',');
            let ghost all = split_at_each(value@, ',');
            let ghost view = |piece: &str| piece@;
            assert(all.skip(0) =~= all);
            let mut i: usize = 0;
            while i < protocols.len()
                invariant
                    i <= protocols@.len(),
                    view == (|piece: &str| piece@),
                    all == protocols@.map_values(view),
                    protocol_token(all.skip(i as int)) == protocol_token(all),
                    all == split_at_each(value@, ','),
                    *websocket_protocol == Some(*value),
                    token_of(optional_view(*authorization), Some(value@)) == protocol_token(all),
                decreases protocols@.len() - i,
            {
                let protocol = text::trim(protocols[i]);
                assert(all.skip(i as int)[0] == protocols@[i as int]@);
                assert(all.skip(i as int).drop_first() =~= all.skip(i + 1));
                if let Some(token) = text::strip_prefix(protocol, "constellation.bearer.") {
                    return Some(text::owned(token));
                }
                i += 1;
            }
            assert(all.skip(i as int).len() == 0);
            None
        },
        None => None,
    }
}

/// The digest under which a token is stored.
pub open spec fn token_digest(token: Seq<char>) -> Seq<char> {
    hex(sha256(encode_utf8(token)))
}

/// The digest under which a token is stored.
pub fn token_hash(token: &str) -> (digest: String)
    ensures
        digest@ == token_digest(token@),
{
    hex_of(sha256_of(token.as_bytes()).as_slice())
}

/// A request, as far as its authentication looks at it: the method, the path, and the values of three
/// headers where they are there as text.
pub struct AuthRequest {
    pub method: Method,
    pub path: String,
    pub authorization: Option<String>,
    pub websocket_protocol: Option<String>,
    pub membership: Option<String>,
}

/// What a membership document came to when it was checked.
pub struct Membership {
    pub device_id: Uuid,
    /// Whether the cluster's authority signed it, and it is valid now.
    pub verified: bool,
    /// Whether it is known and not revoked.
    pub active: bool,
    /// The common name of the client certificate on the connection.
    pub peer_common_name: Option<String>,
}

/// What is known of a request besides itself. What is not known yet is `None`.
pub struct AuthFacts {
    /// Whether the controller holds the fencing lease.
    pub controller_active: Option<bool>,
    /// The human whose browser session the token is.
    pub session: Option<Option<Principal>>,
    /// The service whose key the token is.
    pub service: Option<Option<Principal>>,
    /// The membership that the request carries, where its document can be read.
    pub membership: Option<Option<Membership>>,
}

/// Who is let in.
#[derive(Clone, Copy, Debug, PartialEq, Eq, Structural)]
pub enum Admitted {
    /// Anyone: the path is open.
    Anyone,
    Owner,
    /// The human of the session.
    Human,
    /// The service of the key.
    Service,
    Node(Uuid),
}

/// What the authentication of a request comes to.
pub enum AuthOutcome {
    /// It has to be known whether the controller holds the fencing lease.
    AskController,
    /// It has to be known whose session has this token digest.
    AskSession(String),
    /// It has to be known whose service key has this token digest.
    AskService(String),
    /// It has to be known what this membership document comes to.
    AskMembership(Vec<u8>),
    Admit(Admitted),
    Reject(ApiError),
}

/// What the authentication of a request comes to, as values.
pub enum AuthOutcomeView {
    AskController,
    AskSession(Seq<char>),
    AskService(Seq<char>),
    AskMembership(Seq<u8>),
    Admit(Admitted),
    Reject(ErrorView),
}

impl AuthOutcome {
    pub open spec fn view(&self) -> AuthOutcomeView {
        match self {
            AuthOutcome::AskController => AuthOutcomeView::AskController,
            AuthOutcome::AskSession(digest) => AuthOutcomeView::AskSession(digest@),
            AuthOutcome::AskService(digest) => AuthOutcomeView::AskService(digest@),
            AuthOutcome::AskMembership(document) => AuthOutcomeView::AskMembership(document@),
            AuthOutcome::Admit(who) => AuthOutcomeView::Admit(*who),
            AuthOutcome::Reject(error) => AuthOutcomeView::Reject(error@),
        }
    }
}

/// What a membership that can be read lets in.
pub open spec fn membership_admits(
    membership: Membership,
    mtls_required: bool,
    method: Method,
    path: Seq<char>,
) -> bool {
    &&& membership.verified
    &&& membership.active
    &&& mtls_required ==> (membership.peer_common_name matches Some(name) && name@ == hyphenated(
        membership.device_id,
    ))
    &&& node_may_request(method, path)
}

/// The document that a membership header holds: text of at most 4096 bytes, in base64.
pub open spec fn membership_document(header: Option<Seq<char>>) -> Option<Seq<u8>> {
    match header {
        Some(value) if encode_utf8(value).len() <= 4_096 => base64url_decoded(value),
        _ => None,
    }
}

/// What is left where no credential let the request in: without a configured key the owner is local.
pub open spec fn without_credential(api_key_hash: Option<Seq<u8>>) -> AuthOutcomeView {
    match api_key_hash {
        None => AuthOutcomeView::Admit(Admitted::Owner),
        Some(_) => AuthOutcomeView::Reject(
            unauthorized("valid owner or node credentials required"@),
        ),
    }
}

/// What the membership part of the authentication comes to.
pub open spec fn decide_membership(
    request: AuthRequest,
    api_key_hash: Option<Seq<u8>>,
    mtls_required: bool,
    facts: AuthFacts,
) -> AuthOutcomeView {
    match membership_document(optional_view(request.membership)) {
        Some(document) => match facts.membership {
            None => AuthOutcomeView::AskMembership(document),
            Some(Some(membership)) => if membership_admits(
                membership,
                mtls_required,
                request.method,
                request.path@,
            ) {
                AuthOutcomeView::Admit(Admitted::Node(membership.device_id))
            } else {
                without_credential(api_key_hash)
            },
            Some(None) => without_credential(api_key_hash),
        },
        None => without_credential(api_key_hash),
    }
}

/// What the token part of the authentication comes to.
pub open spec fn decide_token(
    request: AuthRequest,
    api_key_hash: Option<Seq<u8>>,
    mtls_required: bool,
    facts: AuthFacts,
) -> AuthOutcomeView {
    let token = token_of(
        optional_view(request.authorization),
        optional_view(request.websocket_protocol),
    );
    let permission = needed_permission(request.method, request.path@);
    match token {
        None => decide_membership(request, api_key_hash, mtls_required, facts),
        Some(token) => if api_key_hash == Some(sha256(encode_utf8(token))) {
            AuthOutcomeView::Admit(Admitted::Owner)
        } else {
            match facts.session {
                None => AuthOutcomeView::AskSession(token_digest(token)),
                Some(Some(human)) => if human.may(permission) {
                    AuthOutcomeView::Admit(Admitted::Human)
                } else {
                    AuthOutcomeView::Reject(
                        forbidden("principal does not have the required permission"@),
                    )
                },
                Some(None) => match facts.service {
                    None => AuthOutcomeView::AskService(token_digest(token)),
                    Some(Some(service)) => if service.may(permission) {
                        AuthOutcomeView::Admit(Admitted::Service)
                    } else {
                        AuthOutcomeView::Reject(
                            forbidden("service identity does not have the required scope"@),
                        )
                    },
                    Some(None) => decide_membership(request, api_key_hash, mtls_required, facts),
                },
            }
        },
    }
}

/// What the authentication of a request comes to: a standby answers no writes, open paths are open,
/// and then the credentials count in this order: the owner's key, a browser session, a service key, a
/// node's membership, and, where no key is configured, being local.
pub open spec fn decide(
    request: AuthRequest,
    api_key_hash: Option<Seq<u8>>,
    mtls_required: bool,
    facts: AuthFacts,
) -> AuthOutcomeView {
    let guarded = needs_active_controller(request.method, request.path@);
    if guarded && facts.controller_active is None {
        AuthOutcomeView::AskController
    } else if guarded && facts.controller_active == Some(false) {
        AuthOutcomeView::Reject(
            unavailable("this controller is a standby or its fencing lease has expired"@),
        )
    } else if open_to_all(request.path@) {
        AuthOutcomeView::Admit(Admitted::Anyone)
    } else {
        decide_token(request, api_key_hash, mtls_required, facts)
    }
}

/// What an optional key hash says.
pub open spec fn optional_bytes(bytes: Option<Vec<u8>>) -> Option<Seq<u8>> {
    match bytes {
        Some(b) => Some(b@),
        None => None,
    }
}

/// Whether the connection is that of the device: its client certificate names it.
pub fn node_transport_authenticated(membership: &Membership, mtls_required: bool) -> (r: bool)
    ensures
        r == (mtls_required ==> (membership.peer_common_name matches Some(name) && name@
            == hyphenated(membership.device_id))),
{
    if !mtls_required {
        return true;
    }
    match &membership.peer_common_name {
        Some(name) => text::same(name.as_str(), format_uuid(membership.device_id).as_str()),
        None => false,
    }
}

fn authenticate_membership(
    request: &AuthRequest,
    api_key_hash: &Option<Vec<u8>>,
    mtls_required: bool,
    facts: &AuthFacts,
) -> (outcome: AuthOutcome)
    ensures
        outcome@ == decide_membership(
            *request,
            optional_bytes(*api_key_hash),
            mtls_required,
            *facts,
        ),
{
    let document = match &request.membership {
        Some(value) => if text::byte_len(value.as_str()) <= 4_096 {
            base64url_decode(value.as_str())
        } else {
            None
        },
        None => None,
    };
    if let Some(document) = document {
        match &facts.membership {
            None => return AuthOutcome::AskMembership(document),
            Some(Some(membership)) => {
                if membership.verified && membership.active && node_transport_authenticated(
                    membership,
                    mtls_required,
                ) && node_route_allowed(request.method, request.path.as_str()) {
                    return AuthOutcome::Admit(Admitted::Node(membership.device_id));
                }
            },
            Some(None) => {},
        }
    }
    if api_key_hash.is_none() {
        AuthOutcome::Admit(Admitted::Owner)
    } else {
        AuthOutcome::Reject(ApiError::unauthorized("valid owner or node credentials required"))
    }
}

/// What the authentication of a request comes to, with what is known so far. Where more has to be
/// known, the outcome says what.
pub fn authenticate(
    request: &AuthRequest,
    api_key_hash: &Option<Vec<u8>>,
    mtls_required: bool,
    facts: &AuthFacts,
) -> (outcome: AuthOutcome)
    ensures
        outcome@ == decide(*request, optional_bytes(*api_key_hash), mtls_required, *facts),
{
    if requires_active_controller(request.method, request.path.as_str()) {
        match facts.controller_active {
            None => return AuthOutcome::AskController,
            Some(active) => {
                if !active {
                    return AuthOutcome::Reject(
                        ApiError::unavailable(
                            "this controller is a standby or its fencing lease has expired",
                        ),
                    );
                }
            },
        }
    }
    if is_public(request.path.as_str()) {
        return AuthOutcome::Admit(Admitted::Anyone);
    }
    let token = match bearer_token(&request.authorization, &request.websocket_protocol) {
        Some(token) => token,
        None => {
            return authenticate_membership(request, api_key_hash, mtls_required, facts);
        },
    };
    let digest = sha256_of(token.as_str().as_bytes());
    if let Some(expected) = api_key_hash {
        if equal_in_constant_time(digest.as_slice(), expected.as_slice()) {
            return AuthOutcome::Admit(Admitted::Owner);
        }
    }
    let permission = required_service_permission(request.method, request.path.as_str());
    match &facts.session {
        None => return AuthOutcome::AskSession(hex_of(digest.as_slice())),
        Some(Some(human)) => {
            return if human.allows(permission) {
                AuthOutcome::Admit(Admitted::Human)
            } else {
                AuthOutcome::Reject(
                    ApiError::forbidden("principal does not have the required permission"),
                )
            };
        },
        Some(None) => {},
    }
    match &facts.service {
        None => return AuthOutcome::AskService(hex_of(digest.as_slice())),
        Some(Some(service)) => {
            return if service.allows(permission) {
                AuthOutcome::Admit(Admitted::Service)
            } else {
                AuthOutcome::Reject(
                    ApiError::forbidden("service identity does not have the required scope"),
                )
            };
        },
        Some(None) => {},
    }
    authenticate_membership(request, api_key_hash, mtls_required, facts)
}

// ------------------------------------------------------------------------------------------------
// Laws

/// With a configured key nobody gets in without a credential: a request without a token and without
/// a membership is rejected, unless its path is open.
pub proof fn law_no_credential_no_entry(
    request: AuthRequest,
    key: Seq<u8>,
    mtls_required: bool,
    facts: AuthFacts,
)
    requires
        token_of(
            optional_view(request.authorization),
            optional_view(request.websocket_protocol),
        ) is None,
        request.membership is None,
        !open_to_all(request.path@),
    ensures
        !(decide(request, Some(key), mtls_required, facts) is Admit),
{
}

/// A standby admits no write, whoever makes it, not even to an open path.
pub proof fn law_a_standby_admits_no_write(
    request: AuthRequest,
    api_key_hash: Option<Seq<u8>>,
    mtls_required: bool,
    facts: AuthFacts,
)
    requires
        needs_active_controller(request.method, request.path@),
        facts.controller_active != Some(true),
    ensures
        !(decide(request, api_key_hash, mtls_required, facts) is Admit),
{
    if let Some(active) = facts.controller_active {
        assert(!active);
    }
}

/// A node gets in only with a membership that is verified and not revoked, and only for the requests
/// that nodes may make.
pub proof fn law_nodes_are_confined(
    request: AuthRequest,
    api_key_hash: Option<Seq<u8>>,
    mtls_required: bool,
    facts: AuthFacts,
    device_id: Uuid,
)
    requires
        decide(request, api_key_hash, mtls_required, facts) == AuthOutcomeView::Admit(
            Admitted::Node(device_id),
        ),
    ensures
        facts.membership matches Some(Some(membership)) && membership.device_id == device_id
            && membership.verified && membership.active,
        node_may_request(request.method, request.path@),
{
}

/// A human or a service gets in only with the permission that the request needs.
pub proof fn law_principals_need_the_permission(
    request: AuthRequest,
    api_key_hash: Option<Seq<u8>>,
    mtls_required: bool,
    facts: AuthFacts,
)
    ensures
        decide(request, api_key_hash, mtls_required, facts) == AuthOutcomeView::Admit(
            Admitted::Human,
        ) ==> (facts.session matches Some(Some(human)) && human.may(
            needed_permission(request.method, request.path@),
        )),
        decide(request, api_key_hash, mtls_required, facts) == AuthOutcomeView::Admit(
            Admitted::Service,
        ) ==> (facts.service matches Some(Some(service)) && service.may(
            needed_permission(request.method, request.path@),
        )),
{
}

/// The questions come to an end: once the four facts are known, the outcome is a decision.
pub proof fn law_known_facts_decide(
    request: AuthRequest,
    api_key_hash: Option<Seq<u8>>,
    mtls_required: bool,
    facts: AuthFacts,
)
    requires
        facts.controller_active is Some,
        facts.session is Some,
        facts.service is Some,
        facts.membership is Some,
    ensures
        decide(request, api_key_hash, mtls_required, facts) is Admit || decide(
            request,
            api_key_hash,
            mtls_required,
            facts,
        ) is Reject,
{
}

/// Whether a request gets as far as its credentials: its path is not open to everyone, and where only the
/// active controller may answer, this one is.
pub open spec fn judged_by_credentials(request: AuthRequest, facts: AuthFacts) -> bool {
    &&& !open_to_all(request.path@)
    &&& needs_active_controller(request.method, request.path@) ==> facts.controller_active == Some(true)
}

/// The token of a request.
pub open spec fn request_token(request: AuthRequest) -> Option<Seq<char>> {
    token_of(optional_view(request.authorization), optional_view(request.websocket_protocol))
}

/// The owner's key opens every path, whatever else the request carries; and nobody is taken for the owner
/// without it, unless there is no key at all.
pub proof fn law_the_owner_is_known_by_the_key(
    request: AuthRequest,
    api_key_hash: Option<Seq<u8>>,
    mtls_required: bool,
    facts: AuthFacts,
)
    ensures
        judged_by_credentials(request, facts) && (request_token(request) matches Some(token)
            && api_key_hash == Some(sha256(encode_utf8(token)))) ==> decide(
            request,
            api_key_hash,
            mtls_required,
            facts,
        ) == AuthOutcomeView::Admit(Admitted::Owner),
        decide(request, api_key_hash, mtls_required, facts) == AuthOutcomeView::Admit(Admitted::Owner)
            ==> api_key_hash is None || (request_token(request) matches Some(token) && api_key_hash
            == Some(sha256(encode_utf8(token)))),
{
}

/// A human who is signed in and is allowed what the request needs is let in, and so is a service under its
/// key; whoever is known but not allowed is turned away as such.
pub proof fn law_who_is_allowed_is_let_in(
    request: AuthRequest,
    key: Seq<u8>,
    mtls_required: bool,
    facts: AuthFacts,
)
    requires
        judged_by_credentials(request, facts),
        request_token(request) matches Some(token) && key != sha256(encode_utf8(token)),
    ensures
        facts.session matches Some(Some(human)) ==> {
            let outcome = decide(request, Some(key), mtls_required, facts);
            let needed = needed_permission(request.method, request.path@);
            &&& human.allowed@.contains(needed) ==> outcome == AuthOutcomeView::Admit(Admitted::Human)
            &&& !human.allowed@.contains(needed) ==> outcome == AuthOutcomeView::Reject(
                forbidden("principal does not have the required permission"@),
            )
        },
        facts.session matches Some(None) ==> facts.service matches Some(Some(service)) ==> {
            let outcome = decide(request, Some(key), mtls_required, facts);
            let needed = needed_permission(request.method, request.path@);
            &&& service.allowed@.contains(needed) ==> outcome == AuthOutcomeView::Admit(
                Admitted::Service,
            )
            &&& !service.allowed@.contains(needed) ==> outcome == AuthOutcomeView::Reject(
                forbidden("service identity does not have the required scope"@),
            )
        },
{
}

/// A node is let in by a membership that the cluster's authority signed and that is not revoked, for what
/// nodes may request; where certificates are demanded, only over a connection whose certificate names
/// that very node.
pub proof fn law_a_membership_lets_its_node_in(
    request: AuthRequest,
    api_key_hash: Option<Seq<u8>>,
    mtls_required: bool,
    facts: AuthFacts,
    device_id: Uuid,
)
    ensures
        decide(request, api_key_hash, mtls_required, facts) == AuthOutcomeView::Admit(
            Admitted::Node(device_id),
        ) ==> (facts.membership matches Some(Some(membership)) && membership.device_id == device_id
            && membership.verified && membership.active && (mtls_required ==> (
        membership.peer_common_name matches Some(name) && name@ == hyphenated(device_id)))),
        judged_by_credentials(request, facts) && request_token(request) is None
            && membership_document(optional_view(request.membership)) is Some && node_may_request(
            request.method,
            request.path@,
        ) && (facts.membership matches Some(Some(membership)) && membership.device_id == device_id
            && membership.verified && membership.active && (!mtls_required || (
        membership.peer_common_name matches Some(name) && name@ == hyphenated(device_id)))) ==> decide(
            request,
            api_key_hash,
            mtls_required,
            facts,
        ) == AuthOutcomeView::Admit(Admitted::Node(device_id)),
        facts.membership matches Some(Some(membership)) && (!membership.verified
            || !membership.active) ==> decide(request, api_key_hash, mtls_required, facts)
            != AuthOutcomeView::Admit(Admitted::Node(device_id)),
{
}

/// A bearer token is what stands behind the word, as it is, and goes before any that the socket's protocols
/// carry; one of those is found wherever it stands in the list.
pub proof fn law_the_token_is_what_was_sent(token: Seq<char>, protocols: Option<Seq<char>>)
    ensures
        token_of(Some("Bearer "@ + token), protocols) == Some(token),
        token_of(None, None) is None,
        !token.contains(',') && trimmed("constellation.bearer."@ + token) == "constellation.bearer."@
            + token ==> token_of(None, Some("constellation.bearer."@ + token)) == Some(token),
{
    let value = "Bearer "@ + token;
    assert("Bearer "@.is_prefix_of(value));
    assert(value.skip("Bearer "@.len() as int) =~= token);
    let named = "constellation.bearer."@ + token;
    if !token.contains(',') {
        reveal_strlit("constellation.bearer.");
        assert("constellation.bearer."@.len() == 21);
        assert(!named.contains(',')) by {
            if named.contains(',') {
                let i = choose|i: int| 0 <= i < named.len() && named[i] == ',';
                if i >= "constellation.bearer."@.len() {
                    assert(token[i - "constellation.bearer."@.len()] == ',');
                }
            }
        }
        assert forall|j: int| 0 <= j < named.len() implies named[j] != ',' by {
            assert(named.contains(named[j]));
        }
        text::lemma_position_unique(named, ',', named.len() as int);
        assert(split_at_each(named, ',') =~= seq![named]);
        assert("constellation.bearer."@.is_prefix_of(named));
        assert(named.skip("constellation.bearer."@.len() as int) =~= token);
    }
}

/// Nothing but reading is allowed to those who may only read: a request that changes something needs more
/// than that, but for the registration of one's own passkey; and reading needs no more than that, but for
/// emergencies, providers, teams, principals and workloads.
pub proof fn law_readers_change_nothing(method: Method, path: Seq<char>)
    ensures
        method != Method::Get && needed_permission(method, path) == Permission::ClusterRead
            ==> occurs_in(path, "/auth/passkeys/registration"@),
        method == Method::Get && !occurs_in(path, "/emergency/"@) && !"/revoke"@.is_suffix_of(path)
            && !occurs_in(path, "/auth-providers"@) && !occurs_in(path, "/cloud-adapters"@)
            && !occurs_in(path, "/teams"@) && !occurs_in(path, "/principals"@) && !occurs_in(
            path,
            "/workloads"@,
        ) && !(occurs_in(path, "/plugins/"@) && "/execute"@.is_suffix_of(path)) ==> needed_permission(
            method,
            path,
        ) == Permission::ClusterRead,
{
}

/// What a request needs by what its path is about: emergencies and revocations need emergency control,
/// providers their administration, teams and principals theirs, plugins theirs unless they are only run,
/// workflows to be operated, and all other changes the administration of the cluster.
pub proof fn law_each_area_has_its_permission(method: Method, path: Seq<char>)
    requires
        !"/v1/"@.is_prefix_of(path),
        method != Method::Get,
    ensures
        ({
            let needed = needed_permission(method, path);
            let urgent = occurs_in(path, "/emergency/"@) || "/revoke"@.is_suffix_of(path);
            let plugin = occurs_in(path, "/plugins"@);
            let run = occurs_in(path, "/plugins/"@) && "/execute"@.is_suffix_of(path);
            let provider = occurs_in(path, "/auth-providers"@) || occurs_in(path, "/cloud-adapters"@);
            let passkey = occurs_in(path, "/auth/passkeys/registration"@);
            let team = occurs_in(path, "/teams"@) || occurs_in(path, "/principals"@);
            let workflow = occurs_in(path, "/workflows"@) || occurs_in(path, "/workflow-"@);
            let workload = occurs_in(path, "/workloads"@);
            &&& needed == Permission::EmergencyControl <==> urgent
            &&& needed == Permission::PluginAdmin ==> plugin
            &&& plugin && !run && !urgent ==> needed == Permission::PluginAdmin
            &&& provider && !plugin && !run && !urgent ==> needed == Permission::ProviderAdmin
            &&& team && !provider && !passkey && !plugin && !run && !urgent ==> needed
                == Permission::TeamAdmin
            &&& workflow && !team && !provider && !passkey && !plugin && !run && !urgent ==> needed
                == Permission::WorkflowOperate
            &&& workload && !workflow && !team && !provider && !passkey && !plugin && !run && !urgent
                ==> needed == Permission::WorkloadExecute
            &&& needed == Permission::ClusterAdmin <==> !(urgent || run || plugin || provider
                || passkey || team || workflow || workload)
        }),
{
}

/// Whoever asks a model has to be allowed to have work carried out, and to read the list of models only to
/// read; the model interface is open to nobody without credentials.
pub proof fn law_the_model_interface_is_guarded(method: Method, rest: Seq<char>)
    ensures
        method != Method::Get ==> needed_permission(method, "/v1/"@ + rest)
            == Permission::WorkloadExecute,
        method == Method::Get ==> needed_permission(method, "/v1/"@ + rest) == Permission::ClusterRead,
        !open_to_all("/v1/"@ + rest),
{
    reveal_strlit("/v1/");
    reveal_strlit("/health");
    reveal_strlit("/ready");
    reveal_strlit("/constellation/v1/enrollment/");
    reveal_strlit("/constellation/v1/workflow-webhooks/");
    reveal_strlit("/constellation/v1/auth/passkeys/login/");
    reveal_strlit("/constellation/v1/auth/oidc/");
    assert("/v1/"@.len() == 4);
    assert("/health"@.len() == 7);
    assert("/ready"@.len() == 6);
    assert("/constellation/v1/enrollment/"@.len() == 29);
    assert("/constellation/v1/workflow-webhooks/"@.len() == 36);
    assert("/constellation/v1/auth/passkeys/login/"@.len() == 38);
    assert("/constellation/v1/auth/oidc/"@.len() == 28);
    let path = "/v1/"@ + rest;
    assert("/v1/"@.is_prefix_of(path));
    assert(path[1] == 'v');
    assert("/health"@[1] == 'h' && "/ready"@[1] == 'r');
    assert("/constellation/v1/enrollment/"@[1] == 'c');
    assert("/constellation/v1/workflow-webhooks/"@[1] == 'c');
    assert("/constellation/v1/auth/passkeys/login/"@[1] == 'c');
    assert("/constellation/v1/auth/oidc/"@[1] == 'c');
}

/// A node changes nothing but by what it reports: it never deletes or replaces, and it reads and adjusts only
/// policies and chunks of models. The owner may do everything, a node nothing but work as one.
pub proof fn law_nodes_only_report(method: Method, path: Seq<char>, node: Uuid, permission: Permission)
    ensures
        node_may_request(method, path) ==> method == Method::Post || method == Method::Get || method
            == Method::Patch,
        node_may_request(Method::Patch, path) ==> "/policy"@.is_suffix_of(path),
        node_may_request(Method::Get, path) ==> "/policy"@.is_suffix_of(path)
            || "/constellation/v1/models/chunks/"@.is_prefix_of(path),
        allowed(AuthenticatedPrincipal::Node(node), permission) <==> permission
            == Permission::NodeOperate,
        allowed(AuthenticatedPrincipal::Owner, permission),
{
}

/// A standby answers what only reads, but for a backup, and nothing that posts, changes or deletes.
pub proof fn law_a_standby_only_reads(method: Method, path: Seq<char>)
    ensures
        method == Method::Post || method == Method::Patch || method == Method::Delete
            ==> needs_active_controller(method, path),
        method == Method::Get ==> (needs_active_controller(method, path) <==> path
            == "/constellation/v1/backup"@),
{
}

/// What principals do is recorded under names that tell nodes apart, and humans and services.
pub proof fn law_labels_tell_apart(a: Uuid, b: Uuid)
    ensures
        principal_label(AuthenticatedPrincipal::Node(a)) == principal_label(
            AuthenticatedPrincipal::Node(b),
        ) ==> a == b,
        hyphenated(a) == hyphenated(b) ==> a == b,
        principal_label(AuthenticatedPrincipal::Node(a)) != hyphenated(b),
        principal_label(AuthenticatedPrincipal::Owner) != hyphenated(b),
        principal_label(AuthenticatedPrincipal::Owner) != principal_label(
            AuthenticatedPrincipal::Node(a),
        ),
{
    reveal_strlit("node:");
    reveal_strlit("local-owner");
    assert("node:"@.len() == 5);
    assert("local-owner"@.len() == 11);
    lemma_hyphenated(a);
    lemma_hyphenated(b);
    let x = principal_label(AuthenticatedPrincipal::Node(a));
    let y = principal_label(AuthenticatedPrincipal::Node(b));
    assert(x.len() == 41 && hyphenated(b).len() == 36 && "local-owner"@.len() == 11);
    if x == y {
        assert(x =~= "node:"@ + hyphenated(a) + Seq::<char>::empty());
        assert(y =~= "node:"@ + hyphenated(b) + Seq::<char>::empty());
        lemma_hyphenated_behind("node:"@, a, Seq::empty(), b, Seq::empty());
    }
    if hyphenated(a) == hyphenated(b) {
        law_hyphenated_is_injective(a, b);
    }
}

} // verus!
