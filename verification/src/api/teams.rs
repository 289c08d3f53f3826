//! Principals, teams, plugins and providers: who may set them up, and how.

use crate::api::auth::{
    allowed, authenticated_principal_id, principal_allows, principal_label, token_digest,
    AuthenticatedPrincipal, Permission,
};
use crate::api::{
    bad_request, forbidden, internal, not_found, unauthorized, unavailable, ApiError, ErrorView,
};
use crate::cloud::{CloudAdapterPolicy, OPENAI_COMPATIBLE_PROVIDER};
use crate::digest::{
    base64url_decode, base64url_decoded, base64url_encoded, hex_of, random_text, sha256_of,
};
use crate::ident::{big_endian, Uuid};
use crate::json::{fields2, Fields, Json, JsonView};
use crate::names::Role;
use crate::repository::listings::lists_by_id;
use crate::repository::principals::{active_service, with_principal};
use crate::repository::{AuthProvider, Grant, Plugin, PrincipalRow, Repository};
use crate::text;
use crate::text::is_blank;
use vstd::prelude::*;
use vstd::utf8::encode_utf8;

verus! {

// ------------------------------------------------------------------------------------------------
// Principals and teams

/// A principal that is to be created.
pub struct CreatePrincipalRequest {
    pub name: String,
    pub role: Role,
    pub scopes: Vec<Permission>,
}

/// Whether a principal can be created as it is asked for: nobody is made an owner or a node, and only
/// a service has scopes.
pub open spec fn principal_fits(input: CreatePrincipalRequest) -> bool {
    &&& !is_blank(input.name@)
    &&& encode_utf8(input.name@).len() <= 128
    &&& input.role != Role::Owner && input.role != Role::Node
    &&& input.role == Role::Service || input.scopes@.len() == 0
    &&& input.scopes@.len() <= 32
}

/// Why a principal is not created, where it is not.
pub open spec fn principal_refusal(
    actor: AuthenticatedPrincipal,
    input: CreatePrincipalRequest,
    name_taken: bool,
) -> Option<ErrorView> {
    if !allowed(actor, Permission::TeamAdmin) {
        Some(forbidden("principal creation requires team administration permission"@))
    } else if !principal_fits(input) {
        Some(
            bad_request(
                "invalid_principal"@,
                "principal name, role, or service scopes are invalid"@,
            ),
        )
    } else if name_taken {
        Some(bad_request("principal_name_exists"@, "principal name is already in use"@))
    } else {
        None
    }
}

/// A principal that has just been created, with its key where it is a service. The key is shown once.
pub struct CreatedPrincipal {
    pub row: PrincipalRow,
    pub api_key: Option<String>,
}

/// The key of a service, made from two random identifiers.
pub open spec fn service_key(first: Uuid, second: Uuid) -> Seq<char> {
    "cst_svc_"@ + base64url_encoded(big_endian(first) + big_endian(second))
}

/// Creates a principal. Of a service's key only the digest goes into the store.
pub fn create_principal(
    actor: &AuthenticatedPrincipal,
    input: CreatePrincipalRequest,
    name_taken: bool,
    first: Uuid,
    second: Uuid,
    now: i128,
) -> (r: Result<CreatedPrincipal, ApiError>)
    ensures
        r is Err == principal_refusal(*actor, input, name_taken) is Some,
        r matches Err(error) ==> principal_refusal(*actor, input, name_taken) == Some(error@),
        r matches Ok(created) ==> {
            &&& created.row.name == input.name
            &&& created.row.role == input.role
            &&& created.row.scopes == input.scopes
            &&& created.row.active
            &&& created.row.created_at == now
            &&& created.api_key is Some == (input.role == Role::Service)
            &&& created.row.api_key_sha256 is Some == (input.role == Role::Service)
            &&& created.api_key matches Some(key) ==> key@ == service_key(first, second)
                && created.row.api_key_sha256->0@ == token_digest(key@)
        },
{
    if !principal_allows(actor, Permission::TeamAdmin) {
        return Err(
            ApiError::forbidden("principal creation requires team administration permission"),
        );
    }
    if text::blank(input.name.as_str()) || text::byte_len(input.name.as_str()) > 128 || input.role
        == Role::Owner || input.role == Role::Node || (input.role != Role::Service
        && input.scopes.len() != 0) || input.scopes.len() > 32 {
        return Err(
            ApiError::bad_request(
                "invalid_principal",
                "principal name, role, or service scopes are invalid",
            ),
        );
    }
    if name_taken {
        return Err(
            ApiError::bad_request("principal_name_exists", "principal name is already in use"),
        );
    }
    let (api_key, api_key_sha256): (Option<String>, Option<String>) = if input.role
        == Role::Service {
        let key = text::join2("cst_svc_", random_text(first, second).as_str());
        let digest = hex_of(sha256_of(key.as_str().as_bytes()).as_slice());
        (Some(key), Some(digest))
    } else {
        (None, None)
    };
    Ok(
        CreatedPrincipal {
            row: PrincipalRow {
                name: input.name,
                role: input.role,
                scopes: input.scopes,
                api_key_sha256,
                active: true,
                created_at: now,
            },
            api_key,
        },
    )
}

/// A service that was created signs in with the key that was shown.
pub proof fn law_a_service_signs_in_with_its_key(
    principals: Map<u128, PrincipalRow>,
    id: u128,
    row: PrincipalRow,
    key: Seq<char>,
)
    requires
        row.active,
        row.role == Role::Service,
        row.api_key_sha256 is Some,
        row.api_key_sha256->0@ == token_digest(key),
    ensures
        active_service(with_principal(principals, id, row), id, token_digest(key)),
{
}

/// Why a team is not created, where it is not.
pub open spec fn team_refusal(actor: AuthenticatedPrincipal, name: Seq<char>) -> Option<ErrorView> {
    if !allowed(actor, Permission::TeamAdmin) {
        Some(forbidden("team creation requires team administration permission"@))
    } else if is_blank(name) || encode_utf8(name).len() > 128 {
        Some(bad_request("invalid_team"@, "team name must contain 1 to 128 characters"@))
    } else {
        None
    }
}

/// Checks whether a team can be created.
pub fn create_team(actor: &AuthenticatedPrincipal, name: &str) -> (r: Result<(), ApiError>)
    ensures
        r is Err == team_refusal(*actor, name@) is Some,
        r matches Err(error) ==> team_refusal(*actor, name@) == Some(error@),
{
    if !principal_allows(actor, Permission::TeamAdmin) {
        return Err(ApiError::forbidden("team creation requires team administration permission"));
    }
    if text::blank(name) || text::byte_len(name) > 128 {
        return Err(
            ApiError::bad_request("invalid_team", "team name must contain 1 to 128 characters"),
        );
    }
    Ok(())
}

/// Checks whether somebody can be made a member of a team: never as an owner or a node.
pub fn put_team_member(actor: &AuthenticatedPrincipal, role: Role) -> (r: Result<(), ApiError>)
    ensures
        r is Ok == (allowed(*actor, Permission::TeamAdmin) && role != Role::Owner && role
            != Role::Node),
        r matches Err(error) ==> error@ == forbidden(
            "team membership requires team administration and a team-safe role"@,
        ),
{
    if !principal_allows(actor, Permission::TeamAdmin) || role == Role::Owner || role == Role::Node {
        return Err(
            ApiError::forbidden(
                "team membership requires team administration and a team-safe role",
            ),
        );
    }
    Ok(())
}

// ------------------------------------------------------------------------------------------------
// Plugins

/// How long the text of a component may be.
pub const COMPONENT_TEXT_LIMIT: usize = 94_371_840;

/// Why a component is not taken, where it is not.
pub open spec fn component_refusal(actor: AuthenticatedPrincipal, component_base64: Seq<char>) -> Option<
    ErrorView,
> {
    if !allowed(actor, Permission::PluginAdmin) {
        Some(forbidden("plugin installation requires plugin administration permission"@))
    } else if encode_utf8(component_base64).len() > COMPONENT_TEXT_LIMIT {
        Some(
            bad_request(
                "plugin_component_too_large"@,
                "encoded plugin component exceeds its bound"@,
            ),
        )
    } else if base64url_decoded(component_base64) is None {
        Some(
            bad_request(
                "invalid_plugin_component"@,
                "plugin component is not valid base64url"@,
            ),
        )
    } else {
        None
    }
}

/// Takes the component of a plugin.
pub fn install_plugin(actor: &AuthenticatedPrincipal, component_base64: &str) -> (r: Result<
    Vec<u8>,
    ApiError,
>)
    ensures
        r is Err == component_refusal(*actor, component_base64@) is Some,
        r matches Err(error) ==> component_refusal(*actor, component_base64@) == Some(error@),
        r matches Ok(component) ==> base64url_decoded(component_base64@) == Some(component@),
{
    if !principal_allows(actor, Permission::PluginAdmin) {
        return Err(
            ApiError::forbidden("plugin installation requires plugin administration permission"),
        );
    }
    if text::byte_len(component_base64) > COMPONENT_TEXT_LIMIT {
        return Err(
            ApiError::bad_request(
                "plugin_component_too_large",
                "encoded plugin component exceeds its bound",
            ),
        );
    }
    match base64url_decode(component_base64) {
        Some(component) => Ok(component),
        None => Err(
            ApiError::bad_request(
                "invalid_plugin_component",
                "plugin component is not valid base64url",
            ),
        ),
    }
}

/// Whether a component that the host has compiled, or why not, is to be written: it is not, where the
/// same bytes are there already. Under a name that is made of the digest no other bytes may be.
pub fn place_component(
    compiled: Result<(), String>,
    existing: Option<&[u8]>,
    component: &[u8],
) -> (r: Result<bool, ApiError>)
    ensures
        match compiled {
            Err(message) => r is Err && r->Err_0@ == bad_request("invalid_plugin"@, message@),
            Ok(()) => match existing {
                None => r is Ok && r->Ok_0,
                Some(bytes) => if bytes@ == component@ {
                    r is Ok && !r->Ok_0
                } else {
                    r is Err && r->Err_0@ == unavailable(
                        "content-addressed plugin path contains different bytes"@,
                    )
                },
            },
        },
{
    if let Err(message) = compiled {
        return Err(ApiError::bad_request("invalid_plugin", message.as_str()));
    }
    match existing {
        Some(bytes) => if text::same_bytes(bytes, component) {
            Ok(false)
        } else {
            Err(ApiError::unavailable("content-addressed plugin path contains different bytes"))
        },
        None => Ok(true),
    }
}

/// The name of the file of a component.
pub fn component_file(sha256: &str) -> (r: String)
    ensures
        r@ == sha256@ + ".wasm"@,
{
    text::join2(sha256, ".wasm")
}

/// The grant that somebody asks for: for the component that is installed, and in that one's own name.
/// Whether the plugin's manifest asks for the permissions is found out elsewhere.
pub fn grant_plugin(
    actor: &AuthenticatedPrincipal,
    plugin: Option<&Plugin>,
    permissions: Vec<String>,
    valid: Result<(), String>,
    now: i128,
) -> (r: Result<Grant, ApiError>)
    ensures
        !allowed(*actor, Permission::PluginAdmin) ==> r is Err && r->Err_0@ == forbidden(
            "plugin grants require plugin administration permission"@,
        ),
        allowed(*actor, Permission::PluginAdmin) && plugin is None ==> r is Err && r->Err_0@
            == not_found("plugin_not_found"@, "plugin is not installed"@),
        allowed(*actor, Permission::PluginAdmin) && plugin is Some && valid is Err ==> r is Err
            && r->Err_0@ == bad_request("invalid_plugin_grant"@, valid->Err_0@),
        allowed(*actor, Permission::PluginAdmin) && plugin is Some && valid is Ok ==> {
            &&& r is Ok
            &&& r->Ok_0.component_sha256@ == plugin->0.sha256@
            &&& r->Ok_0.permissions == permissions
            &&& r->Ok_0.approved_by@ == principal_label(*actor)
            &&& r->Ok_0.approved_at == now
        },
{
    if !principal_allows(actor, Permission::PluginAdmin) {
        return Err(ApiError::forbidden("plugin grants require plugin administration permission"));
    }
    match plugin {
        Some(plugin) => match valid {
            Ok(()) => Ok(
                Grant {
                    component_sha256: plugin.sha256.clone(),
                    permissions,
                    approved_by: authenticated_principal_id(actor),
                    approved_at: now,
                },
            ),
            Err(message) => Err(
                ApiError::bad_request("invalid_plugin_grant", message.as_str()),
            ),
        },
        None => Err(ApiError::not_found("plugin_not_found", "plugin is not installed")),
    }
}

/// Checks whether somebody can run a plugin: it is a tool, it is enabled, and it has its grant.
pub fn execute_plugin(
    actor: &AuthenticatedPrincipal,
    plugin: Option<&Plugin>,
    is_tool: bool,
    granted: bool,
) -> (r: Result<(), ApiError>)
    ensures
        ({
            let runnable = plugin is Some && plugin->0.enabled && is_tool;
            &&& r is Ok == (allowed(*actor, Permission::WorkflowOperate) && runnable && granted)
            &&& r matches Err(error) ==> error@ == (if !allowed(
                *actor,
                Permission::WorkflowOperate,
            ) {
                forbidden("plugin execution requires workflow operation permission"@)
            } else if !runnable {
                forbidden("plugin is not installed with an active exact permission grant"@)
            } else {
                forbidden("plugin permission grant is missing"@)
            })
        }),
{
    if !principal_allows(actor, Permission::WorkflowOperate) {
        return Err(
            ApiError::forbidden("plugin execution requires workflow operation permission"),
        );
    }
    let runnable: bool = match plugin {
        Some(plugin) => plugin.enabled && is_tool,
        None => false,
    };
    if !runnable {
        return Err(
            ApiError::forbidden("plugin is not installed with an active exact permission grant"),
        );
    }
    if !granted {
        return Err(ApiError::forbidden("plugin permission grant is missing"));
    }
    Ok(())
}

/// What became of a plugin that was run: its host broke down, or it failed, or it put something out.
pub enum PluginOutcome {
    HostFailed,
    Failed(String),
    Output(String),
}

/// What somebody is answered who had a plugin run.
pub fn plugin_answer(plugin_id: &str, outcome: PluginOutcome) -> (r: Result<Json, ApiError>)
    ensures
        match outcome {
            PluginOutcome::HostFailed => r is Err && r->Err_0@ == internal(),
            PluginOutcome::Failed(message) => r is Err && r->Err_0@ == bad_request(
                "plugin_execution_failed"@,
                message@,
            ),
            PluginOutcome::Output(output) => r is Ok && r->Ok_0@ == JsonView::Object(
                fields2(
                    ("plugin_id"@, JsonView::Text(plugin_id@)),
                    ("output"@, JsonView::Text(output@)),
                ),
            ),
        },
{
    match outcome {
        PluginOutcome::HostFailed => Err(ApiError::internal()),
        PluginOutcome::Failed(message) => Err(
            ApiError::bad_request("plugin_execution_failed", message.as_str()),
        ),
        PluginOutcome::Output(output) => Ok(
            Fields::new().text("plugin_id", plugin_id).text("output", output.as_str()).object(),
        ),
    }
}

// ------------------------------------------------------------------------------------------------
// Providers

/// Why an identity provider is not stored, where it is not. Whether it is valid, and whether an
/// enabled one answers, is found out elsewhere.
pub open spec fn provider_refusal(
    actor: AuthenticatedPrincipal,
    valid: Result<(), String>,
    enabled: bool,
    saml: bool,
    answers: bool,
) -> Option<ErrorView> {
    if !allowed(actor, Permission::ProviderAdmin) {
        Some(forbidden("identity providers require provider administration permission"@))
    } else {
        match valid {
            Err(message) => Some(bad_request("invalid_auth_provider"@, message@)),
            Ok(()) => if enabled && saml {
                Some(
                    bad_request(
                        "unsupported_feature"@,
                        "SAML authentication is not available in this build; keep the provider disabled"@,
                    ),
                )
            } else if enabled && !answers {
                Some(
                    bad_request(
                        "oidc_discovery_failed"@,
                        "the OIDC provider, redirect, or credential reference could not be verified"@,
                    ),
                )
            } else {
                None
            },
        }
    }
}

/// Checks whether an identity provider can be stored.
pub fn put_auth_provider(
    actor: &AuthenticatedPrincipal,
    valid: Result<(), String>,
    enabled: bool,
    saml: bool,
    answers: bool,
) -> (r: Result<(), ApiError>)
    ensures
        r is Err == provider_refusal(*actor, valid, enabled, saml, answers) is Some,
        r matches Err(error) ==> provider_refusal(*actor, valid, enabled, saml, answers) == Some(
            error@,
        ),
{
    if !principal_allows(actor, Permission::ProviderAdmin) {
        return Err(
            ApiError::forbidden("identity providers require provider administration permission"),
        );
    }
    if let Err(message) = valid {
        return Err(ApiError::bad_request("invalid_auth_provider", message.as_str()));
    }
    if enabled && saml {
        return Err(
            ApiError::bad_request(
                "unsupported_feature",
                "SAML authentication is not available in this build; keep the provider disabled",
            ),
        );
    }
    if enabled && !answers {
        return Err(
            ApiError::bad_request(
                "oidc_discovery_failed",
                "the OIDC provider, redirect, or credential reference could not be verified",
            ),
        );
    }
    Ok(())
}

/// Why an external identity is not linked, where it is not.
pub open spec fn link_refusal(
    actor: AuthenticatedPrincipal,
    subject: Seq<char>,
    provider_known: bool,
    principal_known: bool,
) -> Option<ErrorView> {
    let n = encode_utf8(subject).len();
    if !allowed(actor, Permission::ProviderAdmin) {
        Some(forbidden("identity links require provider administration permission"@))
    } else if n == 0 || n > 2_048 {
        Some(
            bad_request("invalid_external_subject"@, "external subject violates its bounds"@),
        )
    } else if !provider_known || !principal_known {
        Some(
            bad_request(
                "identity_link_target_missing"@,
                "provider and principal must already exist"@,
            ),
        )
    } else {
        None
    }
}

/// Checks whether an external identity can be linked to a principal.
pub fn link_external_identity(
    actor: &AuthenticatedPrincipal,
    subject: &str,
    provider_known: bool,
    principal_known: bool,
) -> (r: Result<(), ApiError>)
    ensures
        r is Err == link_refusal(*actor, subject@, provider_known, principal_known) is Some,
        r matches Err(error) ==> link_refusal(*actor, subject@, provider_known, principal_known)
            == Some(error@),
{
    if !principal_allows(actor, Permission::ProviderAdmin) {
        return Err(
            ApiError::forbidden("identity links require provider administration permission"),
        );
    }
    let n: usize = text::byte_len(subject);
    if n == 0 || n > 2_048 {
        return Err(
            ApiError::bad_request(
                "invalid_external_subject",
                "external subject violates its bounds",
            ),
        );
    }
    if !provider_known || !principal_known {
        return Err(
            ApiError::bad_request(
                "identity_link_target_missing",
                "provider and principal must already exist",
            ),
        );
    }
    Ok(())
}

/// Why no external sign-in is begun, where none is.
pub fn begin_oidc_login(within_rate: bool, provider_known: bool, started: bool) -> (r: Result<
    (),
    ApiError,
>)
    ensures
        r is Ok == (within_rate && provider_known && started),
        r matches Err(error) ==> error@ == (if !within_rate {
            crate::api::rate_limited("too many authentication ceremonies"@)
        } else if !provider_known {
            bad_request("invalid_identity_provider"@, "OIDC login could not begin"@)
        } else {
            bad_request("oidc_login_unavailable"@, "OIDC login could not begin"@)
        }),
{
    if !within_rate {
        return Err(ApiError::rate_limited("too many authentication ceremonies"));
    }
    if !provider_known {
        return Err(
            ApiError::bad_request("invalid_identity_provider", "OIDC login could not begin"),
        );
    }
    if !started {
        return Err(ApiError::bad_request("oidc_login_unavailable", "OIDC login could not begin"));
    }
    Ok(())
}

/// The principal that an external sign-in ends with. Whatever failed, the answer is the same.
pub fn finish_oidc_login(provider_known: bool, verified: bool, principal: Option<Uuid>) -> (r: Result<
    Uuid,
    ApiError,
>)
    ensures
        r is Ok == (provider_known && verified && principal is Some),
        r matches Ok(id) ==> principal == Some(id),
        r matches Err(error) ==> error@ == unauthorized("external authentication failed"@),
{
    match principal {
        Some(id) if provider_known && verified => Ok(id),
        _ => Err(ApiError::unauthorized("external authentication failed")),
    }
}

/// Why a policy for a cloud provider is not stored, where it is not. Whether it is valid, and whether
/// its credential is there, is found out elsewhere.
pub open spec fn cloud_policy_refusal(
    actor: AuthenticatedPrincipal,
    valid: Result<(), String>,
    policy: CloudAdapterPolicy,
    credential: bool,
) -> Option<ErrorView> {
    if !allowed(actor, Permission::ProviderAdmin) {
        Some(forbidden("cloud adapters require provider administration permission"@))
    } else {
        match valid {
            Err(message) => Some(bad_request("invalid_cloud_policy"@, message@)),
            Ok(()) => if policy.enabled && policy.provider_plugin@ != OPENAI_COMPATIBLE_PROVIDER@ {
                Some(
                    bad_request(
                        "unsupported_feature"@,
                        "this build executes only the built-in OpenAI-compatible cloud provider"@,
                    ),
                )
            } else if policy.enabled && !credential {
                Some(
                    bad_request(
                        "cloud_credential_unavailable"@,
                        "the cloud credential reference could not be loaded from the native vault"@,
                    ),
                )
            } else {
                None
            },
        }
    }
}

/// Checks whether a policy for a cloud provider can be stored.
pub fn put_cloud_adapter(
    actor: &AuthenticatedPrincipal,
    valid: Result<(), String>,
    policy: &CloudAdapterPolicy,
    credential: bool,
) -> (r: Result<(), ApiError>)
    ensures
        r is Err == cloud_policy_refusal(*actor, valid, *policy, credential) is Some,
        r matches Err(error) ==> cloud_policy_refusal(*actor, valid, *policy, credential) == Some(
            error@,
        ),
{
    if !principal_allows(actor, Permission::ProviderAdmin) {
        return Err(
            ApiError::forbidden("cloud adapters require provider administration permission"),
        );
    }
    if let Err(message) = valid {
        return Err(ApiError::bad_request("invalid_cloud_policy", message.as_str()));
    }
    if policy.enabled && !text::same(policy.provider_plugin.as_str(), OPENAI_COMPATIBLE_PROVIDER) {
        return Err(
            ApiError::bad_request(
                "unsupported_feature",
                "this build executes only the built-in OpenAI-compatible cloud provider",
            ),
        );
    }
    if policy.enabled && !credential {
        return Err(
            ApiError::bad_request(
                "cloud_credential_unavailable",
                "the cloud credential reference could not be loaded from the native vault",
            ),
        );
    }
    Ok(())
}

/// Whether a provider is offered at the login: it is enabled, and speaks OpenID Connect.
pub open spec fn offered(provider: AuthProvider) -> bool {
    provider.enabled && provider.kind@ == "oidc"@
}

/// The providers that are offered at the login, by their identifiers.
pub fn list_oidc_login_providers(repository: &Repository) -> (ids: Vec<Uuid>)
    ensures
        forall|i: int, j: int| 0 <= i < j < ids@.len() ==> ids@[i] < ids@[j],
        forall|id: u128| #[trigger]
            ids@.contains(id) == (repository@.auth_providers.contains_key(id) && offered(
                repository@.auth_providers[id],
            )),
{
    let all = repository.auth_providers();
    let mut ids: Vec<Uuid> = Vec::new();
    let mut i: usize = 0;
    while i < all.len()
        invariant
            i <= all@.len(),
            lists_by_id(repository@.auth_providers, all@),
            forall|a: int, b: int| 0 <= a < b < ids@.len() ==> ids@[a] < ids@[b],
            forall|a: int| 0 <= a < ids@.len() ==> all@.take(i as int).contains(#[trigger] ids@[a]),
            forall|id: u128| #[trigger]
                ids@.contains(id) == (all@.take(i as int).contains(id) && offered(
                    repository@.auth_providers[id],
                )),
        decreases all@.len() - i,
    {
        let id: Uuid = all[i];
        proof {
            crate::table::lemma_one_more(all@, i as int);
            assert(all@.contains(id));
            assert(repository@.auth_providers.contains_key(id));
        }
        let shown: bool = match repository.auth_provider(id) {
            Some(provider) => provider.enabled && text::same(provider.kind.as_str(), "oidc"),
            None => false,
        };
        if shown {
            let ghost before = ids@;
            proof {
                assert forall|a: int| 0 <= a < before.len() implies before[a] < id by {
                    let few = all@.take(i as int);
                    let k = choose|k: int| 0 <= k < few.len() && few[k] == before[a];
                    assert(all@[k] == before[a]);
                }
            }
            ids.push(id);
            proof {
                assert forall|k: u128| #[trigger] ids@.contains(k) == (before.contains(k) || k
                    == id) by {
                    if before.contains(k) {
                        let j = choose|j: int| 0 <= j < before.len() && before[j] == k;
                        assert(ids@[j] == k);
                    }
                    assert(ids@[before.len() as int] == id);
                }
            }
        }
        i += 1;
    }
    assert(all@.take(i as int) =~= all@);
    ids
}

/// Checks that somebody may see the identity providers.
pub fn list_auth_providers(actor: &AuthenticatedPrincipal) -> (r: Result<(), ApiError>)
    ensures
        r is Ok == allowed(*actor, Permission::ProviderAdmin),
        r matches Err(error) ==> error@ == forbidden(
            "identity providers require provider administration permission"@,
        ),
{
    if principal_allows(actor, Permission::ProviderAdmin) {
        Ok(())
    } else {
        Err(ApiError::forbidden("identity providers require provider administration permission"))
    }
}

/// Checks that somebody may see the policies for cloud providers.
pub fn list_cloud_adapters(actor: &AuthenticatedPrincipal) -> (r: Result<(), ApiError>)
    ensures
        r is Ok == allowed(*actor, Permission::ProviderAdmin),
        r matches Err(error) ==> error@ == forbidden(
            "cloud adapters require provider administration permission"@,
        ),
{
    if principal_allows(actor, Permission::ProviderAdmin) {
        Ok(())
    } else {
        Err(ApiError::forbidden("cloud adapters require provider administration permission"))
    }
}

/// A principal is made by one who administers teams, under a name that says something and is free; never as
/// an owner or a node, and with scopes of its own only as a service, of at most 32.
pub proof fn law_sound_principals_are_made(
    actor: AuthenticatedPrincipal,
    input: CreatePrincipalRequest,
    name_taken: bool,
)
    ensures
        principal_refusal(actor, input, name_taken) is None <==> {
            &&& allowed(actor, Permission::TeamAdmin) && !name_taken
            &&& !is_blank(input.name@) && encode_utf8(input.name@).len() <= 128
            &&& input.role != Role::Owner && input.role != Role::Node
            &&& input.role != Role::Service ==> input.scopes@.len() == 0
            &&& input.scopes@.len() <= 32
        },
{
}

/// A team is made by one who administers teams, under a name of 1 to 128 bytes that says something; a component
/// is taken from one who administers plugins, where it is encoded and not too long.
pub proof fn law_teams_and_components_are_taken(
    actor: AuthenticatedPrincipal,
    name: Seq<char>,
    component_base64: Seq<char>,
)
    ensures
        team_refusal(actor, name) is None <==> allowed(actor, Permission::TeamAdmin) && !is_blank(name)
            && encode_utf8(name).len() <= 128,
        component_refusal(actor, component_base64) is None <==> allowed(actor, Permission::PluginAdmin)
            && encode_utf8(component_base64).len() <= 94_371_840 && base64url_decoded(
            component_base64,
        ) is Some,
{
}

/// A provider is stored by one who administers providers where it is valid, and switched on only where it
/// speaks a protocol that is available and answers; a link where both sides are there and the subject has
/// from 1 to 2048 bytes; a cloud adapter where it is valid, and switched on only with the built-in provider
/// and its credential.
pub proof fn law_providers_are_stored_where_they_work(
    actor: AuthenticatedPrincipal,
    enabled: bool,
    saml: bool,
    answers: bool,
    subject: Seq<char>,
    provider_known: bool,
    principal_known: bool,
    policy: CloudAdapterPolicy,
    credential: bool,
)
    ensures
        provider_refusal(actor, Ok(()), enabled, saml, answers) is None <==> allowed(
            actor,
            Permission::ProviderAdmin,
        ) && (enabled ==> !saml && answers),
        link_refusal(actor, subject, provider_known, principal_known) is None <==> allowed(
            actor,
            Permission::ProviderAdmin,
        ) && 1 <= encode_utf8(subject).len() <= 2_048 && provider_known && principal_known,
        cloud_policy_refusal(actor, Ok(()), policy, credential) is None <==> allowed(
            actor,
            Permission::ProviderAdmin,
        ) && (policy.enabled ==> policy.provider_plugin@ == OPENAI_COMPATIBLE_PROVIDER@ && credential),
{
}

/// Whether something is valid is told by who checked it: what is not is never stored, and its fault is told.
pub proof fn law_invalid_providers_are_not_stored(
    actor: AuthenticatedPrincipal,
    fault: String,
    enabled: bool,
    saml: bool,
    answers: bool,
    policy: CloudAdapterPolicy,
    credential: bool,
)
    ensures
        provider_refusal(actor, Err(fault), enabled, saml, answers) is Some,
        cloud_policy_refusal(actor, Err(fault), policy, credential) is Some,
        allowed(actor, Permission::ProviderAdmin) ==> provider_refusal(
            actor,
            Err(fault),
            enabled,
            saml,
            answers,
        ) == Some(bad_request("invalid_auth_provider"@, fault@)) && cloud_policy_refusal(
            actor,
            Err(fault),
            policy,
            credential,
        ) == Some(bad_request("invalid_cloud_policy"@, fault@)),
{
}

} // verus!
