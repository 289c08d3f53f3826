//! What the controller's HTTP interface decides.

pub mod artifacts;
pub mod auth;
pub mod chat;
pub mod cluster;
pub mod devices;
pub mod enroll;
pub mod execution;
pub mod inference;
pub mod limiter;
pub mod models;
pub mod network;
pub mod passkeys;
pub mod plans;
pub mod requests;
pub mod routes;
pub mod runs;
pub mod streams;
pub mod teams;
pub mod workflows;

use crate::ident::Uuid;
use crate::json::{fields1, fields5, id_json, Fields, Json, JsonView};
use crate::text;
use vstd::prelude::*;

verus! {

/// An error as a client sees it.
pub struct ApiError {
    /// The HTTP status.
    pub status: u16,
    pub code: String,
    pub kind: String,
    pub message: String,
}

/// An error as a client sees it, as values.
pub struct ErrorView {
    pub status: u16,
    pub code: Seq<char>,
    pub kind: Seq<char>,
    pub message: Seq<char>,
}

/// A request that cannot be carried out as it is.
pub open spec fn bad_request(code: Seq<char>, message: Seq<char>) -> ErrorView {
    ErrorView { status: 400, code, kind: "invalid_request_error"@, message }
}

/// A request without valid credentials.
pub open spec fn unauthorized(message: Seq<char>) -> ErrorView {
    ErrorView { status: 401, code: "unauthorized"@, kind: "authentication_error"@, message }
}

/// A request that its principal may not make.
pub open spec fn forbidden(message: Seq<char>) -> ErrorView {
    ErrorView { status: 403, code: "forbidden"@, kind: "permission_error"@, message }
}

/// One request too many.
pub open spec fn rate_limited(message: Seq<char>) -> ErrorView {
    ErrorView { status: 429, code: "rate_limit_exceeded"@, kind: "rate_limit_error"@, message }
}

/// A request for something that is not there.
pub open spec fn not_found(code: Seq<char>, message: Seq<char>) -> ErrorView {
    ErrorView { status: 404, code, kind: "not_found_error"@, message }
}

/// A request that cannot be carried out now.
pub open spec fn unavailable(message: Seq<char>) -> ErrorView {
    ErrorView { status: 503, code: "unavailable"@, kind: "server_error"@, message }
}

/// A generation that broke off.
pub open spec fn generation_interrupted(partial_output: bool) -> ErrorView {
    ErrorView {
        status: 503,
        code: "generation_interrupted"@,
        kind: "server_error"@,
        message: if partial_output {
            "generation was interrupted after output began; the partial output was not resumed"@
        } else {
            "generation was interrupted before a terminal runtime event"@
        },
    }
}

/// A generation that was cancelled.
pub open spec fn generation_cancelled() -> ErrorView {
    ErrorView {
        status: 409,
        code: "cancelled"@,
        kind: "invalid_request_error"@,
        message: "generation was cancelled"@,
    }
}

/// A failure whose details stay inside.
pub open spec fn internal() -> ErrorView {
    ErrorView {
        status: 500,
        code: "internal_error"@,
        kind: "server_error"@,
        message: "an internal error occurred"@,
    }
}

/// Encrypted content that cannot be had.
pub open spec fn secret() -> ErrorView {
    ErrorView {
        status: 503,
        code: "encrypted_content_unavailable"@,
        kind: "server_error"@,
        message: "encrypted chat storage is unavailable on this device"@,
    }
}

/// Why an enrollment fails.
#[derive(Clone, Copy, Debug, PartialEq, Eq, Structural)]
pub enum IdentityError {
    InvitationExpired,
    InvitationInvalidated,
    InvalidProof,
    InvalidHandshake,
    ApprovalRequired,
    InvitationUnavailable,
    SessionConsumed,
    Certificate,
}

/// What a client is told of a failed enrollment.
pub open spec fn identity(error: IdentityError) -> ErrorView {
    match error {
        IdentityError::InvitationExpired => ErrorView {
            status: 410,
            code: "invitation_expired"@,
            kind: "invalid_request_error"@,
            message: "enrollment invitation expired"@,
        },
        IdentityError::InvitationInvalidated => ErrorView {
            status: 410,
            code: "invitation_invalidated"@,
            kind: "authentication_error"@,
            message: "enrollment invitation is no longer valid"@,
        },
        IdentityError::InvalidProof | IdentityError::InvalidHandshake => ErrorView {
            status: 401,
            code: "invalid_enrollment_proof"@,
            kind: "authentication_error"@,
            message: "enrollment proof is invalid"@,
        },
        IdentityError::ApprovalRequired => ErrorView {
            status: 409,
            code: "approval_required"@,
            kind: "invalid_request_error"@,
            message: "administrator approval is required"@,
        },
        IdentityError::InvitationUnavailable | IdentityError::SessionConsumed => not_found(
            "invitation_unavailable"@,
            "enrollment invitation is unavailable"@,
        ),
        IdentityError::Certificate => unavailable(
            "cluster certificate authority is unavailable"@,
        ),
    }
}

/// Why a runtime does not execute a request.
pub enum RuntimeError {
    ModelUnavailable,
    UnsupportedFeature(String),
    Unavailable,
    Execution,
}

/// What a client is told of a runtime's refusal.
pub open spec fn runtime(error: RuntimeError) -> ErrorView {
    match error {
        RuntimeError::ModelUnavailable => not_found(
            "model_not_found"@,
            "requested model is unavailable"@,
        ),
        RuntimeError::UnsupportedFeature(feature) => bad_request("unsupported_feature"@, feature@),
        RuntimeError::Unavailable | RuntimeError::Execution => unavailable(
            "runtime could not execute the request"@,
        ),
    }
}

/// Why the model store refuses.
#[derive(Clone, Copy, Debug, PartialEq, Eq, Structural)]
pub enum ModelStoreError {
    InvalidAlias,
    LicenseNotAccepted,
    NotFound,
    Verification,
    Io,
    Json,
}

/// What a client is told of the model store's refusal.
pub open spec fn model_store(error: ModelStoreError) -> ErrorView {
    match error {
        ModelStoreError::InvalidAlias => bad_request(
            "invalid_model_alias"@,
            "model alias is invalid"@,
        ),
        ModelStoreError::LicenseNotAccepted => bad_request(
            "license_not_accepted"@,
            "model license must be accepted before import"@,
        ),
        ModelStoreError::NotFound => not_found(
            "model_not_found"@,
            "model is not present in the local cache"@,
        ),
        ModelStoreError::Verification => bad_request(
            "model_verification_failed"@,
            "model content did not match its verified manifest"@,
        ),
        ModelStoreError::Io | ModelStoreError::Json => unavailable(
            "model storage is unavailable"@,
        ),
    }
}

/// Why no transport is chosen.
#[derive(Clone, Copy, Debug, PartialEq, Eq, Structural)]
pub enum NetworkError {
    NoTrustedTransport,
    RemoteDisabled,
    ManagedRelayDisabled,
    BandwidthQuotaExceeded,
    KillSwitchEngaged,
}

/// The code under which a client is told that no transport is chosen.
pub open spec fn network_code(error: NetworkError) -> Seq<char> {
    match error {
        NetworkError::NoTrustedTransport => "no_trusted_transport"@,
        NetworkError::RemoteDisabled => "remote_networking_disabled"@,
        NetworkError::ManagedRelayDisabled => "managed_relay_disabled"@,
        NetworkError::BandwidthQuotaExceeded => "bandwidth_quota_exceeded"@,
        NetworkError::KillSwitchEngaged => "remote_kill_switch_engaged"@,
    }
}

impl ApiError {
    pub open spec fn view(&self) -> ErrorView {
        ErrorView {
            status: self.status,
            code: self.code@,
            kind: self.kind@,
            message: self.message@,
        }
    }

    fn new(status: u16, code: &str, kind: &str, message: &str) -> (r: ApiError)
        ensures
            r@ == (ErrorView { status, code: code@, kind: kind@, message: message@ }),
    {
        ApiError {
            status,
            code: text::owned(code),
            kind: text::owned(kind),
            message: text::owned(message),
        }
    }

    /// A request that cannot be carried out as it is.
    pub fn bad_request(code: &str, message: &str) -> (r: ApiError)
        ensures
            r@ == bad_request(code@, message@),
    {
        ApiError::new(400, code, "invalid_request_error", message)
    }

    /// A request without valid credentials.
    pub fn unauthorized(message: &str) -> (r: ApiError)
        ensures
            r@ == unauthorized(message@),
    {
        ApiError::new(401, "unauthorized", "authentication_error", message)
    }

    /// A request that its principal may not make.
    pub fn forbidden(message: &str) -> (r: ApiError)
        ensures
            r@ == forbidden(message@),
    {
        ApiError::new(403, "forbidden", "permission_error", message)
    }

    /// One request too many.
    pub fn rate_limited(message: &str) -> (r: ApiError)
        ensures
            r@ == rate_limited(message@),
    {
        ApiError::new(429, "rate_limit_exceeded", "rate_limit_error", message)
    }

    /// A request for something that is not there.
    pub fn not_found(code: &str, message: &str) -> (r: ApiError)
        ensures
            r@ == not_found(code@, message@),
    {
        ApiError::new(404, code, "not_found_error", message)
    }

    /// A request that cannot be carried out now.
    pub fn unavailable(message: &str) -> (r: ApiError)
        ensures
            r@ == unavailable(message@),
    {
        ApiError::new(503, "unavailable", "server_error", message)
    }

    /// A generation that broke off.
    pub fn generation_interrupted(partial_output: bool) -> (r: ApiError)
        ensures
            r@ == generation_interrupted(partial_output),
    {
        ApiError::new(
            503,
            "generation_interrupted",
            "server_error",
            if partial_output {
                "generation was interrupted after output began; the partial output was not resumed"
            } else {
                "generation was interrupted before a terminal runtime event"
            },
        )
    }

    /// A generation that was cancelled.
    pub fn generation_cancelled() -> (r: ApiError)
        ensures
            r@ == generation_cancelled(),
    {
        ApiError::new(409, "cancelled", "invalid_request_error", "generation was cancelled")
    }

    /// A failed enrollment.
    pub fn identity(error: IdentityError) -> (r: ApiError)
        ensures
            r@ == identity(error),
    {
        match error {
            IdentityError::InvitationExpired => ApiError::new(
                410,
                "invitation_expired",
                "invalid_request_error",
                "enrollment invitation expired",
            ),
            IdentityError::InvitationInvalidated => ApiError::new(
                410,
                "invitation_invalidated",
                "authentication_error",
                "enrollment invitation is no longer valid",
            ),
            IdentityError::InvalidProof => ApiError::invalid_proof(),
            IdentityError::InvalidHandshake => ApiError::invalid_proof(),
            IdentityError::ApprovalRequired => ApiError::new(
                409,
                "approval_required",
                "invalid_request_error",
                "administrator approval is required",
            ),
            IdentityError::InvitationUnavailable => ApiError::invitation_unavailable(),
            IdentityError::SessionConsumed => ApiError::invitation_unavailable(),
            IdentityError::Certificate => ApiError::unavailable(
                "cluster certificate authority is unavailable",
            ),
        }
    }

    fn invalid_proof() -> (r: ApiError)
        ensures
            r@ == identity(IdentityError::InvalidProof),
    {
        ApiError::new(
            401,
            "invalid_enrollment_proof",
            "authentication_error",
            "enrollment proof is invalid",
        )
    }

    fn invitation_unavailable() -> (r: ApiError)
        ensures
            r@ == identity(IdentityError::InvitationUnavailable),
    {
        ApiError::not_found("invitation_unavailable", "enrollment invitation is unavailable")
    }

    /// A runtime's refusal.
    pub fn runtime(error: RuntimeError) -> (r: ApiError)
        ensures
            r@ == runtime(error),
    {
        match error {
            RuntimeError::ModelUnavailable => ApiError::not_found(
                "model_not_found",
                "requested model is unavailable",
            ),
            RuntimeError::UnsupportedFeature(feature) => ApiError::bad_request(
                "unsupported_feature",
                feature.as_str(),
            ),
            RuntimeError::Unavailable => ApiError::unavailable(
                "runtime could not execute the request",
            ),
            RuntimeError::Execution => ApiError::unavailable(
                "runtime could not execute the request",
            ),
        }
    }

    /// The model store's refusal.
    pub fn model_store(error: ModelStoreError) -> (r: ApiError)
        ensures
            r@ == model_store(error),
    {
        match error {
            ModelStoreError::InvalidAlias => ApiError::bad_request(
                "invalid_model_alias",
                "model alias is invalid",
            ),
            ModelStoreError::LicenseNotAccepted => ApiError::bad_request(
                "license_not_accepted",
                "model license must be accepted before import",
            ),
            ModelStoreError::NotFound => ApiError::not_found(
                "model_not_found",
                "model is not present in the local cache",
            ),
            ModelStoreError::Verification => ApiError::bad_request(
                "model_verification_failed",
                "model content did not match its verified manifest",
            ),
            ModelStoreError::Io => ApiError::unavailable("model storage is unavailable"),
            ModelStoreError::Json => ApiError::unavailable("model storage is unavailable"),
        }
    }

    /// That no transport is chosen, with what the network layer says of it.
    pub fn network(error: NetworkError, message: &str) -> (r: ApiError)
        ensures
            r@ == bad_request(network_code(error), message@),
    {
        let code = match error {
            NetworkError::NoTrustedTransport => "no_trusted_transport",
            NetworkError::RemoteDisabled => "remote_networking_disabled",
            NetworkError::ManagedRelayDisabled => "managed_relay_disabled",
            NetworkError::BandwidthQuotaExceeded => "bandwidth_quota_exceeded",
            NetworkError::KillSwitchEngaged => "remote_kill_switch_engaged",
        };
        ApiError::bad_request(code, message)
    }

    /// Encrypted content that cannot be had.
    pub fn secret() -> (r: ApiError)
        ensures
            r@ == secret(),
    {
        ApiError::new(
            503,
            "encrypted_content_unavailable",
            "server_error",
            "encrypted chat storage is unavailable on this device",
        )
    }

    /// What a client is answered: the status, and the error under a number by which it can be traced.
    pub fn into_response(self, trace_id: Uuid) -> (r: (u16, Json))
        ensures
            r.0 == self.status,
            r.1@ == JsonView::Object(
                fields1(
                    (
                        "error"@,
                        JsonView::Object(
                            fields5(
                                ("message"@, JsonView::Text(self.message@)),
                                ("type"@, JsonView::Text(self.kind@)),
                                ("code"@, JsonView::Text(self.code@)),
                                ("param"@, JsonView::Null),
                                ("trace_id"@, id_json(trace_id)),
                            ),
                        ),
                    ),
                ),
            ),
    {
        let error = Fields::new().text("message", self.message.as_str()).text(
            "type",
            self.kind.as_str(),
        ).text("code", self.code.as_str()).with("param", Json::Null).id("trace_id", trace_id);
        (self.status, Fields::new().with("error", error.object()).object())
    }

    /// A failure whose details stay inside.
    pub fn internal() -> (r: ApiError)
        ensures
            r@ == internal(),
    {
        ApiError::new(500, "internal_error", "server_error", "an internal error occurred")
    }
}

} // verus!
