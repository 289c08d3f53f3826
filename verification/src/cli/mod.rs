//! The command line: what a command asks of the controller, and what it makes of the answer.

use crate::api::auth::Method;
use crate::digest::{
    base64_fits, base64url_encode, base64url_encoded, hex, hex_of, sha256, sha256_of,
};
use crate::json::{
    is_json, json_document, json_has_at, json_text_at, json_value_at, has_at, text_at, value_at,
    Json, JsonView,
};
use crate::text;
use crate::web::{controller_address, controller_base, is_loopback_address, loopback_address};
use vstd::prelude::*;

pub mod chat;
pub mod commands;
pub mod enroll;
pub mod files;

verus! {

/// Why a command is not carried out.
#[derive(Clone, Copy, Debug, PartialEq, Eq, Structural)]
pub enum CliError {
    InsecureController,
    NoMembership,
    OversizedMembership,
    NoCertificate,
    NoAuthority,
    InvalidReference,
    UndecodableInputs,
    InputsNotObject,
    UndecodableMetadata,
    MetadataNotObject,
    LicenseNotAccepted,
    RemovalNotConfirmed,
    ChunkExists,
    ChunkCorrupt,
    InvalidBackup,
    EphemeralIdentity,
    MissingData,
    MalformedData,
    InvalidLength,
    InvalidProofLength,
    InvalidTranscript,
    InvalidProof,
    ApprovalTimedOut,
}

/// What the operator is told.
pub open spec fn cli_message(error: CliError) -> Seq<char> {
    match error {
        CliError::InsecureController => "non-loopback controllers must use HTTPS"@,
        CliError::NoMembership => "credential file does not contain an approved membership"@,
        CliError::OversizedMembership => "credential file is too large"@,
        CliError::NoCertificate => "credential file does not contain a device TLS certificate"@,
        CliError::NoAuthority => "credential file does not contain the pinned cluster CA"@,
        CliError::InvalidReference => "secret reference must be a 1-128 character identifier"@,
        CliError::UndecodableInputs => "decode workflow inputs"@,
        CliError::InputsNotObject => "workflow inputs must be a JSON object"@,
        CliError::UndecodableMetadata => "decode template metadata"@,
        CliError::MetadataNotObject => "template metadata must be a JSON object"@,
        CliError::LicenseNotAccepted => "model import requires --accept-license"@,
        CliError::RemovalNotConfirmed => "model removal requires --yes"@,
        CliError::ChunkExists => "model chunk destination already exists"@,
        CliError::ChunkCorrupt => "downloaded model chunk failed SHA-256 verification"@,
        CliError::InvalidBackup => "controller returned an invalid backup artifact"@,
        CliError::EphemeralIdentity => {
            "ephemeral device identity is restricted to loopback tests"@
        },
        CliError::MissingData => "controller enrollment response is missing data"@,
        CliError::MalformedData => "controller enrollment response is malformed"@,
        CliError::InvalidLength => "controller enrollment response has an invalid length"@,
        CliError::InvalidProofLength => "controller enrollment proof has an invalid length"@,
        CliError::InvalidTranscript => "controller returned an invalid enrollment transcript"@,
        CliError::InvalidProof => "controller enrollment proof is invalid"@,
        CliError::ApprovalTimedOut => {
            "device proof succeeded, but administrator approval timed out"@
        },
    }
}

impl CliError {
    /// What the operator is told.
    pub fn message(&self) -> (r: &'static str)
        ensures
            r@ == cli_message(*self),
    {
        match self {
            CliError::InsecureController => "non-loopback controllers must use HTTPS",
            CliError::NoMembership => "credential file does not contain an approved membership",
            CliError::OversizedMembership => "credential file is too large",
            CliError::NoCertificate => "credential file does not contain a device TLS certificate",
            CliError::NoAuthority => "credential file does not contain the pinned cluster CA",
            CliError::InvalidReference => "secret reference must be a 1-128 character identifier",
            CliError::UndecodableInputs => "decode workflow inputs",
            CliError::InputsNotObject => "workflow inputs must be a JSON object",
            CliError::UndecodableMetadata => "decode template metadata",
            CliError::MetadataNotObject => "template metadata must be a JSON object",
            CliError::LicenseNotAccepted => "model import requires --accept-license",
            CliError::RemovalNotConfirmed => "model removal requires --yes",
            CliError::ChunkExists => "model chunk destination already exists",
            CliError::ChunkCorrupt => "downloaded model chunk failed SHA-256 verification",
            CliError::InvalidBackup => "controller returned an invalid backup artifact",
            CliError::EphemeralIdentity => {
                "ephemeral device identity is restricted to loopback tests"
            },
            CliError::MissingData => "controller enrollment response is missing data",
            CliError::MalformedData => "controller enrollment response is malformed",
            CliError::InvalidLength => "controller enrollment response has an invalid length",
            CliError::InvalidProofLength => "controller enrollment proof has an invalid length",
            CliError::InvalidTranscript => "controller returned an invalid enrollment transcript",
            CliError::InvalidProof => "controller enrollment proof is invalid",
            CliError::ApprovalTimedOut => {
                "device proof succeeded, but administrator approval timed out"
            },
        }
    }
}

/// A request to the controller.
pub struct Request {
    pub method: Method,
    pub path: String,
    pub body: Option<Json>,
}

/// A request to the controller, as values.
#[verifier::ext_equal]
pub struct RequestView {
    pub method: Method,
    pub path: Seq<char>,
    pub body: Option<JsonView>,
}

impl Request {
    pub open spec fn view(&self) -> RequestView {
        RequestView {
            method: self.method,
            path: self.path@,
            body: match self.body {
                Some(body) => Some(body@),
                None => None,
            },
        }
    }
}

/// A request that reads something.
pub open spec fn reading(path: Seq<char>) -> RequestView {
    RequestView { method: Method::Get, path, body: None }
}

/// A request without a body that changes something.
pub open spec fn posting(path: Seq<char>) -> RequestView {
    RequestView { method: Method::Post, path, body: None }
}

/// A request with an object as its body.
pub open spec fn sending(
    method: Method,
    path: Seq<char>,
    fields: Seq<(Seq<char>, JsonView)>,
) -> RequestView {
    RequestView { method, path, body: Some(JsonView::Object(fields)) }
}

/// A request that reads something.
pub(crate) fn get(path: &str) -> (r: Request)
    ensures
        r@ == reading(path@),
{
    Request { method: Method::Get, path: text::owned(path), body: None }
}

/// A request without a body that changes something.
pub(crate) fn post(path: &str) -> (r: Request)
    ensures
        r@ == posting(path@),
{
    Request { method: Method::Post, path: text::owned(path), body: None }
}

/// A request with a body.
pub(crate) fn send(method: Method, path: &str, body: Json) -> (r: Request)
    ensures
        r@ == (RequestView { method, path: path@, body: Some(body@) }),
{
    Request { method, path: text::owned(path), body: Some(body) }
}

// ------------------------------------------------------------------------------------------------
// The controller

/// The controller that commands go to.
pub struct ControllerClient {
    pub base: String,
    pub api_key: Option<String>,
}

/// The two certificates of a membership: the device's own and that of the cluster's authority.
pub struct Certificates {
    pub certificate_pem: String,
    pub authority_pem: String,
}

/// The certificates that a credential holds.
pub open spec fn credential_certificates(membership: Seq<u8>) -> Result<
    (Seq<char>, Seq<char>),
    CliError,
> {
    match json_text_at(membership, "/device_certificate/certificate_pem"@) {
        None => Err(CliError::NoCertificate),
        Some(certificate) => match json_text_at(
            membership,
            "/device_certificate/certificate_authority_pem"@,
        ) {
            None => Err(CliError::NoAuthority),
            Some(authority) => Ok((certificate, authority)),
        },
    }
}

/// The part of a credential file that is sent along: its membership, or all of it.
pub open spec fn credential_part(membership: Seq<u8>) -> Option<Seq<u8>> {
    if json_has_at(membership, "/credential"@) {
        json_value_at(membership, "/credential"@)
    } else {
        json_value_at(membership, ""@)
    }
}

/// How JSON writes that there is nothing.
pub open spec fn null_text() -> Seq<u8> {
    seq![110u8, 117, 108, 108]
}

/// Whether an encoded value is null.
pub fn is_null(encoded: &[u8]) -> (r: bool)
    ensures
        r == (encoded@ == null_text()),
{
    let expected: [u8; 4] = [110, 117, 108, 108];
    assert(expected@ =~= null_text());
    text::same_bytes(encoded, expected.as_slice())
}

impl ControllerClient {
    /// The controller at an address. Other machines are reached by HTTPS only.
    pub fn new(base: &str, api_key: Option<String>) -> (r: Result<ControllerClient, CliError>)
        ensures
            match controller_address(base@) {
                Some(address) => r matches Ok(client) && client.base@ == address && client.api_key
                    == api_key,
                None => r == Err::<ControllerClient, _>(CliError::InsecureController),
            },
    {
        match controller_base(base) {
            Some(base) => Ok(ControllerClient { base, api_key }),
            None => Err(CliError::InsecureController),
        }
    }

    /// The address that a request goes to.
    pub fn address(&self, path: &str) -> (r: String)
        ensures
            r@ == self.base@ + path@,
    {
        text::join2(self.base.as_str(), path)
    }

    /// The certificates with which a member speaks to the controller; none are needed on this machine.
    pub fn membership_client(&self, membership: &[u8]) -> (r: Result<Option<Certificates>, CliError>)
        ensures
            if loopback_address(self.base@) {
                r == Ok::<Option<Certificates>, CliError>(None)
            } else {
                match credential_certificates(membership@) {
                    Ok((certificate, authority)) => r matches Ok(Some(c)) && c.certificate_pem@
                        == certificate && c.authority_pem@ == authority,
                    Err(error) => r == Err::<Option<Certificates>, _>(error),
                }
            },
    {
        if is_loopback_address(self.base.as_str()) {
            return Ok(None);
        }
        let certificate_pem = match text_at(membership, "/device_certificate/certificate_pem") {
            Some(certificate) => certificate,
            None => return Err(CliError::NoCertificate),
        };
        match text_at(membership, "/device_certificate/certificate_authority_pem") {
            Some(authority_pem) => Ok(Some(Certificates { certificate_pem, authority_pem })),
            None => Err(CliError::NoAuthority),
        }
    }
}

/// The header by which a member shows who it is, from its membership as it is encoded.
pub fn encoded_membership(part: &[u8]) -> (r: Result<String, CliError>)
    requires
        base64_fits(part@.len()),
    ensures
        if part@ == null_text() {
            r == Err::<String, _>(CliError::NoMembership)
        } else {
            r matches Ok(header) && header@ == base64url_encoded(part@)
        },
{
    if is_null(part) {
        return Err(CliError::NoMembership);
    }
    Ok(base64url_encode(part))
}

/// The header by which a member shows who it is, for a credential file that holds an approved
/// membership.
pub fn membership_header(membership: &[u8]) -> (r: Result<String, CliError>)
    ensures
        match credential_part(membership@) {
            None => r == Err::<String, _>(CliError::NoMembership),
            Some(part) => if part == null_text() {
                r == Err::<String, _>(CliError::NoMembership)
            } else if !base64_fits(part.len()) {
                r == Err::<String, _>(CliError::OversizedMembership)
            } else {
                r matches Ok(header) && header@ == base64url_encoded(part)
            },
        },
{
    let part = if has_at(membership, "/credential") {
        value_at(membership, "/credential")
    } else {
        value_at(membership, "")
    };
    match part {
        Some(part) => {
            assert(null_text().len() == 4);
            if (4 * part.len() as u128 + 2) / 3 > isize::MAX as u128 {
                return Err(CliError::OversizedMembership);
            }
            encoded_membership(part.as_slice())
        },
        None => Err(CliError::NoMembership),
    }
}

/// What a command makes of an answer.
pub enum Reply {
    /// Nothing was sent back, and all is well.
    Done,
    /// The answer is the value that was sent back.
    Value,
    /// What was sent back is no JSON.
    Undecodable,
    /// The controller refused, and says why.
    Rejected(String),
}

/// What a command makes of an answer, as values.
pub enum ReplyView {
    Done,
    Value,
    Undecodable,
    Rejected(Seq<char>),
}

impl Reply {
    pub open spec fn view(&self) -> ReplyView {
        match self {
            Reply::Done => ReplyView::Done,
            Reply::Value => ReplyView::Value,
            Reply::Undecodable => ReplyView::Undecodable,
            Reply::Rejected(message) => ReplyView::Rejected(message@),
        }
    }
}

/// Whether a status tells of success.
pub open spec fn success(status: u16) -> bool {
    200 <= status < 300
}

/// What an answer with a body means: the value, or why the controller refused.
pub open spec fn value_or_refusal(status: u16, body: Seq<u8>, otherwise: Seq<char>) -> ReplyView {
    if !json_document(body) {
        ReplyView::Undecodable
    } else if success(status) {
        ReplyView::Value
    } else {
        match json_text_at(body, "/error/message"@) {
            Some(message) => ReplyView::Rejected(message),
            None => ReplyView::Rejected(otherwise),
        }
    }
}

/// What an answer with a body means.
pub(crate) fn value_or_rejected(status: u16, body: &[u8], otherwise: &str) -> (r: Reply)
    ensures
        r@ == value_or_refusal(status, body@, otherwise@),
{
    if !is_json(body) {
        return Reply::Undecodable;
    }
    if 200 <= status && status < 300 {
        return Reply::Value;
    }
    match text_at(body, "/error/message") {
        Some(message) => Reply::Rejected(message),
        None => Reply::Rejected(text::owned(otherwise)),
    }
}

/// What the answer to a command means. One without content says that all is well.
pub open spec fn command_reply(status: u16, body: Seq<u8>) -> ReplyView {
    if status == 204 {
        ReplyView::Done
    } else {
        value_or_refusal(status, body, "controller rejected the operation"@)
    }
}

/// What the answer to a command means.
pub fn json(status: u16, body: &[u8]) -> (r: Reply)
    ensures
        r@ == command_reply(status, body@),
{
    if status == 204 {
        return Reply::Done;
    }
    value_or_rejected(status, body, "controller rejected the operation")
}

/// What the answer to a member means.
pub fn json_with_membership(status: u16, body: &[u8]) -> (r: Reply)
    ensures
        r@ == value_or_refusal(status, body@, "controller rejected the membership operation"@),
{
    value_or_rejected(status, body, "controller rejected the membership operation")
}

/// Where a chunk of a model is downloaded from.
pub fn chunk_path(chunk_sha256: &str) -> (r: String)
    ensures
        r@ == "/constellation/v1/models/chunks/"@ + chunk_sha256@,
{
    text::join2("/constellation/v1/models/chunks/", chunk_sha256)
}

/// Checks a chunk against the digest that it was asked for by.
pub fn download_chunk(bytes: &[u8], chunk_sha256: &str) -> (r: Result<(), CliError>)
    ensures
        r == (if hex(sha256(bytes@)) == chunk_sha256@ {
            Ok(())
        } else {
            Err(CliError::ChunkCorrupt)
        }),
{
    if text::same(hex_of(sha256_of(bytes).as_slice()).as_str(), chunk_sha256) {
        Ok(())
    } else {
        Err(CliError::ChunkCorrupt)
    }
}

/// Checks that a backup begins as a SQLite database does.
pub fn download_backup(bytes: &[u8]) -> (r: Result<(), CliError>)
    ensures
        r == (if crate::restore::sqlite_header().is_prefix_of(bytes@) {
            Ok(())
        } else {
            Err(CliError::InvalidBackup)
        }),
{
    proof {
        assert(crate::restore::sqlite_header().len() == 16);
    }
    if bytes.len() < 16 {
        return Err(CliError::InvalidBackup);
    }
    let head = vstd::slice::slice_subrange(bytes, 0, 16);
    proof {
        assert(head@ == bytes@.take(16));
        assert(crate::restore::sqlite_header().is_prefix_of(bytes@) == (head@
            =~= crate::restore::sqlite_header()));
    }
    if crate::restore::is_sqlite_header(head) {
        Ok(())
    } else {
        Err(CliError::InvalidBackup)
    }
}

/// An answer of the controller is its value where it succeeded, and else the reason that it names, or the one
/// that stands in for it; what is no JSON is told as such.
pub proof fn law_answers_are_told_as_they_are(
    status: u16,
    body: Seq<u8>,
    otherwise: Seq<char>,
    message: Seq<char>,
)
    ensures
        success(status) <==> 200 <= status <= 299,
        json_document(body) && success(status) ==> value_or_refusal(status, body, otherwise) is Value,
        !json_document(body) ==> value_or_refusal(status, body, otherwise) is Undecodable,
        json_document(body) && !success(status) && json_text_at(body, "/error/message"@) == Some(message)
            ==> value_or_refusal(status, body, otherwise) == ReplyView::Rejected(message),
        json_document(body) && !success(status) && json_text_at(body, "/error/message"@) is None
            ==> value_or_refusal(status, body, otherwise) == ReplyView::Rejected(otherwise),
{
}

} // verus!
