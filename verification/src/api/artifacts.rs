//! What goes with a workflow: artifacts, templates and webhooks.

use crate::api::workflows::{text_views, ARTIFACT_LIMIT};
use crate::api::{
    bad_request, forbidden, not_found, unauthorized, unavailable, ApiError, ErrorView,
};
use crate::digest::{
    base64url_decode, base64url_decoded, base64url_encoded, decode_sha256, equal_in_constant_time,
    hex, hex_of, in_either_case, law_a_written_digest_reads_back, pair_value, random_text, sha256,
    sha256_of, writes_sha256,
};
use crate::ident::{big_endian, format_uuid, hyphenated, law_hyphenated_is_injective, Uuid};
use crate::repository::Webhook;
use crate::text;
use crate::text::is_blank;
use vstd::prelude::*;
use vstd::utf8::{encode_utf8, is_ascii_chars_encode_utf8};

verus! {

// ------------------------------------------------------------------------------------------------
// Artifacts

/// What is known of an artifact without its content.
pub struct ArtifactMetadata {
    pub id: Uuid,
    pub run_id: Uuid,
    pub step_id: String,
    pub name: String,
    pub media_type: String,
    pub sha256: String,
    pub size_bytes: u64,
    pub storage_key: String,
    pub created_at: i128,
}

/// What is known of an artifact without its content, as values.
pub struct ArtifactView {
    pub id: Uuid,
    pub run_id: Uuid,
    pub step_id: Seq<char>,
    pub name: Seq<char>,
    pub media_type: Seq<char>,
    pub sha256: Seq<char>,
    pub size_bytes: u64,
    pub storage_key: Seq<char>,
    pub created_at: i128,
}

impl ArtifactMetadata {
    pub open spec fn view(&self) -> ArtifactView {
        ArtifactView {
            id: self.id,
            run_id: self.run_id,
            step_id: self.step_id@,
            name: self.name@,
            media_type: self.media_type@,
            sha256: self.sha256@,
            size_bytes: self.size_bytes,
            storage_key: self.storage_key@,
            created_at: self.created_at,
        }
    }
}

/// What is known of an artifact with a given content.
pub open spec fn artifact_of(
    id: Uuid,
    run_id: Uuid,
    step_id: Seq<char>,
    name: Seq<char>,
    media_type: Seq<char>,
    content: Seq<u8>,
    now: i128,
) -> ArtifactView {
    ArtifactView {
        id,
        run_id,
        step_id,
        name,
        media_type,
        sha256: hex(sha256(content)),
        size_bytes: content.len() as u64,
        storage_key: hyphenated(id),
        created_at: now,
    }
}

/// Describes an artifact that a step has left; it may not be larger than 16 MiB.
pub fn store_workflow_artifact(
    id: Uuid,
    run_id: Uuid,
    step_id: String,
    name: String,
    media_type: String,
    content: &[u8],
    now: i128,
) -> (r: Result<ArtifactMetadata, ApiError>)
    ensures
        r is Ok == (content@.len() <= ARTIFACT_LIMIT),
        r matches Ok(metadata) ==> metadata@ == artifact_of(
            id,
            run_id,
            step_id@,
            name@,
            media_type@,
            content@,
            now,
        ),
        r matches Err(error) ==> error@ == bad_request(
            "workflow_artifact_too_large"@,
            "workflow artifact exceeds the 16 MiB limit"@,
        ),
{
    if content.len() > ARTIFACT_LIMIT {
        return Err(
            ApiError::bad_request(
                "workflow_artifact_too_large",
                "workflow artifact exceeds the 16 MiB limit",
            ),
        );
    }
    Ok(
        ArtifactMetadata {
            id,
            run_id,
            step_id,
            name,
            media_type,
            sha256: hex_of(sha256_of(content).as_slice()),
            size_bytes: content.len() as u64,
            storage_key: format_uuid(id),
            created_at: now,
        },
    )
}

/// An artifact that a client hands over.
pub struct WorkflowArtifactRequest {
    pub step_id: String,
    pub name: String,
    pub media_type: String,
    pub content_base64: String,
}

/// Whether a text has at least one and at most `limit` bytes.
pub open spec fn fits(text: Seq<char>, limit: nat) -> bool {
    0 < encode_utf8(text).len() <= limit
}

/// Whether a text has at least one and at most `limit` bytes.
pub fn is_within(value: &str, limit: usize) -> (r: bool)
    ensures
        r == fits(value@, limit as nat),
{
    let n: usize = text::byte_len(value);
    0 < n && n <= limit
}

/// Whether what a client says of an artifact is within its bounds.
pub open spec fn artifact_request_fits(input: WorkflowArtifactRequest) -> bool {
    &&& fits(input.step_id@, 64)
    &&& fits(input.name@, 128)
    &&& fits(input.media_type@, 128)
    &&& encode_utf8(input.content_base64@).len() <= 25_165_824
}

/// Why an artifact that a client hands over is refused, where it is. The steps are those of its run,
/// or why the run could not be had.
pub open spec fn artifact_refusal(
    input: WorkflowArtifactRequest,
    steps: Result<Vec<String>, ApiError>,
) -> Option<ErrorView> {
    if !artifact_request_fits(input) {
        Some(
            bad_request(
                "invalid_workflow_artifact"@,
                "artifact metadata or encoded content exceeds its bound"@,
            ),
        )
    } else {
        match steps {
            Err(error) => Some(error@),
            Ok(steps) => if !text_views(steps@).contains(input.step_id@) {
                Some(
                    bad_request(
                        "invalid_workflow_artifact"@,
                        "artifact step does not exist in this run"@,
                    ),
                )
            } else {
                match base64url_decoded(input.content_base64@) {
                    None => Some(
                        bad_request(
                            "invalid_workflow_artifact"@,
                            "artifact content is not valid base64url"@,
                        ),
                    ),
                    Some(content) => if content.len() > ARTIFACT_LIMIT {
                        Some(
                            bad_request(
                                "workflow_artifact_too_large"@,
                                "artifact exceeds the 16 MiB limit"@,
                            ),
                        )
                    } else {
                        None
                    },
                }
            },
        }
    }
}

/// Takes an artifact from a client, for a step that its run has, and gives its content.
pub fn create_workflow_artifact(
    id: Uuid,
    run_id: Uuid,
    input: WorkflowArtifactRequest,
    steps: Result<Vec<String>, ApiError>,
    now: i128,
) -> (r: Result<(ArtifactMetadata, Vec<u8>), ApiError>)
    ensures
        r is Err == artifact_refusal(input, steps) is Some,
        r matches Err(error) ==> artifact_refusal(input, steps) == Some(error@),
        r matches Ok((metadata, content)) ==> base64url_decoded(input.content_base64@) == Some(
            content@,
        ) && metadata@ == artifact_of(
            id,
            run_id,
            input.step_id@,
            input.name@,
            input.media_type@,
            content@,
            now,
        ),
{
    if !is_within(input.step_id.as_str(), 64) || !is_within(input.name.as_str(), 128) || !is_within(
        input.media_type.as_str(),
        128,
    ) || text::byte_len(input.content_base64.as_str()) > 25_165_824 {
        return Err(
            ApiError::bad_request(
                "invalid_workflow_artifact",
                "artifact metadata or encoded content exceeds its bound",
            ),
        );
    }
    let known: Vec<String> = match steps {
        Ok(known) => known,
        Err(error) => return Err(error),
    };
    if !holds_text(known.as_slice(), input.step_id.as_str()) {
        return Err(
            ApiError::bad_request(
                "invalid_workflow_artifact",
                "artifact step does not exist in this run",
            ),
        );
    }
    let content: Vec<u8> = match base64url_decode(input.content_base64.as_str()) {
        Some(content) => content,
        None => return Err(
            ApiError::bad_request(
                "invalid_workflow_artifact",
                "artifact content is not valid base64url",
            ),
        ),
    };
    if content.len() > ARTIFACT_LIMIT {
        return Err(
            ApiError::bad_request(
                "workflow_artifact_too_large",
                "artifact exceeds the 16 MiB limit",
            ),
        );
    }
    let metadata = ArtifactMetadata {
        id,
        run_id,
        step_id: input.step_id,
        name: input.name,
        media_type: input.media_type,
        sha256: hex_of(sha256_of(content.as_slice()).as_slice()),
        size_bytes: content.len() as u64,
        storage_key: format_uuid(id),
        created_at: now,
    };
    Ok((metadata, content))
}

/// Whether a text is one of several.
pub fn holds_text(texts: &[String], wanted: &str) -> (r: bool)
    ensures
        r == text_views(texts@).contains(wanted@),
{
    let mut i: usize = 0;
    while i < texts.len()
        invariant
            i <= texts@.len(),
            forall|j: int| 0 <= j < i ==> #[trigger] text_views(texts@)[j] != wanted@,
        decreases texts@.len() - i,
    {
        if text::same(texts[i].as_str(), wanted) {
            assert(text_views(texts@)[i as int] == wanted@);
            return true;
        }
        i += 1;
    }
    false
}

/// Checks the content of an artifact that was opened against the digest that was stored with it.
pub fn download_workflow_artifact(content: &[u8], stored_sha256: &str) -> (r: Result<(), ApiError>)
    ensures
        r is Ok == (hex(sha256(content@)) == stored_sha256@),
        r matches Err(error) ==> error@ == unavailable(
            "workflow artifact integrity verification failed"@,
        ),
{
    if text::same(hex_of(sha256_of(content).as_slice()).as_str(), stored_sha256) {
        Ok(())
    } else {
        Err(ApiError::unavailable("workflow artifact integrity verification failed"))
    }
}

/// An artifact that comes back as it was stored passes the check of its digest.
pub proof fn law_a_stored_artifact_verifies(
    id: Uuid,
    run_id: Uuid,
    step_id: Seq<char>,
    name: Seq<char>,
    media_type: Seq<char>,
    content: Seq<u8>,
    now: i128,
)
    ensures
        hex(sha256(content)) == artifact_of(id, run_id, step_id, name, media_type, content, now).sha256,
{
}

// ------------------------------------------------------------------------------------------------
// Templates

/// Checks a template: its name, and its metadata, which is an object that was encoded to so many
/// bytes.
pub fn create_workflow_template(
    name: &str,
    metadata_is_object: bool,
    metadata_bytes: usize,
) -> (r: Result<(), ApiError>)
    ensures
        r is Ok == (!is_blank(name@) && encode_utf8(name@).len() <= 128 && metadata_is_object
            && metadata_bytes <= 16_384),
        r matches Err(error) ==> error@ == bad_request(
            "invalid_template"@,
            "template name or declarative metadata is outside its bound"@,
        ),
{
    if text::blank(name) || text::byte_len(name) > 128 || !metadata_is_object || metadata_bytes
        > 16_384 {
        return Err(
            ApiError::bad_request(
                "invalid_template",
                "template name or declarative metadata is outside its bound",
            ),
        );
    }
    Ok(())
}

/// The name of a workflow that is made from a template: the one that is asked for, or the template's
/// with a mark.
pub fn instantiate_workflow_template(name: Option<String>, template_name: &str) -> (r: String)
    ensures
        r@ == (match name {
            Some(name) => name@,
            None => template_name@ + " copy"@,
        }),
{
    match name {
        Some(name) => name,
        None => text::join2(template_name, " copy"),
    }
}

// ------------------------------------------------------------------------------------------------
// Webhooks

/// Whether a secret is the one whose digest is stored.
pub open spec fn opens(stored_sha256: Seq<char>, secret: Seq<char>) -> bool {
    let digest = sha256(encode_utf8(secret));
    &&& writes_sha256(stored_sha256)
    &&& digest.len() == 32
    &&& forall|i: int|
        0 <= i < 32 ==> pair_value(
            encode_utf8(stored_sha256)[2 * i],
            encode_utf8(stored_sha256)[2 * i + 1],
        ) == Some((#[trigger] digest[i]) as int)
}

/// A webhook's secret, which is shown once, and the digest that is kept of it.
pub struct WebhookSecret {
    pub secret: String,
    pub secret_sha256: String,
}

/// Makes a webhook's secret from two random identifiers. What is kept of it opens to it.
pub fn create_workflow_webhook(first: Uuid, second: Uuid) -> (r: WebhookSecret)
    ensures
        r.secret@ == base64url_encoded(big_endian(first) + big_endian(second)),
        r.secret_sha256@ == hex(sha256(encode_utf8(r.secret@))),
        encode_utf8(r.secret@).len() <= 256,
        opens(r.secret_sha256@, r.secret@),
{
    let secret = random_text(first, second);
    let digest = sha256_of(secret.as_str().as_bytes());
    let secret_sha256 = hex_of(digest.as_slice());
    proof {
        is_ascii_chars_encode_utf8(secret@);
        law_a_written_digest_reads_back(digest@, hex(digest@));
    }
    WebhookSecret { secret, secret_sha256 }
}

/// Why a webhook does not start its workflow, where it does not.
pub open spec fn webhook_refusal(webhook: Option<Webhook>, secret: Option<Seq<char>>) -> Option<
    ErrorView,
> {
    match webhook {
        None => Some(not_found("workflow_webhook_not_found"@, "webhook does not exist"@)),
        Some(webhook) => if !webhook.enabled {
            Some(forbidden("workflow webhook is disabled"@))
        } else {
            match secret {
                Some(secret) if encode_utf8(secret).len() <= 256 => if !writes_sha256(
                    webhook.secret_sha256@,
                ) {
                    Some(unavailable("workflow webhook credential record is corrupted"@))
                } else if !opens(webhook.secret_sha256@, secret) {
                    Some(unauthorized("workflow webhook secret is invalid"@))
                } else {
                    None
                },
                _ => Some(unauthorized("workflow webhook secret is required"@)),
            }
        },
    }
}

/// What an optional reference refers to.
pub open spec fn referent(webhook: Option<&Webhook>) -> Option<Webhook> {
    match webhook {
        Some(webhook) => Some(*webhook),
        None => None,
    }
}

/// The workflow that a webhook starts for a request with a secret.
pub fn trigger_workflow_webhook(webhook: Option<&Webhook>, secret: Option<&str>) -> (r: Result<
    Uuid,
    ApiError,
>)
    ensures
        r is Err == webhook_refusal(
            referent(webhook),
            crate::api::workflows::optional_str(secret),
        ) is Some,
        r matches Err(error) ==> webhook_refusal(
            referent(webhook),
            crate::api::workflows::optional_str(secret),
        ) == Some(error@),
        r matches Ok(workflow) ==> webhook is Some && workflow == webhook->0.workflow_id,
{
    let webhook: &Webhook = match webhook {
        Some(webhook) => webhook,
        None => return Err(
            ApiError::not_found("workflow_webhook_not_found", "webhook does not exist"),
        ),
    };
    if !webhook.enabled {
        return Err(ApiError::forbidden("workflow webhook is disabled"));
    }
    let secret: &str = match secret {
        Some(secret) => secret,
        None => return Err(ApiError::unauthorized("workflow webhook secret is required")),
    };
    if text::byte_len(secret) > 256 {
        return Err(ApiError::unauthorized("workflow webhook secret is required"));
    }
    let actual = sha256_of(secret.as_bytes());
    let expected: [u8; 32] = match decode_sha256(webhook.secret_sha256.as_str()) {
        Some(expected) => expected,
        None => return Err(
            ApiError::unavailable("workflow webhook credential record is corrupted"),
        ),
    };
    let equal: bool = equal_in_constant_time(actual.as_slice(), expected.as_slice());
    proof {
        let stored = encode_utf8(webhook.secret_sha256@);
        if equal {
            assert forall|i: int| 0 <= i < 32 implies pair_value(stored[2 * i], stored[2 * i + 1])
                == Some((#[trigger] actual@[i]) as int) by {
                assert(expected@[i] == actual@[i]);
            }
        } else if opens(webhook.secret_sha256@, secret@) {
            assert forall|i: int| 0 <= i < 32 implies expected@[i] == actual@[i] by {
                assert(pair_value(stored[2 * i], stored[2 * i + 1]) == Some(expected@[i] as int));
                assert(pair_value(stored[2 * i], stored[2 * i + 1]) == Some(actual@[i] as int));
            }
            assert(actual@ =~= expected@);
        }
    }
    if !equal {
        return Err(ApiError::unauthorized("workflow webhook secret is invalid"));
    }
    Ok(webhook.workflow_id)
}

/// A webhook that is disabled starts nothing, whatever the secret is.
pub proof fn law_a_disabled_webhook_starts_nothing(webhook: Webhook, secret: Option<Seq<char>>)
    requires
        !webhook.enabled,
    ensures
        webhook_refusal(Some(webhook), secret) is Some,
{
}

/// Only a secret with the digest that is kept starts a workflow.
pub proof fn law_only_the_secret_opens(webhook: Webhook, secret: Option<Seq<char>>)
    requires
        webhook_refusal(Some(webhook), secret) is None,
    ensures
        secret is Some,
        opens(webhook.secret_sha256@, secret->0),
{
}

/// What is stored of an artifact describes its very content: its size, and a digest that equal contents share;
/// and no two artifacts are stored under one key.
pub proof fn law_an_artifact_describes_its_content(
    id: Uuid,
    run_id: Uuid,
    step_id: Seq<char>,
    name: Seq<char>,
    media_type: Seq<char>,
    content: Seq<u8>,
    now: i128,
    other_id: Uuid,
)
    requires
        content.len() <= u64::MAX,
    ensures
        ({
            let a = artifact_of(id, run_id, step_id, name, media_type, content, now);
            let b = artifact_of(other_id, run_id, step_id, name, media_type, content, now);
            &&& a.size_bytes == content.len()
            &&& a.sha256 == b.sha256
            &&& a.storage_key == b.storage_key ==> id == other_id
            &&& a.id == id && a.run_id == run_id
            &&& a.step_id == step_id && a.name == name && a.media_type == media_type
            &&& a.created_at == now
        }),
{
    if hyphenated(id) == hyphenated(other_id) {
        law_hyphenated_is_injective(id, other_id);
    }
}

/// An artifact is taken where its step is one of the run, its names are short, and its content is encoded and
/// holds at most 16 MiB; one of exactly that size is still taken.
pub proof fn law_sound_artifacts_are_taken(
    input: WorkflowArtifactRequest,
    steps: Vec<String>,
    content: Seq<u8>,
)
    requires
        base64url_decoded(input.content_base64@) == Some(content),
    ensures
        artifact_refusal(input, Ok(steps)) is None <==> {
            &&& 1 <= encode_utf8(input.step_id@).len() <= 64
            &&& 1 <= encode_utf8(input.name@).len() <= 128
            &&& 1 <= encode_utf8(input.media_type@).len() <= 128
            &&& encode_utf8(input.content_base64@).len() <= 25_165_824
            &&& text_views(steps@).contains(input.step_id@)
            &&& content.len() <= 16_777_216
        },
{
}

/// A webhook is opened by the secret whose digest was stored, in lower or upper case, as long as it is enabled
/// and the secret is not too long.
pub proof fn law_the_secret_opens(webhook: Webhook, secret: Seq<char>)
    requires
        webhook.enabled,
        encode_utf8(secret).len() <= 256,
        sha256(encode_utf8(secret)).len() == 32,
        in_either_case(webhook.secret_sha256@, sha256(encode_utf8(secret))),
    ensures
        webhook_refusal(Some(webhook), Some(secret)) is None,
{
    law_a_written_digest_reads_back(sha256(encode_utf8(secret)), webhook.secret_sha256@);
}

} // verus!
