//! What the columns of a row say: identifiers, moments and numbers are read, and refused where they
//! cannot be.

use crate::clock::{
    has_plain_year, moment_text, read_moment_text, read_rfc3339, rest_of, rfc3339_text, seconds_of,
    write_moment,
};
use crate::ident::{format_uuid, hyphenated, parse_uuid, parsed_uuid, Uuid};
use crate::json::{is_json, json_document};
use crate::names::{
    os_named, role_named, status_named, str_to_os, str_to_role, str_to_status, Permission, Role,
};
use crate::repository::nodes::InvitationStatus;
use crate::repository::workflows::{run_status_str, run_word};
use crate::repository::{
    ControllerLease, EncryptedContent, EncryptedWorkflowRun, Node, Repository, RepositoryView,
    RunStatus, StoredStatus,
};
use crate::text;
use vstd::prelude::*;
use vstd::slice::slice_to_vec;
use vstd::utf8::encode_utf8;

verus! {

/// Why a row cannot be read.
#[derive(Clone, Copy, Debug, PartialEq, Eq, Structural)]
pub enum RowError {
    /// An identifier is not a UUID.
    Identifier,
    /// A moment is not written as one.
    Moment,
    /// A number lies outside of its range.
    Number,
    /// A document is not what it should be.
    Document,
}

/// The identifier in a column.
pub open spec fn read_id(column: Seq<char>) -> Result<Uuid, RowError> {
    match parsed_uuid(column) {
        Some(id) => Ok(id),
        None => Err(RowError::Identifier),
    }
}

fn id_of(column: &str) -> (r: Result<Uuid, RowError>)
    ensures
        r == read_id(column@),
{
    match parse_uuid(column) {
        Some(id) => Ok(id),
        None => Err(RowError::Identifier),
    }
}

/// The moment in a column.
pub open spec fn read_moment(column: Seq<char>) -> Result<i128, RowError> {
    match read_rfc3339(column) {
        Some(moment) => Ok(moment),
        None => Err(RowError::Moment),
    }
}

fn moment_of(column: &str) -> (r: Result<i128, RowError>)
    ensures
        r == read_moment(column@),
        forall|known: i128| #[trigger] says_moment(column@, known) ==> r == Ok::<i128, RowError>(known),
{
    match read_moment_text(column) {
        Some(moment) => Ok(moment),
        None => Err(RowError::Moment),
    }
}

/// Whether a column was written of a moment in a year of four digits.
pub open spec fn says_moment(column: Seq<char>, moment: i128) -> bool {
    has_plain_year(moment) && rfc3339_text(seconds_of(moment), rest_of(moment)) == Some(column)
}

/// The small number in a column.
pub open spec fn read_u8(column: i64) -> Result<u8, RowError> {
    if 0 <= column <= u8::MAX {
        Ok(column as u8)
    } else {
        Err(RowError::Number)
    }
}

fn u8_of(column: i64) -> (r: Result<u8, RowError>)
    ensures
        r == read_u8(column),
{
    if 0 <= column && column <= 255 {
        Ok(column as u8)
    } else {
        Err(RowError::Number)
    }
}

/// The number in a column that is not negative.
pub open spec fn read_u64(column: i64) -> Result<u64, RowError> {
    if 0 <= column {
        Ok(column as u64)
    } else {
        Err(RowError::Number)
    }
}

fn u64_of(column: i64) -> (r: Result<u64, RowError>)
    ensures
        r == read_u64(column),
{
    if 0 <= column {
        Ok(column as u64)
    } else {
        Err(RowError::Number)
    }
}

/// The first of two failures.
pub open spec fn first_failure<A, B>(a: Result<A, RowError>, b: Result<B, RowError>) -> Option<
    RowError,
> {
    match a {
        Err(error) => Some(error),
        Ok(_) => match b {
            Err(error) => Some(error),
            Ok(_) => None,
        },
    }
}

/// The first of three failures.
pub open spec fn first_of_three<A, B, C>(
    a: Result<A, RowError>,
    b: Result<B, RowError>,
    c: Result<C, RowError>,
) -> Option<RowError> {
    match a {
        Err(error) => Some(error),
        Ok(_) => first_failure(b, c),
    }
}

/// The first of four failures.
pub open spec fn first_of_four<A, B, C, D>(
    a: Result<A, RowError>,
    b: Result<B, RowError>,
    c: Result<C, RowError>,
    d: Result<D, RowError>,
) -> Option<RowError> {
    match a {
        Err(error) => Some(error),
        Ok(_) => first_of_three(b, c, d),
    }
}

/// A document that was decoded, or that could not be.
pub open spec fn read_document<A>(decoded: Option<A>) -> Result<A, RowError> {
    match decoded {
        Some(document) => Ok(document),
        None => Err(RowError::Document),
    }
}

/// A text that has to be one JSON document.
pub open spec fn read_json(column: Seq<char>) -> Result<(), RowError> {
    if json_document(encode_utf8(column)) {
        Ok(())
    } else {
        Err(RowError::Document)
    }
}

fn json_of(column: &str) -> (r: Result<(), RowError>)
    ensures
        r == read_json(column@),
{
    if is_json(column.as_bytes()) {
        Ok(())
    } else {
        Err(RowError::Document)
    }
}

/// The columns of a node. The capabilities come decoded, or not at all where they could not be.
pub struct NodeColumns {
    pub id: String,
    pub name: String,
    pub os: String,
    pub architecture: String,
    pub status: String,
    pub capabilities: Option<String>,
    pub last_seen_at: String,
}

/// The node in a row.
pub fn decode_node(row: NodeColumns) -> (r: Result<Node, RowError>)
    ensures
        match r {
            Ok(node) => {
                &&& read_id(row.id@) == Ok::<Uuid, RowError>(node.id)
                &&& node.name == row.name
                &&& node.os == os_named(row.os@)
                &&& node.architecture == row.architecture
                &&& node.status == status_named(row.status@)
                &&& row.capabilities == Some(node.capabilities)
                &&& read_moment(row.last_seen_at@) == Ok::<i128, RowError>(node.last_seen_at)
            },
            Err(error) => first_of_three(
                read_id(row.id@),
                read_document(row.capabilities),
                read_moment(row.last_seen_at@),
            ) == Some(error),
        },
{
    let id: Uuid = match id_of(row.id.as_str()) {
        Ok(id) => id,
        Err(error) => return Err(error),
    };
    let os = str_to_os(row.os.as_str());
    let status = str_to_status(row.status.as_str());
    let capabilities = match row.capabilities {
        Some(capabilities) => capabilities,
        None => return Err(RowError::Document),
    };
    match moment_of(row.last_seen_at.as_str()) {
        Ok(last_seen_at) => Ok(
            Node {
                id,
                name: row.name,
                os,
                architecture: row.architecture,
                status,
                capabilities,
                last_seen_at,
            },
        ),
        Err(error) => Err(error),
    }
}

/// The controller lease in a row.
pub fn decode_controller_lease(
    controller_id: &str,
    term: i64,
    fencing_token: i64,
    expires_at: &str,
) -> (r: Result<ControllerLease, RowError>)
    ensures
        match r {
            Ok(lease) => {
                &&& read_id(controller_id@) == Ok::<Uuid, RowError>(lease.controller_id)
                &&& read_u64(term) == Ok::<u64, RowError>(lease.term)
                &&& read_u64(fencing_token) == Ok::<u64, RowError>(lease.fencing_token)
                &&& read_moment(expires_at@) == Ok::<i128, RowError>(lease.expires_at)
            },
            Err(error) => first_of_four(
                read_id(controller_id@),
                read_u64(term),
                read_u64(fencing_token),
                read_moment(expires_at@),
            ) == Some(error),
        },
{
    let controller_id: Uuid = match id_of(controller_id) {
        Ok(id) => id,
        Err(error) => return Err(error),
    };
    let term: u64 = match u64_of(term) {
        Ok(term) => term,
        Err(error) => return Err(error),
    };
    let fencing_token: u64 = match u64_of(fencing_token) {
        Ok(token) => token,
        Err(error) => return Err(error),
    };
    match moment_of(expires_at) {
        Ok(expires_at) => Ok(ControllerLease { controller_id, term, fencing_token, expires_at }),
        Err(error) => Err(error),
    }
}

/// When an event happened that is stored with its payload, which has to be a document.
pub fn decode_event(payload: &str, created_at: &str) -> (r: Result<i128, RowError>)
    ensures
        match r {
            Ok(moment) => read_json(payload@) is Ok && read_moment(created_at@) == Ok::<
                i128,
                RowError,
            >(moment),
            Err(error) => first_failure(read_json(payload@), read_moment(created_at@)) == Some(
                error,
            ),
        },
{
    match json_of(payload) {
        Ok(()) => moment_of(created_at),
        Err(error) => Err(error),
    }
}

/// An installed plugin as it is listed.
pub struct InstalledPluginRecord {
    pub manifest: String,
    pub component_path: String,
    pub enabled: bool,
}

/// The plugin in a row. The manifest comes decoded, or not at all where it could not be.
pub fn decode_plugin_record(manifest: Option<String>, component_path: String, enabled: i64) -> (r:
    Result<InstalledPluginRecord, RowError>)
    ensures
        match r {
            Ok(record) => manifest == Some(record.manifest) && record.component_path
                == component_path && record.enabled == (enabled != 0),
            Err(error) => manifest is None && error == RowError::Document,
        },
{
    match manifest {
        Some(manifest) => Ok(
            InstalledPluginRecord { manifest, component_path, enabled: enabled != 0 },
        ),
        None => Err(RowError::Document),
    }
}

/// A template as it is listed.
pub struct WorkflowTemplateSummary {
    pub id: Uuid,
    pub name: String,
    pub workflow_id: Uuid,
    pub metadata: String,
    pub created_at: i128,
}

/// The template in a row.
pub fn decode_workflow_template(
    id: &str,
    name: String,
    workflow_id: &str,
    metadata: String,
    created_at: &str,
) -> (r: Result<WorkflowTemplateSummary, RowError>)
    ensures
        match r {
            Ok(template) => {
                &&& read_id(id@) == Ok::<Uuid, RowError>(template.id)
                &&& template.name == name
                &&& read_id(workflow_id@) == Ok::<Uuid, RowError>(template.workflow_id)
                &&& read_json(metadata@) is Ok
                &&& template.metadata == metadata
                &&& read_moment(created_at@) == Ok::<i128, RowError>(template.created_at)
            },
            Err(error) => first_of_four(
                read_id(id@),
                read_id(workflow_id@),
                read_json(metadata@),
                read_moment(created_at@),
            ) == Some(error),
        },
{
    let id: Uuid = match id_of(id) {
        Ok(id) => id,
        Err(error) => return Err(error),
    };
    let workflow_id: Uuid = match id_of(workflow_id) {
        Ok(id) => id,
        Err(error) => return Err(error),
    };
    if let Err(error) = json_of(metadata.as_str()) {
        return Err(error);
    }
    match moment_of(created_at) {
        Ok(created_at) => Ok(
            WorkflowTemplateSummary { id, name, workflow_id, metadata, created_at },
        ),
        Err(error) => Err(error),
    }
}

/// A principal as it is listed, without the digest of its key.
pub struct PrincipalRecord {
    pub id: Uuid,
    pub name: String,
    pub role: Role,
    pub scopes: Vec<Permission>,
    pub active: bool,
    pub created_at: i128,
}

/// The principal in a row. The scopes come decoded, or not at all where they could not be.
pub fn decode_principal(
    id: &str,
    name: String,
    role: &str,
    scopes: Option<Vec<Permission>>,
    active: i64,
    created_at: &str,
) -> (r: Result<PrincipalRecord, RowError>)
    ensures
        match r {
            Ok(principal) => {
                &&& read_id(id@) == Ok::<Uuid, RowError>(principal.id)
                &&& principal.name == name
                &&& principal.role == role_named(role@)
                &&& scopes == Some(principal.scopes)
                &&& principal.active == (active != 0)
                &&& read_moment(created_at@) == Ok::<i128, RowError>(principal.created_at)
            },
            Err(error) => first_of_three(
                read_id(id@),
                read_document(scopes),
                read_moment(created_at@),
            ) == Some(error),
        },
{
    let id: Uuid = match id_of(id) {
        Ok(id) => id,
        Err(error) => return Err(error),
    };
    let role = str_to_role(role);
    let scopes = match scopes {
        Some(scopes) => scopes,
        None => return Err(RowError::Document),
    };
    match moment_of(created_at) {
        Ok(created_at) => Ok(
            PrincipalRecord { id, name, role, scopes, active: active != 0, created_at },
        ),
        Err(error) => Err(error),
    }
}

/// A conversation as it is listed, without its content.
pub struct ConversationRecord {
    pub id: Uuid,
    pub temporary: bool,
    pub created_at: i128,
    pub updated_at: i128,
}

/// The conversation in a row.
pub fn decode_conversation(id: &str, temporary: i64, created_at: &str, updated_at: &str) -> (r:
    Result<ConversationRecord, RowError>)
    ensures
        match r {
            Ok(conversation) => {
                &&& read_id(id@) == Ok::<Uuid, RowError>(conversation.id)
                &&& conversation.temporary == (temporary != 0)
                &&& read_moment(created_at@) == Ok::<i128, RowError>(conversation.created_at)
                &&& read_moment(updated_at@) == Ok::<i128, RowError>(conversation.updated_at)
            },
            Err(error) => first_of_three(
                read_id(id@),
                read_moment(created_at@),
                read_moment(updated_at@),
            ) == Some(error),
        },
{
    let id: Uuid = match id_of(id) {
        Ok(id) => id,
        Err(error) => return Err(error),
    };
    let created_at: i128 = match moment_of(created_at) {
        Ok(moment) => moment,
        Err(error) => return Err(error),
    };
    match moment_of(updated_at) {
        Ok(updated_at) => Ok(
            ConversationRecord { id, temporary: temporary != 0, created_at, updated_at },
        ),
        Err(error) => Err(error),
    }
}

/// An encrypted message.
pub struct EncryptedMessageRecord {
    pub id: Uuid,
    pub role: String,
    pub content: EncryptedContent,
    pub created_at: i128,
}

/// The encrypted message in a row.
pub fn decode_encrypted_message(
    id: &str,
    role: String,
    envelope_version: i64,
    nonce: Vec<u8>,
    ciphertext: Vec<u8>,
    created_at: &str,
) -> (r: Result<EncryptedMessageRecord, RowError>)
    ensures
        match r {
            Ok(message) => {
                &&& read_id(id@) == Ok::<Uuid, RowError>(message.id)
                &&& message.role == role
                &&& read_u8(envelope_version) == Ok::<u8, RowError>(message.content.version)
                &&& message.content.nonce == nonce
                &&& message.content.ciphertext == ciphertext
                &&& read_moment(created_at@) == Ok::<i128, RowError>(message.created_at)
            },
            Err(error) => first_of_three(
                read_id(id@),
                read_u8(envelope_version),
                read_moment(created_at@),
            ) == Some(error),
        },
{
    let id: Uuid = match id_of(id) {
        Ok(id) => id,
        Err(error) => return Err(error),
    };
    let version: u8 = match u8_of(envelope_version) {
        Ok(version) => version,
        Err(error) => return Err(error),
    };
    match moment_of(created_at) {
        Ok(created_at) => Ok(
            EncryptedMessageRecord {
                id,
                role,
                content: EncryptedContent { version, nonce, ciphertext },
                created_at,
            },
        ),
        Err(error) => Err(error),
    }
}

/// The columns of an invitation.
pub struct InvitationColumns {
    pub id: String,
    pub expires_at: String,
    pub failed_attempts: i64,
    pub consumed: i64,
    pub approved: i64,
    pub approved_at: Option<String>,
}

/// The moment in a column that may be empty.
pub open spec fn read_optional_moment(column: Option<String>) -> Result<Option<i128>, RowError> {
    match column {
        Some(column) => match read_moment(column@) {
            Ok(moment) => Ok(Some(moment)),
            Err(error) => Err(error),
        },
        None => Ok(None),
    }
}

/// The invitation in a row, and its identifier.
pub fn decode_invitation_status(row: InvitationColumns) -> (r: Result<
    (Uuid, InvitationStatus),
    RowError,
>)
    ensures
        match r {
            Ok((id, status)) => {
                &&& read_id(row.id@) == Ok::<Uuid, RowError>(id)
                &&& read_moment(row.expires_at@) == Ok::<i128, RowError>(status.expires_at)
                &&& read_u8(row.failed_attempts) == Ok::<u8, RowError>(status.failed_attempts)
                &&& status.consumed == (row.consumed != 0)
                &&& status.approved == (row.approved != 0)
                &&& read_optional_moment(row.approved_at) == Ok::<Option<i128>, RowError>(
                    status.approved_at,
                )
            },
            Err(error) => first_of_four(
                read_id(row.id@),
                read_moment(row.expires_at@),
                read_u8(row.failed_attempts),
                read_optional_moment(row.approved_at),
            ) == Some(error),
        },
{
    let id: Uuid = match id_of(row.id.as_str()) {
        Ok(id) => id,
        Err(error) => return Err(error),
    };
    let expires_at: i128 = match moment_of(row.expires_at.as_str()) {
        Ok(moment) => moment,
        Err(error) => return Err(error),
    };
    let failed_attempts: u8 = match u8_of(row.failed_attempts) {
        Ok(count) => count,
        Err(error) => return Err(error),
    };
    let approved_at: Option<i128> = match &row.approved_at {
        Some(column) => match moment_of(column.as_str()) {
            Ok(moment) => Some(moment),
            Err(error) => return Err(error),
        },
        None => None,
    };
    Ok(
        (
            id,
            InvitationStatus {
                expires_at,
                failed_attempts,
                consumed: row.consumed != 0,
                approved: row.approved != 0,
                approved_at,
            },
        ),
    )
}

// ------------------------------------------------------------------------------------------------
// Runs

/// The columns of a run.
pub struct RunColumns {
    pub id: String,
    pub workflow_id: String,
    pub workflow_revision: i64,
    pub status: String,
    pub envelope_version: i64,
    pub nonce: Vec<u8>,
    pub ciphertext: Vec<u8>,
    pub created_at: String,
    pub updated_at: String,
}

/// Whether two runs say the same.
pub open spec fn same_run(a: EncryptedWorkflowRun, b: EncryptedWorkflowRun) -> bool {
    &&& a.workflow_id == b.workflow_id
    &&& a.workflow_revision == b.workflow_revision
    &&& status_word(a.status) == status_word(b.status)
    &&& a.content.version == b.content.version
    &&& a.content.nonce@ == b.content.nonce@
    &&& a.content.ciphertext@ == b.content.ciphertext@
    &&& a.created_at == b.created_at
    &&& a.updated_at == b.updated_at
}

/// The word under which the state of a run is stored.
pub open spec fn status_word(status: StoredStatus) -> Seq<char> {
    match status {
        StoredStatus::Known(known) => run_word(known),
        StoredStatus::Other(word) => word@,
    }
}

/// Whether a row says what a run is.
pub open spec fn run_row(row: RunColumns, id: Uuid, run: EncryptedWorkflowRun) -> bool {
    &&& row.id@ == hyphenated(id)
    &&& row.workflow_id@ == hyphenated(run.workflow_id)
    &&& row.workflow_revision == run.workflow_revision
    &&& row.status@ == status_word(run.status)
    &&& row.envelope_version == run.content.version
    &&& row.nonce@ == run.content.nonce@
    &&& row.ciphertext@ == run.content.ciphertext@
    &&& says_moment(row.created_at@, run.created_at)
    &&& says_moment(row.updated_at@, run.updated_at)
}

/// The row of a run.
pub fn encode_workflow_run(id: Uuid, run: &EncryptedWorkflowRun) -> (row: RunColumns)
    ensures
        row.id@ == hyphenated(id),
        row.workflow_id@ == hyphenated(run.workflow_id),
        row.workflow_revision == run.workflow_revision,
        row.status@ == status_word(run.status),
        row.envelope_version == run.content.version,
        row.nonce@ == run.content.nonce@,
        row.ciphertext@ == run.content.ciphertext@,
        row.created_at@ == moment_text(run.created_at),
        row.updated_at@ == moment_text(run.updated_at),
        has_plain_year(run.created_at) && has_plain_year(run.updated_at) ==> run_row(row, id, *run),
{
    RunColumns {
        id: format_uuid(id),
        workflow_id: format_uuid(run.workflow_id),
        workflow_revision: run.workflow_revision as i64,
        status: match &run.status {
            StoredStatus::Known(known) => text::owned(run_status_str(*known)),
            StoredStatus::Other(word) => text::owned(word.as_str()),
        },
        envelope_version: run.content.version as i64,
        nonce: slice_to_vec(run.content.nonce.as_slice()),
        ciphertext: slice_to_vec(run.content.ciphertext.as_slice()),
        created_at: write_moment(run.created_at),
        updated_at: write_moment(run.updated_at),
    }
}

/// The state of a run that the engine knows by a word.
pub open spec fn run_named(word: Seq<char>) -> Option<RunStatus> {
    if word == run_word(RunStatus::Pending) {
        Some(RunStatus::Pending)
    } else if word == run_word(RunStatus::Running) {
        Some(RunStatus::Running)
    } else if word == run_word(RunStatus::WaitingApproval) {
        Some(RunStatus::WaitingApproval)
    } else if word == run_word(RunStatus::Completed) {
        Some(RunStatus::Completed)
    } else if word == run_word(RunStatus::Failed) {
        Some(RunStatus::Failed)
    } else if word == run_word(RunStatus::Cancelled) {
        Some(RunStatus::Cancelled)
    } else {
        None
    }
}

/// The state that a row's word stands for: any word is one.
pub open spec fn word_status(word: String) -> StoredStatus {
    match run_named(word@) {
        Some(known) => StoredStatus::Known(known),
        None => StoredStatus::Other(word),
    }
}

/// The state of a run that a row's word stands for.
pub fn str_to_run_status(word: String) -> (r: StoredStatus)
    ensures
        r == word_status(word),
        status_word(r) == word@,
{
    let known = if text::same(word.as_str(), "pending") {
        RunStatus::Pending
    } else if text::same(word.as_str(), "running") {
        RunStatus::Running
    } else if text::same(word.as_str(), "waiting_approval") {
        RunStatus::WaitingApproval
    } else if text::same(word.as_str(), "completed") {
        RunStatus::Completed
    } else if text::same(word.as_str(), "failed") {
        RunStatus::Failed
    } else if text::same(word.as_str(), "cancelled") {
        RunStatus::Cancelled
    } else {
        return StoredStatus::Other(word);
    };
    StoredStatus::Known(known)
}

/// Why the row of a run cannot be read, where it cannot.
pub open spec fn run_row_fault(row: RunColumns) -> Option<RowError> {
    if read_id(row.id@) is Err || read_id(row.workflow_id@) is Err {
        Some(RowError::Identifier)
    } else if !(0 <= row.workflow_revision <= u32::MAX) || !(0 <= row.envelope_version <= u8::MAX) {
        Some(RowError::Number)
    } else if read_moment(row.created_at@) is Err || read_moment(row.updated_at@) is Err {
        Some(RowError::Moment)
    } else {
        None
    }
}

/// The run that a row says, where it can be read.
pub open spec fn run_in(row: RunColumns) -> EncryptedWorkflowRun {
    EncryptedWorkflowRun {
        workflow_id: read_id(row.workflow_id@)->Ok_0,
        workflow_revision: row.workflow_revision as u32,
        status: word_status(row.status),
        content: EncryptedContent {
            version: row.envelope_version as u8,
            nonce: row.nonce,
            ciphertext: row.ciphertext,
        },
        created_at: read_moment(row.created_at@)->Ok_0,
        updated_at: read_moment(row.updated_at@)->Ok_0,
    }
}

/// The run in a row. What was written of a run reads back as that run.
pub fn decode_workflow_run(row: RunColumns) -> (r: Result<(Uuid, EncryptedWorkflowRun), RowError>)
    ensures
        match r {
            Ok((id, run)) => {
                &&& run_row_fault(row) is None
                &&& read_id(row.id@) == Ok::<Uuid, RowError>(id)
                &&& run == run_in(row)
            },
            Err(error) => run_row_fault(row) == Some(error),
        },
        forall|id: Uuid, run: EncryptedWorkflowRun| #[trigger]
            run_row(row, id, run) ==> r is Ok && r->Ok_0.0 == id && same_run(r->Ok_0.1, run),
{
    let id: Option<Uuid> = parse_uuid(row.id.as_str());
    let workflow: Option<Uuid> = parse_uuid(row.workflow_id.as_str());
    let created: Result<i128, RowError> = moment_of(row.created_at.as_str());
    let updated: Result<i128, RowError> = moment_of(row.updated_at.as_str());
    proof {
        assert forall|known: Uuid, run: EncryptedWorkflowRun| #[trigger]
            run_row(row, known, run) implies id == Some(known) && workflow == Some(run.workflow_id)
            && created == Ok::<i128, RowError>(run.created_at) && updated == Ok::<i128, RowError>(
            run.updated_at,
        ) by {}
    }
    let (id, workflow_id): (Uuid, Uuid) = match (id, workflow) {
        (Some(id), Some(workflow_id)) => (id, workflow_id),
        _ => return Err(RowError::Identifier),
    };
    if row.workflow_revision < 0 || row.workflow_revision > 4_294_967_295i64 || row.envelope_version
        < 0 || row.envelope_version > 255 {
        return Err(RowError::Number);
    }
    match (created, updated) {
        (Ok(created_at), Ok(updated_at)) => Ok(
            (
                id,
                EncryptedWorkflowRun {
                    workflow_id,
                    workflow_revision: row.workflow_revision as u32,
                    status: str_to_run_status(row.status),
                    content: EncryptedContent {
                        version: row.envelope_version as u8,
                        nonce: row.nonce,
                        ciphertext: row.ciphertext,
                    },
                    created_at,
                    updated_at,
                },
            ),
        ),
        _ => Err(RowError::Moment),
    }
}

impl Repository {
    /// The row of a run that is stored.
    pub fn workflow_run_row(&self, run_id: Uuid) -> (r: Option<RunColumns>)
        ensures
            r is Some == self@.runs.contains_key(run_id),
            r matches Some(row) ==> {
                let run = self@.runs[run_id];
                &&& row.id@ == hyphenated(run_id)
                &&& row.workflow_id@ == hyphenated(run.workflow_id)
                &&& row.workflow_revision == run.workflow_revision
                &&& row.status@ == status_word(run.status)
                &&& row.envelope_version == run.content.version
                &&& row.nonce@ == run.content.nonce@
                &&& row.ciphertext@ == run.content.ciphertext@
                &&& row.created_at@ == moment_text(run.created_at)
                &&& row.updated_at@ == moment_text(run.updated_at)
                &&& has_plain_year(run.created_at) && has_plain_year(run.updated_at) ==> run_row(
                    row,
                    run_id,
                    run,
                )
            },
    {
        match self.runs.get(&run_id) {
            Some(run) => Some(encode_workflow_run(run_id, run)),
            None => None,
        }
    }

    /// Takes a run up again from its row. A run whose row was written before a restart is after it what
    /// it was before.
    pub fn restore_workflow_run(&mut self, row: RunColumns) -> (r: Result<Uuid, RowError>)
        ensures
            match r {
                Ok(id) => run_row_fault(row) is None && read_id(row.id@) == Ok::<Uuid, RowError>(id)
                    && final(self)@ == (RepositoryView {
                    runs: old(self)@.runs.insert(id, run_in(row)),
                    ..old(self)@
                }),
                Err(error) => run_row_fault(row) == Some(error) && final(self)@ == old(self)@,
            },
            forall|id: Uuid, run: EncryptedWorkflowRun| #[trigger]
                run_row(row, id, run) ==> r == Ok::<Uuid, RowError>(id) && same_run(
                    final(self)@.runs[id],
                    run,
                ),
    {
        match decode_workflow_run(row) {
            Ok((id, run)) => {
                self.runs.put(id, run);
                Ok(id)
            },
            Err(error) => Err(error),
        }
    }
}

} // verus!
