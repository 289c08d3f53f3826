//! The controller's durable state, as tables, and the transactions on it.
//!
//! Each method of [`Repository`] is one transaction: it reads the tables, decides, and changes them,
//! and gives back the content-free events that go with the change. Moments are nanoseconds since the
//! Unix epoch.

pub mod catalog;
pub mod controller;
pub mod events;
pub mod leases;
pub mod listings;
pub mod nodes;
pub mod principals;
pub mod quota;
pub mod rows;
pub mod workflows;

use crate::cloud::CloudAdapterPolicy;
use crate::ident::Uuid;
use crate::json::{Fields, Json, JsonView};
use crate::names::{NodeStatus, OperatingSystem, Permission, Role};
use crate::repository::events::{EventLog, StoredEventView};
use crate::table::Table;
use crate::text;
use crate::workload::{Policy, WorkloadClass};
use vstd::prelude::*;

verus! {

/// An event of the cluster, before the log numbers and dates it.
pub struct ClusterEvent {
    pub event_type: String,
    pub payload: Json,
}

/// An event of the cluster, as values.
pub struct EventView {
    pub event_type: Seq<char>,
    pub payload: JsonView,
}

impl ClusterEvent {
    pub open spec fn view(&self) -> EventView {
        EventView { event_type: self.event_type@, payload: self.payload@ }
    }
}

/// The event of a type with the given fields.
pub open spec fn event_of(event_type: Seq<char>, fields: Seq<(Seq<char>, JsonView)>) -> EventView {
    EventView { event_type, payload: JsonView::Object(fields) }
}

/// The event of a type with the given fields.
pub fn event(event_type: &str, fields: Fields) -> (r: ClusterEvent)
    ensures
        r@ == event_of(event_type@, fields@),
{
    ClusterEvent { event_type: text::owned(event_type), payload: fields.object() }
}

/// Why a transaction is refused.
#[derive(Clone, Copy, Debug, PartialEq, Eq, Structural)]
pub enum RepositoryError {
    /// A number does not fit in the database's range.
    OutOfRange,
    /// A row with that key is there already.
    Conflict,
    /// The worker queue is full.
    QueueFull,
    /// A controller lease lasts from 10 to 60 seconds.
    LeaseDuration,
    /// The digest of a plugin grant is not that of the installed component.
    GrantMismatch,
    /// The row to be changed is not there.
    Missing,
}

/// A node of the cluster.
pub struct Node {
    pub id: Uuid,
    pub name: String,
    pub os: OperatingSystem,
    pub architecture: String,
    pub status: NodeStatus,
    /// The node's capabilities, as encoded text.
    pub capabilities: String,
    pub last_seen_at: i128,
}

/// A node as it is stored.
pub struct Device {
    pub node: Node,
    pub is_local: bool,
}

/// A credential or a certificate of a device.
pub struct Credential {
    pub device_id: Uuid,
    /// The document itself, as encoded text.
    pub document: String,
    pub expires_at: i128,
    pub revoked_at: Option<i128>,
}

/// Who may use how much of a node.
pub struct ResourcePolicy {
    /// The policy, as encoded text.
    pub policy: String,
    pub updated_by: String,
    pub updated_at: i128,
}

/// An enrollment invitation without its secret.
pub struct Invitation {
    pub expires_at: i128,
    pub failed_attempts: u8,
    pub consumed: bool,
    pub approved: bool,
    pub approved_at: Option<i128>,
    pub requested_node_id: Option<Uuid>,
    pub created_at: i128,
    pub updated_at: i128,
}

/// The state of a workload.
#[derive(Clone, Copy, Debug, PartialEq, Eq, Structural)]
pub enum WorkloadStatus {
    Running,
    Completed,
    Cancelled,
    Interrupted,
}

/// A workload with its immutable plan.
pub struct Workload {
    pub model: String,
    pub runtime: String,
    pub class: WorkloadClass,
    pub policy: Policy,
    pub status: WorkloadStatus,
    pub created_at: i128,
    pub completed_at: Option<i128>,
    pub plan_id: Uuid,
    /// The execution plan, as encoded text.
    pub plan: String,
}

/// The state of a worker lease.
#[derive(Clone, Copy, Debug, PartialEq, Eq, Structural)]
pub enum LeaseStatus {
    Pending,
    Leased,
    Completed,
    Interrupted,
    Cancelled,
}

/// The attempt in which a lease is: there are two at most.
#[derive(Clone, Copy, Debug, PartialEq, Eq, Structural)]
pub enum Attempt {
    First,
    Second,
}

impl Attempt {
    /// The number of the attempt.
    pub open spec fn count(self) -> u8 {
        match self {
            Attempt::First => 1,
            Attempt::Second => 2,
        }
    }

    /// The number of the attempt.
    pub fn number(self) -> (n: u8)
        ensures
            n == self.count(),
    {
        match self {
            Attempt::First => 1,
            Attempt::Second => 2,
        }
    }
}

/// An encrypted request that a worker carries out.
pub struct Lease {
    pub workload_id: Uuid,
    pub node_id: Uuid,
    pub attempt: Attempt,
    pub status: LeaseStatus,
    pub envelope_version: u8,
    pub nonce: Vec<u8>,
    pub ciphertext: Vec<u8>,
    pub maximum_output_tokens: u32,
    pub output_started: bool,
    pub last_sequence: i64,
    pub expires_at: Option<i128>,
    pub created_at: i128,
    pub updated_at: i128,
}

/// What a cloud request may cost, and what it did cost.
pub struct CloudUse {
    pub workload_id: Uuid,
    pub policy_id: Uuid,
    pub reserved_cost_micros: u64,
    pub reserved_network_bytes: u64,
    /// What it came to, once it is known.
    pub actual: Option<(u64, u64)>,
    pub created_at: i128,
    pub completed_at: Option<i128>,
}

/// Who may write to the cluster's state, and until when.
#[derive(Clone, Copy)]
pub struct ControllerLease {
    pub controller_id: Uuid,
    pub term: u64,
    pub fencing_token: u64,
    pub expires_at: i128,
}

/// Encrypted content.
pub struct EncryptedContent {
    pub version: u8,
    pub nonce: Vec<u8>,
    pub ciphertext: Vec<u8>,
}

/// The state of a workflow run.
#[derive(Clone, Copy, Debug, PartialEq, Eq, Structural)]
pub enum RunStatus {
    Pending,
    Running,
    WaitingApproval,
    Completed,
    Failed,
    Cancelled,
}

/// The state of a workflow run as it is stored: one that the engine knows, or any other word that a row
/// may hold.
pub enum StoredStatus {
    Known(RunStatus),
    Other(String),
}

impl StoredStatus {
    /// Whether this is the state that the engine knows by that name.
    pub fn is(&self, status: RunStatus) -> (r: bool)
        ensures
            r == (*self == StoredStatus::Known(status)),
    {
        match self {
            StoredStatus::Known(known) => *known == status,
            StoredStatus::Other(_) => false,
        }
    }
}

/// A workflow and its current revision.
pub struct EncryptedWorkflowDefinition {
    pub name: String,
    pub revision: u32,
    pub sha256: String,
    pub content: EncryptedContent,
    pub created_at: i128,
    pub updated_at: i128,
}

/// A run of a workflow.
pub struct EncryptedWorkflowRun {
    pub workflow_id: Uuid,
    pub workflow_revision: u32,
    pub status: StoredStatus,
    pub content: EncryptedContent,
    pub created_at: i128,
    pub updated_at: i128,
}

/// When a workflow is started by itself.
pub struct Schedule {
    pub workflow_id: Uuid,
    pub cron_utc: String,
    pub enabled: bool,
    pub concurrency_limit: u16,
    pub next_run_at: Option<i128>,
    pub created_at: i128,
    pub updated_at: i128,
}

/// One occurrence of a schedule, which is known by the schedule and the moment at which it is due.
pub struct Firing {
    pub run_id: Uuid,
    /// Whether the run has been attached.
    pub started: bool,
}

/// A file that a step of a run has left.
pub struct EncryptedWorkflowArtifact {
    pub run_id: Uuid,
    pub step_id: String,
    pub name: String,
    pub media_type: String,
    pub sha256: String,
    pub size_bytes: u64,
    pub content: EncryptedContent,
    pub created_at: i128,
}

/// An entry of the template catalog.
pub struct Template {
    pub name: String,
    pub workflow_id: Uuid,
    /// The metadata, as encoded text.
    pub metadata: String,
    pub created_at: i128,
}

/// What happened to a run, without content.
pub struct RunEvent {
    pub run_id: Uuid,
    pub event_type: String,
    pub step_id: Option<String>,
    pub principal_id: Option<String>,
    pub created_at: i128,
}

/// A trigger of a workflow by a secret.
pub struct Webhook {
    pub workflow_id: Uuid,
    pub secret_sha256: String,
    pub enabled: bool,
}

/// A human, a node or a service that may act.
pub struct PrincipalRow {
    pub name: String,
    pub role: Role,
    /// What a service is allowed beyond its role.
    pub scopes: Vec<Permission>,
    pub api_key_sha256: Option<String>,
    pub active: bool,
    pub created_at: i128,
}

/// A browser session of a human.
pub struct Session {
    pub principal_id: Uuid,
    pub created_at: i128,
    pub expires_at: i128,
    pub last_used_at: i128,
}

/// A passkey of a human.
pub struct PasskeyRow {
    pub principal_id: Uuid,
    pub name: String,
    /// The authenticator's state, as encoded text.
    pub passkey: String,
    pub created_at: i128,
    pub last_used_at: Option<i128>,
}

/// A team.
pub struct TeamRecord {
    pub name: String,
    pub created_at: i128,
}

/// An installed plugin.
pub struct Plugin {
    /// The version and the kind, as text.
    pub version: String,
    pub kind: String,
    pub sha256: String,
    /// The manifest, as encoded text.
    pub manifest: String,
    pub component_path: String,
    pub enabled: bool,
}

/// What the owner has allowed a plugin to do.
pub struct Grant {
    pub component_sha256: String,
    /// The permissions, as encoded texts.
    pub permissions: Vec<String>,
    pub approved_by: String,
    pub approved_at: i128,
}

/// A conversation.
pub struct Conversation {
    /// The title as an encrypted envelope.
    pub title: Option<Vec<u8>>,
    pub created_at: i128,
    pub updated_at: i128,
}

/// A message of a conversation.
pub struct Message {
    pub conversation_id: Uuid,
    pub role: String,
    pub content: EncryptedContent,
    pub created_at: i128,
}

/// A verified model.
pub struct Model {
    pub sha256: String,
    pub format: String,
    pub quantization: String,
    pub size_bytes: u64,
    pub pinned: bool,
    /// The manifest, as encoded text.
    pub manifest: String,
    pub updated_at: i128,
}

/// An external authentication provider.
pub struct AuthProvider {
    /// The provider, as encoded text.
    pub provider: String,
    pub kind: String,
    pub enabled: bool,
}

/// How a plan turned out.
pub struct Observation {
    pub plan_id: Uuid,
    pub workload_id: Uuid,
    /// The observation, as encoded text.
    pub observation: String,
    pub materially_missed: bool,
    pub observed_at: i128,
}

/// How a plan turned out, as the scheduler makes it of the measurements.
pub struct PlanObservation {
    pub plan_id: Uuid,
    /// The observation, as encoded text.
    pub observation: String,
    pub materially_missed: bool,
}

/// A span of a distributed trace, without content.
pub struct ExecutionTraceSpan {
    pub workload_id: Uuid,
    pub node_id: Uuid,
    pub parent_span_id: Option<Uuid>,
    pub operation: String,
    pub started_at: i128,
    pub duration_us: u64,
    pub status: String,
    pub attributes: Json,
}

/// A signed leave to transfer a chunk of a model between two nodes.
pub struct TransferTicket {
    pub source_node: Uuid,
    pub destination_node: Uuid,
    pub model_sha256: String,
    pub chunk_sha256: String,
    /// The ticket, as encoded text.
    pub ticket: String,
    pub expires_at: i128,
}

/// What a node was measured to do.
pub struct Benchmark {
    /// The report, as encoded text.
    pub report: String,
    /// The bit patterns of two IEEE 754 doubles.
    pub tokens_per_second: u64,
    pub time_to_first_token_ms: u64,
    pub measured_at: i128,
}

/// What the owner has opted into for traffic that leaves the local network.
pub struct NetworkPolicy {
    pub remote_enabled: bool,
    pub managed_relay_enabled: bool,
    pub self_hosted_relay: Option<String>,
    pub monthly_remote_byte_quota: u64,
}

impl Default for NetworkPolicy {
    /// Nothing leaves the local network.
    fn default() -> (r: NetworkPolicy)
        ensures
            r == local_only(),
    {
        NetworkPolicy {
            remote_enabled: false,
            managed_relay_enabled: false,
            self_hosted_relay: None,
            monthly_remote_byte_quota: 0,
        }
    }
}

/// The policy under which nothing leaves the local network.
pub open spec fn local_only() -> NetworkPolicy {
    NetworkPolicy {
        remote_enabled: false,
        managed_relay_enabled: false,
        self_hosted_relay: None,
        monthly_remote_byte_quota: 0,
    }
}

/// A record of who did what.
pub struct Audit {
    pub principal_id: String,
    pub action: String,
    pub target_type: String,
    pub target_id: Option<Uuid>,
    pub metadata: Json,
    pub created_at: i128,
}

/// A record of who did what, as values.
pub struct AuditView {
    pub principal_id: Seq<char>,
    pub action: Seq<char>,
    pub target_type: Seq<char>,
    pub target_id: Option<Uuid>,
    pub metadata: JsonView,
    pub created_at: i128,
}

impl Audit {
    pub open spec fn view(&self) -> AuditView {
        AuditView {
            principal_id: self.principal_id@,
            action: self.action@,
            target_type: self.target_type@,
            target_id: self.target_id,
            metadata: self.metadata@,
            created_at: self.created_at,
        }
    }
}

/// A record of who did what, with an object of details.
pub open spec fn audit_of(
    principal_id: Seq<char>,
    action: Seq<char>,
    target_type: Seq<char>,
    target_id: Option<Uuid>,
    details: Seq<(Seq<char>, JsonView)>,
    created_at: i128,
) -> AuditView {
    AuditView {
        principal_id,
        action,
        target_type,
        target_id,
        metadata: JsonView::Object(details),
        created_at,
    }
}

/// What went over a remote transport: how much, and by which way, but nothing of what it said.
pub struct TransportRecord {
    pub cluster_id: Uuid,
    pub transport: String,
    pub uses_relay: bool,
    pub estimated_bytes: u64,
    pub observed_bytes: u64,
    pub created_at: i128,
}

/// The controller's state.
pub struct Repository {
    pub nodes: Table<u128, Device>,
    pub credentials: Table<u128, Credential>,
    pub certificates: Table<u128, Credential>,
    pub resource_policies: Table<u128, ResourcePolicy>,
    pub polls: Table<u128, i128>,
    pub invitations: Table<u128, Invitation>,
    pub workloads: Table<u128, Workload>,
    pub leases: Table<u128, Lease>,
    pub cloud_policies: Table<u128, CloudAdapterPolicy>,
    pub cloud_usage: Vec<CloudUse>,
    pub network_usage: Table<(u128, i32, u32), u64>,
    pub transports: Table<u128, TransportRecord>,
    pub controller: Option<ControllerLease>,
    pub workflows: Table<u128, EncryptedWorkflowDefinition>,
    pub runs: Table<u128, EncryptedWorkflowRun>,
    pub schedules: Table<u128, Schedule>,
    pub firings: Table<(u128, i128), Firing>,
    pub run_events: Vec<RunEvent>,
    pub artifacts: Table<u128, EncryptedWorkflowArtifact>,
    pub templates: Table<u128, Template>,
    pub webhooks: Table<u128, Webhook>,
    pub principals: Table<u128, PrincipalRow>,
    pub sessions: Table<String, Session>,
    pub passkeys: Table<String, PasskeyRow>,
    pub external_identities: Table<(u128, String), u128>,
    pub teams: Table<u128, TeamRecord>,
    pub memberships: Table<(u128, u128), Role>,
    pub plugins: Table<String, Plugin>,
    pub grants: Table<String, Grant>,
    pub conversations: Table<u128, Conversation>,
    pub messages: Table<u128, Message>,
    pub models: Table<String, Model>,
    pub auth_providers: Table<u128, AuthProvider>,
    pub spans: Table<u128, ExecutionTraceSpan>,
    pub tickets: Table<u128, TransferTicket>,
    pub benchmarks: Table<u128, Benchmark>,
    pub observations: Vec<Observation>,
    pub network_policy: Option<NetworkPolicy>,
    pub audits: Vec<Audit>,
    pub events: EventLog,
}

/// The controller's state, as values.
#[verifier::ext_equal]
pub struct RepositoryView {
    pub nodes: Map<u128, Device>,
    pub credentials: Map<u128, Credential>,
    pub certificates: Map<u128, Credential>,
    pub resource_policies: Map<u128, ResourcePolicy>,
    pub polls: Map<u128, i128>,
    pub invitations: Map<u128, Invitation>,
    pub workloads: Map<u128, Workload>,
    pub leases: Map<u128, Lease>,
    pub cloud_policies: Map<u128, CloudAdapterPolicy>,
    pub cloud_usage: Seq<CloudUse>,
    pub network_usage: Map<(u128, i32, u32), u64>,
    pub transports: Map<u128, TransportRecord>,
    pub controller: Option<ControllerLease>,
    pub workflows: Map<u128, EncryptedWorkflowDefinition>,
    pub runs: Map<u128, EncryptedWorkflowRun>,
    pub schedules: Map<u128, Schedule>,
    pub firings: Map<(u128, i128), Firing>,
    pub run_events: Seq<RunEvent>,
    pub artifacts: Map<u128, EncryptedWorkflowArtifact>,
    pub templates: Map<u128, Template>,
    pub webhooks: Map<u128, Webhook>,
    pub principals: Map<u128, PrincipalRow>,
    pub sessions: Map<Seq<char>, Session>,
    pub passkeys: Map<Seq<char>, PasskeyRow>,
    pub external_identities: Map<(u128, Seq<char>), u128>,
    pub teams: Map<u128, TeamRecord>,
    pub memberships: Map<(u128, u128), Role>,
    pub plugins: Map<Seq<char>, Plugin>,
    pub grants: Map<Seq<char>, Grant>,
    pub conversations: Map<u128, Conversation>,
    pub messages: Map<u128, Message>,
    pub models: Map<Seq<char>, Model>,
    pub auth_providers: Map<u128, AuthProvider>,
    pub spans: Map<u128, ExecutionTraceSpan>,
    pub tickets: Map<u128, TransferTicket>,
    pub benchmarks: Map<u128, Benchmark>,
    pub observations: Seq<Observation>,
    pub network_policy: Option<NetworkPolicy>,
    pub audits: Seq<AuditView>,
    pub events: Seq<StoredEventView>,
}

impl Repository {
    pub open spec fn view(&self) -> RepositoryView {
        RepositoryView {
            nodes: self.nodes@,
            credentials: self.credentials@,
            certificates: self.certificates@,
            resource_policies: self.resource_policies@,
            polls: self.polls@,
            invitations: self.invitations@,
            workloads: self.workloads@,
            leases: self.leases@,
            cloud_policies: self.cloud_policies@,
            cloud_usage: self.cloud_usage@,
            network_usage: self.network_usage@,
            transports: self.transports@,
            controller: self.controller,
            workflows: self.workflows@,
            runs: self.runs@,
            schedules: self.schedules@,
            firings: self.firings@,
            run_events: self.run_events@,
            artifacts: self.artifacts@,
            templates: self.templates@,
            webhooks: self.webhooks@,
            principals: self.principals@,
            sessions: self.sessions@,
            passkeys: self.passkeys@,
            external_identities: self.external_identities@,
            teams: self.teams@,
            memberships: self.memberships@,
            plugins: self.plugins@,
            grants: self.grants@,
            conversations: self.conversations@,
            messages: self.messages@,
            models: self.models@,
            auth_providers: self.auth_providers@,
            spans: self.spans@,
            tickets: self.tickets@,
            benchmarks: self.benchmarks@,
            observations: self.observations@,
            network_policy: self.network_policy,
            audits: self.audits@.map_values(|audit: Audit| audit@),
            events: self.events@,
        }
    }

    /// A state in which nothing is stored.
    pub fn new() -> (r: Repository)
        ensures
            r@ == RepositoryView::empty(),
    {
        Repository {
            nodes: Table::new(),
            credentials: Table::new(),
            certificates: Table::new(),
            resource_policies: Table::new(),
            polls: Table::new(),
            invitations: Table::new(),
            workloads: Table::new(),
            leases: Table::new(),
            cloud_policies: Table::new(),
            cloud_usage: Vec::new(),
            network_usage: Table::new(),
            transports: Table::new(),
            controller: None,
            workflows: Table::new(),
            runs: Table::new(),
            schedules: Table::new(),
            firings: Table::new(),
            run_events: Vec::new(),
            artifacts: Table::new(),
            templates: Table::new(),
            webhooks: Table::new(),
            principals: Table::new(),
            sessions: Table::new(),
            passkeys: Table::new(),
            external_identities: Table::new(),
            teams: Table::new(),
            memberships: Table::new(),
            plugins: Table::new(),
            grants: Table::new(),
            conversations: Table::new(),
            messages: Table::new(),
            models: Table::new(),
            auth_providers: Table::new(),
            spans: Table::new(),
            tickets: Table::new(),
            benchmarks: Table::new(),
            observations: Vec::new(),
            network_policy: None,
            audits: Vec::new(),
            events: EventLog::new(),
        }
    }

    /// Records who did what.
    fn audit(
        &mut self,
        principal_id: &str,
        action: &str,
        target_type: &str,
        target_id: Option<Uuid>,
        details: Fields,
        now: i128,
    )
        ensures
            final(self)@ == (RepositoryView {
                audits: old(self)@.audits.push(
                    audit_of(principal_id@, action@, target_type@, target_id, details@, now),
                ),
                ..old(self)@
            }),
    {
        let audit = Audit {
            principal_id: text::owned(principal_id),
            action: text::owned(action),
            target_type: text::owned(target_type),
            target_id,
            metadata: details.object(),
            created_at: now,
        };
        let ghost before = self.audits@;
        self.audits.push(audit);
        assert(self@.audits =~= old(self)@.audits.push(audit@));
    }
}

impl RepositoryView {
    /// The state in which nothing is stored.
    pub open spec fn empty() -> RepositoryView {
        RepositoryView {
            nodes: Map::empty(),
            credentials: Map::empty(),
            certificates: Map::empty(),
            resource_policies: Map::empty(),
            polls: Map::empty(),
            invitations: Map::empty(),
            workloads: Map::empty(),
            leases: Map::empty(),
            cloud_policies: Map::empty(),
            cloud_usage: Seq::empty(),
            network_usage: Map::empty(),
            transports: Map::empty(),
            controller: None,
            workflows: Map::empty(),
            runs: Map::empty(),
            schedules: Map::empty(),
            firings: Map::empty(),
            run_events: Seq::empty(),
            artifacts: Map::empty(),
            templates: Map::empty(),
            webhooks: Map::empty(),
            principals: Map::empty(),
            sessions: Map::empty(),
            passkeys: Map::empty(),
            external_identities: Map::empty(),
            teams: Map::empty(),
            memberships: Map::empty(),
            plugins: Map::empty(),
            grants: Map::empty(),
            conversations: Map::empty(),
            messages: Map::empty(),
            models: Map::empty(),
            auth_providers: Map::empty(),
            spans: Map::empty(),
            tickets: Map::empty(),
            benchmarks: Map::empty(),
            observations: Seq::empty(),
            network_policy: None,
            audits: Seq::empty(),
            events: Seq::empty(),
        }
    }
}

} // verus!
