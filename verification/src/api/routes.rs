//! The versioned public routes, and which browsers may use them.

use crate::api::auth::Method;
use crate::text;
use vstd::prelude::*;

verus! {

/// What a route leads to.
#[derive(Clone, Copy, Debug, PartialEq, Eq, Structural)]
pub enum Endpoint {
    Health,
    Ready,
    Models,
    ChatCompletions,
    Responses,
    Completions,
    Embeddings,
    ClusterSummary,
    ListLocalModels,
    ImportLocalModel,
    VerifyLocalModel,
    PinLocalModel,
    RemoveLocalModel,
    DownloadBackup,
    GetNetworkPolicy,
    UpdateNetworkPolicy,
    SimulateTransport,
    DisableRemoteNetworking,
    CreateTransferTicket,
    DownloadModelChunk,
    ListInvitations,
    CreateInvitation,
    ApproveInvitation,
    BeginEnrollment,
    ConfirmEnrollment,
    GetEnrollmentCredential,
    ListConversations,
    CreateConversation,
    DeleteConversation,
    ListConversationMessages,
    AppendConversationMessage,
    ListDevices,
    RegisterDevice,
    UpdateDeviceStatus,
    DeviceHeartbeat,
    UpdateDeviceInventory,
    RevokeDevice,
    RotateDeviceCredentials,
    PollWorkerLease,
    SubmitWorkerEvent,
    GetDevicePolicy,
    UpdateDevicePolicy,
    ListBenchmarks,
    SubmitBenchmark,
    ExportBenchmarkReport,
    SimulatePlan,
    SimulateDistributedPlan,
    GetWorkloadPlan,
    RunDigitalTwin,
    RecordPlanObservation,
    ListTraceSpans,
    RecordTraceSpan,
    WorkflowSchema,
    ListWorkflows,
    CreateWorkflow,
    GetWorkflow,
    StartWorkflow,
    CreateWorkflowSchedule,
    CreateWorkflowWebhook,
    GetWorkflowRun,
    TransitionWorkflowRun,
    CreateWorkflowArtifact,
    DownloadWorkflowArtifact,
    ListWorkflowTemplates,
    CreateWorkflowTemplate,
    InstantiateWorkflowTemplate,
    TriggerWorkflowWebhook,
    ListPlugins,
    InstallPlugin,
    GrantPlugin,
    ExecutePlugin,
    ListPrincipals,
    CreatePrincipal,
    ListTeams,
    CreateTeam,
    ListTeamMembers,
    PutTeamMember,
    BeginPasskeyRegistration,
    FinishPasskeyRegistration,
    BeginPasskeyLogin,
    FinishPasskeyLogin,
    ListAuthProviders,
    PutAuthProvider,
    LinkExternalIdentity,
    ListOidcLoginProviders,
    BeginOidcLogin,
    FinishOidcLogin,
    ListCloudAdapters,
    PutCloudAdapter,
    GetControllerLease,
    AcquireControllerLease,
    CancelWorkload,
    ListEvents,
    LiveEvents,
}

/// How many endpoints there are.
pub const ENDPOINTS: usize = 94;

/// A route: a method and a path, in which a name in braces stands for one segment.
pub struct Route {
    pub method: Method,
    pub path: &'static str,
    pub endpoint: Endpoint,
}

/// The method under which an endpoint is reached.
pub open spec fn method_of(endpoint: Endpoint) -> Method {
    match endpoint {
        Endpoint::Health => Method::Get,
        Endpoint::Ready => Method::Get,
        Endpoint::Models => Method::Get,
        Endpoint::ChatCompletions => Method::Post,
        Endpoint::Responses => Method::Post,
        Endpoint::Completions => Method::Post,
        Endpoint::Embeddings => Method::Post,
        Endpoint::ClusterSummary => Method::Get,
        Endpoint::ListLocalModels => Method::Get,
        Endpoint::ImportLocalModel => Method::Post,
        Endpoint::VerifyLocalModel => Method::Post,
        Endpoint::PinLocalModel => Method::Patch,
        Endpoint::RemoveLocalModel => Method::Post,
        Endpoint::DownloadBackup => Method::Get,
        Endpoint::GetNetworkPolicy => Method::Get,
        Endpoint::UpdateNetworkPolicy => Method::Patch,
        Endpoint::SimulateTransport => Method::Post,
        Endpoint::DisableRemoteNetworking => Method::Post,
        Endpoint::CreateTransferTicket => Method::Post,
        Endpoint::DownloadModelChunk => Method::Get,
        Endpoint::ListInvitations => Method::Get,
        Endpoint::CreateInvitation => Method::Post,
        Endpoint::ApproveInvitation => Method::Post,
        Endpoint::BeginEnrollment => Method::Post,
        Endpoint::ConfirmEnrollment => Method::Post,
        Endpoint::GetEnrollmentCredential => Method::Post,
        Endpoint::ListConversations => Method::Get,
        Endpoint::CreateConversation => Method::Post,
        Endpoint::DeleteConversation => Method::Delete,
        Endpoint::ListConversationMessages => Method::Get,
        Endpoint::AppendConversationMessage => Method::Post,
        Endpoint::ListDevices => Method::Get,
        Endpoint::RegisterDevice => Method::Post,
        Endpoint::UpdateDeviceStatus => Method::Patch,
        Endpoint::DeviceHeartbeat => Method::Post,
        Endpoint::UpdateDeviceInventory => Method::Post,
        Endpoint::RevokeDevice => Method::Post,
        Endpoint::RotateDeviceCredentials => Method::Post,
        Endpoint::PollWorkerLease => Method::Post,
        Endpoint::SubmitWorkerEvent => Method::Post,
        Endpoint::GetDevicePolicy => Method::Get,
        Endpoint::UpdateDevicePolicy => Method::Patch,
        Endpoint::ListBenchmarks => Method::Get,
        Endpoint::SubmitBenchmark => Method::Post,
        Endpoint::ExportBenchmarkReport => Method::Get,
        Endpoint::SimulatePlan => Method::Post,
        Endpoint::SimulateDistributedPlan => Method::Post,
        Endpoint::GetWorkloadPlan => Method::Get,
        Endpoint::RunDigitalTwin => Method::Post,
        Endpoint::RecordPlanObservation => Method::Post,
        Endpoint::ListTraceSpans => Method::Get,
        Endpoint::RecordTraceSpan => Method::Post,
        Endpoint::WorkflowSchema => Method::Get,
        Endpoint::ListWorkflows => Method::Get,
        Endpoint::CreateWorkflow => Method::Post,
        Endpoint::GetWorkflow => Method::Get,
        Endpoint::StartWorkflow => Method::Post,
        Endpoint::CreateWorkflowSchedule => Method::Post,
        Endpoint::CreateWorkflowWebhook => Method::Post,
        Endpoint::GetWorkflowRun => Method::Get,
        Endpoint::TransitionWorkflowRun => Method::Post,
        Endpoint::CreateWorkflowArtifact => Method::Post,
        Endpoint::DownloadWorkflowArtifact => Method::Get,
        Endpoint::ListWorkflowTemplates => Method::Get,
        Endpoint::CreateWorkflowTemplate => Method::Post,
        Endpoint::InstantiateWorkflowTemplate => Method::Post,
        Endpoint::TriggerWorkflowWebhook => Method::Post,
        Endpoint::ListPlugins => Method::Get,
        Endpoint::InstallPlugin => Method::Post,
        Endpoint::GrantPlugin => Method::Post,
        Endpoint::ExecutePlugin => Method::Post,
        Endpoint::ListPrincipals => Method::Get,
        Endpoint::CreatePrincipal => Method::Post,
        Endpoint::ListTeams => Method::Get,
        Endpoint::CreateTeam => Method::Post,
        Endpoint::ListTeamMembers => Method::Get,
        Endpoint::PutTeamMember => Method::Post,
        Endpoint::BeginPasskeyRegistration => Method::Post,
        Endpoint::FinishPasskeyRegistration => Method::Post,
        Endpoint::BeginPasskeyLogin => Method::Post,
        Endpoint::FinishPasskeyLogin => Method::Post,
        Endpoint::ListAuthProviders => Method::Get,
        Endpoint::PutAuthProvider => Method::Post,
        Endpoint::LinkExternalIdentity => Method::Post,
        Endpoint::ListOidcLoginProviders => Method::Get,
        Endpoint::BeginOidcLogin => Method::Post,
        Endpoint::FinishOidcLogin => Method::Post,
        Endpoint::ListCloudAdapters => Method::Get,
        Endpoint::PutCloudAdapter => Method::Post,
        Endpoint::GetControllerLease => Method::Get,
        Endpoint::AcquireControllerLease => Method::Post,
        Endpoint::CancelWorkload => Method::Post,
        Endpoint::ListEvents => Method::Get,
        Endpoint::LiveEvents => Method::Get,
    }
}

/// The path under which an endpoint is reached.
pub open spec fn path_of(endpoint: Endpoint) -> Seq<char> {
    match endpoint {
        Endpoint::Health => "/health"@,
        Endpoint::Ready => "/ready"@,
        Endpoint::Models => "/v1/models"@,
        Endpoint::ChatCompletions => "/v1/chat/completions"@,
        Endpoint::Responses => "/v1/responses"@,
        Endpoint::Completions => "/v1/completions"@,
        Endpoint::Embeddings => "/v1/embeddings"@,
        Endpoint::ClusterSummary => "/constellation/v1/cluster"@,
        Endpoint::ListLocalModels => "/constellation/v1/models"@,
        Endpoint::ImportLocalModel => "/constellation/v1/models/import"@,
        Endpoint::VerifyLocalModel => "/constellation/v1/models/verify"@,
        Endpoint::PinLocalModel => "/constellation/v1/models/pin"@,
        Endpoint::RemoveLocalModel => "/constellation/v1/models/remove"@,
        Endpoint::DownloadBackup => "/constellation/v1/backup"@,
        Endpoint::GetNetworkPolicy => "/constellation/v1/network/policy"@,
        Endpoint::UpdateNetworkPolicy => "/constellation/v1/network/policy"@,
        Endpoint::SimulateTransport => "/constellation/v1/network/simulate"@,
        Endpoint::DisableRemoteNetworking => "/constellation/v1/emergency/remote-disable"@,
        Endpoint::CreateTransferTicket => "/constellation/v1/models/transfer-tickets"@,
        Endpoint::DownloadModelChunk => "/constellation/v1/models/chunks/{chunk_sha256}"@,
        Endpoint::ListInvitations => "/constellation/v1/invitations"@,
        Endpoint::CreateInvitation => "/constellation/v1/invitations"@,
        Endpoint::ApproveInvitation => "/constellation/v1/invitations/{invitation_id}/approve"@,
        Endpoint::BeginEnrollment => "/constellation/v1/enrollment/begin"@,
        Endpoint::ConfirmEnrollment => "/constellation/v1/enrollment/confirm"@,
        Endpoint::GetEnrollmentCredential => "/constellation/v1/enrollment/credential"@,
        Endpoint::ListConversations => "/constellation/v1/chat/conversations"@,
        Endpoint::CreateConversation => "/constellation/v1/chat/conversations"@,
        Endpoint::DeleteConversation => "/constellation/v1/chat/conversations/{conversation_id}"@,
        Endpoint::ListConversationMessages => "/constellation/v1/chat/conversations/{conversation_id}/messages"@,
        Endpoint::AppendConversationMessage => "/constellation/v1/chat/conversations/{conversation_id}/messages"@,
        Endpoint::ListDevices => "/constellation/v1/devices"@,
        Endpoint::RegisterDevice => "/constellation/v1/devices"@,
        Endpoint::UpdateDeviceStatus => "/constellation/v1/devices/{node_id}/status"@,
        Endpoint::DeviceHeartbeat => "/constellation/v1/devices/{node_id}/heartbeat"@,
        Endpoint::UpdateDeviceInventory => "/constellation/v1/devices/{node_id}/inventory"@,
        Endpoint::RevokeDevice => "/constellation/v1/devices/{node_id}/revoke"@,
        Endpoint::RotateDeviceCredentials => "/constellation/v1/devices/{node_id}/credentials/rotate"@,
        Endpoint::PollWorkerLease => "/constellation/v1/workers/{node_id}/leases/poll"@,
        Endpoint::SubmitWorkerEvent => "/constellation/v1/workers/{node_id}/leases/{lease_id}/events"@,
        Endpoint::GetDevicePolicy => "/constellation/v1/devices/{node_id}/policy"@,
        Endpoint::UpdateDevicePolicy => "/constellation/v1/devices/{node_id}/policy"@,
        Endpoint::ListBenchmarks => "/constellation/v1/benchmarks"@,
        Endpoint::SubmitBenchmark => "/constellation/v1/benchmarks"@,
        Endpoint::ExportBenchmarkReport => "/constellation/v1/reports/benchmark"@,
        Endpoint::SimulatePlan => "/constellation/v1/plans/simulate"@,
        Endpoint::SimulateDistributedPlan => "/constellation/v1/plans/distributed/simulate"@,
        Endpoint::GetWorkloadPlan => "/constellation/v1/plans/workload/{workload_id}"@,
        Endpoint::RunDigitalTwin => "/constellation/v1/plans/workload/{workload_id}/digital-twin"@,
        Endpoint::RecordPlanObservation => "/constellation/v1/plans/workload/{workload_id}/observations"@,
        Endpoint::ListTraceSpans => "/constellation/v1/traces/workload/{workload_id}"@,
        Endpoint::RecordTraceSpan => "/constellation/v1/traces/workload/{workload_id}"@,
        Endpoint::WorkflowSchema => "/constellation/v1/workflows/schema"@,
        Endpoint::ListWorkflows => "/constellation/v1/workflows"@,
        Endpoint::CreateWorkflow => "/constellation/v1/workflows"@,
        Endpoint::GetWorkflow => "/constellation/v1/workflows/{workflow_id}"@,
        Endpoint::StartWorkflow => "/constellation/v1/workflows/{workflow_id}/runs"@,
        Endpoint::CreateWorkflowSchedule => "/constellation/v1/workflows/{workflow_id}/schedules"@,
        Endpoint::CreateWorkflowWebhook => "/constellation/v1/workflows/{workflow_id}/webhooks"@,
        Endpoint::GetWorkflowRun => "/constellation/v1/workflow-runs/{run_id}"@,
        Endpoint::TransitionWorkflowRun => "/constellation/v1/workflow-runs/{run_id}/events"@,
        Endpoint::CreateWorkflowArtifact => "/constellation/v1/workflow-runs/{run_id}/artifacts"@,
        Endpoint::DownloadWorkflowArtifact => "/constellation/v1/workflow-artifacts/{artifact_id}"@,
        Endpoint::ListWorkflowTemplates => "/constellation/v1/workflow-templates"@,
        Endpoint::CreateWorkflowTemplate => "/constellation/v1/workflow-templates"@,
        Endpoint::InstantiateWorkflowTemplate => "/constellation/v1/workflow-templates/{template_id}/instantiate"@,
        Endpoint::TriggerWorkflowWebhook => "/constellation/v1/workflow-webhooks/{webhook_id}/trigger"@,
        Endpoint::ListPlugins => "/constellation/v1/plugins"@,
        Endpoint::InstallPlugin => "/constellation/v1/plugins/install"@,
        Endpoint::GrantPlugin => "/constellation/v1/plugins/{plugin_id}/grant"@,
        Endpoint::ExecutePlugin => "/constellation/v1/plugins/{plugin_id}/execute"@,
        Endpoint::ListPrincipals => "/constellation/v1/principals"@,
        Endpoint::CreatePrincipal => "/constellation/v1/principals"@,
        Endpoint::ListTeams => "/constellation/v1/teams"@,
        Endpoint::CreateTeam => "/constellation/v1/teams"@,
        Endpoint::ListTeamMembers => "/constellation/v1/teams/{team_id}/members"@,
        Endpoint::PutTeamMember => "/constellation/v1/teams/{team_id}/members"@,
        Endpoint::BeginPasskeyRegistration => "/constellation/v1/auth/passkeys/registration/begin"@,
        Endpoint::FinishPasskeyRegistration => "/constellation/v1/auth/passkeys/registration/finish"@,
        Endpoint::BeginPasskeyLogin => "/constellation/v1/auth/passkeys/login/begin"@,
        Endpoint::FinishPasskeyLogin => "/constellation/v1/auth/passkeys/login/finish"@,
        Endpoint::ListAuthProviders => "/constellation/v1/auth-providers"@,
        Endpoint::PutAuthProvider => "/constellation/v1/auth-providers"@,
        Endpoint::LinkExternalIdentity => "/constellation/v1/auth-providers/{provider_id}/links"@,
        Endpoint::ListOidcLoginProviders => "/constellation/v1/auth/oidc/providers"@,
        Endpoint::BeginOidcLogin => "/constellation/v1/auth/oidc/login/begin"@,
        Endpoint::FinishOidcLogin => "/constellation/v1/auth/oidc/login/finish"@,
        Endpoint::ListCloudAdapters => "/constellation/v1/cloud-adapters"@,
        Endpoint::PutCloudAdapter => "/constellation/v1/cloud-adapters"@,
        Endpoint::GetControllerLease => "/constellation/v1/control-plane/lease"@,
        Endpoint::AcquireControllerLease => "/constellation/v1/control-plane/lease"@,
        Endpoint::CancelWorkload => "/constellation/v1/workloads/{workload_id}/cancel"@,
        Endpoint::ListEvents => "/constellation/v1/events"@,
        Endpoint::LiveEvents => "/constellation/v1/events/live"@,
    }
}

/// The place of an endpoint in the list of all.
pub open spec fn place_of(endpoint: Endpoint) -> int {
    match endpoint {
        Endpoint::Health => 0,
        Endpoint::Ready => 1,
        Endpoint::Models => 2,
        Endpoint::ChatCompletions => 3,
        Endpoint::Responses => 4,
        Endpoint::Completions => 5,
        Endpoint::Embeddings => 6,
        Endpoint::ClusterSummary => 7,
        Endpoint::ListLocalModels => 8,
        Endpoint::ImportLocalModel => 9,
        Endpoint::VerifyLocalModel => 10,
        Endpoint::PinLocalModel => 11,
        Endpoint::RemoveLocalModel => 12,
        Endpoint::DownloadBackup => 13,
        Endpoint::GetNetworkPolicy => 14,
        Endpoint::UpdateNetworkPolicy => 15,
        Endpoint::SimulateTransport => 16,
        Endpoint::DisableRemoteNetworking => 17,
        Endpoint::CreateTransferTicket => 18,
        Endpoint::DownloadModelChunk => 19,
        Endpoint::ListInvitations => 20,
        Endpoint::CreateInvitation => 21,
        Endpoint::ApproveInvitation => 22,
        Endpoint::BeginEnrollment => 23,
        Endpoint::ConfirmEnrollment => 24,
        Endpoint::GetEnrollmentCredential => 25,
        Endpoint::ListConversations => 26,
        Endpoint::CreateConversation => 27,
        Endpoint::DeleteConversation => 28,
        Endpoint::ListConversationMessages => 29,
        Endpoint::AppendConversationMessage => 30,
        Endpoint::ListDevices => 31,
        Endpoint::RegisterDevice => 32,
        Endpoint::UpdateDeviceStatus => 33,
        Endpoint::DeviceHeartbeat => 34,
        Endpoint::UpdateDeviceInventory => 35,
        Endpoint::RevokeDevice => 36,
        Endpoint::RotateDeviceCredentials => 37,
        Endpoint::PollWorkerLease => 38,
        Endpoint::SubmitWorkerEvent => 39,
        Endpoint::GetDevicePolicy => 40,
        Endpoint::UpdateDevicePolicy => 41,
        Endpoint::ListBenchmarks => 42,
        Endpoint::SubmitBenchmark => 43,
        Endpoint::ExportBenchmarkReport => 44,
        Endpoint::SimulatePlan => 45,
        Endpoint::SimulateDistributedPlan => 46,
        Endpoint::GetWorkloadPlan => 47,
        Endpoint::RunDigitalTwin => 48,
        Endpoint::RecordPlanObservation => 49,
        Endpoint::ListTraceSpans => 50,
        Endpoint::RecordTraceSpan => 51,
        Endpoint::WorkflowSchema => 52,
        Endpoint::ListWorkflows => 53,
        Endpoint::CreateWorkflow => 54,
        Endpoint::GetWorkflow => 55,
        Endpoint::StartWorkflow => 56,
        Endpoint::CreateWorkflowSchedule => 57,
        Endpoint::CreateWorkflowWebhook => 58,
        Endpoint::GetWorkflowRun => 59,
        Endpoint::TransitionWorkflowRun => 60,
        Endpoint::CreateWorkflowArtifact => 61,
        Endpoint::DownloadWorkflowArtifact => 62,
        Endpoint::ListWorkflowTemplates => 63,
        Endpoint::CreateWorkflowTemplate => 64,
        Endpoint::InstantiateWorkflowTemplate => 65,
        Endpoint::TriggerWorkflowWebhook => 66,
        Endpoint::ListPlugins => 67,
        Endpoint::InstallPlugin => 68,
        Endpoint::GrantPlugin => 69,
        Endpoint::ExecutePlugin => 70,
        Endpoint::ListPrincipals => 71,
        Endpoint::CreatePrincipal => 72,
        Endpoint::ListTeams => 73,
        Endpoint::CreateTeam => 74,
        Endpoint::ListTeamMembers => 75,
        Endpoint::PutTeamMember => 76,
        Endpoint::BeginPasskeyRegistration => 77,
        Endpoint::FinishPasskeyRegistration => 78,
        Endpoint::BeginPasskeyLogin => 79,
        Endpoint::FinishPasskeyLogin => 80,
        Endpoint::ListAuthProviders => 81,
        Endpoint::PutAuthProvider => 82,
        Endpoint::LinkExternalIdentity => 83,
        Endpoint::ListOidcLoginProviders => 84,
        Endpoint::BeginOidcLogin => 85,
        Endpoint::FinishOidcLogin => 86,
        Endpoint::ListCloudAdapters => 87,
        Endpoint::PutCloudAdapter => 88,
        Endpoint::GetControllerLease => 89,
        Endpoint::AcquireControllerLease => 90,
        Endpoint::CancelWorkload => 91,
        Endpoint::ListEvents => 92,
        Endpoint::LiveEvents => 93,
    }
}

impl Endpoint {
    /// The route to an endpoint.
    pub fn route(self) -> (route: Route)
        ensures
            route.method == method_of(self),
            route.path@ == path_of(self),
            route.endpoint == self,
    {
        let (method, path) = match self {
            Endpoint::Health => (Method::Get, "/health"),
            Endpoint::Ready => (Method::Get, "/ready"),
            Endpoint::Models => (Method::Get, "/v1/models"),
            Endpoint::ChatCompletions => (Method::Post, "/v1/chat/completions"),
            Endpoint::Responses => (Method::Post, "/v1/responses"),
            Endpoint::Completions => (Method::Post, "/v1/completions"),
            Endpoint::Embeddings => (Method::Post, "/v1/embeddings"),
            Endpoint::ClusterSummary => (Method::Get, "/constellation/v1/cluster"),
            Endpoint::ListLocalModels => (Method::Get, "/constellation/v1/models"),
            Endpoint::ImportLocalModel => (Method::Post, "/constellation/v1/models/import"),
            Endpoint::VerifyLocalModel => (Method::Post, "/constellation/v1/models/verify"),
            Endpoint::PinLocalModel => (Method::Patch, "/constellation/v1/models/pin"),
            Endpoint::RemoveLocalModel => (Method::Post, "/constellation/v1/models/remove"),
            Endpoint::DownloadBackup => (Method::Get, "/constellation/v1/backup"),
            Endpoint::GetNetworkPolicy => (Method::Get, "/constellation/v1/network/policy"),
            Endpoint::UpdateNetworkPolicy => (Method::Patch, "/constellation/v1/network/policy"),
            Endpoint::SimulateTransport => (Method::Post, "/constellation/v1/network/simulate"),
            Endpoint::DisableRemoteNetworking => (Method::Post, "/constellation/v1/emergency/remote-disable"),
            Endpoint::CreateTransferTicket => (Method::Post, "/constellation/v1/models/transfer-tickets"),
            Endpoint::DownloadModelChunk => (Method::Get, "/constellation/v1/models/chunks/{chunk_sha256}"),
            Endpoint::ListInvitations => (Method::Get, "/constellation/v1/invitations"),
            Endpoint::CreateInvitation => (Method::Post, "/constellation/v1/invitations"),
            Endpoint::ApproveInvitation => (Method::Post, "/constellation/v1/invitations/{invitation_id}/approve"),
            Endpoint::BeginEnrollment => (Method::Post, "/constellation/v1/enrollment/begin"),
            Endpoint::ConfirmEnrollment => (Method::Post, "/constellation/v1/enrollment/confirm"),
            Endpoint::GetEnrollmentCredential => (Method::Post, "/constellation/v1/enrollment/credential"),
            Endpoint::ListConversations => (Method::Get, "/constellation/v1/chat/conversations"),
            Endpoint::CreateConversation => (Method::Post, "/constellation/v1/chat/conversations"),
            Endpoint::DeleteConversation => (Method::Delete, "/constellation/v1/chat/conversations/{conversation_id}"),
            Endpoint::ListConversationMessages => (Method::Get, "/constellation/v1/chat/conversations/{conversation_id}/messages"),
            Endpoint::AppendConversationMessage => (Method::Post, "/constellation/v1/chat/conversations/{conversation_id}/messages"),
            Endpoint::ListDevices => (Method::Get, "/constellation/v1/devices"),
            Endpoint::RegisterDevice => (Method::Post, "/constellation/v1/devices"),
            Endpoint::UpdateDeviceStatus => (Method::Patch, "/constellation/v1/devices/{node_id}/status"),
            Endpoint::DeviceHeartbeat => (Method::Post, "/constellation/v1/devices/{node_id}/heartbeat"),
            Endpoint::UpdateDeviceInventory => (Method::Post, "/constellation/v1/devices/{node_id}/inventory"),
            Endpoint::RevokeDevice => (Method::Post, "/constellation/v1/devices/{node_id}/revoke"),
            Endpoint::RotateDeviceCredentials => (Method::Post, "/constellation/v1/devices/{node_id}/credentials/rotate"),
            Endpoint::PollWorkerLease => (Method::Post, "/constellation/v1/workers/{node_id}/leases/poll"),
            Endpoint::SubmitWorkerEvent => (Method::Post, "/constellation/v1/workers/{node_id}/leases/{lease_id}/events"),
            Endpoint::GetDevicePolicy => (Method::Get, "/constellation/v1/devices/{node_id}/policy"),
            Endpoint::UpdateDevicePolicy => (Method::Patch, "/constellation/v1/devices/{node_id}/policy"),
            Endpoint::ListBenchmarks => (Method::Get, "/constellation/v1/benchmarks"),
            Endpoint::SubmitBenchmark => (Method::Post, "/constellation/v1/benchmarks"),
            Endpoint::ExportBenchmarkReport => (Method::Get, "/constellation/v1/reports/benchmark"),
            Endpoint::SimulatePlan => (Method::Post, "/constellation/v1/plans/simulate"),
            Endpoint::SimulateDistributedPlan => (Method::Post, "/constellation/v1/plans/distributed/simulate"),
            Endpoint::GetWorkloadPlan => (Method::Get, "/constellation/v1/plans/workload/{workload_id}"),
            Endpoint::RunDigitalTwin => (Method::Post, "/constellation/v1/plans/workload/{workload_id}/digital-twin"),
            Endpoint::RecordPlanObservation => (Method::Post, "/constellation/v1/plans/workload/{workload_id}/observations"),
            Endpoint::ListTraceSpans => (Method::Get, "/constellation/v1/traces/workload/{workload_id}"),
            Endpoint::RecordTraceSpan => (Method::Post, "/constellation/v1/traces/workload/{workload_id}"),
            Endpoint::WorkflowSchema => (Method::Get, "/constellation/v1/workflows/schema"),
            Endpoint::ListWorkflows => (Method::Get, "/constellation/v1/workflows"),
            Endpoint::CreateWorkflow => (Method::Post, "/constellation/v1/workflows"),
            Endpoint::GetWorkflow => (Method::Get, "/constellation/v1/workflows/{workflow_id}"),
            Endpoint::StartWorkflow => (Method::Post, "/constellation/v1/workflows/{workflow_id}/runs"),
            Endpoint::CreateWorkflowSchedule => (Method::Post, "/constellation/v1/workflows/{workflow_id}/schedules"),
            Endpoint::CreateWorkflowWebhook => (Method::Post, "/constellation/v1/workflows/{workflow_id}/webhooks"),
            Endpoint::GetWorkflowRun => (Method::Get, "/constellation/v1/workflow-runs/{run_id}"),
            Endpoint::TransitionWorkflowRun => (Method::Post, "/constellation/v1/workflow-runs/{run_id}/events"),
            Endpoint::CreateWorkflowArtifact => (Method::Post, "/constellation/v1/workflow-runs/{run_id}/artifacts"),
            Endpoint::DownloadWorkflowArtifact => (Method::Get, "/constellation/v1/workflow-artifacts/{artifact_id}"),
            Endpoint::ListWorkflowTemplates => (Method::Get, "/constellation/v1/workflow-templates"),
            Endpoint::CreateWorkflowTemplate => (Method::Post, "/constellation/v1/workflow-templates"),
            Endpoint::InstantiateWorkflowTemplate => (Method::Post, "/constellation/v1/workflow-templates/{template_id}/instantiate"),
            Endpoint::TriggerWorkflowWebhook => (Method::Post, "/constellation/v1/workflow-webhooks/{webhook_id}/trigger"),
            Endpoint::ListPlugins => (Method::Get, "/constellation/v1/plugins"),
            Endpoint::InstallPlugin => (Method::Post, "/constellation/v1/plugins/install"),
            Endpoint::GrantPlugin => (Method::Post, "/constellation/v1/plugins/{plugin_id}/grant"),
            Endpoint::ExecutePlugin => (Method::Post, "/constellation/v1/plugins/{plugin_id}/execute"),
            Endpoint::ListPrincipals => (Method::Get, "/constellation/v1/principals"),
            Endpoint::CreatePrincipal => (Method::Post, "/constellation/v1/principals"),
            Endpoint::ListTeams => (Method::Get, "/constellation/v1/teams"),
            Endpoint::CreateTeam => (Method::Post, "/constellation/v1/teams"),
            Endpoint::ListTeamMembers => (Method::Get, "/constellation/v1/teams/{team_id}/members"),
            Endpoint::PutTeamMember => (Method::Post, "/constellation/v1/teams/{team_id}/members"),
            Endpoint::BeginPasskeyRegistration => (Method::Post, "/constellation/v1/auth/passkeys/registration/begin"),
            Endpoint::FinishPasskeyRegistration => (Method::Post, "/constellation/v1/auth/passkeys/registration/finish"),
            Endpoint::BeginPasskeyLogin => (Method::Post, "/constellation/v1/auth/passkeys/login/begin"),
            Endpoint::FinishPasskeyLogin => (Method::Post, "/constellation/v1/auth/passkeys/login/finish"),
            Endpoint::ListAuthProviders => (Method::Get, "/constellation/v1/auth-providers"),
            Endpoint::PutAuthProvider => (Method::Post, "/constellation/v1/auth-providers"),
            Endpoint::LinkExternalIdentity => (Method::Post, "/constellation/v1/auth-providers/{provider_id}/links"),
            Endpoint::ListOidcLoginProviders => (Method::Get, "/constellation/v1/auth/oidc/providers"),
            Endpoint::BeginOidcLogin => (Method::Post, "/constellation/v1/auth/oidc/login/begin"),
            Endpoint::FinishOidcLogin => (Method::Post, "/constellation/v1/auth/oidc/login/finish"),
            Endpoint::ListCloudAdapters => (Method::Get, "/constellation/v1/cloud-adapters"),
            Endpoint::PutCloudAdapter => (Method::Post, "/constellation/v1/cloud-adapters"),
            Endpoint::GetControllerLease => (Method::Get, "/constellation/v1/control-plane/lease"),
            Endpoint::AcquireControllerLease => (Method::Post, "/constellation/v1/control-plane/lease"),
            Endpoint::CancelWorkload => (Method::Post, "/constellation/v1/workloads/{workload_id}/cancel"),
            Endpoint::ListEvents => (Method::Get, "/constellation/v1/events"),
            Endpoint::LiveEvents => (Method::Get, "/constellation/v1/events/live"),
        };
        Route { method, path, endpoint: self }
    }

    /// The endpoint at a place.
    pub fn at(place: usize) -> (endpoint: Option<Endpoint>)
        ensures
            endpoint is Some == (place < ENDPOINTS),
            endpoint matches Some(e) ==> place_of(e) == place,
    {
        Some(
            match place {
                0 => Endpoint::Health,
                1 => Endpoint::Ready,
                2 => Endpoint::Models,
                3 => Endpoint::ChatCompletions,
                4 => Endpoint::Responses,
                5 => Endpoint::Completions,
                6 => Endpoint::Embeddings,
                7 => Endpoint::ClusterSummary,
                8 => Endpoint::ListLocalModels,
                9 => Endpoint::ImportLocalModel,
                10 => Endpoint::VerifyLocalModel,
                11 => Endpoint::PinLocalModel,
                12 => Endpoint::RemoveLocalModel,
                13 => Endpoint::DownloadBackup,
                14 => Endpoint::GetNetworkPolicy,
                15 => Endpoint::UpdateNetworkPolicy,
                16 => Endpoint::SimulateTransport,
                17 => Endpoint::DisableRemoteNetworking,
                18 => Endpoint::CreateTransferTicket,
                19 => Endpoint::DownloadModelChunk,
                20 => Endpoint::ListInvitations,
                21 => Endpoint::CreateInvitation,
                22 => Endpoint::ApproveInvitation,
                23 => Endpoint::BeginEnrollment,
                24 => Endpoint::ConfirmEnrollment,
                25 => Endpoint::GetEnrollmentCredential,
                26 => Endpoint::ListConversations,
                27 => Endpoint::CreateConversation,
                28 => Endpoint::DeleteConversation,
                29 => Endpoint::ListConversationMessages,
                30 => Endpoint::AppendConversationMessage,
                31 => Endpoint::ListDevices,
                32 => Endpoint::RegisterDevice,
                33 => Endpoint::UpdateDeviceStatus,
                34 => Endpoint::DeviceHeartbeat,
                35 => Endpoint::UpdateDeviceInventory,
                36 => Endpoint::RevokeDevice,
                37 => Endpoint::RotateDeviceCredentials,
                38 => Endpoint::PollWorkerLease,
                39 => Endpoint::SubmitWorkerEvent,
                40 => Endpoint::GetDevicePolicy,
                41 => Endpoint::UpdateDevicePolicy,
                42 => Endpoint::ListBenchmarks,
                43 => Endpoint::SubmitBenchmark,
                44 => Endpoint::ExportBenchmarkReport,
                45 => Endpoint::SimulatePlan,
                46 => Endpoint::SimulateDistributedPlan,
                47 => Endpoint::GetWorkloadPlan,
                48 => Endpoint::RunDigitalTwin,
                49 => Endpoint::RecordPlanObservation,
                50 => Endpoint::ListTraceSpans,
                51 => Endpoint::RecordTraceSpan,
                52 => Endpoint::WorkflowSchema,
                53 => Endpoint::ListWorkflows,
                54 => Endpoint::CreateWorkflow,
                55 => Endpoint::GetWorkflow,
                56 => Endpoint::StartWorkflow,
                57 => Endpoint::CreateWorkflowSchedule,
                58 => Endpoint::CreateWorkflowWebhook,
                59 => Endpoint::GetWorkflowRun,
                60 => Endpoint::TransitionWorkflowRun,
                61 => Endpoint::CreateWorkflowArtifact,
                62 => Endpoint::DownloadWorkflowArtifact,
                63 => Endpoint::ListWorkflowTemplates,
                64 => Endpoint::CreateWorkflowTemplate,
                65 => Endpoint::InstantiateWorkflowTemplate,
                66 => Endpoint::TriggerWorkflowWebhook,
                67 => Endpoint::ListPlugins,
                68 => Endpoint::InstallPlugin,
                69 => Endpoint::GrantPlugin,
                70 => Endpoint::ExecutePlugin,
                71 => Endpoint::ListPrincipals,
                72 => Endpoint::CreatePrincipal,
                73 => Endpoint::ListTeams,
                74 => Endpoint::CreateTeam,
                75 => Endpoint::ListTeamMembers,
                76 => Endpoint::PutTeamMember,
                77 => Endpoint::BeginPasskeyRegistration,
                78 => Endpoint::FinishPasskeyRegistration,
                79 => Endpoint::BeginPasskeyLogin,
                80 => Endpoint::FinishPasskeyLogin,
                81 => Endpoint::ListAuthProviders,
                82 => Endpoint::PutAuthProvider,
                83 => Endpoint::LinkExternalIdentity,
                84 => Endpoint::ListOidcLoginProviders,
                85 => Endpoint::BeginOidcLogin,
                86 => Endpoint::FinishOidcLogin,
                87 => Endpoint::ListCloudAdapters,
                88 => Endpoint::PutCloudAdapter,
                89 => Endpoint::GetControllerLease,
                90 => Endpoint::AcquireControllerLease,
                91 => Endpoint::CancelWorkload,
                92 => Endpoint::ListEvents,
                93 => Endpoint::LiveEvents,
                _ => return None,
            },
        )
    }
}

/// No two endpoints have the same place.
pub proof fn lemma_places_differ(a: Endpoint, b: Endpoint)
    requires
        place_of(a) == place_of(b),
    ensures
        a == b,
{
}

/// The complete route inventory: the route to every endpoint.
pub fn router() -> (routes: Vec<Route>)
    ensures
        forall|endpoint: Endpoint|
            exists|i: int|
                0 <= i < routes@.len() && (#[trigger] routes@[i]).endpoint == endpoint
                    && routes@[i].method == #[trigger] method_of(endpoint) && routes@[i].path@
                    == path_of(endpoint),
        forall|i: int|
            0 <= i < routes@.len() ==> (#[trigger] routes@[i]).method == method_of(
                routes@[i].endpoint,
            ) && routes@[i].path@ == path_of(routes@[i].endpoint) && place_of(routes@[i].endpoint)
                == i,
{
    let mut routes: Vec<Route> = Vec::new();
    let mut i: usize = 0;
    while i < ENDPOINTS
        invariant
            i <= ENDPOINTS,
            routes@.len() == i,
            forall|j: int|
                0 <= j < i ==> (#[trigger] routes@[j]).method == method_of(routes@[j].endpoint)
                    && routes@[j].path@ == path_of(routes@[j].endpoint) && place_of(
                    routes@[j].endpoint,
                ) == j,
        decreases ENDPOINTS - i,
    {
        if let Some(endpoint) = Endpoint::at(i) {
            routes.push(endpoint.route());
        }
        i += 1;
    }
    proof {
        assert forall|endpoint: Endpoint| exists|i: int|
            0 <= i < routes@.len() && (#[trigger] routes@[i]).endpoint == endpoint
                && routes@[i].method == #[trigger] method_of(endpoint) && routes@[i].path@
                == path_of(endpoint) by {
            let place = place_of(endpoint);
            lemma_places_differ(routes@[place].endpoint, endpoint);
        }
    }
    routes
}

/// The browser origins that may use the interface besides the configured one.
pub open spec fn known_origins() -> Seq<Seq<char>> {
    seq![
        "http://127.0.0.1:5173"@,
        "http://localhost:5173"@,
        "http://tauri.localhost"@,
        "https://tauri.localhost"@,
        "tauri://localhost"@,
    ]
}

/// The browser origins that may use the interface: the configured one first.
pub fn allowed_origins(configured: &str) -> (origins: Vec<String>)
    ensures
        origins@.len() == 1 + known_origins().len(),
        origins@[0]@ == configured@,
        forall|i: int|
            0 <= i < known_origins().len() ==> (#[trigger] origins@[i + 1])@ == known_origins()[i],
{
    let mut origins: Vec<String> = Vec::new();
    origins.push(text::owned(configured));
    origins.push(text::owned("http://127.0.0.1:5173"));
    origins.push(text::owned("http://localhost:5173"));
    origins.push(text::owned("http://tauri.localhost"));
    origins.push(text::owned("https://tauri.localhost"));
    origins.push(text::owned("tauri://localhost"));
    origins
}

/// The headers that a browser may send.
pub fn allowed_headers() -> (headers: Vec<&'static str>)
    ensures
        headers@.map_values(|header: &'static str| header@) == seq![
            "authorization"@,
            "content-type"@,
            "x-constellation-membership"@,
            "x-constellation-transfer-ticket"@,
        ],
{
    let mut headers: Vec<&'static str> = Vec::new();
    headers.push("authorization");
    headers.push("content-type");
    headers.push("x-constellation-membership");
    headers.push("x-constellation-transfer-ticket");
    headers
}

/// The methods that a browser may use.
pub fn allowed_methods() -> (methods: Vec<Method>)
    ensures
        methods@ == seq![Method::Get, Method::Post, Method::Patch, Method::Delete],
{
    let mut methods: Vec<Method> = Vec::new();
    methods.push(Method::Get);
    methods.push(Method::Post);
    methods.push(Method::Patch);
    methods.push(Method::Delete);
    methods
}

} // verus!
