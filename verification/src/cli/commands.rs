//! What each command asks of the controller.

use crate::api::auth::Method;
use crate::api::routes::{method_of, path_of, Endpoint};
use crate::cli::{get, post, posting, reading, send, sending, CliError, Request, RequestView};
use crate::digest::{base64_fits, base64url_encode, base64url_encoded, fits_base64};
use crate::ident::{format_uuid, hyphenated, Uuid};
use crate::json::{
    field_of, fields1, fields2, fields3, fields4, fields5, fields7, id_json, json_value_at,
    lemma_fields2, lemma_fields3, lemma_fields5, lemma_fields7, optional_text_json, value_at,
    Fields, Json, JsonView,
};
use crate::names::{role_to_str, role_word, Role};
use crate::text;
use crate::text::{ascii_lowercase, decimal};
use crate::workload::{class_word, policy_word, Policy, WorkloadClass};
use vstd::prelude::*;
use vstd::utf8::encode_utf8;

verus! {

/// A path with an identifier in it.
pub open spec fn around(before: Seq<char>, id: Uuid, after: Seq<char>) -> Seq<char> {
    before + hyphenated(id) + after
}

fn path_around(before: &str, id: Uuid, after: &str) -> (r: String)
    ensures
        r@ == around(before@, id, after@),
{
    text::join3(before, format_uuid(id).as_str(), after)
}

// ------------------------------------------------------------------------------------------------
// Plain commands

/// A command that one request carries out.
pub enum Command {
    Status,
    Inventory,
    Revoke { node_id: Uuid },
    Benchmarks,
    Report,
    Plan {
        model: String,
        runtime: String,
        memory_bytes: u64,
        class: WorkloadClass,
        policy: Policy,
    },
    Events { after: i64, limit: i64 },
    Cancel { workload_id: Uuid },
}

/// A whole number in decimal figures.
pub open spec fn signed_decimal(n: int) -> Seq<char> {
    if n < 0 {
        "-"@ + decimal((-n) as nat)
    } else {
        decimal(n as nat)
    }
}

/// A whole number in decimal figures.
pub fn signed_decimal_of(n: i64) -> (r: String)
    ensures
        r@ == signed_decimal(n as int),
{
    if n < 0 {
        let size: i128 = -(n as i128);
        let digits = text::decimal_of(size as u64);
        text::join2("-", digits.as_str())
    } else {
        text::decimal_of(n as u64)
    }
}

/// What a command asks of the controller.
pub open spec fn command_request(command: Command) -> RequestView {
    match command {
        Command::Status => reading("/constellation/v1/cluster"@),
        Command::Inventory => reading("/constellation/v1/devices"@),
        Command::Revoke { node_id } => posting(
            around("/constellation/v1/devices/"@, node_id, "/revoke"@),
        ),
        Command::Benchmarks => reading("/constellation/v1/benchmarks"@),
        Command::Report => reading("/constellation/v1/reports/benchmark"@),
        Command::Plan { model, runtime, memory_bytes, class, policy } => sending(
            Method::Post,
            "/constellation/v1/plans/simulate"@,
            fields5(
                ("model"@, JsonView::Text(model@)),
                ("required_runtime"@, JsonView::Text(runtime@)),
                ("estimated_memory_bytes"@, JsonView::Number(memory_bytes as int)),
                ("class"@, JsonView::Text(class_word(class))),
                ("policy"@, JsonView::Text(policy_word(policy))),
            ),
        ),
        Command::Events { after, limit } => reading(
            "/constellation/v1/events?after="@ + signed_decimal(after as int) + "&limit="@
                + signed_decimal(limit as int),
        ),
        Command::Cancel { workload_id } => posting(
            around("/constellation/v1/workloads/"@, workload_id, "/cancel"@),
        ),
    }
}

/// What a command asks of the controller.
pub fn run_command(command: Command) -> (r: Request)
    ensures
        r@ == command_request(command),
{
    match command {
        Command::Status => get("/constellation/v1/cluster"),
        Command::Inventory => get("/constellation/v1/devices"),
        Command::Revoke { node_id } => post(
            path_around("/constellation/v1/devices/", node_id, "/revoke").as_str(),
        ),
        Command::Benchmarks => get("/constellation/v1/benchmarks"),
        Command::Report => get("/constellation/v1/reports/benchmark"),
        Command::Plan { model, runtime, memory_bytes, class, policy } => {
            let body = Fields::new().text("model", model.as_str()).text(
                "required_runtime",
                runtime.as_str(),
            ).number("estimated_memory_bytes", memory_bytes as i128).text(
                "class",
                class.as_api(),
            ).text("policy", policy.as_api()).object();
            send(Method::Post, "/constellation/v1/plans/simulate", body)
        },
        Command::Events { after, limit } => {
            let start = text::join3(
                "/constellation/v1/events?after=",
                signed_decimal_of(after).as_str(),
                "&limit=",
            );
            get(text::join2(start.as_str(), signed_decimal_of(limit).as_str()).as_str())
        },
        Command::Cancel { workload_id } => post(
            path_around("/constellation/v1/workloads/", workload_id, "/cancel").as_str(),
        ),
    }
}

// ------------------------------------------------------------------------------------------------
// Workflows

/// A command on workflows. A definition and an event are documents that have been read and encoded
/// again; inputs and metadata are texts that the operator typed.
#[allow(inconsistent_fields)]
pub enum WorkflowCommand {
    List,
    Create { definition: Vec<u8> },
    Get { workflow_id: Uuid },
    Run { workflow_id: Uuid, inputs: String },
    Inspect { run_id: Uuid },
    Event { run_id: Uuid, event: Vec<u8> },
    Schedule { workflow_id: Uuid, cron_utc: String, concurrency_limit: u16 },
    Webhook { workflow_id: Uuid },
    Artifact { run_id: Uuid, step_id: String, name: String, media_type: String, content: Vec<u8> },
    TemplateList,
    TemplateCreate { workflow_id: Uuid, name: String, metadata: String },
    TemplateInstantiate { template_id: Uuid, name: Option<String> },
}

/// Whether a definition is written in YAML, by the extension of its file; else it is JSON.
pub open spec fn yaml_extension(extension: Seq<char>) -> bool {
    ascii_lowercase(extension) == "yaml"@ || ascii_lowercase(extension) == "yml"@
}

/// Whether a definition is written in YAML, by the extension of its file; else it is JSON.
pub fn is_yaml(extension: Option<&str>) -> (r: bool)
    ensures
        r == (extension matches Some(extension) && yaml_extension(extension@)),
{
    match extension {
        Some(extension) => {
            let lower = text::to_ascii_lowercase(extension);
            text::same(lower.as_str(), "yaml") || text::same(lower.as_str(), "yml")
        },
        None => false,
    }
}

/// A text that has to be a JSON object, as it is encoded. The two errors are for one that is no JSON
/// and for one that is no object.
pub open spec fn object_text(text: Seq<char>, undecodable: CliError, other: CliError) -> Result<
    Seq<u8>,
    CliError,
> {
    match json_value_at(encode_utf8(text), ""@) {
        None => Err(undecodable),
        Some(encoded) => if encoded.len() > 0 && encoded[0] == 123u8 {
            Ok(encoded)
        } else {
            Err(other)
        },
    }
}

fn read_object(typed: &str, undecodable: CliError, other: CliError) -> (r: Result<
    Vec<u8>,
    CliError,
>)
    ensures
        match object_text(typed@, undecodable, other) {
            Ok(encoded) => r matches Ok(found) && found@ == encoded,
            Err(error) => r == Err::<Vec<u8>, _>(error),
        },
{
    match value_at(typed.as_bytes(), "") {
        Some(encoded) => {
            if encoded.len() > 0 && encoded[0] == 123 {
                Ok(encoded)
            } else {
                Err(other)
            }
        },
        None => Err(undecodable),
    }
}

/// What a command on workflows asks of the controller.
pub open spec fn workflow_request(command: WorkflowCommand) -> Result<RequestView, CliError> {
    match command {
        WorkflowCommand::List => Ok(reading("/constellation/v1/workflows"@)),
        WorkflowCommand::Create { definition } => Ok(
            sending(
                Method::Post,
                "/constellation/v1/workflows"@,
                fields1(("definition"@, JsonView::Document(definition@))),
            ),
        ),
        WorkflowCommand::Get { workflow_id } => Ok(
            reading(around("/constellation/v1/workflows/"@, workflow_id, ""@)),
        ),
        WorkflowCommand::Run { workflow_id, inputs } => match object_text(
            inputs@,
            CliError::UndecodableInputs,
            CliError::InputsNotObject,
        ) {
            Ok(inputs) => Ok(
                sending(
                    Method::Post,
                    around("/constellation/v1/workflows/"@, workflow_id, "/runs"@),
                    fields1(("inputs"@, JsonView::Document(inputs))),
                ),
            ),
            Err(error) => Err(error),
        },
        WorkflowCommand::Inspect { run_id } => Ok(
            reading(around("/constellation/v1/workflow-runs/"@, run_id, ""@)),
        ),
        WorkflowCommand::Event { run_id, event } => Ok(
            sending(
                Method::Post,
                around("/constellation/v1/workflow-runs/"@, run_id, "/events"@),
                fields1(("event"@, JsonView::Document(event@))),
            ),
        ),
        WorkflowCommand::Schedule { workflow_id, cron_utc, concurrency_limit } => Ok(
            sending(
                Method::Post,
                around("/constellation/v1/workflows/"@, workflow_id, "/schedules"@),
                fields3(
                    ("cron_utc"@, JsonView::Text(cron_utc@)),
                    ("enabled"@, JsonView::Bool(true)),
                    ("concurrency_limit"@, JsonView::Number(concurrency_limit as int)),
                ),
            ),
        ),
        WorkflowCommand::Webhook { workflow_id } => Ok(
            posting(around("/constellation/v1/workflows/"@, workflow_id, "/webhooks"@)),
        ),
        WorkflowCommand::Artifact { run_id, step_id, name, media_type, content } => Ok(
            sending(
                Method::Post,
                around("/constellation/v1/workflow-runs/"@, run_id, "/artifacts"@),
                fields4(
                    ("step_id"@, JsonView::Text(step_id@)),
                    ("name"@, JsonView::Text(name@)),
                    ("media_type"@, JsonView::Text(media_type@)),
                    ("content_base64"@, JsonView::Text(base64url_encoded(content@))),
                ),
            ),
        ),
        WorkflowCommand::TemplateList => Ok(reading("/constellation/v1/workflow-templates"@)),
        WorkflowCommand::TemplateCreate { workflow_id, name, metadata } => match object_text(
            metadata@,
            CliError::UndecodableMetadata,
            CliError::MetadataNotObject,
        ) {
            Ok(metadata) => Ok(
                sending(
                    Method::Post,
                    "/constellation/v1/workflow-templates"@,
                    fields3(
                        ("workflow_id"@, id_json(workflow_id)),
                        ("name"@, JsonView::Text(name@)),
                        ("metadata"@, JsonView::Document(metadata)),
                    ),
                ),
            ),
            Err(error) => Err(error),
        },
        WorkflowCommand::TemplateInstantiate { template_id, name } => Ok(
            sending(
                Method::Post,
                around("/constellation/v1/workflow-templates/"@, template_id, "/instantiate"@),
                fields1(("name"@, optional_text_json(name))),
            ),
        ),
    }
}

/// What a command on workflows asks of the controller.
pub fn run_workflow_command(command: WorkflowCommand) -> (r: Result<Request, CliError>)
    requires
        command matches WorkflowCommand::Artifact { content, .. } ==> base64_fits(
            content@.len(),
        ),
    ensures
        match workflow_request(command) {
            Ok(request) => r matches Ok(made) && made@ == request,
            Err(error) => r == Err::<Request, _>(error),
        },
{
    match command {
        WorkflowCommand::List => Ok(get("/constellation/v1/workflows")),
        WorkflowCommand::Create { definition } => {
            let body = Fields::new().document("definition", definition).object();
            Ok(send(Method::Post, "/constellation/v1/workflows", body))
        },
        WorkflowCommand::Get { workflow_id } => Ok(
            get(path_around("/constellation/v1/workflows/", workflow_id, "").as_str()),
        ),
        WorkflowCommand::Run { workflow_id, inputs } => {
            let inputs = match read_object(
                inputs.as_str(),
                CliError::UndecodableInputs,
                CliError::InputsNotObject,
            ) {
                Ok(inputs) => inputs,
                Err(error) => return Err(error),
            };
            let path = path_around("/constellation/v1/workflows/", workflow_id, "/runs");
            let body = Fields::new().document("inputs", inputs).object();
            Ok(send(Method::Post, path.as_str(), body))
        },
        WorkflowCommand::Inspect { run_id } => Ok(
            get(path_around("/constellation/v1/workflow-runs/", run_id, "").as_str()),
        ),
        WorkflowCommand::Event { run_id, event } => {
            let path = path_around("/constellation/v1/workflow-runs/", run_id, "/events");
            let body = Fields::new().document("event", event).object();
            Ok(send(Method::Post, path.as_str(), body))
        },
        WorkflowCommand::Schedule { workflow_id, cron_utc, concurrency_limit } => {
            let path = path_around("/constellation/v1/workflows/", workflow_id, "/schedules");
            let body = Fields::new().text("cron_utc", cron_utc.as_str()).flag(
                "enabled",
                true,
            ).number("concurrency_limit", concurrency_limit as i128).object();
            Ok(send(Method::Post, path.as_str(), body))
        },
        WorkflowCommand::Webhook { workflow_id } => Ok(
            post(path_around("/constellation/v1/workflows/", workflow_id, "/webhooks").as_str()),
        ),
        WorkflowCommand::Artifact { run_id, step_id, name, media_type, content } => {
            let path = path_around("/constellation/v1/workflow-runs/", run_id, "/artifacts");
            let encoded = base64url_encode(content.as_slice());
            let body = Fields::new().text("step_id", step_id.as_str()).text(
                "name",
                name.as_str(),
            ).text("media_type", media_type.as_str()).text(
                "content_base64",
                encoded.as_str(),
            ).object();
            Ok(send(Method::Post, path.as_str(), body))
        },
        WorkflowCommand::TemplateList => Ok(get("/constellation/v1/workflow-templates")),
        WorkflowCommand::TemplateCreate { workflow_id, name, metadata } => {
            let metadata = match read_object(
                metadata.as_str(),
                CliError::UndecodableMetadata,
                CliError::MetadataNotObject,
            ) {
                Ok(metadata) => metadata,
                Err(error) => return Err(error),
            };
            let body = Fields::new().id("workflow_id", workflow_id).text(
                "name",
                name.as_str(),
            ).document("metadata", metadata).object();
            Ok(send(Method::Post, "/constellation/v1/workflow-templates", body))
        },
        WorkflowCommand::TemplateInstantiate { template_id, name } => {
            let path = path_around(
                "/constellation/v1/workflow-templates/",
                template_id,
                "/instantiate",
            );
            let body = Fields::new().optional_string("name", &name).object();
            Ok(send(Method::Post, path.as_str(), body))
        },
    }
}

/// What a command on workflows asks of the controller, where what it sends is not too long to be sent.
pub fn checked_workflow_command(command: WorkflowCommand) -> (r: Option<Result<Request, CliError>>)
    ensures
        r is None == (command matches WorkflowCommand::Artifact { content, .. } && !base64_fits(
            content@.len(),
        )),
        r matches Some(answer) ==> match workflow_request(command) {
            Ok(request) => answer matches Ok(made) && made@ == request,
            Err(error) => answer == Err::<Request, _>(error),
        },
{
    if let WorkflowCommand::Artifact { content, .. } = &command {
        if !fits_base64(content.len()) {
            return None;
        }
    }
    Some(run_workflow_command(command))
}

// ------------------------------------------------------------------------------------------------
// Plugins

/// A command on plugins. A manifest and permissions are documents that have been read and encoded
/// again.
pub enum PluginCommand {
    List,
    Install { manifest: Vec<u8>, component: Vec<u8> },
    Grant { plugin_id: String, permissions: Vec<u8> },
    Execute { plugin_id: String, input: String },
}

/// What a command on plugins asks of the controller.
pub open spec fn plugin_request(command: PluginCommand) -> RequestView {
    match command {
        PluginCommand::List => reading("/constellation/v1/plugins"@),
        PluginCommand::Install { manifest, component } => sending(
            Method::Post,
            "/constellation/v1/plugins/install"@,
            fields2(
                ("manifest"@, JsonView::Document(manifest@)),
                ("component_base64"@, JsonView::Text(base64url_encoded(component@))),
            ),
        ),
        PluginCommand::Grant { plugin_id, permissions } => sending(
            Method::Post,
            "/constellation/v1/plugins/"@ + plugin_id@ + "/grant"@,
            fields1(("permissions"@, JsonView::Document(permissions@))),
        ),
        PluginCommand::Execute { plugin_id, input } => sending(
            Method::Post,
            "/constellation/v1/plugins/"@ + plugin_id@ + "/execute"@,
            fields1(("input"@, JsonView::Text(input@))),
        ),
    }
}

/// What a command on plugins asks of the controller.
pub fn run_plugin_command(command: PluginCommand) -> (r: Request)
    requires
        command matches PluginCommand::Install { component, .. } ==> base64_fits(
            component@.len(),
        ),
    ensures
        r@ == plugin_request(command),
{
    match command {
        PluginCommand::List => get("/constellation/v1/plugins"),
        PluginCommand::Install { manifest, component } => {
            let encoded = base64url_encode(component.as_slice());
            let body = Fields::new().document("manifest", manifest).text(
                "component_base64",
                encoded.as_str(),
            ).object();
            send(Method::Post, "/constellation/v1/plugins/install", body)
        },
        PluginCommand::Grant { plugin_id, permissions } => {
            let path = text::join3("/constellation/v1/plugins/", plugin_id.as_str(), "/grant");
            let body = Fields::new().document("permissions", permissions).object();
            send(Method::Post, path.as_str(), body)
        },
        PluginCommand::Execute { plugin_id, input } => {
            let path = text::join3("/constellation/v1/plugins/", plugin_id.as_str(), "/execute");
            let body = Fields::new().text("input", input.as_str()).object();
            send(Method::Post, path.as_str(), body)
        },
    }
}

/// What a command on plugins asks of the controller, where what it sends is not too long to be sent.
pub fn checked_plugin_command(command: PluginCommand) -> (r: Option<Request>)
    ensures
        r is None == (command matches PluginCommand::Install { component, .. } && !base64_fits(
            component@.len(),
        )),
        r matches Some(request) ==> request@ == plugin_request(command),
{
    if let PluginCommand::Install { component, .. } = &command {
        if !fits_base64(component.len()) {
            return None;
        }
    }
    Some(run_plugin_command(command))
}

// ------------------------------------------------------------------------------------------------
// Principals and teams

/// A role that the operator can give.
#[derive(Clone, Copy, Debug, PartialEq, Eq, Structural)]
pub enum PrincipalRole {
    Admin,
    Operator,
    Viewer,
    Service,
}

/// The role in the cluster.
pub open spec fn given_role(role: PrincipalRole) -> Role {
    match role {
        PrincipalRole::Admin => Role::Admin,
        PrincipalRole::Operator => Role::Operator,
        PrincipalRole::Viewer => Role::Viewer,
        PrincipalRole::Service => Role::Service,
    }
}

impl PrincipalRole {
    /// The role in the cluster.
    pub fn into_role(self) -> (r: Role)
        ensures
            r == given_role(self),
    {
        match self {
            PrincipalRole::Admin => Role::Admin,
            PrincipalRole::Operator => Role::Operator,
            PrincipalRole::Viewer => Role::Viewer,
            PrincipalRole::Service => Role::Service,
        }
    }
}

/// A command on principals. Scopes are a document that has been read and encoded again.
pub enum PrincipalCommand {
    List,
    Create { name: String, role: PrincipalRole, scopes: Vec<u8> },
}

/// What a command on principals asks of the controller.
pub open spec fn principal_request(command: PrincipalCommand) -> RequestView {
    match command {
        PrincipalCommand::List => reading("/constellation/v1/principals"@),
        PrincipalCommand::Create { name, role, scopes } => sending(
            Method::Post,
            "/constellation/v1/principals"@,
            fields3(
                ("name"@, JsonView::Text(name@)),
                ("role"@, JsonView::Text(role_word(given_role(role)))),
                ("scopes"@, JsonView::Document(scopes@)),
            ),
        ),
    }
}

/// What a command on principals asks of the controller.
pub fn run_principal_command(command: PrincipalCommand) -> (r: Request)
    ensures
        r@ == principal_request(command),
{
    match command {
        PrincipalCommand::List => get("/constellation/v1/principals"),
        PrincipalCommand::Create { name, role, scopes } => {
            let body = Fields::new().text("name", name.as_str()).text(
                "role",
                role_to_str(role.into_role()),
            ).document("scopes", scopes).object();
            send(Method::Post, "/constellation/v1/principals", body)
        },
    }
}

/// A command on teams.
pub enum TeamCommand {
    List,
    Create { name: String },
    AddMember { team_id: Uuid, principal_id: Uuid, role: PrincipalRole },
}

/// What a command on teams asks of the controller.
pub open spec fn team_request(command: TeamCommand) -> RequestView {
    match command {
        TeamCommand::List => reading("/constellation/v1/teams"@),
        TeamCommand::Create { name } => sending(
            Method::Post,
            "/constellation/v1/teams"@,
            fields1(("name"@, JsonView::Text(name@))),
        ),
        TeamCommand::AddMember { team_id, principal_id, role } => sending(
            Method::Post,
            around("/constellation/v1/teams/"@, team_id, "/members"@),
            fields2(
                ("principal_id"@, id_json(principal_id)),
                ("role"@, JsonView::Text(role_word(given_role(role)))),
            ),
        ),
    }
}

/// What a command on teams asks of the controller.
pub fn run_team_command(command: TeamCommand) -> (r: Request)
    ensures
        r@ == team_request(command),
{
    match command {
        TeamCommand::List => get("/constellation/v1/teams"),
        TeamCommand::Create { name } => {
            let body = Fields::new().text("name", name.as_str()).object();
            send(Method::Post, "/constellation/v1/teams", body)
        },
        TeamCommand::AddMember { team_id, principal_id, role } => {
            let path = path_around("/constellation/v1/teams/", team_id, "/members");
            let body = Fields::new().id("principal_id", principal_id).text(
                "role",
                role_to_str(role.into_role()),
            ).object();
            send(Method::Post, path.as_str(), body)
        },
    }
}

// ------------------------------------------------------------------------------------------------
// Invitations

/// A command on invitations.
#[derive(Clone, Copy)]
pub enum InvitationCommand {
    Create,
    List,
    Approve { invitation_id: Uuid },
}

/// What a command on invitations asks of the controller.
pub fn run_invitation_command(command: InvitationCommand) -> (r: Request)
    ensures
        r@ == match command {
            InvitationCommand::Create => posting("/constellation/v1/invitations"@),
            InvitationCommand::List => reading("/constellation/v1/invitations"@),
            InvitationCommand::Approve { invitation_id } => posting(
                around("/constellation/v1/invitations/"@, invitation_id, "/approve"@),
            ),
        },
{
    match command {
        InvitationCommand::Create => post("/constellation/v1/invitations"),
        InvitationCommand::List => get("/constellation/v1/invitations"),
        InvitationCommand::Approve { invitation_id } => post(
            path_around("/constellation/v1/invitations/", invitation_id, "/approve").as_str(),
        ),
    }
}

// ------------------------------------------------------------------------------------------------
// Models

/// A command on models.
pub enum ModelCommand {
    List,
    Import {
        path: String,
        alias: String,
        format: String,
        quantization: Option<String>,
        license: String,
        accept_license: bool,
        pin: bool,
    },
    Verify { alias: String },
    Pin { alias: String, pinned: bool },
    Remove { alias: String, yes: bool },
    /// Asks for a ticket with which a chunk can be downloaded to a file, which is there or not.
    TransferChunk {
        alias: String,
        chunk_sha256: String,
        destination_node: Uuid,
        output_exists: bool,
    },
}

/// What a command on models asks of the controller. An import needs the license to be accepted, a
/// removal needs to be confirmed, and a chunk goes to a new file only.
pub open spec fn model_request(command: ModelCommand) -> Result<RequestView, CliError> {
    match command {
        ModelCommand::List => Ok(reading("/constellation/v1/models"@)),
        ModelCommand::Import {
            path,
            alias,
            format,
            quantization,
            license,
            accept_license,
            pin,
        } => if accept_license {
            Ok(
                sending(
                    Method::Post,
                    "/constellation/v1/models/import"@,
                    fields7(
                        ("path"@, JsonView::Text(path@)),
                        ("alias"@, JsonView::Text(alias@)),
                        ("format"@, JsonView::Text(format@)),
                        ("quantization"@, optional_text_json(quantization)),
                        ("license_id"@, JsonView::Text(license@)),
                        ("license_accepted"@, JsonView::Bool(true)),
                        ("pinned"@, JsonView::Bool(pin)),
                    ),
                ),
            )
        } else {
            Err(CliError::LicenseNotAccepted)
        },
        ModelCommand::Verify { alias } => Ok(
            sending(
                Method::Post,
                "/constellation/v1/models/verify"@,
                fields1(("alias"@, JsonView::Text(alias@))),
            ),
        ),
        ModelCommand::Pin { alias, pinned } => Ok(
            sending(
                Method::Patch,
                "/constellation/v1/models/pin"@,
                fields2(("alias"@, JsonView::Text(alias@)), ("pinned"@, JsonView::Bool(pinned))),
            ),
        ),
        ModelCommand::Remove { alias, yes } => if yes {
            Ok(
                sending(
                    Method::Post,
                    "/constellation/v1/models/remove"@,
                    fields1(("alias"@, JsonView::Text(alias@))),
                ),
            )
        } else {
            Err(CliError::RemovalNotConfirmed)
        },
        ModelCommand::TransferChunk { alias, chunk_sha256, destination_node, output_exists } => {
            if output_exists {
                Err(CliError::ChunkExists)
            } else {
                Ok(
                    sending(
                        Method::Post,
                        "/constellation/v1/models/transfer-tickets"@,
                        fields3(
                            ("alias"@, JsonView::Text(alias@)),
                            ("chunk_sha256"@, JsonView::Text(chunk_sha256@)),
                            ("destination_node"@, id_json(destination_node)),
                        ),
                    ),
                )
            }
        },
    }
}

/// What a command on models asks of the controller.
pub fn run_model_command(command: ModelCommand) -> (r: Result<Request, CliError>)
    ensures
        match model_request(command) {
            Ok(request) => r matches Ok(made) && made@ == request,
            Err(error) => r == Err::<Request, _>(error),
        },
{
    match command {
        ModelCommand::List => Ok(get("/constellation/v1/models")),
        ModelCommand::Import {
            path,
            alias,
            format,
            quantization,
            license,
            accept_license,
            pin,
        } => {
            if !accept_license {
                return Err(CliError::LicenseNotAccepted);
            }
            let body = Fields::new().text("path", path.as_str()).text(
                "alias",
                alias.as_str(),
            ).text("format", format.as_str()).optional_string("quantization", &quantization).text(
                "license_id",
                license.as_str(),
            ).flag("license_accepted", true).flag("pinned", pin).object();
            Ok(send(Method::Post, "/constellation/v1/models/import", body))
        },
        ModelCommand::Verify { alias } => {
            let body = Fields::new().text("alias", alias.as_str()).object();
            Ok(send(Method::Post, "/constellation/v1/models/verify", body))
        },
        ModelCommand::Pin { alias, pinned } => {
            let body = Fields::new().text("alias", alias.as_str()).flag("pinned", pinned).object();
            Ok(send(Method::Patch, "/constellation/v1/models/pin", body))
        },
        ModelCommand::Remove { alias, yes } => {
            if !yes {
                return Err(CliError::RemovalNotConfirmed);
            }
            let body = Fields::new().text("alias", alias.as_str()).object();
            Ok(send(Method::Post, "/constellation/v1/models/remove", body))
        },
        ModelCommand::TransferChunk { alias, chunk_sha256, destination_node, output_exists } => {
            if output_exists {
                return Err(CliError::ChunkExists);
            }
            let body = Fields::new().text("alias", alias.as_str()).text(
                "chunk_sha256",
                chunk_sha256.as_str(),
            ).id("destination_node", destination_node).object();
            Ok(send(Method::Post, "/constellation/v1/models/transfer-tickets", body))
        },
    }
}

/// What is shown once a chunk has been downloaded and checked; the ticket's identifier is a document
/// as the controller encoded it.
pub fn run_model_transfer(
    chunk_sha256: &str,
    destination_node: Uuid,
    output: &str,
    ticket: &[u8],
) -> (r: Json)
    ensures
        r@ == JsonView::Object(
            fields5(
                ("status"@, JsonView::Text("verified"@)),
                ("chunk_sha256"@, JsonView::Text(chunk_sha256@)),
                ("destination_node"@, id_json(destination_node)),
                ("output"@, JsonView::Text(output@)),
                (
                    "ticket_id"@,
                    match json_value_at(ticket@, "/id"@) {
                        Some(id) => JsonView::Document(id),
                        None => JsonView::Null,
                    },
                ),
            ),
        ),
{
    let ticket_id = match value_at(ticket, "/id") {
        Some(id) => Json::Document(id),
        None => Json::Null,
    };
    Fields::new().text("status", "verified").text("chunk_sha256", chunk_sha256).id(
        "destination_node",
        destination_node,
    ).text("output", output).with("ticket_id", ticket_id).object()
}

// ------------------------------------------------------------------------------------------------
// Secrets

/// Whether a secret may be stored under a reference.
pub open spec fn valid_reference(reference: Seq<char>) -> bool {
    &&& 1 <= encode_utf8(reference).len() <= 128
    &&& forall|i: int|
        0 <= i < encode_utf8(reference).len() ==> reference_byte(#[trigger] encode_utf8(reference)[i])
}

/// Whether a byte may stand in a reference: a letter or a figure of ASCII, `_`, `-` or `.`.
pub open spec fn reference_byte(b: u8) -> bool {
    48 <= b <= 57 || 65 <= b <= 90 || 97 <= b <= 122 || b == 95 || b == 45 || b == 46
}

/// Checks the reference under which a secret is to be stored.
pub fn check_reference(reference: &str) -> (r: Result<(), CliError>)
    ensures
        r == (if valid_reference(reference@) {
            Ok(())
        } else {
            Err(CliError::InvalidReference)
        }),
{
    let bytes = reference.as_bytes();
    if bytes.len() == 0 || bytes.len() > 128 {
        return Err(CliError::InvalidReference);
    }
    let mut i: usize = 0;
    while i < bytes.len()
        invariant
            i <= bytes@.len(),
            bytes@ == encode_utf8(reference@),
            forall|j: int| 0 <= j < i ==> reference_byte(#[trigger] bytes@[j]),
        decreases bytes@.len() - i,
    {
        let b: u8 = bytes[i];
        if !((48 <= b && b <= 57) || (65 <= b && b <= 90) || (97 <= b && b <= 122) || b == 95 || b
            == 45 || b == 46) {
            assert(!reference_byte(encode_utf8(reference@)[i as int]));
            return Err(CliError::InvalidReference);
        }
        i += 1;
    }
    Ok(())
}

/// A secret as it is stored: without the line ends that follow it.
pub open spec fn secret_kept(secret: Seq<char>) -> Seq<char>
    decreases secret.len(),
{
    if secret.len() > 0 && (secret.last() == '\r' || secret.last() == '\n') {
        secret_kept(secret.drop_last())
    } else {
        secret
    }
}

/// A secret as it is stored: without the line ends that follow it.
pub fn run_secret_command<'a>(secret: &'a str) -> (r: &'a str)
    ensures
        r@ == secret_kept(secret@),
{
    let mut n: usize = secret.unicode_len();
    assert(secret@.take(n as int) =~= secret@);
    while n > 0 && (secret.get_char(n - 1) == '\r' || secret.get_char(n - 1) == '\n')
        invariant
            n <= secret@.len(),
            secret_kept(secret@.take(n as int)) == secret_kept(secret@),
        decreases n,
    {
        assert(secret@.take(n as int).drop_last() =~= secret@.take(n - 1));
        n -= 1;
    }
    let kept = secret.substring_char(0, n);
    assert(kept@ =~= secret@.take(n as int));
    kept
}

// ------------------------------------------------------------------------------------------------
// Diagnostics and workers

/// What is shown of the controller's state, from what it answered on its health, its readiness, the
/// cluster and the models.
pub fn run_diagnostics(health: Vec<u8>, ready: Vec<u8>, cluster: Vec<u8>, models: Vec<u8>) -> (r:
    Json)
    ensures
        r@ == JsonView::Object(
            fields5(
                ("health"@, JsonView::Document(health@)),
                ("ready"@, JsonView::Document(ready@)),
                ("cluster"@, JsonView::Document(cluster@)),
                ("models"@, JsonView::Document(models@)),
                ("content_included"@, JsonView::Bool(false)),
            ),
        ),
{
    Fields::new().document("health", health).document("ready", ready).document(
        "cluster",
        cluster,
    ).document("models", models).flag("content_included", false).object()
}

/// The fields of the measurements that a worker reports of its built-in runtime. Numbers with a
/// fraction are bit patterns of IEEE 754 doubles.
pub open spec fn worker_benchmark(node_id: Uuid, now: i128) -> Seq<(Seq<char>, JsonView)> {
    Seq::empty().push(("node_id"@, id_json(node_id))).push(
        ("runtime"@, JsonView::Text("mock"@)),
    ).push(("model"@, JsonView::Text("constellation/mock"@))).push(
        ("tokens_per_second"@, JsonView::Real(0x408f_4000_0000_0000)),
    ).push(("time_to_first_token_ms"@, JsonView::Real(0x4014_0000_0000_0000))).push(
        ("network_latency_ms"@, JsonView::Real(0x3ff0_0000_0000_0000)),
    ).push(("network_bandwidth_mbps"@, JsonView::Real(0x408f_4000_0000_0000))).push(
        ("jitter_ms"@, JsonView::Real(0x3fb9_9999_9999_999a)),
    ).push(("packet_loss"@, JsonView::Real(0))).push(("sample_count"@, JsonView::Number(5))).push(
        ("kind"@, JsonView::Text("measured"@)),
    ).push(("measured_at"@, JsonView::Moment(now)))
}

/// The report that a worker makes of its built-in runtime before it polls for work.
pub fn run_worker(node_id: Uuid, now: i128) -> (r: Request)
    ensures
        r@ == sending(
            Method::Post,
            "/constellation/v1/benchmarks"@,
            worker_benchmark(node_id, now),
        ),
{
    let body = Fields::new().id("node_id", node_id).text("runtime", "mock").text(
        "model",
        "constellation/mock",
    ).with("tokens_per_second", Json::Real(0x408f_4000_0000_0000)).with(
        "time_to_first_token_ms",
        Json::Real(0x4014_0000_0000_0000),
    ).with("network_latency_ms", Json::Real(0x3ff0_0000_0000_0000)).with(
        "network_bandwidth_mbps",
        Json::Real(0x408f_4000_0000_0000),
    ).with("jitter_ms", Json::Real(0x3fb9_9999_9999_999a)).with("packet_loss", Json::Real(0)).number(
        "sample_count",
        5,
    ).text("kind", "measured").moment("measured_at", now).object();
    send(Method::Post, "/constellation/v1/benchmarks", body)
}

/// Whether a poll brought a lease, and the lease as it is encoded.
pub fn polled_lease(reply: &[u8]) -> (r: Option<Vec<u8>>)
    ensures
        match json_value_at(reply@, "/lease"@) {
            Some(lease) if lease != crate::cli::null_text() => r matches Some(found) && found@
                == lease,
            _ => r is None,
        },
{
    match value_at(reply, "/lease") {
        Some(lease) => {
            if crate::cli::is_null(lease.as_slice()) {
                None
            } else {
                Some(lease)
            }
        },
        None => None,
    }
}

// ------------------------------------------------------------------------------------------------
// Laws

/// Nothing is removed and nothing is imported unless the operator has said so.
pub proof fn law_models_change_on_request(command: ModelCommand)
    ensures
        model_request(command) matches Ok(request) ==> match command {
            ModelCommand::Import { accept_license, .. } => accept_license,
            ModelCommand::Remove { yes, .. } => yes,
            ModelCommand::TransferChunk { output_exists, .. } => !output_exists,
            _ => true,
        },
{
}

// ------------------------------------------------------------------------------------------------
// Commands and the controller's endpoints

/// Whether a request is one to an endpoint with a path of its own.
pub open spec fn reaches(request: RequestView, endpoint: Endpoint) -> bool {
    request.method == method_of(endpoint) && request.path == path_of(endpoint)
}

/// Whether a route has one parameter of that name, between two texts.
pub open spec fn fits(route: Seq<char>, before: Seq<char>, name: Seq<char>, after: Seq<char>) -> bool {
    route == before + seq!['{'] + name + seq!['}'] + after
}

/// Whether a path is that route with a value in the place of its parameter.
pub open spec fn stands(
    path: Seq<char>,
    route: Seq<char>,
    value: Seq<char>,
    before: Seq<char>,
    name: Seq<char>,
    after: Seq<char>,
) -> bool {
    fits(route, before, name, after) && path == before + value + after
}

/// Whether a request is one to an endpoint, with a value in the place of the path's parameter.
pub open spec fn addresses(request: RequestView, endpoint: Endpoint, value: Seq<char>) -> bool {
    &&& request.method == method_of(endpoint)
    &&& exists|before: Seq<char>, name: Seq<char>, after: Seq<char>| #[trigger]
        stands(request.path, path_of(endpoint), value, before, name, after)
}

/// Each command goes to the endpoint that does what it asks for.
pub proof fn law_commands_reach_their_endpoints(
    plan: Command,
    bytes: Vec<u8>,
    word: String,
    role: PrincipalRole,
    pinned: bool,
)
    ensures
        reaches(command_request(Command::Status), Endpoint::ClusterSummary),
        reaches(command_request(Command::Inventory), Endpoint::ListDevices),
        reaches(command_request(Command::Benchmarks), Endpoint::ListBenchmarks),
        reaches(command_request(Command::Report), Endpoint::ExportBenchmarkReport),
        plan is Plan ==> reaches(command_request(plan), Endpoint::SimulatePlan),
        reaches(workflow_request(WorkflowCommand::List)->Ok_0, Endpoint::ListWorkflows),
        reaches(workflow_request(WorkflowCommand::Create { definition: bytes })->Ok_0, Endpoint::CreateWorkflow),
        reaches(workflow_request(WorkflowCommand::TemplateList)->Ok_0, Endpoint::ListWorkflowTemplates),
        reaches(plugin_request(PluginCommand::List), Endpoint::ListPlugins),
        reaches(plugin_request(PluginCommand::Install { manifest: bytes, component: bytes }), Endpoint::InstallPlugin),
        reaches(principal_request(PrincipalCommand::List), Endpoint::ListPrincipals),
        reaches(principal_request(PrincipalCommand::Create { name: word, role, scopes: bytes }), Endpoint::CreatePrincipal),
        reaches(team_request(TeamCommand::List), Endpoint::ListTeams),
        reaches(team_request(TeamCommand::Create { name: word }), Endpoint::CreateTeam),
        reaches(model_request(ModelCommand::List)->Ok_0, Endpoint::ListLocalModels),
        reaches(model_request(ModelCommand::Verify { alias: word })->Ok_0, Endpoint::VerifyLocalModel),
        reaches(model_request(ModelCommand::Pin { alias: word, pinned })->Ok_0, Endpoint::PinLocalModel),
        reaches(model_request(ModelCommand::Remove { alias: word, yes: true })->Ok_0, Endpoint::RemoveLocalModel),
{
}

proof fn lemma_route_revoke_device()
    ensures
        fits(path_of(Endpoint::RevokeDevice), "/constellation/v1/devices/"@, "node_id"@, "/revoke"@),
{
    reveal_strlit("/constellation/v1/devices/");
    reveal_strlit("node_id");
    reveal_strlit("/revoke");
    reveal_strlit("/constellation/v1/devices/{node_id}/revoke");
    assert("/constellation/v1/devices/{node_id}/revoke"@ =~= "/constellation/v1/devices/"@ + seq!['{'] + "node_id"@ + seq!['}'] + "/revoke"@);
}

proof fn lemma_route_cancel_workload()
    ensures
        fits(path_of(Endpoint::CancelWorkload), "/constellation/v1/workloads/"@, "workload_id"@, "/cancel"@),
{
    reveal_strlit("/constellation/v1/workloads/");
    reveal_strlit("workload_id");
    reveal_strlit("/cancel");
    reveal_strlit("/constellation/v1/workloads/{workload_id}/cancel");
    assert("/constellation/v1/workloads/{workload_id}/cancel"@ =~= "/constellation/v1/workloads/"@ + seq!['{'] + "workload_id"@ + seq!['}'] + "/cancel"@);
}

proof fn lemma_route_get_workflow()
    ensures
        fits(path_of(Endpoint::GetWorkflow), "/constellation/v1/workflows/"@, "workflow_id"@, ""@),
{
    reveal_strlit("/constellation/v1/workflows/");
    reveal_strlit("workflow_id");
    reveal_strlit("");
    reveal_strlit("/constellation/v1/workflows/{workflow_id}");
    assert("/constellation/v1/workflows/{workflow_id}"@ =~= "/constellation/v1/workflows/"@ + seq!['{'] + "workflow_id"@ + seq!['}'] + ""@);
}

proof fn lemma_route_get_workflow_run()
    ensures
        fits(path_of(Endpoint::GetWorkflowRun), "/constellation/v1/workflow-runs/"@, "run_id"@, ""@),
{
    reveal_strlit("/constellation/v1/workflow-runs/");
    reveal_strlit("run_id");
    reveal_strlit("");
    reveal_strlit("/constellation/v1/workflow-runs/{run_id}");
    assert("/constellation/v1/workflow-runs/{run_id}"@ =~= "/constellation/v1/workflow-runs/"@ + seq!['{'] + "run_id"@ + seq!['}'] + ""@);
}

proof fn lemma_route_transition_workflow_run()
    ensures
        fits(path_of(Endpoint::TransitionWorkflowRun), "/constellation/v1/workflow-runs/"@, "run_id"@, "/events"@),
{
    reveal_strlit("/constellation/v1/workflow-runs/");
    reveal_strlit("run_id");
    reveal_strlit("/events");
    reveal_strlit("/constellation/v1/workflow-runs/{run_id}/events");
    assert("/constellation/v1/workflow-runs/{run_id}/events"@ =~= "/constellation/v1/workflow-runs/"@ + seq!['{'] + "run_id"@ + seq!['}'] + "/events"@);
}

proof fn lemma_route_create_workflow_schedule()
    ensures
        fits(path_of(Endpoint::CreateWorkflowSchedule), "/constellation/v1/workflows/"@, "workflow_id"@, "/schedules"@),
{
    reveal_strlit("/constellation/v1/workflows/");
    reveal_strlit("workflow_id");
    reveal_strlit("/schedules");
    reveal_strlit("/constellation/v1/workflows/{workflow_id}/schedules");
    assert("/constellation/v1/workflows/{workflow_id}/schedules"@ =~= "/constellation/v1/workflows/"@ + seq!['{'] + "workflow_id"@ + seq!['}'] + "/schedules"@);
}

proof fn lemma_route_create_workflow_webhook()
    ensures
        fits(path_of(Endpoint::CreateWorkflowWebhook), "/constellation/v1/workflows/"@, "workflow_id"@, "/webhooks"@),
{
    reveal_strlit("/constellation/v1/workflows/");
    reveal_strlit("workflow_id");
    reveal_strlit("/webhooks");
    reveal_strlit("/constellation/v1/workflows/{workflow_id}/webhooks");
    assert("/constellation/v1/workflows/{workflow_id}/webhooks"@ =~= "/constellation/v1/workflows/"@ + seq!['{'] + "workflow_id"@ + seq!['}'] + "/webhooks"@);
}

proof fn lemma_route_instantiate_workflow_template()
    ensures
        fits(path_of(Endpoint::InstantiateWorkflowTemplate), "/constellation/v1/workflow-templates/"@, "template_id"@, "/instantiate"@),
{
    reveal_strlit("/constellation/v1/workflow-templates/");
    reveal_strlit("template_id");
    reveal_strlit("/instantiate");
    reveal_strlit("/constellation/v1/workflow-templates/{template_id}/instantiate");
    assert("/constellation/v1/workflow-templates/{template_id}/instantiate"@ =~= "/constellation/v1/workflow-templates/"@ + seq!['{'] + "template_id"@ + seq!['}'] + "/instantiate"@);
}

proof fn lemma_route_put_team_member()
    ensures
        fits(path_of(Endpoint::PutTeamMember), "/constellation/v1/teams/"@, "team_id"@, "/members"@),
{
    reveal_strlit("/constellation/v1/teams/");
    reveal_strlit("team_id");
    reveal_strlit("/members");
    reveal_strlit("/constellation/v1/teams/{team_id}/members");
    assert("/constellation/v1/teams/{team_id}/members"@ =~= "/constellation/v1/teams/"@ + seq!['{'] + "team_id"@ + seq!['}'] + "/members"@);
}

proof fn lemma_route_start_workflow()
    ensures
        fits(path_of(Endpoint::StartWorkflow), "/constellation/v1/workflows/"@, "workflow_id"@, "/runs"@),
{
    reveal_strlit("/constellation/v1/workflows/");
    reveal_strlit("workflow_id");
    reveal_strlit("/runs");
    reveal_strlit("/constellation/v1/workflows/{workflow_id}/runs");
    assert("/constellation/v1/workflows/{workflow_id}/runs"@ =~= "/constellation/v1/workflows/"@ + seq!['{'] + "workflow_id"@ + seq!['}'] + "/runs"@);
}

proof fn lemma_route_grant_plugin()
    ensures
        fits(path_of(Endpoint::GrantPlugin), "/constellation/v1/plugins/"@, "plugin_id"@, "/grant"@),
{
    reveal_strlit("/constellation/v1/plugins/");
    reveal_strlit("plugin_id");
    reveal_strlit("/grant");
    reveal_strlit("/constellation/v1/plugins/{plugin_id}/grant");
    assert("/constellation/v1/plugins/{plugin_id}/grant"@ =~= "/constellation/v1/plugins/"@ + seq!['{'] + "plugin_id"@ + seq!['}'] + "/grant"@);
}

proof fn lemma_route_execute_plugin()
    ensures
        fits(path_of(Endpoint::ExecutePlugin), "/constellation/v1/plugins/"@, "plugin_id"@, "/execute"@),
{
    reveal_strlit("/constellation/v1/plugins/");
    reveal_strlit("plugin_id");
    reveal_strlit("/execute");
    reveal_strlit("/constellation/v1/plugins/{plugin_id}/execute");
    assert("/constellation/v1/plugins/{plugin_id}/execute"@ =~= "/constellation/v1/plugins/"@ + seq!['{'] + "plugin_id"@ + seq!['}'] + "/execute"@);
}

/// A command on one device, workload or team goes to the endpoint for it, with the identifier of just that
/// one in the path.
pub proof fn law_commands_name_what_they_are_on(id: Uuid, other: Uuid, role: PrincipalRole)
    ensures
        addresses(command_request(Command::Revoke { node_id: id }), Endpoint::RevokeDevice, hyphenated(id)),
        addresses(command_request(Command::Cancel { workload_id: id }), Endpoint::CancelWorkload, hyphenated(id)),
        addresses(team_request(TeamCommand::AddMember { team_id: id, principal_id: other, role }), Endpoint::PutTeamMember, hyphenated(id)),
{
    lemma_route_revoke_device();
    assert(stands(command_request(Command::Revoke { node_id: id }).path, path_of(Endpoint::RevokeDevice), hyphenated(id), "/constellation/v1/devices/"@, "node_id"@, "/revoke"@));
    lemma_route_cancel_workload();
    assert(stands(command_request(Command::Cancel { workload_id: id }).path, path_of(Endpoint::CancelWorkload), hyphenated(id), "/constellation/v1/workloads/"@, "workload_id"@, "/cancel"@));
    lemma_route_put_team_member();
    assert(stands(team_request(TeamCommand::AddMember { team_id: id, principal_id: other, role }).path, path_of(Endpoint::PutTeamMember), hyphenated(id), "/constellation/v1/teams/"@, "team_id"@, "/members"@));
}

/// A command on one workflow, run or template goes to the endpoint for it, with the identifier of just that
/// one in the path.
pub proof fn law_workflow_commands_name_what_they_are_on(
    id: Uuid,
    bytes: Vec<u8>,
    word: String,
    name: Option<String>,
    concurrency_limit: u16,
)
    ensures
        addresses(workflow_request(WorkflowCommand::Get { workflow_id: id })->Ok_0, Endpoint::GetWorkflow, hyphenated(id)),
        addresses(workflow_request(WorkflowCommand::Inspect { run_id: id })->Ok_0, Endpoint::GetWorkflowRun, hyphenated(id)),
        addresses(workflow_request(WorkflowCommand::Event { run_id: id, event: bytes })->Ok_0, Endpoint::TransitionWorkflowRun, hyphenated(id)),
        addresses(workflow_request(WorkflowCommand::Schedule { workflow_id: id, cron_utc: word, concurrency_limit })->Ok_0, Endpoint::CreateWorkflowSchedule, hyphenated(id)),
        addresses(workflow_request(WorkflowCommand::Webhook { workflow_id: id })->Ok_0, Endpoint::CreateWorkflowWebhook, hyphenated(id)),
        addresses(workflow_request(WorkflowCommand::TemplateInstantiate { template_id: id, name })->Ok_0, Endpoint::InstantiateWorkflowTemplate, hyphenated(id)),
        workflow_request(WorkflowCommand::Run { workflow_id: id, inputs: word }) is Ok ==> addresses(workflow_request(WorkflowCommand::Run { workflow_id: id, inputs: word })->Ok_0, Endpoint::StartWorkflow, hyphenated(id)),
{
    lemma_route_get_workflow();
    assert(stands(workflow_request(WorkflowCommand::Get { workflow_id: id })->Ok_0.path, path_of(Endpoint::GetWorkflow), hyphenated(id), "/constellation/v1/workflows/"@, "workflow_id"@, ""@));
    lemma_route_get_workflow_run();
    assert(stands(workflow_request(WorkflowCommand::Inspect { run_id: id })->Ok_0.path, path_of(Endpoint::GetWorkflowRun), hyphenated(id), "/constellation/v1/workflow-runs/"@, "run_id"@, ""@));
    lemma_route_transition_workflow_run();
    assert(stands(workflow_request(WorkflowCommand::Event { run_id: id, event: bytes })->Ok_0.path, path_of(Endpoint::TransitionWorkflowRun), hyphenated(id), "/constellation/v1/workflow-runs/"@, "run_id"@, "/events"@));
    lemma_route_create_workflow_schedule();
    assert(stands(workflow_request(WorkflowCommand::Schedule { workflow_id: id, cron_utc: word, concurrency_limit })->Ok_0.path, path_of(Endpoint::CreateWorkflowSchedule), hyphenated(id), "/constellation/v1/workflows/"@, "workflow_id"@, "/schedules"@));
    lemma_route_create_workflow_webhook();
    assert(stands(workflow_request(WorkflowCommand::Webhook { workflow_id: id })->Ok_0.path, path_of(Endpoint::CreateWorkflowWebhook), hyphenated(id), "/constellation/v1/workflows/"@, "workflow_id"@, "/webhooks"@));
    lemma_route_instantiate_workflow_template();
    assert(stands(workflow_request(WorkflowCommand::TemplateInstantiate { template_id: id, name })->Ok_0.path, path_of(Endpoint::InstantiateWorkflowTemplate), hyphenated(id), "/constellation/v1/workflow-templates/"@, "template_id"@, "/instantiate"@));
    lemma_route_start_workflow();
    if workflow_request(WorkflowCommand::Run { workflow_id: id, inputs: word }) is Ok {
        assert(stands(workflow_request(WorkflowCommand::Run { workflow_id: id, inputs: word })->Ok_0.path, path_of(Endpoint::StartWorkflow), hyphenated(id), "/constellation/v1/workflows/"@, "workflow_id"@, "/runs"@));
    }
}

/// A command on one plugin goes to the endpoint for it, with the identifier of just that one in the path.
pub proof fn law_plugin_commands_name_what_they_are_on(bytes: Vec<u8>, word: String)
    ensures
        addresses(plugin_request(PluginCommand::Grant { plugin_id: word, permissions: bytes }), Endpoint::GrantPlugin, word@),
        addresses(plugin_request(PluginCommand::Execute { plugin_id: word, input: word }), Endpoint::ExecutePlugin, word@),
{
    lemma_route_grant_plugin();
    assert(stands(plugin_request(PluginCommand::Grant { plugin_id: word, permissions: bytes }).path, path_of(Endpoint::GrantPlugin), word@, "/constellation/v1/plugins/"@, "plugin_id"@, "/grant"@));
    lemma_route_execute_plugin();
    assert(stands(plugin_request(PluginCommand::Execute { plugin_id: word, input: word }).path, path_of(Endpoint::ExecutePlugin), word@, "/constellation/v1/plugins/"@, "plugin_id"@, "/execute"@));
}

/// A plan that is simulated is the one described.
pub proof fn law_a_plan_is_asked_for_as_it_is(
    model: String,
    runtime: String,
    memory_bytes: u64,
    class: WorkloadClass,
    policy: Policy,
)
    ensures
        ({
            let request = command_request(
                Command::Plan { model, runtime, memory_bytes, class, policy },
            );
            let body = request.body->0;
            &&& request.body is Some
            &&& field_of(body, "model"@) == Some(JsonView::Text(model@))
            &&& field_of(body, "required_runtime"@) == Some(JsonView::Text(runtime@))
            &&& field_of(body, "estimated_memory_bytes"@) == Some(JsonView::Number(memory_bytes as int))
            &&& field_of(body, "class"@) == Some(JsonView::Text(class_word(class)))
            &&& field_of(body, "policy"@) == Some(JsonView::Text(policy_word(policy)))
        }),
{
    reveal_strlit("model");
    reveal_strlit("required_runtime");
    reveal_strlit("estimated_memory_bytes");
    reveal_strlit("class");
    reveal_strlit("policy");
    assert("model"@.len() == 5);
    assert("required_runtime"@.len() == 16);
    assert("estimated_memory_bytes"@.len() == 22);
    assert("class"@.len() == 5);
    assert("policy"@.len() == 6);
    assert("model"@[0] != "class"@[0]);
    let a = ("model"@, JsonView::Text(model@));
    let b = ("required_runtime"@, JsonView::Text(runtime@));
    let c = ("estimated_memory_bytes"@, JsonView::Number(memory_bytes as int));
    let d = ("class"@, JsonView::Text(class_word(class)));
    let e = ("policy"@, JsonView::Text(policy_word(policy)));
    lemma_fields5(a, b, c, d, e, "model"@);
    lemma_fields5(a, b, c, d, e, "required_runtime"@);
    lemma_fields5(a, b, c, d, e, "estimated_memory_bytes"@);
    lemma_fields5(a, b, c, d, e, "class"@);
    lemma_fields5(a, b, c, d, e, "policy"@);
}

/// A principal and a member of a team are made with the name, the role and the scopes given.
pub proof fn law_people_are_added_as_they_are(
    name: String,
    role: PrincipalRole,
    scopes: Vec<u8>,
    team_id: Uuid,
    principal_id: Uuid,
)
    ensures
        ({
            let body = principal_request(PrincipalCommand::Create { name, role, scopes }).body->0;
            &&& field_of(body, "name"@) == Some(JsonView::Text(name@))
            &&& field_of(body, "role"@) == Some(JsonView::Text(role_word(given_role(role))))
            &&& field_of(body, "scopes"@) == Some(JsonView::Document(scopes@))
        }),
        ({
            let body = team_request(TeamCommand::AddMember { team_id, principal_id, role }).body->0;
            &&& field_of(body, "principal_id"@) == Some(id_json(principal_id))
            &&& field_of(body, "role"@) == Some(JsonView::Text(role_word(given_role(role))))
        }),
        role_word(given_role(role)) == match role {
            PrincipalRole::Admin => "admin"@,
            PrincipalRole::Operator => "operator"@,
            PrincipalRole::Viewer => "viewer"@,
            PrincipalRole::Service => "service"@,
        },
{
    reveal_strlit("name");
    reveal_strlit("role");
    reveal_strlit("scopes");
    reveal_strlit("principal_id");
    assert("name"@.len() == 4);
    assert("role"@.len() == 4);
    assert("scopes"@.len() == 6);
    assert("principal_id"@.len() == 12);
    assert("name"@[0] != "role"@[0]);
    let a = ("name"@, JsonView::Text(name@));
    let b = ("role"@, JsonView::Text(role_word(given_role(role))));
    let c = ("scopes"@, JsonView::Document(scopes@));
    lemma_fields3(a, b, c, "name"@);
    lemma_fields3(a, b, c, "role"@);
    lemma_fields3(a, b, c, "scopes"@);
    let p = ("principal_id"@, id_json(principal_id));
    lemma_fields2(p, b, "principal_id"@);
    lemma_fields2(p, b, "role"@);
}

/// A model is imported as it is described, once its license is accepted; and it is pinned or not, as asked.
pub proof fn law_models_are_imported_as_described(
    path: String,
    alias: String,
    format: String,
    quantization: Option<String>,
    license: String,
    pin: bool,
)
    ensures
        ({
            let request = model_request(
                ModelCommand::Import {
                    path,
                    alias,
                    format,
                    quantization,
                    license,
                    accept_license: true,
                    pin,
                },
            );
            let body = request->Ok_0.body->0;
            &&& request is Ok
            &&& field_of(body, "path"@) == Some(JsonView::Text(path@))
            &&& field_of(body, "alias"@) == Some(JsonView::Text(alias@))
            &&& field_of(body, "format"@) == Some(JsonView::Text(format@))
            &&& field_of(body, "quantization"@) == Some(optional_text_json(quantization))
            &&& field_of(body, "license_id"@) == Some(JsonView::Text(license@))
            &&& field_of(body, "license_accepted"@) == Some(JsonView::Bool(true))
            &&& field_of(body, "pinned"@) == Some(JsonView::Bool(pin))
        }),
        ({
            let body = model_request(ModelCommand::Pin { alias, pinned: pin })->Ok_0.body->0;
            &&& field_of(body, "alias"@) == Some(JsonView::Text(alias@))
            &&& field_of(body, "pinned"@) == Some(JsonView::Bool(pin))
        }),
{
    reveal_strlit("path");
    reveal_strlit("alias");
    reveal_strlit("format");
    reveal_strlit("quantization");
    reveal_strlit("license_id");
    reveal_strlit("license_accepted");
    reveal_strlit("pinned");
    assert("path"@.len() == 4);
    assert("alias"@.len() == 5);
    assert("format"@.len() == 6);
    assert("quantization"@.len() == 12);
    assert("license_id"@.len() == 10);
    assert("license_accepted"@.len() == 16);
    assert("pinned"@.len() == 6);
    assert("format"@[0] != "pinned"@[0]);
    let a = ("path"@, JsonView::Text(path@));
    let b = ("alias"@, JsonView::Text(alias@));
    let c = ("format"@, JsonView::Text(format@));
    let d = ("quantization"@, optional_text_json(quantization));
    let e = ("license_id"@, JsonView::Text(license@));
    let f = ("license_accepted"@, JsonView::Bool(true));
    let g = ("pinned"@, JsonView::Bool(pin));
    lemma_fields7(a, b, c, d, e, f, g, "path"@);
    lemma_fields7(a, b, c, d, e, f, g, "alias"@);
    lemma_fields7(a, b, c, d, e, f, g, "format"@);
    lemma_fields7(a, b, c, d, e, f, g, "quantization"@);
    lemma_fields7(a, b, c, d, e, f, g, "license_id"@);
    lemma_fields7(a, b, c, d, e, f, g, "license_accepted"@);
    lemma_fields7(a, b, c, d, e, f, g, "pinned"@);
    lemma_fields2(b, g, "alias"@);
    lemma_fields2(b, g, "pinned"@);
}

/// A secret is kept as it is, but for the line ends behind it.
pub proof fn law_a_secret_loses_only_line_ends(secret: Seq<char>, ends: Seq<char>)
    requires
        secret.len() > 0 ==> secret.last() != '\r' && secret.last() != '\n',
        forall|i: int| 0 <= i < ends.len() ==> ends[i] == '\r' || ends[i] == '\n',
    ensures
        secret_kept(secret + ends) == secret,
    decreases ends.len(),
{
    if ends.len() > 0 {
        assert((secret + ends).drop_last() =~= secret + ends.drop_last());
        assert((secret + ends).last() == ends[ends.len() - 1]);
        law_a_secret_loses_only_line_ends(secret, ends.drop_last());
    } else {
        assert(secret + ends =~= secret);
    }
}

} // verus!
