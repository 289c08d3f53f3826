//! Workflows: templates, steps, transitions, artifacts and webhooks.

use crate::api::auth::{
    allowed, authenticated_principal_id, principal_allows, principal_label,
    AuthenticatedPrincipal, Permission,
};
use crate::api::{bad_request, forbidden, secret, unavailable, ApiError, ErrorView};
use crate::clock::{time_between, SECOND};
use crate::ident::{format_uuid, hyphenated, Uuid};
use crate::json::{Json, JsonView};
use crate::repository::events::logged;
use crate::repository::listings::text_before;
use crate::repository::workflows::{as_expected, updated_run};
use crate::repository::{
    ClusterEvent, EncryptedContent, EncryptedWorkflowRun, EventView, Repository, RepositoryView,
    RunEvent, RunStatus, StoredStatus,
};
use crate::text;
use crate::text::{decimal, lemma_nothing_replaced, occurs_at, occurs_in, position, replaced};
use vstd::prelude::*;

verus! {

/// How large an artifact may be.
pub const ARTIFACT_LIMIT: usize = 16_777_216;

// ------------------------------------------------------------------------------------------------
// Templates of inputs

/// The text that stands for an input.
pub open spec fn marker(name: Seq<char>) -> Seq<char> {
    "{{"@ + name + "}}"@
}

/// Inputs, as values.
pub open spec fn input_views(inputs: Seq<(String, String)>) -> Seq<(Seq<char>, Seq<char>)> {
    inputs.map_values(|input: (String, String)| (input.0@, input.1@))
}

/// A template with the inputs in place of their markers, one input after the other.
pub open spec fn resolved(template: Seq<char>, inputs: Seq<(Seq<char>, Seq<char>)>) -> Seq<char>
    decreases inputs.len(),
{
    if inputs.len() == 0 {
        template
    } else {
        let (name, value) = inputs.last();
        replaced(resolved(template, inputs.drop_last()), marker(name), value)
    }
}

/// Whether inputs come in the order of their names, each name once.
pub open spec fn by_name(inputs: Seq<(Seq<char>, Seq<char>)>) -> bool {
    forall|i: int, j: int| 0 <= i < j < inputs.len() ==> text_before(inputs[i].0, inputs[j].0)
}

/// Puts the inputs, which come in the order of their names, in place of their markers.
pub fn resolve_workflow_template(template: &str, inputs: &[(String, String)]) -> (r: String)
    requires
        by_name(input_views(inputs@)),
    ensures
        r@ == resolved(template@, input_views(inputs@)),
{
    let mut r = text::owned(template);
    let mut i: usize = 0;
    while i < inputs.len()
        invariant
            i <= inputs@.len(),
            r@ == resolved(template@, input_views(inputs@).take(i as int)),
        decreases inputs@.len() - i,
    {
        let needle = text::join3("{{", inputs[i].0.as_str(), "}}");
        proof {
            reveal_strlit("{{");
            let more = input_views(inputs@).take(i + 1);
            assert(more.drop_last() =~= input_views(inputs@).take(i as int));
        }
        r = text::replace(r.as_str(), needle.as_str(), inputs[i].1.as_str());
        i += 1;
    }
    assert(input_views(inputs@).take(i as int) =~= input_views(inputs@));
    r
}

/// A template that has no opening braces stays as it is, whatever the inputs are.
pub proof fn law_plain_templates_stay(template: Seq<char>, inputs: Seq<(Seq<char>, Seq<char>)>)
    requires
        !occurs_in(template, "{{"@),
    ensures
        resolved(template, inputs) == template,
    decreases inputs.len(),
{
    if inputs.len() > 0 {
        law_plain_templates_stay(template, inputs.drop_last());
        let needle = marker(inputs.last().0);
        assert forall|i: int| !#[trigger] occurs_at(template, needle, i) by {
            if occurs_at(template, needle, i) {
                let n = "{{"@.len() as int;
                assert(template.subrange(i, i + n) =~= template.subrange(
                    i,
                    i + needle.len(),
                ).take(n));
                assert(needle.take(n) =~= "{{"@);
                assert(occurs_at(template, "{{"@, i));
            }
        }
        lemma_nothing_replaced(template, needle, inputs.last().1);
    }
}

// ------------------------------------------------------------------------------------------------
// Carrying out a step

/// What a step does.
pub enum StepAction {
    Inference { model: String, input: String, max_output_tokens: u32 },
    Artifact { name: String, media_type: String, value: String },
    Tool { tool: String, arguments: Json },
    Approval,
}

/// A step of a workflow.
pub struct StepDefinition {
    pub id: String,
    pub timeout_seconds: u32,
    pub action: StepAction,
}

/// What a step has used.
#[derive(Clone, Copy)]
pub struct StepAccounting {
    pub input_tokens: u64,
    pub output_tokens: u64,
    pub network_bytes: u64,
    pub duration_ms: u64,
    pub cost_micros: u64,
}

/// Nothing has been used.
pub open spec fn no_use() -> StepAccounting {
    StepAccounting {
        input_tokens: 0,
        output_tokens: 0,
        network_bytes: 0,
        duration_ms: 0,
        cost_micros: 0,
    }
}

impl Default for StepAccounting {
    fn default() -> (r: StepAccounting)
        ensures
            r == no_use(),
    {
        StepAccounting {
            input_tokens: 0,
            output_tokens: 0,
            network_bytes: 0,
            duration_ms: 0,
            cost_micros: 0,
        }
    }
}

/// Why a step failed.
pub struct WorkflowActionError {
    pub code: String,
    pub retryable: bool,
}

/// How far a step has come.
#[derive(Clone, Copy)]
pub enum ActionStage {
    /// Its run is being loaded.
    Loading,
    /// An execution is being prepared.
    Preparing,
    /// The execution's answer is being collected.
    Collecting,
    /// The tool is being looked up.
    LookingUp,
    /// The tool's grant is being looked up.
    Granting,
    /// The tool's component is being read.
    Reading,
    /// The tool's input is being encoded.
    Encoding,
    /// The tool is at work.
    Executing,
    /// What came out is being stored; so much was used.
    Storing(StepAccounting),
    Done,
}

/// What an execution has put out.
pub struct StepAnswer {
    pub text: String,
    pub input_tokens: u32,
    pub output_tokens: u32,
    pub network_bytes: u64,
}

/// What is known of an installed plugin.
pub struct InstalledTool {
    pub enabled: bool,
    /// Whether it is a tool, and no other kind of plugin.
    pub is_tool: bool,
}

/// What became of a tool.
pub enum ToolOutcome {
    /// The tool could not be given to its host.
    HostUnavailable,
    /// The tool failed.
    Failed,
    Output(String),
}

/// What has come back.
pub enum ActionSignal {
    /// The inputs of the run, in the order of their names.
    Run(Option<Vec<(String, String)>>),
    /// Whether an execution is prepared.
    Prepared(bool),
    /// The execution's answer.
    Collected(Option<StepAnswer>),
    /// The plugin, or that the registry is not there.
    Plugin(Result<Option<InstalledTool>, ()>),
    /// Whether there is a grant, or that the registry is not there.
    Grant(Result<bool, ()>),
    /// Whether the component was read.
    Component(bool),
    /// The tool's arguments as text, where they could be encoded.
    Encoded(Option<String>),
    Tool(ToolOutcome),
    /// The artifact, where it was stored.
    Stored(Option<Uuid>),
}

/// What is to be done next.
pub enum ActionRequest {
    Prepare { model: String, input: String, max_output_tokens: u32 },
    Collect,
    LookUp { tool: String },
    LookUpGrant { tool: String },
    /// Read the component of the plugin that was found.
    Read,
    /// Encode the tool's arguments.
    Encode { arguments: Json },
    Execute { tool: String, input: String },
    Store { name: String, media_type: String, content: String },
    Succeed { accounting: StepAccounting, artifact: Uuid },
    Fail(WorkflowActionError),
    /// What came back is not what was asked for.
    Unexpected,
}

/// What is to be done next, as values.
pub enum ActionRequestView {
    Prepare { model: Seq<char>, input: Seq<char>, max_output_tokens: u32 },
    Collect,
    LookUp { tool: Seq<char> },
    LookUpGrant { tool: Seq<char> },
    Read,
    Encode { arguments: JsonView },
    Execute { tool: Seq<char>, input: Seq<char> },
    Store { name: Seq<char>, media_type: Seq<char>, content: Seq<char> },
    Succeed { accounting: StepAccounting, artifact: Uuid },
    Fail { code: Seq<char>, retryable: bool },
    Unexpected,
}

impl ActionRequest {
    pub open spec fn view(&self) -> ActionRequestView {
        match self {
            ActionRequest::Prepare { model, input, max_output_tokens } => ActionRequestView::Prepare {
                model: model@,
                input: input@,
                max_output_tokens: *max_output_tokens,
            },
            ActionRequest::Collect => ActionRequestView::Collect,
            ActionRequest::LookUp { tool } => ActionRequestView::LookUp { tool: tool@ },
            ActionRequest::LookUpGrant { tool } => ActionRequestView::LookUpGrant { tool: tool@ },
            ActionRequest::Read => ActionRequestView::Read,
            ActionRequest::Encode { arguments } => ActionRequestView::Encode {
                arguments: arguments@,
            },
            ActionRequest::Execute { tool, input } => ActionRequestView::Execute {
                tool: tool@,
                input: input@,
            },
            ActionRequest::Store { name, media_type, content } => ActionRequestView::Store {
                name: name@,
                media_type: media_type@,
                content: content@,
            },
            ActionRequest::Succeed { accounting, artifact } => ActionRequestView::Succeed {
                accounting: *accounting,
                artifact: *artifact,
            },
            ActionRequest::Fail(error) => ActionRequestView::Fail {
                code: error.code@,
                retryable: error.retryable,
            },
            ActionRequest::Unexpected => ActionRequestView::Unexpected,
        }
    }
}

/// A step that fails.
pub open spec fn action_failure(code: Seq<char>, retryable: bool) -> (ActionStage, ActionRequestView) {
    (ActionStage::Done, ActionRequestView::Fail { code, retryable })
}

/// What a step does once its run is loaded.
pub open spec fn action_start(step: StepDefinition, inputs: Seq<(Seq<char>, Seq<char>)>) -> (
    ActionStage,
    ActionRequestView,
) {
    match step.action {
        StepAction::Inference { model, input, max_output_tokens } => (
            ActionStage::Preparing,
            ActionRequestView::Prepare {
                model: model@,
                input: resolved(input@, inputs),
                max_output_tokens,
            },
        ),
        StepAction::Artifact { name, media_type, value } => (
            ActionStage::Storing(no_use()),
            ActionRequestView::Store {
                name: name@,
                media_type: media_type@,
                content: resolved(value@, inputs),
            },
        ),
        StepAction::Tool { tool, .. } => (
            ActionStage::LookingUp,
            ActionRequestView::LookUp { tool: tool@ },
        ),
        StepAction::Approval => action_failure("approval_dispatch_error"@, false),
    }
}

/// The tool that a step runs.
pub open spec fn tool_name(step: StepDefinition) -> Seq<char> {
    match step.action {
        StepAction::Tool { tool, .. } => tool@,
        _ => Seq::empty(),
    }
}

/// What the tool of a step is given.
pub open spec fn tool_arguments(step: StepDefinition) -> JsonView {
    match step.action {
        StepAction::Tool { arguments, .. } => arguments@,
        _ => JsonView::Null,
    }
}

/// What a step does next, and how far it is then.
pub open spec fn action_step(step: StepDefinition, stage: ActionStage, signal: ActionSignal) -> (
    ActionStage,
    ActionRequestView,
) {
    match (stage, signal) {
        (ActionStage::Loading, ActionSignal::Run(Some(inputs))) => action_start(
            step,
            input_views(inputs@),
        ),
        (ActionStage::Loading, ActionSignal::Run(None)) => action_failure(
            "workflow_state_unavailable"@,
            true,
        ),
        (ActionStage::Preparing, ActionSignal::Prepared(prepared)) => if prepared {
            (ActionStage::Collecting, ActionRequestView::Collect)
        } else {
            action_failure("inference_unavailable"@, true)
        },
        (ActionStage::Collecting, ActionSignal::Collected(Some(answer))) => (
            ActionStage::Storing(
                StepAccounting {
                    input_tokens: answer.input_tokens as u64,
                    output_tokens: answer.output_tokens as u64,
                    network_bytes: answer.network_bytes,
                    ..no_use()
                },
            ),
            ActionRequestView::Store {
                name: step.id@ + ".txt"@,
                media_type: "text/plain; charset=utf-8"@,
                content: answer.text@,
            },
        ),
        (ActionStage::Collecting, ActionSignal::Collected(None)) => action_failure(
            "inference_interrupted"@,
            true,
        ),
        (ActionStage::LookingUp, ActionSignal::Plugin(Ok(Some(tool)))) => if tool.enabled
            && tool.is_tool {
            (ActionStage::Granting, ActionRequestView::LookUpGrant { tool: tool_name(step) })
        } else {
            action_failure("tool_permission_unavailable"@, false)
        },
        (ActionStage::LookingUp, ActionSignal::Plugin(Ok(None))) => action_failure(
            "tool_permission_unavailable"@,
            false,
        ),
        (ActionStage::LookingUp, ActionSignal::Plugin(Err(_))) => action_failure(
            "tool_registry_unavailable"@,
            true,
        ),
        (ActionStage::Granting, ActionSignal::Grant(Ok(granted))) => if granted {
            (ActionStage::Reading, ActionRequestView::Read)
        } else {
            action_failure("tool_permission_unavailable"@, false)
        },
        (ActionStage::Granting, ActionSignal::Grant(Err(_))) => action_failure(
            "tool_registry_unavailable"@,
            true,
        ),
        (ActionStage::Reading, ActionSignal::Component(read)) => if read {
            (
                ActionStage::Encoding,
                ActionRequestView::Encode { arguments: tool_arguments(step) },
            )
        } else {
            action_failure("tool_component_unavailable"@, true)
        },
        (ActionStage::Encoding, ActionSignal::Encoded(Some(input))) => (
            ActionStage::Executing,
            ActionRequestView::Execute { tool: tool_name(step), input: input@ },
        ),
        (ActionStage::Encoding, ActionSignal::Encoded(None)) => action_failure(
            "tool_input_invalid"@,
            false,
        ),
        (ActionStage::Executing, ActionSignal::Tool(ToolOutcome::HostUnavailable)) => action_failure(
            "tool_host_unavailable"@,
            true,
        ),
        (ActionStage::Executing, ActionSignal::Tool(ToolOutcome::Failed)) => action_failure(
            "tool_execution_failed"@,
            false,
        ),
        (ActionStage::Executing, ActionSignal::Tool(ToolOutcome::Output(output))) => (
            ActionStage::Storing(no_use()),
            ActionRequestView::Store {
                name: step.id@ + ".json"@,
                media_type: "application/json"@,
                content: output@,
            },
        ),
        (ActionStage::Storing(accounting), ActionSignal::Stored(Some(artifact))) => (
            ActionStage::Done,
            ActionRequestView::Succeed { accounting, artifact },
        ),
        (ActionStage::Storing(_), ActionSignal::Stored(None)) => action_failure(
            "artifact_storage_failed"@,
            true,
        ),
        _ => (stage, ActionRequestView::Unexpected),
    }
}

/// A step that is being carried out.
pub struct ActionRun {
    pub step: StepDefinition,
    pub stage: ActionStage,
}

impl ActionRun {
    /// Begins with a step; its run is to be loaded first.
    pub fn begin(step: StepDefinition) -> (r: ActionRun)
        ensures
            r.step == step,
            r.stage == ActionStage::Loading,
    {
        ActionRun { step, stage: ActionStage::Loading }
    }

    /// The tool that the step runs.
    fn tool(&self) -> (name: String)
        ensures
            name@ == tool_name(self.step),
    {
        match &self.step.action {
            StepAction::Tool { tool, .. } => tool.clone(),
            _ => String::new(),
        }
    }

    fn fail(&mut self, code: &str, retryable: bool) -> (request: ActionRequest)
        ensures
            final(self).step == old(self).step,
            (final(self).stage, request@) == action_failure(code@, retryable),
    {
        self.stage = ActionStage::Done;
        ActionRequest::Fail(WorkflowActionError { code: text::owned(code), retryable })
    }

    fn start(&mut self, inputs: &[(String, String)]) -> (request: ActionRequest)
        requires
            by_name(input_views(inputs@)),
        ensures
            final(self).step == old(self).step,
            (final(self).stage, request@) == action_start(old(self).step, input_views(inputs@)),
    {
        match &self.step.action {
            StepAction::Inference { model, input, max_output_tokens } => {
                let request = ActionRequest::Prepare {
                    model: model.clone(),
                    input: resolve_workflow_template(input.as_str(), inputs),
                    max_output_tokens: *max_output_tokens,
                };
                self.stage = ActionStage::Preparing;
                request
            },
            StepAction::Artifact { name, media_type, value } => {
                let request = ActionRequest::Store {
                    name: name.clone(),
                    media_type: media_type.clone(),
                    content: resolve_workflow_template(value.as_str(), inputs),
                };
                self.stage = ActionStage::Storing(StepAccounting::default());
                request
            },
            StepAction::Tool { tool, .. } => {
                let request = ActionRequest::LookUp { tool: tool.clone() };
                self.stage = ActionStage::LookingUp;
                request
            },
            StepAction::Approval => self.fail("approval_dispatch_error", false),
        }
    }

    /// Takes what has come back, and tells what is to be done next.
    pub fn execute_workflow_action(&mut self, signal: ActionSignal) -> (request: ActionRequest)
        requires
            signal matches ActionSignal::Run(Some(inputs)) ==> by_name(input_views(inputs@)),
        ensures
            final(self).step == old(self).step,
            (final(self).stage, request@) == action_step(old(self).step, old(self).stage, signal),
    {
        match (self.stage, signal) {
            (ActionStage::Loading, ActionSignal::Run(run)) => match run {
                Some(inputs) => self.start(inputs.as_slice()),
                None => self.fail("workflow_state_unavailable", true),
            },
            (ActionStage::Preparing, ActionSignal::Prepared(prepared)) => {
                if prepared {
                    self.stage = ActionStage::Collecting;
                    ActionRequest::Collect
                } else {
                    self.fail("inference_unavailable", true)
                }
            },
            (ActionStage::Collecting, ActionSignal::Collected(answer)) => match answer {
                Some(answer) => {
                    self.stage = ActionStage::Storing(
                        StepAccounting {
                            input_tokens: answer.input_tokens as u64,
                            output_tokens: answer.output_tokens as u64,
                            network_bytes: answer.network_bytes,
                            duration_ms: 0,
                            cost_micros: 0,
                        },
                    );
                    ActionRequest::Store {
                        name: text::join2(self.step.id.as_str(), ".txt"),
                        media_type: text::owned("text/plain; charset=utf-8"),
                        content: answer.text,
                    }
                },
                None => self.fail("inference_interrupted", true),
            },
            (ActionStage::LookingUp, ActionSignal::Plugin(found)) => match found {
                Ok(Some(tool)) => {
                    if tool.enabled && tool.is_tool {
                        let name = self.tool();
                        self.stage = ActionStage::Granting;
                        ActionRequest::LookUpGrant { tool: name }
                    } else {
                        self.fail("tool_permission_unavailable", false)
                    }
                },
                Ok(None) => self.fail("tool_permission_unavailable", false),
                Err(_) => self.fail("tool_registry_unavailable", true),
            },
            (ActionStage::Granting, ActionSignal::Grant(found)) => match found {
                Ok(granted) => {
                    if granted {
                        self.stage = ActionStage::Reading;
                        ActionRequest::Read
                    } else {
                        self.fail("tool_permission_unavailable", false)
                    }
                },
                Err(_) => self.fail("tool_registry_unavailable", true),
            },
            (ActionStage::Reading, ActionSignal::Component(read)) => {
                if read {
                    let arguments = match &self.step.action {
                        StepAction::Tool { arguments, .. } => arguments.copy(),
                        _ => Json::Null,
                    };
                    self.stage = ActionStage::Encoding;
                    ActionRequest::Encode { arguments }
                } else {
                    self.fail("tool_component_unavailable", true)
                }
            },
            (ActionStage::Encoding, ActionSignal::Encoded(encoded)) => match encoded {
                Some(input) => {
                    self.stage = ActionStage::Executing;
                    ActionRequest::Execute { tool: self.tool(), input }
                },
                None => self.fail("tool_input_invalid", false),
            },
            (ActionStage::Executing, ActionSignal::Tool(outcome)) => match outcome {
                ToolOutcome::HostUnavailable => self.fail("tool_host_unavailable", true),
                ToolOutcome::Failed => self.fail("tool_execution_failed", false),
                ToolOutcome::Output(output) => {
                    self.stage = ActionStage::Storing(StepAccounting::default());
                    ActionRequest::Store {
                        name: text::join2(self.step.id.as_str(), ".json"),
                        media_type: text::owned("application/json"),
                        content: output,
                    }
                },
            },
            (ActionStage::Storing(accounting), ActionSignal::Stored(stored)) => match stored {
                Some(artifact) => {
                    self.stage = ActionStage::Done;
                    ActionRequest::Succeed { accounting, artifact }
                },
                None => self.fail("artifact_storage_failed", true),
            },
            _ => ActionRequest::Unexpected,
        }
    }
}

/// How far a step is after all that has come back.
pub open spec fn action_stage(step: StepDefinition, signals: Seq<ActionSignal>) -> ActionStage
    decreases signals.len(),
{
    if signals.len() == 0 {
        ActionStage::Loading
    } else {
        action_step(step, action_stage(step, signals.drop_last()), signals.last()).0
    }
}

/// Whether a plugin was found that may be run as a tool.
pub open spec fn found_tool(signals: Seq<ActionSignal>) -> bool {
    exists|i: int|
        0 <= i < signals.len() && (#[trigger] signals[i] matches ActionSignal::Plugin(Ok(Some(tool)))
            && tool.enabled && tool.is_tool)
}

/// Whether a grant was found.
pub open spec fn found_grant(signals: Seq<ActionSignal>) -> bool {
    exists|i: int|
        0 <= i < signals.len() && (#[trigger] signals[i] matches ActionSignal::Grant(Ok(true)))
}

/// A tool is run only after it was found enabled, as a tool, and with a grant.
pub proof fn law_a_tool_needs_its_grant(step: StepDefinition, signals: Seq<ActionSignal>)
    requires
        action_stage(step, signals) is Executing,
    ensures
        found_tool(signals),
        found_grant(signals),
{
    lemma_tool_path(step, signals);
}

/// What was asked for after the `i`-th that came back.
pub open spec fn asked(step: StepDefinition, signals: Seq<ActionSignal>, i: int) -> ActionRequestView {
    action_step(step, action_stage(step, signals.take(i)), signals[i]).1
}

/// What is asked for when a tool is to run is that tool of the step, on the text that its arguments, and
/// no other, were encoded as.
pub proof fn law_a_tool_runs_on_its_arguments(
    step: StepDefinition,
    signals: Seq<ActionSignal>,
    last: ActionSignal,
)
    requires
        action_step(step, action_stage(step, signals), last).1 is Execute,
    ensures
        step.action is Tool,
        exists|i: int|
            0 <= i < signals.len() && #[trigger] asked(step, signals, i) == (
            ActionRequestView::Encode { arguments: tool_arguments(step) }),
        last matches ActionSignal::Encoded(Some(input)) && action_step(
            step,
            action_stage(step, signals),
            last,
        ).1 == (ActionRequestView::Execute { tool: tool_name(step), input: input@ }),
{
    lemma_tool_stages(step, signals);
    lemma_encoding_was_asked_for(step, signals);
}

proof fn lemma_encoding_was_asked_for(step: StepDefinition, signals: Seq<ActionSignal>)
    requires
        action_stage(step, signals) is Encoding,
    ensures
        exists|i: int|
            0 <= i < signals.len() && #[trigger] asked(step, signals, i) == (
            ActionRequestView::Encode { arguments: tool_arguments(step) }),
    decreases signals.len(),
{
    let before = signals.drop_last();
    let n = signals.len() - 1;
    assert(signals.take(n) =~= before);
    if action_stage(step, before) is Encoding {
        lemma_encoding_was_asked_for(step, before);
        let i = choose|i: int|
            0 <= i < before.len() && #[trigger] asked(step, before, i) == (
            ActionRequestView::Encode { arguments: tool_arguments(step) });
        assert(before.take(i) =~= signals.take(i));
        assert(asked(step, signals, i) == asked(step, before, i));
    } else {
        assert(asked(step, signals, n) == (ActionRequestView::Encode {
            arguments: tool_arguments(step),
        }));
    }
}

proof fn lemma_tool_stages(step: StepDefinition, signals: Seq<ActionSignal>)
    ensures
        ({
            let stage = action_stage(step, signals);
            stage is LookingUp || stage is Granting || stage is Reading || stage is Encoding
                || stage is Executing ==> step.action is Tool
        }),
    decreases signals.len(),
{
    if signals.len() > 0 {
        lemma_tool_stages(step, signals.drop_last());
    }
}

proof fn lemma_tool_path(step: StepDefinition, signals: Seq<ActionSignal>)
    ensures
        ({
            let stage = action_stage(step, signals);
            let read = stage is Reading || stage is Encoding || stage is Executing;
            &&& stage is Granting || read ==> found_tool(signals)
            &&& read ==> found_grant(signals)
        }),
    decreases signals.len(),
{
    if signals.len() > 0 {
        let before = signals.drop_last();
        lemma_tool_path(step, before);
        if found_tool(before) {
            let i = choose|i: int|
                0 <= i < before.len() && (#[trigger] before[i] matches ActionSignal::Plugin(
                    Ok(Some(tool)),
                ) && tool.enabled && tool.is_tool);
            assert(signals[i] == before[i]);
        }
        if found_grant(before) {
            let i = choose|i: int|
                0 <= i < before.len() && (#[trigger] before[i] matches ActionSignal::Grant(
                    Ok(true),
                ));
            assert(signals[i] == before[i]);
        }
        assert(signals.last() == signals[signals.len() - 1]);
    }
}

// ------------------------------------------------------------------------------------------------
// What becomes of a template

/// Whether a text holds no braces.
pub open spec fn brace_free(text: Seq<char>) -> bool {
    !text.contains('{') && !text.contains('}')
}

/// A piece of a template: text as it stands, or the place of an input, which is named by its number.
pub enum TemplatePiece {
    Literal(Seq<char>),
    Input(int),
}

/// A template that is written in pieces, with the first `m` inputs filled in and markers for the others.
pub open spec fn filled(
    pieces: Seq<TemplatePiece>,
    inputs: Seq<(Seq<char>, Seq<char>)>,
    m: int,
) -> Seq<char>
    decreases pieces.len(),
{
    if pieces.len() == 0 {
        Seq::empty()
    } else {
        (match pieces[0] {
            TemplatePiece::Literal(text) => text,
            TemplatePiece::Input(k) => if k < m {
                inputs[k].1
            } else {
                marker(inputs[k].0)
            },
        }) + filled(pieces.drop_first(), inputs, m)
    }
}

/// Whether a template can be written in pieces: its texts hold no braces, and it names inputs that there
/// are.
pub open spec fn well_written(
    pieces: Seq<TemplatePiece>,
    inputs: Seq<(Seq<char>, Seq<char>)>,
) -> bool {
    forall|i: int|
        0 <= i < pieces.len() ==> match #[trigger] pieces[i] {
            TemplatePiece::Literal(text) => brace_free(text),
            TemplatePiece::Input(k) => 0 <= k < inputs.len(),
        }
}

/// Whether inputs have names of their own, and neither names nor values hold braces.
pub open spec fn plain_inputs(inputs: Seq<(Seq<char>, Seq<char>)>) -> bool {
    &&& forall|i: int|
        0 <= i < inputs.len() ==> brace_free((#[trigger] inputs[i]).0) && brace_free(inputs[i].1)
    &&& forall|i: int, j: int|
        0 <= i < j < inputs.len() ==> (#[trigger] inputs[i]).0 != (#[trigger] inputs[j]).0
}

/// Before the first place at which the needle stands, nothing is replaced.
proof fn lemma_replaced_later(a: Seq<char>, b: Seq<char>, needle: Seq<char>, with: Seq<char>)
    requires
        needle.len() > 0,
        forall|i: int| 0 <= i < a.len() ==> !needle.is_prefix_of(#[trigger] (a + b).skip(i)),
    ensures
        replaced(a + b, needle, with) == a + replaced(b, needle, with),
    decreases a.len(),
{
    let s = a + b;
    if a.len() == 0 {
        assert(s =~= b);
        assert(a + replaced(b, needle, with) =~= replaced(b, needle, with));
    } else {
        let rest = a.skip(1);
        assert(s.skip(0) =~= s);
        assert(s.skip(1) =~= rest + b);
        assert forall|i: int| 0 <= i < rest.len() implies !needle.is_prefix_of(
            #[trigger] (rest + b).skip(i),
        ) by {
            assert((rest + b).skip(i) =~= s.skip(i + 1));
        }
        lemma_replaced_later(rest, b, needle, with);
        assert(seq![s[0]] + (rest + replaced(b, needle, with)) =~= a + replaced(b, needle, with));
    }
}

/// Where the needle stands at the start, it is replaced there.
proof fn lemma_replaced_at_once(b: Seq<char>, needle: Seq<char>, with: Seq<char>)
    requires
        needle.len() > 0,
    ensures
        replaced(needle + b, needle, with) == with + replaced(b, needle, with),
{
    let s = needle + b;
    assert(needle.is_prefix_of(s));
    assert(s.skip(needle.len() as int) =~= b);
}

/// The characters of a marker.
proof fn lemma_marker(name: Seq<char>)
    ensures
        marker(name).len() == name.len() + 4,
        marker(name)[0] == '{' && marker(name)[1] == '{',
        forall|i: int| 0 <= i < name.len() ==> marker(name)[i + 2] == #[trigger] name[i],
        marker(name)[name.len() as int + 2] == '}' && marker(name)[name.len() as int + 3] == '}',
{
    reveal_strlit("{{");
    reveal_strlit("}}");
}

/// No marker begins in a text without opening braces.
proof fn lemma_no_marker_in_plain_text(a: Seq<char>, b: Seq<char>, name: Seq<char>)
    requires
        !a.contains('{'),
    ensures
        forall|i: int| 0 <= i < a.len() ==> !marker(name).is_prefix_of(#[trigger] (a + b).skip(i)),
{
    lemma_marker(name);
    assert forall|i: int| 0 <= i < a.len() implies !marker(name).is_prefix_of(
        #[trigger] (a + b).skip(i),
    ) by {
        let s = (a + b).skip(i);
        if marker(name).is_prefix_of(s) {
            assert(s[0] == marker(name)[0]);
            assert(s[0] == a[i]);
            assert(a.contains(a[i]));
        }
    }
}

/// No marker begins in the marker of another name.
proof fn lemma_no_marker_in_another(other: Seq<char>, b: Seq<char>, name: Seq<char>)
    requires
        brace_free(other),
        brace_free(name),
        other != name,
    ensures
        forall|i: int|
            0 <= i < marker(other).len() ==> !marker(name).is_prefix_of(
                #[trigger] (marker(other) + b).skip(i),
            ),
{
    let a = marker(other);
    let n = marker(name);
    lemma_marker(name);
    lemma_marker(other);
    assert forall|i: int| 0 <= i < a.len() implies !n.is_prefix_of(
        #[trigger] (a + b).skip(i),
    ) by {
        let s = (a + b).skip(i);
        if n.is_prefix_of(s) {
            assert(forall|j: int| 0 <= j < n.len() ==> s[j] == #[trigger] n[j]);
            assert(s[0] == n[0] && s[1] == n[1]);
            if i == 0 {
                assert(forall|j: int| 0 <= j < n.len() && j < a.len() ==> a[j] == #[trigger] n[j]);
                if name.len() < other.len() {
                    let j = name.len() as int;
                    assert(a[j + 2] == other[j]);
                    assert(n[j + 2] == '}');
                    assert(other.contains(other[j]));
                } else if other.len() < name.len() {
                    let j = other.len() as int;
                    assert(n[j + 2] == name[j]);
                    assert(a[j + 2] == '}');
                    assert(name.contains(name[j]));
                } else {
                    assert forall|j: int| 0 <= j < name.len() implies name[j] == other[j] by {
                        assert(n[j + 2] == name[j] && a[j + 2] == other[j]);
                    }
                    assert(name =~= other);
                }
            } else if i == 1 {
                assert(s[1] == a[2]);
                if other.len() > 0 {
                    assert(a[2] == other[0]);
                    assert(other.contains(other[0]));
                }
            } else {
                assert(s[0] == a[i]);
                if i < other.len() + 2 {
                    assert(a[i] == other[i - 2]);
                    assert(other.contains(other[i - 2]));
                }
            }
        }
    }
}

/// Replacing the marker of the next input fills it in at all its places, and nothing else.
proof fn lemma_one_more_filled(
    pieces: Seq<TemplatePiece>,
    inputs: Seq<(Seq<char>, Seq<char>)>,
    m: int,
)
    requires
        well_written(pieces, inputs),
        plain_inputs(inputs),
        0 <= m < inputs.len(),
    ensures
        replaced(filled(pieces, inputs, m), marker(inputs[m].0), inputs[m].1) == filled(
            pieces,
            inputs,
            m + 1,
        ),
    decreases pieces.len(),
{
    if pieces.len() > 0 {
        let rest = pieces.drop_first();
        assert forall|i: int| 0 <= i < rest.len() implies match #[trigger] rest[i] {
            TemplatePiece::Literal(text) => brace_free(text),
            TemplatePiece::Input(k) => 0 <= k < inputs.len(),
        } by {
            assert(rest[i] == pieces[i + 1]);
        }
        lemma_one_more_filled(rest, inputs, m);
        let (name, value) = inputs[m];
        let behind = filled(rest, inputs, m);
        lemma_marker(name);
        assert(brace_free(inputs[m].0));
        match pieces[0] {
            TemplatePiece::Literal(text) => {
                lemma_no_marker_in_plain_text(text, behind, name);
                lemma_replaced_later(text, behind, marker(name), value);
            },
            TemplatePiece::Input(k) => {
                assert(brace_free(inputs[k].0) && brace_free(inputs[k].1));
                if k < m {
                    lemma_no_marker_in_plain_text(inputs[k].1, behind, name);
                    lemma_replaced_later(inputs[k].1, behind, marker(name), value);
                } else if k == m {
                    lemma_replaced_at_once(behind, marker(name), value);
                } else {
                    assert(inputs[m].0 != inputs[k].0);
                    lemma_no_marker_in_another(inputs[k].0, behind, name);
                    lemma_replaced_later(marker(inputs[k].0), behind, marker(name), value);
                }
            },
        }
    }
}

proof fn lemma_filled_so_far(
    pieces: Seq<TemplatePiece>,
    inputs: Seq<(Seq<char>, Seq<char>)>,
    m: int,
)
    requires
        well_written(pieces, inputs),
        plain_inputs(inputs),
        0 <= m <= inputs.len(),
    ensures
        resolved(filled(pieces, inputs, 0), inputs.take(m)) == filled(pieces, inputs, m),
    decreases m,
{
    if m > 0 {
        lemma_filled_so_far(pieces, inputs, m - 1);
        lemma_one_more_filled(pieces, inputs, m - 1);
        assert(inputs.take(m).drop_last() =~= inputs.take(m - 1));
        assert(inputs.take(m).last() == inputs[m - 1]);
    }
}

/// A template with the markers of inputs in it becomes the same text with the value of each input at the
/// place of its marker, however many markers there are and in whichever order they stand. (Text, names
/// and values hold no braces of their own.)
pub proof fn law_each_marker_becomes_its_value(
    pieces: Seq<TemplatePiece>,
    inputs: Seq<(Seq<char>, Seq<char>)>,
)
    requires
        well_written(pieces, inputs),
        plain_inputs(inputs),
    ensures
        resolved(filled(pieces, inputs, 0), inputs) == filled(pieces, inputs, inputs.len() as int),
{
    lemma_filled_so_far(pieces, inputs, inputs.len() as int);
    assert(inputs.take(inputs.len() as int) =~= inputs);
}

proof fn lemma_other_markers_stay(
    prefix: Seq<char>,
    name: Seq<char>,
    suffix: Seq<char>,
    inputs: Seq<(Seq<char>, Seq<char>)>,
)
    requires
        brace_free(prefix) && brace_free(name) && brace_free(suffix),
        forall|i: int|
            0 <= i < inputs.len() ==> brace_free((#[trigger] inputs[i]).0) && inputs[i].0 != name,
    ensures
        resolved(prefix + marker(name) + suffix, inputs) == prefix + marker(name) + suffix,
    decreases inputs.len(),
{
    if inputs.len() > 0 {
        let before = inputs.drop_last();
        assert forall|i: int| 0 <= i < before.len() implies brace_free((#[trigger] before[i]).0)
            && before[i].0 != name by {
            assert(before[i] == inputs[i]);
        }
        lemma_other_markers_stay(prefix, name, suffix, before);
        let (other, value) = inputs.last();
        assert(inputs.last() == inputs[inputs.len() - 1]);
        let n = marker(other);
        lemma_marker(other);
        lemma_no_marker_in_plain_text(prefix, marker(name) + suffix, other);
        lemma_replaced_later(prefix, marker(name) + suffix, n, value);
        lemma_no_marker_in_another(name, suffix, other);
        lemma_replaced_later(marker(name), suffix, n, value);
        assert(suffix + Seq::<char>::empty() =~= suffix);
        lemma_no_marker_in_plain_text(suffix, Seq::empty(), other);
        lemma_replaced_later(suffix, Seq::empty(), n, value);
        assert(suffix + replaced(Seq::empty(), n, value) =~= suffix);
        assert(prefix + marker(name) + suffix =~= prefix + (marker(name) + suffix));
    }
}

/// A template that is a text, the marker of an input and a text becomes the first text, the value of the
/// input and the second text, as they are: the value is put in whatever the other inputs are called.
/// (The texts and the names hold no braces, and what comes out no doubled opening brace.)
pub proof fn law_a_marker_becomes_its_value(
    prefix: Seq<char>,
    suffix: Seq<char>,
    inputs: Seq<(Seq<char>, Seq<char>)>,
    k: int,
)
    requires
        0 <= k < inputs.len(),
        brace_free(prefix) && brace_free(suffix),
        forall|i: int| 0 <= i < inputs.len() ==> brace_free((#[trigger] inputs[i]).0),
        forall|i: int| 0 <= i < inputs.len() && i != k ==> (#[trigger] inputs[i]).0 != inputs[k].0,
        !occurs_in(prefix + inputs[k].1 + suffix, "{{"@),
    ensures
        resolved(prefix + marker(inputs[k].0) + suffix, inputs) == prefix + inputs[k].1 + suffix,
    decreases inputs.len(),
{
    let template = prefix + marker(inputs[k].0) + suffix;
    let before = inputs.drop_last();
    assert(forall|i: int| 0 <= i < before.len() ==> before[i] == #[trigger] inputs[i]);
    let (name, value) = inputs[k];
    if k == inputs.len() - 1 {
        assert forall|i: int| 0 <= i < before.len() implies brace_free((#[trigger] before[i]).0)
            && before[i].0 != name by {
            assert(before[i] == inputs[i]);
        }
        assert(brace_free(inputs[k].0));
        lemma_other_markers_stay(prefix, name, suffix, before);
        lemma_marker(name);
        lemma_no_marker_in_plain_text(prefix, marker(name) + suffix, name);
        lemma_replaced_later(prefix, marker(name) + suffix, marker(name), value);
        lemma_replaced_at_once(suffix, marker(name), value);
        lemma_no_marker_in_plain_text(suffix, Seq::empty(), name);
        lemma_replaced_later(suffix, Seq::empty(), marker(name), value);
        assert(suffix + Seq::<char>::empty() =~= suffix);
        assert(suffix + replaced(Seq::empty(), marker(name), value) =~= suffix);
        assert(template =~= prefix + (marker(name) + suffix));
        assert(prefix + (value + suffix) =~= prefix + value + suffix);
    } else {
        assert forall|i: int| 0 <= i < before.len() implies brace_free(
            (#[trigger] before[i]).0,
        ) by {
            assert(before[i] == inputs[i]);
        }
        assert forall|i: int| 0 <= i < before.len() && i != k implies (#[trigger] before[i]).0
            != before[k].0 by {
            assert(before[i] == inputs[i]);
        }
        law_a_marker_becomes_its_value(prefix, suffix, before, k);
        let done = prefix + value + suffix;
        law_plain_templates_stay(done, seq![inputs.last()]);
        reveal_with_fuel(resolved, 2);
        assert(seq![inputs.last()].drop_last() =~= Seq::<(Seq<char>, Seq<char>)>::empty());
    }
}

/// Where a step begins, what is asked for is its own template with the inputs of the run put in: what an
/// artifact step has stored, and what an inference step is asked, each under the step's own name, type,
/// model and bound. A template without a marker is handed on as it is, and one with a marker never with
/// the marker in place of the value.
pub proof fn law_a_step_begins_with_the_inputs_of_its_run(
    step: StepDefinition,
    inputs: Seq<(Seq<char>, Seq<char>)>,
    prefix: Seq<char>,
    suffix: Seq<char>,
    k: int,
)
    requires
        0 <= k < inputs.len(),
        brace_free(prefix) && brace_free(suffix),
        forall|i: int| 0 <= i < inputs.len() ==> brace_free((#[trigger] inputs[i]).0),
        forall|i: int| 0 <= i < inputs.len() && i != k ==> (#[trigger] inputs[i]).0 != inputs[k].0,
        !occurs_in(prefix + inputs[k].1 + suffix, "{{"@),
    ensures
        ({
            let asked = action_start(step, inputs).1;
            &&& step.action matches StepAction::Artifact { name, media_type, value } ==> {
                &&& value@ == prefix + marker(inputs[k].0) + suffix ==> asked == (
                ActionRequestView::Store {
                    name: name@,
                    media_type: media_type@,
                    content: prefix + inputs[k].1 + suffix,
                })
                &&& !occurs_in(value@, "{{"@) ==> asked == (ActionRequestView::Store {
                    name: name@,
                    media_type: media_type@,
                    content: value@,
                })
            }
            &&& step.action matches StepAction::Inference { model, input, max_output_tokens } ==> {
                &&& input@ == prefix + marker(inputs[k].0) + suffix ==> asked == (
                ActionRequestView::Prepare {
                    model: model@,
                    input: prefix + inputs[k].1 + suffix,
                    max_output_tokens,
                })
                &&& !occurs_in(input@, "{{"@) ==> asked == (ActionRequestView::Prepare {
                    model: model@,
                    input: input@,
                    max_output_tokens,
                })
            }
        }),
{
    law_a_marker_becomes_its_value(prefix, suffix, inputs, k);
    match step.action {
        StepAction::Artifact { value, .. } => {
            if !occurs_in(value@, "{{"@) {
                law_plain_templates_stay(value@, inputs);
            }
        },
        StepAction::Inference { input, .. } => {
            if !occurs_in(input@, "{{"@) {
                law_plain_templates_stay(input@, inputs);
            }
        },
        _ => {},
    }
}

/// The same of a template with any number of markers: what is asked for at the beginning of a step is its
/// template with the value of each input at each of its places.
pub proof fn law_a_step_begins_with_all_its_inputs(
    step: StepDefinition,
    pieces: Seq<TemplatePiece>,
    inputs: Seq<(Seq<char>, Seq<char>)>,
)
    requires
        well_written(pieces, inputs),
        plain_inputs(inputs),
    ensures
        step.action matches StepAction::Artifact { value, .. } ==> value@ == filled(pieces, inputs, 0)
            ==> (action_start(step, inputs).1 matches ActionRequestView::Store { content, .. }
            && content == filled(pieces, inputs, inputs.len() as int)),
        step.action matches StepAction::Inference { input, .. } ==> input@ == filled(
            pieces,
            inputs,
            0,
        ) ==> (action_start(step, inputs).1 matches ActionRequestView::Prepare { input: asked, .. }
            && asked == filled(pieces, inputs, inputs.len() as int)),
{
    law_each_marker_becomes_its_value(pieces, inputs);
}

/// What was asked for when a step ended well, going back to what it put out: what is stored is the
/// answer's text, the tool's output or the artifact itself, under the step's own name; and what the step
/// has used is what the answer counted.
pub proof fn law_what_a_step_puts_out_is_stored(step: StepDefinition, signal: ActionSignal)
    ensures
        signal matches ActionSignal::Collected(Some(answer)) ==> {
            let (stage, asked) = action_step(step, ActionStage::Collecting, signal);
            &&& asked matches ActionRequestView::Store { name, content, .. } && content
                == answer.text@ && name == step.id@ + ".txt"@
            &&& stage matches ActionStage::Storing(used) && used.input_tokens == answer.input_tokens
                && used.output_tokens == answer.output_tokens && used.network_bytes
                == answer.network_bytes && used.cost_micros == 0
        },
        signal matches ActionSignal::Tool(ToolOutcome::Output(output)) ==> {
            let asked = action_step(step, ActionStage::Executing, signal).1;
            asked matches ActionRequestView::Store { name, content, media_type } && content == output@
                && name == step.id@ + ".json"@ && media_type == "application/json"@
        },
        forall|used: StepAccounting, artifact: Uuid|
            #![trigger action_step(step, ActionStage::Storing(used), ActionSignal::Stored(Some(artifact)))]
            action_step(step, ActionStage::Storing(used), ActionSignal::Stored(Some(artifact))) == (
                ActionStage::Done,
                ActionRequestView::Succeed { accounting: used, artifact },
            ),
{
}

/// Whether what is asked for ends a step.
pub open spec fn ends_step(asked: ActionRequestView) -> bool {
    asked is Succeed || asked is Fail
}

/// A step ends once, and only by success or failure: as long as neither was told it goes on, and after
/// one was told whatever comes back is unexpected.
pub proof fn law_a_step_ends_once(
    step: StepDefinition,
    stage: ActionStage,
    signal: ActionSignal,
    next: ActionSignal,
)
    requires
        !(stage is Done),
    ensures
        ({
            let (after, asked) = action_step(step, stage, signal);
            &&& after is Done <==> ends_step(asked)
            &&& after is Done ==> action_step(step, after, next).1 is Unexpected
            &&& asked is Unexpected ==> after == stage
            &&& asked is Succeed ==> stage is Storing
        }),
{
}

// ------------------------------------------------------------------------------------------------
// What happens to a run

/// What happens to a run.
pub enum WorkflowEvent {
    Start,
    StepStarted { step_id: String },
    StepLeaseExpired { step_id: String },
    StepSucceeded { step_id: String, accounting: StepAccounting, artifacts: Vec<Uuid> },
    StepFailed { step_id: String, error_code: String, retryable: bool },
    ApprovalRequested { step_id: String },
    ApprovalGranted { step_id: String, principal_id: String },
    ApprovalDenied { step_id: String, principal_id: String },
    Cancel { principal_id: String },
}

/// What happens to a run, as values.
pub enum WorkflowEventView {
    Start,
    StepStarted { step_id: Seq<char> },
    StepLeaseExpired { step_id: Seq<char> },
    StepSucceeded { step_id: Seq<char>, accounting: StepAccounting, artifacts: Seq<Uuid> },
    StepFailed { step_id: Seq<char>, error_code: Seq<char>, retryable: bool },
    ApprovalRequested { step_id: Seq<char> },
    ApprovalGranted { step_id: Seq<char>, principal_id: Seq<char> },
    ApprovalDenied { step_id: Seq<char>, principal_id: Seq<char> },
    Cancel { principal_id: Seq<char> },
}

impl WorkflowEvent {
    pub open spec fn view(&self) -> WorkflowEventView {
        match self {
            WorkflowEvent::Start => WorkflowEventView::Start,
            WorkflowEvent::StepStarted { step_id } => WorkflowEventView::StepStarted {
                step_id: step_id@,
            },
            WorkflowEvent::StepLeaseExpired { step_id } => WorkflowEventView::StepLeaseExpired {
                step_id: step_id@,
            },
            WorkflowEvent::StepSucceeded {
                step_id,
                accounting,
                artifacts,
            } => WorkflowEventView::StepSucceeded {
                step_id: step_id@,
                accounting: *accounting,
                artifacts: artifacts@,
            },
            WorkflowEvent::StepFailed {
                step_id,
                error_code,
                retryable,
            } => WorkflowEventView::StepFailed {
                step_id: step_id@,
                error_code: error_code@,
                retryable: *retryable,
            },
            WorkflowEvent::ApprovalRequested { step_id } => WorkflowEventView::ApprovalRequested {
                step_id: step_id@,
            },
            WorkflowEvent::ApprovalGranted {
                step_id,
                principal_id,
            } => WorkflowEventView::ApprovalGranted {
                step_id: step_id@,
                principal_id: principal_id@,
            },
            WorkflowEvent::ApprovalDenied {
                step_id,
                principal_id,
            } => WorkflowEventView::ApprovalDenied {
                step_id: step_id@,
                principal_id: principal_id@,
            },
            WorkflowEvent::Cancel { principal_id } => WorkflowEventView::Cancel {
                principal_id: principal_id@,
            },
        }
    }
}

/// The event of a step that has ended: it succeeded, it failed, or its time was up. What it has used
/// is completed by the milliseconds that it took.
pub open spec fn step_outcome(
    step_id: Seq<char>,
    result: Option<Result<(StepAccounting, Seq<Uuid>), (Seq<char>, bool)>>,
    elapsed_ms: nat,
) -> WorkflowEventView {
    match result {
        Some(Ok((accounting, artifacts))) => WorkflowEventView::StepSucceeded {
            step_id,
            accounting: StepAccounting {
                duration_ms: if elapsed_ms > u64::MAX {
                    u64::MAX
                } else {
                    elapsed_ms as u64
                },
                ..accounting
            },
            artifacts,
        },
        Some(Err((error_code, retryable))) => WorkflowEventView::StepFailed {
            step_id,
            error_code,
            retryable,
        },
        None => WorkflowEventView::StepFailed {
            step_id,
            error_code: "deadline_exceeded"@,
            retryable: true,
        },
    }
}

/// A step's result, as values.
pub open spec fn step_result_view(
    result: Option<Result<(StepAccounting, Vec<Uuid>), WorkflowActionError>>,
) -> Option<Result<(StepAccounting, Seq<Uuid>), (Seq<char>, bool)>> {
    match result {
        Some(Ok((accounting, artifacts))) => Some(Ok((accounting, artifacts@))),
        Some(Err(error)) => Some(Err((error.code@, error.retryable))),
        None => None,
    }
}

/// The event of a step that has ended; no result means that its time was up.
pub fn execute_workflow_step(
    step_id: String,
    result: Option<Result<(StepAccounting, Vec<Uuid>), WorkflowActionError>>,
    elapsed_ms: u128,
) -> (event: WorkflowEvent)
    ensures
        event@ == step_outcome(step_id@, step_result_view(result), elapsed_ms as nat),
{
    match result {
        Some(Ok((accounting, artifacts))) => {
            let duration_ms: u64 = if elapsed_ms > u64::MAX as u128 {
                u64::MAX
            } else {
                elapsed_ms as u64
            };
            let accounting = StepAccounting {
                input_tokens: accounting.input_tokens,
                output_tokens: accounting.output_tokens,
                network_bytes: accounting.network_bytes,
                duration_ms,
                cost_micros: accounting.cost_micros,
            };
            WorkflowEvent::StepSucceeded { step_id, accounting, artifacts }
        },
        Some(Err(error)) => WorkflowEvent::StepFailed {
            step_id,
            error_code: error.code,
            retryable: error.retryable,
        },
        None => WorkflowEvent::StepFailed {
            step_id,
            error_code: text::owned("deadline_exceeded"),
            retryable: true,
        },
    }
}

/// An event that a principal causes is recorded as that principal's, whatever it says itself.
pub open spec fn bound_event(event: WorkflowEventView, principal: Seq<char>) -> WorkflowEventView {
    match event {
        WorkflowEventView::ApprovalGranted { step_id, .. } => WorkflowEventView::ApprovalGranted {
            step_id,
            principal_id: principal,
        },
        WorkflowEventView::ApprovalDenied { step_id, .. } => WorkflowEventView::ApprovalDenied {
            step_id,
            principal_id: principal,
        },
        WorkflowEventView::Cancel { .. } => WorkflowEventView::Cancel { principal_id: principal },
        other => other,
    }
}

/// An event that a principal causes is recorded as that principal's, whatever it says itself.
pub fn bind_workflow_principal(event: WorkflowEvent, principal: &str) -> (r: WorkflowEvent)
    ensures
        r@ == bound_event(event@, principal@),
{
    match event {
        WorkflowEvent::ApprovalGranted { step_id, .. } => WorkflowEvent::ApprovalGranted {
            step_id,
            principal_id: text::owned(principal),
        },
        WorkflowEvent::ApprovalDenied { step_id, .. } => WorkflowEvent::ApprovalDenied {
            step_id,
            principal_id: text::owned(principal),
        },
        WorkflowEvent::Cancel { .. } => WorkflowEvent::Cancel {
            principal_id: text::owned(principal),
        },
        other => other,
    }
}

/// The type of an event, and the step and the principal that it speaks of.
pub open spec fn event_metadata(event: WorkflowEventView) -> (
    Seq<char>,
    Option<Seq<char>>,
    Option<Seq<char>>,
) {
    match event {
        WorkflowEventView::Start => ("run.started"@, None, None),
        WorkflowEventView::StepStarted { step_id } => ("step.started"@, Some(step_id), None),
        WorkflowEventView::StepLeaseExpired { step_id } => (
            "step.lease_expired"@,
            Some(step_id),
            None,
        ),
        WorkflowEventView::StepSucceeded { step_id, .. } => (
            "step.succeeded"@,
            Some(step_id),
            None,
        ),
        WorkflowEventView::StepFailed { step_id, .. } => ("step.failed"@, Some(step_id), None),
        WorkflowEventView::ApprovalRequested { step_id } => (
            "approval.requested"@,
            Some(step_id),
            None,
        ),
        WorkflowEventView::ApprovalGranted { step_id, principal_id } => (
            "approval.granted"@,
            Some(step_id),
            Some(principal_id),
        ),
        WorkflowEventView::ApprovalDenied { step_id, principal_id } => (
            "approval.denied"@,
            Some(step_id),
            Some(principal_id),
        ),
        WorkflowEventView::Cancel { principal_id } => ("run.cancelled"@, None, Some(principal_id)),
    }
}

/// What an optional text says.
pub open spec fn optional_str(text: Option<&str>) -> Option<Seq<char>> {
    match text {
        Some(t) => Some(t@),
        None => None,
    }
}

/// What an optional text says.
pub open spec fn optional_string(text: Option<String>) -> Option<Seq<char>> {
    match text {
        Some(t) => Some(t@),
        None => None,
    }
}

/// The type of an event, and the step and the principal that it speaks of.
pub fn workflow_event_metadata(event: &WorkflowEvent) -> (r: (
    &'static str,
    Option<&str>,
    Option<&str>,
))
    ensures
        (r.0@, optional_str(r.1), optional_str(r.2)) == event_metadata(event@),
{
    match event {
        WorkflowEvent::Start => ("run.started", None, None),
        WorkflowEvent::StepStarted { step_id } => ("step.started", Some(step_id.as_str()), None),
        WorkflowEvent::StepLeaseExpired { step_id } => (
            "step.lease_expired",
            Some(step_id.as_str()),
            None,
        ),
        WorkflowEvent::StepSucceeded { step_id, .. } => (
            "step.succeeded",
            Some(step_id.as_str()),
            None,
        ),
        WorkflowEvent::StepFailed { step_id, .. } => ("step.failed", Some(step_id.as_str()), None),
        WorkflowEvent::ApprovalRequested { step_id } => (
            "approval.requested",
            Some(step_id.as_str()),
            None,
        ),
        WorkflowEvent::ApprovalGranted { step_id, principal_id } => (
            "approval.granted",
            Some(step_id.as_str()),
            Some(principal_id.as_str()),
        ),
        WorkflowEvent::ApprovalDenied { step_id, principal_id } => (
            "approval.denied",
            Some(step_id.as_str()),
            Some(principal_id.as_str()),
        ),
        WorkflowEvent::Cancel { principal_id } => (
            "run.cancelled",
            None,
            Some(principal_id.as_str()),
        ),
    }
}

/// The record of an event: its type, its step and its principal, and nothing of its content.
pub fn run_event(run_id: Uuid, event: &WorkflowEvent, now: i128) -> (r: RunEvent)
    ensures
        r.run_id == run_id,
        r.created_at == now,
        (r.event_type@, optional_string(r.step_id), optional_string(r.principal_id))
            == event_metadata(event@),
{
    let (event_type, step_id, principal_id) = workflow_event_metadata(event);
    RunEvent {
        run_id,
        event_type: text::owned(event_type),
        step_id: match step_id {
            Some(step) => Some(text::owned(step)),
            None => None,
        },
        principal_id: match principal_id {
            Some(principal) => Some(text::owned(principal)),
            None => None,
        },
        created_at: now,
    }
}

/// What a principal has to be allowed to cause an event.
pub open spec fn transition_permission(event: WorkflowEventView) -> Permission {
    if event is ApprovalGranted || event is ApprovalDenied {
        Permission::WorkflowApprove
    } else {
        Permission::WorkflowOperate
    }
}

/// Takes an event from a principal, who has to be allowed to cause it: it is recorded as that
/// principal's.
pub fn transition_workflow_run(principal: &AuthenticatedPrincipal, event: WorkflowEvent) -> (r: Result<
    WorkflowEvent,
    ApiError,
>)
    ensures
        r is Ok == allowed(*principal, transition_permission(event@)),
        r matches Ok(bound) ==> bound@ == bound_event(event@, principal_label(*principal)),
        r matches Err(error) ==> error@ == forbidden(
            "identity cannot administer this workflow transition"@,
        ),
{
    let required: Permission = match &event {
        WorkflowEvent::ApprovalGranted { .. } => Permission::WorkflowApprove,
        WorkflowEvent::ApprovalDenied { .. } => Permission::WorkflowApprove,
        _ => Permission::WorkflowOperate,
    };
    if !principal_allows(principal, required) {
        return Err(ApiError::forbidden("identity cannot administer this workflow transition"));
    }
    Ok(bind_workflow_principal(event, authenticated_principal_id(principal).as_str()))
}

/// Nobody approves or refuses a step in another's name, and only one who may approve does either.
pub proof fn law_approvals_are_their_principals_own(
    principal: AuthenticatedPrincipal,
    event: WorkflowEventView,
)
    requires
        allowed(principal, transition_permission(event)),
        event is ApprovalGranted || event is ApprovalDenied,
    ensures
        allowed(principal, Permission::WorkflowApprove),
        event_metadata(bound_event(event, principal_label(principal))).2 == Some(
            principal_label(principal),
        ),
{
}

// ------------------------------------------------------------------------------------------------
// Changing a run

/// How often a change to a run is tried when others change it meanwhile.
pub const TRANSITION_ATTEMPTS: u8 = 8;

/// What became of an attempt to change a run.
pub enum AttemptOutcome {
    /// The run could not be loaded or sealed.
    Unavailable(ApiError),
    /// The event does not fit the run's state.
    Invalid(String),
    /// Whether the run was still as it was loaded, so that it was changed.
    Stored(bool),
}

/// What follows an attempt to change a run.
pub enum AttemptStep {
    /// The run is loaded again; this many attempts have been made.
    Again(u8),
    /// Whether the run was changed.
    Done(bool),
    Failed(ApiError),
}

/// What follows an attempt to change a run, the `made`-th: unless it was stored it is made again, up
/// to eight times in all.
pub fn apply_workflow_transition(made: u8, outcome: AttemptOutcome) -> (step: AttemptStep)
    requires
        1 <= made <= TRANSITION_ATTEMPTS,
    ensures
        match outcome {
            AttemptOutcome::Unavailable(error) => step == AttemptStep::Failed(error),
            AttemptOutcome::Invalid(message) => step matches AttemptStep::Failed(error) && error@
                == bad_request("invalid_workflow_transition"@, message@),
            AttemptOutcome::Stored(true) => step == AttemptStep::Done(true),
            AttemptOutcome::Stored(false) => if made < TRANSITION_ATTEMPTS {
                step == AttemptStep::Again(made)
            } else {
                step == AttemptStep::Done(false)
            },
        },
{
    match outcome {
        AttemptOutcome::Unavailable(error) => AttemptStep::Failed(error),
        AttemptOutcome::Invalid(message) => AttemptStep::Failed(
            ApiError::bad_request("invalid_workflow_transition", message.as_str()),
        ),
        AttemptOutcome::Stored(stored) => {
            if stored {
                AttemptStep::Done(true)
            } else if made < TRANSITION_ATTEMPTS {
                AttemptStep::Again(made)
            } else {
                AttemptStep::Done(false)
            }
        },
    }
}

/// A run as it was loaded, as far as one who changes it has to find it again.
pub struct LoadedRun {
    pub status: RunStatus,
    pub nonce: Vec<u8>,
}

/// A run as an event makes it, sealed.
pub struct ChangedRun {
    pub status: RunStatus,
    pub content: EncryptedContent,
}

/// Why an event makes nothing of a run.
pub enum ChangeFault {
    /// The event does not fit the run's state.
    Invalid(String),
    /// What came of it could not be sealed.
    Unsealed,
}

/// What a client is told of an event that makes nothing of a run.
pub open spec fn change_refusal(fault: ChangeFault) -> ErrorView {
    match fault {
        ChangeFault::Invalid(message) => bad_request("invalid_workflow_transition"@, message@),
        ChangeFault::Unsealed => secret(),
    }
}

/// Whether a record says that an event happened to a run.
pub open spec fn records(record: RunEvent, run_id: Uuid, event: WorkflowEventView, now: i128) -> bool {
    &&& record.run_id == run_id
    &&& record.created_at == now
    &&& (record.event_type@, optional_string(record.step_id), optional_string(record.principal_id))
        == event_metadata(event)
}

/// Whether a state follows another by an event that changed a run: the run is as the event makes it, and
/// it is on record, and logged, what happened.
pub open spec fn run_changed(
    before: RepositoryView,
    after: RepositoryView,
    run_id: Uuid,
    event: WorkflowEventView,
    changed: ChangedRun,
    told: EventView,
    now: i128,
) -> bool {
    &&& after.run_events.len() == before.run_events.len() + 1
    &&& records(after.run_events.last(), run_id, event, now)
    &&& after == logged(
        updated_run(
            before,
            run_id,
            changed.status,
            changed.content,
            after.run_events.last(),
            now,
        ),
        told,
        now,
    )
}

/// Stores what an event makes of a run, where the run is still as it was loaded; nothing comes of it
/// where it is not.
pub fn store_workflow_transition(
    repository: &mut Repository,
    run_id: Uuid,
    loaded: &LoadedRun,
    event: &WorkflowEvent,
    changed: Result<ChangedRun, ChangeFault>,
    now: i128,
) -> (r: Result<Option<ClusterEvent>, ApiError>)
    ensures
        match changed {
            Err(fault) => r is Err && r->Err_0@ == change_refusal(fault) && final(repository)@
                == old(repository)@,
            Ok(run) => {
                let there = as_expected(
                    old(repository)@.runs,
                    run_id,
                    loaded.status,
                    loaded.nonce@,
                );
                &&& r is Ok
                &&& r->Ok_0 is Some == there
                &&& match r->Ok_0 {
                    Some(told) => run_changed(
                        old(repository)@,
                        final(repository)@,
                        run_id,
                        event@,
                        run,
                        told@,
                        now,
                    ),
                    None => final(repository)@ == old(repository)@,
                }
            },
        },
{
    match changed {
        Ok(run) => {
            let happened = run_event(run_id, event, now);
            let told = repository.update_workflow_run(
                run_id,
                loaded.status,
                loaded.nonce.as_slice(),
                run.status,
                run.content,
                happened.event_type,
                happened.step_id,
                happened.principal_id,
                now,
            );
            Ok(told)
        },
        Err(ChangeFault::Invalid(message)) => Err(
            ApiError::bad_request("invalid_workflow_transition", message.as_str()),
        ),
        Err(ChangeFault::Unsealed) => Err(ApiError::secret()),
    }
}

/// Stores what a client's event makes of a run. It is tried once: where others have changed the run
/// meanwhile, the client has to look at it again.
pub fn finish_workflow_transition(
    repository: &mut Repository,
    run_id: Uuid,
    loaded: &LoadedRun,
    event: &WorkflowEvent,
    changed: Result<ChangedRun, ChangeFault>,
    now: i128,
) -> (r: Result<ClusterEvent, ApiError>)
    ensures
        ({
            let there = as_expected(
                old(repository)@.runs,
                run_id,
                loaded.status,
                loaded.nonce@,
            );
            match r {
                Ok(told) => changed is Ok && there && run_changed(
                    old(repository)@,
                    final(repository)@,
                    run_id,
                    event@,
                    changed->Ok_0,
                    told@,
                    now,
                ),
                Err(error) => {
                    &&& final(repository)@ == old(repository)@
                    &&& match changed {
                        Err(fault) => error@ == change_refusal(fault),
                        Ok(_) => !there && error@ == bad_request(
                            "workflow_transition_conflict"@,
                            "workflow run changed concurrently; reload before retrying"@,
                        ),
                    }
                },
            }
        }),
{
    match store_workflow_transition(repository, run_id, loaded, event, changed, now) {
        Ok(Some(told)) => Ok(told),
        Ok(None) => Err(
            ApiError::bad_request(
                "workflow_transition_conflict",
                "workflow run changed concurrently; reload before retrying",
            ),
        ),
        Err(error) => Err(error),
    }
}

/// Leases a step before its work begins: stores that it was started. The work is done only where that
/// was stored.
pub fn lease_workflow_step(
    repository: &mut Repository,
    run_id: Uuid,
    loaded: &LoadedRun,
    step_id: &str,
    changed: Result<ChangedRun, ChangeFault>,
    now: i128,
) -> (r: (bool, Option<ClusterEvent>))
    ensures
        r.0 == (changed is Ok && as_expected(
            old(repository)@.runs,
            run_id,
            loaded.status,
            loaded.nonce@,
        )),
        r.0 == r.1 is Some,
        r.1 matches Some(told) ==> run_changed(
            old(repository)@,
            final(repository)@,
            run_id,
            WorkflowEventView::StepStarted { step_id: step_id@ },
            changed->Ok_0,
            told@,
            now,
        ),
        r.1 is None ==> final(repository)@ == old(repository)@,
{
    let event = WorkflowEvent::StepStarted { step_id: text::owned(step_id) };
    match store_workflow_transition(repository, run_id, loaded, &event, changed, now) {
        Ok(Some(told)) => (true, Some(told)),
        _ => (false, None),
    }
}

/// A step is leased once: after it was leased from a run as it was loaded, no other attempt from the run
/// as it was loaded then is stored, and no second work begins. (What an event makes of a run is sealed
/// under a nonce of its own.)
pub proof fn law_a_step_is_leased_once(
    before: RepositoryView,
    after: RepositoryView,
    run_id: Uuid,
    loaded: LoadedRun,
    event: WorkflowEventView,
    changed: ChangedRun,
    told: EventView,
    now: i128,
)
    requires
        run_changed(before, after, run_id, event, changed, told, now),
        changed.content.nonce@ != loaded.nonce@,
    ensures
        !as_expected(after.runs, run_id, loaded.status, loaded.nonce@),
        after.runs.contains_key(run_id),
        records(after.run_events.last(), run_id, event, now),
{
}

/// Checks a definition that was opened against the digest that was stored with it.
pub fn load_workflow_definition(actual_sha256: &str, stored_sha256: &str) -> (r: Result<(), ApiError>)
    ensures
        r is Ok == (actual_sha256@ == stored_sha256@),
        r matches Err(error) ==> error@ == unavailable(
            "workflow definition integrity verification failed"@,
        ),
{
    if text::same(actual_sha256, stored_sha256) {
        Ok(())
    } else {
        Err(ApiError::unavailable("workflow definition integrity verification failed"))
    }
}

/// What a run that was opened says of itself, and has to agree on with its row.
#[derive(Clone, Copy)]
pub struct RunIdentity {
    pub workflow_id: Uuid,
    pub status: RunStatus,
}

/// Whether a run that was opened is the one of its row.
pub open spec fn agrees(opened: RunIdentity, stored: EncryptedWorkflowRun) -> bool {
    opened.workflow_id == stored.workflow_id && stored.status == StoredStatus::Known(opened.status)
}

/// Checks a run that was opened against its row and the workflow's current revision.
pub fn load_workflow_run(
    opened: RunIdentity,
    stored: &EncryptedWorkflowRun,
    current_revision: u32,
) -> (r: Result<(), ApiError>)
    ensures
        r is Ok == (agrees(opened, *stored) && current_revision == stored.workflow_revision),
        r matches Err(error) ==> error@ == (if !agrees(opened, *stored) {
            unavailable("workflow run metadata integrity verification failed"@)
        } else {
            unavailable("workflow run references an unavailable historical revision"@)
        }),
{
    if opened.workflow_id != stored.workflow_id || !stored.status.is(opened.status) {
        return Err(
            ApiError::unavailable("workflow run metadata integrity verification failed"),
        );
    }
    if current_revision != stored.workflow_revision {
        return Err(
            ApiError::unavailable("workflow run references an unavailable historical revision"),
        );
    }
    Ok(())
}

/// What the encryption of a definition is bound to.
pub open spec fn definition_ad(workflow_id: Uuid, revision: u32) -> Seq<char> {
    "workflow:"@ + hyphenated(workflow_id) + ":revision:"@ + decimal(revision as nat)
}

/// What the encryption of a definition is bound to.
pub fn workflow_definition_ad(workflow_id: Uuid, revision: u32) -> (r: String)
    ensures
        r@ == definition_ad(workflow_id, revision),
{
    let head = text::join3("workflow:", format_uuid(workflow_id).as_str(), ":revision:");
    text::join2(head.as_str(), text::decimal_of(revision as u64).as_str())
}

/// What the encryption of a run is bound to.
pub open spec fn run_ad(run_id: Uuid) -> Seq<char> {
    "workflow-run:"@ + hyphenated(run_id)
}

/// What the encryption of a run is bound to.
pub fn workflow_run_ad(run_id: Uuid) -> (r: String)
    ensures
        r@ == run_ad(run_id),
{
    text::join2("workflow-run:", format_uuid(run_id).as_str())
}

/// What the encryption of an artifact is bound to.
pub open spec fn artifact_ad(artifact_id: Uuid, run_id: Uuid) -> Seq<char> {
    "workflow-artifact:"@ + hyphenated(artifact_id) + ":run:"@ + hyphenated(run_id)
}

/// What the encryption of an artifact is bound to.
pub fn workflow_artifact_ad(artifact_id: Uuid, run_id: Uuid) -> (r: String)
    ensures
        r@ == artifact_ad(artifact_id, run_id),
{
    let head = text::join3("workflow-artifact:", format_uuid(artifact_id).as_str(), ":run:");
    text::join2(head.as_str(), format_uuid(run_id).as_str())
}

// ------------------------------------------------------------------------------------------------
// The engine

/// The state of a step, as far as the engine asks.
pub struct StepState {
    pub id: String,
    pub running: bool,
    pub started_at: Option<i128>,
}

/// The identifiers of steps.
pub open spec fn step_ids(steps: Seq<StepDefinition>) -> Seq<Seq<char>> {
    steps.map_values(|step: StepDefinition| step.id@)
}

/// The identifiers of the steps of a run.
pub open spec fn state_ids(states: Seq<StepState>) -> Seq<Seq<char>> {
    states.map_values(|state: StepState| state.id@)
}

/// The whole seconds between two moments, rounded towards zero.
pub open spec fn whole_seconds(from: i128, to: i128) -> int {
    if from <= to {
        (to - from) / SECOND as int
    } else {
        -((from - to) / SECOND as int)
    }
}

/// Whether the time of a running step is up.
pub open spec fn step_expired(step: StepDefinition, states: Seq<StepState>, now: i128) -> bool {
    let k = position(state_ids(states), step.id@);
    &&& k < states.len()
    &&& states[k].running
    &&& states[k].started_at matches Some(at) && whole_seconds(at, now) >= step.timeout_seconds
}

/// What the engine does with a step of a run, which is named by its place in the definition.
#[derive(Clone, Copy, Debug, PartialEq, Eq, Structural)]
pub enum EngineStep {
    /// The step's time is up.
    Expire(usize),
    /// The step waits for somebody's approval.
    RequestApproval(usize),
    /// The step is leased, and carried out where that was stored.
    Start(usize),
}

/// The first `n` steps whose time is up.
pub open spec fn expirations(
    steps: Seq<StepDefinition>,
    states: Seq<StepState>,
    now: i128,
    n: nat,
) -> Seq<EngineStep>
    decreases n,
{
    if n == 0 {
        Seq::empty()
    } else {
        let before = expirations(steps, states, now, (n - 1) as nat);
        if step_expired(steps[n - 1], states, now) {
            before.push(EngineStep::Expire((n - 1) as usize))
        } else {
            before
        }
    }
}

/// What is done with the first `n` of the steps that are ready; one that the definition does not hold
/// is passed over.
pub open spec fn starts(steps: Seq<StepDefinition>, ready: Seq<Seq<char>>, n: nat) -> Seq<EngineStep>
    decreases n,
{
    if n == 0 {
        Seq::empty()
    } else {
        let before = starts(steps, ready, (n - 1) as nat);
        let k = position(step_ids(steps), ready[n - 1]);
        if k >= steps.len() {
            before
        } else if steps[k].action is Approval {
            before.push(EngineStep::RequestApproval(k as usize))
        } else {
            before.push(EngineStep::Start(k as usize))
        }
    }
}

/// The views of texts.
pub open spec fn text_views(texts: Seq<String>) -> Seq<Seq<char>> {
    texts.map_values(|text: String| text@)
}

/// Where a step stands in a definition; past the end where it does not.
fn find_step(steps: &[StepDefinition], id: &str) -> (k: usize)
    ensures
        k == position(step_ids(steps@), id@),
        k <= steps@.len(),
{
    let mut k: usize = 0;
    while k < steps.len()
        invariant
            k <= steps@.len(),
            forall|j: int| 0 <= j < k ==> #[trigger] step_ids(steps@)[j] != id@,
        decreases steps@.len() - k,
    {
        if text::same(steps[k].id.as_str(), id) {
            assert(step_ids(steps@)[k as int] == id@);
            proof {
                text::lemma_position_unique(step_ids(steps@), id@, k as int);
            }
            return k;
        }
        k += 1;
    }
    proof {
        text::lemma_position(step_ids(steps@), id@);
        if position(step_ids(steps@), id@) < steps@.len() {
            assert(step_ids(steps@)[position(step_ids(steps@), id@)] == id@);
        }
    }
    k
}

/// Where the state of a step stands; past the end where there is none.
fn find_state(states: &[StepState], id: &str) -> (k: usize)
    ensures
        k == position(state_ids(states@), id@),
        k <= states@.len(),
{
    let mut k: usize = 0;
    while k < states.len()
        invariant
            k <= states@.len(),
            forall|j: int| 0 <= j < k ==> #[trigger] state_ids(states@)[j] != id@,
        decreases states@.len() - k,
    {
        if text::same(states[k].id.as_str(), id) {
            assert(state_ids(states@)[k as int] == id@);
            proof {
                text::lemma_position_unique(state_ids(states@), id@, k as int);
            }
            return k;
        }
        k += 1;
    }
    proof {
        text::lemma_position(state_ids(states@), id@);
        if position(state_ids(states@), id@) < states@.len() {
            assert(state_ids(states@)[position(state_ids(states@), id@)] == id@);
        }
    }
    k
}

/// Whether the time of a running step is up.
fn time_is_up(step: &StepDefinition, states: &[StepState], now: i128) -> (r: bool)
    ensures
        r == step_expired(*step, states@, now),
{
    let k: usize = find_state(states, step.id.as_str());
    if k >= states.len() || !states[k].running {
        return false;
    }
    match states[k].started_at {
        Some(at) => {
            if at <= now {
                time_between(at, now) / 1_000_000_000 >= step.timeout_seconds as u128
            } else {
                time_between(now, at) / 1_000_000_000 == 0 && step.timeout_seconds == 0
            }
        },
        None => false,
    }
}

/// What the engine does with a run: only with one that is running, first with the steps whose time is
/// up, then with those that are ready.
pub fn spawn_workflow_engine(
    status: RunStatus,
    steps: &[StepDefinition],
    states: &[StepState],
    ready: &[String],
    now: i128,
) -> (actions: Vec<EngineStep>)
    ensures
        actions@ == (if status == RunStatus::Running {
            expirations(steps@, states@, now, steps@.len()) + starts(
                steps@,
                text_views(ready@),
                ready@.len(),
            )
        } else {
            Seq::empty()
        }),
{
    let mut actions: Vec<EngineStep> = Vec::new();
    if status != RunStatus::Running {
        return actions;
    }
    let mut i: usize = 0;
    while i < steps.len()
        invariant
            i <= steps@.len(),
            actions@ == expirations(steps@, states@, now, i as nat),
        decreases steps@.len() - i,
    {
        if time_is_up(&steps[i], states, now) {
            actions.push(EngineStep::Expire(i));
        }
        i += 1;
    }
    let ghost expired = actions@;
    assert(actions@ =~= expired + starts(steps@, text_views(ready@), 0));
    let mut j: usize = 0;
    while j < ready.len()
        invariant
            j <= ready@.len(),
            actions@ == expired + starts(steps@, text_views(ready@), j as nat),
        decreases ready@.len() - j,
    {
        let ghost before = starts(steps@, text_views(ready@), j as nat);
        let k: usize = find_step(steps, ready[j].as_str());
        if k < steps.len() {
            match &steps[k].action {
                StepAction::Approval => {
                    actions.push(EngineStep::RequestApproval(k));
                    assert(actions@ =~= expired + before.push(EngineStep::RequestApproval(k)));
                },
                _ => {
                    actions.push(EngineStep::Start(k));
                    assert(actions@ =~= expired + before.push(EngineStep::Start(k)));
                },
            }
        }
        j += 1;
    }
    actions
}

/// Whether an occurrence of a schedule gets its run now: the schedule has fewer under way than it may.
pub fn has_room(active: u32, concurrency_limit: u16) -> (r: bool)
    ensures
        r == (active < concurrency_limit),
{
    active < concurrency_limit as u32
}

/// What happened to a run is on record with the step that it happened to and the principal who did it, and
/// different kinds of events are told apart; what a step put out or failed with is not on record.
pub proof fn law_what_happened_is_on_record(
    record: RunEvent,
    run_id: Uuid,
    event: WorkflowEventView,
    now: i128,
)
    requires
        records(record, run_id, event, now),
    ensures
        record.run_id == run_id,
        record.created_at == now,
        record.event_type@ == match event {
            WorkflowEventView::Start => "run.started"@,
            WorkflowEventView::StepStarted { .. } => "step.started"@,
            WorkflowEventView::StepLeaseExpired { .. } => "step.lease_expired"@,
            WorkflowEventView::StepSucceeded { .. } => "step.succeeded"@,
            WorkflowEventView::StepFailed { .. } => "step.failed"@,
            WorkflowEventView::ApprovalRequested { .. } => "approval.requested"@,
            WorkflowEventView::ApprovalGranted { .. } => "approval.granted"@,
            WorkflowEventView::ApprovalDenied { .. } => "approval.denied"@,
            WorkflowEventView::Cancel { .. } => "run.cancelled"@,
        },
        optional_string(record.step_id) == match event {
            WorkflowEventView::Start => None,
            WorkflowEventView::Cancel { .. } => None,
            WorkflowEventView::StepStarted { step_id } => Some(step_id),
            WorkflowEventView::StepLeaseExpired { step_id } => Some(step_id),
            WorkflowEventView::StepSucceeded { step_id, .. } => Some(step_id),
            WorkflowEventView::StepFailed { step_id, .. } => Some(step_id),
            WorkflowEventView::ApprovalRequested { step_id } => Some(step_id),
            WorkflowEventView::ApprovalGranted { step_id, .. } => Some(step_id),
            WorkflowEventView::ApprovalDenied { step_id, .. } => Some(step_id),
        },
        optional_string(record.principal_id) == match event {
            WorkflowEventView::ApprovalGranted { principal_id, .. } => Some(principal_id),
            WorkflowEventView::ApprovalDenied { principal_id, .. } => Some(principal_id),
            WorkflowEventView::Cancel { principal_id } => Some(principal_id),
            _ => None,
        },
{
}

/// A change of a run is on record just once, behind all that happened before, and is told.
pub proof fn law_a_change_is_on_record(
    before: RepositoryView,
    after: RepositoryView,
    run_id: Uuid,
    event: WorkflowEventView,
    changed: ChangedRun,
    told: EventView,
    now: i128,
)
    requires
        run_changed(before, after, run_id, event, changed, told, now),
    ensures
        after.run_events.drop_last() == before.run_events,
        records(after.run_events.last(), run_id, event, now),
        after.events.last().event == told,
        after.events.len() == before.events.len() + 1,
{
    assert(after.run_events.drop_last() =~= before.run_events);
}

/// Before anything was used, nothing counts: no tokens, no bytes, no time and no cost.
pub proof fn law_nothing_used_counts_for_nothing()
    ensures
        no_use().input_tokens + no_use().output_tokens + no_use().network_bytes + no_use().duration_ms
            + no_use().cost_micros == 0,
{
}

} // verus!
