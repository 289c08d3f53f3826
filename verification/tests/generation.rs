//! What is asked of models, what they answer, and the workflows that use them.

use constellation::api::execution::{
    abandon_cloud_execution, cloud_model_aliases, cloud_request_body, cloud_request_endpoint,
    execution_route, lease_associated_data, prepare_cloud_execution, prepare_execution,
    release_cloud_reservation, retain_eligible, ExecutionRoute, Target,
};
use constellation::api::inference::{
    chat_input, embedding_bytes, embedding_inputs, embedding_tokens, embeddings, max_output_tokens,
    prompt_input, reject_unsupported, value_to_text, ChatMessage, Collector,
};
use constellation::api::models::{import_local_model, models, remove_local_model, ModelImportRequest};
use constellation::api::plans::{get_workload_plan, scheduling_snapshot, simulate_plan, simulated_workload, PlanSimulation};
use constellation::api::runs::{
    dispatch_workflow_schedules, find_workflow, find_workflow_artifact, find_workflow_run,
    find_workflow_template, next_firing, start_is_new, start_workflow_run_with_id, Claim,
    MadeRun,
};
use constellation::api::streams::{chat_completion, response, text_completion, AnswerStream};
use constellation::api::inference::Answer;
use constellation::api::workflows::{
    apply_workflow_transition, bind_workflow_principal, execute_workflow_step,
    finish_workflow_transition, has_room, lease_workflow_step, load_workflow_definition,
    load_workflow_run, resolve_workflow_template, run_event,
    spawn_workflow_engine, transition_workflow_run, workflow_artifact_ad, workflow_definition_ad,
    workflow_event_metadata, workflow_run_ad, ActionRequest, ActionRun, ActionSignal,
    AttemptOutcome, AttemptStep, ChangeFault, ChangedRun, EngineStep, InstalledTool, LoadedRun,
    RunIdentity, StepAccounting,
    StepAction, StepAnswer, StepDefinition, StepState, ToolOutcome, WorkflowActionError,
    WorkflowEvent,
};
use constellation::api::auth::{AuthenticatedPrincipal, Permission, Principal};
use constellation::api::{ApiError, ModelStoreError};
use constellation::cloud::{model_alias, CloudAdapterPolicy, OPENAI_COMPATIBLE_PROVIDER};
use constellation::json::Json;
use constellation::names::{NodeStatus, OperatingSystem};
use constellation::repository::leases::PlanSummary;
use constellation::repository::workflows::WorkflowSchedule;
use constellation::repository::{
    EncryptedContent, EncryptedWorkflowRun, Node, Repository, RunStatus, StoredStatus,
    WorkloadStatus,
};
use constellation::runtime::RuntimeEvent;
use constellation::workload::{local_workload, Policy, WorkloadClass};
use sha2::Digest;

const SECOND: i128 = 1_000_000_000;

/// A value as another library reads it.
fn value(json: &Json) -> serde_json::Value {
    match json {
        Json::Null => serde_json::Value::Null,
        Json::Bool(flag) => serde_json::Value::from(*flag),
        Json::Number(number) => serde_json::Value::from(*number as i64),
        Json::Real(bits) => serde_json::Value::from(f64::from_bits(*bits)),
        Json::Text(text) => serde_json::Value::from(text.clone()),
        Json::Moment(moment) => serde_json::Value::from(*moment as i64),
        Json::Document(bytes) => parsed(bytes),
        Json::Array(items) => serde_json::Value::Array(items.iter().map(value).collect()),
        Json::Object(fields) => serde_json::Value::Object(
            fields.iter().map(|(name, item)| (name.clone(), value(item))).collect(),
        ),
    }
}

fn parsed(bytes: &[u8]) -> serde_json::Value {
    serde_json::from_slice(bytes).unwrap_or_else(|error| panic!("{error}"))
}

fn says(json: &Json, expected: &str) {
    assert_eq!(value(json), parsed(expected.as_bytes()));
}

fn text(value: &str) -> Json {
    Json::Text(value.to_owned())
}

fn object(fields: Vec<(&str, Json)>) -> Json {
    Json::Object(fields.into_iter().map(|(name, value)| (name.to_owned(), value)).collect())
}

// ------------------------------------------------------------------------------------------------
// Requests

#[test]
fn texts_are_found_in_values() {
    assert_eq!(value_to_text(&text("a")).as_deref(), Some("a"));
    assert_eq!(value_to_text(&Json::Number(1)), None);
    assert_eq!(value_to_text(&Json::Array(vec![])), None);
    let parts = Json::Array(vec![
        object(vec![("text", text("a"))]),
        Json::Null,
        object(vec![("text", Json::Null), ("content", text("b"))]),
        text("c"),
    ]);
    assert_eq!(value_to_text(&parts).as_deref(), Some("a\nb\nc"));
    assert_eq!(value_to_text(&object(vec![("input", text("x"))])).as_deref(), Some("x"));
    assert_eq!(
        value_to_text(&object(vec![("content", Json::Null), ("input", text("x"))])),
        None
    );
}

#[test]
fn what_the_assistant_said_is_no_input() {
    let message = |role: &str, content: Json| ChatMessage { role: role.to_owned(), content };
    let messages = [
        message("system", text("be brief")),
        message("assistant", text("hello")),
        message("user", text("hi")),
        message("user", Json::Null),
    ];
    assert_eq!(chat_input(&messages), "be brief\nhi");
    assert_eq!(prompt_input(&text("p"), "\"p\""), "p");
    assert_eq!(prompt_input(&Json::Number(3), "3"), "3");
    assert_eq!(max_output_tokens(None, None), 256);
    assert_eq!(max_output_tokens(Some(0), Some(9)), 1);
    assert_eq!(max_output_tokens(None, Some(9)), 9);
    assert_eq!(max_output_tokens(Some(5_000), None), 4_096);
}

#[test]
fn unsupported_features_are_refused() {
    assert!(reject_unsupported("m", None, None).is_ok());
    assert!(reject_unsupported("m", Some(&Json::Null), Some(&Json::Null)).is_ok());
    assert!(reject_unsupported("m", Some(&Json::Array(vec![])), None).is_ok());
    let tools = reject_unsupported("m", Some(&object(vec![])), None);
    assert!(tools.is_err_and(|error| error.message == "the selected runtime does not support tool calling"));
    let cloud = model_alias(1, "gpt");
    let structured = reject_unsupported(&cloud, None, Some(&object(vec![])));
    assert!(structured.is_err_and(|error| {
        error.code == "unsupported_feature"
            && error.message == "the built-in cloud gateway does not support structured output"
    }));
}

#[test]
fn embeddings_are_digests_of_the_inputs() {
    let input = Json::Array(vec![text("one two"), Json::Null, text("three")]);
    assert_eq!(embedding_inputs(&input, ""), vec!["one two".to_owned(), "three".to_owned()]);
    assert_eq!(embedding_inputs(&Json::Number(4), "4"), vec!["4".to_owned()]);
    assert_eq!(embedding_tokens(&["one two".to_owned(), " three ".to_owned()]), 3);
    assert_eq!(embedding_bytes("abc"), sha2::Sha256::digest(b"abc").to_vec());
    let answer = embeddings("constellation/mock", &input, "");
    assert!(answer.is_ok_and(|answer| answer.total_tokens == 3
        && answer.digests[0] == sha2::Sha256::digest(b"one two").to_vec()));
    assert!(embeddings("other", &input, "").is_err_and(|error| error.status == 404));
}

// ------------------------------------------------------------------------------------------------
// Answers

fn finished(reason: &str) -> RuntimeEvent {
    RuntimeEvent::Finished { input_tokens: 3, output_tokens: 4, finish_reason: reason.to_owned() }
}

fn failure(output_started: bool) -> RuntimeEvent {
    RuntimeEvent::Failure {
        code: "code".to_owned(),
        message: "message".to_owned(),
        retryable: true,
        output_started,
    }
}

fn delta(piece: &str) -> RuntimeEvent {
    RuntimeEvent::TextDelta(piece.to_owned())
}

#[test]
fn an_answer_needs_an_end() {
    let collect = |events: Vec<RuntimeEvent>| {
        let mut collector = Collector::new();
        for event in events {
            collector.take(event);
        }
        (collector.status(), collector.finish())
    };
    let (status, answer) = collect(vec![delta("a"), delta("b"), finished("length")]);
    assert_eq!(status, WorkloadStatus::Completed);
    assert!(answer.is_ok_and(|answer| answer.text == "ab"
        && answer.finish_reason == "length"
        && (answer.input_tokens, answer.output_tokens) == (3, 4)));
    let (status, answer) = collect(vec![delta("a")]);
    assert_eq!(status, WorkloadStatus::Interrupted);
    assert!(answer.is_err_and(|error| error.message.contains("after output began")));
    let (_, answer) = collect(vec![delta("a"), failure(false)]);
    assert!(answer.is_err_and(|error| error.message.contains("before a terminal")));
    let (status, answer) = collect(vec![finished("stop"), failure(true)]);
    assert_eq!(status, WorkloadStatus::Completed);
    assert!(answer.is_err_and(|error| error.code == "generation_interrupted"));
    let (status, answer) = collect(vec![RuntimeEvent::Cancelled]);
    assert_eq!(status, WorkloadStatus::Cancelled);
    assert!(answer.is_err_and(|error| error.code == "cancelled"));
}

#[test]
fn the_last_end_counts() {
    let mut stream = AnswerStream::new(1, "m".to_owned(), 2, vec![3]);
    assert_eq!(stream.status(), WorkloadStatus::Interrupted);
    let chunk = stream.chat_chunk(&delta("hi"), 9);
    says(
        &chunk.unwrap_or(Json::Null),
        r#"{"id":"chatcmpl-00000000-0000-0000-0000-000000000001","object":"chat.completion.chunk",
            "created":9,"model":"m","choices":[{"index":0,"delta":{"content":"hi"},"finish_reason":null}],
            "constellation":{"plan_id":"00000000-0000-0000-0000-000000000002",
            "selected_nodes":["00000000-0000-0000-0000-000000000003"]}}"#,
    );
    let end = stream.chat_chunk(&finished("stop"), 9);
    says(
        &end.unwrap_or(Json::Null),
        r#"{"id":"chatcmpl-00000000-0000-0000-0000-000000000001","object":"chat.completion.chunk",
            "created":9,"model":"m","choices":[{"index":0,"delta":{},"finish_reason":"stop"}]}"#,
    );
    assert_eq!(stream.status(), WorkloadStatus::Completed);
    let failed = stream.chat_chunk(&failure(true), 9);
    says(
        &failed.unwrap_or(Json::Null),
        r#"{"error":{"type":"server_error","code":"code","message":"message","retryable":true,
            "partial_output":true}}"#,
    );
    assert_eq!(stream.status(), WorkloadStatus::Interrupted);
    let cancelled = stream.chat_chunk(&RuntimeEvent::Cancelled, 9);
    says(
        &cancelled.unwrap_or(Json::Null),
        r#"{"error":{"type":"cancelled","code":"cancelled","message":"generation was cancelled"}}"#,
    );
    assert_eq!(stream.status(), WorkloadStatus::Cancelled);
    assert!(stream.chat_chunk(&RuntimeEvent::Prefill { elapsed_ms: 1 }, 9).is_none());
}

#[test]
fn completions_come_in_pieces() {
    let mut stream = AnswerStream::new(1, "m".to_owned(), 2, vec![]);
    says(
        &stream.completion_chunk(&delta("hi")).unwrap_or(Json::Null),
        r#"{"id":"cmpl-00000000-0000-0000-0000-000000000001","object":"text_completion","model":"m",
            "choices":[{"text":"hi","index":0,"finish_reason":null}]}"#,
    );
    says(
        &stream.completion_chunk(&finished("stop")).unwrap_or(Json::Null),
        r#"{"id":"cmpl-00000000-0000-0000-0000-000000000001","object":"text_completion","model":"m",
            "choices":[{"text":"","index":0,"finish_reason":"stop"}]}"#,
    );
    assert!(stream.completion_chunk(&RuntimeEvent::Cancelled).is_none());
    assert_eq!(stream.status(), WorkloadStatus::Cancelled);
}

#[test]
fn responses_are_named_events() {
    let mut stream = AnswerStream::new(1, "m".to_owned(), 2, vec![]);
    let created = stream.response_created(b"{\"plan\":1}".to_vec());
    assert_eq!(created.name, "response.created");
    says(
        &created.data,
        r#"{"type":"response.created","response":{"id":"resp_00000000-0000-0000-0000-000000000001",
            "object":"response","status":"in_progress","model":"m"},"constellation":{"plan":{"plan":1}}}"#,
    );
    for piece in ["a", "b"] {
        let event = stream.response_event(&delta(piece));
        assert!(event.is_some_and(|event| event.name == "response.output_text.delta"));
    }
    assert!(stream.response_completed().is_none());
    assert!(stream.response_event(&finished("stop")).is_none());
    let completed = stream.response_completed();
    says(
        &completed.map_or(Json::Null, |event| event.data),
        r#"{"type":"response.completed","response":{"id":"resp_00000000-0000-0000-0000-000000000001",
            "object":"response","status":"completed","model":"m","output_text":"ab"}}"#,
    );
    let failed = stream.response_event(&failure(false));
    assert!(failed.is_some_and(|event| event.name == "response.failed"));
    assert!(stream.response_completed().is_none());
}

#[test]
fn whole_answers_count_their_tokens() {
    let answer = Answer {
        text: "hi".to_owned(),
        input_tokens: 3,
        output_tokens: 4,
        finish_reason: "stop".to_owned(),
    };
    says(
        &chat_completion(1, 9, "m", &answer, 2, &[3]),
        r#"{"id":"chatcmpl-00000000-0000-0000-0000-000000000001","object":"chat.completion","created":9,
            "model":"m","choices":[{"index":0,"message":{"role":"assistant","content":"hi"},
            "finish_reason":"stop"}],"usage":{"prompt_tokens":3,"completion_tokens":4,"total_tokens":7},
            "constellation":{"plan_id":"00000000-0000-0000-0000-000000000002",
            "selected_nodes":["00000000-0000-0000-0000-000000000003"]}}"#,
    );
    says(
        &text_completion(1, 9, "m", &answer, 2),
        r#"{"id":"cmpl-00000000-0000-0000-0000-000000000001","object":"text_completion","created":9,
            "model":"m","choices":[{"text":"hi","index":0,"finish_reason":"stop"}],
            "usage":{"prompt_tokens":3,"completion_tokens":4,"total_tokens":7},
            "constellation":{"plan_id":"00000000-0000-0000-0000-000000000002"}}"#,
    );
    says(
        &response(1, 5, 9, "m", &answer, b"{}".to_vec()),
        r#"{"id":"resp_00000000-0000-0000-0000-000000000001","object":"response","created_at":9,
            "status":"completed","model":"m","output":[{"id":"msg_00000000-0000-0000-0000-000000000005",
            "type":"message","role":"assistant","status":"completed",
            "content":[{"type":"output_text","text":"hi","annotations":[]}]}],
            "usage":{"input_tokens":3,"output_tokens":4,"total_tokens":7},"constellation":{"plan":{}}}"#,
    );
}

// ------------------------------------------------------------------------------------------------
// Execution

fn adapter(id: u128, enabled: bool) -> CloudAdapterPolicy {
    CloudAdapterPolicy {
        id,
        provider_plugin: OPENAI_COMPATIBLE_PROVIDER.to_owned(),
        enabled,
        models: vec!["gpt".to_owned()],
        endpoint: Some("https://api.example".to_owned()),
        credential_reference: "reference".to_owned(),
        regions: vec![],
        input_cost_per_million_tokens_micros: 1_000_000,
        output_cost_per_million_tokens_micros: 1_000_000,
        monthly_cost_limit_micros: 1_000_000,
        monthly_network_limit_bytes: 1_000_000_000,
    }
}

fn computer(id: u128) -> Node {
    Node {
        id,
        name: format!("node {id}"),
        os: OperatingSystem::Linux,
        architecture: "x86_64".to_owned(),
        status: NodeStatus::Ready,
        capabilities: "{}".to_owned(),
        last_seen_at: 0,
    }
}

fn plan(selected_nodes: Vec<u128>) -> PlanSummary {
    PlanSummary {
        id: 50,
        strategy: "single_node".to_owned(),
        selected_nodes,
        encoded: "{\"plan\":true}".to_owned(),
        created_at: 7,
    }
}

#[test]
fn models_lead_to_where_they_run() {
    assert!(matches!(execution_route("llama"), ExecutionRoute::Cluster));
    assert!(matches!(
        execution_route(&model_alias(4, "gpt")),
        ExecutionRoute::Cloud { policy_id: 4, provider_model } if provider_model == "gpt"
    ));
    let mut nodes = vec![computer(1), computer(2), computer(3)];
    retain_eligible(&mut nodes, 1, &[3]);
    assert_eq!(nodes.iter().map(|node| node.id).collect::<Vec<_>>(), vec![1, 3]);
    assert_eq!(
        lease_associated_data(1, 2),
        "worker-lease:00000000-0000-0000-0000-000000000001:workload:00000000-0000-0000-0000-000000000002"
    );
    let aliases = cloud_model_aliases(&[adapter(4, true), adapter(5, false)]);
    assert_eq!(aliases, vec![model_alias(4, "gpt")]);
}

#[test]
fn executions_are_stored_before_they_run() {
    let mut repository = Repository::new();
    let workload = local_workload(9, "m", "mock".to_owned());
    let stored = prepare_execution(&mut repository, &workload, plan(vec![1]), 1, 0);
    assert!(stored.is_ok_and(|stored| stored.target == Target::Local));
    assert_eq!(
        get_workload_plan(&repository, 9).ok().map(String::as_str),
        Some("{\"plan\":true}")
    );
    assert!(get_workload_plan(&repository, 8).is_err_and(|error| error.code == "plan_not_found"));
    let workload = local_workload(10, "m", "mock".to_owned());
    let stored = prepare_execution(&mut repository, &workload, plan(vec![2]), 1, 0);
    assert!(stored.is_ok_and(|stored| stored.target == Target::Remote(2)));
}

#[test]
fn cloud_use_is_reserved_before_it_leaves() {
    let mut repository = Repository::new();
    repository.put_cloud_policy(adapter(4, true), 0);
    let prepared = prepare_cloud_execution(
        &mut repository, 4, "gpt", &model_alias(4, "gpt"), "hello", 10, 1, 9, 50, 7,
    );
    let prepared = prepared.unwrap_or_else(|error| panic!("{}", error.message));
    assert_eq!(prepared.plan.selected_nodes, vec![1]);
    assert!(prepared.plan.privacy.uses_cloud && prepared.plan.privacy.leaves_local_network);
    assert!(!prepared.plan.privacy.content_logged);
    assert_eq!(repository.cloud_usage.len(), 1);
    assert_eq!(repository.cloud_usage[0].reserved_cost_micros, prepared.reservation.cost_micros);
    assert!(release_cloud_reservation(&mut repository, 9, 8).is_some());
    assert_eq!(repository.cloud_usage[0].actual, Some((0, 0)));
    assert!(release_cloud_reservation(&mut repository, 9, 8).is_none());
    let unknown = prepare_cloud_execution(
        &mut repository, 5, "gpt", "alias", "hello", 10, 1, 10, 51, 7,
    );
    assert!(unknown.is_err());
    assert_eq!(repository.cloud_usage.len(), 1);
    let mut poor = Repository::new();
    poor.put_cloud_policy(CloudAdapterPolicy { monthly_cost_limit_micros: 0, ..adapter(4, true) }, 0);
    let refused = prepare_cloud_execution(
        &mut poor, 4, "gpt", &model_alias(4, "gpt"), "hello", 10, 1, 9, 50, 7,
    );
    assert!(refused.is_err());
    assert!(poor.cloud_usage.is_empty());
}

#[test]
fn an_abandoned_cloud_execution_is_released() {
    let mut repository = Repository::new();
    repository.put_cloud_policy(adapter(4, true), 0);
    assert!(prepare_cloud_execution(
        &mut repository, 4, "gpt", &model_alias(4, "gpt"), "hello", 10, 1, 9, 50, 7,
    )
    .is_ok());
    let (error, released, _) = abandon_cloud_execution(&mut repository, 9, "gone", 8);
    assert!(error.status >= 400);
    assert!(released.is_some());
    assert_eq!(repository.cloud_usage[0].actual, Some((0, 0)));
}

#[test]
fn cloud_requests_are_exact() {
    assert_eq!(
        cloud_request_endpoint(&adapter(4, true), "gpt").ok().as_deref(),
        Some("https://api.example/chat/completions")
    );
    assert!(cloud_request_endpoint(&adapter(4, true), "other").is_err());
    says(
        &cloud_request_body("gpt", "hello", 10),
        r#"{"model":"gpt","messages":[{"role":"user","content":"hello"}],"max_tokens":10,
            "stream":true,"stream_options":{"include_usage":true}}"#,
    );
}

#[test]
fn models_are_listed_with_their_owners() {
    says(
        &models(&["a".to_owned()], &["b".to_owned()]),
        r#"{"object":"list","data":[
            {"id":"a","object":"model","owned_by":"constellation","created":0},
            {"id":"b","object":"model","owned_by":"external-provider","created":0}]}"#,
    );
    let request = |source: Option<&str>, accepted: bool| ModelImportRequest {
        file_name: Some("m.gguf".to_owned()),
        source: source.map(str::to_owned),
        license_id: "mit".to_owned(),
        license_accepted: accepted,
    };
    let options = import_local_model(request(None, true), 5);
    assert!(options.license.is_some_and(|license| license.license_id == "mit" && license.accepted_at == 5));
    assert!(import_local_model(request(Some("hub"), false), 5).license.is_none());
    assert_eq!(import_local_model(request(Some("hub"), false), 5).source, "hub");
    let mut repository = Repository::new();
    let refused = remove_local_model(&mut repository, "m", Err(ModelStoreError::NotFound), 0);
    assert!(refused.is_err_and(|error| error.status == 404));
}

#[test]
fn plans_are_simulated_for_a_workload() {
    let workload = simulated_workload(
        3,
        PlanSimulation {
            model: "m".to_owned(),
            required_runtime: "mock".to_owned(),
            estimated_memory_bytes: 5,
            class: WorkloadClass::Batch,
            policy: Policy::Fastest,
            allowed_nodes: vec![1],
        },
    );
    assert_eq!((workload.id, workload.estimated_memory_bytes), (3, 5));
    assert_eq!(workload.allowed_nodes, vec![1]);
    assert_eq!(simulate_plan(Ok(b"{}".to_vec())).ok(), Some(b"{}".to_vec()));
    assert!(simulate_plan(Err("none".to_owned())).is_err_and(|error| error.message == "no safe execution plan: none"));
    let mut repository = Repository::new();
    repository.register_node(computer(2), 0);
    let snapshot = scheduling_snapshot(&repository, 1, 7);
    assert_eq!((snapshot.controller_node, snapshot.observed_at), (Some(1), 7));
}

// ------------------------------------------------------------------------------------------------
// Workflows

#[test]
fn templates_are_filled_from_inputs() {
    let inputs = [("b".to_owned(), "{{c}}".to_owned()), ("c".to_owned(), "x".to_owned())];
    assert_eq!(resolve_workflow_template("a {{b}} {{d}}", &inputs), "a x {{d}}");
    assert_eq!(resolve_workflow_template("plain { b }", &inputs), "plain { b }");
}

fn step(action: StepAction) -> StepDefinition {
    StepDefinition { id: "one".to_owned(), timeout_seconds: 10, action }
}

fn inputs() -> ActionSignal {
    ActionSignal::Run(Some(vec![("who".to_owned(), "you".to_owned())]))
}

#[test]
fn an_inference_step_stores_its_answer() {
    let mut run = ActionRun::begin(step(StepAction::Inference {
        model: "m".to_owned(),
        input: "hi {{who}}".to_owned(),
        max_output_tokens: 5,
    }));
    assert!(matches!(
        run.execute_workflow_action(inputs()),
        ActionRequest::Prepare { input, max_output_tokens: 5, .. } if input == "hi you"
    ));
    assert!(matches!(run.execute_workflow_action(ActionSignal::Prepared(true)), ActionRequest::Collect));
    let answer = StepAnswer { text: "ok".to_owned(), input_tokens: 1, output_tokens: 2, network_bytes: 3 };
    assert!(matches!(
        run.execute_workflow_action(ActionSignal::Collected(Some(answer))),
        ActionRequest::Store { name, media_type, content }
            if name == "one.txt" && media_type == "text/plain; charset=utf-8" && content == "ok"
    ));
    assert!(matches!(
        run.execute_workflow_action(ActionSignal::Stored(Some(8))),
        ActionRequest::Succeed { accounting, artifact: 8 }
            if accounting.input_tokens == 1 && accounting.output_tokens == 2 && accounting.network_bytes == 3
    ));
}

fn tool_action() -> StepAction {
    StepAction::Tool {
        tool: "t".to_owned(),
        arguments: Json::Object(vec![("n".to_owned(), Json::Number(3))]),
    }
}

#[test]
fn arguments_that_cannot_be_encoded_fail_their_tool() {
    let mut run = ActionRun::begin(step(tool_action()));
    run.execute_workflow_action(inputs());
    let found = InstalledTool { enabled: true, is_tool: true };
    run.execute_workflow_action(ActionSignal::Plugin(Ok(Some(found))));
    run.execute_workflow_action(ActionSignal::Grant(Ok(true)));
    run.execute_workflow_action(ActionSignal::Component(true));
    assert!(matches!(
        run.execute_workflow_action(ActionSignal::Encoded(None)),
        ActionRequest::Fail(error) if error.code == "tool_input_invalid" && !error.retryable
    ));
}

#[test]
fn a_tool_needs_its_grant() {
    let begin = || {
        let mut run = ActionRun::begin(step(tool_action()));
        assert!(matches!(run.execute_workflow_action(inputs()), ActionRequest::LookUp { .. }));
        run
    };
    let tool = || ActionSignal::Plugin(Ok(Some(InstalledTool { enabled: true, is_tool: true })));
    let failed = |request: ActionRequest, expected: &str, again: bool| {
        assert!(matches!(request, ActionRequest::Fail(error)
            if error.code == expected && error.retryable == again));
    };
    failed(
        begin().execute_workflow_action(ActionSignal::Plugin(Err(()))),
        "tool_registry_unavailable",
        true,
    );
    failed(
        begin().execute_workflow_action(ActionSignal::Plugin(Ok(None))),
        "tool_permission_unavailable",
        false,
    );
    let disabled = InstalledTool { enabled: false, is_tool: true };
    failed(
        begin().execute_workflow_action(ActionSignal::Plugin(Ok(Some(disabled)))),
        "tool_permission_unavailable",
        false,
    );
    let mut ungranted = begin();
    assert!(matches!(ungranted.execute_workflow_action(tool()), ActionRequest::LookUpGrant { .. }));
    failed(
        ungranted.execute_workflow_action(ActionSignal::Grant(Ok(false))),
        "tool_permission_unavailable",
        false,
    );
    let mut run = begin();
    run.execute_workflow_action(tool());
    assert!(matches!(run.execute_workflow_action(ActionSignal::Grant(Ok(true))), ActionRequest::Read));
    assert!(matches!(
        run.execute_workflow_action(ActionSignal::Component(true)),
        ActionRequest::Encode { arguments: Json::Object(fields) }
            if fields[0].0 == "n" && matches!(fields[0].1, Json::Number(3))
    ));
    assert!(matches!(
        run.execute_workflow_action(ActionSignal::Encoded(Some("{\"n\":3}".to_owned()))),
        ActionRequest::Execute { tool, input } if tool == "t" && input == "{\"n\":3}"
    ));
    assert!(matches!(
        run.execute_workflow_action(ActionSignal::Tool(ToolOutcome::Output("{}".to_owned()))),
        ActionRequest::Store { name, media_type, .. } if name == "one.json" && media_type == "application/json"
    ));
    failed(
        run.execute_workflow_action(ActionSignal::Stored(None)),
        "artifact_storage_failed",
        true,
    );
}

#[test]
fn actions_fail_for_a_reason() {
    let first = |action: StepAction, signal: ActionSignal| {
        let mut run = ActionRun::begin(step(action));
        match run.execute_workflow_action(signal) {
            ActionRequest::Fail(error) => (error.code, error.retryable),
            _ => (String::new(), false),
        }
    };
    assert_eq!(
        first(StepAction::Approval, ActionSignal::Run(None)),
        ("workflow_state_unavailable".to_owned(), true)
    );
    assert_eq!(first(StepAction::Approval, inputs()), ("approval_dispatch_error".to_owned(), false));
    let mut run = ActionRun::begin(step(StepAction::Inference {
        model: "m".to_owned(),
        input: String::new(),
        max_output_tokens: 1,
    }));
    run.execute_workflow_action(inputs());
    assert!(matches!(
        run.execute_workflow_action(ActionSignal::Prepared(false)),
        ActionRequest::Fail(error) if error.code == "inference_unavailable" && error.retryable
    ));
    assert!(matches!(run.execute_workflow_action(inputs()), ActionRequest::Unexpected));
}

#[test]
fn steps_end_in_an_event() {
    let accounting = StepAccounting {
        input_tokens: 1,
        output_tokens: 2,
        network_bytes: 3,
        duration_ms: 0,
        cost_micros: 0,
    };
    assert!(matches!(
        execute_workflow_step("s".to_owned(), Some(Ok((accounting, vec![4]))), 12),
        WorkflowEvent::StepSucceeded { accounting, artifacts, .. }
            if accounting.duration_ms == 12 && accounting.output_tokens == 2 && artifacts == vec![4]
    ));
    assert!(matches!(
        execute_workflow_step("s".to_owned(), Some(Ok((accounting, vec![]))), u128::MAX),
        WorkflowEvent::StepSucceeded { accounting, .. } if accounting.duration_ms == u64::MAX
    ));
    assert!(matches!(
        execute_workflow_step("s".to_owned(), None, 12),
        WorkflowEvent::StepFailed { error_code, retryable: true, .. } if error_code == "deadline_exceeded"
    ));
    let refused = WorkflowActionError { code: "c".to_owned(), retryable: false };
    assert!(matches!(
        execute_workflow_step("s".to_owned(), Some(Err(refused)), 12),
        WorkflowEvent::StepFailed { error_code, retryable: false, .. } if error_code == "c"
    ));
}

#[test]
fn approvals_are_their_principals_own() {
    let claimed = WorkflowEvent::ApprovalGranted {
        step_id: "s".to_owned(),
        principal_id: "someone".to_owned(),
    };
    let bound = bind_workflow_principal(claimed, "me");
    assert_eq!(workflow_event_metadata(&bound), ("approval.granted", Some("s"), Some("me")));
    let cancelled = bind_workflow_principal(WorkflowEvent::Cancel { principal_id: String::new() }, "me");
    assert_eq!(workflow_event_metadata(&cancelled), ("run.cancelled", None, Some("me")));
    assert_eq!(workflow_event_metadata(&WorkflowEvent::Start), ("run.started", None, None));
    let recorded = run_event(5, &bound, 9);
    assert_eq!((recorded.run_id, recorded.created_at), (5, 9));
    assert_eq!(recorded.principal_id.as_deref(), Some("me"));
    let approver = AuthenticatedPrincipal::Human(Principal {
        id: 1,
        allowed: vec![Permission::WorkflowApprove],
    });
    let outcome = transition_workflow_run(&approver, bound);
    assert!(outcome.is_ok_and(|event| workflow_event_metadata(&event).2
        == Some("00000000-0000-0000-0000-000000000001")));
}

#[test]
fn transitions_are_tried_again() {
    assert!(matches!(
        apply_workflow_transition(1, AttemptOutcome::Stored(true)),
        AttemptStep::Done(true)
    ));
    assert!(matches!(
        apply_workflow_transition(1, AttemptOutcome::Stored(false)),
        AttemptStep::Again(1)
    ));
    assert!(matches!(
        apply_workflow_transition(8, AttemptOutcome::Stored(false)),
        AttemptStep::Done(false)
    ));
    assert!(matches!(
        apply_workflow_transition(1, AttemptOutcome::Invalid("no".to_owned())),
        AttemptStep::Failed(error) if error.code == "invalid_workflow_transition" && error.message == "no"
    ));
    assert!(matches!(
        apply_workflow_transition(1, AttemptOutcome::Unavailable(ApiError::internal())),
        AttemptStep::Failed(error) if error.status == 500
    ));
}

#[test]
fn workflow_records_are_checked() {
    assert!(load_workflow_definition("ab", "ab").is_ok());
    assert!(load_workflow_definition("ab", "ac").is_err());
    let identity = RunIdentity { workflow_id: 1, status: RunStatus::Running };
    let stored = |status: StoredStatus| EncryptedWorkflowRun {
        workflow_id: 1,
        workflow_revision: 2,
        status,
        content: EncryptedContent { version: 1, nonce: vec![1], ciphertext: vec![2] },
        created_at: 0,
        updated_at: 0,
    };
    let running = stored(StoredStatus::Known(RunStatus::Running));
    assert!(load_workflow_run(identity, &running, 2).is_ok());
    assert!(load_workflow_run(RunIdentity { workflow_id: 2, ..identity }, &running, 2).is_err());
    assert!(load_workflow_run(identity, &running, 3).is_err());
    let asleep = stored(StoredStatus::Other("asleep".to_owned()));
    assert!(load_workflow_run(identity, &asleep, 2).is_err_and(|error| error.status == 503));
    assert_eq!(workflow_definition_ad(1, 3), "workflow:00000000-0000-0000-0000-000000000001:revision:3");
    assert_eq!(workflow_run_ad(1), "workflow-run:00000000-0000-0000-0000-000000000001");
    assert_eq!(
        workflow_artifact_ad(1, 2),
        "workflow-artifact:00000000-0000-0000-0000-000000000001:run:00000000-0000-0000-0000-000000000002"
    );
}

#[test]
fn the_engine_starts_what_is_ready() {
    let definition = |id: &str, action: StepAction| StepDefinition {
        id: id.to_owned(),
        timeout_seconds: 10,
        action,
    };
    let steps = [
        definition("slow", tool_action()),
        definition("ask", StepAction::Approval),
        definition("next", tool_action()),
    ];
    let states = [
        StepState { id: "slow".to_owned(), running: true, started_at: Some(0) },
        StepState { id: "ask".to_owned(), running: false, started_at: None },
        StepState { id: "next".to_owned(), running: false, started_at: None },
    ];
    let ready = ["ask".to_owned(), "next".to_owned()];
    let actions = spawn_workflow_engine(RunStatus::Running, &steps, &states, &ready, 1_000 * SECOND);
    assert!(actions.contains(&EngineStep::Expire(0)));
    let actions = spawn_workflow_engine(RunStatus::Running, &steps, &states, &ready, SECOND);
    assert_eq!(actions, vec![EngineStep::RequestApproval(1), EngineStep::Start(2)]);
    assert!(has_room(0, 1));
    assert!(!has_room(1, 1));
}

#[test]
fn schedules_fire_once_for_an_occurrence() {
    let mut repository = Repository::new();
    let content = || EncryptedContent { version: 1, nonce: vec![1], ciphertext: vec![2] };
    assert!(repository
        .create_workflow(1, "w".to_owned(), "ab".to_owned(), content(), 0)
        .is_ok());
    let schedule = WorkflowSchedule {
        id: 2,
        workflow_id: 1,
        cron_utc: "* * * * *".to_owned(),
        enabled: true,
        concurrency_limit: 1,
    };
    repository.put_workflow_schedule(schedule, 60 * SECOND, 0);
    let claim = Claim { schedule_id: 2, due_at: 60 * SECOND, next_run_at: Some(120 * SECOND), run_id: 3 };
    assert!(dispatch_workflow_schedules(&mut repository, &[claim], 61 * SECOND).is_ok());
    let again = Claim { run_id: 4, ..claim };
    assert!(dispatch_workflow_schedules(&mut repository, &[again], 61 * SECOND).is_ok());
    let firings = repository.pending_workflow_schedule_firings(10);
    assert_eq!(firings.len(), 1);
    assert_eq!(firings[0].run_id, 3);
    assert_eq!(next_firing(&repository, &firings, 0).ok(), Some(Some(0)));
    assert!(start_is_new(&repository, Some(3)));
    let made = MadeRun {
        id: 3,
        workflow_id: 1,
        workflow_revision: 1,
        status: RunStatus::Pending,
        content: content(),
    };
    let started = start_workflow_run_with_id(&mut repository, Some(3), Ok(made), 62 * SECOND);
    assert!(started.is_ok_and(|(id, event)| id == 3 && event.is_some()));
    assert!(!start_is_new(&repository, Some(3)));
    let again = start_workflow_run_with_id(&mut repository, Some(3), Err("late".to_owned()), 63 * SECOND);
    assert!(again.is_ok_and(|(id, event)| id == 3 && event.is_none()));
    assert!(repository.workflow_run(3).is_some_and(|run| run.created_at == 62 * SECOND));
    let refused = start_workflow_run_with_id(&mut repository, Some(4), Err("bad".to_owned()), 63 * SECOND);
    assert!(refused.is_err_and(|error| error.code == "invalid_workflow_run"));
}

#[test]
fn what_is_not_there_is_not_found() {
    let repository = Repository::new();
    assert!(find_workflow(&repository, 1).is_err_and(|error| error.code == "workflow_not_found"));
    assert!(find_workflow_run(&repository, 1)
        .is_err_and(|error| error.code == "workflow_run_not_found" && error.status == 404));
    assert!(find_workflow_template(&repository, 1)
        .is_err_and(|error| error.code == "template_not_found"));
    assert!(find_workflow_artifact(&repository, 1)
        .is_err_and(|error| error.code == "workflow_artifact_not_found"));
}

#[test]
fn a_step_is_leased_once_and_a_stale_client_is_told() {
    let mut repository = Repository::new();
    let content = |byte: u8| EncryptedContent { version: 1, nonce: vec![byte], ciphertext: vec![2] };
    assert!(repository
        .create_workflow_run(3, 1, 1, RunStatus::Running, content(1), 0)
        .is_ok());
    let changed = |byte: u8| Ok(ChangedRun { status: RunStatus::Running, content: content(byte) });
    let loaded = LoadedRun { status: RunStatus::Running, nonce: vec![1] };
    let failed = Err(ChangeFault::Unsealed);
    assert!(!lease_workflow_step(&mut repository, 3, &loaded, "s", failed, 5).0);
    let (leased, event) = lease_workflow_step(&mut repository, 3, &loaded, "s", changed(2), 5);
    assert!(leased && event.is_some_and(|event| event.event_type == "workflow.run_updated"));
    let (again, event) = lease_workflow_step(&mut repository, 3, &loaded, "s", changed(3), 5);
    assert!(!again && event.is_none());
    assert_eq!(repository.run_events.len(), 2);
    assert_eq!(repository.run_events[1].event_type, "step.started");
    assert_eq!(repository.run_events[1].step_id.as_deref(), Some("s"));
    let cancel = WorkflowEvent::Cancel { principal_id: "me".to_owned() };
    let stale = finish_workflow_transition(&mut repository, 3, &loaded, &cancel, changed(4), 6);
    assert!(stale.is_err_and(|error| error.code == "workflow_transition_conflict" && error.status == 400));
    let loaded = LoadedRun { status: RunStatus::Running, nonce: vec![2] };
    let invalid = Err(ChangeFault::Invalid("over".to_owned()));
    let refused = finish_workflow_transition(&mut repository, 3, &loaded, &cancel, invalid, 6);
    assert!(refused.is_err_and(|error| error.code == "invalid_workflow_transition"));
    let cancelled = Ok(ChangedRun { status: RunStatus::Cancelled, content: content(5) });
    assert!(finish_workflow_transition(&mut repository, 3, &loaded, &cancel, cancelled, 6).is_ok());
    assert!(repository.workflow_run(3).is_some_and(|run| run.status.is(RunStatus::Cancelled)));
}
