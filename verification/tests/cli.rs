//! The command line: what is asked of the controller, and what is made of its replies.

use base64::Engine;
use constellation::api::auth::Method;
use constellation::cli::chat::{chat_request, ChatEnd, ChatStream};
use constellation::cli::commands::{
    check_reference, is_yaml, polled_lease, run_command, run_diagnostics, run_invitation_command,
    run_model_command, run_model_transfer, run_plugin_command, run_principal_command,
    run_secret_command, run_team_command, run_worker, run_workflow_command, signed_decimal_of,
    Command, InvitationCommand, ModelCommand, PluginCommand, PrincipalCommand, PrincipalRole,
    TeamCommand, WorkflowCommand,
};
use constellation::cli::enroll::{
    decode_json_array, decode_json_base64, device_identifier, platform, EnrollmentOptions,
    EnrollmentRun, Machine, Waiting,
};
use constellation::cli::files::{
    exists_message, Artifact, FileError, FileRequest, FileSignal, FileWriting,
};
use constellation::cli::{
    chunk_path, download_backup, download_chunk, is_null, json, json_with_membership,
    membership_header, CliError, ControllerClient, Reply, Request,
};
use constellation::json::Json;
use constellation::workload::{Policy, WorkloadClass};
use sha2::Digest;

/// A value as another library reads it.
fn value(json: &Json) -> serde_json::Value {
    match json {
        Json::Null => serde_json::Value::Null,
        Json::Bool(flag) => serde_json::Value::from(*flag),
        Json::Number(number) => serde_json::Value::from(*number as i64),
        Json::Real(bits) => serde_json::Value::from(f64::from_bits(*bits)),
        Json::Text(text) => serde_json::Value::from(text.clone()),
        Json::Moment(moment) => serde_json::Value::from(*moment as i64),
        Json::Document(bytes) => parsed(bytes),
        Json::Array(items) => serde_json::Value::Array(items.iter().map(value).collect()),
        Json::Object(fields) => serde_json::Value::Object(
            fields.iter().map(|(name, item)| (name.clone(), value(item))).collect(),
        ),
    }
}

fn parsed(bytes: &[u8]) -> serde_json::Value {
    serde_json::from_slice(bytes).unwrap_or_else(|error| panic!("{error}"))
}

fn asks(request: &Request, method: Method, path: &str, body: Option<&str>) {
    assert_eq!(request.method, method);
    assert_eq!(request.path, path);
    assert_eq!(
        request.body.as_ref().map(value),
        body.map(|body| parsed(body.as_bytes()))
    );
}

fn base64url(bytes: &[u8]) -> String {
    base64::engine::general_purpose::URL_SAFE_NO_PAD.encode(bytes)
}

const ONE: &str = "00000000-0000-0000-0000-000000000001";

// ------------------------------------------------------------------------------------------------
// The controller

#[test]
fn controllers_are_reached_safely() {
    let client = |base: &str| ControllerClient::new(base, None);
    assert!(client("http://127.0.0.1:9777/").is_ok_and(|client| {
        client.address("/health") == "http://127.0.0.1:9777/health"
    }));
    assert!(client("https://controller.example").is_ok());
    assert_eq!(client("http://controller.example").err(), Some(CliError::InsecureController));
    assert_eq!(client("not a url").err(), Some(CliError::InsecureController));
}

#[test]
fn memberships_travel_in_a_header() {
    let document = br#"{"credential":{"a":1}}"#;
    assert_eq!(membership_header(document).ok(), Some(base64url(br#"{"a":1}"#)));
    assert_eq!(membership_header(br#"{"b":2}"#).ok(), Some(base64url(br#"{"b":2}"#)));
    assert_eq!(membership_header(br#"{"credential":null}"#).err(), Some(CliError::NoMembership));
    assert!(is_null(b"null"));
    assert!(!is_null(b"{}"));
}

#[test]
fn replies_are_values_or_refusals() {
    assert!(matches!(json(200, b"{}"), Reply::Value));
    assert!(matches!(json(204, b""), Reply::Done));
    assert!(matches!(json(200, b"nonsense"), Reply::Undecodable));
    assert!(matches!(
        json(404, br#"{"error":{"message":"gone"}}"#),
        Reply::Rejected(message) if message == "gone"
    ));
    assert!(matches!(
        json(500, b"{}"),
        Reply::Rejected(message) if message == "controller rejected the operation"
    ));
    assert!(matches!(
        json_with_membership(500, b"{}"),
        Reply::Rejected(message) if message == "controller rejected the membership operation"
    ));
    assert!(matches!(json_with_membership(204, b""), Reply::Undecodable));
}

#[test]
fn downloads_are_checked() {
    let digest = format!("{:x}", sha2::Sha256::digest(b"chunk"));
    assert!(download_chunk(b"chunk", &digest).is_ok());
    assert_eq!(download_chunk(b"chunk", "ab").err(), Some(CliError::ChunkCorrupt));
    assert_eq!(chunk_path("ab"), "/constellation/v1/models/chunks/ab");
    assert!(download_backup(b"SQLite format 3\0data").is_ok());
    assert_eq!(download_backup(b"SQLite").err(), Some(CliError::InvalidBackup));
}

// ------------------------------------------------------------------------------------------------
// Chat

#[test]
fn chats_are_streamed() {
    asks(
        &chat_request("m", "hi", 9_000),
        Method::Post,
        "/v1/chat/completions",
        Some(r#"{"model":"m","messages":[{"role":"user","content":"hi"}],"max_tokens":4096,"stream":true}"#),
    );
    let mut stream = ChatStream::new();
    let (deltas, end) = stream.stream_chat("data: {\"choices\":[{\"delta\":{\"content\":\"a\"}}]}\r\n\r\nda");
    assert_eq!(deltas, vec!["a".to_owned()]);
    assert!(end.is_none());
    let (deltas, end) = stream.stream_chat("ta: {\"choices\":[{\"delta\":{\"content\":\"b\"}}]}\n\ndata: [DONE]\n\n");
    assert_eq!(deltas, vec!["b".to_owned()]);
    assert!(end.is_none());
    let (_, end) = stream.stream_chat("data: {\"error\":{\"message\":\"no\"}}\n\n");
    assert!(matches!(end, Some(ChatEnd::Failed(message)) if message == "no"));
    let (_, end) = ChatStream::new().stream_chat("data: nonsense\n\n");
    assert!(matches!(end, Some(ChatEnd::Undecodable)));
}

// ------------------------------------------------------------------------------------------------
// Commands

#[test]
fn commands_are_requests() {
    asks(&run_command(Command::Status), Method::Get, "/constellation/v1/cluster", None);
    asks(&run_command(Command::Inventory), Method::Get, "/constellation/v1/devices", None);
    asks(
        &run_command(Command::Revoke { node_id: 1 }),
        Method::Post,
        &format!("/constellation/v1/devices/{ONE}/revoke"),
        None,
    );
    asks(&run_command(Command::Benchmarks), Method::Get, "/constellation/v1/benchmarks", None);
    asks(&run_command(Command::Report), Method::Get, "/constellation/v1/reports/benchmark", None);
    asks(
        &run_command(Command::Events { after: -3, limit: 10 }),
        Method::Get,
        "/constellation/v1/events?after=-3&limit=10",
        None,
    );
    asks(
        &run_command(Command::Cancel { workload_id: 1 }),
        Method::Post,
        &format!("/constellation/v1/workloads/{ONE}/cancel"),
        None,
    );
    asks(
        &run_command(Command::Plan {
            model: "m".to_owned(),
            runtime: "mock".to_owned(),
            memory_bytes: 5,
            class: WorkloadClass::Batch,
            policy: Policy::MostPrivate,
        }),
        Method::Post,
        "/constellation/v1/plans/simulate",
        Some(r#"{"model":"m","required_runtime":"mock","estimated_memory_bytes":5,"class":"batch","policy":"most_private"}"#),
    );
    assert_eq!(signed_decimal_of(i64::MIN), i64::MIN.to_string());
    assert_eq!(signed_decimal_of(0), "0");
}

#[test]
fn workflow_commands_are_requests() {
    let run = |command: WorkflowCommand| {
        run_workflow_command(command).unwrap_or_else(|error| panic!("{}", error.message()))
    };
    asks(&run(WorkflowCommand::List), Method::Get, "/constellation/v1/workflows", None);
    asks(
        &run(WorkflowCommand::Create { definition: b"{\"name\":1}".to_vec() }),
        Method::Post,
        "/constellation/v1/workflows",
        Some(r#"{"definition":{"name":1}}"#),
    );
    asks(
        &run(WorkflowCommand::Get { workflow_id: 1 }),
        Method::Get,
        &format!("/constellation/v1/workflows/{ONE}"),
        None,
    );
    asks(
        &run(WorkflowCommand::Run { workflow_id: 1, inputs: "{\"a\":\"b\"}".to_owned() }),
        Method::Post,
        &format!("/constellation/v1/workflows/{ONE}/runs"),
        Some(r#"{"inputs":{"a":"b"}}"#),
    );
    asks(
        &run(WorkflowCommand::Schedule {
            workflow_id: 1,
            cron_utc: "* * * * *".to_owned(),
            concurrency_limit: 2,
        }),
        Method::Post,
        &format!("/constellation/v1/workflows/{ONE}/schedules"),
        Some(r#"{"cron_utc":"* * * * *","enabled":true,"concurrency_limit":2}"#),
    );
    asks(
        &run(WorkflowCommand::Artifact {
            run_id: 1,
            step_id: "s".to_owned(),
            name: "n".to_owned(),
            media_type: "t".to_owned(),
            content: b"abc".to_vec(),
        }),
        Method::Post,
        &format!("/constellation/v1/workflow-runs/{ONE}/artifacts"),
        Some(r#"{"step_id":"s","name":"n","media_type":"t","content_base64":"YWJj"}"#),
    );
    asks(
        &run(WorkflowCommand::TemplateInstantiate { template_id: 1, name: None }),
        Method::Post,
        &format!("/constellation/v1/workflow-templates/{ONE}/instantiate"),
        Some(r#"{"name":null}"#),
    );
    let refused = |command: WorkflowCommand| run_workflow_command(command).err();
    assert_eq!(
        refused(WorkflowCommand::Run { workflow_id: 1, inputs: "{".to_owned() }),
        Some(CliError::UndecodableInputs)
    );
    assert_eq!(
        refused(WorkflowCommand::Run { workflow_id: 1, inputs: "[]".to_owned() }),
        Some(CliError::InputsNotObject)
    );
    let template = |metadata: &str| WorkflowCommand::TemplateCreate {
        workflow_id: 1,
        name: "n".to_owned(),
        metadata: metadata.to_owned(),
    };
    assert_eq!(refused(template("{")), Some(CliError::UndecodableMetadata));
    assert_eq!(refused(template("1")), Some(CliError::MetadataNotObject));
    assert!(is_yaml(Some("YmL")));
    assert!(!is_yaml(Some("json")));
    assert!(!is_yaml(None));
}

#[test]
fn other_commands_are_requests() {
    asks(
        &run_plugin_command(PluginCommand::Install {
            manifest: b"{}".to_vec(),
            component: b"abc".to_vec(),
        }),
        Method::Post,
        "/constellation/v1/plugins/install",
        Some(r#"{"manifest":{},"component_base64":"YWJj"}"#),
    );
    asks(
        &run_plugin_command(PluginCommand::Execute { plugin_id: "p".to_owned(), input: "i".to_owned() }),
        Method::Post,
        "/constellation/v1/plugins/p/execute",
        Some(r#"{"input":"i"}"#),
    );
    asks(
        &run_principal_command(PrincipalCommand::Create {
            name: "n".to_owned(),
            role: PrincipalRole::Service,
            scopes: b"[]".to_vec(),
        }),
        Method::Post,
        "/constellation/v1/principals",
        Some(r#"{"name":"n","role":"service","scopes":[]}"#),
    );
    asks(
        &run_team_command(TeamCommand::AddMember {
            team_id: 1,
            principal_id: 1,
            role: PrincipalRole::Viewer,
        }),
        Method::Post,
        &format!("/constellation/v1/teams/{ONE}/members"),
        Some(r#"{"principal_id":"00000000-0000-0000-0000-000000000001","role":"viewer"}"#),
    );
    asks(
        &run_invitation_command(InvitationCommand::Approve { invitation_id: 1 }),
        Method::Post,
        &format!("/constellation/v1/invitations/{ONE}/approve"),
        None,
    );
    let worker = run_worker(1, 7);
    assert_eq!(worker.path, "/constellation/v1/benchmarks");
    assert_eq!(
        worker.body.as_ref().map(|body| value(body)["tokens_per_second"].clone()),
        Some(serde_json::Value::from(1_000.0))
    );
    assert_eq!(polled_lease(br#"{"lease":{"id":1}}"#), Some(br#"{"id":1}"#.to_vec()));
    assert_eq!(polled_lease(br#"{"lease":null}"#), None);
    assert_eq!(polled_lease(b"{}"), None);
}

#[test]
fn models_change_only_on_request() {
    let import = |accept_license: bool| ModelCommand::Import {
        path: "m.gguf".to_owned(),
        alias: "m".to_owned(),
        format: "gguf".to_owned(),
        quantization: None,
        license: "mit".to_owned(),
        accept_license,
        pin: true,
    };
    assert_eq!(run_model_command(import(false)).err(), Some(CliError::LicenseNotAccepted));
    let request = run_model_command(import(true)).unwrap_or_else(|error| panic!("{}", error.message()));
    asks(
        &request,
        Method::Post,
        "/constellation/v1/models/import",
        Some(r#"{"path":"m.gguf","alias":"m","format":"gguf","quantization":null,"license_id":"mit","license_accepted":true,"pinned":true}"#),
    );
    let remove = |yes: bool| ModelCommand::Remove { alias: "m".to_owned(), yes };
    assert_eq!(run_model_command(remove(false)).err(), Some(CliError::RemovalNotConfirmed));
    assert!(run_model_command(remove(true)).is_ok());
    let pin = ModelCommand::Pin { alias: "m".to_owned(), pinned: false };
    let request = run_model_command(pin).unwrap_or_else(|error| panic!("{}", error.message()));
    asks(&request, Method::Patch, "/constellation/v1/models/pin", Some(r#"{"alias":"m","pinned":false}"#));
    let transfer = |output_exists: bool| ModelCommand::TransferChunk {
        alias: "m".to_owned(),
        chunk_sha256: "ab".to_owned(),
        destination_node: 1,
        output_exists,
    };
    assert_eq!(run_model_command(transfer(true)).err(), Some(CliError::ChunkExists));
    assert!(run_model_command(transfer(false)).is_ok());
    assert_eq!(
        value(&run_model_transfer("ab", 1, "out", br#"{"id":"t"}"#)),
        parsed(
            br#"{"status":"verified","chunk_sha256":"ab",
                "destination_node":"00000000-0000-0000-0000-000000000001","output":"out","ticket_id":"t"}"#
        )
    );
}

#[test]
fn secrets_have_plain_references() {
    assert!(check_reference("open.ai_key-1").is_ok());
    for reference in ["", "a b", "k\u{e9}y", &"r".repeat(129)] {
        assert_eq!(check_reference(reference).err(), Some(CliError::InvalidReference));
    }
    assert_eq!(run_secret_command("secret\r\n\n"), "secret");
    assert_eq!(run_secret_command("\nsecret"), "\nsecret");
    assert_eq!(
        value(&run_diagnostics(b"1".to_vec(), b"2".to_vec(), b"3".to_vec(), b"4".to_vec())),
        parsed(br#"{"health":1,"ready":2,"cluster":3,"models":4,"content_included":false}"#)
    );
}

// ------------------------------------------------------------------------------------------------
// Enrollment

#[test]
fn handshakes_are_decoded() {
    let reply = format!(r#"{{"m":"{}","p":"{}"}}"#, base64url(b"hello"), base64url(&[1; 32]));
    let reply = reply.as_bytes();
    assert_eq!(decode_json_base64(reply, "/m", 256).ok(), Some(b"hello".to_vec()));
    assert_eq!(decode_json_base64(reply, "/m", 4).err(), Some(CliError::InvalidLength));
    assert_eq!(decode_json_base64(reply, "/x", 4).err(), Some(CliError::MissingData));
    assert_eq!(decode_json_base64(br#"{"m":"@"}"#, "/m", 4).err(), Some(CliError::MalformedData));
    assert_eq!(decode_json_array(reply, "/p", 32).ok(), Some(vec![1; 32]));
    assert_eq!(decode_json_array(reply, "/m", 32).err(), Some(CliError::InvalidProofLength));
    let digest = sha2::Sha256::digest([9; 32]);
    let mut first = [0; 16];
    first.copy_from_slice(&digest[..16]);
    assert_eq!(device_identifier(&[9; 32]), u128::from_be_bytes(first));
    assert_eq!(platform("macos"), "mac_os");
    assert_eq!(platform("plan9"), "unknown");
}

fn options(wait_seconds: u64, ephemeral: bool) -> EnrollmentOptions {
    EnrollmentOptions {
        invitation_id: 1,
        link: false,
        name: None,
        wait_seconds,
        ephemeral,
    }
}

fn machine() -> Machine {
    Machine {
        host_name: None,
        os: "linux".to_owned(),
        architecture: "x86_64".to_owned(),
        cpu_model: None,
        logical_cores: 8,
        memory_total_bytes: 16,
        memory_available_bytes: 8,
    }
}

#[test]
fn a_device_enrolls_and_waits() {
    let begun = EnrollmentRun::run_enrollment("https://controller.example", options(2, false), b"hello");
    let (mut run, request) = begun.unwrap_or_else(|error| panic!("{}", error.message()));
    asks(
        &request,
        Method::Post,
        "/constellation/v1/enrollment/begin",
        Some(&format!(
            r#"{{"invitation_id":"{ONE}","method":"short_code","client_message":"{}"}}"#,
            base64url(b"hello")
        )),
    );
    let reply = format!(
        r#"{{"controller_message":"{}","controller_proof":"{}"}}"#,
        base64url(b"message"),
        base64url(&[1; 32])
    );
    let handshake = run.begun(reply.as_bytes());
    assert!(handshake.is_ok_and(|handshake| handshake.message == b"message"
        && handshake.proof_bytes == vec![1; 32]));
    let confirm = run
        .checked(true, true, &[2; 32], &[3; 32], &machine())
        .unwrap_or_else(|error| panic!("{}", error.message()));
    assert_eq!(confirm.path, "/constellation/v1/enrollment/confirm");
    let body = confirm.body.as_ref().map(value).unwrap_or_default();
    assert_eq!(body["device"]["name"], "Constellation worker");
    assert_eq!(body["device"]["capabilities"]["cpu_model"], "Unknown CPU");
    assert_eq!(body["device"]["capabilities"]["memory_available_bytes"], 8);
    assert_eq!(body["client_proof"], base64url(&[2; 32]));
    assert!(matches!(
        run.confirmed(&[4; 32]),
        Waiting::Ask(request) if request.path == "/constellation/v1/enrollment/credential"
    ));
    assert!(matches!(run.asked(br#"{"credential":null}"#, &[4; 32]), Waiting::Ask(_)));
    assert!(matches!(run.asked(b"{}", &[4; 32]), Waiting::TimedOut));
}

#[test]
fn enrollment_stops_for_a_reason() {
    let remote = EnrollmentRun::run_enrollment("https://controller.example", options(0, true), b"m");
    assert_eq!(remote.err(), Some(CliError::EphemeralIdentity));
    let begin = || {
        EnrollmentRun::run_enrollment("http://127.0.0.1:9777", options(0, true), b"m")
            .map(|(run, _)| run)
            .unwrap_or_else(|error| panic!("{}", error.message()))
    };
    let reply = format!(
        r#"{{"controller_message":"{}","controller_proof":"{}"}}"#,
        base64url(b"message"),
        base64url(&[1; 32])
    );
    assert_eq!(begin().begun(b"{}").err(), Some(CliError::MissingData));
    let mut run = begin();
    assert!(run.begun(reply.as_bytes()).is_ok());
    assert_eq!(
        run.checked(false, true, &[], &[], &machine()).err(),
        Some(CliError::InvalidTranscript)
    );
    let mut run = begin();
    assert!(run.begun(reply.as_bytes()).is_ok());
    assert_eq!(run.checked(true, false, &[], &[], &machine()).err(), Some(CliError::InvalidProof));
    let mut run = begin();
    assert!(run.begun(reply.as_bytes()).is_ok());
    let confirm = run.checked(true, true, &[], &[], &machine());
    assert!(confirm.is_ok_and(|request| request.body.as_ref().map(value).unwrap_or_default()["device"]
        ["capabilities"]["memory_available_bytes"]
        == 16));
    assert!(matches!(run.confirmed(&[4; 32]), Waiting::Finished));
}

// ------------------------------------------------------------------------------------------------
// Files

#[test]
fn credentials_are_preserved_when_replaced() {
    let (_, request) = FileWriting::write_private_json(false);
    assert_eq!(request, FileRequest::Probe);
    let (mut kept, _) = FileWriting::write_private_json(false);
    assert_eq!(kept.next(FileSignal::Found(true)), FileRequest::Fail(FileError::Exists));
    assert_eq!(
        exists_message(Artifact::Credential),
        "credential destination exists; pass --force to preserve and replace it"
    );
    let (mut writing, _) = FileWriting::write_private_json(true);
    assert_eq!(writing.next(FileSignal::Found(true)), FileRequest::MakeDirectory);
    assert_eq!(writing.next(FileSignal::Worked(true)), FileRequest::Write);
    assert_eq!(writing.next(FileSignal::Worked(true)), FileRequest::Probe);
    assert_eq!(writing.next(FileSignal::Found(true)), FileRequest::Preserve);
    assert_eq!(writing.next(FileSignal::Worked(true)), FileRequest::Promote);
    assert_eq!(writing.next(FileSignal::Worked(false)), FileRequest::Discard);
    assert_eq!(writing.next(FileSignal::Worked(true)), FileRequest::PutBack);
    assert_eq!(writing.next(FileSignal::Worked(true)), FileRequest::Fail(FileError::Promote));
}

#[test]
fn reports_and_backups_replace_on_request() {
    let (mut report, _) = FileWriting::write_json_artifact(true);
    assert_eq!(report.next(FileSignal::Found(true)), FileRequest::MakeDirectory);
    assert_eq!(report.next(FileSignal::Worked(true)), FileRequest::Write);
    assert_eq!(report.next(FileSignal::Worked(true)), FileRequest::Probe);
    assert_eq!(report.next(FileSignal::Found(true)), FileRequest::Remove);
    assert_eq!(report.next(FileSignal::Worked(true)), FileRequest::Promote);
    assert_eq!(report.next(FileSignal::Worked(true)), FileRequest::Finish);
    let (mut backup, request) = FileWriting::run_backup(false);
    assert_eq!(request, FileRequest::Probe);
    assert_eq!(backup.next(FileSignal::Found(false)), FileRequest::Download);
    assert_eq!(backup.next(FileSignal::Worked(true)), FileRequest::Write);
    assert_eq!(backup.next(FileSignal::Worked(true)), FileRequest::Promote);
    assert_eq!(backup.next(FileSignal::Worked(false)), FileRequest::Fail(FileError::Promote));
    let (mut undownloaded, _) = FileWriting::run_backup(false);
    undownloaded.next(FileSignal::Found(false));
    assert_eq!(
        undownloaded.next(FileSignal::Worked(false)),
        FileRequest::Fail(FileError::Download)
    );
}

#[test]
fn a_chat_may_be_cut_anywhere() {
    let answer = "data: {\"choices\":[{\"delta\":{\"content\":\"a\"}}]}\r\n\r\n\
        data: {\"choices\":[{\"delta\":{\"content\":\"b\"}}]}\r\n\r\ndata: [DONE]\r\n\r\n";
    for cut in 0..=answer.len() {
        let mut stream = ChatStream::new();
        let (mut pieces, first) = stream.stream_chat(&answer[..cut]);
        let (more, second) = stream.stream_chat(&answer[cut..]);
        pieces.extend(more);
        assert_eq!(pieces, ["a", "b"]);
        assert!(first.is_none() && second.is_none());
        assert_eq!(stream.buffer, "");
    }
}
