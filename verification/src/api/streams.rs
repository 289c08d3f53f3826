//! Answers as clients of the OpenAI interfaces see them: in pieces, or whole.

use crate::api::inference::Answer;
use crate::ident::{format_uuid, hyphenated, Uuid};
use crate::json::{
    array1, empty_list, field_below, field_of, fields1, fields2, fields3, fields4, fields5, fields6,
    fields7, fields8, id_json, id_list, ids_json, lemma_fields1, lemma_fields2, lemma_fields3,
    lemma_fields4, lemma_fields5, lemma_fields6, lemma_fields7, lemma_fields8, lookup, only_item, single, Fields, Json, JsonView,
};
use crate::repository::WorkloadStatus;
use crate::runtime::{text_put_out, RuntimeEvent, RuntimeEventView};
use crate::text;
use vstd::prelude::*;

verus! {

/// An answer that is sent in pieces.
pub struct AnswerStream {
    workload_id: Uuid,
    model: String,
    plan_id: Uuid,
    selected_nodes: Vec<Uuid>,
    status: WorkloadStatus,
    output: String,
}

/// An answer that is sent in pieces, as values.
#[verifier::ext_equal]
pub struct AnswerStreamView {
    pub workload_id: Uuid,
    pub model: Seq<char>,
    pub plan_id: Uuid,
    pub selected_nodes: Seq<Uuid>,
    /// How the workload ended, as far as is known.
    pub status: WorkloadStatus,
    pub output: Seq<char>,
}

/// How a workload has ended after an event: the last terminal event counts.
pub open spec fn status_after(status: WorkloadStatus, event: RuntimeEventView) -> WorkloadStatus {
    match event {
        RuntimeEventView::Finished { .. } => WorkloadStatus::Completed,
        RuntimeEventView::Cancelled => WorkloadStatus::Cancelled,
        RuntimeEventView::Failure { .. } => WorkloadStatus::Interrupted,
        _ => status,
    }
}

impl AnswerStreamView {
    /// After one more event.
    pub open spec fn after(self, event: RuntimeEventView) -> AnswerStreamView {
        AnswerStreamView {
            status: status_after(self.status, event),
            output: match event {
                RuntimeEventView::TextDelta(delta) => self.output + delta,
                _ => self.output,
            },
            ..self
        }
    }

    /// What a client of the chat interface is sent for an event.
    pub open spec fn chat_chunk(self, event: RuntimeEventView, created: i64) -> Option<JsonView> {
        match event {
            RuntimeEventView::TextDelta(delta) => Some(
                JsonView::Object(
                    fields6(
                        ("id"@, JsonView::Text("chatcmpl-"@ + hyphenated(self.workload_id))),
                        ("object"@, JsonView::Text("chat.completion.chunk"@)),
                        ("created"@, JsonView::Number(created as int)),
                        ("model"@, JsonView::Text(self.model)),
                        (
                            "choices"@,
                            array1(
                                JsonView::Object(
                                    fields3(
                                        ("index"@, JsonView::Number(0)),
                                        (
                                            "delta"@,
                                            JsonView::Object(
                                                fields1(("content"@, JsonView::Text(delta))),
                                            ),
                                        ),
                                        ("finish_reason"@, JsonView::Null),
                                    ),
                                ),
                            ),
                        ),
                        ("constellation"@, plan_note(self.plan_id, self.selected_nodes)),
                    ),
                ),
            ),
            RuntimeEventView::Finished { finish_reason, .. } => Some(
                JsonView::Object(
                    fields5(
                        ("id"@, JsonView::Text("chatcmpl-"@ + hyphenated(self.workload_id))),
                        ("object"@, JsonView::Text("chat.completion.chunk"@)),
                        ("created"@, JsonView::Number(created as int)),
                        ("model"@, JsonView::Text(self.model)),
                        (
                            "choices"@,
                            array1(
                                JsonView::Object(
                                    fields3(
                                        ("index"@, JsonView::Number(0)),
                                        ("delta"@, JsonView::Object(Seq::empty())),
                                        ("finish_reason"@, JsonView::Text(finish_reason)),
                                    ),
                                ),
                            ),
                        ),
                    ),
                ),
            ),
            RuntimeEventView::Cancelled => Some(
                JsonView::Object(
                    fields1(
                        (
                            "error"@,
                            JsonView::Object(
                                fields3(
                                    ("type"@, JsonView::Text("cancelled"@)),
                                    ("code"@, JsonView::Text("cancelled"@)),
                                    ("message"@, JsonView::Text("generation was cancelled"@)),
                                ),
                            ),
                        ),
                    ),
                ),
            ),
            RuntimeEventView::Failure { code, message, retryable, output_started } => Some(
                failure_note(code, message, retryable, output_started),
            ),
            _ => None,
        }
    }

    /// What a client of the completion interface is sent for an event.
    pub open spec fn completion_chunk(self, event: RuntimeEventView) -> Option<JsonView> {
        match event {
            RuntimeEventView::TextDelta(delta) => Some(
                self.completion_piece(delta, JsonView::Null),
            ),
            RuntimeEventView::Finished { finish_reason, .. } => Some(
                self.completion_piece(""@, JsonView::Text(finish_reason)),
            ),
            RuntimeEventView::Failure { code, message, retryable, output_started } => Some(
                failure_note(code, message, retryable, output_started),
            ),
            _ => None,
        }
    }

    /// A piece of a completion.
    pub open spec fn completion_piece(self, text: Seq<char>, finish_reason: JsonView) -> JsonView {
        JsonView::Object(
            fields4(
                ("id"@, JsonView::Text("cmpl-"@ + hyphenated(self.workload_id))),
                ("object"@, JsonView::Text("text_completion"@)),
                ("model"@, JsonView::Text(self.model)),
                (
                    "choices"@,
                    array1(
                        JsonView::Object(
                            fields3(
                                ("text"@, JsonView::Text(text)),
                                ("index"@, JsonView::Number(0)),
                                ("finish_reason"@, finish_reason),
                            ),
                        ),
                    ),
                ),
            ),
        )
    }

    /// What a client of the responses interface is sent for an event, under which name.
    pub open spec fn response_event(self, event: RuntimeEventView) -> Option<
        (Seq<char>, JsonView),
    > {
        let id = JsonView::Text("resp_"@ + hyphenated(self.workload_id));
        match event {
            RuntimeEventView::TextDelta(delta) => Some(
                (
                    "response.output_text.delta"@,
                    JsonView::Object(
                        fields3(
                            ("type"@, JsonView::Text("response.output_text.delta"@)),
                            ("response_id"@, id),
                            ("delta"@, JsonView::Text(delta)),
                        ),
                    ),
                ),
            ),
            RuntimeEventView::Failure { code, message, retryable, output_started } => Some(
                (
                    "response.failed"@,
                    JsonView::Object(
                        fields3(
                            ("type"@, JsonView::Text("response.failed"@)),
                            ("response_id"@, id),
                            (
                                "error"@,
                                JsonView::Object(
                                    fields4(
                                        ("code"@, JsonView::Text(code)),
                                        ("message"@, JsonView::Text(message)),
                                        ("retryable"@, JsonView::Bool(retryable)),
                                        ("partial_output"@, JsonView::Bool(output_started)),
                                    ),
                                ),
                            ),
                        ),
                    ),
                ),
            ),
            _ => None,
        }
    }

    /// What a client of the responses interface is sent at the end of an answer that was completed.
    pub open spec fn response_completed(self) -> Option<(Seq<char>, JsonView)> {
        if self.status == WorkloadStatus::Completed {
            Some(
                (
                    "response.completed"@,
                    JsonView::Object(
                        fields2(
                            ("type"@, JsonView::Text("response.completed"@)),
                            (
                                "response"@,
                                JsonView::Object(
                                    fields5(
                                        (
                                            "id"@,
                                            JsonView::Text(
                                                "resp_"@ + hyphenated(self.workload_id),
                                            ),
                                        ),
                                        ("object"@, JsonView::Text("response"@)),
                                        ("status"@, JsonView::Text("completed"@)),
                                        ("model"@, JsonView::Text(self.model)),
                                        ("output_text"@, JsonView::Text(self.output)),
                                    ),
                                ),
                            ),
                        ),
                    ),
                ),
            )
        } else {
            None
        }
    }
}

/// What is said of the plan behind an answer.
pub open spec fn plan_note(plan_id: Uuid, selected_nodes: Seq<Uuid>) -> JsonView {
    JsonView::Object(
        fields2(("plan_id"@, id_json(plan_id)), ("selected_nodes"@, ids_json(selected_nodes))),
    )
}

/// What is said of a failure in the middle of an answer.
pub open spec fn failure_note(
    code: Seq<char>,
    message: Seq<char>,
    retryable: bool,
    output_started: bool,
) -> JsonView {
    JsonView::Object(
        fields1(
            (
                "error"@,
                JsonView::Object(
                    fields5(
                        ("type"@, JsonView::Text("server_error"@)),
                        ("code"@, JsonView::Text(code)),
                        ("message"@, JsonView::Text(message)),
                        ("retryable"@, JsonView::Bool(retryable)),
                        ("partial_output"@, JsonView::Bool(output_started)),
                    ),
                ),
            ),
        ),
    )
}

fn failure_json(code: &str, message: &str, retryable: bool, output_started: bool) -> (r: Json)
    ensures
        r@ == failure_note(code@, message@, retryable, output_started),
{
    Fields::new().with(
        "error",
        Fields::new().text("type", "server_error").text("code", code).text("message", message).flag(
            "retryable",
            retryable,
        ).flag("partial_output", output_started).object(),
    ).object()
}

/// A named piece that a client is sent.
pub struct NamedEvent {
    pub name: &'static str,
    pub data: Json,
}

/// What an optional piece says.
pub open spec fn optional_json(value: Option<Json>) -> Option<JsonView> {
    match value {
        Some(v) => Some(v@),
        None => None,
    }
}

/// What an optional named piece says.
pub open spec fn optional_named(value: Option<NamedEvent>) -> Option<(Seq<char>, JsonView)> {
    match value {
        Some(v) => Some((v.name@, v.data@)),
        None => None,
    }
}

impl AnswerStream {
    pub closed spec fn view(&self) -> AnswerStreamView {
        AnswerStreamView {
            workload_id: self.workload_id,
            model: self.model@,
            plan_id: self.plan_id,
            selected_nodes: self.selected_nodes@,
            status: self.status,
            output: self.output@,
        }
    }

    /// An answer of which nothing is known yet: where it breaks off, it was interrupted.
    pub fn new(workload_id: Uuid, model: String, plan_id: Uuid, selected_nodes: Vec<Uuid>) -> (r:
        AnswerStream)
        ensures
            r@ == (AnswerStreamView {
                workload_id,
                model: model@,
                plan_id,
                selected_nodes: selected_nodes@,
                status: WorkloadStatus::Interrupted,
                output: Seq::empty(),
            }),
    {
        AnswerStream {
            workload_id,
            model,
            plan_id,
            selected_nodes,
            status: WorkloadStatus::Interrupted,
            output: String::new(),
        }
    }

    /// How the workload ended.
    pub fn status(&self) -> (status: WorkloadStatus)
        ensures
            status == self@.status,
    {
        self.status
    }

    fn note(&mut self, event: &RuntimeEvent)
        ensures
            final(self)@ == old(self)@.after(event@),
    {
        match event {
            RuntimeEvent::TextDelta(delta) => {
                self.output.append(delta.as_str());
            },
            RuntimeEvent::Finished { .. } => {
                self.status = WorkloadStatus::Completed;
            },
            RuntimeEvent::Cancelled => {
                self.status = WorkloadStatus::Cancelled;
            },
            RuntimeEvent::Failure { .. } => {
                self.status = WorkloadStatus::Interrupted;
            },
            RuntimeEvent::Loading { .. } => {},
            RuntimeEvent::Prefill { .. } => {},
        }
    }

    /// The next piece for a client of the chat interface.
    pub fn chat_chunk(&mut self, event: &RuntimeEvent, created: i64) -> (chunk: Option<Json>)
        ensures
            final(self)@ == old(self)@.after(event@),
            optional_json(chunk) == old(self)@.chat_chunk(event@, created),
    {
        self.note(event);
        match event {
            RuntimeEvent::TextDelta(delta) => {
                let id = text::join2("chatcmpl-", format_uuid(self.workload_id).as_str());
                let choice = Fields::new().number("index", 0).with(
                    "delta",
                    Fields::new().text("content", delta.as_str()).object(),
                ).with("finish_reason", Json::Null).object();
                let plan = Fields::new().id("plan_id", self.plan_id).with(
                    "selected_nodes",
                    id_list(self.selected_nodes.as_slice()),
                ).object();
                Some(
                    Fields::new().text("id", id.as_str()).text(
                        "object",
                        "chat.completion.chunk",
                    ).number("created", created as i128).text("model", self.model.as_str()).with(
                        "choices",
                        single(choice),
                    ).with("constellation", plan).object(),
                )
            },
            RuntimeEvent::Finished { finish_reason, .. } => {
                let id = text::join2("chatcmpl-", format_uuid(self.workload_id).as_str());
                let choice = Fields::new().number("index", 0).with(
                    "delta",
                    Fields::new().object(),
                ).text("finish_reason", finish_reason.as_str()).object();
                Some(
                    Fields::new().text("id", id.as_str()).text(
                        "object",
                        "chat.completion.chunk",
                    ).number("created", created as i128).text("model", self.model.as_str()).with(
                        "choices",
                        single(choice),
                    ).object(),
                )
            },
            RuntimeEvent::Cancelled => Some(
                Fields::new().with(
                    "error",
                    Fields::new().text("type", "cancelled").text("code", "cancelled").text(
                        "message",
                        "generation was cancelled",
                    ).object(),
                ).object(),
            ),
            RuntimeEvent::Failure { code, message, retryable, output_started } => Some(
                failure_json(code.as_str(), message.as_str(), *retryable, *output_started),
            ),
            RuntimeEvent::Loading { .. } => None,
            RuntimeEvent::Prefill { .. } => None,
        }
    }

    fn completion_piece(&self, piece: &str, finish_reason: Json) -> (r: Json)
        ensures
            r@ == self@.completion_piece(piece@, finish_reason@),
    {
        let id = text::join2("cmpl-", format_uuid(self.workload_id).as_str());
        let choice = Fields::new().text("text", piece).number("index", 0).with(
            "finish_reason",
            finish_reason,
        ).object();
        Fields::new().text("id", id.as_str()).text("object", "text_completion").text(
            "model",
            self.model.as_str(),
        ).with("choices", single(choice)).object()
    }

    /// The next piece for a client of the completion interface.
    pub fn completion_chunk(&mut self, event: &RuntimeEvent) -> (chunk: Option<Json>)
        ensures
            final(self)@ == old(self)@.after(event@),
            optional_json(chunk) == old(self)@.completion_chunk(event@),
    {
        self.note(event);
        match event {
            RuntimeEvent::TextDelta(delta) => Some(
                self.completion_piece(delta.as_str(), Json::Null),
            ),
            RuntimeEvent::Finished { finish_reason, .. } => Some(
                self.completion_piece("", Json::Text(text::owned(finish_reason.as_str()))),
            ),
            RuntimeEvent::Failure { code, message, retryable, output_started } => Some(
                failure_json(code.as_str(), message.as_str(), *retryable, *output_started),
            ),
            RuntimeEvent::Cancelled => None,
            RuntimeEvent::Loading { .. } => None,
            RuntimeEvent::Prefill { .. } => None,
        }
    }

    /// The first event for a client of the responses interface; the plan is a document as it was
    /// encoded.
    pub fn response_created(&self, plan: Vec<u8>) -> (r: NamedEvent)
        ensures
            r.name@ == "response.created"@,
            r.data@ == JsonView::Object(
                fields3(
                    ("type"@, JsonView::Text("response.created"@)),
                    (
                        "response"@,
                        JsonView::Object(
                            fields4(
                                ("id"@, JsonView::Text("resp_"@ + hyphenated(self@.workload_id))),
                                ("object"@, JsonView::Text("response"@)),
                                ("status"@, JsonView::Text("in_progress"@)),
                                ("model"@, JsonView::Text(self@.model)),
                            ),
                        ),
                    ),
                    (
                        "constellation"@,
                        JsonView::Object(fields1(("plan"@, JsonView::Document(plan@)))),
                    ),
                ),
            ),
    {
        let id = text::join2("resp_", format_uuid(self.workload_id).as_str());
        let response = Fields::new().text("id", id.as_str()).text("object", "response").text(
            "status",
            "in_progress",
        ).text("model", self.model.as_str()).object();
        NamedEvent {
            name: "response.created",
            data: Fields::new().text("type", "response.created").with("response", response).with(
                "constellation",
                Fields::new().document("plan", plan).object(),
            ).object(),
        }
    }

    /// The next event for a client of the responses interface.
    pub fn response_event(&mut self, event: &RuntimeEvent) -> (r: Option<NamedEvent>)
        ensures
            final(self)@ == old(self)@.after(event@),
            optional_named(r) == old(self)@.response_event(event@),
    {
        self.note(event);
        let id = text::join2("resp_", format_uuid(self.workload_id).as_str());
        match event {
            RuntimeEvent::TextDelta(delta) => Some(
                NamedEvent {
                    name: "response.output_text.delta",
                    data: Fields::new().text("type", "response.output_text.delta").text(
                        "response_id",
                        id.as_str(),
                    ).text("delta", delta.as_str()).object(),
                },
            ),
            RuntimeEvent::Failure { code, message, retryable, output_started } => Some(
                NamedEvent {
                    name: "response.failed",
                    data: Fields::new().text("type", "response.failed").text(
                        "response_id",
                        id.as_str(),
                    ).with(
                        "error",
                        Fields::new().text("code", code.as_str()).text(
                            "message",
                            message.as_str(),
                        ).flag("retryable", *retryable).flag(
                            "partial_output",
                            *output_started,
                        ).object(),
                    ).object(),
                },
            ),
            RuntimeEvent::Finished { .. } => None,
            RuntimeEvent::Cancelled => None,
            RuntimeEvent::Loading { .. } => None,
            RuntimeEvent::Prefill { .. } => None,
        }
    }

    /// The last event for a client of the responses interface.
    pub fn response_completed(&self) -> (r: Option<NamedEvent>)
        ensures
            optional_named(r) == self@.response_completed(),
    {
        if self.status == WorkloadStatus::Completed {
            let id = text::join2("resp_", format_uuid(self.workload_id).as_str());
            Some(
                NamedEvent {
                    name: "response.completed",
                    data: Fields::new().text("type", "response.completed").with(
                        "response",
                        Fields::new().text("id", id.as_str()).text("object", "response").text(
                            "status",
                            "completed",
                        ).text("model", self.model.as_str()).text(
                            "output_text",
                            self.output.as_str(),
                        ).object(),
                    ).object(),
                },
            )
        } else {
            None
        }
    }
}

/// The tokens of a whole answer, as the chat and completion interfaces tell them.
pub open spec fn usage_note(answer: Answer) -> JsonView {
    JsonView::Object(
        fields3(
            ("prompt_tokens"@, JsonView::Number(answer.input_tokens as int)),
            ("completion_tokens"@, JsonView::Number(answer.output_tokens as int)),
            ("total_tokens"@, JsonView::Number(answer.input_tokens + answer.output_tokens)),
        ),
    )
}

fn usage_json(answer: &Answer) -> (r: Json)
    ensures
        r@ == usage_note(*answer),
{
    Fields::new().number("prompt_tokens", answer.input_tokens as i128).number(
        "completion_tokens",
        answer.output_tokens as i128,
    ).number(
        "total_tokens",
        answer.input_tokens as i128 + answer.output_tokens as i128,
    ).object()
}

/// A whole answer for a client of the chat interface, as values.
pub open spec fn chat_note(
    workload_id: Uuid,
    created: i64,
    model: Seq<char>,
    answer: Answer,
    plan_id: Uuid,
    selected_nodes: Seq<Uuid>,
) -> JsonView {
    JsonView::Object(
        fields7(
            ("id"@, JsonView::Text("chatcmpl-"@ + hyphenated(workload_id))),
            ("object"@, JsonView::Text("chat.completion"@)),
            ("created"@, JsonView::Number(created as int)),
            ("model"@, JsonView::Text(model)),
            (
                "choices"@,
                array1(
                    JsonView::Object(
                        fields3(
                            ("index"@, JsonView::Number(0)),
                            (
                                "message"@,
                                JsonView::Object(
                                    fields2(
                                        ("role"@, JsonView::Text("assistant"@)),
                                        ("content"@, JsonView::Text(answer.text@)),
                                    ),
                                ),
                            ),
                            ("finish_reason"@, JsonView::Text(answer.finish_reason@)),
                        ),
                    ),
                ),
            ),
            ("usage"@, usage_note(answer)),
            ("constellation"@, plan_note(plan_id, selected_nodes)),
        ),
    )
}

/// A whole answer for a client of the chat interface.
pub fn chat_completion(
    workload_id: Uuid,
    created: i64,
    model: &str,
    answer: &Answer,
    plan_id: Uuid,
    selected_nodes: &[Uuid],
) -> (r: Json)
    ensures
        r@ == chat_note(workload_id, created, model@, *answer, plan_id, selected_nodes@),
{
    let id = text::join2("chatcmpl-", format_uuid(workload_id).as_str());
    let message = Fields::new().text("role", "assistant").text(
        "content",
        answer.text.as_str(),
    ).object();
    let choice = Fields::new().number("index", 0).with("message", message).text(
        "finish_reason",
        answer.finish_reason.as_str(),
    ).object();
    let plan = Fields::new().id("plan_id", plan_id).with(
        "selected_nodes",
        id_list(selected_nodes),
    ).object();
    Fields::new().text("id", id.as_str()).text("object", "chat.completion").number(
        "created",
        created as i128,
    ).text("model", model).with("choices", single(choice)).with("usage", usage_json(answer)).with(
        "constellation",
        plan,
    ).object()
}

/// A whole answer for a client of the completion interface, as values.
pub open spec fn completion_note(
    workload_id: Uuid,
    created: i64,
    model: Seq<char>,
    answer: Answer,
    plan_id: Uuid,
) -> JsonView {
    JsonView::Object(
        fields7(
            ("id"@, JsonView::Text("cmpl-"@ + hyphenated(workload_id))),
            ("object"@, JsonView::Text("text_completion"@)),
            ("created"@, JsonView::Number(created as int)),
            ("model"@, JsonView::Text(model)),
            (
                "choices"@,
                array1(
                    JsonView::Object(
                        fields3(
                            ("text"@, JsonView::Text(answer.text@)),
                            ("index"@, JsonView::Number(0)),
                            ("finish_reason"@, JsonView::Text(answer.finish_reason@)),
                        ),
                    ),
                ),
            ),
            ("usage"@, usage_note(answer)),
            ("constellation"@, JsonView::Object(fields1(("plan_id"@, id_json(plan_id))))),
        ),
    )
}

/// A whole answer for a client of the completion interface.
pub fn text_completion(
    workload_id: Uuid,
    created: i64,
    model: &str,
    answer: &Answer,
    plan_id: Uuid,
) -> (r: Json)
    ensures
        r@ == completion_note(workload_id, created, model@, *answer, plan_id),
{
    let id = text::join2("cmpl-", format_uuid(workload_id).as_str());
    let choice = Fields::new().text("text", answer.text.as_str()).number("index", 0).text(
        "finish_reason",
        answer.finish_reason.as_str(),
    ).object();
    Fields::new().text("id", id.as_str()).text("object", "text_completion").number(
        "created",
        created as i128,
    ).text("model", model).with("choices", single(choice)).with("usage", usage_json(answer)).with(
        "constellation",
        Fields::new().id("plan_id", plan_id).object(),
    ).object()
}

/// The message that a whole answer is for a client of the responses interface.
pub open spec fn message_note(message_id: Uuid, text: Seq<char>) -> JsonView {
    JsonView::Object(
        fields5(
            ("id"@, JsonView::Text("msg_"@ + hyphenated(message_id))),
            ("type"@, JsonView::Text("message"@)),
            ("role"@, JsonView::Text("assistant"@)),
            ("status"@, JsonView::Text("completed"@)),
            (
                "content"@,
                array1(
                    JsonView::Object(
                        fields3(
                            ("type"@, JsonView::Text("output_text"@)),
                            ("text"@, JsonView::Text(text)),
                            ("annotations"@, JsonView::Array(Seq::empty())),
                        ),
                    ),
                ),
            ),
        ),
    )
}

fn message_json(message_id: Uuid, text: &str) -> (r: Json)
    ensures
        r@ == message_note(message_id, text@),
{
    let id = text::join2("msg_", format_uuid(message_id).as_str());
    let content = Fields::new().text("type", "output_text").text("text", text).with(
        "annotations",
        empty_list(),
    ).object();
    Fields::new().text("id", id.as_str()).text("type", "message").text("role", "assistant").text(
        "status",
        "completed",
    ).with("content", single(content)).object()
}

/// A whole answer for a client of the responses interface, as values.
pub open spec fn response_note(
    workload_id: Uuid,
    message_id: Uuid,
    created_at: i64,
    model: Seq<char>,
    answer: Answer,
    plan: Seq<u8>,
) -> JsonView {
    JsonView::Object(
        fields8(
            ("id"@, JsonView::Text("resp_"@ + hyphenated(workload_id))),
            ("object"@, JsonView::Text("response"@)),
            ("created_at"@, JsonView::Number(created_at as int)),
            ("status"@, JsonView::Text("completed"@)),
            ("model"@, JsonView::Text(model)),
            ("output"@, array1(message_note(message_id, answer.text@))),
            (
                "usage"@,
                JsonView::Object(
                    fields3(
                        ("input_tokens"@, JsonView::Number(answer.input_tokens as int)),
                        ("output_tokens"@, JsonView::Number(answer.output_tokens as int)),
                        (
                            "total_tokens"@,
                            JsonView::Number(answer.input_tokens + answer.output_tokens),
                        ),
                    ),
                ),
            ),
            (
                "constellation"@,
                JsonView::Object(fields1(("plan"@, JsonView::Document(plan)))),
            ),
        ),
    )
}

/// A whole answer for a client of the responses interface; the plan is a document as it was encoded.
pub fn response(
    workload_id: Uuid,
    message_id: Uuid,
    created_at: i64,
    model: &str,
    answer: &Answer,
    plan: Vec<u8>,
) -> (r: Json)
    ensures
        r@ == response_note(workload_id, message_id, created_at, model@, *answer, plan@),
{
    let id = text::join2("resp_", format_uuid(workload_id).as_str());
    let usage = Fields::new().number("input_tokens", answer.input_tokens as i128).number(
        "output_tokens",
        answer.output_tokens as i128,
    ).number("total_tokens", answer.input_tokens as i128 + answer.output_tokens as i128).object();
    Fields::new().text("id", id.as_str()).text("object", "response").number(
        "created_at",
        created_at as i128,
    ).text("status", "completed").text("model", model).with(
        "output",
        single(message_json(message_id, answer.text.as_str())),
    ).with("usage", usage).with(
        "constellation",
        Fields::new().document("plan", plan).object(),
    ).object()
}

/// How a stream ends is decided by its last terminal event.
pub proof fn law_the_last_end_counts(
    stream: AnswerStreamView,
    events: Seq<RuntimeEventView>,
    event: RuntimeEventView,
)
    requires
        event.terminal(),
        forall|i: int| 0 <= i < events.len() ==> !(#[trigger] events[i]).terminal(),
    ensures
        after_all(stream.after(event), events).status == status_after(stream.status, event),
    decreases events.len(),
{
    if events.len() > 0 {
        let before = events.drop_last();
        assert forall|i: int| 0 <= i < before.len() implies !(#[trigger] before[i]).terminal() by {
            assert(before[i] == events[i]);
        }
        law_the_last_end_counts(stream, before, event);
        assert(!events[events.len() - 1].terminal());
    }
}

/// After all of some events.
pub open spec fn after_all(stream: AnswerStreamView, events: Seq<RuntimeEventView>) -> AnswerStreamView
    decreases events.len(),
{
    if events.len() == 0 {
        stream
    } else {
        after_all(stream, events.drop_last()).after(events.last())
    }
}

// ------------------------------------------------------------------------------------------------
// What clients are told adds up

/// The text in what a client of the responses interface is sent: that of a delta event.
pub open spec fn response_text(sent: Option<(Seq<char>, JsonView)>) -> Seq<char> {
    match sent {
        Some((name, data)) if name == "response.output_text.delta"@ => match field_of(data, "delta"@) {
            Some(JsonView::Text(text)) => text,
            _ => Seq::empty(),
        },
        _ => Seq::empty(),
    }
}

/// The first choice in what a client is sent.
pub open spec fn choice_of(sent: JsonView) -> Option<JsonView> {
    match field_of(sent, "choices"@) {
        Some(choices) => only_item(choices),
        None => None,
    }
}

/// The text in what a client of the chat interface is sent.
pub open spec fn chat_text(sent: Option<JsonView>) -> Seq<char> {
    match sent {
        Some(data) => match choice_of(data) {
            Some(choice) => match field_below(choice, "delta"@, "content"@) {
                Some(JsonView::Text(text)) => text,
                _ => Seq::empty(),
            },
            None => Seq::empty(),
        },
        None => Seq::empty(),
    }
}

/// The text in what a client of the completion interface is sent.
pub open spec fn completion_text(sent: Option<JsonView>) -> Seq<char> {
    match sent {
        Some(data) => match choice_of(data) {
            Some(choice) => match field_of(choice, "text"@) {
                Some(JsonView::Text(text)) => text,
                _ => Seq::empty(),
            },
            None => Seq::empty(),
        },
        None => Seq::empty(),
    }
}

/// The texts that a client of the responses interface is sent for events, joined in order.
pub open spec fn response_told(stream: AnswerStreamView, events: Seq<RuntimeEventView>) -> Seq<char>
    decreases events.len(),
{
    if events.len() == 0 {
        Seq::empty()
    } else {
        let before = events.drop_last();
        response_told(stream, before) + response_text(
            after_all(stream, before).response_event(events.last()),
        )
    }
}

/// The texts that a client of the chat interface is sent for events, joined in order.
pub open spec fn chat_told(
    stream: AnswerStreamView,
    events: Seq<RuntimeEventView>,
    created: i64,
) -> Seq<char>
    decreases events.len(),
{
    if events.len() == 0 {
        Seq::empty()
    } else {
        let before = events.drop_last();
        chat_told(stream, before, created) + chat_text(
            after_all(stream, before).chat_chunk(events.last(), created),
        )
    }
}

/// The texts that a client of the completion interface is sent for events, joined in order.
pub open spec fn completion_told(stream: AnswerStreamView, events: Seq<RuntimeEventView>) -> Seq<char>
    decreases events.len(),
{
    if events.len() == 0 {
        Seq::empty()
    } else {
        let before = events.drop_last();
        completion_told(stream, before) + completion_text(
            after_all(stream, before).completion_chunk(events.last()),
        )
    }
}

proof fn lemma_response_fields(stream: AnswerStreamView, event: RuntimeEventView)
    ensures
        match event {
            RuntimeEventView::TextDelta(delta) => {
                let sent = stream.response_event(event)->0;
                &&& sent.0 == "response.output_text.delta"@
                &&& field_of(sent.1, "type"@) == Some(JsonView::Text("response.output_text.delta"@))
                &&& field_of(sent.1, "delta"@) == Some(JsonView::Text(delta))
                &&& field_of(sent.1, "response_id"@) == Some(
                    JsonView::Text("resp_"@ + hyphenated(stream.workload_id)),
                )
            },
            RuntimeEventView::Failure { code, message, retryable, output_started } => {
                let sent = stream.response_event(event)->0;
                &&& sent.0 == "response.failed"@
                &&& field_below(sent.1, "error"@, "code"@) == Some(JsonView::Text(code))
                &&& field_below(sent.1, "error"@, "message"@) == Some(JsonView::Text(message))
                &&& field_below(sent.1, "error"@, "retryable"@) == Some(JsonView::Bool(retryable))
                &&& field_below(sent.1, "error"@, "partial_output"@) == Some(
                    JsonView::Bool(output_started),
                )
            },
            _ => stream.response_event(event) is None,
        },
        "response.failed"@ != "response.output_text.delta"@,
{
    reveal_strlit("type");
    reveal_strlit("response_id");
    reveal_strlit("delta");
    reveal_strlit("error");
    reveal_strlit("code");
    reveal_strlit("message");
    reveal_strlit("retryable");
    reveal_strlit("partial_output");
    reveal_strlit("response.failed");
    reveal_strlit("response.output_text.delta");
    assert("type"@.len() == 4);
    assert("response_id"@.len() == 11);
    assert("delta"@.len() == 5);
    assert("error"@.len() == 5);
    assert("code"@.len() == 4);
    assert("message"@.len() == 7);
    assert("retryable"@.len() == 9);
    assert("partial_output"@.len() == 14);
    assert("response.failed"@.len() == 15);
    assert("response.output_text.delta"@.len() == 26);
    assert("delta"@[0] != "error"@[0]);
    assert("type"@[0] != "code"@[0]);
    let id = JsonView::Text("resp_"@ + hyphenated(stream.workload_id));
    match event {
        RuntimeEventView::TextDelta(delta) => {
            let a = ("type"@, JsonView::Text("response.output_text.delta"@));
            let b = ("response_id"@, id);
            let c = ("delta"@, JsonView::Text(delta));
            lemma_fields3(a, b, c, "type"@);
            lemma_fields3(a, b, c, "response_id"@);
            lemma_fields3(a, b, c, "delta"@);
        },
        RuntimeEventView::Failure { code, message, retryable, output_started } => {
            let e = ("code"@, JsonView::Text(code));
            let f = ("message"@, JsonView::Text(message));
            let g = ("retryable"@, JsonView::Bool(retryable));
            let h = ("partial_output"@, JsonView::Bool(output_started));
            let error = ("error"@, JsonView::Object(fields4(e, f, g, h)));
            lemma_fields3(
                ("type"@, JsonView::Text("response.failed"@)),
                ("response_id"@, id),
                error,
                "error"@,
            );
            lemma_fields4(e, f, g, h, "code"@);
            lemma_fields4(e, f, g, h, "message"@);
            lemma_fields4(e, f, g, h, "retryable"@);
            lemma_fields4(e, f, g, h, "partial_output"@);
        },
        _ => {},
    }
}

/// Each delta event that a client of the responses interface is sent carries the very piece of text that
/// the runtime put out, under the answer's own identifier; a failure is told with its code, its message
/// and whether it may be tried again; and nothing else is told in between.
pub proof fn law_a_response_event_carries_its_piece(stream: AnswerStreamView, event: RuntimeEventView)
    ensures
        match event {
            RuntimeEventView::TextDelta(delta) => stream.response_event(event) matches Some((name, data))
                && response_text(Some((name, data))) == delta && field_of(data, "response_id"@)
                == Some(JsonView::Text("resp_"@ + hyphenated(stream.workload_id))),
            RuntimeEventView::Failure { code, message, retryable, output_started } =>
                stream.response_event(event) matches Some((name, data)) && name
                == "response.failed"@ && field_below(data, "error"@, "code"@) == Some(
                JsonView::Text(code),
            ) && field_below(data, "error"@, "message"@) == Some(JsonView::Text(message))
                && field_below(data, "error"@, "retryable"@) == Some(JsonView::Bool(retryable))
                && field_below(data, "error"@, "partial_output"@) == Some(
                JsonView::Bool(output_started),
            ),
            _ => stream.response_event(event) is None,
        },
{
    lemma_response_fields(stream, event);
}

proof fn lemma_response_told(stream: AnswerStreamView, events: Seq<RuntimeEventView>)
    ensures
        response_told(stream, events) == text_put_out(events),
        after_all(stream, events).output == stream.output + text_put_out(events),
        after_all(stream, events).workload_id == stream.workload_id,
        after_all(stream, events).model == stream.model,
    decreases events.len(),
{
    if events.len() > 0 {
        let before = events.drop_last();
        lemma_response_told(stream, before);
        lemma_response_fields(after_all(stream, before), events.last());
        assert(after_all(stream, events).output =~= stream.output + text_put_out(events));
    } else {
        assert(stream.output + text_put_out(events) =~= stream.output);
    }
}

/// The texts of the delta events that a client of the responses interface is sent, joined in order, are
/// what the runtime put out, and are the output text of the event that the response is completed; which
/// is sent just where the last event that ends an answer was that it is finished.
pub proof fn law_a_response_adds_up(stream: AnswerStreamView, events: Seq<RuntimeEventView>)
    requires
        stream.output.len() == 0,
    ensures
        ({
            let ended = after_all(stream, events);
            let completed = ended.response_completed();
            &&& response_told(stream, events) == text_put_out(events)
            &&& completed is Some <==> ended.status == WorkloadStatus::Completed
            &&& completed matches Some((name, data)) ==> {
                &&& name == "response.completed"@
                &&& field_of(data, "type"@) == Some(JsonView::Text("response.completed"@))
                &&& field_below(data, "response"@, "output_text"@) == Some(
                    JsonView::Text(response_told(stream, events)),
                )
                &&& field_below(data, "response"@, "id"@) == Some(
                    JsonView::Text("resp_"@ + hyphenated(stream.workload_id)),
                )
                &&& field_below(data, "response"@, "status"@) == Some(JsonView::Text("completed"@))
                &&& field_below(data, "response"@, "model"@) == Some(JsonView::Text(stream.model))
            }
        }),
{
    lemma_response_told(stream, events);
    let ended = after_all(stream, events);
    assert(stream.output + text_put_out(events) =~= text_put_out(events));
    reveal_strlit("type");
    reveal_strlit("response");
    reveal_strlit("id");
    reveal_strlit("object");
    reveal_strlit("status");
    reveal_strlit("model");
    reveal_strlit("output_text");
    assert("type"@.len() == 4);
    assert("response"@.len() == 8);
    assert("id"@.len() == 2);
    assert("object"@.len() == 6);
    assert("status"@.len() == 6);
    assert("model"@.len() == 5);
    assert("output_text"@.len() == 11);
    assert("object"@[0] != "status"@[0]);
    let a = ("id"@, JsonView::Text("resp_"@ + hyphenated(ended.workload_id)));
    let b = ("object"@, JsonView::Text("response"@));
    let c = ("status"@, JsonView::Text("completed"@));
    let d = ("model"@, JsonView::Text(ended.model));
    let e = ("output_text"@, JsonView::Text(ended.output));
    lemma_fields5(a, b, c, d, e, "id"@);
    lemma_fields5(a, b, c, d, e, "status"@);
    lemma_fields5(a, b, c, d, e, "model"@);
    lemma_fields5(a, b, c, d, e, "output_text"@);
    let t = ("type"@, JsonView::Text("response.completed"@));
    let r = ("response"@, JsonView::Object(fields5(a, b, c, d, e)));
    lemma_fields2(t, r, "type"@);
    lemma_fields2(t, r, "response"@);
}

/// A failure in the middle of an answer is told with its code, its message, whether it may be tried again,
/// and whether there was output before it.
pub proof fn law_a_failure_is_told_as_it_is(
    code: Seq<char>,
    message: Seq<char>,
    retryable: bool,
    output_started: bool,
)
    ensures
        ({
            let note = failure_note(code, message, retryable, output_started);
            &&& field_below(note, "error"@, "code"@) == Some(JsonView::Text(code))
            &&& field_below(note, "error"@, "message"@) == Some(JsonView::Text(message))
            &&& field_below(note, "error"@, "retryable"@) == Some(JsonView::Bool(retryable))
            &&& field_below(note, "error"@, "partial_output"@) == Some(
                JsonView::Bool(output_started),
            )
            &&& choice_of(note) is None
        }),
{
    reveal_strlit("error");
    reveal_strlit("choices");
    reveal_strlit("type");
    reveal_strlit("code");
    reveal_strlit("message");
    reveal_strlit("retryable");
    reveal_strlit("partial_output");
    assert("error"@.len() == 5);
    assert("choices"@.len() == 7);
    assert("type"@.len() == 4);
    assert("code"@.len() == 4);
    assert("message"@.len() == 7);
    assert("retryable"@.len() == 9);
    assert("partial_output"@.len() == 14);
    assert("type"@[0] != "code"@[0]);
    let a = ("type"@, JsonView::Text("server_error"@));
    let b = ("code"@, JsonView::Text(code));
    let c = ("message"@, JsonView::Text(message));
    let d = ("retryable"@, JsonView::Bool(retryable));
    let e = ("partial_output"@, JsonView::Bool(output_started));
    lemma_fields5(a, b, c, d, e, "code"@);
    lemma_fields5(a, b, c, d, e, "message"@);
    lemma_fields5(a, b, c, d, e, "retryable"@);
    lemma_fields5(a, b, c, d, e, "partial_output"@);
    let error = ("error"@, JsonView::Object(fields5(a, b, c, d, e)));
    lemma_fields1(error, "error"@);
    lemma_fields1(error, "choices"@);
}

proof fn lemma_chat_fields(stream: AnswerStreamView, event: RuntimeEventView, created: i64)
    ensures
        match event {
            RuntimeEventView::TextDelta(delta) => {
                let sent = stream.chat_chunk(event, created)->0;
                &&& chat_text(Some(sent)) == delta
                &&& field_of(choice_of(sent)->0, "finish_reason"@) == Some(JsonView::Null)
                &&& choice_of(sent) is Some
                &&& field_of(sent, "model"@) == Some(JsonView::Text(stream.model))
                &&& field_of(sent, "id"@) == Some(
                    JsonView::Text("chatcmpl-"@ + hyphenated(stream.workload_id)),
                )
                &&& field_of(sent, "created"@) == Some(JsonView::Number(created as int))
                &&& field_below(sent, "constellation"@, "plan_id"@) == Some(id_json(stream.plan_id))
            },
            RuntimeEventView::Finished { finish_reason, .. } => {
                let sent = stream.chat_chunk(event, created)->0;
                &&& chat_text(Some(sent)).len() == 0
                &&& choice_of(sent) is Some
                &&& field_of(choice_of(sent)->0, "finish_reason"@) == Some(
                    JsonView::Text(finish_reason),
                )
                &&& field_of(sent, "id"@) == Some(
                    JsonView::Text("chatcmpl-"@ + hyphenated(stream.workload_id)),
                )
            },
            _ => chat_text(stream.chat_chunk(event, created)).len() == 0,
        },
{
    reveal_strlit("id");
    reveal_strlit("object");
    reveal_strlit("created");
    reveal_strlit("model");
    reveal_strlit("choices");
    reveal_strlit("constellation");
    reveal_strlit("index");
    reveal_strlit("delta");
    reveal_strlit("finish_reason");
    reveal_strlit("content");
    reveal_strlit("plan_id");
    reveal_strlit("selected_nodes");
    reveal_strlit("error");
    assert("id"@.len() == 2);
    assert("object"@.len() == 6);
    assert("created"@.len() == 7);
    assert("model"@.len() == 5);
    assert("choices"@.len() == 7);
    assert("constellation"@.len() == 13);
    assert("index"@.len() == 5);
    assert("delta"@.len() == 5);
    assert("finish_reason"@.len() == 13);
    assert("content"@.len() == 7);
    assert("plan_id"@.len() == 7);
    assert("selected_nodes"@.len() == 14);
    assert("error"@.len() == 5);
    assert("created"@[1] != "choices"@[1]);
    assert("index"@[0] != "delta"@[0]);
    assert("finish_reason"@[0] != "constellation"@[0]);
    let id = ("id"@, JsonView::Text("chatcmpl-"@ + hyphenated(stream.workload_id)));
    let object = ("object"@, JsonView::Text("chat.completion.chunk"@));
    let at = ("created"@, JsonView::Number(created as int));
    let model = ("model"@, JsonView::Text(stream.model));
    let index = ("index"@, JsonView::Number(0));
    match event {
        RuntimeEventView::TextDelta(delta) => {
            let content = ("content"@, JsonView::Text(delta));
            let piece = ("delta"@, JsonView::Object(fields1(content)));
            let reason = ("finish_reason"@, JsonView::Null);
            let choices = ("choices"@, array1(JsonView::Object(fields3(index, piece, reason))));
            let plan = ("constellation"@, plan_note(stream.plan_id, stream.selected_nodes));
            lemma_fields1(content, "content"@);
            lemma_fields3(index, piece, reason, "delta"@);
            lemma_fields3(index, piece, reason, "finish_reason"@);
            lemma_fields6(id, object, at, model, choices, plan, "choices"@);
            lemma_fields6(id, object, at, model, choices, plan, "id"@);
            lemma_fields6(id, object, at, model, choices, plan, "model"@);
            lemma_fields6(id, object, at, model, choices, plan, "created"@);
            lemma_fields6(id, object, at, model, choices, plan, "constellation"@);
            lemma_fields2(
                ("plan_id"@, id_json(stream.plan_id)),
                ("selected_nodes"@, ids_json(stream.selected_nodes)),
                "plan_id"@,
            );
        },
        RuntimeEventView::Finished { finish_reason, .. } => {
            let piece = ("delta"@, JsonView::Object(Seq::empty()));
            let reason = ("finish_reason"@, JsonView::Text(finish_reason));
            let choices = ("choices"@, array1(JsonView::Object(fields3(index, piece, reason))));
            lemma_fields3(index, piece, reason, "delta"@);
            lemma_fields3(index, piece, reason, "finish_reason"@);
            lemma_fields5(id, object, at, model, choices, "choices"@);
            lemma_fields5(id, object, at, model, choices, "id"@);
            assert(lookup(Seq::empty(), "content"@) is None);
        },
        RuntimeEventView::Failure { code, message, retryable, output_started } => {
            law_a_failure_is_told_as_it_is(code, message, retryable, output_started);
        },
        RuntimeEventView::Cancelled => {
            let a = ("type"@, JsonView::Text("cancelled"@));
            let b = ("code"@, JsonView::Text("cancelled"@));
            let c = ("message"@, JsonView::Text("generation was cancelled"@));
            lemma_fields1(("error"@, JsonView::Object(fields3(a, b, c))), "choices"@);
        },
        _ => {},
    }
}

/// The texts that a client of the chat interface is sent, joined in order, are what the runtime put out;
/// each chunk carries its own piece, under the identifier and the model of the answer and with its plan,
/// and the last one the reason to stop.
pub proof fn law_a_chat_adds_up(
    stream: AnswerStreamView,
    events: Seq<RuntimeEventView>,
    event: RuntimeEventView,
    created: i64,
)
    ensures
        chat_told(stream, events, created) == text_put_out(events),
        event matches RuntimeEventView::TextDelta(delta) ==> {
            let sent = stream.chat_chunk(event, created);
            &&& sent is Some && chat_text(sent) == delta
            &&& field_of(sent->0, "model"@) == Some(JsonView::Text(stream.model))
            &&& field_of(sent->0, "id"@) == Some(
                JsonView::Text("chatcmpl-"@ + hyphenated(stream.workload_id)),
            )
            &&& field_of(sent->0, "created"@) == Some(JsonView::Number(created as int))
            &&& field_below(sent->0, "constellation"@, "plan_id"@) == Some(id_json(stream.plan_id))
        },
        event matches RuntimeEventView::Finished { finish_reason, .. } ==> {
            let sent = stream.chat_chunk(event, created);
            &&& sent is Some && choice_of(sent->0) is Some
            &&& field_of(choice_of(sent->0)->0, "finish_reason"@) == Some(
                JsonView::Text(finish_reason),
            )
        },
    decreases events.len(),
{
    lemma_chat_fields(stream, event, created);
    if events.len() > 0 {
        let before = events.drop_last();
        law_a_chat_adds_up(stream, before, event, created);
        lemma_chat_fields(after_all(stream, before), events.last(), created);
        assert(chat_told(stream, events, created) =~= text_put_out(events));
    }
}

proof fn lemma_completion_fields(stream: AnswerStreamView, text: Seq<char>, reason: JsonView)
    ensures
        ({
            let sent = stream.completion_piece(text, reason);
            &&& completion_text(Some(sent)) == text
            &&& choice_of(sent) is Some
            &&& field_of(choice_of(sent)->0, "finish_reason"@) == Some(reason)
            &&& field_of(sent, "id"@) == Some(
                JsonView::Text("cmpl-"@ + hyphenated(stream.workload_id)),
            )
            &&& field_of(sent, "model"@) == Some(JsonView::Text(stream.model))
        }),
{
    reveal_strlit("id");
    reveal_strlit("object");
    reveal_strlit("model");
    reveal_strlit("choices");
    reveal_strlit("text");
    reveal_strlit("index");
    reveal_strlit("finish_reason");
    assert("id"@.len() == 2);
    assert("object"@.len() == 6);
    assert("model"@.len() == 5);
    assert("choices"@.len() == 7);
    assert("text"@.len() == 4);
    assert("index"@.len() == 5);
    assert("finish_reason"@.len() == 13);
    let id = ("id"@, JsonView::Text("cmpl-"@ + hyphenated(stream.workload_id)));
    let object = ("object"@, JsonView::Text("text_completion"@));
    let model = ("model"@, JsonView::Text(stream.model));
    let a = ("text"@, JsonView::Text(text));
    let b = ("index"@, JsonView::Number(0));
    let c = ("finish_reason"@, reason);
    let choices = ("choices"@, array1(JsonView::Object(fields3(a, b, c))));
    lemma_fields3(a, b, c, "text"@);
    lemma_fields3(a, b, c, "finish_reason"@);
    lemma_fields4(id, object, model, choices, "choices"@);
    lemma_fields4(id, object, model, choices, "id"@);
    lemma_fields4(id, object, model, choices, "model"@);
}

/// The texts that a client of the completion interface is sent, joined in order, are what the runtime put
/// out; each piece is sent as it is, and the last one names the reason to stop.
pub proof fn law_a_completion_adds_up(
    stream: AnswerStreamView,
    events: Seq<RuntimeEventView>,
    event: RuntimeEventView,
)
    ensures
        completion_told(stream, events) == text_put_out(events),
        event matches RuntimeEventView::TextDelta(delta) ==> stream.completion_chunk(event) is Some
            && completion_text(stream.completion_chunk(event)) == delta,
        event matches RuntimeEventView::Finished { finish_reason, .. } ==> {
            let sent = stream.completion_chunk(event);
            &&& sent is Some && choice_of(sent->0) is Some
            &&& field_of(choice_of(sent->0)->0, "finish_reason"@) == Some(
                JsonView::Text(finish_reason),
            )
        },
    decreases events.len(),
{
    lemma_one_completion(stream, event);
    if events.len() > 0 {
        let before = events.drop_last();
        law_a_completion_adds_up(stream, before, event);
        lemma_one_completion(after_all(stream, before), events.last());
        assert(completion_told(stream, events) =~= text_put_out(events));
    }
}

proof fn lemma_one_completion(stream: AnswerStreamView, event: RuntimeEventView)
    ensures
        match event {
            RuntimeEventView::TextDelta(delta) => stream.completion_chunk(event) is Some
                && completion_text(stream.completion_chunk(event)) == delta,
            RuntimeEventView::Finished { finish_reason, .. } => {
                let sent = stream.completion_chunk(event);
                &&& sent is Some && completion_text(sent).len() == 0
                &&& choice_of(sent->0) is Some
                &&& field_of(choice_of(sent->0)->0, "finish_reason"@) == Some(
                    JsonView::Text(finish_reason),
                )
            },
            _ => completion_text(stream.completion_chunk(event)).len() == 0,
        },
{
    match event {
        RuntimeEventView::TextDelta(delta) => {
            lemma_completion_fields(stream, delta, JsonView::Null);
        },
        RuntimeEventView::Finished { finish_reason, .. } => {
            reveal_strlit("");
            assert(""@.len() == 0);
            lemma_completion_fields(stream, ""@, JsonView::Text(finish_reason));
        },
        RuntimeEventView::Failure { code, message, retryable, output_started } => {
            law_a_failure_is_told_as_it_is(code, message, retryable, output_started);
        },
        _ => {},
    }
}

/// All three interfaces tell their clients the same text of one answer, and each the whole of it.
pub proof fn law_all_interfaces_tell_the_same(
    stream: AnswerStreamView,
    events: Seq<RuntimeEventView>,
    created: i64,
)
    requires
        stream.output.len() == 0,
    ensures
        response_told(stream, events) == chat_told(stream, events, created),
        response_told(stream, events) == completion_told(stream, events),
        response_told(stream, events) == after_all(stream, events).output,
{
    lemma_response_told(stream, events);
    law_a_chat_adds_up(stream, events, RuntimeEventView::Cancelled, created);
    law_a_completion_adds_up(stream, events, RuntimeEventView::Cancelled);
    assert(stream.output + text_put_out(events) =~= text_put_out(events));
}

proof fn lemma_usage(answer: Answer)
    ensures
        field_of(usage_note(answer), "prompt_tokens"@) == Some(
            JsonView::Number(answer.input_tokens as int),
        ),
        field_of(usage_note(answer), "completion_tokens"@) == Some(
            JsonView::Number(answer.output_tokens as int),
        ),
        field_of(usage_note(answer), "total_tokens"@) == Some(
            JsonView::Number(answer.input_tokens + answer.output_tokens),
        ),
{
    reveal_strlit("prompt_tokens");
    reveal_strlit("completion_tokens");
    reveal_strlit("total_tokens");
    assert("prompt_tokens"@.len() == 13);
    assert("completion_tokens"@.len() == 17);
    assert("total_tokens"@.len() == 12);
    let a = ("prompt_tokens"@, JsonView::Number(answer.input_tokens as int));
    let b = ("completion_tokens"@, JsonView::Number(answer.output_tokens as int));
    let c = ("total_tokens"@, JsonView::Number(answer.input_tokens + answer.output_tokens));
    lemma_fields3(a, b, c, "prompt_tokens"@);
    lemma_fields3(a, b, c, "completion_tokens"@);
    lemma_fields3(a, b, c, "total_tokens"@);
}

/// A whole answer is told to a client of the chat interface as it is: its text as the message of the
/// assistant, its reason to stop, its counts with their sum, and the plan behind it.
pub proof fn law_a_whole_chat_answer(
    workload_id: Uuid,
    created: i64,
    model: Seq<char>,
    answer: Answer,
    plan_id: Uuid,
    selected_nodes: Seq<Uuid>,
)
    ensures
        ({
            let told = chat_note(workload_id, created, model, answer, plan_id, selected_nodes);
            &&& choice_of(told) matches Some(choice) && field_below(choice, "message"@, "content"@)
                == Some(JsonView::Text(answer.text@)) && field_below(choice, "message"@, "role"@)
                == Some(JsonView::Text("assistant"@)) && field_of(choice, "finish_reason"@) == Some(
                JsonView::Text(answer.finish_reason@),
            )
            &&& field_below(told, "usage"@, "prompt_tokens"@) == Some(
                JsonView::Number(answer.input_tokens as int),
            )
            &&& field_below(told, "usage"@, "completion_tokens"@) == Some(
                JsonView::Number(answer.output_tokens as int),
            )
            &&& field_below(told, "usage"@, "total_tokens"@) == Some(
                JsonView::Number(answer.input_tokens + answer.output_tokens),
            )
            &&& field_of(told, "model"@) == Some(JsonView::Text(model))
            &&& field_of(told, "created"@) == Some(JsonView::Number(created as int))
            &&& field_of(told, "id"@) == Some(JsonView::Text("chatcmpl-"@ + hyphenated(workload_id)))
            &&& field_below(told, "constellation"@, "plan_id"@) == Some(id_json(plan_id))
            &&& field_below(told, "constellation"@, "selected_nodes"@) == Some(
                ids_json(selected_nodes),
            )
        }),
{
    lemma_usage(answer);
    reveal_strlit("id");
    reveal_strlit("object");
    reveal_strlit("created");
    reveal_strlit("model");
    reveal_strlit("choices");
    reveal_strlit("usage");
    reveal_strlit("constellation");
    reveal_strlit("index");
    reveal_strlit("message");
    reveal_strlit("finish_reason");
    reveal_strlit("role");
    reveal_strlit("content");
    reveal_strlit("plan_id");
    reveal_strlit("selected_nodes");
    assert("id"@.len() == 2);
    assert("object"@.len() == 6);
    assert("created"@.len() == 7);
    assert("model"@.len() == 5);
    assert("choices"@.len() == 7);
    assert("usage"@.len() == 5);
    assert("constellation"@.len() == 13);
    assert("index"@.len() == 5);
    assert("message"@.len() == 7);
    assert("finish_reason"@.len() == 13);
    assert("role"@.len() == 4);
    assert("content"@.len() == 7);
    assert("plan_id"@.len() == 7);
    assert("selected_nodes"@.len() == 14);
    assert("created"@[1] != "choices"@[1]);
    assert("model"@[0] != "usage"@[0]);
    assert("finish_reason"@[0] != "constellation"@[0]);
    let r = ("role"@, JsonView::Text("assistant"@));
    let t = ("content"@, JsonView::Text(answer.text@));
    lemma_fields2(r, t, "role"@);
    lemma_fields2(r, t, "content"@);
    let i = ("index"@, JsonView::Number(0));
    let m = ("message"@, JsonView::Object(fields2(r, t)));
    let f = ("finish_reason"@, JsonView::Text(answer.finish_reason@));
    lemma_fields3(i, m, f, "message"@);
    lemma_fields3(i, m, f, "finish_reason"@);
    let p = ("plan_id"@, id_json(plan_id));
    let n = ("selected_nodes"@, ids_json(selected_nodes));
    lemma_fields2(p, n, "plan_id"@);
    lemma_fields2(p, n, "selected_nodes"@);
    let a = ("id"@, JsonView::Text("chatcmpl-"@ + hyphenated(workload_id)));
    let b = ("object"@, JsonView::Text("chat.completion"@));
    let c = ("created"@, JsonView::Number(created as int));
    let d = ("model"@, JsonView::Text(model));
    let e = ("choices"@, array1(JsonView::Object(fields3(i, m, f))));
    let g = ("usage"@, usage_note(answer));
    let h = ("constellation"@, plan_note(plan_id, selected_nodes));
    lemma_fields7(a, b, c, d, e, g, h, "id"@);
    lemma_fields7(a, b, c, d, e, g, h, "created"@);
    lemma_fields7(a, b, c, d, e, g, h, "model"@);
    lemma_fields7(a, b, c, d, e, g, h, "choices"@);
    lemma_fields7(a, b, c, d, e, g, h, "usage"@);
    lemma_fields7(a, b, c, d, e, g, h, "constellation"@);
}

/// A whole answer is told to a client of the completion interface as it is, with its counts and their sum.
pub proof fn law_a_whole_completion_answer(
    workload_id: Uuid,
    created: i64,
    model: Seq<char>,
    answer: Answer,
    plan_id: Uuid,
)
    ensures
        ({
            let told = completion_note(workload_id, created, model, answer, plan_id);
            &&& choice_of(told) matches Some(choice) && field_of(choice, "text"@) == Some(
                JsonView::Text(answer.text@),
            ) && field_of(choice, "finish_reason"@) == Some(JsonView::Text(answer.finish_reason@))
            &&& field_below(told, "usage"@, "prompt_tokens"@) == Some(
                JsonView::Number(answer.input_tokens as int),
            )
            &&& field_below(told, "usage"@, "completion_tokens"@) == Some(
                JsonView::Number(answer.output_tokens as int),
            )
            &&& field_below(told, "usage"@, "total_tokens"@) == Some(
                JsonView::Number(answer.input_tokens + answer.output_tokens),
            )
            &&& field_of(told, "model"@) == Some(JsonView::Text(model))
            &&& field_of(told, "created"@) == Some(JsonView::Number(created as int))
            &&& field_of(told, "id"@) == Some(JsonView::Text("cmpl-"@ + hyphenated(workload_id)))
            &&& field_below(told, "constellation"@, "plan_id"@) == Some(id_json(plan_id))
        }),
{
    lemma_usage(answer);
    reveal_strlit("id");
    reveal_strlit("object");
    reveal_strlit("created");
    reveal_strlit("model");
    reveal_strlit("choices");
    reveal_strlit("usage");
    reveal_strlit("constellation");
    reveal_strlit("index");
    reveal_strlit("text");
    reveal_strlit("finish_reason");
    reveal_strlit("plan_id");
    assert("id"@.len() == 2);
    assert("object"@.len() == 6);
    assert("created"@.len() == 7);
    assert("model"@.len() == 5);
    assert("choices"@.len() == 7);
    assert("usage"@.len() == 5);
    assert("constellation"@.len() == 13);
    assert("index"@.len() == 5);
    assert("text"@.len() == 4);
    assert("finish_reason"@.len() == 13);
    assert("plan_id"@.len() == 7);
    assert("created"@[1] != "choices"@[1]);
    assert("model"@[0] != "usage"@[0]);
    assert("finish_reason"@[0] != "constellation"@[0]);
    let t = ("text"@, JsonView::Text(answer.text@));
    let i = ("index"@, JsonView::Number(0));
    let f = ("finish_reason"@, JsonView::Text(answer.finish_reason@));
    lemma_fields3(t, i, f, "text"@);
    lemma_fields3(t, i, f, "finish_reason"@);
    let p = ("plan_id"@, id_json(plan_id));
    lemma_fields1(p, "plan_id"@);
    let a = ("id"@, JsonView::Text("cmpl-"@ + hyphenated(workload_id)));
    let b = ("object"@, JsonView::Text("text_completion"@));
    let c = ("created"@, JsonView::Number(created as int));
    let d = ("model"@, JsonView::Text(model));
    let e = ("choices"@, array1(JsonView::Object(fields3(t, i, f))));
    let g = ("usage"@, usage_note(answer));
    let h = ("constellation"@, JsonView::Object(fields1(p)));
    lemma_fields7(a, b, c, d, e, g, h, "id"@);
    lemma_fields7(a, b, c, d, e, g, h, "created"@);
    lemma_fields7(a, b, c, d, e, g, h, "model"@);
    lemma_fields7(a, b, c, d, e, g, h, "choices"@);
    lemma_fields7(a, b, c, d, e, g, h, "usage"@);
    lemma_fields7(a, b, c, d, e, g, h, "constellation"@);
}

/// A whole answer is told to a client of the responses interface as it is: its text as the only content of
/// the only message, its counts with their sum, and its plan.
pub proof fn law_a_whole_response(
    workload_id: Uuid,
    message_id: Uuid,
    created_at: i64,
    model: Seq<char>,
    answer: Answer,
    plan: Seq<u8>,
)
    ensures
        ({
            let told = response_note(workload_id, message_id, created_at, model, answer, plan);
            &&& field_of(told, "output"@) matches Some(output) && (only_item(output) matches Some(message)
                && (field_of(message, "content"@) matches Some(content) && (only_item(content) matches Some(
                part,
            ) && field_of(part, "text"@) == Some(JsonView::Text(answer.text@)))))
            &&& field_below(told, "usage"@, "input_tokens"@) == Some(
                JsonView::Number(answer.input_tokens as int),
            )
            &&& field_below(told, "usage"@, "output_tokens"@) == Some(
                JsonView::Number(answer.output_tokens as int),
            )
            &&& field_below(told, "usage"@, "total_tokens"@) == Some(
                JsonView::Number(answer.input_tokens + answer.output_tokens),
            )
            &&& field_of(told, "model"@) == Some(JsonView::Text(model))
            &&& field_of(told, "status"@) == Some(JsonView::Text("completed"@))
            &&& field_of(told, "created_at"@) == Some(JsonView::Number(created_at as int))
            &&& field_of(told, "id"@) == Some(JsonView::Text("resp_"@ + hyphenated(workload_id)))
            &&& field_below(told, "constellation"@, "plan"@) == Some(JsonView::Document(plan))
        }),
{
    reveal_strlit("id");
    reveal_strlit("object");
    reveal_strlit("created_at");
    reveal_strlit("status");
    reveal_strlit("model");
    reveal_strlit("output");
    reveal_strlit("usage");
    reveal_strlit("constellation");
    reveal_strlit("input_tokens");
    reveal_strlit("output_tokens");
    reveal_strlit("total_tokens");
    reveal_strlit("plan");
    reveal_strlit("type");
    reveal_strlit("role");
    reveal_strlit("content");
    reveal_strlit("text");
    reveal_strlit("annotations");
    assert("id"@.len() == 2);
    assert("object"@.len() == 6);
    assert("created_at"@.len() == 10);
    assert("status"@.len() == 6);
    assert("model"@.len() == 5);
    assert("output"@.len() == 6);
    assert("usage"@.len() == 5);
    assert("constellation"@.len() == 13);
    assert("input_tokens"@.len() == 12);
    assert("output_tokens"@.len() == 13);
    assert("total_tokens"@.len() == 12);
    assert("plan"@.len() == 4);
    assert("type"@.len() == 4);
    assert("role"@.len() == 4);
    assert("content"@.len() == 7);
    assert("text"@.len() == 4);
    assert("annotations"@.len() == 11);
    assert("model"@[0] != "usage"@[0]);
    assert("object"@[1] != "output"@[1]);
    assert("object"@[0] != "status"@[0]);
    assert("status"@[0] != "output"@[0]);
    assert("input_tokens"@[0] != "total_tokens"@[0]);
    assert("type"@[1] != "text"@[1]);
    let x = ("type"@, JsonView::Text("output_text"@));
    let y = ("text"@, JsonView::Text(answer.text@));
    let z = ("annotations"@, JsonView::Array(Seq::empty()));
    lemma_fields3(x, y, z, "text"@);
    let part = JsonView::Object(fields3(x, y, z));
    let m = ("id"@, JsonView::Text("msg_"@ + hyphenated(message_id)));
    let n = ("type"@, JsonView::Text("message"@));
    let o = ("role"@, JsonView::Text("assistant"@));
    let p = ("status"@, JsonView::Text("completed"@));
    let q = ("content"@, array1(part));
    lemma_fields5(m, n, o, p, q, "content"@);
    let i = ("input_tokens"@, JsonView::Number(answer.input_tokens as int));
    let j = ("output_tokens"@, JsonView::Number(answer.output_tokens as int));
    let k = ("total_tokens"@, JsonView::Number(answer.input_tokens + answer.output_tokens));
    lemma_fields3(i, j, k, "input_tokens"@);
    lemma_fields3(i, j, k, "output_tokens"@);
    lemma_fields3(i, j, k, "total_tokens"@);
    let u = ("plan"@, JsonView::Document(plan));
    lemma_fields1(u, "plan"@);
    let a = ("id"@, JsonView::Text("resp_"@ + hyphenated(workload_id)));
    let b = ("object"@, JsonView::Text("response"@));
    let c = ("created_at"@, JsonView::Number(created_at as int));
    let d = ("status"@, JsonView::Text("completed"@));
    let e = ("model"@, JsonView::Text(model));
    let f = ("output"@, array1(message_note(message_id, answer.text@)));
    let g = ("usage"@, JsonView::Object(fields3(i, j, k)));
    let h = ("constellation"@, JsonView::Object(fields1(u)));
    lemma_fields8(a, b, c, d, e, f, g, h, "id"@);
    lemma_fields8(a, b, c, d, e, f, g, h, "created_at"@);
    lemma_fields8(a, b, c, d, e, f, g, h, "status"@);
    lemma_fields8(a, b, c, d, e, f, g, h, "model"@);
    lemma_fields8(a, b, c, d, e, f, g, h, "output"@);
    lemma_fields8(a, b, c, d, e, f, g, h, "usage"@);
    lemma_fields8(a, b, c, d, e, f, g, h, "constellation"@);
}

} // verus!
