//! Requests for text: what they ask, and how the answer is put together.

use crate::api::{
    bad_request, generation_cancelled, generation_interrupted, not_found, ApiError, ErrorView,
};
use crate::cloud::{alias_parts, parse_model_alias};
use crate::cloud_stream::views;
use crate::digest::{sha256, sha256_of};
use crate::json::{field_views, item_views, Json, JsonView};
use crate::repository::WorkloadStatus;
use crate::runtime::{text_put_out, RuntimeEvent, RuntimeEventView};
use crate::text;
use crate::text::word_count;
use vstd::prelude::*;
use vstd::utf8::encode_utf8;

verus! {

// ------------------------------------------------------------------------------------------------
// The text of a JSON value

/// Where a field of that name first stands, or the number of fields.
pub open spec fn field_place(fields: Seq<(Seq<char>, JsonView)>, name: Seq<char>) -> int
    decreases fields.len(),
{
    if fields.len() == 0 || fields[0].0 == name {
        0
    } else {
        1 + field_place(fields.drop_first(), name)
    }
}

/// The value of a field.
pub open spec fn field(fields: Seq<(Seq<char>, JsonView)>, name: Seq<char>) -> Option<JsonView> {
    let i = field_place(fields, name);
    if 0 <= i < fields.len() {
        Some(fields[i].1)
    } else {
        None
    }
}

/// Lines, with a line feed between each two.
pub open spec fn lines(parts: Seq<Seq<char>>) -> Seq<char>
    decreases parts.len(),
{
    if parts.len() == 0 {
        Seq::empty()
    } else if parts.len() == 1 {
        parts[0]
    } else {
        lines(parts.drop_last()) + "\n"@ + parts.last()
    }
}

/// The text that an item of a list carries in a field of that name.
pub open spec fn text_field(item: JsonView) -> Option<Seq<char>> {
    match item {
        JsonView::Object(fields) => match field(fields, "text"@) {
            Some(JsonView::Text(text)) => Some(text),
            _ => None,
        },
        _ => None,
    }
}

/// The texts of the items that have one.
pub open spec fn item_texts(items: Seq<JsonView>) -> Seq<Seq<char>>
    decreases items,
{
    if items.len() == 0 {
        Seq::empty()
    } else {
        let before = item_texts(items.drop_last());
        let last = items[items.len() - 1];
        match text_field(last) {
            Some(text) => before.push(text),
            None => match value_text(last) {
                Some(text) => before.push(text),
                None => before,
            },
        }
    }
}

/// The text of a value: a string itself, the lines of a list, the content or the input of an object.
pub open spec fn value_text(value: JsonView) -> Option<Seq<char>>
    decreases value,
{
    match value {
        JsonView::Text(text) => Some(text),
        JsonView::Array(items) => {
            let parts = item_texts(items);
            if parts.len() == 0 {
                None
            } else {
                Some(lines(parts))
            }
        },
        JsonView::Object(fields) => {
            let content = field_place(fields, "content"@);
            let input = field_place(fields, "input"@);
            if 0 <= content < fields.len() {
                value_text(fields[content].1)
            } else if 0 <= input < fields.len() {
                value_text(fields[input].1)
            } else {
                None
            }
        },
        _ => None,
    }
}

/// What an optional text says.
pub open spec fn text_view(text: Option<String>) -> Option<Seq<char>> {
    match text {
        Some(t) => Some(t@),
        None => None,
    }
}

proof fn lemma_field_place(fields: Seq<(Seq<char>, JsonView)>, name: Seq<char>, i: int)
    requires
        0 <= i <= fields.len(),
        i < fields.len() ==> fields[i].0 == name,
        forall|j: int| 0 <= j < i ==> (#[trigger] fields[j]).0 != name,
    ensures
        field_place(fields, name) == i,
    decreases fields.len(),
{
    if i > 0 {
        let rest = fields.drop_first();
        assert(fields[0].0 != name);
        assert forall|j: int| 0 <= j < i - 1 implies (#[trigger] rest[j]).0 != name by {
            assert(rest[j] == fields[j + 1]);
        }
        if i < fields.len() {
            assert(rest[i - 1] == fields[i]);
        }
        lemma_field_place(rest, name, i - 1);
    }
}

/// Where a field of that name first stands, or the number of fields.
fn find_field(fields: &Vec<(String, Json)>, name: &str) -> (i: usize)
    ensures
        i == field_place(field_views(fields@), name@),
        i <= fields@.len(),
{
    let mut i: usize = 0;
    while i < fields.len() && !text::same(fields[i].0.as_str(), name)
        invariant
            i <= fields@.len(),
            forall|j: int| 0 <= j < i ==> (#[trigger] field_views(fields@)[j]).0 != name@,
        decreases fields@.len() - i,
    {
        i += 1;
    }
    proof {
        lemma_field_place(field_views(fields@), name@, i as int);
    }
    i
}

/// The value of a field of an object.
pub fn get<'a>(value: &'a Json, name: &str) -> (r: Option<&'a Json>)
    ensures
        match r {
            Some(found) => value@ matches JsonView::Object(fields) && field(fields, name@) == Some(
                found@,
            ),
            None => value@ matches JsonView::Object(fields) ==> field(fields, name@) is None,
        },
{
    match value {
        Json::Object(fields) => {
            assert(value@->Object_0 =~= field_views(fields@));
            let i = find_field(fields, name);
            if i < fields.len() {
                Some(&fields[i].1)
            } else {
                None
            }
        },
        _ => None,
    }
}

fn append_line(lines_so_far: String, first: bool, line: &str) -> (r: String)
    ensures
        r@ == (if first {
            line@
        } else {
            lines_so_far@ + "\n"@ + line@
        }),
{
    if first {
        text::owned(line)
    } else {
        text::join3(lines_so_far.as_str(), "\n", line)
    }
}

/// The text of a value.
pub fn value_to_text(value: &Json) -> (r: Option<String>)
    ensures
        text_view(r) == value_text(value@),
    decreases value,
{
    match value {
        Json::Text(text) => Some(text.clone()),
        Json::Array(items) => {
            assert(value@->Array_0 =~= item_views(items@));
            let ghost all = item_views(items@);
            let mut joined = String::new();
            let mut any = false;
            let mut i: usize = 0;
            let ghost mut parts: Seq<Seq<char>> = Seq::empty();
            assert(all.take(0) =~= Seq::empty());
            while i < items.len()
                invariant
                    i <= items@.len(),
                    *value == Json::Array(*items),
                    all == item_views(items@),
                    parts == item_texts(all.take(i as int)),
                    any == (parts.len() > 0),
                    joined@ == lines(parts),
                decreases items@.len() - i,
            {
                let item = &items[i];
                proof {
                    assert(all.take(i + 1).drop_last() =~= all.take(i as int));
                    assert(all.take(i + 1)[i as int] == item@);
                    assert(decreases_to!(value => value->Array_0));
                    assert(decreases_to!(items => items@));
                    assert(decreases_to!(items@ => items@[i as int]));
                }
                let own = match get(item, "text") {
                    Some(Json::Text(text)) => Some(text.clone()),
                    _ => None,
                };
                assert(text_view(own) == text_field(item@));
                let part = match own {
                    Some(text) => Some(text),
                    None => value_to_text(item),
                };
                if let Some(part) = part {
                    let ghost before = parts;
                    joined = append_line(joined, !any, part.as_str());
                    any = true;
                    proof {
                        parts = parts.push(part@);
                        assert(parts.drop_last() =~= before);
                    }
                }
                i += 1;
            }
            assert(all.take(i as int) =~= all);
            if any {
                Some(joined)
            } else {
                None
            }
        },
        Json::Object(fields) => {
            assert(value@->Object_0 =~= field_views(fields@));
            let content = find_field(fields, "content");
            let input = find_field(fields, "input");
            proof {
                assert(decreases_to!(fields => fields@));
                assert(forall|i: int|
                    0 <= i < fields@.len() ==> decreases_to!(fields@ => #[trigger] fields@[i]));
            }
            if content < fields.len() {
                assert(decreases_to!(fields@ => fields@[content as int]));
                value_to_text(&fields[content].1)
            } else if input < fields.len() {
                assert(decreases_to!(fields@ => fields@[input as int]));
                value_to_text(&fields[input].1)
            } else {
                None
            }
        },
        _ => None,
    }
}

// ------------------------------------------------------------------------------------------------
// What a request asks

/// A message of a chat.
pub struct ChatMessage {
    pub role: String,
    pub content: Json,
}

/// The texts of the messages that are not the assistant's own.
pub open spec fn message_texts(messages: Seq<ChatMessage>) -> Seq<Seq<char>>
    decreases messages.len(),
{
    if messages.len() == 0 {
        Seq::empty()
    } else {
        let before = message_texts(messages.drop_last());
        let last = messages.last();
        if last.role@ == "assistant"@ {
            before
        } else {
            match value_text(last.content@) {
                Some(text) => before.push(text),
                None => before,
            }
        }
    }
}

/// What a chat asks: the texts of its messages, but not the assistant's own, line by line.
pub fn chat_input(messages: &[ChatMessage]) -> (input: String)
    ensures
        input@ == lines(message_texts(messages@)),
{
    let mut joined = String::new();
    let mut any = false;
    let ghost mut parts: Seq<Seq<char>> = Seq::empty();
    let mut i: usize = 0;
    assert(messages@.take(0) =~= Seq::empty());
    while i < messages.len()
        invariant
            i <= messages@.len(),
            parts == message_texts(messages@.take(i as int)),
            any == (parts.len() > 0),
            joined@ == lines(parts),
        decreases messages@.len() - i,
    {
        assert(messages@.take(i + 1).drop_last() =~= messages@.take(i as int));
        let message = &messages[i];
        if !text::same(message.role.as_str(), "assistant") {
            if let Some(part) = value_to_text(&message.content) {
                let ghost before = parts;
                joined = append_line(joined, !any, part.as_str());
                any = true;
                proof {
                    parts = parts.push(part@);
                    assert(parts.drop_last() =~= before);
                }
            }
        }
        i += 1;
    }
    assert(messages@.take(i as int) =~= messages@);
    joined
}

/// What a prompt asks: its text, or else the prompt as it is written.
pub fn prompt_input(prompt: &Json, written: &str) -> (input: String)
    ensures
        input@ == match value_text(prompt@) {
            Some(text) => text,
            None => written@,
        },
{
    match value_to_text(prompt) {
        Some(text) => text,
        None => text::owned(written),
    }
}

/// How many tokens the answer may have: 256 where nothing is said, and from 1 to 4096.
pub open spec fn output_limit(asked: Option<u32>) -> u32 {
    match asked {
        Some(n) => if n < 1 {
            1
        } else if n > 4_096 {
            4_096
        } else {
            n
        },
        None => 256,
    }
}

/// How many tokens the answer may have; the first number counts where it is given.
pub fn max_output_tokens(preferred: Option<u32>, otherwise: Option<u32>) -> (n: u32)
    ensures
        n == output_limit(
            match preferred {
                Some(p) => Some(p),
                None => otherwise,
            },
        ),
        1 <= n <= 4_096,
{
    let asked = match preferred {
        Some(p) => Some(p),
        None => otherwise,
    };
    match asked {
        Some(n) => if n < 1 {
            1
        } else if n > 4_096 {
            4_096
        } else {
            n
        },
        None => 256,
    }
}

/// Whether tools are asked for: the value is there, and neither null nor an empty list.
pub open spec fn asks_for_tools(tools: Option<JsonView>) -> bool {
    match tools {
        None => false,
        Some(JsonView::Null) => false,
        Some(JsonView::Array(items)) => items.len() > 0,
        Some(_) => true,
    }
}

/// Whether an answer of a given form is asked for.
pub open spec fn asks_for_structure(structured: Option<JsonView>) -> bool {
    match structured {
        None => false,
        Some(JsonView::Null) => false,
        Some(_) => true,
    }
}

/// What an optional value says.
pub open spec fn json_view(value: Option<&Json>) -> Option<JsonView> {
    match value {
        Some(v) => Some(v@),
        None => None,
    }
}

/// What carries a model out, as a client is told.
pub open spec fn carrier(model: Seq<char>) -> Seq<char> {
    if alias_parts(model) is Some {
        "the built-in cloud gateway"@
    } else {
        "the selected runtime"@
    }
}

/// Refuses tool calls and structured output, which no runtime here supports.
pub fn reject_unsupported(model: &str, tools: Option<&Json>, structured: Option<&Json>) -> (r: Result<
    (),
    ApiError,
>)
    ensures
        match r {
            Ok(()) => !asks_for_tools(json_view(tools)) && !asks_for_structure(
                json_view(structured),
            ),
            Err(error) => {
                &&& asks_for_tools(json_view(tools)) || asks_for_structure(json_view(structured))
                &&& error@ == bad_request(
                    "unsupported_feature"@,
                    carrier(model@) + if asks_for_tools(json_view(tools)) {
                        " does not support tool calling"@
                    } else {
                        " does not support structured output"@
                    },
                )
            },
        },
{
    let runtime = if parse_model_alias(model).is_some() {
        "the built-in cloud gateway"
    } else {
        "the selected runtime"
    };
    let with_tools = match tools {
        None => false,
        Some(Json::Null) => false,
        Some(Json::Array(items)) => items.len() > 0,
        Some(_) => true,
    };
    assert(with_tools == asks_for_tools(json_view(tools)));
    if with_tools {
        return Err(
            ApiError::bad_request(
                "unsupported_feature",
                text::join2(runtime, " does not support tool calling").as_str(),
            ),
        );
    }
    let with_structure = match structured {
        None => false,
        Some(Json::Null) => false,
        Some(_) => true,
    };
    assert(with_structure == asks_for_structure(json_view(structured)));
    if with_structure {
        return Err(
            ApiError::bad_request(
                "unsupported_feature",
                text::join2(runtime, " does not support structured output").as_str(),
            ),
        );
    }
    Ok(())
}

/// The texts of the items of a list that have one.
pub open spec fn plain_texts(items: Seq<JsonView>) -> Seq<Seq<char>>
    decreases items.len(),
{
    if items.len() == 0 {
        Seq::empty()
    } else {
        let before = plain_texts(items.drop_last());
        match value_text(items.last()) {
            Some(text) => before.push(text),
            None => before,
        }
    }
}

/// The texts to be embedded: those of a list, or that of a single value.
pub open spec fn embedded_texts(input: JsonView, written: Seq<char>) -> Seq<Seq<char>> {
    match input {
        JsonView::Array(items) => plain_texts(items),
        _ => Seq::empty().push(
            match value_text(input) {
                Some(text) => text,
                None => written,
            },
        ),
    }
}

/// The texts to be embedded; `written` is the value as it is written.
pub fn embedding_inputs(input: &Json, written: &str) -> (texts: Vec<String>)
    ensures
        views(texts@) == embedded_texts(input@, written@),
{
    let mut texts: Vec<String> = Vec::new();
    assert(views(texts@) =~= Seq::empty());
    match input {
        Json::Array(items) => {
            assert(input@->Array_0 =~= item_views(items@));
            let ghost all = item_views(items@);
            assert(all.take(0) =~= Seq::empty());
            let mut i: usize = 0;
            while i < items.len()
                invariant
                    i <= items@.len(),
                    all == item_views(items@),
                    views(texts@) == plain_texts(all.take(i as int)),
                decreases items@.len() - i,
            {
                assert(all.take(i + 1).drop_last() =~= all.take(i as int));
                assert(all.take(i + 1).last() == items@[i as int]@);
                if let Some(part) = value_to_text(&items[i]) {
                    let ghost before = texts@;
                    texts.push(part);
                    assert(views(texts@) =~= views(before).push(part@));
                }
                i += 1;
            }
            assert(all.take(i as int) =~= all);
        },
        _ => {
            let only = prompt_input(input, written);
            texts.push(only);
            assert(views(texts@) =~= Seq::empty().push(only@));
        },
    }
    texts
}

/// The words of texts, at most the greatest number of 32 bits.
pub open spec fn total_words(texts: Seq<Seq<char>>) -> int
    decreases texts.len(),
{
    if texts.len() == 0 {
        0
    } else {
        let sum = total_words(texts.drop_last()) + word_count(texts.last());
        if sum > u32::MAX {
            u32::MAX as int
        } else {
            sum
        }
    }
}

/// How many tokens texts to be embedded count for.
pub fn embedding_tokens(texts: &[String]) -> (n: u32)
    ensures
        n == total_words(views(texts@)),
{
    let mut n: u32 = 0;
    let mut i: usize = 0;
    assert(views(texts@).take(0) =~= Seq::empty());
    while i < texts.len()
        invariant
            i <= texts@.len(),
            n == total_words(views(texts@).take(i as int)),
        decreases texts@.len() - i,
    {
        assert(views(texts@).take(i + 1).drop_last() =~= views(texts@).take(i as int));
        let words: usize = text::count_words(texts[i].as_str());
        let words32: u32 = if words > 4_294_967_295usize {
            u32::MAX
        } else {
            words as u32
        };
        n = n.saturating_add(words32);
        i += 1;
    }
    assert(views(texts@).take(i as int) =~= views(texts@));
    n
}

/// The bytes from which the embedding of a text is made: each, divided by 255, is one coordinate.
pub fn embedding_bytes(input: &str) -> (bytes: Vec<u8>)
    ensures
        bytes@ == sha256(encode_utf8(input@)),
        bytes@.len() == 32,
{
    sha256_of(input.as_bytes())
}

/// What an embedding is made of: the digests of the texts, in their order, and the tokens that they
/// count for. Each byte of a digest, divided by 255, is one coordinate.
pub struct Embeddings {
    pub digests: Vec<Vec<u8>>,
    pub total_tokens: u32,
}

/// The digests of texts.
pub open spec fn text_digests(texts: Seq<Seq<char>>) -> Seq<Seq<u8>> {
    texts.map_values(|text: Seq<char>| sha256(encode_utf8(text)))
}

/// What digests hold.
pub open spec fn digest_views(digests: Seq<Vec<u8>>) -> Seq<Seq<u8>> {
    digests.map_values(|digest: Vec<u8>| digest@)
}

/// The model that makes embeddings.
pub const MOCK_MODEL: &'static str = "constellation/mock";

/// Makes embeddings of what is asked for, with the one model that can; `written` is the input as it is
/// written.
pub fn embeddings(model: &str, input: &Json, written: &str) -> (r: Result<Embeddings, ApiError>)
    ensures
        if model@ == MOCK_MODEL@ {
            let texts = embedded_texts(input@, written@);
            r is Ok && digest_views(r->Ok_0.digests@) == text_digests(texts) && r->Ok_0.total_tokens
                == total_words(texts)
        } else {
            r is Err && r->Err_0@ == not_found(
                "model_not_found"@,
                "requested embedding model is unavailable"@,
            )
        },
{
    if !text::same(model, MOCK_MODEL) {
        return Err(
            ApiError::not_found("model_not_found", "requested embedding model is unavailable"),
        );
    }
    let texts = embedding_inputs(input, written);
    let total_tokens: u32 = embedding_tokens(texts.as_slice());
    let mut digests: Vec<Vec<u8>> = Vec::new();
    let ghost all = views(texts@);
    let mut i: usize = 0;
    assert(digest_views(digests@) =~= text_digests(all.take(0)));
    while i < texts.len()
        invariant
            i <= texts@.len(),
            all == views(texts@),
            digest_views(digests@) == text_digests(all.take(i as int)),
        decreases texts@.len() - i,
    {
        let ghost before = digests@;
        let digest = embedding_bytes(texts[i].as_str());
        let ghost made = digest@;
        digests.push(digest);
        assert(digest_views(digests@) =~= digest_views(before).push(made));
        assert(all.take(i + 1) =~= all.take(i as int).push(texts@[i as int]@));
        assert(text_digests(all.take(i + 1)) =~= text_digests(all.take(i as int)).push(made));
        i += 1;
    }
    assert(all.take(i as int) =~= all);
    Ok(Embeddings { digests, total_tokens })
}

// ------------------------------------------------------------------------------------------------
// An answer as a whole

/// What has been collected of an answer.
pub struct Collector {
    text: String,
    input_tokens: u32,
    output_tokens: u32,
    finish_reason: String,
    failure: Option<bool>,
    completed: bool,
    cancelled: bool,
}

/// What has been collected of an answer, as values.
#[verifier::ext_equal]
pub struct Collected {
    pub text: Seq<char>,
    pub input_tokens: u32,
    pub output_tokens: u32,
    pub finish_reason: Seq<char>,
    /// Whether output had started when the answer failed.
    pub failure: Option<bool>,
    pub completed: bool,
    pub cancelled: bool,
}

impl Collected {
    /// Nothing yet.
    pub open spec fn nothing() -> Collected {
        Collected {
            text: Seq::empty(),
            input_tokens: 0,
            output_tokens: 0,
            finish_reason: "stop"@,
            failure: None,
            completed: false,
            cancelled: false,
        }
    }

    /// With one more event.
    pub open spec fn with(self, event: RuntimeEventView) -> Collected {
        match event {
            RuntimeEventView::TextDelta(delta) => Collected { text: self.text + delta, ..self },
            RuntimeEventView::Finished { input_tokens, output_tokens, finish_reason } => Collected {
                input_tokens,
                output_tokens,
                finish_reason,
                completed: true,
                ..self
            },
            RuntimeEventView::Cancelled => Collected { cancelled: true, ..self },
            RuntimeEventView::Failure { output_started, .. } => Collected {
                failure: Some(output_started),
                ..self
            },
            _ => self,
        }
    }

    /// How the workload ended.
    pub open spec fn status(self) -> WorkloadStatus {
        if self.completed {
            WorkloadStatus::Completed
        } else if self.cancelled {
            WorkloadStatus::Cancelled
        } else {
            WorkloadStatus::Interrupted
        }
    }

    /// Why there is no answer, where there is none.
    pub open spec fn error(self) -> Option<ErrorView> {
        if self.cancelled {
            Some(generation_cancelled())
        } else if self.failure is Some || !self.completed {
            Some(
                generation_interrupted(
                    match self.failure {
                        Some(output_started) => output_started,
                        None => self.text.len() > 0,
                    },
                ),
            )
        } else {
            None
        }
    }
}

/// A complete answer.
pub struct Answer {
    pub text: String,
    pub input_tokens: u32,
    pub output_tokens: u32,
    pub finish_reason: String,
}

impl Collector {
    pub closed spec fn view(&self) -> Collected {
        Collected {
            text: self.text@,
            input_tokens: self.input_tokens,
            output_tokens: self.output_tokens,
            finish_reason: self.finish_reason@,
            failure: self.failure,
            completed: self.completed,
            cancelled: self.cancelled,
        }
    }

    /// Nothing collected yet.
    pub fn new() -> (r: Collector)
        ensures
            r@ == Collected::nothing(),
    {
        Collector {
            text: String::new(),
            input_tokens: 0,
            output_tokens: 0,
            finish_reason: text::owned("stop"),
            failure: None,
            completed: false,
            cancelled: false,
        }
    }

    /// Takes one more event.
    pub fn take(&mut self, event: RuntimeEvent)
        ensures
            final(self)@ == old(self)@.with(event@),
    {
        match event {
            RuntimeEvent::TextDelta(delta) => {
                self.text.append(delta.as_str());
            },
            RuntimeEvent::Finished { input_tokens, output_tokens, finish_reason } => {
                self.input_tokens = input_tokens;
                self.output_tokens = output_tokens;
                self.finish_reason = finish_reason;
                self.completed = true;
            },
            RuntimeEvent::Cancelled => {
                self.cancelled = true;
            },
            RuntimeEvent::Failure { output_started, .. } => {
                self.failure = Some(output_started);
            },
            RuntimeEvent::Loading { .. } => {},
            RuntimeEvent::Prefill { .. } => {},
        }
    }

    /// How the workload ended.
    pub fn status(&self) -> (status: WorkloadStatus)
        ensures
            status == self@.status(),
    {
        if self.completed {
            WorkloadStatus::Completed
        } else if self.cancelled {
            WorkloadStatus::Cancelled
        } else {
            WorkloadStatus::Interrupted
        }
    }

    /// The answer, or why there is none.
    pub fn finish(self) -> (r: Result<Answer, ApiError>)
        ensures
            match r {
                Ok(answer) => {
                    &&& self@.error() is None
                    &&& answer.text@ == self@.text
                    &&& answer.input_tokens == self@.input_tokens
                    &&& answer.output_tokens == self@.output_tokens
                    &&& answer.finish_reason@ == self@.finish_reason
                },
                Err(error) => self@.error() == Some(error@),
            },
    {
        if self.cancelled {
            return Err(ApiError::generation_cancelled());
        }
        if self.failure.is_some() || !self.completed {
            let partial = match self.failure {
                Some(output_started) => output_started,
                None => !self.text.as_str().is_empty(),
            };
            return Err(ApiError::generation_interrupted(partial));
        }
        Ok(
            Answer {
                text: self.text,
                input_tokens: self.input_tokens,
                output_tokens: self.output_tokens,
                finish_reason: self.finish_reason,
            },
        )
    }
}

/// All that events add up to.
pub open spec fn collect(events: Seq<RuntimeEventView>) -> Collected
    decreases events.len(),
{
    if events.len() == 0 {
        Collected::nothing()
    } else {
        collect(events.drop_last()).with(events.last())
    }
}

/// Without a terminal event there is no answer: the generation counts as interrupted.
pub proof fn law_no_answer_without_an_end(events: Seq<RuntimeEventView>)
    requires
        forall|i: int| 0 <= i < events.len() ==> !(#[trigger] events[i]).terminal(),
    ensures
        collect(events).status() == WorkloadStatus::Interrupted,
        collect(events).error() is Some,
        !collect(events).completed && !collect(events).cancelled && collect(events).failure is None,
    decreases events.len(),
{
    if events.len() > 0 {
        let before = events.drop_last();
        assert forall|i: int| 0 <= i < before.len() implies !(#[trigger] before[i]).terminal() by {
            assert(before[i] == events[i]);
        }
        law_no_answer_without_an_end(before);
        assert(!events[events.len() - 1].terminal());
    }
}

// ------------------------------------------------------------------------------------------------
// Laws

/// The text of a whole answer is what the runtime put out, piece after piece; its counts and its reason to
/// stop are those of the event that finished it.
pub proof fn law_an_answer_is_what_was_put_out(events: Seq<RuntimeEventView>)
    ensures
        collect(events).text == text_put_out(events),
        events.len() > 0 ==> (events.last() matches RuntimeEventView::Finished {
            input_tokens,
            output_tokens,
            finish_reason,
        } ==> {
            let answer = collect(events);
            &&& answer.completed
            &&& answer.input_tokens == input_tokens
            &&& answer.output_tokens == output_tokens
            &&& answer.finish_reason == finish_reason
        }),
    decreases events.len(),
{
    if events.len() > 0 {
        law_an_answer_is_what_was_put_out(events.drop_last());
        assert(collect(events).text =~= text_put_out(events));
    }
}

proof fn lemma_ends_collected(events: Seq<RuntimeEventView>)
    ensures
        collect(events).completed <==> exists|i: int|
            0 <= i < events.len() && (#[trigger] events[i]) is Finished,
        collect(events).cancelled <==> exists|i: int|
            0 <= i < events.len() && (#[trigger] events[i]) is Cancelled,
        collect(events).failure is Some <==> exists|i: int|
            0 <= i < events.len() && (#[trigger] events[i]) is Failure,
    decreases events.len(),
{
    if events.len() > 0 {
        let before = events.drop_last();
        lemma_ends_collected(before);
        assert(forall|i: int| 0 <= i < before.len() ==> before[i] == #[trigger] events[i]);
        assert(events.last() == events[events.len() - 1]);
    }
}

/// There is an answer just where the runtime said that it is finished, and neither failed nor was
/// cancelled. Where it failed, the client is told whether there was output before; where it broke off,
/// whether there was any text.
pub proof fn law_an_answer_is_owed_where_it_finished(events: Seq<RuntimeEventView>)
    ensures
        collect(events).error() is None <==> {
            &&& exists|i: int| 0 <= i < events.len() && (#[trigger] events[i]) is Finished
            &&& forall|i: int|
                0 <= i < events.len() ==> !((#[trigger] events[i]) is Cancelled) && !(
                events[i] is Failure)
        },
        (forall|i: int| 0 <= i < events.len() ==> !(#[trigger] events[i]).terminal())
            ==> collect(events).error() == Some(
            generation_interrupted(text_put_out(events).len() > 0),
        ),
        events.len() > 0 ==> (events.last() matches RuntimeEventView::Failure { output_started, .. }
            ==> (forall|i: int| 0 <= i < events.len() ==> !((#[trigger] events[i]) is Cancelled))
            ==> collect(events).error() == Some(generation_interrupted(output_started))),
{
    lemma_ends_collected(events);
    law_an_answer_is_what_was_put_out(events);
    if forall|i: int| 0 <= i < events.len() ==> !(#[trigger] events[i]).terminal() {
        law_no_answer_without_an_end(events);
    }
}

/// The messages of a chat are asked in their order: the texts of two chats in a row are those of the first
/// and then those of the second, so no message takes the place of another.
pub proof fn law_messages_are_asked_in_order(a: Seq<ChatMessage>, b: Seq<ChatMessage>)
    ensures
        message_texts(a + b) == message_texts(a) + message_texts(b),
    decreases b.len(),
{
    if b.len() == 0 {
        assert(a + b =~= a);
        assert(message_texts(a) + message_texts(b) =~= message_texts(a));
    } else {
        law_messages_are_asked_in_order(a, b.drop_last());
        assert((a + b).drop_last() =~= a + b.drop_last());
        assert((a + b).last() == b.last());
        assert(message_texts(a + b) =~= message_texts(a) + message_texts(b));
    }
}

/// A message with a text is asked as it is, whoever but the assistant says it; what the assistant said is
/// not asked again.
pub proof fn law_a_message_is_asked_as_it_is(message: ChatMessage, text: Seq<char>)
    requires
        message.content@ == JsonView::Text(text),
    ensures
        message.role@ != "assistant"@ ==> lines(message_texts(seq![message])) == text,
        message.role@ == "assistant"@ ==> message_texts(seq![message]).len() == 0,
{
    let one = seq![message];
    assert(one.drop_last() =~= Seq::<ChatMessage>::empty());
    assert(message_texts(one.drop_last()) =~= Seq::<Seq<char>>::empty());
    assert(one.last() == message);
    if message.role@ != "assistant"@ {
        assert(message_texts(one) =~= seq![text]);
    }
}

/// Texts that are asked together stand in lines of their own: those of two lists in a row are the lines of
/// the first, a line feed, and the lines of the second.
pub proof fn law_lines_stand_apart(a: Seq<Seq<char>>, b: Seq<Seq<char>>)
    requires
        a.len() > 0,
        b.len() > 0,
    ensures
        lines(a + b) == lines(a) + "\n"@ + lines(b),
    decreases b.len(),
{
    let before = b.drop_last();
    assert((a + b).drop_last() =~= a + before);
    assert((a + b).last() == b.last());
    if b.len() == 1 {
        assert(a + before =~= a);
    } else {
        law_lines_stand_apart(a, before);
        assert(lines(a) + "\n"@ + lines(before) + "\n"@ + b.last() =~= lines(a) + "\n"@ + (lines(
            before,
        ) + "\n"@ + b.last()));
    }
}

/// A bound on the tokens of an answer that lies between 1 and 4096 is kept as it was asked for; any other is
/// moved to the nearest of these; and where none is asked for it is 256.
pub proof fn law_bounds_are_kept(asked: u32)
    ensures
        1 <= asked <= 4_096 ==> output_limit(Some(asked)) == asked,
        asked == 0 ==> output_limit(Some(asked)) == 1,
        asked > 4_096 ==> output_limit(Some(asked)) == 4_096,
        output_limit(None) == 256,
{
}

/// The sum of the words of texts.
pub open spec fn sum_of_words(texts: Seq<Seq<char>>) -> nat
    decreases texts.len(),
{
    if texts.len() == 0 {
        0
    } else {
        word_count(texts[0]) + sum_of_words(texts.drop_first())
    }
}

proof fn lemma_sum_from_the_back(texts: Seq<Seq<char>>)
    requires
        texts.len() > 0,
    ensures
        sum_of_words(texts) == sum_of_words(texts.drop_last()) + word_count(texts.last()),
    decreases texts.len(),
{
    if texts.len() > 1 {
        lemma_sum_from_the_back(texts.drop_first());
        assert(texts.drop_first().drop_last() =~= texts.drop_last().drop_first());
        assert(texts.drop_last()[0] == texts[0]);
        assert(texts.drop_first().last() == texts.last());
    } else {
        assert(texts.drop_first() =~= Seq::<Seq<char>>::empty());
        assert(texts.drop_last() =~= Seq::<Seq<char>>::empty());
        assert(sum_of_words(texts.drop_first()) == 0);
        assert(sum_of_words(texts.drop_last()) == 0);
    }
}

/// What texts to be embedded count for is the sum of their words, as far as 32 bits hold it.
pub proof fn law_embedded_words_add_up(texts: Seq<Seq<char>>)
    ensures
        sum_of_words(texts) <= u32::MAX ==> total_words(texts) == sum_of_words(texts),
        sum_of_words(texts) > u32::MAX ==> total_words(texts) == u32::MAX,
    decreases texts.len(),
{
    if texts.len() > 0 {
        law_embedded_words_add_up(texts.drop_last());
        lemma_sum_from_the_back(texts);
    }
}

/// Each text that is to be embedded is embedded by itself: there are as many embeddings as texts, in their
/// order, and equal texts have equal ones, whatever stands around them.
pub proof fn law_texts_are_embedded_apart(a: Seq<Seq<char>>, b: Seq<Seq<char>>)
    ensures
        text_digests(a).len() == a.len(),
        text_digests(a + b) == text_digests(a) + text_digests(b),
        forall|i: int, j: int|
            0 <= i < a.len() && 0 <= j < b.len() && a[i] == b[j] ==> #[trigger] text_digests(a)[i]
                == #[trigger] text_digests(b)[j],
{
    assert(text_digests(a + b) =~= text_digests(a) + text_digests(b));
}

/// A list of texts to be embedded is taken as it is, text for text.
pub proof fn law_listed_texts_are_all_embedded(texts: Seq<Seq<char>>, written: Seq<char>)
    ensures
        embedded_texts(
            JsonView::Array(texts.map_values(|text: Seq<char>| JsonView::Text(text))),
            written,
        ) == texts,
    decreases texts.len(),
{
    let items = texts.map_values(|text: Seq<char>| JsonView::Text(text));
    if texts.len() > 0 {
        let before = texts.drop_last();
        law_listed_texts_are_all_embedded(before, written);
        assert(items.drop_last() =~= before.map_values(|text: Seq<char>| JsonView::Text(text)));
        assert(items.last() == JsonView::Text(texts.last()));
        assert(before.push(texts.last()) =~= texts);
    } else {
        assert(items =~= Seq::<JsonView>::empty());
        assert(plain_texts(items) =~= texts);
    }
}

/// Tools and structured answers are asked for by any value but none, null and, for tools, an empty list.
pub proof fn law_what_asks_for_more(value: JsonView)
    ensures
        !(value is Null) && !(value is Array) ==> asks_for_tools(Some(value)) && asks_for_structure(
            Some(value),
        ),
        asks_for_tools(Some(value)) ==> asks_for_structure(Some(value)),
        value matches JsonView::Array(items) ==> (asks_for_tools(Some(value)) <==> items.len() > 0),
        !asks_for_tools(None) && !asks_for_structure(None),
        !asks_for_tools(Some(JsonView::Null)) && !asks_for_structure(Some(JsonView::Null)),
{
}

/// The texts of a list are read in their order, each once: those of two lists in a row are those of the first
/// and then those of the second.
pub proof fn law_items_are_read_in_order(a: Seq<JsonView>, b: Seq<JsonView>)
    ensures
        item_texts(a + b) == item_texts(a) + item_texts(b),
    decreases b.len(),
{
    if b.len() == 0 {
        assert(a + b =~= a);
        assert(item_texts(a) + item_texts(b) =~= item_texts(a));
    } else {
        law_items_are_read_in_order(a, b.drop_last());
        assert((a + b).drop_last() =~= a + b.drop_last());
        assert((a + b)[(a + b).len() - 1] == b[b.len() - 1]);
        assert(item_texts(a + b) =~= item_texts(a) + item_texts(b));
    }
}

/// A text is read as it is, by itself, in a list, and as the content or the input of an object; the content
/// comes before the input.
pub proof fn law_a_text_is_read_as_it_is(text: Seq<char>, other: JsonView)
    ensures
        value_text(JsonView::Text(text)) == Some(text),
        item_texts(seq![JsonView::Text(text)]) == seq![text],
        value_text(JsonView::Array(seq![JsonView::Text(text)])) == Some(text),
        value_text(JsonView::Array(Seq::empty())) is None,
        value_text(JsonView::Object(seq![("content"@, JsonView::Text(text))])) == Some(text),
        value_text(JsonView::Object(seq![("input"@, JsonView::Text(text))])) == Some(text),
        value_text(
            JsonView::Object(seq![("input"@, other), ("content"@, JsonView::Text(text))]),
        ) == Some(text),
{
    let one = seq![JsonView::Text(text)];
    assert(one.drop_last() =~= Seq::<JsonView>::empty());
    reveal_with_fuel(item_texts, 2);
    reveal_with_fuel(value_text, 2);
    assert(item_texts(one) =~= seq![text]);
    reveal_with_fuel(lines, 2);
    assert(seq![text].drop_last() =~= Seq::<Seq<char>>::empty());
    assert(lines(seq![text]) =~= text);
    reveal_strlit("content");
    reveal_strlit("input");
    assert("content"@.len() == 7);
    assert("input"@.len() == 5);
    reveal_with_fuel(field_place, 3);
    let with_content = seq![("content"@, JsonView::Text(text))];
    let with_input = seq![("input"@, JsonView::Text(text))];
    let with_both = seq![("input"@, other), ("content"@, JsonView::Text(text))];
    assert(with_content.drop_last() =~= Seq::empty());
    assert(with_input.drop_last() =~= Seq::empty());
    assert(with_both.drop_last() =~= seq![("input"@, other)]);
}

} // verus!
