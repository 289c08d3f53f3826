//! A chat: the request, and the answer as it streams in.

use crate::api::auth::Method;
use crate::cli::{send, RequestView, Request};
use crate::cloud_stream::views;
use crate::json::{
    array1, fields2, fields4, is_json, json_document, json_text_at, single, text_at, Fields,
    JsonView,
};
use crate::text;
use crate::text::{line_list, replaced, str_views};
use vstd::prelude::*;
use vstd::utf8::encode_utf8;

verus! {

/// The most tokens that a chat asks for: at least one, and at most 4096.
pub open spec fn chat_tokens(max_tokens: u32) -> int {
    if max_tokens < 1 {
        1
    } else if max_tokens > 4_096 {
        4_096
    } else {
        max_tokens as int
    }
}

/// The request that starts a chat.
pub fn chat_request(model: &str, prompt: &str, max_tokens: u32) -> (r: Request)
    ensures
        r@ == (RequestView {
            method: Method::Post,
            path: "/v1/chat/completions"@,
            body: Some(
                JsonView::Object(
                    fields4(
                        ("model"@, JsonView::Text(model@)),
                        (
                            "messages"@,
                            array1(
                                JsonView::Object(
                                    fields2(
                                        ("role"@, JsonView::Text("user"@)),
                                        ("content"@, JsonView::Text(prompt@)),
                                    ),
                                ),
                            ),
                        ),
                        ("max_tokens"@, JsonView::Number(chat_tokens(max_tokens))),
                        ("stream"@, JsonView::Bool(true)),
                    ),
                ),
            ),
        }),
{
    let tokens: u32 = if max_tokens < 1 {
        1
    } else if max_tokens > 4_096 {
        4_096
    } else {
        max_tokens
    };
    let message = Fields::new().text("role", "user").text("content", prompt).object();
    let body = Fields::new().text("model", model).with("messages", single(message)).number(
        "max_tokens",
        tokens as i128,
    ).flag("stream", true).object();
    send(Method::Post, "/v1/chat/completions", body)
}

/// Why an answer ends early.
pub enum ChatEnd {
    /// An event is no JSON.
    Undecodable,
    /// The controller tells of an error.
    Failed(String),
}

/// Why an answer ends early, as values.
pub enum ChatEndView {
    Undecodable,
    Failed(Seq<char>),
}

impl ChatEnd {
    pub open spec fn view(&self) -> ChatEndView {
        match self {
            ChatEnd::Undecodable => ChatEndView::Undecodable,
            ChatEnd::Failed(message) => ChatEndView::Failed(message@),
        }
    }
}

/// What an optional end says.
pub open spec fn end_view(end: Option<ChatEnd>) -> Option<ChatEndView> {
    match end {
        Some(end) => Some(end@),
        None => None,
    }
}

/// The piece of text that a line brings, and whether the answer ends there. Only data counts, and the
/// mark of the end brings nothing.
pub open spec fn chat_line(line: Seq<char>) -> (Seq<Seq<char>>, Option<ChatEndView>) {
    if !"data: "@.is_prefix_of(line) {
        (Seq::empty(), None)
    } else {
        let data = line.skip("data: "@.len() as int);
        let document = encode_utf8(data);
        if data == "[DONE]"@ {
            (Seq::empty(), None)
        } else if !json_document(document) {
            (Seq::empty(), Some(ChatEndView::Undecodable))
        } else {
            (
                match json_text_at(document, "/choices/0/delta/content"@) {
                    Some(piece) => Seq::empty().push(piece),
                    None => Seq::empty(),
                },
                match json_text_at(document, "/error/message"@) {
                    Some(message) => Some(ChatEndView::Failed(message)),
                    None => None,
                },
            )
        }
    }
}

/// The pieces of text that lines bring, up to the one at which the answer ends.
pub open spec fn chat_lines(lines: Seq<Seq<char>>) -> (Seq<Seq<char>>, Option<ChatEndView>)
    decreases lines.len(),
{
    if lines.len() == 0 {
        (Seq::empty(), None)
    } else {
        let (pieces, end) = chat_line(lines[0]);
        if end is Some {
            (pieces, end)
        } else {
            let (more, end) = chat_lines(lines.skip(1));
            (pieces + more, end)
        }
    }
}

/// Where the first blank line begins, or the length where there is none.
pub open spec fn first_gap(s: Seq<char>) -> int
    decreases s.len(),
{
    if s.len() < 2 {
        s.len() as int
    } else if s[0] == '\n' && s[1] == '\n' {
        0
    } else {
        1 + first_gap(s.skip(1))
    }
}

/// What text that has come in brings: the pieces, what is left, and whether the answer ends.
pub open spec fn chat_frames(s: Seq<char>) -> (Seq<Seq<char>>, Seq<char>, Option<ChatEndView>)
    decreases s.len(),
    when true
    via chat_frames_shrink
{
    let gap = first_gap(s);
    if gap >= s.len() {
        (Seq::empty(), s, None)
    } else {
        let (pieces, end) = chat_lines(line_list(s.take(gap)));
        let rest = s.skip(gap + 2);
        if end is Some {
            (pieces, rest, end)
        } else {
            let (more, left, end) = chat_frames(rest);
            (pieces + more, left, end)
        }
    }
}

#[via_fn]
proof fn chat_frames_shrink(s: Seq<char>) {
    lemma_first_gap(s);
}

/// A blank line leaves room for itself, and nothing before it is one.
pub proof fn lemma_first_gap(s: Seq<char>)
    ensures
        0 <= first_gap(s) <= s.len(),
        first_gap(s) < s.len() ==> first_gap(s) + 2 <= s.len() && s[first_gap(s)] == '\n'
            && s[first_gap(s) + 1] == '\n',
        forall|i: int|
            0 <= i < first_gap(s) && i + 1 < s.len() ==> !(#[trigger] s[i] == '\n' && s[i + 1]
                == '\n'),
    decreases s.len(),
{
    if s.len() >= 2 && !(s[0] == '\n' && s[1] == '\n') {
        lemma_first_gap(s.skip(1));
        assert forall|i: int| 0 <= i < first_gap(s) && i + 1 < s.len() implies !(#[trigger] s[i]
            == '\n' && s[i + 1] == '\n') by {
            if i > 0 {
                assert(s.skip(1)[i - 1] == s[i]);
                assert(s.skip(1)[i] == s[i + 1]);
            }
        }
        if first_gap(s) < s.len() {
            let g = first_gap(s.skip(1));
            assert(s.skip(1).len() == s.len() - 1);
            assert(s.skip(1)[g] == s[g + 1]);
            assert(s.skip(1)[g + 1] == s[g + 2]);
        }
    }
}

/// The first blank line is the only place of its kind.
proof fn lemma_gap_is(s: Seq<char>, g: int)
    requires
        0 <= g,
        g + 1 < s.len(),
        s[g] == '\n' && s[g + 1] == '\n',
        forall|i: int| 0 <= i < g ==> !(#[trigger] s[i] == '\n' && s[i + 1] == '\n'),
    ensures
        first_gap(s) == g,
{
    lemma_first_gap(s);
    if first_gap(s) < g {
        assert(s[first_gap(s)] == '\n');
    }
    if first_gap(s) > g {
        assert(s[g] == '\n');
    }
}

/// Where the first blank line begins.
fn find_gap(buffer: &str) -> (r: Option<usize>)
    ensures
        match r {
            Some(gap) => gap == first_gap(buffer@) && gap + 2 <= buffer@.len(),
            None => first_gap(buffer@) >= buffer@.len(),
        },
{
    let chars = text::chars_of(buffer);
    let mut i: usize = 0;
    while chars.len() - i >= 2
        invariant
            chars@ == buffer@,
            i <= chars@.len(),
            forall|j: int|
                0 <= j < i && j + 1 < chars@.len() ==> !(#[trigger] chars@[j] == '\n' && chars@[j
                    + 1] == '\n'),
        decreases chars@.len() - i,
    {
        if chars[i] == '\n' && chars[i + 1] == '\n' {
            proof {
                lemma_gap_is(buffer@, i as int);
            }
            return Some(i);
        }
        i += 1;
    }
    proof {
        lemma_first_gap(buffer@);
        let g = first_gap(buffer@);
        if g < buffer@.len() {
            assert(chars@[g] == '\n');
        }
    }
    None
}

/// An answer that is streaming in.
pub struct ChatStream {
    pub buffer: String,
}

impl ChatStream {
    /// Nothing has come in yet.
    pub fn new() -> (r: ChatStream)
        ensures
            r.buffer@ == Seq::<char>::empty(),
    {
        ChatStream { buffer: String::new() }
    }

    /// Takes the text that has come in, and gives the pieces that it brings and whether the answer ends.
    pub fn stream_chat(&mut self, chunk: &str) -> (r: (Vec<String>, Option<ChatEnd>))
        ensures
            ({
                let all = replaced(old(self).buffer@ + chunk@, "\r\n"@, "\n"@);
                &&& views(r.0@) == chat_frames(all).0
                &&& final(self).buffer@ == chat_frames(all).1
                &&& end_view(r.1) == chat_frames(all).2
            }),
    {
        proof {
            reveal_strlit("\r\n");
        }
        let whole = text::join2(self.buffer.as_str(), chunk);
        let replaced_text = text::replace(whole.as_str(), "\r\n", "\n");
        let mut rest: &str = replaced_text.as_str();
        let ghost all = rest@;
        let mut pieces: Vec<String> = Vec::new();
        assert(views(pieces@) =~= Seq::empty());
        assert(views(pieces@) + chat_frames(rest@).0 =~= chat_frames(all).0);
        loop
            invariant
                views(pieces@) + chat_frames(rest@).0 == chat_frames(all).0,
                chat_frames(rest@).1 == chat_frames(all).1,
                chat_frames(rest@).2 == chat_frames(all).2,
                all == replaced(old(self).buffer@ + chunk@, "\r\n"@, "\n"@),
            decreases rest@.len(),
        {
            let gap: usize = match find_gap(rest) {
                Some(gap) => gap,
                None => {
                    assert(views(pieces@) + Seq::<Seq<char>>::empty() =~= views(pieces@));
                    self.buffer = text::owned(rest);
                    return (pieces, None);
                },
            };
            let len: usize = rest.unicode_len();
            let frame: &str = rest.substring_char(0, gap);
            let after: &str = rest.substring_char(gap + 2, len);
            assert(frame@ =~= rest@.take(gap as int));
            assert(after@ =~= rest@.skip(gap + 2));
            let ghost before = views(pieces@);
            let (mut found, end) = frame_pieces(frame);
            let ghost frame_views = views(found@);
            pieces.append(&mut found);
            assert(views(pieces@) =~= before + frame_views);
            if let Some(end) = end {
                assert(chat_frames(rest@).0 == frame_views);
                self.buffer = text::owned(after);
                return (pieces, Some(end));
            }
            assert(views(pieces@) + chat_frames(after@).0 =~= before + chat_frames(rest@).0);
            rest = after;
        }
    }
}

/// The pieces that a line brings, and whether the answer ends there.
fn line_pieces(line: &str) -> (r: (Vec<String>, Option<ChatEnd>))
    ensures
        views(r.0@) == chat_line(line@).0,
        end_view(r.1) == chat_line(line@).1,
{
    let mut pieces: Vec<String> = Vec::new();
    assert(views(pieces@) =~= Seq::empty());
    let data: &str = match text::strip_prefix(line, "data: ") {
        Some(data) => data,
        None => return (pieces, None),
    };
    if text::same(data, "[DONE]") {
        return (pieces, None);
    }
    let document = data.as_bytes();
    if !is_json(document) {
        return (pieces, Some(ChatEnd::Undecodable));
    }
    if let Some(piece) = text_at(document, "/choices/0/delta/content") {
        let ghost said = piece@;
        pieces.push(piece);
        assert(views(pieces@) =~= Seq::empty().push(said));
    }
    match text_at(document, "/error/message") {
        Some(message) => (pieces, Some(ChatEnd::Failed(message))),
        None => (pieces, None),
    }
}

/// The pieces that the lines of a frame bring.
fn frame_pieces(frame: &str) -> (r: (Vec<String>, Option<ChatEnd>))
    ensures
        views(r.0@) == chat_lines(line_list(frame@)).0,
        end_view(r.1) == chat_lines(line_list(frame@)).1,
{
    let lines = text::lines(frame);
    let ghost all = line_list(frame@);
    let mut pieces: Vec<String> = Vec::new();
    let mut i: usize = 0;
    proof {
        assert(all.skip(0) =~= all);
        assert(views(pieces@) + chat_lines(all).0 =~= chat_lines(all).0);
    }
    while i < lines.len()
        invariant
            i <= lines@.len(),
            all == line_list(frame@),
            str_views(lines@) == all,
            views(pieces@) + chat_lines(all.skip(i as int)).0 == chat_lines(all).0,
            chat_lines(all.skip(i as int)).1 == chat_lines(all).1,
        decreases lines@.len() - i,
    {
        let ghost before = views(pieces@);
        proof {
            assert(str_views(lines@)[i as int] == lines@[i as int]@);
            assert(all.skip(i as int)[0] == all[i as int]);
            assert(all.skip(i as int).skip(1) =~= all.skip(i + 1));
        }
        let (mut found, end) = line_pieces(lines[i]);
        let ghost line_views = views(found@);
        pieces.append(&mut found);
        assert(views(pieces@) =~= before + line_views);
        if let Some(end) = end {
            return (pieces, Some(end));
        }
        assert(views(pieces@) + chat_lines(all.skip(i + 1)).0 =~= before + chat_lines(
            all.skip(i as int),
        ).0);
        i += 1;
    }
    proof {
        assert(all.len() == lines@.len());
        assert(all.skip(i as int) =~= Seq::empty());
        assert(views(pieces@) + Seq::<Seq<char>>::empty() =~= views(pieces@));
    }
    (pieces, None)
}

// ------------------------------------------------------------------------------------------------
// Chunks

/// A blank line is found where it is, whatever follows.
proof fn lemma_gap_stays(a: Seq<char>, b: Seq<char>)
    requires
        first_gap(a) < a.len(),
    ensures
        first_gap(a + b) == first_gap(a),
{
    lemma_first_gap(a);
    let g = first_gap(a);
    let all = a + b;
    assert(all[g] == a[g] && all[g + 1] == a[g + 1]);
    assert forall|i: int| 0 <= i < g implies !(#[trigger] all[i] == '\n' && all[i + 1] == '\n') by {
        assert(all[i] == a[i] && all[i + 1] == a[i + 1]);
    }
    lemma_gap_is(all, g);
}

/// What is left of some text is its end, and stands at its start or behind a line feed.
proof fn lemma_rest_is_the_end(s: Seq<char>)
    ensures
        ({
            let left = chat_frames(s).1;
            &&& left.len() <= s.len()
            &&& left == s.skip(s.len() - left.len())
            &&& left.len() < s.len() ==> s[s.len() - left.len() - 1] == '\n'
        }),
    decreases s.len(),
{
    lemma_first_gap(s);
    let gap = first_gap(s);
    if gap >= s.len() {
        assert(s.skip(0) =~= s);
    } else {
        let rest = s.skip(gap + 2);
        if chat_lines(line_list(s.take(gap))).1 is None {
            lemma_rest_is_the_end(rest);
            let left = chat_frames(rest).1;
            assert(left =~= s.skip(s.len() - left.len()));
            if left.len() < rest.len() {
                assert(rest[rest.len() - left.len() - 1] == s[s.len() - left.len() - 1]);
            }
        }
    }
}

/// A carriage return at the end of some text stays in what is left, and changes nothing else.
proof fn lemma_trailing_return(s: Seq<char>)
    requires
        s.len() > 0,
        s.last() == '\r',
        chat_frames(s).2 is None,
    ensures
        ({
            let (pieces, left, end) = chat_frames(s);
            &&& left.len() > 0
            &&& left.last() == '\r'
            &&& chat_frames(s.drop_last()) == (pieces, left.drop_last(), end)
        }),
    decreases s.len(),
{
    lemma_first_gap(s);
    let gap = first_gap(s);
    let shorter = s.drop_last();
    if gap >= s.len() {
        lemma_first_gap(shorter);
        let other = first_gap(shorter);
        if other < shorter.len() {
            assert(shorter[other] == s[other] && shorter[other + 1] == s[other + 1]);
        }
    } else {
        assert(gap + 2 < s.len());
        assert(s =~= shorter + seq!['\r']);
        assert(shorter[gap] == s[gap] && shorter[gap + 1] == s[gap + 1]);
        assert forall|i: int| 0 <= i < gap implies !(#[trigger] shorter[i] == '\n' && shorter[i + 1]
            == '\n') by {
            assert(shorter[i] == s[i] && shorter[i + 1] == s[i + 1]);
        }
        lemma_gap_is(shorter, gap);
        assert(shorter.take(gap) =~= s.take(gap));
        let rest = s.skip(gap + 2);
        assert(rest.drop_last() =~= shorter.skip(gap + 2));
        assert(rest.last() == s.last());
        lemma_trailing_return(rest);
    }
}

/// Text may come in at once or in two parts.
proof fn lemma_parts(a: Seq<char>, b: Seq<char>)
    requires
        chat_frames(a).2 is None,
    ensures
        chat_frames(a + b).0 == chat_frames(a).0 + chat_frames(chat_frames(a).1 + b).0,
        chat_frames(a + b).1 == chat_frames(chat_frames(a).1 + b).1,
        chat_frames(a + b).2 == chat_frames(chat_frames(a).1 + b).2,
    decreases a.len(),
{
    lemma_first_gap(a);
    let gap = first_gap(a);
    if gap >= a.len() {
        assert(chat_frames(a).0 + chat_frames(a + b).0 =~= chat_frames(a + b).0);
    } else {
        lemma_gap_stays(a, b);
        let rest = a.skip(gap + 2);
        assert((a + b).take(gap) =~= a.take(gap));
        assert((a + b).skip(gap + 2) =~= rest + b);
        lemma_parts(rest, b);
        let pieces = chat_lines(line_list(a.take(gap))).0;
        assert(pieces + (chat_frames(rest).0 + chat_frames(chat_frames(rest).1 + b).0) =~= (pieces
            + chat_frames(rest).0) + chat_frames(chat_frames(rest).1 + b).0);
    }
}

/// Some text with line feeds alone at the ends of its lines.
spec fn unix_lines(s: Seq<char>) -> Seq<char> {
    replaced(s, "\r\n"@, "\n"@)
}

/// Whether a line feed follows the carriage return that some text ends with.
spec fn meet(x: Seq<char>, y: Seq<char>) -> bool {
    x.len() > 0 && x.last() == '\r' && y.len() > 0 && y[0] == '\n'
}

/// One step of the replacement.
proof fn lemma_unix_step(s: Seq<char>)
    requires
        s.len() > 0,
    ensures
        unix_lines(s) == (if s.len() >= 2 && s[0] == '\r' && s[1] == '\n' {
            seq!['\n'] + unix_lines(s.skip(2))
        } else {
            seq![s[0]] + unix_lines(s.skip(1))
        }),
{
    reveal_strlit("\r\n");
    reveal_strlit("\n");
    assert("\n"@ =~= seq!['\n']);
    if "\r\n"@.is_prefix_of(s) {
        assert(s.subrange(0, 2)[0] == s[0] && s.subrange(0, 2)[1] == s[1]);
    }
    if s.len() >= 2 && s[0] == '\r' && s[1] == '\n' {
        assert(s.subrange(0, 2) =~= "\r\n"@);
    }
}

/// The lines of text in two parts end with line feeds alone where those of each part do, but for a
/// carriage return at the end of the first part that a line feed follows in the second.
proof fn lemma_unix_sum(x: Seq<char>, y: Seq<char>)
    ensures
        unix_lines(x).len() > 0 <==> x.len() > 0,
        x.len() > 0 ==> unix_lines(x).last() == x.last(),
        unix_lines(x + y) == (if meet(x, y) {
            unix_lines(x).drop_last() + unix_lines(y)
        } else {
            unix_lines(x) + unix_lines(y)
        }),
    decreases x.len(),
{
    if x.len() == 0 {
        assert(x + y =~= y);
        assert(unix_lines(x) + unix_lines(y) =~= unix_lines(y));
    } else {
        lemma_unix_step(x);
        lemma_unix_step(x + y);
        if x.len() >= 2 && x[0] == '\r' && x[1] == '\n' {
            let rest = x.skip(2);
            assert((x + y)[0] == x[0] && (x + y)[1] == x[1]);
            lemma_unix_sum(rest, y);
            assert((x + y).skip(2) =~= rest + y);
            lemma_prefixed(seq!['\n'], unix_lines(rest), unix_lines(y));
            if rest.len() > 0 {
                assert(rest.last() == x.last());
            } else {
                assert(x.last() == '\n');
            }
        } else {
            let rest = x.skip(1);
            assert((x + y)[0] == x[0]);
            lemma_unix_sum(rest, y);
            assert((x + y).skip(1) =~= rest + y);
            lemma_prefixed(seq![x[0]], unix_lines(rest), unix_lines(y));
            if rest.len() > 0 {
                assert((x + y)[1] == x[1]);
                assert(rest.last() == x.last());
            } else {
                assert(rest + y =~= y);
                assert(unix_lines(x) =~= seq![x[0]]);
                if meet(x, y) {
                    assert((x + y)[1] == y[0]);
                    lemma_unix_step(y);
                    assert((x + y).skip(2) =~= y.skip(1));
                    assert(unix_lines(x).drop_last() + unix_lines(y) =~= unix_lines(y));
                } else if y.len() > 0 {
                    assert((x + y)[1] == y[0]);
                }
            }
        }
    }
}

proof fn lemma_prefixed(first: Seq<char>, x: Seq<char>, y: Seq<char>)
    ensures
        first + (x + y) == (first + x) + y,
        x.len() > 0 ==> (first + x).last() == x.last() && (first + x).drop_last() == first
            + x.drop_last() && first + (x.drop_last() + y) == (first + x).drop_last() + y,
{
    assert(first + (x + y) =~= (first + x) + y);
    if x.len() > 0 {
        assert((first + x).drop_last() =~= first + x.drop_last());
        assert(first + (x.drop_last() + y) =~= (first + x).drop_last() + y);
    }
}

/// Text may come in at once or in two parts: the pieces are the same, and so is what is left, as long
/// as the answer does not end in the first part, and the first part leaves no carriage return directly
/// before a line feed, as a doubled one does.
pub proof fn law_chunks_do_not_matter(buffer: Seq<char>, a: Seq<char>, b: Seq<char>)
    requires
        chat_frames(replaced(buffer + a, "\r\n"@, "\n"@)).2 is None,
        !text::occurs_in(chat_frames(replaced(buffer + a, "\r\n"@, "\n"@)).1, "\r\n"@),
    ensures
        ({
            let first = chat_frames(replaced(buffer + a, "\r\n"@, "\n"@));
            let second = chat_frames(replaced(first.1 + b, "\r\n"@, "\n"@));
            let whole = chat_frames(replaced(buffer + (a + b), "\r\n"@, "\n"@));
            &&& whole.0 == first.0 + second.0
            &&& whole.1 == second.1
            &&& whole.2 == second.2
        }),
{
    let one = buffer + a;
    assert(buffer + (a + b) =~= one + b);
    let read = unix_lines(one);
    let left = chat_frames(read).1;
    lemma_unix_sum(one, b);
    lemma_unix_sum(left, b);
    text::lemma_nothing_replaced(left, "\r\n"@, "\n"@);
    lemma_rest_is_the_end(read);
    if meet(one, b) {
        lemma_trailing_return(read);
        lemma_parts(read.drop_last(), unix_lines(b));
    } else {
        if left.len() > 0 {
            assert(left.last() == read.last());
        }
        lemma_parts(read, unix_lines(b));
    }
}

// ------------------------------------------------------------------------------------------------
// What a chat comes to

/// A document of a chat that is sent as one event: on one line, with no error and not the last mark.
pub open spec fn plain_event(document: Seq<char>) -> bool {
    &&& !document.contains('\n')
    &&& document.len() > 0 ==> document.last() != '\r'
    &&& document != "[DONE]"@
    &&& json_document(encode_utf8(document))
    &&& json_text_at(encode_utf8(document), "/error/message"@) is None
}

/// The documents of a chat as they are sent, each with a blank line behind it.
pub open spec fn sent_events(documents: Seq<Seq<char>>) -> Seq<char>
    decreases documents.len(),
{
    if documents.len() == 0 {
        Seq::empty()
    } else {
        "data: "@ + documents[0] + seq!['\n', '\n'] + sent_events(documents.skip(1))
    }
}

/// The texts that the documents of a chat hold, in their order.
pub open spec fn texts_in(documents: Seq<Seq<char>>) -> Seq<Seq<char>>
    decreases documents.len(),
{
    if documents.len() == 0 {
        Seq::empty()
    } else {
        (match json_text_at(encode_utf8(documents[0]), "/choices/0/delta/content"@) {
            Some(text) => seq![text],
            None => Seq::empty(),
        }) + texts_in(documents.skip(1))
    }
}

/// A frame of one line is read by itself, and what follows it is read as it would be alone.
proof fn lemma_one_frame(line: Seq<char>, rest: Seq<char>)
    requires
        line.len() > 0,
        !line.contains('\n'),
        line.last() != '\r',
    ensures
        ({
            let (pieces, end) = chat_line(line);
            let (more, left, later) = chat_frames(rest);
            chat_frames(line + seq!['\n', '\n'] + rest) == if end is Some {
                (pieces, rest, end)
            } else {
                (pieces + more, left, later)
            }
        }),
{
    let s = line + seq!['\n', '\n'] + rest;
    let n = line.len() as int;
    assert forall|i: int| 0 <= i < n implies !(#[trigger] s[i] == '\n' && s[i + 1] == '\n') by {
        assert(line.contains(line[i]));
    }
    lemma_gap_is(s, n);
    assert(s.take(n) =~= line);
    assert(s.skip(n + 2) =~= rest);
    text::law_lines_read_back(line, Seq::empty());
    let (pieces, end) = chat_line(line);
    assert(seq![line].skip(1) =~= Seq::<Seq<char>>::empty());
    assert(chat_lines(Seq::<Seq<char>>::empty()) == (Seq::<Seq<char>>::empty(), None::<ChatEndView>));
    assert(pieces + Seq::<Seq<char>>::empty() =~= pieces);
    assert(chat_lines(seq![line]) == (pieces, end));
}

/// Of a chat that runs well every text is shown, each once and in its order, and nothing is left over.
pub proof fn law_a_chat_is_shown_whole(documents: Seq<Seq<char>>)
    requires
        forall|i: int| 0 <= i < documents.len() ==> plain_event(#[trigger] documents[i]),
    ensures
        chat_frames(sent_events(documents)) == (
            texts_in(documents),
            Seq::<char>::empty(),
            None::<ChatEndView>,
        ),
    decreases documents.len(),
{
    if documents.len() == 0 {
        lemma_first_gap(Seq::<char>::empty());
    } else {
        let rest = documents.skip(1);
        assert forall|i: int| 0 <= i < rest.len() implies plain_event(#[trigger] rest[i]) by {
            assert(rest[i] == documents[i + 1]);
        }
        law_a_chat_is_shown_whole(rest);
        let document = documents[0];
        let line = "data: "@ + document;
        reveal_strlit("data: ");
        assert(!line.contains('\n')) by {
            if line.contains('\n') {
                let i = choose|i: int| 0 <= i < line.len() && line[i] == '\n';
                assert(i >= 6);
                assert(document[i - 6] == '\n');
            }
        }
        assert(line.last() != '\r') by {
            if document.len() > 0 {
                assert(line.last() == document.last());
            }
        }
        lemma_one_frame(line, sent_events(rest));
        assert("data: "@.is_prefix_of(line));
        assert(line.skip("data: "@.len() as int) =~= document);
        assert(sent_events(documents) =~= line + seq!['\n', '\n'] + sent_events(rest));
        assert(Seq::<Seq<char>>::empty().push(
            json_text_at(encode_utf8(document), "/choices/0/delta/content"@)->0,
        ) =~= seq![json_text_at(encode_utf8(document), "/choices/0/delta/content"@)->0]);
    }
}

/// An error that the controller tells of ends the chat with the controller's own words; the text that came
/// with it is shown.
pub proof fn law_an_error_ends_the_chat(document: Seq<char>, message: Seq<char>, rest: Seq<char>)
    requires
        !document.contains('\n'),
        document.len() > 0 && document.last() != '\r',
        document != "[DONE]"@,
        json_document(encode_utf8(document)),
        json_text_at(encode_utf8(document), "/error/message"@) == Some(message),
    ensures
        chat_frames("data: "@ + document + seq!['\n', '\n'] + rest).2 == Some(
            ChatEndView::Failed(message),
        ),
        chat_frames("data: "@ + document + seq!['\n', '\n'] + rest).1 == rest,
{
    let line = "data: "@ + document;
    reveal_strlit("data: ");
    assert(!line.contains('\n')) by {
        if line.contains('\n') {
            let i = choose|i: int| 0 <= i < line.len() && line[i] == '\n';
            assert(i >= 6);
            assert(document[i - 6] == '\n');
        }
    }
    assert(line.last() == document.last());
    lemma_one_frame(line, rest);
    assert("data: "@.is_prefix_of(line));
    assert(line.skip("data: "@.len() as int) =~= document);
}

/// The number of tokens that a chat asks for is the one given, where it is allowed.
pub proof fn law_tokens_are_kept_in_bounds(a: u32, b: u32)
    ensures
        1 <= chat_tokens(a) <= 4_096,
        1 <= a <= 4_096 ==> chat_tokens(a) == a,
        a <= b ==> chat_tokens(a) <= chat_tokens(b),
{
}

} // verus!
