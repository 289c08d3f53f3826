//! The answer of a cloud provider: server-sent events, read frame by frame within the reserved
//! budget.

use crate::cloud::{
    crlf_free, find_frame_boundary, frame_end, law_normalizing_keeps_plain_bytes, lemma_frame_end,
    lemma_normalized_sum, meet, normalize_crlf, price, prorated_cost, saturated, without_crlf,
    CloudAdapterPolicy, CloudReservation,
};
use crate::json::{
    is_json, json_document, json_number_at, json_text_at, number_at, text_at,
};
use crate::runtime::{RuntimeEvent, RuntimeEventView};
use crate::text;
use crate::text::{split_at_each, word_count};
use vstd::prelude::*;
use vstd::slice::{slice_subrange, slice_to_vec};
use vstd::utf8::encode_utf8;

verus! {

/// What has been read of an answer, with the pieces of text that it held.
#[verifier::ext_equal]
pub struct Tally {
    pub output_started: bool,
    pub finished: bool,
    pub input_tokens: u32,
    pub output_tokens: u32,
    pub finish_reason: Seq<char>,
    pub deltas: Seq<Seq<char>>,
}

/// `n` where it fits in 32 bits, else the greatest number that does.
pub open spec fn saturated32(n: int) -> u32 {
    if n > u32::MAX {
        u32::MAX
    } else {
        n as u32
    }
}

/// A count that the provider reports, where it fits in 32 bits, else the count so far.
pub open spec fn reported(document: Seq<u8>, pointer: Seq<char>, so_far: u32) -> u32 {
    match json_number_at(document, pointer) {
        Some(n) if n <= u32::MAX => n as u32,
        _ => so_far,
    }
}

/// What a JSON payload adds: its text, the reason to stop, the provider's own counts.
pub open spec fn take_payload(t: Tally, payload: Seq<u8>) -> Tally {
    let delta = json_text_at(payload, "/choices/0/delta/content"@);
    let counted = match delta {
        Some(text) => saturated32(t.output_tokens + word_count(text)),
        None => t.output_tokens,
    };
    Tally {
        output_started: t.output_started || delta is Some,
        finished: t.finished,
        input_tokens: reported(payload, "/usage/prompt_tokens"@, t.input_tokens),
        output_tokens: reported(payload, "/usage/completion_tokens"@, counted),
        finish_reason: match json_text_at(payload, "/choices/0/finish_reason"@) {
            Some(reason) => reason,
            None => t.finish_reason,
        },
        deltas: match delta {
            Some(text) => t.deltas.push(text),
            None => t.deltas,
        },
    }
}

/// What one line adds, or nothing where its payload is no JSON. Lines other than data are skipped.
pub open spec fn take_line(t: Tally, line: Seq<u8>) -> Option<Tally> {
    let prefix = encode_utf8("data: "@);
    if !prefix.is_prefix_of(line) {
        Some(t)
    } else {
        let payload = line.skip(prefix.len() as int);
        if payload == encode_utf8("[DONE]"@) {
            Some(Tally { finished: true, ..t })
        } else if json_document(payload) {
            Some(take_payload(t, payload))
        } else {
            None
        }
    }
}

/// What lines add, up to the first whose payload is no JSON; and whether there was none such.
pub open spec fn take_lines(t: Tally, lines: Seq<Seq<u8>>) -> (Tally, bool)
    decreases lines.len(),
{
    if lines.len() == 0 {
        (t, true)
    } else {
        match take_line(t, lines[0]) {
            Some(next) => take_lines(next, lines.drop_first()),
            None => (t, false),
        }
    }
}

/// What the complete frames of a buffer add, what is left of the buffer, and whether all went well.
pub open spec fn take_frames(t: Tally, buffer: Seq<u8>) -> (Tally, Seq<u8>, bool)
    decreases buffer.len(),
{
    match frame_end(buffer) {
        Some(end) if 0 <= end => {
            let rest = buffer.skip(end + 2);
            let (next, ok) = take_lines(t, split_at_each(buffer.take(end), 10u8));
            if ok && rest.len() < buffer.len() {
                take_frames(next, rest)
            } else {
                (next, rest, ok)
            }
        },
        _ => (t, buffer, true),
    }
}

/// The failure that ends a cloud execution: it may be tried again where nothing was put out.
pub open spec fn cloud_failure(message: Seq<char>, output_started: bool) -> RuntimeEventView {
    RuntimeEventView::Failure {
        code: "cloud_execution_failed"@,
        message,
        retryable: !output_started,
        output_started,
    }
}

/// The failure that ends a cloud execution.
pub fn failure(message: &str, output_started: bool) -> (event: RuntimeEvent)
    ensures
        event@ == cloud_failure(message@, output_started),
{
    RuntimeEvent::Failure {
        code: text::owned("cloud_execution_failed"),
        message: text::owned(message),
        retryable: !output_started,
        output_started,
    }
}

/// The failure of a request that never got an answer: no connection, or a status other than success.
pub fn request_failure(connected: bool, accepted: bool) -> (event: Option<RuntimeEvent>)
    ensures
        match event {
            Some(e) => e@ == cloud_failure(
                if !connected {
                    "cloud provider connection failed"@
                } else {
                    "cloud provider rejected the request"@
                },
                false,
            ) && !(connected && accepted),
            None => connected && accepted,
        },
{
    if !connected {
        Some(failure("cloud provider connection failed", false))
    } else if !accepted {
        Some(failure("cloud provider rejected the request", false))
    } else {
        None
    }
}

/// The texts of a list.
pub open spec fn views(texts: Seq<String>) -> Seq<Seq<char>> {
    texts.map_values(|text: String| text@)
}

/// What one chunk of the answer led to: pieces of text, then perhaps the failure that ends it all.
pub struct StreamStep {
    pub deltas: Vec<String>,
    pub failure: Option<RuntimeEvent>,
}

/// What the provider's answer came to.
pub struct CloudUsage {
    pub cost_micros: u64,
    pub network_bytes: u64,
}

/// An answer that is being read.
pub struct CloudStream {
    request_bytes: u64,
    response_bytes: u64,
    reservation: CloudReservation,
    input_rate: u64,
    output_rate: u64,
    buffer: Vec<u8>,
    output_started: bool,
    finished: bool,
    input_tokens: u32,
    output_tokens: u32,
    finish_reason: String,
}

/// An answer that is being read, as values.
#[verifier::ext_equal]
pub struct StreamView {
    pub request_bytes: u64,
    pub response_bytes: u64,
    pub reserved_cost: u64,
    pub reserved_network: u64,
    pub input_rate: u64,
    pub output_rate: u64,
    pub buffer: Seq<u8>,
    pub tally: Tally,
}

impl StreamView {
    /// The bytes that count after a chunk of `n` bytes.
    pub open spec fn received(self, n: int) -> u64 {
        saturated(self.response_bytes + n)
    }

    /// Whether a chunk of `n` bytes breaks the reserved network budget.
    pub open spec fn over_budget(self, n: int) -> bool {
        saturated(self.request_bytes + self.received(n)) > self.reserved_network
    }

    /// The cost of what was counted.
    pub open spec fn cost(self) -> u64 {
        saturated(
            price(self.tally.input_tokens as int, self.input_rate as int) + price(
                self.tally.output_tokens as int,
                self.output_rate as int,
            ),
        )
    }

    /// The bytes that went both ways.
    pub open spec fn network(self) -> u64 {
        saturated(self.request_bytes + self.response_bytes)
    }

    /// The state after a chunk: over budget, nothing is read of it.
    pub open spec fn after(self, chunk: Seq<u8>) -> StreamView {
        if self.over_budget(chunk.len() as int) {
            StreamView { response_bytes: self.received(chunk.len() as int), ..self }
        } else {
            let (tally, rest, ok) = take_frames(self.tally, without_crlf(self.buffer + chunk));
            StreamView {
                response_bytes: self.received(chunk.len() as int),
                buffer: rest,
                tally: Tally { deltas: Seq::empty(), ..tally },
                ..self
            }
        }
    }

    /// The pieces of text in a chunk.
    pub open spec fn deltas(self, chunk: Seq<u8>) -> Seq<Seq<char>> {
        if self.over_budget(chunk.len() as int) {
            Seq::empty()
        } else {
            take_frames(self.tally, without_crlf(self.buffer + chunk)).0.deltas
        }
    }

    /// The failure that a chunk leads to.
    pub open spec fn failed(self, chunk: Seq<u8>) -> Option<RuntimeEventView> {
        if self.over_budget(chunk.len() as int) {
            Some(
                cloud_failure(
                    "cloud provider exceeded the reserved network budget"@,
                    self.tally.output_started,
                ),
            )
        } else {
            let (tally, rest, ok) = take_frames(self.tally, without_crlf(self.buffer + chunk));
            if ok {
                None
            } else {
                Some(
                    cloud_failure(
                        "cloud provider returned an invalid stream frame"@,
                        tally.output_started,
                    ),
                )
            }
        }
    }
}

/// The lines of a frame.
fn split_lines(frame: &[u8]) -> (lines: Vec<Vec<u8>>)
    ensures
        lines@.map_values(|line: Vec<u8>| line@) == split_at_each(frame@, 10u8),
{
    let ghost view = |line: Vec<u8>| line@;
    let mut lines: Vec<Vec<u8>> = Vec::new();
    let mut start: usize = 0;
    let mut i: usize = 0;
    assert(frame@.skip(0) == frame@);
    assert(lines@.map_values(view) + split_at_each(frame@.skip(0), 10u8) == split_at_each(
        frame@,
        10u8,
    ));
    while i < frame.len()
        invariant
            view == (|line: Vec<u8>| line@),
            start <= i <= frame@.len(),
            forall|j: int| start <= j < i ==> frame@[j] != 10,
            lines@.map_values(view) + split_at_each(frame@.skip(start as int), 10u8)
                == split_at_each(frame@, 10u8),
        decreases frame@.len() - i,
    {
        if frame[i] == 10 {
            let ghost done = lines@;
            let ghost rest = frame@.skip(start as int);
            let line = slice_to_vec(slice_subrange(frame, start, i));
            proof {
                text::lemma_position_unique(rest, 10u8, i - start);
                assert(rest.take(i - start) =~= frame@.subrange(start as int, i as int));
                assert(line@ =~= frame@.subrange(start as int, i as int));
                assert(rest.skip(i - start + 1) =~= frame@.skip(i + 1));
            }
            lines.push(line);
            assert(lines@.map_values(view) =~= done.map_values(view).push(line@));
            start = i + 1;
        }
        i += 1;
    }
    let ghost done = lines@;
    let ghost rest = frame@.skip(start as int);
    let line = slice_to_vec(slice_subrange(frame, start, frame.len()));
    proof {
        text::lemma_position_unique(rest, 10u8, rest.len() as int);
        assert(line@ =~= rest);
    }
    lines.push(line);
    assert(lines@.map_values(view) =~= done.map_values(view).push(rest));
    lines
}

/// `n` in 32 bits, where it fits.
fn narrow(n: Option<u64>, otherwise: u32) -> (r: u32)
    ensures
        r == match n {
            Some(n) if n <= u32::MAX => n as u32,
            _ => otherwise,
        },
{
    match n {
        Some(n) => if n <= 4_294_967_295u64 {
            n as u32
        } else {
            otherwise
        },
        None => otherwise,
    }
}

/// The number of words, at most the greatest number of 32 bits.
fn words32(content: &str) -> (n: u32)
    ensures
        n == saturated32(word_count(content@) as int),
{
    let n: usize = text::count_words(content);
    if n > 4_294_967_295usize {
        u32::MAX
    } else {
        n as u32
    }
}

impl CloudStream {
    pub closed spec fn view(&self) -> StreamView {
        StreamView {
            request_bytes: self.request_bytes,
            response_bytes: self.response_bytes,
            reserved_cost: self.reservation.cost_micros,
            reserved_network: self.reservation.network_bytes,
            input_rate: self.input_rate,
            output_rate: self.output_rate,
            buffer: self.buffer@,
            tally: self.tally(Seq::empty()),
        }
    }

    spec fn tally(&self, deltas: Seq<Seq<char>>) -> Tally {
        Tally {
            output_started: self.output_started,
            finished: self.finished,
            input_tokens: self.input_tokens,
            output_tokens: self.output_tokens,
            finish_reason: self.finish_reason@,
            deltas,
        }
    }

    /// The state before the first chunk: the input counts as its words until the provider reports.
    pub fn start(
        policy: &CloudAdapterPolicy,
        input: &str,
        reservation: CloudReservation,
    ) -> (stream: CloudStream)
        ensures
            stream@ == (StreamView {
                request_bytes: encode_utf8(input@).len() as u64,
                response_bytes: 0,
                reserved_cost: reservation.cost_micros,
                reserved_network: reservation.network_bytes,
                input_rate: policy.input_cost_per_million_tokens_micros,
                output_rate: policy.output_cost_per_million_tokens_micros,
                buffer: Seq::empty(),
                tally: Tally {
                    output_started: false,
                    finished: false,
                    input_tokens: saturated32(word_count(input@) as int),
                    output_tokens: 0,
                    finish_reason: "stop"@,
                    deltas: Seq::empty(),
                },
            }),
    {
        CloudStream {
            request_bytes: text::byte_len(input) as u64,
            response_bytes: 0,
            reservation,
            input_rate: policy.input_cost_per_million_tokens_micros,
            output_rate: policy.output_cost_per_million_tokens_micros,
            buffer: Vec::new(),
            output_started: false,
            finished: false,
            input_tokens: words32(input),
            output_tokens: 0,
            finish_reason: text::owned("stop"),
        }
    }

    /// Reads one line of a frame; whether it could be read.
    fn read_line(&mut self, line: &[u8], deltas: &mut Vec<String>) -> (ok: bool)
        ensures
            match take_line(old(self).tally(views(old(deltas)@)), line@) {
                Some(next) => ok && final(self).tally(views(final(deltas)@)) == next,
                None => !ok && final(self).tally(views(final(deltas)@)) == old(self).tally(
                    views(old(deltas)@),
                ),
            },
            final(self).buffer == old(self).buffer,
            final(self).request_bytes == old(self).request_bytes,
            final(self).response_bytes == old(self).response_bytes,
            final(self).reservation == old(self).reservation,
            final(self).input_rate == old(self).input_rate,
            final(self).output_rate == old(self).output_rate,
    {
        let prefix = "data: ".as_bytes();
        if line.len() < prefix.len() || !text::same_bytes(
            slice_subrange(line, 0, prefix.len()),
            prefix,
        ) {
            return true;
        }
        let payload = slice_subrange(line, prefix.len(), line.len());
        assert(payload@ =~= line@.skip(prefix@.len() as int));
        if text::same_bytes(payload, "[DONE]".as_bytes()) {
            self.finished = true;
            return true;
        }
        if !is_json(payload) {
            return false;
        }
        let ghost before = self.tally(views(deltas@));
        if let Some(delta) = text_at(payload, "/choices/0/delta/content") {
            self.output_started = true;
            self.output_tokens = self.output_tokens.saturating_add(words32(delta.as_str()));
            let ghost earlier = deltas@;
            deltas.push(delta);
            assert(views(deltas@) =~= views(earlier).push(delta@));
        }
        if let Some(reason) = text_at(payload, "/choices/0/finish_reason") {
            self.finish_reason = reason;
        }
        self.input_tokens = narrow(number_at(payload, "/usage/prompt_tokens"), self.input_tokens);
        self.output_tokens = narrow(
            number_at(payload, "/usage/completion_tokens"),
            self.output_tokens,
        );
        assert(self.tally(views(deltas@)) =~= take_payload(before, payload@));
        true
    }

    /// Reads the lines of a frame up to the first that cannot be read; whether there was none such.
    fn read_frame(&mut self, frame: &[u8], deltas: &mut Vec<String>) -> (ok: bool)
        ensures
            (final(self).tally(views(final(deltas)@)), ok) == take_lines(
                old(self).tally(views(old(deltas)@)),
                split_at_each(frame@, 10u8),
            ),
            final(self).buffer == old(self).buffer,
            final(self).request_bytes == old(self).request_bytes,
            final(self).response_bytes == old(self).response_bytes,
            final(self).reservation == old(self).reservation,
            final(self).input_rate == old(self).input_rate,
            final(self).output_rate == old(self).output_rate,
    {
        let lines = split_lines(frame);
        let ghost all = split_at_each(frame@, 10u8);
        let ghost start = self.tally(views(deltas@));
        assert(all.skip(0) == all);
        let mut i: usize = 0;
        while i < lines.len()
            invariant
                lines@.map_values(|line: Vec<u8>| line@) == all,
                i <= lines@.len(),
                all == split_at_each(frame@, 10u8),
                start == old(self).tally(views(old(deltas)@)),
                take_lines(self.tally(views(deltas@)), all.skip(i as int)) == take_lines(start, all),
                self.buffer == old(self).buffer,
                self.request_bytes == old(self).request_bytes,
                self.response_bytes == old(self).response_bytes,
                self.reservation == old(self).reservation,
                self.input_rate == old(self).input_rate,
                self.output_rate == old(self).output_rate,
            decreases lines@.len() - i,
        {
            assert(all[i as int] == lines@[i as int]@);
            assert(all.skip(i as int)[0] == all[i as int]);
            assert(all.skip(i as int).drop_first() == all.skip(i + 1));
            if !self.read_line(lines[i].as_slice(), deltas) {
                return false;
            }
            i += 1;
        }
        true
    }

    /// Takes the next chunk of the answer: counts it against the budget, and reads the frames that it
    /// completes.
    pub fn receive(&mut self, chunk: &[u8]) -> (step: StreamStep)
        ensures
            final(self)@ == old(self)@.after(chunk@),
            views(step.deltas@) == old(self)@.deltas(chunk@),
            match step.failure {
                Some(event) => old(self)@.failed(chunk@) == Some(event@),
                None => old(self)@.failed(chunk@) is None,
            },
    {
        let mut deltas: Vec<String> = Vec::new();
        self.response_bytes = self.response_bytes.saturating_add(chunk.len() as u64);
        if self.request_bytes.saturating_add(self.response_bytes) > self.reservation.network_bytes {
            let event = failure(
                "cloud provider exceeded the reserved network budget",
                self.output_started,
            );
            assert(views(deltas@) =~= Seq::<Seq<char>>::empty());
            return StreamStep { deltas, failure: Some(event) };
        }
        self.buffer.extend_from_slice(chunk);
        assert(self.buffer@ =~= old(self).buffer@ + chunk@);
        normalize_crlf(&mut self.buffer);
        assert(views(deltas@) =~= Seq::<Seq<char>>::empty());
        let ghost start = old(self)@.tally;
        let ghost all = self.buffer@;
        loop
            invariant
                take_frames(self.tally(views(deltas@)), self.buffer@) == take_frames(start, all),
                start == old(self)@.tally,
                all == without_crlf(old(self).buffer@ + chunk@),
                !old(self)@.over_budget(chunk@.len() as int),
                self.request_bytes == old(self).request_bytes,
                self.response_bytes == old(self)@.received(chunk@.len() as int),
                self.reservation == old(self).reservation,
                self.input_rate == old(self).input_rate,
                self.output_rate == old(self).output_rate,
            decreases self.buffer@.len(),
        {
            let boundary = match find_frame_boundary(self.buffer.as_slice()) {
                Some(boundary) => boundary,
                None => {
                    return StreamStep { deltas, failure: None };
                },
            };
            proof {
                lemma_frame_end(self.buffer@);
                assert(boundary + 2 <= self.buffer.len());
            }
            let ghost whole = self.buffer@;
            let rest = self.buffer.split_off(boundary + 2);
            assert(rest@ =~= whole.skip(boundary + 2));
            let frame = slice_to_vec(slice_subrange(self.buffer.as_slice(), 0, boundary));
            assert(frame@ =~= whole.take(boundary as int));
            self.buffer = rest;
            if !self.read_frame(frame.as_slice(), &mut deltas) {
                let event = failure(
                    "cloud provider returned an invalid stream frame",
                    self.output_started,
                );
                return StreamStep { deltas, failure: Some(event) };
            }
        }
    }

    /// The failure where the answer breaks off.
    pub fn interrupted(&self) -> (event: RuntimeEvent)
        ensures
            event@ == cloud_failure(
                "cloud provider stream was interrupted"@,
                self@.tally.output_started,
            ),
    {
        failure("cloud provider stream was interrupted", self.output_started)
    }

    /// The end of the answer: what it came to, or the failure of an answer without its completion
    /// marker or beyond its reservation.
    pub fn finish(&self) -> (result: Result<CloudUsage, RuntimeEvent>)
        ensures
            match result {
                Ok(usage) => {
                    &&& self@.tally.finished
                    &&& usage.cost_micros == self@.cost() <= self@.reserved_cost
                    &&& usage.network_bytes == self@.network() <= self@.reserved_network
                },
                Err(event) => if !self@.tally.finished {
                    event@ == cloud_failure(
                        "cloud provider ended without a completion marker"@,
                        self@.tally.output_started,
                    )
                } else {
                    &&& self@.cost() > self@.reserved_cost || self@.network()
                        > self@.reserved_network
                    &&& event@ == cloud_failure(
                        "cloud provider exceeded its usage reservation"@,
                        self@.tally.output_started,
                    )
                },
            },
    {
        if !self.finished {
            return Err(
                failure("cloud provider ended without a completion marker", self.output_started),
            );
        }
        let cost: u64 = prorated_cost(self.input_tokens as u64, self.input_rate).saturating_add(
            prorated_cost(self.output_tokens as u64, self.output_rate),
        );
        let network: u64 = self.request_bytes.saturating_add(self.response_bytes);
        if cost > self.reservation.cost_micros || network > self.reservation.network_bytes {
            return Err(
                failure("cloud provider exceeded its usage reservation", self.output_started),
            );
        }
        Ok(CloudUsage { cost_micros: cost, network_bytes: network })
    }

    /// The last event of a complete answer, once its usage has been reconciled with its reservation or
    /// not.
    pub(crate) fn conclude(&self, reconciled: bool) -> (event: RuntimeEvent)
        ensures
            event@ == (if reconciled {
                RuntimeEventView::Finished {
                    input_tokens: self@.tally.input_tokens,
                    output_tokens: self@.tally.output_tokens,
                    finish_reason: self@.tally.finish_reason,
                }
            } else {
                cloud_failure("cloud usage reconciliation failed"@, self@.tally.output_started)
            }),
    {
        if reconciled {
            RuntimeEvent::Finished {
                input_tokens: self.input_tokens,
                output_tokens: self.output_tokens,
                finish_reason: text::owned(self.finish_reason.as_str()),
            }
        } else {
            failure("cloud usage reconciliation failed", self.output_started)
        }
    }
}

// ------------------------------------------------------------------------------------------------
// Laws

proof fn lemma_frame_end_of_longer(x: Seq<u8>, y: Seq<u8>)
    requires
        frame_end(x) is Some,
    ensures
        frame_end(x + y) == frame_end(x),
{
    lemma_frame_end(x);
    lemma_frame_end(x + y);
    let i = frame_end(x)->0;
    assert((x + y)[i] == x[i] && (x + y)[i + 1] == x[i + 1]);
    match frame_end(x + y) {
        Some(j) => {
            if j < i {
                assert((x + y)[j] == x[j] && (x + y)[j + 1] == x[j + 1]);
            }
        },
        None => {},
    }
}

/// Reading a buffer and then the rest with more bytes is reading it all at once.
proof fn lemma_frames_in_two_steps(t: Tally, x: Seq<u8>, y: Seq<u8>)
    requires
        take_frames(t, x).2,
    ensures
        take_frames(t, x + y) == take_frames(take_frames(t, x).0, take_frames(t, x).1 + y),
    decreases x.len(),
{
    lemma_frame_end(x);
    match frame_end(x) {
        Some(end) => {
            lemma_frame_end_of_longer(x, y);
            assert((x + y).take(end) =~= x.take(end));
            assert((x + y).skip(end + 2) =~= x.skip(end + 2) + y);
            let (next, ok) = take_lines(t, split_at_each(x.take(end), 10u8));
            lemma_frames_in_two_steps(next, x.skip(end + 2), y);
        },
        None => {},
    }
}

/// A tally whose pieces of text start with others.
spec fn with_earlier(t: Tally, earlier: Seq<Seq<char>>) -> Tally {
    Tally { deltas: earlier + t.deltas, ..t }
}

proof fn lemma_lines_keep_earlier(t: Tally, lines: Seq<Seq<u8>>, earlier: Seq<Seq<char>>)
    ensures
        take_lines(with_earlier(t, earlier), lines) == (
            with_earlier(take_lines(t, lines).0, earlier),
            take_lines(t, lines).1,
        ),
    decreases lines.len(),
{
    if lines.len() > 0 {
        match take_line(t, lines[0]) {
            Some(next) => {
                assert(take_line(with_earlier(t, earlier), lines[0])->0 =~= with_earlier(
                    next,
                    earlier,
                ));
                lemma_lines_keep_earlier(next, lines.drop_first(), earlier);
            },
            None => {},
        }
    }
}

proof fn lemma_frames_keep_earlier(t: Tally, buffer: Seq<u8>, earlier: Seq<Seq<char>>)
    ensures
        take_frames(with_earlier(t, earlier), buffer) == (
            with_earlier(take_frames(t, buffer).0, earlier),
            take_frames(t, buffer).1,
            take_frames(t, buffer).2,
        ),
    decreases buffer.len(),
{
    lemma_frame_end(buffer);
    match frame_end(buffer) {
        Some(end) => {
            let lines = split_at_each(buffer.take(end), 10u8);
            lemma_lines_keep_earlier(t, lines, earlier);
            let (next, ok) = take_lines(t, lines);
            if ok {
                lemma_frames_keep_earlier(next, buffer.skip(end + 2), earlier);
            }
        },
        None => {},
    }
}

/// What is left of a buffer is its end, and stands at its start or behind a line feed.
proof fn lemma_rest_is_the_end(t: Tally, x: Seq<u8>)
    ensures
        ({
            let rest = take_frames(t, x).1;
            &&& rest.len() <= x.len()
            &&& rest == x.skip(x.len() - rest.len())
            &&& rest.len() < x.len() ==> x[x.len() - rest.len() - 1] == 10
        }),
    decreases x.len(),
{
    lemma_frame_end(x);
    match frame_end(x) {
        Some(end) => {
            let rest = x.skip(end + 2);
            let (next, ok) = take_lines(t, split_at_each(x.take(end), 10u8));
            if ok {
                lemma_rest_is_the_end(next, rest);
                let left = take_frames(next, rest).1;
                assert(left =~= x.skip(x.len() - left.len()));
                if left.len() < rest.len() {
                    assert(rest[rest.len() - left.len() - 1] == x[x.len() - left.len() - 1]);
                }
            }
        },
        None => {
            assert(x.skip(0) =~= x);
        },
    }
}

/// A carriage return at the end of a buffer stays in what is left, and changes nothing else.
proof fn lemma_trailing_return(t: Tally, x: Seq<u8>)
    requires
        x.len() > 0,
        x.last() == 13,
        take_frames(t, x).2,
    ensures
        ({
            let (read, rest, ok) = take_frames(t, x);
            &&& rest.len() > 0
            &&& rest.last() == 13
            &&& take_frames(t, x.drop_last()) == (read, rest.drop_last(), true)
        }),
    decreases x.len(),
{
    lemma_frame_end(x);
    let shorter = x.drop_last();
    lemma_frame_end(shorter);
    match frame_end(x) {
        Some(end) => {
            assert(end + 1 < shorter.len());
            assert(shorter[end] == x[end] && shorter[end + 1] == x[end + 1]);
            match frame_end(shorter) {
                Some(other) => {
                    assert(x[other] == shorter[other] && x[other + 1] == shorter[other + 1]);
                },
                None => {},
            }
            assert(shorter.take(end) =~= x.take(end));
            let rest = x.skip(end + 2);
            assert(rest.drop_last() =~= shorter.skip(end + 2));
            assert(rest.last() == x.last());
            let (next, ok) = take_lines(t, split_at_each(x.take(end), 10u8));
            lemma_trailing_return(next, rest);
        },
        None => {
            match frame_end(shorter) {
                Some(other) => {
                    assert(x[other] == shorter[other] && x[other + 1] == shorter[other + 1]);
                },
                None => {},
            }
        },
    }
}

/// How an answer is cut into chunks does not matter: two chunks that are read one after the other
/// lead to the state and the text that they lead to as one. (The first chunk leaves no carriage return
/// directly before a line feed, as a doubled one does, and both lie within the budget.)
pub proof fn law_chunking_does_not_matter(s: StreamView, a: Seq<u8>, b: Seq<u8>)
    requires
        s.tally.deltas.len() == 0,
        crlf_free(s.after(a).buffer),
        !s.over_budget((a + b).len() as int),
        s.failed(a) is None,
    ensures
        s.after(a).after(b) == s.after(a + b),
        s.deltas(a) + s.after(a).deltas(b) == s.deltas(a + b),
        s.after(a).failed(b) == s.failed(a + b),
{
    let x = s.buffer + a;
    assert(s.buffer + (a + b) =~= x + b);
    let n = without_crlf(x);
    let more = without_crlf(b);
    let (t1, rest, ok) = take_frames(s.tally, n);
    lemma_normalized_sum(x, b);
    lemma_normalized_sum(rest, b);
    law_normalizing_keeps_plain_bytes(rest);
    lemma_rest_is_the_end(s.tally, n);
    if meet(x, b) {
        lemma_trailing_return(s.tally, n);
        lemma_frames_in_two_steps(s.tally, n.drop_last(), more);
    } else {
        if rest.len() > 0 {
            assert(rest.last() == n.last());
        }
        lemma_frames_in_two_steps(s.tally, n, more);
    }
    let cleared = Tally { deltas: Seq::empty(), ..t1 };
    lemma_frames_keep_earlier(cleared, without_crlf(rest + b), t1.deltas);
    assert(with_earlier(cleared, t1.deltas) =~= t1);
    assert(s.after(a).after(b) =~= s.after(a + b));
}

/// Once text has been put out, no failure of the answer may be tried again.
pub proof fn law_no_retry_after_output(s: StreamView, chunk: Seq<u8>)
    requires
        s.tally.output_started,
        s.failed(chunk) is Some,
    ensures
        s.failed(chunk)->0 matches RuntimeEventView::Failure { retryable, .. } && !retryable,
{
    lemma_frames_keep_started(s.tally, without_crlf(s.buffer + chunk));
}

proof fn lemma_lines_keep_started(t: Tally, lines: Seq<Seq<u8>>)
    requires
        t.output_started,
    ensures
        take_lines(t, lines).0.output_started,
    decreases lines.len(),
{
    if lines.len() > 0 {
        match take_line(t, lines[0]) {
            Some(next) => {
                lemma_lines_keep_started(next, lines.drop_first());
            },
            None => {},
        }
    }
}

proof fn lemma_frames_keep_started(t: Tally, buffer: Seq<u8>)
    requires
        t.output_started,
    ensures
        take_frames(t, buffer).0.output_started,
    decreases buffer.len(),
{
    lemma_frame_end(buffer);
    match frame_end(buffer) {
        Some(end) => {
            let lines = split_at_each(buffer.take(end), 10u8);
            lemma_lines_keep_started(t, lines);
            let (next, ok) = take_lines(t, lines);
            if ok {
                lemma_frames_keep_started(next, buffer.skip(end + 2));
            }
        },
        None => {},
    }
}

/// A data line with a payload.
pub open spec fn data_line(payload: Seq<u8>) -> Seq<u8> {
    encode_utf8("data: "@) + payload
}

/// An answer: a frame with one data line for each payload.
pub open spec fn answer_of(payloads: Seq<Seq<u8>>) -> Seq<u8>
    decreases payloads.len(),
{
    if payloads.len() == 0 {
        Seq::empty()
    } else {
        data_line(payloads[0]) + seq![10u8, 10u8] + answer_of(payloads.drop_first())
    }
}

/// Whether a payload is the completion marker.
pub open spec fn is_marker(payload: Seq<u8>) -> bool {
    payload == encode_utf8("[DONE]"@)
}

/// Whether payloads can be sent as an answer: each stands on one line, and is a JSON document or the
/// completion marker.
pub open spec fn sendable(payloads: Seq<Seq<u8>>) -> bool {
    forall|i: int| 0 <= i < payloads.len() ==> sendable_payload(#[trigger] payloads[i])
}

/// Whether a payload stands on one line, and is a JSON document or the completion marker.
pub open spec fn sendable_payload(payload: Seq<u8>) -> bool {
    &&& !payload.contains(10u8) && !payload.contains(13u8)
    &&& is_marker(payload) || json_document(payload)
}

/// The piece of text that a payload carries.
pub open spec fn content_of(payload: Seq<u8>) -> Option<Seq<char>> {
    if is_marker(payload) {
        None
    } else {
        json_text_at(payload, "/choices/0/delta/content"@)
    }
}

/// The reason to stop that a payload names.
pub open spec fn reason_of(payload: Seq<u8>) -> Option<Seq<char>> {
    if is_marker(payload) {
        None
    } else {
        json_text_at(payload, "/choices/0/finish_reason"@)
    }
}

/// A count of 32 bits that a payload reports.
pub open spec fn count_of(payload: Seq<u8>, pointer: Seq<char>) -> Option<u32> {
    match json_number_at(payload, pointer) {
        Some(n) if n <= u32::MAX && !is_marker(payload) => Some(n as u32),
        _ => None,
    }
}

/// All the pieces of text that payloads carry, in order.
pub open spec fn contents_of(payloads: Seq<Seq<u8>>) -> Seq<Seq<char>>
    decreases payloads.len(),
{
    if payloads.len() == 0 {
        Seq::empty()
    } else {
        match content_of(payloads.last()) {
            Some(text) => contents_of(payloads.drop_last()).push(text),
            None => contents_of(payloads.drop_last()),
        }
    }
}

/// The number of words in pieces of text, each counted by itself.
pub open spec fn words_in(pieces: Seq<Seq<char>>) -> nat
    decreases pieces.len(),
{
    if pieces.len() == 0 {
        0
    } else {
        words_in(pieces.drop_last()) + word_count(pieces.last())
    }
}

/// Reading a data line adds exactly the text that it carries to the pieces that are told, whatever was
/// read before, and nothing where it carries none. Only the completion marker finishes an answer, and
/// only a payload that is neither the marker nor JSON cannot be read.
pub proof fn law_a_data_line_adds_its_text(t: Tally, payload: Seq<u8>)
    ensures
        ({
            let read = take_line(t, data_line(payload));
            &&& read is None <==> !is_marker(payload) && !json_document(payload)
            &&& read matches Some(next) ==> {
                &&& next.finished <==> t.finished || is_marker(payload)
                &&& next.output_started <==> t.output_started || content_of(payload) is Some
                &&& match content_of(payload) {
                    Some(text) => next.deltas.len() == t.deltas.len() + 1 && next.deltas.last()
                        == text && next.deltas.drop_last() == t.deltas,
                    None => next.deltas == t.deltas,
                }
                &&& match reason_of(payload) {
                    Some(reason) => next.finish_reason == reason,
                    None => next.finish_reason == t.finish_reason,
                }
            }
        }),
{
    let line = data_line(payload);
    assert(encode_utf8("data: "@).is_prefix_of(line));
    assert(line.skip(encode_utf8("data: "@).len() as int) =~= payload);
    match take_line(t, line) {
        Some(next) => {
            assert(content_of(payload) is Some ==> next.deltas.drop_last() =~= t.deltas);
        },
        None => {},
    }
}

/// A line that is no data line adds nothing, whatever it holds.
pub proof fn law_other_lines_add_nothing(t: Tally, line: Seq<u8>)
    requires
        forall|payload: Seq<u8>| line != #[trigger] data_line(payload),
    ensures
        take_line(t, line) == Some(t),
{
    let prefix = encode_utf8("data: "@);
    if prefix.is_prefix_of(line) {
        assert(line =~= data_line(line.skip(prefix.len() as int)));
    }
}

/// What has been read after a data line for each payload.
spec fn read_all(t: Tally, payloads: Seq<Seq<u8>>) -> Tally
    decreases payloads.len(),
{
    if payloads.len() == 0 {
        t
    } else {
        take_line(read_all(t, payloads.drop_last()), data_line(payloads.last()))->0
    }
}

proof fn lemma_prefix_bytes()
    ensures
        !encode_utf8("data: "@).contains(10u8),
        !encode_utf8("data: "@).contains(13u8),
{
    reveal_strlit("data: ");
    vstd::utf8::is_ascii_chars_encode_utf8("data: "@);
}

proof fn lemma_first_frame(line: Seq<u8>, rest: Seq<u8>)
    requires
        !line.contains(10u8),
    ensures
        ({
            let buffer = line + seq![10u8, 10u8] + rest;
            &&& frame_end(buffer) == Some(line.len() as int)
            &&& buffer.take(line.len() as int) == line
            &&& buffer.skip(line.len() as int + 2) == rest
            &&& split_at_each(line, 10u8) == seq![line]
        }),
{
    let n = line.len() as int;
    let buffer = line + seq![10u8, 10u8] + rest;
    lemma_frame_end(buffer);
    assert forall|i: int| 0 <= i < n implies buffer[i] != 10 by {
        assert(line.contains(line[i]));
    }
    assert(buffer[n] == 10 && buffer[n + 1] == 10);
    match frame_end(buffer) {
        Some(i) => {
            assert(i <= n) by {
                if i > n {
                    assert(!(buffer[n] == 10 && buffer[n + 1] == 10));
                }
            }
        },
        None => {
            assert(!(buffer[n] == 10 && buffer[n + 1] == 10));
        },
    }
    assert(buffer.take(n) =~= line);
    assert(buffer.skip(n + 2) =~= rest);
    text::lemma_position_unique(line, 10u8, n);
}

proof fn lemma_answer_splits(payloads: Seq<Seq<u8>>)
    requires
        payloads.len() > 0,
    ensures
        answer_of(payloads) == answer_of(payloads.drop_last()) + (data_line(payloads.last()) + seq![
            10u8,
            10u8,
        ]),
    decreases payloads.len(),
{
    if payloads.len() == 1 {
        assert(payloads.drop_first() =~= Seq::<Seq<u8>>::empty());
        assert(payloads.drop_last() =~= Seq::<Seq<u8>>::empty());
        assert(answer_of(payloads.drop_first()).len() == 0);
        assert(answer_of(payloads.drop_last()).len() == 0);
        assert(answer_of(payloads) =~= answer_of(payloads.drop_last()) + (data_line(payloads.last())
            + seq![10u8, 10u8]));
    } else {
        let rest = payloads.drop_first();
        lemma_answer_splits(rest);
        assert(payloads.drop_last().drop_first() =~= rest.drop_last());
        assert(answer_of(payloads) =~= answer_of(payloads.drop_last()) + (data_line(payloads.last())
            + seq![10u8, 10u8]));
    }
}

proof fn lemma_answer_is_plain(payloads: Seq<Seq<u8>>)
    requires
        sendable(payloads),
    ensures
        !answer_of(payloads).contains(13u8),
    decreases payloads.len(),
{
    if payloads.len() > 0 {
        lemma_prefix_bytes();
        let first = payloads[0];
        assert(sendable_payload(first));
        assert forall|i: int| 0 <= i < payloads.drop_first().len() implies sendable_payload(
            #[trigger] payloads.drop_first()[i],
        ) by {
            assert(payloads.drop_first()[i] == payloads[i + 1]);
        }
        lemma_answer_is_plain(payloads.drop_first());
        let answer = answer_of(payloads);
        let prefix = encode_utf8("data: "@);
        let rest = answer_of(payloads.drop_first());
        if answer.contains(13u8) {
            let i = choose|i: int| 0 <= i < answer.len() && answer[i] == 13u8;
            if i < prefix.len() {
                assert(answer[i] == prefix[i]);
            } else if i < prefix.len() + first.len() {
                assert(answer[i] == first[i - prefix.len()]);
            } else if i < prefix.len() + first.len() + 2 {
            } else {
                assert(answer[i] == rest[i - prefix.len() - first.len() - 2]);
            }
        }
    }
}

/// The frames of an answer are read one after the other, and nothing is left.
proof fn lemma_answer_is_read(t: Tally, payloads: Seq<Seq<u8>>)
    requires
        sendable(payloads),
    ensures
        take_frames(t, answer_of(payloads)) == (read_all(t, payloads), Seq::<u8>::empty(), true),
    decreases payloads.len(),
{
    if payloads.len() > 0 {
        let before = payloads.drop_last();
        let last = payloads.last();
        assert(sendable_payload(payloads[payloads.len() - 1]));
        assert forall|i: int| 0 <= i < before.len() implies sendable_payload(
            #[trigger] before[i],
        ) by {
            assert(before[i] == payloads[i]);
        }
        lemma_answer_is_read(t, before);
        lemma_answer_splits(payloads);
        let line = data_line(last);
        let frame = line + seq![10u8, 10u8];
        lemma_frames_in_two_steps(t, answer_of(before), frame);
        assert(Seq::<u8>::empty() + frame =~= frame);
        lemma_prefix_bytes();
        assert(!line.contains(10u8)) by {
            if line.contains(10u8) {
                let i = choose|i: int| 0 <= i < line.len() && line[i] == 10u8;
                let prefix = encode_utf8("data: "@);
                if i < prefix.len() {
                    assert(line[i] == prefix[i]);
                } else {
                    assert(line[i] == last[i - prefix.len()]);
                }
            }
        }
        assert(frame =~= line + seq![10u8, 10u8] + Seq::<u8>::empty());
        lemma_first_frame(line, Seq::empty());
        let read = read_all(t, before);
        law_a_data_line_adds_its_text(read, last);
        let lines = seq![line];
        assert(lines.drop_first() =~= Seq::<Seq<u8>>::empty());
        assert(lines[0] == line);
        let next = take_line(read, line)->0;
        assert(take_lines(next, lines.drop_first()) == (next, true));
        assert(take_lines(read, lines) == (next, true));
        assert(take_frames(next, Seq::<u8>::empty()) == (next, Seq::<u8>::empty(), true));
        assert(take_frames(read, frame) == (next, Seq::<u8>::empty(), true));
    } else {
        assert(answer_of(payloads) =~= Seq::<u8>::empty());
    }
}

proof fn lemma_all_contents(t: Tally, payloads: Seq<Seq<u8>>)
    requires
        sendable(payloads),
    ensures
        ({
            let read = read_all(t, payloads);
            &&& read.deltas == t.deltas + contents_of(payloads)
            &&& read.finished <==> t.finished || exists|i: int|
                0 <= i < payloads.len() && is_marker(#[trigger] payloads[i])
            &&& read.output_started <==> t.output_started || contents_of(payloads).len() > 0
        }),
    decreases payloads.len(),
{
    if payloads.len() > 0 {
        let before = payloads.drop_last();
        let last = payloads.last();
        assert(sendable_payload(payloads[payloads.len() - 1]));
        assert forall|i: int| 0 <= i < before.len() implies sendable_payload(
            #[trigger] before[i],
        ) by {
            assert(before[i] == payloads[i]);
        }
        lemma_all_contents(t, before);
        law_a_data_line_adds_its_text(read_all(t, before), last);
        let read = read_all(t, payloads);
        assert(read.deltas =~= t.deltas + contents_of(payloads));
        assert(forall|i: int| 0 <= i < before.len() ==> before[i] == #[trigger] payloads[i]);
        assert(last == payloads[payloads.len() - 1]);
    } else {
        assert(t.deltas + contents_of(payloads) =~= t.deltas);
    }
}

/// The pieces of an answer that are told are, in order, all the texts that its payloads carry, each as it
/// is. The answer is finished where its completion marker came, and nothing of it is left over.
pub proof fn law_the_pieces_of_an_answer(s: StreamView, payloads: Seq<Seq<u8>>)
    requires
        sendable(payloads),
        s.buffer.len() == 0,
        s.tally.deltas.len() == 0,
        !s.over_budget(answer_of(payloads).len() as int),
    ensures
        s.failed(answer_of(payloads)) is None,
        s.deltas(answer_of(payloads)) == contents_of(payloads),
        s.after(answer_of(payloads)).buffer.len() == 0,
        s.after(answer_of(payloads)).tally.finished <==> s.tally.finished || exists|i: int|
            0 <= i < payloads.len() && is_marker(#[trigger] payloads[i]),
        s.after(answer_of(payloads)).tally.output_started <==> s.tally.output_started || contents_of(
            payloads,
        ).len() > 0,
{
    lemma_whole_answer(s, payloads);
    lemma_all_contents(s.tally, payloads);
    assert(s.tally.deltas + contents_of(payloads) =~= contents_of(payloads));
}

/// Of what payloads report, the last report counts: of the reason to stop, of the tokens that went in,
/// and of those that came out unless text came after it.
pub proof fn law_the_last_report_counts(s: StreamView, payloads: Seq<Seq<u8>>, k: int)
    requires
        sendable(payloads),
        s.buffer.len() == 0,
        s.tally.deltas.len() == 0,
        !s.over_budget(answer_of(payloads).len() as int),
        0 <= k < payloads.len(),
    ensures
        ({
            let after = s.after(answer_of(payloads)).tally;
            let later = payloads.skip(k + 1);
            &&& reason_of(payloads[k]) matches Some(reason) ==> (forall|j: int|
                0 <= j < later.len() ==> reason_of(#[trigger] later[j]) is None)
                ==> after.finish_reason == reason
            &&& count_of(payloads[k], "/usage/prompt_tokens"@) matches Some(n) ==> (forall|j: int|
                0 <= j < later.len() ==> count_of(#[trigger] later[j], "/usage/prompt_tokens"@) is None)
                ==> after.input_tokens == n
            &&& count_of(payloads[k], "/usage/completion_tokens"@) matches Some(n) ==> (forall|j: int|
                0 <= j < later.len() ==> count_of(
                    #[trigger] later[j],
                    "/usage/completion_tokens"@,
                ) is None && content_of(later[j]) is None) ==> after.output_tokens == n
        }),
{
    lemma_whole_answer(s, payloads);
    lemma_last_report(s.tally, payloads, k);
}

/// Where a provider reports nothing, the words of the pieces of text count as the tokens that came out,
/// and what was known of the tokens that went in and of the reason to stop stays.
pub proof fn law_unreported_words_count(s: StreamView, payloads: Seq<Seq<u8>>)
    requires
        sendable(payloads),
        s.buffer.len() == 0,
        s.tally.deltas.len() == 0,
        !s.over_budget(answer_of(payloads).len() as int),
    ensures
        ({
            let after = s.after(answer_of(payloads)).tally;
            &&& (forall|j: int| 0 <= j < payloads.len() ==> reason_of(#[trigger] payloads[j]) is None)
                ==> after.finish_reason == s.tally.finish_reason
            &&& (forall|j: int|
                0 <= j < payloads.len() ==> count_of(
                    #[trigger] payloads[j],
                    "/usage/prompt_tokens"@,
                ) is None) ==> after.input_tokens == s.tally.input_tokens
            &&& (forall|j: int|
                0 <= j < payloads.len() ==> count_of(
                    #[trigger] payloads[j],
                    "/usage/completion_tokens"@,
                ) is None) ==> after.output_tokens == saturated32(
                s.tally.output_tokens + words_in(contents_of(payloads)),
            )
        }),
{
    lemma_whole_answer(s, payloads);
    lemma_no_report(s.tally, payloads);
}

proof fn lemma_whole_answer(s: StreamView, payloads: Seq<Seq<u8>>)
    requires
        sendable(payloads),
        s.buffer.len() == 0,
        !s.over_budget(answer_of(payloads).len() as int),
    ensures
        s.after(answer_of(payloads)).tally == (Tally {
            deltas: Seq::empty(),
            ..read_all(s.tally, payloads)
        }),
        s.deltas(answer_of(payloads)) == read_all(s.tally, payloads).deltas,
        s.failed(answer_of(payloads)) is None,
        s.after(answer_of(payloads)).buffer.len() == 0,
{
    let answer = answer_of(payloads);
    assert(s.buffer + answer =~= answer);
    lemma_answer_is_plain(payloads);
    assert(crlf_free(answer)) by {
        assert forall|i: int| 0 <= i < answer.len() - 1 implies !(#[trigger] answer[i] == 13
            && answer[i + 1] == 10) by {
            assert(answer.contains(answer[i]));
        }
    }
    law_normalizing_keeps_plain_bytes(answer);
    lemma_answer_is_read(s.tally, payloads);
}

proof fn lemma_sendable_before(payloads: Seq<Seq<u8>>)
    requires
        sendable(payloads),
        payloads.len() > 0,
    ensures
        sendable(payloads.drop_last()),
        sendable_payload(payloads.last()),
{
    assert(sendable_payload(payloads[payloads.len() - 1]));
    assert forall|i: int| 0 <= i < payloads.drop_last().len() implies sendable_payload(
        #[trigger] payloads.drop_last()[i],
    ) by {
        assert(payloads.drop_last()[i] == payloads[i]);
    }
}

/// What one data line does to the counts.
proof fn lemma_line_counts(t: Tally, payload: Seq<u8>)
    requires
        sendable_payload(payload),
    ensures
        ({
            let next = take_line(t, data_line(payload))->0;
            &&& next.input_tokens == match count_of(payload, "/usage/prompt_tokens"@) {
                Some(n) => n,
                None => t.input_tokens,
            }
            &&& next.output_tokens == match count_of(payload, "/usage/completion_tokens"@) {
                Some(n) => n,
                None => match content_of(payload) {
                    Some(text) => saturated32(t.output_tokens + word_count(text)),
                    None => t.output_tokens,
                },
            }
        }),
{
    let line = data_line(payload);
    assert(encode_utf8("data: "@).is_prefix_of(line));
    assert(line.skip(encode_utf8("data: "@).len() as int) =~= payload);
}

proof fn lemma_last_report(t: Tally, payloads: Seq<Seq<u8>>, k: int)
    requires
        sendable(payloads),
        0 <= k < payloads.len(),
    ensures
        ({
            let after = read_all(t, payloads);
            let later = payloads.skip(k + 1);
            &&& reason_of(payloads[k]) matches Some(reason) ==> (forall|j: int|
                0 <= j < later.len() ==> reason_of(#[trigger] later[j]) is None)
                ==> after.finish_reason == reason
            &&& count_of(payloads[k], "/usage/prompt_tokens"@) matches Some(n) ==> (forall|j: int|
                0 <= j < later.len() ==> count_of(#[trigger] later[j], "/usage/prompt_tokens"@) is None)
                ==> after.input_tokens == n
            &&& count_of(payloads[k], "/usage/completion_tokens"@) matches Some(n) ==> (forall|j: int|
                0 <= j < later.len() ==> count_of(
                    #[trigger] later[j],
                    "/usage/completion_tokens"@,
                ) is None && content_of(later[j]) is None) ==> after.output_tokens == n
        }),
    decreases payloads.len(),
{
    let before = payloads.drop_last();
    let last = payloads.last();
    lemma_sendable_before(payloads);
    law_a_data_line_adds_its_text(read_all(t, before), last);
    lemma_line_counts(read_all(t, before), last);
    if k < payloads.len() - 1 {
        lemma_last_report(t, before, k);
        let later = payloads.skip(k + 1);
        let earlier = before.skip(k + 1);
        assert(later[later.len() - 1] == last);
        assert(forall|j: int| 0 <= j < earlier.len() ==> #[trigger] earlier[j] == later[j]);
    }
}

proof fn lemma_no_report(t: Tally, payloads: Seq<Seq<u8>>)
    requires
        sendable(payloads),
    ensures
        ({
            let after = read_all(t, payloads);
            &&& (forall|j: int| 0 <= j < payloads.len() ==> reason_of(#[trigger] payloads[j]) is None)
                ==> after.finish_reason == t.finish_reason
            &&& (forall|j: int|
                0 <= j < payloads.len() ==> count_of(
                    #[trigger] payloads[j],
                    "/usage/prompt_tokens"@,
                ) is None) ==> after.input_tokens == t.input_tokens
            &&& (forall|j: int|
                0 <= j < payloads.len() ==> count_of(
                    #[trigger] payloads[j],
                    "/usage/completion_tokens"@,
                ) is None) ==> after.output_tokens == saturated32(
                t.output_tokens + words_in(contents_of(payloads)),
            )
        }),
    decreases payloads.len(),
{
    if payloads.len() > 0 {
        let before = payloads.drop_last();
        let last = payloads.last();
        lemma_sendable_before(payloads);
        lemma_no_report(t, before);
        law_a_data_line_adds_its_text(read_all(t, before), last);
        lemma_line_counts(read_all(t, before), last);
        assert(last == payloads[payloads.len() - 1]);
        assert(forall|j: int| 0 <= j < before.len() ==> #[trigger] before[j] == payloads[j]);
        match content_of(last) {
            Some(text) => {
                assert(contents_of(payloads).drop_last() =~= contents_of(before));
            },
            None => {},
        }
    }
}

/// The cost of an answer is what its tokens cost at the rates of the policy, rounded up for each of the
/// two counts: it covers them, and by less than two units too much.
pub proof fn law_the_cost_covers_the_tokens(s: StreamView)
    requires
        s.tally.input_tokens * s.input_rate <= u64::MAX - 999_999,
        s.tally.output_tokens * s.output_rate <= u64::MAX - 999_999,
    ensures
        ({
            let exact = s.tally.input_tokens * s.input_rate + s.tally.output_tokens * s.output_rate;
            exact <= s.cost() * 1_000_000 < exact + 2_000_000
        }),
{
    assert(s.tally.input_tokens * s.input_rate >= 0) by (nonlinear_arith);
    assert(s.tally.output_tokens * s.output_rate >= 0) by (nonlinear_arith);
}

/// Every byte of an answer counts against the reserved network budget: what has come in is the sum of the
/// chunks, and the answer fails as soon as request and answer together are more than was reserved.
pub proof fn law_every_byte_counts(s: StreamView, chunk: Seq<u8>)
    requires
        s.request_bytes + s.response_bytes + chunk.len() <= u64::MAX,
    ensures
        s.after(chunk).response_bytes == s.response_bytes + chunk.len(),
        s.after(chunk).request_bytes == s.request_bytes,
        s.request_bytes + s.response_bytes + chunk.len() > s.reserved_network ==> {
            &&& s.failed(chunk) is Some
            &&& s.deltas(chunk).len() == 0
            &&& s.after(chunk).tally == s.tally
        },
        s.after(chunk).network() == s.request_bytes + s.response_bytes + chunk.len(),
{
}

} // verus!
