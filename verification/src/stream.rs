//! The streaming response decoder.
//!
//! A response arrives as chunks of bytes, cut wherever the transport cuts
//! them. The bytes of all chunks together are lines; each line is an event
//! that may carry a JSON delta behind the prefix `data: `; a delta may carry a
//! fragment of reasoning and a fragment of the answer. The decoder joins the
//! fragments in arrival order and marks where reasoning begins and ends.
//! Between chunks it keeps whether it is inside a reasoning span, and the
//! bytes of a line that has not ended yet, so that the text does not depend
//! on where the chunks are cut.

use crate::json::{
    json_as_str, json_at, json_from_slice, json_get, json_model, json_of_bytes, model_at, model_get,
    model_text, ref_model, JsonModel,
};
use crate::stdtext::{str_trim, trimmed, utf8_text};
use crate::text::{strip_leading, without_leading};
use vstd::prelude::*;
use vstd::slice::{slice_subrange, slice_to_vec};
use vstd::string::StringExecFns;
use vstd::string::StringSliceAdditionalSpecFns;
use vstd::utf8::{decode_utf8, encode_utf8, valid_utf8};

verus! {

/// The two fragments that one event line carries; each is empty where the
/// line has none.
#[derive(Debug)]
pub struct Reply {
    pub reasoning_content: String,
    pub content: String,
}

/// The mathematical content of a [`Reply`].
pub struct ReplyModel {
    pub reasoning: Seq<char>,
    pub content: Seq<char>,
}

impl View for Reply {
    type V = ReplyModel;

    open spec fn view(&self) -> ReplyModel {
        ReplyModel { reasoning: self.reasoning_content@, content: self.content@ }
    }
}

impl Default for Reply {
    fn default() -> (r: Reply)
        ensures
            r@ == empty_reply(),
    {
        Reply { reasoning_content: String::new(), content: String::new() }
    }
}

/// The reply of a line that carries nothing.
pub open spec fn empty_reply() -> ReplyModel {
    ReplyModel { reasoning: Seq::empty(), content: Seq::empty() }
}

/// The member `key` of a value that may be absent.
pub open spec fn then_get(m: Option<JsonModel>, key: Seq<char>) -> Option<JsonModel> {
    match m {
        Some(v) => model_get(v, key),
        None => None,
    }
}

/// The element `index` of a value that may be absent.
pub open spec fn then_at(m: Option<JsonModel>, index: int) -> Option<JsonModel> {
    match m {
        Some(v) => model_at(v, index),
        None => None,
    }
}

/// The text of a value that may be absent or no string: empty in both cases.
pub open spec fn text_or_empty(m: Option<JsonModel>) -> Seq<char> {
    match m {
        Some(v) => match model_text(v) {
            Some(t) => t,
            None => Seq::empty(),
        },
        None => Seq::empty(),
    }
}

/// The string at `choices[0].delta.<key>` of a delta, or the empty text.
pub open spec fn delta_text(doc: JsonModel, key: Seq<char>) -> Seq<char> {
    text_or_empty(then_get(then_get(then_at(model_get(doc, "choices"@), 0), "delta"@), key))
}

/// The fragments of a parsed delta; those of a line that did not parse are
/// empty.
pub open spec fn reply_of(doc: Option<JsonModel>) -> ReplyModel {
    match doc {
        Some(d) => ReplyModel {
            reasoning: delta_text(d, "reasoning_content"@),
            content: delta_text(d, "content"@),
        },
        None => empty_reply(),
    }
}

/// The prefix that frames an event line.
pub open spec fn data_prefix() -> Seq<u8> {
    "data: ".spec_bytes()
}

/// The JSON text of an event line: the line without surrounding white space
/// and without its `data: ` prefix.
pub open spec fn line_payload(line: Seq<u8>) -> Seq<u8> {
    without_leading(encode_utf8(trimmed(decode_utf8(line))), data_prefix())
}

/// The fragments that one line carries. A line that is not UTF-8, or whose
/// payload is no JSON, carries none.
pub open spec fn line_reply(line: Seq<u8>) -> ReplyModel {
    if valid_utf8(line) {
        reply_of(json_of_bytes(line_payload(line)))
    } else {
        empty_reply()
    }
}

/// What one reply adds to the text, and whether the decoder is inside a
/// reasoning span afterwards. Reasoning that begins is announced by an opening
/// marker, an answer that follows reasoning by a closing marker.
pub open spec fn emit(in_reasoning: bool, reply: ReplyModel) -> (Seq<char>, bool) {
    let opened = reply.reasoning.len() > 0 && !in_reasoning;
    let reasoning = if opened {
        "<think>\n"@ + reply.reasoning
    } else {
        reply.reasoning
    };
    let inside = in_reasoning || reply.reasoning.len() > 0;
    let closed = reply.content.len() > 0 && inside;
    let content = if closed {
        "</think>\n"@ + reply.content
    } else {
        reply.content
    };
    (reasoning + content, inside && reply.content.len() == 0)
}

/// Where the first line of `bytes` ends: at its first line feed, or at its
/// end.
pub open spec fn line_end(bytes: Seq<u8>) -> int
    decreases bytes.len(),
{
    if bytes.len() == 0 || bytes[0] == 10u8 {
        0
    } else {
        1 + line_end(bytes.drop_first())
    }
}

/// The text that the lines of `bytes` add, taken in order, and whether the
/// decoder is inside a reasoning span after them. The last line need not end
/// in a line feed.
pub open spec fn decode_lines(bytes: Seq<u8>, in_reasoning: bool) -> (Seq<char>, bool)
    decreases bytes.len(),
{
    if bytes.len() == 0 {
        (Seq::empty(), in_reasoning)
    } else {
        let n = line_end(bytes);
        let first = emit(in_reasoning, line_reply(bytes.take(n)));
        let rest = decode_lines(after_line(bytes, n), first.1);
        (first.0 + rest.0, rest.1)
    }
}

/// What follows a line that ends at `n`: the bytes behind its line feed.
pub open spec fn after_line(bytes: Seq<u8>, n: int) -> Seq<u8> {
    if 0 <= n < bytes.len() {
        bytes.skip(n + 1)
    } else {
        Seq::empty()
    }
}

/// The first position without a line feed before it that holds one, or the
/// end, is where the line ends.
pub proof fn lemma_line_end_is(bytes: Seq<u8>, n: int)
    requires
        0 <= n <= bytes.len(),
        forall|i: int| 0 <= i < n ==> bytes[i] != 10u8,
        n < bytes.len() ==> bytes[n] == 10u8,
    ensures
        line_end(bytes) == n,
    decreases bytes.len(),
{
    if n > 0 {
        let rest = bytes.drop_first();
        assert(bytes[0] != 10u8);
        assert forall|i: int| 0 <= i < n - 1 implies rest[i] != 10u8 by {
            assert(rest[i] == bytes[i + 1]);
        }
        if n - 1 < rest.len() {
            assert(rest[n - 1] == bytes[n]);
        }
        lemma_line_end_is(rest, n - 1);
    }
}

/// The string at `choices[0].delta.<key>` of a delta, or the empty string.
fn delta_field(doc: &serde_json::Value, key: &str) -> (r: String)
    ensures
        r@ == delta_text(json_model(*doc), key@),
{
    let choices = match json_get(doc, "choices") {
        Some(v) => v,
        None => {
            return String::new();
        },
    };
    let first = match json_at(choices, 0) {
        Some(v) => v,
        None => {
            return String::new();
        },
    };
    let delta = match json_get(first, "delta") {
        Some(v) => v,
        None => {
            return String::new();
        },
    };
    let field = match json_get(delta, key) {
        Some(v) => v,
        None => {
            return String::new();
        },
    };
    match json_as_str(field) {
        Some(text) => String::from_str(text),
        None => String::new(),
    }
}

/// Reads the fragments of a parsed delta.
pub fn read_delta(doc: &serde_json::Value) -> (r: Reply)
    ensures
        r@ == reply_of(Some(json_model(*doc))),
{
    Reply {
        reasoning_content: delta_field(doc, "reasoning_content"),
        content: delta_field(doc, "content"),
    }
}

/// Reads the fragments that one line carries.
pub fn parse_response_line(line: &[u8]) -> (r: Reply)
    ensures
        r@ == line_reply(line@),
{
    broadcast use vstd::utf8::encode_utf8_decode_utf8;

    let text = match utf8_text(line) {
        Some(text) => text,
        None => {
            return Reply::default();
        },
    };
    assert(text@ == decode_utf8(line@)) by {
        assert(decode_utf8(encode_utf8(text@)) == text@);
    }
    let payload = strip_leading(str_trim(text).as_bytes(), "data: ".as_bytes());
    match json_from_slice(payload) {
        Ok(doc) => read_delta(&doc),
        Err(_) => Reply::default(),
    }
}

/// The text that one reply adds; updates whether the decoder is inside a
/// reasoning span.
pub fn emit_reply(reply: &Reply, is_reasoning: &mut bool) -> (delta: String)
    ensures
        delta@ == emit(*old(is_reasoning), reply@).0,
        *final(is_reasoning) == emit(*old(is_reasoning), reply@).1,
{
    let mut delta = String::new();
    if !reply.reasoning_content.as_str().is_empty() {
        if !*is_reasoning {
            *is_reasoning = true;
            delta.append("<think>\n");
        }
        delta.append(reply.reasoning_content.as_str());
    }
    if !reply.content.as_str().is_empty() {
        if *is_reasoning {
            *is_reasoning = false;
            delta.append("</think>\n");
        }
        delta.append(reply.content.as_str());
    }
    proof {
        let expected = emit(*old(is_reasoning), reply@).0;
        assert(delta@ =~= expected);
    }
    delta
}

/// Decodes the lines of `bytes`: the text that they add, in order.
/// `is_reasoning` says whether the decoder is inside a reasoning span, before
/// and after.
pub fn parse_lines(bytes: &[u8], is_reasoning: &mut bool) -> (text: String)
    ensures
        (text@, *final(is_reasoning)) == decode_lines(bytes@, *old(is_reasoning)),
{
    let mut text = String::new();
    let mut start: usize = 0;
    assert(bytes@.skip(0) =~= bytes@);
    while start < bytes.len()
        invariant
            start <= bytes.len(),
            decode_lines(bytes@, *old(is_reasoning)).0 == text@ + decode_lines(
                bytes@.skip(start as int),
                *is_reasoning,
            ).0,
            decode_lines(bytes@, *old(is_reasoning)).1 == decode_lines(
                bytes@.skip(start as int),
                *is_reasoning,
            ).1,
        decreases bytes.len() - start,
    {
        let mut end: usize = start;
        while end < bytes.len() && bytes[end] != 10u8
            invariant
                start <= end <= bytes.len(),
                forall|i: int| start <= i < end ==> bytes@[i] != 10u8,
            decreases bytes.len() - end,
        {
            end += 1;
        }
        let ghost rest = bytes@.skip(start as int);
        let ghost before = text@;
        let ghost flag = *is_reasoning;
        proof {
            lemma_line_end_is(rest, end - start);
            assert(rest.take(end - start) =~= bytes@.subrange(start as int, end as int));
        }
        let reply = parse_response_line(slice_subrange(bytes, start, end));
        let delta = emit_reply(&reply, is_reasoning);
        text.append(delta.as_str());
        if end < bytes.len() {
            start = end + 1;
        } else {
            start = end;
        }
        proof {
            let n = line_end(rest);
            assert(after_line(rest, n) =~= bytes@.skip(start as int));
            assert(text@ =~= before + emit(flag, line_reply(rest.take(n))).0);
            assert(before + decode_lines(rest, flag).0 =~= text@ + decode_lines(
                bytes@.skip(start as int),
                *is_reasoning,
            ).0);
        }
    }
    proof {
        assert(bytes@.skip(start as int).len() == 0);
        assert(text@ + Seq::<char>::empty() =~= text@);
    }
    text
}

/// A line ends inside the bytes, at a line feed unless it ends with the
/// bytes, and no line feed stands before its end.
pub proof fn lemma_line_end_bounds(bytes: Seq<u8>)
    ensures
        0 <= line_end(bytes) <= bytes.len(),
        forall|i: int| 0 <= i < line_end(bytes) ==> bytes[i] != 10u8,
        line_end(bytes) < bytes.len() ==> bytes[line_end(bytes)] == 10u8,
    decreases bytes.len(),
{
    if bytes.len() == 0 || bytes[0] == 10u8 {
    } else {
        let rest = bytes.drop_first();
        lemma_line_end_bounds(rest);
        assert forall|i: int| 0 <= i < line_end(bytes) implies bytes[i] != 10u8 by {
            if i > 0 {
                assert(bytes[i] == rest[i - 1]);
            }
        }
        if line_end(bytes) < bytes.len() {
            assert(bytes[line_end(bytes)] == rest[line_end(rest)]);
        }
    }
}

/// Lines can be decoded piece by piece: where bytes end with a line, decoding
/// them and then what follows gives what decoding both in one go gives.
pub proof fn lemma_decode_lines_splits(head: Seq<u8>, tail: Seq<u8>, in_reasoning: bool)
    requires
        head.len() == 0 || head.last() == 10u8,
    ensures
        decode_lines(head + tail, in_reasoning).0 == decode_lines(head, in_reasoning).0
            + decode_lines(tail, decode_lines(head, in_reasoning).1).0,
        decode_lines(head + tail, in_reasoning).1 == decode_lines(
            tail,
            decode_lines(head, in_reasoning).1,
        ).1,
    decreases head.len(),
{
    let whole = head + tail;
    if head.len() == 0 {
        assert(whole =~= tail);
        assert(Seq::<char>::empty() + decode_lines(tail, in_reasoning).0 =~= decode_lines(
            tail,
            in_reasoning,
        ).0);
    } else {
        let n = line_end(head);
        lemma_line_end_bounds(head);
        assert(n < head.len()) by {
            if n == head.len() {
                assert(head[head.len() - 1] != 10u8);
            }
        }
        assert forall|i: int| 0 <= i < n implies whole[i] != 10u8 by {
            assert(whole[i] == head[i]);
        }
        assert(whole[n] == head[n]);
        lemma_line_end_is(whole, n);
        assert(whole.take(n) =~= head.take(n));
        let rest = after_line(head, n);
        assert(after_line(whole, n) =~= rest + tail);
        if rest.len() > 0 {
            assert(rest.last() == head.last());
        }
        let first = emit(in_reasoning, line_reply(head.take(n)));
        lemma_decode_lines_splits(rest, tail, first.1);
        let mid = decode_lines(rest, first.1);
        let end = decode_lines(tail, mid.1);
        assert(first.0 + (mid.0 + end.0) =~= (first.0 + mid.0) + end.0);
    }
}

/// Where the unfinished last line of `bytes` begins: behind the last line
/// feed, or at the start where there is none.
pub open spec fn last_line_start(bytes: Seq<u8>) -> int
    decreases bytes.len(),
{
    if bytes.len() == 0 {
        0
    } else if bytes.last() == 10u8 {
        bytes.len() as int
    } else {
        last_line_start(bytes.drop_last())
    }
}

/// The lines of `bytes` that have ended: everything up to the last line feed.
pub open spec fn complete_lines(bytes: Seq<u8>) -> Seq<u8> {
    bytes.take(last_line_start(bytes))
}

/// The line of `bytes` that has not ended: everything behind the last line
/// feed.
pub open spec fn unfinished_line(bytes: Seq<u8>) -> Seq<u8> {
    bytes.skip(last_line_start(bytes))
}

/// The unfinished line begins inside the bytes, behind a line feed unless it
/// begins with the bytes, and holds no line feed.
pub proof fn lemma_last_line_start_bounds(bytes: Seq<u8>)
    ensures
        0 <= last_line_start(bytes) <= bytes.len(),
        last_line_start(bytes) > 0 ==> bytes[last_line_start(bytes) - 1] == 10u8,
        forall|i: int| last_line_start(bytes) <= i < bytes.len() ==> bytes[i] != 10u8,
    decreases bytes.len(),
{
    if bytes.len() > 0 && bytes.last() != 10u8 {
        let front = bytes.drop_last();
        lemma_last_line_start_bounds(front);
        assert forall|i: int| last_line_start(bytes) <= i < bytes.len() implies bytes[i]
            != 10u8 by {
            if i < front.len() {
                assert(bytes[i] == front[i]);
            }
        }
        if last_line_start(bytes) > 0 {
            assert(bytes[last_line_start(bytes) - 1] == front[last_line_start(front) - 1]);
        }
    }
}

/// A position behind a line feed, or the start, with no line feed from there
/// on, is where the unfinished line begins.
pub proof fn lemma_last_line_start_is(bytes: Seq<u8>, k: int)
    requires
        0 <= k <= bytes.len(),
        k > 0 ==> bytes[k - 1] == 10u8,
        forall|i: int| k <= i < bytes.len() ==> bytes[i] != 10u8,
    ensures
        last_line_start(bytes) == k,
    decreases bytes.len(),
{
    if bytes.len() > 0 && bytes.last() != 10u8 {
        let front = bytes.drop_last();
        assert(k < bytes.len()) by {
            if k == bytes.len() {
                assert(bytes[k - 1] == 10u8);
            }
        }
        assert forall|i: int| k <= i < front.len() implies front[i] != 10u8 by {
            assert(front[i] == bytes[i]);
        }
        if k > 0 {
            assert(front[k - 1] == bytes[k - 1]);
        }
        lemma_last_line_start_is(front, k);
    } else if bytes.len() > 0 {
        if k < bytes.len() {
            assert(bytes[bytes.len() - 1] != 10u8);
        }
    }
}

/// Behind bytes that end with a line, the unfinished line begins where it
/// begins in what follows.
pub proof fn lemma_last_line_start_behind(head: Seq<u8>, tail: Seq<u8>)
    requires
        head.len() == 0 || head.last() == 10u8,
    ensures
        last_line_start(head + tail) == head.len() + last_line_start(tail),
{
    let whole = head + tail;
    let k = head.len() + last_line_start(tail);
    lemma_last_line_start_bounds(tail);
    assert forall|i: int| k <= i < whole.len() implies whole[i] != 10u8 by {
        assert(whole[i] == tail[i - head.len()]);
    }
    if k > 0 {
        if last_line_start(tail) > 0 {
            assert(whole[k - 1] == tail[last_line_start(tail) - 1]);
        } else {
            assert(whole[k - 1] == head[head.len() - 1]);
        }
    }
    lemma_last_line_start_is(whole, k);
}

/// What a decoder keeps between the chunks of one response.
pub struct DecoderModel {
    /// Whether the decoder is inside a reasoning span.
    pub in_reasoning: bool,
    /// The bytes of the line that has not ended yet.
    pub pending: Seq<u8>,
}

impl DecoderModel {
    /// The pending bytes are one unfinished line: they hold no line feed.
    pub open spec fn wf(self) -> bool {
        forall|i: int| 0 <= i < self.pending.len() ==> self.pending[i] != 10u8
    }

    /// The decoder at the start of a response: outside a reasoning span, with
    /// nothing pending.
    pub open spec fn start() -> DecoderModel {
        DecoderModel { in_reasoning: false, pending: Seq::empty() }
    }

    /// The text that a chunk adds: that of the lines that have ended once the
    /// chunk stands behind the pending bytes.
    pub open spec fn fed_text(self, chunk: Seq<u8>) -> Seq<char> {
        decode_lines(complete_lines(self.pending + chunk), self.in_reasoning).0
    }

    /// The decoder after a chunk: behind the lines that have ended, with the
    /// unfinished line pending.
    pub open spec fn fed(self, chunk: Seq<u8>) -> DecoderModel {
        DecoderModel {
            in_reasoning: decode_lines(complete_lines(self.pending + chunk), self.in_reasoning).1,
            pending: unfinished_line(self.pending + chunk),
        }
    }

    /// The text that the end of the response adds: that of the pending line.
    pub open spec fn finished_text(self) -> Seq<char> {
        decode_lines(self.pending, self.in_reasoning).0
    }

    /// The decoder after the end of the response: nothing is pending.
    pub open spec fn finished(self) -> DecoderModel {
        DecoderModel {
            in_reasoning: decode_lines(self.pending, self.in_reasoning).1,
            pending: Seq::empty(),
        }
    }
}

/// Where a chunk is cut does not matter: feeding it in two pieces gives the
/// text and the decoder that feeding it whole gives.
pub proof fn lemma_cut_does_not_matter(decoder: DecoderModel, head: Seq<u8>, tail: Seq<u8>)
    requires
        decoder.wf(),
    ensures
        decoder.fed(head).wf(),
        decoder.fed(head).fed(tail) == decoder.fed(head + tail),
        decoder.fed_text(head) + decoder.fed(head).fed_text(tail) == decoder.fed_text(head + tail),
{
    let first = decoder.pending + head;
    let whole = decoder.pending + (head + tail);
    let done = complete_lines(first);
    let open = unfinished_line(first);
    lemma_last_line_start_bounds(first);
    assert(decoder.fed(head).wf()) by {
        assert forall|i: int| 0 <= i < open.len() implies open[i] != 10u8 by {
            assert(open[i] == first[last_line_start(first) + i]);
        }
    }
    assert(done + open =~= first);
    assert(whole =~= done + (open + tail));
    if done.len() > 0 {
        assert(done.last() == first[last_line_start(first) - 1]);
    }
    lemma_last_line_start_behind(done, open + tail);
    lemma_last_line_start_bounds(open + tail);
    let later = complete_lines(open + tail);
    assert(last_line_start(whole) == done.len() + last_line_start(open + tail));
    assert(complete_lines(whole) =~= done + later);
    assert(unfinished_line(whole) =~= unfinished_line(open + tail));
    lemma_decode_lines_splits(done, later, decoder.in_reasoning);
}

/// The end of a response adds what is missing: the text of the chunks fed so
/// far and of the pending line is the text of all their lines.
pub proof fn lemma_finish_completes(bytes: Seq<u8>)
    ensures
        DecoderModel::start().fed_text(bytes) + DecoderModel::start().fed(bytes).finished_text()
            == decode_lines(bytes, false).0,
        DecoderModel::start().fed(bytes).finished().in_reasoning == decode_lines(bytes, false).1,
{
    let all = DecoderModel::start().pending + bytes;
    assert(all =~= bytes);
    let done = complete_lines(bytes);
    let open = unfinished_line(bytes);
    lemma_last_line_start_bounds(bytes);
    assert(done + open =~= bytes);
    if done.len() > 0 {
        assert(done.last() == bytes[last_line_start(bytes) - 1]);
    }
    lemma_decode_lines_splits(done, open, false);
}

/// A response that broke off: the transport failed before the stream ended.
#[derive(Debug)]
pub struct TransportError {
    /// What the transport said of the failure.
    pub detail: String,
}

/// The decoder of one response.
pub struct StreamDecoder {
    in_reasoning: bool,
    pending: Vec<u8>,
}

impl View for StreamDecoder {
    type V = DecoderModel;

    closed spec fn view(&self) -> DecoderModel {
        DecoderModel { in_reasoning: self.in_reasoning, pending: self.pending@ }
    }
}

impl StreamDecoder {
    /// The decoder at the start of a response.
    pub fn new() -> (r: StreamDecoder)
        ensures
            r@ == DecoderModel::start(),
            r@.wf(),
    {
        StreamDecoder { in_reasoning: false, pending: Vec::new() }
    }

    /// Ends the response: decodes the line that is still pending, if any.
    pub fn finish(&mut self) -> (text: String)
        ensures
            text@ == old(self)@.finished_text(),
            final(self)@ == old(self)@.finished(),
            final(self)@.wf(),
    {
        let mut is_reasoning = self.in_reasoning;
        let text = parse_lines(self.pending.as_slice(), &mut is_reasoning);
        self.in_reasoning = is_reasoning;
        self.pending = Vec::new();
        text
    }
}

/// Takes one chunk of a response, or the failure that came in its place.
///
/// A chunk is put behind the bytes that are pending; the lines that have ended
/// are decoded and their text returned; the line that has not ended stays
/// pending for the next chunk. A failure is handed on as it is, and the
/// decoder stays as it was.
pub fn parse_response(response: Result<&[u8], String>, decoder: &mut StreamDecoder) -> (r: Result<
    String,
    TransportError,
>)
    requires
        old(decoder)@.wf(),
    ensures
        final(decoder)@.wf(),
        match response {
            Ok(chunk) => final(decoder)@ == old(decoder)@.fed(chunk@) && (r matches Ok(text)
                && text@ == old(decoder)@.fed_text(chunk@)),
            Err(detail) => final(decoder)@ == old(decoder)@ && (r matches Err(e) && e.detail@
                == detail@),
        },
{
    let chunk = match response {
        Ok(chunk) => chunk,
        Err(detail) => {
            return Err(TransportError { detail });
        },
    };
    let ghost all = decoder@.pending + chunk@;
    let mut rest = slice_to_vec(chunk);
    decoder.pending.append(&mut rest);
    assert(decoder.pending@ =~= all);
    let mut start: usize = decoder.pending.len();
    while start > 0 && decoder.pending[start - 1] != 10u8
        invariant
            start <= decoder.pending.len(),
            decoder.pending@ == all,
            forall|i: int| start <= i < all.len() ==> all[i] != 10u8,
        decreases start,
    {
        start -= 1;
    }
    proof {
        lemma_last_line_start_is(all, start as int);
        lemma_cut_does_not_matter(old(decoder)@, chunk@, Seq::empty());
    }
    let open = decoder.pending.split_off(start);
    let mut is_reasoning = decoder.in_reasoning;
    let text = parse_lines(decoder.pending.as_slice(), &mut is_reasoning);
    decoder.in_reasoning = is_reasoning;
    decoder.pending = open;
    Ok(text)
}

/// One chunk of a response as it came: its bytes, or what the transport said
/// where it failed.
pub open spec fn chunk_model(chunk: Result<Vec<u8>, String>) -> Result<Seq<u8>, Seq<char>> {
    match chunk {
        Ok(bytes) => Ok(bytes@),
        Err(detail) => Err(detail@),
    }
}

/// The chunks of a response as they came.
pub open spec fn chunk_models(chunks: Seq<Result<Vec<u8>, String>>) -> Seq<
    Result<Seq<u8>, Seq<char>>,
> {
    Seq::new(chunks.len(), |i: int| chunk_model(chunks[i]))
}

/// What the transport said of the first chunk that failed, if one did.
pub open spec fn first_failure(chunks: Seq<Result<Seq<u8>, Seq<char>>>) -> Option<Seq<char>>
    decreases chunks.len(),
{
    if chunks.len() == 0 {
        None
    } else {
        match first_failure(chunks.drop_last()) {
            Some(detail) => Some(detail),
            None => match chunks.last() {
                Ok(_) => None,
                Err(detail) => Some(detail),
            },
        }
    }
}

/// The body of a response: the bytes of its chunks, one behind the other.
pub open spec fn body(chunks: Seq<Result<Seq<u8>, Seq<char>>>) -> Seq<u8>
    decreases chunks.len(),
{
    if chunks.len() == 0 {
        Seq::empty()
    } else {
        body(chunks.drop_last()) + match chunks.last() {
            Ok(bytes) => bytes,
            Err(_) => Seq::empty(),
        }
    }
}

/// The text of a response: that of the lines of its body, the decoder
/// starting outside a reasoning span; or the first failure of the transport.
/// Only the body counts, not where it was cut into chunks.
pub open spec fn response_text(chunks: Seq<Result<Seq<u8>, Seq<char>>>) -> Result<
    Seq<char>,
    Seq<char>,
> {
    match first_failure(chunks) {
        Some(detail) => Err(detail),
        None => Ok(decode_lines(body(chunks), false).0),
    }
}

/// Once a chunk has failed, the response has failed with it.
pub proof fn lemma_first_failure_stays(chunks: Seq<Result<Seq<u8>, Seq<char>>>, n: int)
    requires
        0 <= n <= chunks.len(),
        first_failure(chunks.take(n)) is Some,
    ensures
        first_failure(chunks) == first_failure(chunks.take(n)),
    decreases chunks.len() - n,
{
    if n == chunks.len() {
        assert(chunks.take(n) =~= chunks);
    } else {
        let next = chunks.take(n + 1);
        assert(next.drop_last() =~= chunks.take(n));
        lemma_first_failure_stays(chunks, n + 1);
    }
}

/// Two responses that arrive whole and have the same body have the same text,
/// however differently they are cut into chunks.
pub proof fn lemma_text_depends_on_body_only(
    one: Seq<Result<Seq<u8>, Seq<char>>>,
    other: Seq<Result<Seq<u8>, Seq<char>>>,
)
    requires
        first_failure(one) is None,
        first_failure(other) is None,
        body(one) == body(other),
    ensures
        response_text(one) == response_text(other),
{
}

/// Decodes a whole response from its chunks, in arrival order. The first
/// chunk that failed fails the response.
pub fn decode_stream(chunks: &Vec<Result<Vec<u8>, String>>) -> (r: Result<String, TransportError>)
    ensures
        match response_text(chunk_models(chunks@)) {
            Ok(text) => r matches Ok(said) && said@ == text,
            Err(detail) => r matches Err(e) && e.detail@ == detail,
        },
{
    let ghost all = chunk_models(chunks@);
    let mut text = String::new();
    let mut decoder = StreamDecoder::new();
    let mut i: usize = 0;
    proof {
        let nothing = DecoderModel::start().pending + body(all.take(0));
        assert(nothing =~= Seq::<u8>::empty());
        assert(unfinished_line(nothing) =~= Seq::<u8>::empty());
        assert(complete_lines(nothing) =~= Seq::<u8>::empty());
    }
    while i < chunks.len()
        invariant
            i <= chunks.len(),
            all == chunk_models(chunks@),
            first_failure(all.take(i as int)) is None,
            decoder@.wf(),
            decoder@ == DecoderModel::start().fed(body(all.take(i as int))),
            text@ == DecoderModel::start().fed_text(body(all.take(i as int))),
        decreases chunks.len() - i,
    {
        let ghost before = body(all.take(i as int));
        proof {
            let next = all.take(i + 1);
            assert(next.drop_last() =~= all.take(i as int));
            assert(next.last() == chunk_model(chunks@[i as int]));
        }
        let delta = match &chunks[i] {
            Ok(bytes) => {
                proof {
                    lemma_cut_does_not_matter(DecoderModel::start(), before, bytes@);
                }
                match parse_response(Ok(bytes.as_slice()), &mut decoder) {
                    Ok(delta) => delta,
                    Err(e) => {
                        return Err(e);
                    },
                }
            },
            Err(detail) => {
                proof {
                    lemma_first_failure_stays(all, i + 1);
                }
                return Err(TransportError { detail: detail.clone() });
            },
        };
        text.append(delta.as_str());
        i += 1;
    }
    proof {
        assert(all.take(i as int) =~= all);
        lemma_finish_completes(body(all));
    }
    let last = decoder.finish();
    text.append(last.as_str());
    Ok(text)
}

} // verus!
