use crate::chat::{
    answered, delta_content, delta_text, lemma_history_stays_within_limit, record_reply,
};
use crate::history::{history_of, SessionStore};
use crate::message::{MessageView, Role};
use crate::json::{json_model, json_parse, parse_json};
use serde_json::Value;
use vstd::prelude::*;
use vstd::string::*;

verus! {

/// The byte that ends a line.
pub const LINE_FEED: u8 = 10;

/// The name of the event that carries one fragment to the caller.
pub const STREAM_EVENT: &'static str = "llm-stream";

/// The marker that a payload line begins with: the bytes of `data:`.
pub open spec fn data_marker() -> Seq<u8> {
    seq![100u8, 97u8, 116u8, 97u8, 58u8]
}

/// The payload that ends a stream: the bytes of `[DONE]`.
pub open spec fn done_sentinel() -> Seq<u8> {
    seq![91u8, 68u8, 79u8, 78u8, 69u8, 93u8]
}

/// Space, tab, line feed, form feed and carriage return.
pub open spec fn is_blank(byte: u8) -> bool {
    byte == 32 || byte == 9 || byte == 10 || byte == 12 || byte == 13
}

/// `bytes` without the blanks it starts with.
pub open spec fn strip_start(bytes: Seq<u8>) -> Seq<u8>
    decreases bytes.len(),
{
    if bytes.len() > 0 && is_blank(bytes[0]) {
        strip_start(bytes.skip(1))
    } else {
        bytes
    }
}

/// `bytes` without the blanks it ends with.
pub open spec fn strip_end(bytes: Seq<u8>) -> Seq<u8>
    decreases bytes.len(),
{
    if bytes.len() > 0 && is_blank(bytes.last()) {
        strip_end(bytes.drop_last())
    } else {
        bytes
    }
}

/// `bytes` without the blanks around it.
pub open spec fn stripped(bytes: Seq<u8>) -> Seq<u8> {
    strip_end(strip_start(bytes))
}

/// The payload of a line: what follows the marker, without the blanks around
/// it. A line that does not begin with the marker has none.
pub open spec fn payload_of(line: Seq<u8>) -> Option<Seq<u8>> {
    if line.len() >= 5 && line.take(5) == data_marker() {
        Some(stripped(line.skip(5)))
    } else {
        None
    }
}

/// What one line of a stream means, as contracts see it.
pub enum FrameView {
    /// The sentinel: the stream is over.
    Done,
    /// A fragment of the reply.
    Token(Seq<char>),
    /// A payload that is no JSON document. It is passed over.
    Unreadable,
    /// Nothing: no payload line, or a document without a fragment.
    Skipped,
}

/// What one line of a stream means.
#[derive(Debug, PartialEq, Eq)]
pub enum Frame {
    /// The sentinel: the stream is over.
    Done,
    /// A fragment of the reply.
    Token(String),
    /// A payload that is no JSON document. It is passed over.
    Unreadable,
    /// Nothing: no payload line, or a document without a fragment.
    Skipped,
}

impl View for Frame {
    type V = FrameView;

    open spec fn view(&self) -> FrameView {
        match self {
            Frame::Done => FrameView::Done,
            Frame::Token(text) => FrameView::Token(text@),
            Frame::Unreadable => FrameView::Unreadable,
            Frame::Skipped => FrameView::Skipped,
        }
    }
}

/// What a payload other than the sentinel means, given the document it
/// writes, if it writes one.
pub open spec fn token_of(document: Option<crate::json::Json>) -> FrameView {
    match document {
        Some(doc) => match delta_text(doc) {
            Some(text) => FrameView::Token(text),
            None => FrameView::Skipped,
        },
        None => FrameView::Unreadable,
    }
}

/// What the line `line` means.
pub open spec fn frame_of(line: Seq<u8>) -> FrameView {
    match payload_of(line) {
        None => FrameView::Skipped,
        Some(payload) => if payload == done_sentinel() {
            FrameView::Done
        } else {
            token_of(json_parse(payload))
        },
    }
}

fn blank(byte: u8) -> (b: bool)
    ensures
        b == is_blank(byte),
{
    byte == 32 || byte == 9 || byte == 10 || byte == 12 || byte == 13
}

fn has_marker(line: &[u8]) -> (b: bool)
    ensures
        b == (line@.len() >= 5 && line@.take(5) == data_marker()),
{
    if line.len() < 5 {
        return false;
    }
    let b = line[0] == 100 && line[1] == 97 && line[2] == 116 && line[3] == 97 && line[4] == 58;
    proof {
        if b {
            assert(line@.take(5) =~= data_marker());
        } else {
            let m = line@.take(5);
            assert(m[0] == line@[0] && m[1] == line@[1] && m[2] == line@[2] && m[3] == line@[3]
                && m[4] == line@[4]);
        }
    }
    b
}

/// Takes the payload out of a line of the stream.
pub fn frame_payload(line: &[u8]) -> (payload: Option<Vec<u8>>)
    ensures
        match payload {
            Some(bytes) => payload_of(line@) == Some(bytes@),
            None => payload_of(line@) is None,
        },
{
    if !has_marker(line) {
        return None;
    }
    let ghost rest = line@.skip(5);
    let mut lo: usize = 5;
    while lo < line.len() && blank(line[lo])
        invariant
            5 <= lo <= line@.len(),
            strip_start(rest) == strip_start(line@.skip(lo as int)),
        decreases line@.len() - lo,
    {
        proof {
            let here = line@.skip(lo as int);
            assert(here[0] == line@[lo as int]);
            assert(here.skip(1) =~= line@.skip(lo + 1));
        }
        lo = lo + 1;
    }
    let ghost tail = line@.skip(lo as int);
    proof {
        if tail.len() > 0 {
            assert(tail[0] == line@[lo as int]);
        }
        assert(strip_start(rest) == tail);
        assert(tail.take(line@.len() - lo) =~= tail);
    }
    let mut hi: usize = line.len();
    while hi > lo && blank(line[hi - 1])
        invariant
            lo <= hi <= line@.len(),
            tail == line@.skip(lo as int),
            strip_end(tail) == strip_end(tail.take(hi - lo)),
        decreases hi,
    {
        proof {
            let here = tail.take(hi - lo);
            assert(here.last() == line@[hi - 1]);
            assert(here.drop_last() =~= tail.take(hi - 1 - lo));
        }
        hi = hi - 1;
    }
    let ghost kept = tail.take(hi - lo);
    proof {
        if kept.len() > 0 {
            assert(kept.last() == line@[hi - 1]);
        }
        assert(strip_end(tail) == kept);
    }
    let mut bytes: Vec<u8> = Vec::new();
    let mut i: usize = lo;
    while i < hi
        invariant
            lo <= i <= hi <= line@.len(),
            bytes@ == line@.subrange(lo as int, i as int),
        decreases hi - i,
    {
        bytes.push(line[i]);
        proof {
            assert(bytes@ =~= line@.subrange(lo as int, i + 1));
        }
        i = i + 1;
    }
    proof {
        assert(bytes@ =~= kept);
    }
    Some(bytes)
}

/// Whether a payload is the sentinel that ends the stream.
pub fn is_done_payload(payload: &[u8]) -> (done: bool)
    ensures
        done == (payload@ == done_sentinel()),
{
    if payload.len() != 6 {
        return false;
    }
    let done = payload[0] == 91 && payload[1] == 68 && payload[2] == 79 && payload[3] == 78
        && payload[4] == 69 && payload[5] == 93;
    proof {
        if done {
            assert(payload@ =~= done_sentinel());
        }
    }
    done
}

/// What a payload other than the sentinel means, once it has been parsed: a
/// fragment where the document holds one, nothing where it holds none, and
/// unreadable where the payload was no document.
pub fn token_frame(document: Option<Value>) -> (frame: Frame)
    ensures
        frame@ == token_of(
            match document {
                Some(value) => Some(json_model(value)),
                None => None,
            },
        ),
{
    match document {
        Some(value) => match delta_content(&value) {
            Some(text) => Frame::Token(text),
            None => Frame::Skipped,
        },
        None => Frame::Unreadable,
    }
}

/// Reads one line of the stream. A payload that cannot be read is skipped,
/// never an error: keep-alive lines and broken frames are to be expected.
pub fn read_frame(line: &[u8]) -> (frame: Frame)
    ensures
        frame@ == frame_of(line@),
{
    match frame_payload(line) {
        None => Frame::Skipped,
        Some(payload) => {
            if is_done_payload(payload.as_slice()) {
                Frame::Done
            } else {
                token_frame(parse_json(payload.as_slice()))
            }
        },
    }
}

/// The lines of `data` that are complete, each without the line feed that
/// ends it.
pub open spec fn complete_lines(data: Seq<u8>) -> Seq<Seq<u8>>
    decreases data.len(),
{
    if data.len() == 0 {
        Seq::empty()
    } else if data.last() == LINE_FEED {
        complete_lines(data.drop_last()).push(unfinished_line(data.drop_last()))
    } else {
        complete_lines(data.drop_last())
    }
}

/// What follows the last line feed of `data`: the beginning of a line that is
/// not complete yet.
pub open spec fn unfinished_line(data: Seq<u8>) -> Seq<u8>
    decreases data.len(),
{
    if data.len() == 0 || data.last() == LINE_FEED {
        Seq::empty()
    } else {
        unfinished_line(data.drop_last()).push(data.last())
    }
}

/// Whether one of `lines` is the sentinel.
pub open spec fn ended(lines: Seq<Seq<u8>>) -> bool {
    exists|i: int| 0 <= i < lines.len() && frame_of(#[trigger] lines[i]) is Done
}

/// The fragments that `lines` carry, in their order: those of the lines before
/// the first sentinel.
pub open spec fn fragments(lines: Seq<Seq<u8>>) -> Seq<Seq<char>>
    decreases lines.len(),
{
    if lines.len() == 0 {
        Seq::empty()
    } else if ended(lines.drop_last()) {
        fragments(lines.drop_last())
    } else {
        match frame_of(lines.last()) {
            FrameView::Token(text) => fragments(lines.drop_last()).push(text),
            _ => fragments(lines.drop_last()),
        }
    }
}

/// `parts` put together, one after the other.
pub open spec fn concatenated(parts: Seq<Seq<char>>) -> Seq<char>
    decreases parts.len(),
{
    if parts.len() == 0 {
        Seq::empty()
    } else {
        concatenated(parts.drop_last()) + parts.last()
    }
}

/// A decoder as contracts see it.
pub struct DecoderState {
    /// The bytes of the line that is not complete yet.
    pub pending: Seq<u8>,
    /// The fragments received so far, put together.
    pub reply: Seq<char>,
    /// Whether the stream is over.
    pub done: bool,
}

impl DecoderState {
    /// A decoder that has received nothing.
    pub open spec fn initial() -> Self {
        DecoderState { pending: Seq::empty(), reply: Seq::empty(), done: false }
    }

    /// The fragments that are delivered when `chunk` arrives.
    pub open spec fn delivers(self, chunk: Seq<u8>) -> Seq<Seq<char>> {
        if self.done {
            Seq::empty()
        } else {
            fragments(complete_lines(self.pending + chunk))
        }
    }

    /// The state after `chunk` has arrived. Once the stream is over nothing
    /// changes any more.
    pub open spec fn fed(self, chunk: Seq<u8>) -> Self {
        if self.done {
            self
        } else {
            let data = self.pending + chunk;
            let over = ended(complete_lines(data));
            DecoderState {
                pending: if over {
                    Seq::empty()
                } else {
                    unfinished_line(data)
                },
                reply: self.reply + concatenated(self.delivers(chunk)),
                done: over,
            }
        }
    }

    /// The fragments that are delivered when the transport reports the end: the
    /// one of the line that was left unfinished, if it carries one.
    pub open spec fn delivers_at_end(self) -> Seq<Seq<char>> {
        if self.done || self.pending.len() == 0 {
            Seq::empty()
        } else {
            match frame_of(self.pending) {
                FrameView::Token(text) => seq![text],
                _ => Seq::empty(),
            }
        }
    }

    /// The state after the transport has reported the end.
    pub open spec fn closed(self) -> Self {
        DecoderState {
            pending: Seq::empty(),
            reply: self.reply + concatenated(self.delivers_at_end()),
            done: true,
        }
    }
}

/// The lines of a whole body: the complete ones and, where the body does not
/// end in a line feed, what follows the last one.
pub open spec fn all_lines(body: Seq<u8>) -> Seq<Seq<u8>> {
    if unfinished_line(body).len() > 0 {
        complete_lines(body).push(unfinished_line(body))
    } else {
        complete_lines(body)
    }
}

/// The fragments that a whole body carries, in their order.
pub open spec fn stream_fragments(body: Seq<u8>) -> Seq<Seq<char>> {
    fragments(all_lines(body))
}

/// The reply that a whole body carries.
pub open spec fn stream_reply(body: Seq<u8>) -> Seq<char> {
    concatenated(stream_fragments(body))
}

/// The views of `tokens`, one for one.
pub open spec fn token_texts(tokens: Seq<String>) -> Seq<Seq<char>> {
    tokens.map_values(|token: String| token@)
}

/// Lines only get more as bytes arrive: the complete lines of `data` are the
/// first of the complete lines of `data + more`.
pub proof fn lemma_lines_grow(data: Seq<u8>, more: Seq<u8>)
    ensures
        complete_lines(data).len() <= complete_lines(data + more).len(),
        complete_lines(data + more).take(complete_lines(data).len() as int) == complete_lines(data),
    decreases more.len(),
{
    let whole = data + more;
    if more.len() == 0 {
        assert(whole =~= data);
        assert(complete_lines(data).take(complete_lines(data).len() as int) =~= complete_lines(
            data,
        ));
    } else {
        let shorter = more.drop_last();
        assert(whole.drop_last() =~= data + shorter);
        lemma_lines_grow(data, shorter);
        let n = complete_lines(data).len() as int;
        assert(complete_lines(whole).take(n) =~= complete_lines(data + shorter).take(n));
    }
}

/// Nothing is delivered after the sentinel: where `before` holds it and `lines`
/// begins with `before`, `lines` carries the fragments of `before` and no more.
pub proof fn lemma_ended_stays(before: Seq<Seq<u8>>, lines: Seq<Seq<u8>>)
    requires
        before.len() <= lines.len(),
        lines.take(before.len() as int) == before,
        ended(before),
    ensures
        ended(lines),
        fragments(lines) == fragments(before),
    decreases lines.len(),
{
    let at = choose|i: int| 0 <= i < before.len() && frame_of(#[trigger] before[i]) is Done;
    assert(lines[at] == lines.take(before.len() as int)[at]);
    if before.len() == lines.len() {
        assert(lines =~= before);
    } else {
        let shorter = lines.drop_last();
        assert(shorter.take(before.len() as int) =~= before);
        lemma_ended_stays(before, shorter);
    }
}

/// The decoder of one streamed answer. It takes the body as it arrives, in
/// chunks of any size, hands out the fragments as soon as their lines are
/// complete, and keeps the reply that they add up to.
pub struct StreamDecoder {
    pending: Vec<u8>,
    reply: String,
    done: bool,
}

impl View for StreamDecoder {
    type V = DecoderState;

    closed spec fn view(&self) -> DecoderState {
        DecoderState { pending: self.pending@, reply: self.reply@, done: self.done }
    }
}

/// Whether `line` is free of line feeds.
pub open spec fn is_one_line(line: Seq<u8>) -> bool {
    forall|i: int| 0 <= i < line.len() ==> #[trigger] line[i] != LINE_FEED
}

proof fn lemma_one_line(line: Seq<u8>)
    requires
        is_one_line(line),
    ensures
        complete_lines(line) == Seq::<Seq<u8>>::empty(),
        unfinished_line(line) == line,
    decreases line.len(),
{
    if line.len() > 0 {
        let shorter = line.drop_last();
        assert(is_one_line(shorter)) by {
            assert forall|i: int| 0 <= i < shorter.len() implies #[trigger] shorter[i]
                != LINE_FEED by {
                assert(shorter[i] == line[i]);
            }
        }
        lemma_one_line(shorter);
        assert(line[line.len() - 1] != LINE_FEED);
        assert(shorter.push(line.last()) =~= line);
    } else {
        assert(unfinished_line(line) =~= line);
    }
}

proof fn lemma_next_line(lines: Seq<Seq<u8>>, line: Seq<u8>)
    requires
        !ended(lines),
    ensures
        ended(lines.push(line)) == (frame_of(line) is Done),
        fragments(lines.push(line)) == match frame_of(line) {
            FrameView::Token(text) => fragments(lines).push(text),
            _ => fragments(lines),
        },
{
    let longer = lines.push(line);
    assert(longer.drop_last() =~= lines);
    assert(longer.last() == line);
    if frame_of(line) is Done {
        assert(frame_of(longer[lines.len() as int]) is Done);
    } else {
        if ended(longer) {
            let at = choose|i: int| 0 <= i < longer.len() && frame_of(#[trigger] longer[i]) is Done;
            if at < lines.len() {
                assert(longer[at] == lines[at]);
            }
        }
    }
}

proof fn lemma_concatenated_push(parts: Seq<Seq<char>>, part: Seq<char>)
    ensures
        concatenated(parts.push(part)) == concatenated(parts) + part,
{
    assert(parts.push(part).drop_last() =~= parts);
}

impl StreamDecoder {
    #[verifier::type_invariant]
    spec fn inv(self) -> bool {
        is_one_line(self.pending@)
    }

    /// A decoder that has received nothing.
    pub fn new() -> (decoder: Self)
        ensures
            decoder@ == DecoderState::initial(),
    {
        StreamDecoder { pending: Vec::new(), reply: String::new(), done: false }
    }

    /// Whether the stream is over: the sentinel was read, or the end reported.
    pub fn is_done(&self) -> (done: bool)
        ensures
            done == self@.done,
    {
        self.done
    }

    /// The reply as far as it has arrived.
    pub fn reply(&self) -> (reply: &str)
        ensures
            reply@ == self@.reply,
    {
        self.reply.as_str()
    }

    /// Takes the next chunk of the body and returns the fragments that it
    /// completes, in their order, for the caller to deliver at once. The same
    /// fragments are added to the reply.
    pub fn feed(&mut self, chunk: &[u8]) -> (tokens: Vec<String>)
        ensures
            final(self)@ == old(self)@.fed(chunk@),
            token_texts(tokens@) == old(self)@.delivers(chunk@),
            final(self)@.reply == old(self)@.reply + concatenated(token_texts(tokens@)),
            is_one_line(old(self)@.pending),
            is_one_line(final(self)@.pending),
    {
        proof {
            use_type_invariant(&*self);
        }
        let mut tokens: Vec<String> = Vec::new();
        assert(token_texts(tokens@) =~= Seq::<Seq<char>>::empty());
        if self.done {
            assert(self.reply@ + concatenated(token_texts(tokens@)) =~= self.reply@);
            return tokens;
        }
        let ghost start = self.pending@;
        let ghost first = self.reply@;
        let ghost whole = start + chunk@;
        let mut pending: Vec<u8> = Vec::new();
        let mut reply = String::new();
        core::mem::swap(&mut self.pending, &mut pending);
        core::mem::swap(&mut self.reply, &mut reply);
        let mut over = false;
        let mut i: usize = 0;
        proof {
            assert(start + chunk@.take(0) =~= start);
            lemma_one_line(start);
            assert(first + concatenated(token_texts(tokens@)) =~= first);
        }
        while i < chunk.len() && !over
            invariant
                0 <= i <= chunk@.len(),
                whole == start + chunk@,
                is_one_line(pending@),
                !over ==> pending@ == unfinished_line(start + chunk@.take(i as int)),
                over ==> pending@.len() == 0,
                over == ended(complete_lines(start + chunk@.take(i as int))),
                token_texts(tokens@) == fragments(complete_lines(start + chunk@.take(i as int))),
                reply@ == first + concatenated(token_texts(tokens@)),
            decreases chunk@.len() - i,
        {
            let byte = chunk[i];
            let ghost seen = start + chunk@.take(i as int);
            let ghost next = start + chunk@.take(i + 1);
            let ghost lines = complete_lines(seen);
            proof {
                assert(next =~= seen.push(byte));
                assert(next.drop_last() =~= seen);
                assert(next.last() == byte);
            }
            if byte == LINE_FEED {
                let frame = read_frame(pending.as_slice());
                proof {
                    lemma_next_line(lines, pending@);
                }
                pending.clear();
                match frame {
                    Frame::Done => {
                        over = true;
                    },
                    Frame::Token(text) => {
                        reply.append(text.as_str());
                        proof {
                            lemma_concatenated_push(token_texts(tokens@), text@);
                            assert(token_texts(tokens@.push(text)) =~= token_texts(tokens@).push(
                                text@,
                            ));
                            assert(reply@ =~= first + concatenated(
                                token_texts(tokens@).push(text@),
                            ));
                        }
                        tokens.push(text);
                    },
                    _ => {},
                }
            } else {
                pending.push(byte);
            }
            i = i + 1;
        }
        proof {
            let seen = start + chunk@.take(i as int);
            if over {
                assert(whole =~= seen + chunk@.skip(i as int));
                lemma_lines_grow(seen, chunk@.skip(i as int));
                lemma_ended_stays(complete_lines(seen), complete_lines(whole));
            } else {
                assert(chunk@.take(i as int) =~= chunk@);
            }
            assert(pending@ =~= old(self)@.fed(chunk@).pending);
        }
        core::mem::swap(&mut self.pending, &mut pending);
        core::mem::swap(&mut self.reply, &mut reply);
        self.done = over;
        tokens
    }

    /// Takes note that the transport has reported the end of the body. A line
    /// that was left without its line feed is read as the last one; what it
    /// carries is returned for delivery and added to the reply.
    pub fn finish(&mut self) -> (tokens: Vec<String>)
        ensures
            final(self)@ == old(self)@.closed(),
            token_texts(tokens@) == old(self)@.delivers_at_end(),
            final(self)@.reply == old(self)@.reply + concatenated(token_texts(tokens@)),
    {
        proof {
            use_type_invariant(&*self);
        }
        let mut tokens: Vec<String> = Vec::new();
        let ghost first = self.reply@;
        assert(token_texts(tokens@) =~= Seq::<Seq<char>>::empty());
        assert(first + concatenated(token_texts(tokens@)) =~= first);
        let mut pending: Vec<u8> = Vec::new();
        core::mem::swap(&mut self.pending, &mut pending);
        if !self.done && pending.len() > 0 {
            match read_frame(pending.as_slice()) {
                Frame::Token(text) => {
                    let mut reply = String::new();
                    core::mem::swap(&mut self.reply, &mut reply);
                    reply.append(text.as_str());
                    core::mem::swap(&mut self.reply, &mut reply);
                    proof {
                        lemma_concatenated_push(token_texts(tokens@), text@);
                        assert(token_texts(tokens@.push(text)) =~= seq![text@]);
                        assert(token_texts(tokens@).push(text@) =~= seq![text@]);
                        assert(self.reply@ =~= first + concatenated(seq![text@]));
                    }
                    tokens.push(text);
                },
                _ => {},
            }
        }
        self.done = true;
        tokens
    }

    /// Gives up the decoder for the reply it has put together.
    pub fn into_reply(self) -> (reply: String)
        ensures
            reply@ == self@.reply,
    {
        self.reply
    }
}

/// `chunks` put together, one after the other.
pub open spec fn joined(chunks: Seq<Seq<u8>>) -> Seq<u8>
    decreases chunks.len(),
{
    if chunks.len() == 0 {
        Seq::empty()
    } else {
        joined(chunks.drop_last()) + chunks.last()
    }
}

/// The state after `chunks` have arrived, one after the other.
pub open spec fn received(state: DecoderState, chunks: Seq<Seq<u8>>) -> DecoderState
    decreases chunks.len(),
{
    if chunks.len() == 0 {
        state
    } else {
        received(state, chunks.drop_last()).fed(chunks.last())
    }
}

/// The fragments delivered while `chunks` arrived, one after the other.
pub open spec fn delivered(state: DecoderState, chunks: Seq<Seq<u8>>) -> Seq<Seq<char>>
    decreases chunks.len(),
{
    if chunks.len() == 0 {
        Seq::empty()
    } else {
        delivered(state, chunks.drop_last()) + received(state, chunks.drop_last()).delivers(
            chunks.last(),
        )
    }
}

/// Where a line feed falls between two pieces of the body makes no
/// difference: the lines of the whole are the complete lines of the first
/// piece, then those of what the first piece left unfinished together with
/// the second.
pub proof fn lemma_lines_split(data: Seq<u8>, more: Seq<u8>)
    ensures
        complete_lines(data + more) == complete_lines(data) + complete_lines(
            unfinished_line(data) + more,
        ),
        unfinished_line(data + more) == unfinished_line(unfinished_line(data) + more),
    decreases more.len(),
{
    let whole = data + more;
    let rest = unfinished_line(data) + more;
    if more.len() == 0 {
        assert(whole =~= data);
        assert(rest =~= unfinished_line(data));
        lemma_unfinished_is_one_line(data);
        lemma_one_line(unfinished_line(data));
        assert(complete_lines(data) + Seq::<Seq<u8>>::empty() =~= complete_lines(data));
    } else {
        let shorter = more.drop_last();
        assert(whole.drop_last() =~= data + shorter);
        assert(rest.drop_last() =~= unfinished_line(data) + shorter);
        assert(whole.last() == rest.last());
        lemma_lines_split(data, shorter);
        if whole.last() == LINE_FEED {
            assert(complete_lines(whole) =~= complete_lines(data) + complete_lines(rest));
        }
    }
}

/// What is left unfinished holds no line feed.
pub proof fn lemma_unfinished_is_one_line(data: Seq<u8>)
    ensures
        is_one_line(unfinished_line(data)),
    decreases data.len(),
{
    if data.len() > 0 && data.last() != LINE_FEED {
        lemma_unfinished_is_one_line(data.drop_last());
    }
}

/// Putting together is additive.
pub proof fn lemma_concatenated_add(first: Seq<Seq<char>>, second: Seq<Seq<char>>)
    ensures
        concatenated(first + second) == concatenated(first) + concatenated(second),
    decreases second.len(),
{
    if second.len() == 0 {
        assert(first + second =~= first);
        assert(concatenated(first) + concatenated(second) =~= concatenated(first));
    } else {
        let whole = first + second;
        assert(whole.drop_last() =~= first + second.drop_last());
        assert(whole.last() == second.last());
        lemma_concatenated_add(first, second.drop_last());
        assert(concatenated(whole) =~= concatenated(first) + concatenated(second));
    }
}

/// Before the sentinel, the fragments of lines that follow each other follow
/// each other.
pub proof fn lemma_fragments_add(first: Seq<Seq<u8>>, second: Seq<Seq<u8>>)
    requires
        !ended(first),
    ensures
        ended(first + second) == ended(second),
        fragments(first + second) == fragments(first) + fragments(second),
    decreases second.len(),
{
    let whole = first + second;
    if second.len() == 0 {
        assert(whole =~= first);
        assert(fragments(first) + fragments(second) =~= fragments(first));
    } else {
        let shorter = second.drop_last();
        assert(whole.drop_last() =~= first + shorter);
        assert(whole.last() == second.last());
        lemma_fragments_add(first, shorter);
        if ended(shorter) {
            assert(second.take(shorter.len() as int) =~= shorter);
            lemma_ended_stays(shorter, second);
            assert(whole.take((first + shorter).len() as int) =~= first + shorter);
            lemma_ended_stays(first + shorter, whole);
        } else {
            lemma_next_line(shorter, second.last());
            assert(shorter.push(second.last()) =~= second);
            lemma_next_line(first + shorter, second.last());
            assert((first + shorter).push(second.last()) =~= whole);
            assert(fragments(whole) =~= fragments(first) + fragments(second));
        }
    }
}

/// How the body is cut into chunks makes no difference: two chunks, one after
/// the other, leave the decoder where their concatenation leaves it, and
/// deliver the same fragments in the same order.
pub proof fn lemma_chunking_is_immaterial(state: DecoderState, a: Seq<u8>, b: Seq<u8>)
    ensures
        state.fed(a).fed(b) == state.fed(a + b),
        state.delivers(a) + state.fed(a).delivers(b) == state.delivers(a + b),
{
    if state.done {
        assert(state.delivers(a) + state.fed(a).delivers(b) =~= state.delivers(a + b));
    } else {
        let first = state.pending + a;
        let whole = state.pending + (a + b);
        assert(whole =~= first + b);
        let lines = complete_lines(first);
        if ended(lines) {
            lemma_lines_grow(first, b);
            lemma_ended_stays(lines, complete_lines(whole));
            assert(state.delivers(a) + state.fed(a).delivers(b) =~= state.delivers(a + b));
        } else {
            lemma_lines_split(first, b);
            let second = complete_lines(unfinished_line(first) + b);
            lemma_fragments_add(lines, second);
            lemma_concatenated_add(fragments(lines), fragments(second));
            assert(state.fed(a).fed(b).reply =~= state.fed(a + b).reply);
        }
    }
}

/// The same for any number of chunks: they leave the decoder where the whole
/// body, taken at once, leaves it, and deliver what it delivers.
pub proof fn lemma_chunks_are_the_body(state: DecoderState, chunks: Seq<Seq<u8>>)
    requires
        is_one_line(state.pending),
    ensures
        received(state, chunks) == state.fed(joined(chunks)),
        delivered(state, chunks) == state.delivers(joined(chunks)),
    decreases chunks.len(),
{
    if chunks.len() == 0 {
        if !state.done {
            assert(state.pending + joined(chunks) =~= state.pending);
            lemma_one_line(state.pending);
            assert(state.reply + concatenated(state.delivers(joined(chunks))) =~= state.reply);
        }
    } else {
        let before = chunks.drop_last();
        lemma_chunks_are_the_body(state, before);
        lemma_chunking_is_immaterial(state, joined(before), chunks.last());
    }
}

/// A decoder that took a whole body and was told of its end has delivered the
/// fragments of the body, in their order, and holds the reply of the body.
pub proof fn lemma_whole_body(body: Seq<u8>)
    ensures
        DecoderState::initial().delivers(body) + DecoderState::initial().fed(
            body,
        ).delivers_at_end() == stream_fragments(body),
        DecoderState::initial().fed(body).closed().reply == stream_reply(body),
{
    let start = DecoderState::initial();
    assert(start.pending + body =~= body);
    let lines = complete_lines(body);
    let left = unfinished_line(body);
    if ended(lines) {
        if left.len() > 0 {
            assert(lines.push(left).take(lines.len() as int) =~= lines);
            lemma_ended_stays(lines, lines.push(left));
        }
        assert(start.delivers(body) + start.fed(body).delivers_at_end() =~= stream_fragments(
            body,
        ));
    } else {
        if left.len() > 0 {
            lemma_next_line(lines, left);
        }
        assert(start.delivers(body) + start.fed(body).delivers_at_end() =~= stream_fragments(
            body,
        ));
    }
    lemma_concatenated_add(start.delivers(body), start.fed(body).delivers_at_end());
    assert(start.fed(body).closed().reply =~= stream_reply(body));
}

/// The reply that is left when a stream is over is what was delivered on the
/// way, put together in the order of delivery: the fragments handed out chunk
/// by chunk, then those handed out at the end.
pub proof fn lemma_reply_is_what_was_delivered(chunks: Seq<Seq<u8>>)
    ensures
        received(DecoderState::initial(), chunks).closed().reply == concatenated(
            delivered(DecoderState::initial(), chunks) + received(
                DecoderState::initial(),
                chunks,
            ).delivers_at_end(),
        ),
        received(DecoderState::initial(), chunks).closed().reply == stream_reply(joined(chunks)),
{
    let start = DecoderState::initial();
    let body = joined(chunks);
    lemma_chunks_are_the_body(start, chunks);
    lemma_whole_body(body);
    lemma_concatenated_add(start.delivers(body), start.fed(body).delivers_at_end());
    assert(start.fed(body).closed().reply =~= concatenated(
        start.delivers(body) + start.fed(body).delivers_at_end(),
    ));
}

/// A streamed answer ends with the session holding, as its newest message,
/// the assistant's reply made of exactly the fragments that were delivered,
/// in the order of their delivery. Without any fragment the message is there
/// all the same, and empty.
pub proof fn lemma_stream_commits_what_was_delivered(
    sessions: Map<Seq<char>, Seq<MessageView>>,
    session: Seq<char>,
    chunks: Seq<Seq<u8>>,
    max: nat,
)
    requires
        max > 0,
    ensures
        history_of(
            answered(
                sessions,
                session,
                received(DecoderState::initial(), chunks).closed().reply,
                max,
            ),
            session,
        ).last() == (MessageView {
            role: Role::Assistant,
            content: concatenated(
                delivered(DecoderState::initial(), chunks) + received(
                    DecoderState::initial(),
                    chunks,
                ).delivers_at_end(),
            ),
        }),
        delivered(DecoderState::initial(), chunks) + received(
            DecoderState::initial(),
            chunks,
        ).delivers_at_end() == Seq::<Seq<char>>::empty() ==> received(
            DecoderState::initial(),
            chunks,
        ).closed().reply == Seq::<char>::empty(),
{
    lemma_reply_is_what_was_delivered(chunks);
    let reply = received(DecoderState::initial(), chunks).closed().reply;
    lemma_history_stays_within_limit(
        history_of(sessions, session),
        Seq::empty(),
        Seq::empty(),
        reply,
        max,
    );
}

/// `lines` written out again, each with its line feed.
pub open spec fn rejoined(lines: Seq<Seq<u8>>) -> Seq<u8>
    decreases lines.len(),
{
    if lines.len() == 0 {
        Seq::empty()
    } else {
        rejoined(lines.drop_last()) + lines.last().push(LINE_FEED)
    }
}

/// Cutting into lines loses nothing and cuts at every line feed: the complete
/// lines, each with its line feed, and what is left unfinished make up the
/// data again, and no line holds a line feed.
pub proof fn lemma_lines_rebuild(data: Seq<u8>)
    ensures
        rejoined(complete_lines(data)) + unfinished_line(data) == data,
        forall|i: int|
            0 <= i < complete_lines(data).len() ==> is_one_line(#[trigger] complete_lines(data)[i]),
        is_one_line(unfinished_line(data)),
    decreases data.len(),
{
    lemma_unfinished_is_one_line(data);
    if data.len() == 0 {
        assert(rejoined(complete_lines(data)) + unfinished_line(data) =~= data);
    } else {
        let shorter = data.drop_last();
        lemma_lines_rebuild(shorter);
        lemma_unfinished_is_one_line(shorter);
        assert(shorter.push(data.last()) =~= data);
        if data.last() == LINE_FEED {
            let lines = complete_lines(data);
            assert(lines.drop_last() =~= complete_lines(shorter));
            assert(lines.last() == unfinished_line(shorter));
            assert(rejoined(lines) + unfinished_line(data) =~= data);
            assert forall|i: int| 0 <= i < lines.len() implies is_one_line(#[trigger] lines[i]) by {
                if i < lines.len() - 1 {
                    assert(lines[i] == complete_lines(shorter)[i]);
                }
            }
        } else {
            assert(rejoined(complete_lines(data)) + unfinished_line(data) =~= data);
        }
    }
}

/// Ends a streamed answer: the decoder is told of the end, and the reply it
/// has put together is recorded in the session as the assistant's message,
/// then trimmed. A reply without any fragment is recorded all the same, as an
/// empty message. Returns the fragments that are still to be delivered.
pub fn finish_stream(store: &mut SessionStore, session: &str, decoder: &mut StreamDecoder) -> (tokens:
    Vec<String>)
    ensures
        final(decoder)@ == old(decoder)@.closed(),
        token_texts(tokens@) == old(decoder)@.delivers_at_end(),
        final(store)@ == answered(
            old(store)@,
            session@,
            old(decoder)@.closed().reply,
            old(store).max_messages(),
        ),
        final(store).max_messages() == old(store).max_messages(),
        final(store).preamble() == old(store).preamble(),
{
    let tokens = decoder.finish();
    record_reply(store, session, decoder.reply());
    tokens
}

} // verus!
