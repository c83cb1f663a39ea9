//! Reading a streamed chat completion: server-sent events, one per line.

use vstd::prelude::*;
use vstd::utf8::{decode_utf8, encode_utf8, valid_utf8};

use crate::json::{field_of, item_of, json_read, optional_json, parse, text_of, Json, JsonView};
use crate::text::{
    characters, join_two, optional_text, same, slice_text, starts_with,
    the_first_mark_ends_the_part, trim_slice, trimmed, trimmed_start, up_to, white_space,
};

verus! {

/// How many bytes of text a stream may hold back while a line is unfinished: ten mebibytes.
pub const STREAM_BUFFER_LIMIT: usize = 10485760;

/// A piece of a streamed completion.
#[derive(Debug, PartialEq, Eq)]
pub enum StreamChunk {
    Content(String),
    Error(String),
    Done,
}

/// The model of a [`StreamChunk`].
pub enum StreamChunkView {
    Content(Seq<char>),
    Error(Seq<char>),
    Done,
}

impl View for StreamChunk {
    type V = StreamChunkView;

    open spec fn view(&self) -> StreamChunkView {
        match self {
            StreamChunk::Content(s) => StreamChunkView::Content(s@),
            StreamChunk::Error(s) => StreamChunkView::Error(s@),
            StreamChunk::Done => StreamChunkView::Done,
        }
    }
}

/// The models of a list of chunks.
pub open spec fn chunks_view(chunks: Seq<StreamChunk>) -> Seq<StreamChunkView> {
    chunks.map_values(|c: StreamChunk| c@)
}

/// The model of an optional chunk.
pub open spec fn optional_chunk(chunk: Option<StreamChunk>) -> Option<StreamChunkView> {
    match chunk {
        Some(c) => Some(c@),
        None => None,
    }
}

/// The text that an event adds: `choices[0].delta.content`.
pub open spec fn delta_content(event: JsonView) -> Option<Seq<char>> {
    text_of(
        field_of(field_of(item_of(event.get("choices"@), 0), "delta"@), "content"@),
    )
}

/// The chunk that an event's data makes, where the data is the given JSON or none.
pub open spec fn content_chunk_of(event: Option<JsonView>) -> Option<StreamChunkView> {
    match event {
        Some(event) => match delta_content(event) {
            Some(s) => if s.len() > 0 {
                Some(StreamChunkView::Content(s))
            } else {
                None
            },
            None => None,
        },
        None => None,
    }
}

/// The chunk that an event makes: `data: [DONE]` ends the stream, and `data: ` in front of JSON
/// may add text. Nothing else makes a chunk.
pub open spec fn event_chunk_of(event: Seq<char>) -> Option<StreamChunkView> {
    if !"data: "@.is_prefix_of(event) {
        None
    } else if event.skip(6) == "[DONE]"@ {
        Some(StreamChunkView::Done)
    } else {
        content_chunk_of(json_read(event.skip(6)))
    }
}

/// The chunk that a line makes: that of the event which it holds, apart from white space around
/// it.
pub open spec fn line_chunk_of(line: Seq<char>) -> Option<StreamChunkView> {
    event_chunk_of(trimmed(line))
}

/// What a piece of text comes to: the chunks that its complete lines make, and the unfinished
/// line behind them. Nothing is left where a line ends the stream.
pub open spec fn decoded(text: Seq<char>) -> (Seq<StreamChunkView>, Option<Seq<char>>)
    decreases text.len(),
{
    let end = up_to(text, '\n').len() as int;
    if end >= text.len() {
        (Seq::empty(), Some(text))
    } else {
        let rest = decoded(text.skip(end + 1));
        match line_chunk_of(text.take(end)) {
            Some(StreamChunkView::Done) => (seq![StreamChunkView::Done], None),
            Some(chunk) => (seq![chunk] + rest.0, rest.1),
            None => rest,
        }
    }
}

/// The number of bytes that a text takes.
pub open spec fn byte_len(text: Seq<char>) -> nat {
    encode_utf8(text).len()
}

/// The text that `String::from_utf8_lossy` makes of bytes.
pub uninterp spec fn lossy_text(bytes: Seq<u8>) -> Seq<char>;

/// `String::from_utf8_lossy`: the text depends on the bytes alone, and is the one that they
/// encode where they are UTF-8.
#[verifier::external_body]
fn from_utf8_lossy(bytes: &[u8]) -> (r: String)
    ensures
        r@ == lossy_text(bytes@),
        valid_utf8(bytes@) ==> r@ == decode_utf8(bytes@),
{
    String::from_utf8_lossy(bytes).into_owned()
}

/// A stream that is being read.
#[derive(Debug)]
pub struct StreamDecoder {
    /// The line that is not finished yet.
    pub buffer: String,
    /// Whether the stream has ended.
    pub finished: bool,
}

/// The model of a [`StreamDecoder`].
#[verifier::ext_equal]
pub struct StreamView {
    pub pending: Seq<char>,
    pub finished: bool,
}

impl View for StreamDecoder {
    type V = StreamView;

    open spec fn view(&self) -> StreamView {
        StreamView { pending: self.buffer@, finished: self.finished }
    }
}

/// How a stream that holds back too much ends.
pub open spec fn overflow_message() -> Seq<char> {
    "Stream buffer limit exceeded"@
}

/// A stream from which nothing was read yet.
pub open spec fn unread() -> StreamView {
    StreamView { pending: Seq::empty(), finished: false }
}

/// A stream that has ended.
pub open spec fn ended() -> StreamView {
    StreamView { pending: Seq::empty(), finished: true }
}

/// What a stream does with more text: the chunks it yields and what becomes of it.
pub open spec fn fed(stream: StreamView, text: Seq<char>) -> (Seq<StreamChunkView>, StreamView) {
    if stream.finished {
        (Seq::empty(), stream)
    } else if byte_len(stream.pending) + byte_len(text) > STREAM_BUFFER_LIMIT {
        (seq![StreamChunkView::Error(overflow_message()), StreamChunkView::Done], ended())
    } else {
        let (chunks, rest) = decoded(stream.pending + text);
        match rest {
            Some(pending) => (chunks, StreamView { pending, finished: false }),
            None => (chunks, ended()),
        }
    }
}

impl StreamView {
    /// Whether what the stream holds back is within the limit.
    pub open spec fn within_limit(self) -> bool {
        byte_len(self.pending) <= STREAM_BUFFER_LIMIT
    }
}

/// The text that an event adds: `choices[0].delta.content`.
pub fn delta_text(event: &Json) -> (r: Option<String>)
    ensures
        optional_text(r) == delta_content(event@),
{
    let choices: &Json = match event.get("choices") {
        Some(v) => v,
        None => return None,
    };
    let choice: &Json = match choices.item(0) {
        Some(v) => v,
        None => return None,
    };
    match choice.get("delta") {
        Some(delta) => delta.text_at("content"),
        None => None,
    }
}

/// The chunk that an event makes, where its data is the given JSON or none.
pub fn content_chunk(event: Option<Json>) -> (r: Option<StreamChunk>)
    ensures
        optional_chunk(r) == content_chunk_of(optional_json(event)),
{
    match event {
        Some(event) => match delta_text(&event) {
            Some(s) => if s.as_str().is_empty() {
                None
            } else {
                Some(StreamChunk::Content(s))
            },
            None => None,
        },
        None => None,
    }
}

/// The chunk that an event makes.
pub fn event_chunk(event: &str) -> (r: Option<StreamChunk>)
    ensures
        optional_chunk(r) == event_chunk_of(event@),
{
    if !starts_with(event, "data: ") {
        return None;
    }
    proof {
        reveal_strlit("data: ");
    }
    let chars: Vec<char> = characters(event);
    let data: String = slice_text(&chars, 6, chars.len());
    assert(data@ == event@.skip(6));
    if same(data.as_str(), "[DONE]") {
        return Some(StreamChunk::Done);
    }
    content_chunk(parse(data.as_str()))
}

impl StreamDecoder {
    /// A stream from which nothing was read yet.
    pub fn new() -> (r: StreamDecoder)
        ensures
            r@ == unread(),
    {
        StreamDecoder { buffer: String::new(), finished: false }
    }

    fn finish(&mut self)
        ensures
            final(self)@ == ended(),
    {
        self.buffer = String::new();
        self.finished = true;
    }

    /// Reads more text of the stream.
    pub fn feed_text(&mut self, text: &str) -> (r: Vec<StreamChunk>)
        ensures
            chunks_view(r@) == fed(old(self)@, text@).0,
            final(self)@ == fed(old(self)@, text@).1,
    {
        let mut chunks: Vec<StreamChunk> = Vec::new();
        assert(chunks_view(chunks@) == Seq::<StreamChunkView>::empty());
        if self.finished {
            return chunks;
        }
        let more: usize = text.as_bytes().len();
        let held: usize = self.buffer.as_str().as_bytes().len();
        if more > STREAM_BUFFER_LIMIT || held > STREAM_BUFFER_LIMIT - more {
            self.finish();
            chunks.push(StreamChunk::Error("Stream buffer limit exceeded".to_owned()));
            chunks.push(StreamChunk::Done);
            assert(chunks_view(chunks@) == fed(old(self)@, text@).0);
            return chunks;
        }
        let all: String = join_two(self.buffer.as_str(), text);
        let chars: Vec<char> = characters(all.as_str());
        let mut start: usize = 0;
        let mut at: usize = 0;
        let ghost whole = decoded(chars@);
        assert(chars@.skip(0) == chars@);
        assert(chars@.subrange(0, 0) == Seq::<char>::empty());
        assert(chunks_view(chunks@) + whole.0 == whole.0);
        while at < chars.len()
            invariant
                start <= at <= chars@.len(),
                whole == decoded(chars@),
                whole == (
                    chunks_view(chunks@) + decoded(chars@.skip(start as int)).0,
                    decoded(chars@.skip(start as int)).1,
                ),
                forall|k: int| start <= k < at ==> chars@[k] != '\n',
                chars@ == old(self)@.pending + text@,
                !old(self)@.finished,
                !self.finished,
                byte_len(old(self)@.pending) + byte_len(text@) <= STREAM_BUFFER_LIMIT,
            decreases chars@.len() - at,
        {
            if chars[at] == '\n' {
                let ghost rest = chars@.skip(start as int);
                let ghost before = chunks_view(chunks@);
                proof {
                    lemma_up_to_is(rest, '\n', at - start);
                    assert(rest.take(at - start) == chars@.subrange(start as int, at as int));
                    assert(rest.skip(at - start + 1) == chars@.skip(at + 1));
                }
                let line: String = trim_slice(&chars, start, at);
                match event_chunk(line.as_str()) {
                    Some(StreamChunk::Done) => {
                        chunks.push(StreamChunk::Done);
                        assert(chunks_view(chunks@) == before.push(StreamChunkView::Done));
                        assert(chunks_view(chunks@) == whole.0);
                        self.finish();
                        return chunks;
                    },
                    Some(chunk) => {
                        chunks.push(chunk);
                        proof {
                            let tail = decoded(chars@.skip(at + 1)).0;
                            assert(chunks_view(chunks@) == before.push(chunk@));
                            assert(before + (seq![chunk@] + tail) == before.push(chunk@) + tail);
                        }
                    },
                    None => {},
                }
                start = at + 1;
            }
            at += 1;
        }
        proof {
            let rest = chars@.skip(start as int);
            lemma_up_to_all(rest, '\n');
            assert(chunks_view(chunks@) + Seq::<StreamChunkView>::empty() == chunks_view(chunks@));
            assert(rest == chars@.subrange(start as int, chars@.len() as int));
        }
        self.buffer = slice_text(&chars, start, chars.len());
        chunks
    }

    /// Reads more bytes of the stream. Bytes that are not UTF-8 are replaced.
    pub fn feed(&mut self, bytes: &[u8]) -> (r: Vec<StreamChunk>)
        ensures
            chunks_view(r@) == fed(old(self)@, lossy_text(bytes@)).0,
            final(self)@ == fed(old(self)@, lossy_text(bytes@)).1,
            valid_utf8(bytes@) ==> chunks_view(r@) == fed(old(self)@, decode_utf8(bytes@)).0
                && final(self)@ == fed(old(self)@, decode_utf8(bytes@)).1,
    {
        let text: String = from_utf8_lossy(bytes);
        self.feed_text(text.as_str())
    }

    /// Ends the stream, with an error if there was one. An unfinished line is dropped.
    pub fn close(&mut self, error: Option<String>) -> (r: Vec<StreamChunk>)
        ensures
            chunks_view(r@) == closing(old(self)@, optional_text(error)),
            final(self)@ == (if old(self)@.finished {
                old(self)@
            } else {
                ended()
            }),
    {
        let mut chunks: Vec<StreamChunk> = Vec::new();
        if self.finished {
            assert(chunks_view(chunks@) == Seq::<StreamChunkView>::empty());
            return chunks;
        }
        self.finish();
        if let Some(reason) = error {
            chunks.push(StreamChunk::Error(reason));
        }
        chunks.push(StreamChunk::Done);
        assert(chunks_view(chunks@) == closing(old(self)@, optional_text(error)));
        chunks
    }
}

/// The chunks with which a stream ends.
pub open spec fn closing(stream: StreamView, error: Option<Seq<char>>) -> Seq<StreamChunkView> {
    if stream.finished {
        Seq::empty()
    } else {
        match error {
            Some(reason) => seq![StreamChunkView::Error(reason), StreamChunkView::Done],
            None => seq![StreamChunkView::Done],
        }
    }
}

/// The text in front of a mark is what comes before its first occurrence.
proof fn lemma_up_to_is(s: Seq<char>, mark: char, n: int)
    requires
        0 <= n < s.len(),
        s[n] == mark,
        forall|k: int| 0 <= k < n ==> s[k] != mark,
    ensures
        up_to(s, mark) == s.take(n),
    decreases n,
{
    if n > 0 {
        let rest = s.drop_first();
        assert forall|k: int| 0 <= k < n - 1 implies rest[k] != mark by {
            assert(rest[k] == s[k + 1]);
        }
        lemma_up_to_is(rest, mark, n - 1);
        assert(seq![s[0]] + rest.take(n - 1) == s.take(n));
    } else {
        assert(s.take(0) == Seq::<char>::empty());
    }
}

/// Where the mark does not occur, all of the text is in front of it.
proof fn lemma_up_to_all(s: Seq<char>, mark: char)
    requires
        forall|k: int| 0 <= k < s.len() ==> s[k] != mark,
    ensures
        up_to(s, mark) == s,
    decreases s.len(),
{
    if s.len() > 0 {
        let rest = s.drop_first();
        assert forall|k: int| 0 <= k < rest.len() implies rest[k] != mark by {
            assert(rest[k] == s[k + 1]);
        }
        lemma_up_to_all(rest, mark);
        assert(seq![s[0]] + rest == s);
    }
}

/// The bytes of a text are those of its parts.
proof fn lemma_byte_len_adds(a: Seq<char>, b: Seq<char>)
    ensures
        byte_len(a + b) == byte_len(a) + byte_len(b),
    decreases a.len(),
{
    if a.len() == 0 {
        assert(a + b == b);
    } else {
        lemma_byte_len_adds(a.drop_first(), b);
        assert((a + b).drop_first() == a.drop_first() + b);
    }
}

/// What decoding leaves of a text is the end of it.
proof fn lemma_rest_is_suffix(text: Seq<char>)
    requires
        decoded(text).1 is Some,
    ensures
        decoded(text).1->0.len() <= text.len(),
        decoded(text).1->0 == text.skip(text.len() - decoded(text).1->0.len()),
    decreases text.len(),
{
    let end = up_to(text, '\n').len() as int;
    if end < text.len() {
        let rest = text.skip(end + 1);
        lemma_rest_is_suffix(rest);
        let left = decoded(rest).1->0;
        assert(rest.skip(rest.len() - left.len()) == text.skip(text.len() - left.len()));
    } else {
        assert(text.skip(0) == text);
    }
}

/// Adding text behind a complete line does not change the line.
proof fn lemma_up_to_of_sum(a: Seq<char>, b: Seq<char>, mark: char)
    requires
        up_to(a, mark).len() < a.len(),
    ensures
        up_to(a + b, mark) == up_to(a, mark),
    decreases a.len(),
{
    assert((a + b)[0] == a[0]);
    if a[0] != mark {
        lemma_up_to_of_sum(a.drop_first(), b, mark);
        assert((a + b).drop_first() == a.drop_first() + b);
    }
}

/// How a text is cut into pieces makes no difference to what it decodes to: the pieces yield
/// the chunks of the whole, one after the other.
pub proof fn decoding_ignores_cuts(a: Seq<char>, b: Seq<char>)
    ensures
        match decoded(a).1 {
            Some(rest) => decoded(a + b) == (
                decoded(a).0 + decoded(rest + b).0,
                decoded(rest + b).1,
            ),
            None => decoded(a + b) == decoded(a),
        },
    decreases a.len(),
{
    let end = up_to(a, '\n').len() as int;
    if end >= a.len() {
        assert(Seq::<StreamChunkView>::empty() + decoded(a + b).0 == decoded(a + b).0);
    } else {
        lemma_up_to_of_sum(a, b, '\n');
        assert((a + b).take(end) == a.take(end));
        assert((a + b).skip(end + 1) == a.skip(end + 1) + b);
        decoding_ignores_cuts(a.skip(end + 1), b);
        let tail = decoded(a.skip(end + 1));
        if let Some(rest) = tail.1 {
            if let Some(chunk) = line_chunk_of(a.take(end)) {
                assert(seq![chunk] + (tail.0 + decoded(rest + b).0) == (seq![chunk] + tail.0)
                    + decoded(rest + b).0);
            }
        }
    }
}

/// Feeding a stream two pieces of text is feeding it their concatenation, as long as the limit
/// is not reached.
pub proof fn feeding_ignores_cuts(stream: StreamView, a: Seq<char>, b: Seq<char>)
    requires
        byte_len(stream.pending) + byte_len(a) + byte_len(b) <= STREAM_BUFFER_LIMIT,
    ensures
        fed(stream, a + b).0 == fed(stream, a).0 + fed(fed(stream, a).1, b).0,
        fed(stream, a + b).1 == fed(fed(stream, a).1, b).1,
{
    lemma_byte_len_adds(a, b);
    if !stream.finished {
        let text = stream.pending + a;
        assert(stream.pending + (a + b) == text + b);
        decoding_ignores_cuts(text, b);
        if let Some(rest) = decoded(text).1 {
            lemma_rest_is_suffix(text);
            lemma_byte_len_adds(stream.pending, a);
            lemma_byte_len_adds(text.take(text.len() - rest.len()), rest);
            assert(text.take(text.len() - rest.len()) + rest == text);
        } else {
            assert(decoded(text).0 + Seq::<StreamChunkView>::empty() == decoded(text).0);
        }
    }
}

/// A stream never holds back more than the limit.
pub proof fn streams_stay_within_the_limit(stream: StreamView, text: Seq<char>)
    requires
        stream.within_limit(),
    ensures
        fed(stream, text).1.within_limit(),
{
    if !stream.finished && byte_len(stream.pending) + byte_len(text) <= STREAM_BUFFER_LIMIT {
        let all = stream.pending + text;
        if let Some(rest) = decoded(all).1 {
            lemma_rest_is_suffix(all);
            lemma_byte_len_adds(stream.pending, text);
            lemma_byte_len_adds(all.take(all.len() - rest.len()), rest);
            assert(all.take(all.len() - rest.len()) + rest == all);
        }
    }
}

/// Whether chunks are those of a stream that goes on: text only, none of it empty.
pub open spec fn all_content(chunks: Seq<StreamChunkView>) -> bool {
    forall|i: int|
        0 <= i < chunks.len() ==> (#[trigger] chunks[i] matches StreamChunkView::Content(s)
            && s.len() > 0)
}

/// What decoding yields is text, behind which a final chunk stands where the stream ends.
proof fn lemma_decoded_chunks(text: Seq<char>)
    ensures
        decoded(text).1 is Some ==> all_content(decoded(text).0),
        decoded(text).1 is None ==> decoded(text).0.len() > 0 && decoded(text).0.last()
            == StreamChunkView::Done && all_content(decoded(text).0.drop_last()),
    decreases text.len(),
{
    let end = up_to(text, '\n').len() as int;
    if end < text.len() {
        let rest = decoded(text.skip(end + 1));
        lemma_decoded_chunks(text.skip(end + 1));
        if let Some(chunk) = line_chunk_of(text.take(end)) {
            if !(chunk is Done) {
                assert(decoded(text).0 == seq![chunk] + rest.0);
                if rest.1 is None {
                    assert(decoded(text).0.drop_last() == seq![chunk] + rest.0.drop_last());
                }
            } else {
                assert(decoded(text).0.drop_last() == Seq::<StreamChunkView>::empty());
            }
        }
    }
}

/// Whether chunks are those of a stream that has ended: text, none of it empty, then perhaps one
/// error, then the final chunk.
pub open spec fn well_ended(chunks: Seq<StreamChunkView>) -> bool {
    let body = chunks.drop_last();
    &&& chunks.len() > 0
    &&& chunks.last() == StreamChunkView::Done
    &&& all_content(body) || (body.len() > 0 && body.last() is Error && all_content(
        body.drop_last(),
    ))
}

/// A stream ends once: it yields text while it goes on, and an error or the final chunk just when
/// it ends. An ended stream yields nothing more.
pub proof fn streams_end_once(stream: StreamView, text: Seq<char>)
    ensures
        stream.finished ==> fed(stream, text) == (Seq::<StreamChunkView>::empty(), stream),
        !stream.finished && !fed(stream, text).1.finished ==> all_content(fed(stream, text).0),
        !stream.finished && fed(stream, text).1.finished ==> well_ended(fed(stream, text).0),
{
    if !stream.finished {
        lemma_decoded_chunks(stream.pending + text);
    }
}

/// What a stream does with pieces of text, one after the other.
pub open spec fn fed_all(stream: StreamView, pieces: Seq<Seq<char>>) -> (
    Seq<StreamChunkView>,
    StreamView,
)
    decreases pieces.len(),
{
    if pieces.len() == 0 {
        (Seq::empty(), stream)
    } else {
        let before = fed_all(stream, pieces.drop_last());
        let now = fed(before.1, pieces.last());
        (before.0 + now.0, now.1)
    }
}

/// All that a stream yields, from its first piece of text until it is closed.
pub open spec fn received(pieces: Seq<Seq<char>>, error: Option<Seq<char>>) -> Seq<
    StreamChunkView,
> {
    let read = fed_all(unread(), pieces);
    read.0 + closing(read.1, error)
}

/// Text in front of chunks changes nothing in how they end.
proof fn lemma_more_content(more: Seq<StreamChunkView>, chunks: Seq<StreamChunkView>)
    requires
        all_content(more),
    ensures
        all_content(chunks) ==> all_content(more + chunks),
        well_ended(chunks) ==> well_ended(more + chunks),
{
    if well_ended(chunks) {
        let body = chunks.drop_last();
        assert((more + chunks).drop_last() == more + body);
        if !all_content(body) {
            assert((more + body).drop_last() == more + body.drop_last());
        }
    }
}

/// What pieces of text yield is text, until the stream ends.
proof fn lemma_fed_all_chunks(pieces: Seq<Seq<char>>)
    ensures
        ({
            let read = fed_all(unread(), pieces);
            if read.1.finished {
                well_ended(read.0)
            } else {
                all_content(read.0)
            }
        }),
    decreases pieces.len(),
{
    if pieces.len() > 0 {
        let before = fed_all(unread(), pieces.drop_last());
        lemma_fed_all_chunks(pieces.drop_last());
        streams_end_once(before.1, pieces.last());
        if before.1.finished {
            assert(before.0 + Seq::<StreamChunkView>::empty() == before.0);
        } else {
            lemma_more_content(before.0, fed(before.1, pieces.last()).0);
        }
    }
}

/// Over the whole of a stream, the receiver gets text, then perhaps one error, then the final
/// chunk, and nothing behind it.
pub proof fn streams_are_well_formed(pieces: Seq<Seq<char>>, error: Option<Seq<char>>)
    ensures
        well_ended(received(pieces, error)),
{
    let read = fed_all(unread(), pieces);
    lemma_fed_all_chunks(pieces);
    if read.1.finished {
        assert(read.0 + Seq::<StreamChunkView>::empty() == read.0);
    } else {
        lemma_more_content(read.0, closing(read.1, error));
    }
}

/// The text that pieces make up.
pub open spec fn whole(pieces: Seq<Seq<char>>) -> Seq<char>
    decreases pieces.len(),
{
    if pieces.len() == 0 {
        Seq::empty()
    } else {
        whole(pieces.drop_last()) + pieces.last()
    }
}

/// Whether a stream can take all pieces without holding back more than the limit.
pub open spec fn never_overflows(stream: StreamView, pieces: Seq<Seq<char>>) -> bool
    decreases pieces.len(),
{
    pieces.len() > 0 ==> {
        let before = fed_all(stream, pieces.drop_last()).1;
        &&& never_overflows(stream, pieces.drop_last())
        &&& before.finished || byte_len(before.pending) + byte_len(pieces.last())
            <= STREAM_BUFFER_LIMIT
    }
}

/// However a text is cut into pieces, a stream yields the chunks of the whole, as long as the limit
/// is not exceeded.
pub proof fn streams_ignore_cuts(pieces: Seq<Seq<char>>)
    requires
        never_overflows(unread(), pieces),
    ensures
        fed_all(unread(), pieces).0 == decoded(whole(pieces)).0,
        fed_all(unread(), pieces).1 == (match decoded(whole(pieces)).1 {
            Some(pending) => StreamView { pending, finished: false },
            None => ended(),
        }),
    decreases pieces.len(),
{
    if pieces.len() > 0 {
        let before = pieces.drop_last();
        streams_ignore_cuts(before);
        decoding_ignores_cuts(whole(before), pieces.last());
        if decoded(whole(before)).1 is None {
            let chunks = decoded(whole(before)).0;
            assert(chunks + Seq::<StreamChunkView>::empty() == chunks);
        }
    } else {
        assert(up_to(Seq::<char>::empty(), '\n').len() == 0);
    }
}

/// White space at the end of a text does not survive trimming.
proof fn lemma_trimmed_drops(s: Seq<char>, c: char)
    requires
        white_space(c),
    ensures
        trimmed(s.push(c)) == trimmed(s),
{
    lemma_trimmed_start_of_push(s, c);
    if trimmed_start(s).len() > 0 {
        assert(trimmed_start(s).push(c).drop_last() == trimmed_start(s));
    }
}

/// Trimming the start of a longer text.
proof fn lemma_trimmed_start_of_push(s: Seq<char>, c: char)
    requires
        white_space(c),
    ensures
        trimmed_start(s.push(c)) == (if trimmed_start(s).len() > 0 {
            trimmed_start(s).push(c)
        } else {
            Seq::<char>::empty()
        }),
    decreases s.len(),
{
    if s.len() == 0 {
        let only = s.push(c);
        assert(only[0] == c);
        assert(only.drop_first() == Seq::<char>::empty());
        assert(trimmed_start(only) == trimmed_start(only.drop_first()));
    } else if white_space(s[0]) {
        lemma_trimmed_start_of_push(s.drop_first(), c);
        assert(s.push(c).drop_first() == s.drop_first().push(c));
    }
}

/// A line may end with a carriage return and a line feed or with a line feed alone: it decodes
/// to the same.
pub proof fn carriage_returns_make_no_difference(line: Seq<char>, rest: Seq<char>)
    requires
        !line.contains('\n'),
    ensures
        decoded(line + seq!['\r', '\n'] + rest) == decoded(line + seq!['\n'] + rest),
{
    let long = line + seq!['\r', '\n'] + rest;
    let short = line + seq!['\n'] + rest;
    let n = line.len() as int;
    assert forall|k: int| 0 <= k < n implies line[k] != '\n' by {
        assert(line.contains(line[k]));
    }
    assert(long[n] == '\r');
    assert(long[n + 1] == '\n');
    lemma_up_to_is(long, '\n', n + 1);
    lemma_up_to_is(short, '\n', n);
    assert(long.take(n + 1) == line.push('\r'));
    assert(short.take(n) == line);
    assert(long.skip(n + 2) == rest);
    assert(short.skip(n + 1) == rest);
    lemma_trimmed_drops(line, '\r');
}

/// A text with every line feed replaced by a carriage return and a line feed.
pub open spec fn with_carriage_returns(text: Seq<char>) -> Seq<char>
    decreases text.len(),
{
    if text.len() == 0 {
        Seq::empty()
    } else if text[0] == '\n' {
        seq!['\r', '\n'] + with_carriage_returns(text.drop_first())
    } else {
        seq![text[0]] + with_carriage_returns(text.drop_first())
    }
}

/// Where a text is cut makes no difference to its carriage returns.
proof fn lemma_carriage_returns_of_sum(a: Seq<char>, b: Seq<char>)
    ensures
        with_carriage_returns(a + b) == with_carriage_returns(a) + with_carriage_returns(b),
    decreases a.len(),
{
    if a.len() == 0 {
        assert(a + b == b);
        assert(with_carriage_returns(a) + with_carriage_returns(b) == with_carriage_returns(b));
    } else {
        lemma_carriage_returns_of_sum(a.drop_first(), b);
        assert((a + b).drop_first() == a.drop_first() + b);
        assert((a + b)[0] == a[0]);
        let head = if a[0] == '\n' {
            seq!['\r', '\n']
        } else {
            seq![a[0]]
        };
        assert(head + (with_carriage_returns(a.drop_first()) + with_carriage_returns(b)) == head
            + with_carriage_returns(a.drop_first()) + with_carriage_returns(b));
    }
}

/// A text without line feeds stays as it is.
proof fn lemma_no_carriage_returns(text: Seq<char>)
    requires
        !text.contains('\n'),
    ensures
        with_carriage_returns(text) == text,
    decreases text.len(),
{
    if text.len() > 0 {
        assert(text.contains(text[0]));
        assert forall|k: int| 0 <= k < text.drop_first().len() implies text.drop_first()[k]
            != '\n' by {
            assert(text.contains(text[k + 1]));
        }
        lemma_no_carriage_returns(text.drop_first());
        assert(seq![text[0]] + text.drop_first() == text);
    }
}

/// What stands in front of a mark does not hold it, and the mark stands behind it.
proof fn lemma_up_to_stops(s: Seq<char>, mark: char)
    ensures
        up_to(s, mark).len() <= s.len(),
        up_to(s, mark) == s.take(up_to(s, mark).len() as int),
        !up_to(s, mark).contains(mark),
        up_to(s, mark).len() < s.len() ==> s[up_to(s, mark).len() as int] == mark,
{
    the_first_mark_ends_the_part(s, mark);
    assert(up_to(s, mark) == s.subrange(0, up_to(s, mark).len() as int));
    assert(up_to(s, mark) == s.take(up_to(s, mark).len() as int));
}

/// A text decodes to what its first line makes, and then to what the rest decodes to.
proof fn lemma_decoded_line(line: Seq<char>, rest: Seq<char>)
    requires
        !line.contains('\n'),
    ensures
        decoded(line + seq!['\n'] + rest) == (match line_chunk_of(line) {
            Some(StreamChunkView::Done) => (seq![StreamChunkView::Done], None::<Seq<char>>),
            Some(chunk) => (seq![chunk] + decoded(rest).0, decoded(rest).1),
            None => decoded(rest),
        }),
{
    let text = line + seq!['\n'] + rest;
    let n = line.len() as int;
    assert forall|k: int| 0 <= k < n implies text[k] != '\n' by {
        assert(line.contains(line[k]));
    }
    lemma_up_to_is(text, '\n', n);
    assert(text.take(n) == line);
    assert(text.skip(n + 1) == rest);
}

/// Lines may end with a carriage return and a line feed or with a line feed alone: a text decodes
/// to the same, whichever ending all of its lines have.
pub proof fn line_endings_make_no_difference(text: Seq<char>)
    ensures
        decoded(with_carriage_returns(text)) == decoded(text),
    decreases text.len(),
{
    let line = up_to(text, '\n');
    lemma_up_to_stops(text, '\n');
    if line.len() < text.len() {
        let rest = text.skip(line.len() as int + 1);
        let after = with_carriage_returns(rest);
        let end = seq!['\n'];
        assert(text == line + end + rest);
        lemma_carriage_returns_of_sum(line + end, rest);
        lemma_carriage_returns_of_sum(line, end);
        lemma_no_carriage_returns(line);
        assert(end.drop_first() == Seq::<char>::empty());
        assert(with_carriage_returns(end.drop_first()) == Seq::<char>::empty());
        assert(with_carriage_returns(end) == seq!['\r', '\n'] + with_carriage_returns(
            end.drop_first(),
        ));
        assert(with_carriage_returns(end) == seq!['\r', '\n']);
        line_endings_make_no_difference(rest);
        carriage_returns_make_no_difference(line, after);
        lemma_decoded_line(line, after);
        lemma_decoded_line(line, rest);
    } else {
        assert(line == text);
        lemma_no_carriage_returns(text);
    }
}

/// Whichever line ending a backend uses, and however what it sends is cut into pieces, the receiver
/// of a stream gets the same chunks, as long as neither stream exceeds the limit.
pub proof fn streams_ignore_line_endings(
    pieces: Seq<Seq<char>>,
    others: Seq<Seq<char>>,
    error: Option<Seq<char>>,
)
    requires
        whole(others) == with_carriage_returns(whole(pieces)),
        never_overflows(unread(), pieces),
        never_overflows(unread(), others),
    ensures
        received(others, error) == received(pieces, error),
{
    streams_ignore_cuts(pieces);
    streams_ignore_cuts(others);
    line_endings_make_no_difference(whole(pieces));
}

/// The text that a line adds to the completion: where the line, apart from white space around it, is
/// `data: ` with JSON behind it, the string `choices[0].delta.content` in full, and else nothing.
pub open spec fn delta_of(line: Seq<char>) -> Seq<char> {
    let event = json_read(trimmed(line).skip(6));
    if !"data: "@.is_prefix_of(trimmed(line)) || event is None {
        Seq::empty()
    } else {
        match text_of(
            field_of(
                field_of(item_of(event->0.get("choices"@), 0), "delta"@),
                "content"@,
            ),
        ) {
            Some(text) => text,
            None => Seq::empty(),
        }
    }
}

/// Whether a line says that the stream is at its end.
pub open spec fn is_end_mark(line: Seq<char>) -> bool {
    trimmed(line) == "data: [DONE]"@
}

/// A line is told from the others by what stands in it: the end mark yields the final chunk, text
/// yields a chunk with all of it, be it white space only, and any other line yields nothing.
pub proof fn lines_yield_what_they_hold(line: Seq<char>, rest: Seq<char>)
    requires
        !line.contains('\n'),
    ensures
        ({
            let read = decoded(line + seq!['\n'] + rest);
            &&& is_end_mark(line) ==> read == (seq![StreamChunkView::Done], None::<Seq<char>>)
            &&& !is_end_mark(line) && delta_of(line).len() > 0 ==> read == (
                seq![StreamChunkView::Content(delta_of(line))] + decoded(rest).0,
                decoded(rest).1,
            )
            &&& !is_end_mark(line) && delta_of(line).len() == 0 ==> read == decoded(rest)
        }),
{
    lemma_decoded_line(line, rest);
    lemma_end_mark(line);
}

/// The end mark is the event whose data says so.
proof fn lemma_end_mark(line: Seq<char>)
    ensures
        is_end_mark(line) <==> "data: "@.is_prefix_of(trimmed(line)) && trimmed(line).skip(6)
            == "[DONE]"@,
{
    reveal_strlit("data: ");
    reveal_strlit("[DONE]");
    reveal_strlit("data: [DONE]");
    let event = trimmed(line);
    assert("data: [DONE]"@ == "data: "@ + "[DONE]"@);
    if is_end_mark(line) {
        assert("data: "@ == event.subrange(0, 6));
        assert(event.skip(6) == "[DONE]"@);
    }
    if "data: "@.is_prefix_of(event) && event.skip(6) == "[DONE]"@ {
        assert("data: "@ == event.subrange(0, 6));
        assert(event == event.subrange(0, 6) + event.skip(6));
    }
}

/// An unfinished line yields nothing and is kept whole.
pub proof fn unfinished_lines_are_kept(text: Seq<char>)
    requires
        !text.contains('\n'),
    ensures
        decoded(text) == (Seq::<StreamChunkView>::empty(), Some(text)),
{
    the_first_mark_ends_the_part(text, '\n');
    if up_to(text, '\n').len() < text.len() {
        assert(text.contains(text[up_to(text, '\n').len() as int]));
    }
}

/// The text that chunks make up.
pub open spec fn said(chunks: Seq<StreamChunkView>) -> Seq<char>
    decreases chunks.len(),
{
    if chunks.len() == 0 {
        Seq::empty()
    } else {
        (match chunks[0] {
            StreamChunkView::Content(text) => text,
            _ => Seq::empty(),
        }) + said(chunks.drop_first())
    }
}

/// The texts that lines add, one behind the other, up to the end mark.
pub open spec fn deltas(lines: Seq<Seq<char>>) -> Seq<char>
    decreases lines.len(),
{
    if lines.len() == 0 || is_end_mark(lines[0]) {
        Seq::empty()
    } else {
        delta_of(lines[0]) + deltas(lines.drop_first())
    }
}

/// Lines as they are sent, each with a line feed behind it.
pub open spec fn sent_lines(lines: Seq<Seq<char>>) -> Seq<char>
    decreases lines.len(),
{
    if lines.len() == 0 {
        Seq::empty()
    } else {
        lines[0] + seq!['\n'] + sent_lines(lines.drop_first())
    }
}

/// Nothing of the completion is lost, added or moved: the text of all chunks is the text that the
/// lines add, one behind the other, up to the end mark.
pub proof fn no_text_is_lost(lines: Seq<Seq<char>>, unfinished: Seq<char>)
    requires
        forall|i: int| 0 <= i < lines.len() ==> !(#[trigger] lines[i]).contains('\n'),
        !unfinished.contains('\n'),
    ensures
        said(decoded(sent_lines(lines) + unfinished).0) == deltas(lines),
    decreases lines.len(),
{
    if lines.len() == 0 {
        assert(sent_lines(lines) + unfinished == unfinished);
        unfinished_lines_are_kept(unfinished);
    } else {
        let others = lines.drop_first();
        let rest = sent_lines(others) + unfinished;
        assert forall|i: int| 0 <= i < others.len() implies !(#[trigger] others[i]).contains(
            '\n',
        ) by {
            assert(others[i] == lines[i + 1]);
        }
        no_text_is_lost(others, unfinished);
        assert(sent_lines(lines) + unfinished == lines[0] + seq!['\n'] + rest);
        lines_yield_what_they_hold(lines[0], rest);
        let chunks = decoded(lines[0] + seq!['\n'] + rest).0;
        if is_end_mark(lines[0]) {
            assert(chunks.drop_first() == Seq::<StreamChunkView>::empty());
            assert(said(chunks.drop_first()) == Seq::<char>::empty());
            assert(said(chunks) == Seq::<char>::empty());
        } else if delta_of(lines[0]).len() > 0 {
            assert(chunks.drop_first() == decoded(rest).0);
        } else {
            assert(delta_of(lines[0]) + deltas(others) == deltas(others));
        }
    }
}

/// The text of chunks is that of their parts.
proof fn lemma_said_of_sum(a: Seq<StreamChunkView>, b: Seq<StreamChunkView>)
    ensures
        said(a + b) == said(a) + said(b),
    decreases a.len(),
{
    if a.len() == 0 {
        assert(a + b == b);
        assert(said(a) + said(b) == said(b));
    } else {
        lemma_said_of_sum(a.drop_first(), b);
        assert((a + b).drop_first() == a.drop_first() + b);
        assert((a + b)[0] == a[0]);
        let head = match a[0] {
            StreamChunkView::Content(text) => text,
            _ => Seq::empty(),
        };
        assert(head + (said(a.drop_first()) + said(b)) == head + said(a.drop_first()) + said(b));
    }
}

/// The receiver of a stream gets all of the completion, however the lines are cut into pieces, and
/// however the stream ends, as long as the limit is not exceeded.
pub proof fn the_receiver_gets_all_text(
    pieces: Seq<Seq<char>>,
    lines: Seq<Seq<char>>,
    unfinished: Seq<char>,
    error: Option<Seq<char>>,
)
    requires
        whole(pieces) == sent_lines(lines) + unfinished,
        forall|i: int| 0 <= i < lines.len() ==> !(#[trigger] lines[i]).contains('\n'),
        !unfinished.contains('\n'),
        never_overflows(unread(), pieces),
    ensures
        said(received(pieces, error)) == deltas(lines),
{
    let read = fed_all(unread(), pieces);
    let end = closing(read.1, error);
    streams_ignore_cuts(pieces);
    no_text_is_lost(lines, unfinished);
    lemma_said_of_sum(read.0, end);
    assert(said(Seq::<StreamChunkView>::empty()) == Seq::<char>::empty());
    if !read.1.finished {
        assert(end.last() == StreamChunkView::Done);
        let last = seq![StreamChunkView::Done];
        assert(last.drop_first() == Seq::<StreamChunkView>::empty());
        assert(said(last) == Seq::<char>::empty());
        if error is Some {
            assert(end.drop_first() == last);
        } else {
            assert(end == last);
        }
        assert(said(end) == Seq::<char>::empty());
    }
    assert(said(read.0) + Seq::<char>::empty() == said(read.0));
}

/// A stream fails just where it would have to hold more than ten mebibytes, and then yields an error
/// and ends. Up to there it yields what the text decodes to.
pub proof fn streams_fail_just_over_the_limit(stream: StreamView, text: Seq<char>)
    requires
        !stream.finished,
    ensures
        ({
            let size = encode_utf8(stream.pending).len() + encode_utf8(text).len();
            let read = fed(stream, text);
            &&& size > 10485760 ==> read.0 == seq![
                StreamChunkView::Error("Stream buffer limit exceeded"@),
                StreamChunkView::Done,
            ] && read.1.finished
            &&& size <= 10485760 ==> read.0 == decoded(stream.pending + text).0 && read.1.finished
                == (decoded(stream.pending + text).1 is None) && (read.1.finished || Some(
                read.1.pending,
            ) == decoded(stream.pending + text).1)
        }),
{
}

/// A stream that is closed before its end yields the error, where there is one, and ends. One that
/// has ended yields nothing more.
pub proof fn closing_ends_a_stream(stream: StreamView, reason: Seq<char>)
    ensures
        stream.finished ==> closing(stream, None).len() == 0 && closing(stream, Some(reason)).len()
            == 0,
        !stream.finished ==> closing(stream, None) == seq![StreamChunkView::Done],
        !stream.finished ==> closing(stream, Some(reason)) == seq![
            StreamChunkView::Error(reason),
            StreamChunkView::Done,
        ],
{
}

/// Chunks and decoders stand for what they hold.
pub proof fn chunks_stand_for_what_they_hold(
    text: String,
    chunks: Seq<StreamChunk>,
    decoder: StreamDecoder,
)
    ensures
        StreamChunk::Content(text)@ == StreamChunkView::Content(text@),
        StreamChunk::Error(text)@ == StreamChunkView::Error(text@),
        StreamChunk::Done@ == StreamChunkView::Done,
        chunks_view(chunks) == chunks.map_values(|c: StreamChunk| c@),
        decoder@.pending == decoder.buffer@,
        decoder@.finished == decoder.finished,
{
}

/// An event yields a chunk just where it has text, be it white space only, and the chunk has all of
/// it.
pub proof fn events_yield_their_text(event: JsonView)
    ensures
        ({
            let text = text_of(
                field_of(field_of(item_of(event.get("choices"@), 0), "delta"@), "content"@),
            );
            &&& delta_content(event) == text
            &&& text is Some && text->0.len() > 0 ==> content_chunk_of(Some(event)) == Some(
                StreamChunkView::Content(text->0),
            )
            &&& text is None || text->0.len() == 0 ==> content_chunk_of(Some(event)) is None
        }),
        content_chunk_of(None) is None,
{
}

/// The data of an event is all that stands behind `data: `.
pub proof fn events_are_read_from_their_data(data: Seq<char>, event: Seq<char>)
    ensures
        data != "[DONE]"@ ==> event_chunk_of("data: "@ + data) == content_chunk_of(json_read(data)),
        event_chunk_of("data: "@ + "[DONE]"@) == Some(StreamChunkView::Done),
        !"data: "@.is_prefix_of(event) ==> event_chunk_of(event) is None,
{
    reveal_strlit("data: ");
    let whole = "data: "@ + data;
    assert("data: "@ == whole.subrange(0, 6));
    assert(whole.skip(6) == data);
    let end = "data: "@ + "[DONE]"@;
    assert("data: "@ == end.subrange(0, 6));
    assert(end.skip(6) == "[DONE]"@);
}

} // verus!
