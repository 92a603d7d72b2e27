use vstd::prelude::*;

use crate::content_type::{content_type_accepted, content_type_ok, header_view};

verus! {

/// Why a request's body could not become a command.
#[derive(Clone, Copy, Debug, PartialEq, Eq, Structural)]
pub enum DecodeProtoError {
    /// The declared content type is not `application/octet-stream`.
    ContentType,
    /// Reading the body stream failed.
    Transport,
    /// The codec rejected the complete body as malformed or truncated.
    Decode,
}

impl DecodeProtoError {
    pub open spec fn describe(self) -> Seq<char> {
        match self {
            DecodeProtoError::ContentType => "content type mismatched!"@,
            DecodeProtoError::Transport => "failed to read the request body"@,
            DecodeProtoError::Decode => "malformed request body"@,
        }
    }

    /// A short description of the error.
    pub fn message(&self) -> (r: String)
        ensures
            r@ == self.describe(),
    {
        match self {
            DecodeProtoError::ContentType => String::from_str("content type mismatched!"),
            DecodeProtoError::Transport => String::from_str("failed to read the request body"),
            DecodeProtoError::Decode => String::from_str("malformed request body"),
        }
    }
}

/// What one pull on the body stream gave.
#[derive(Debug)]
pub enum BodyItem {
    /// The next chunk of bytes.
    Chunk(Vec<u8>),
    /// The stream has ended.
    End,
    /// The transport failed.
    Fault,
}

/// What the accumulator asks of its driver.
#[derive(Debug)]
pub enum Progress {
    /// Pull the next item of the body stream and hand it to `feed`.
    Pull,
    /// The stream has ended: decode these bytes, the whole body, and hand the
    /// outcome to `finish`.
    Decode(Vec<u8>),
    /// Extraction is over with this error.
    Ready(DecodeProtoError),
}

/// Where the accumulator stands.
#[derive(Clone, Copy, Debug, PartialEq, Eq, Structural)]
pub enum Stage {
    /// Accumulating the body.
    Parse,
    /// Failed before any byte was read.
    JustError(DecodeProtoError),
    /// The body has been handed to the codec; its outcome is awaited.
    Decoding,
    /// Terminal.
    Done,
}

/// Model of an accumulator's state.
pub enum Phase {
    Parsing(Seq<u8>),
    Rejected(DecodeProtoError),
    Decoding,
    Finished,
}

/// Model of a body item.
pub enum Input {
    Chunk(Seq<u8>),
    End,
    Fault,
}

/// Model of a request to the driver.
pub enum Reaction {
    Pull,
    Decode(Seq<u8>),
    Fail(DecodeProtoError),
}

impl BodyItem {
    pub open spec fn view(&self) -> Input {
        match self {
            BodyItem::Chunk(c) => Input::Chunk(c@),
            BodyItem::End => Input::End,
            BodyItem::Fault => Input::Fault,
        }
    }
}

impl Progress {
    pub open spec fn view(&self) -> Reaction {
        match self {
            Progress::Pull => Reaction::Pull,
            Progress::Decode(b) => Reaction::Decode(b@),
            Progress::Ready(e) => Reaction::Fail(*e),
        }
    }
}

/// The state in which extraction starts, given the request's `Content-Type`.
pub open spec fn start_phase(header: Option<Seq<char>>) -> Phase {
    if content_type_accepted(header) {
        Phase::Parsing(Seq::empty())
    } else {
        Phase::Rejected(DecodeProtoError::ContentType)
    }
}

/// A poll before the next pull: an accumulating state asks for a chunk; a
/// rejected one reports its error at once.
pub open spec fn poll_step(p: Phase) -> (Phase, Reaction) {
    match p {
        Phase::Rejected(e) => (Phase::Finished, Reaction::Fail(e)),
        _ => (p, Reaction::Pull),
    }
}

/// Handling one pulled item while accumulating.
pub open spec fn feed_step(p: Phase, i: Input) -> (Phase, Reaction) {
    match p {
        Phase::Parsing(buf) => match i {
            Input::Chunk(c) => (Phase::Parsing(buf + c), Reaction::Pull),
            Input::End => (Phase::Decoding, Reaction::Decode(buf)),
            Input::Fault => (Phase::Finished, Reaction::Fail(DecodeProtoError::Transport)),
        },
        _ => (p, Reaction::Pull),
    }
}

/// The accumulator driven over a sequence of pulled items: items are handed
/// in while it accumulates, and the rest are never read. Gives the final
/// state and the reaction to each item that was read.
pub open spec fn run(p: Phase, inputs: Seq<Input>) -> (Phase, Seq<Reaction>)
    decreases inputs.len(),
{
    if inputs.len() == 0 {
        (p, Seq::empty())
    } else if p is Parsing {
        let (q, r) = feed_step(p, inputs[0]);
        let (f, rs) = run(q, inputs.drop_first());
        (f, seq![r] + rs)
    } else {
        (p, Seq::empty())
    }
}

/// A body delivered as `chunks`, followed by `last`: the stream's end or a
/// transport fault.
pub open spec fn chunked_body(chunks: Seq<Seq<u8>>, last: Input) -> Seq<Input> {
    chunk_inputs(chunks).push(last)
}

/// Chunks as they are pulled from the body stream.
pub open spec fn chunk_inputs(chunks: Seq<Seq<u8>>) -> Seq<Input> {
    chunks.map_values(|c: Seq<u8>| Input::Chunk(c))
}

/// The number of decode requests among a run's reactions.
pub open spec fn decode_count(rs: Seq<Reaction>) -> nat
    decreases rs.len(),
{
    if rs.len() == 0 {
        0
    } else {
        decode_count(rs.drop_first()) + if rs[0] is Decode { 1nat } else { 0nat }
    }
}

/// Incremental decoder of a request body.
///
/// Bytes are appended to a buffer as they arrive; when the stream ends the
/// whole buffer is handed over, once, for decoding.
pub struct DecodeProto {
    stage: Stage,
    buf: Vec<u8>,
}

impl DecodeProto {
    pub closed spec fn phase(&self) -> Phase {
        match self.stage {
            Stage::Parse => Phase::Parsing(self.buf@),
            Stage::JustError(e) => Phase::Rejected(e),
            Stage::Decoding => Phase::Decoding,
            Stage::Done => Phase::Finished,
        }
    }

    /// Starts extraction for a request whose `Content-Type` header is
    /// `content_type`: with the binary-octet marker it accumulates from an
    /// empty buffer, otherwise it fails without reading the body.
    pub fn from_request(content_type: Option<&str>) -> (r: Self)
        ensures
            r.phase() == start_phase(header_view(content_type)),
            header_view(content_type) == Some("application/octet-stream"@) ==> r.phase()
                == Phase::Parsing(Seq::empty()),
            header_view(content_type) == Some(Seq::<char>::empty()) ==> r.phase() == Phase::Rejected(
                DecodeProtoError::ContentType,
            ),
    {
        if content_type_ok(content_type) {
            DecodeProto { stage: Stage::Parse, buf: Vec::new() }
        } else {
            DecodeProto { stage: Stage::JustError(DecodeProtoError::ContentType), buf: Vec::new() }
        }
    }

    /// Whether the driver should poll: the accumulator is neither awaiting a
    /// decode outcome nor done.
    pub fn is_pending(&self) -> (r: bool)
        ensures
            r == (self.phase() is Parsing || self.phase() is Rejected),
    {
        match self.stage {
            Stage::Parse | Stage::JustError(_) => true,
            _ => false,
        }
    }

    /// Called when the task is polled, before any pull on the body stream.
    pub fn poll(&mut self) -> (r: Progress)
        requires
            old(self).phase() is Parsing || old(self).phase() is Rejected,
        ensures
            (final(self).phase(), r@) == poll_step(old(self).phase()),
    {
        match self.stage {
            Stage::JustError(e) => {
                self.stage = Stage::Done;
                Progress::Ready(e)
            },
            _ => Progress::Pull,
        }
    }

    /// Hands in what the last pull on the body stream gave.
    pub fn feed(&mut self, item: BodyItem) -> (r: Progress)
        requires
            old(self).phase() is Parsing,
        ensures
            (final(self).phase(), r@) == feed_step(old(self).phase(), item@),
    {
        match item {
            BodyItem::Chunk(chunk) => {
                let mut chunk = chunk;
                self.buf.append(&mut chunk);
                Progress::Pull
            },
            BodyItem::End => {
                let mut body: Vec<u8> = Vec::new();
                std::mem::swap(&mut body, &mut self.buf);
                self.stage = Stage::Decoding;
                Progress::Decode(body)
            },
            BodyItem::Fault => {
                self.buf = Vec::new();
                self.stage = Stage::Done;
                Progress::Ready(DecodeProtoError::Transport)
            },
        }
    }

    /// Hands in the codec's outcome on the body: `Some` with the decoded
    /// message, or `None` where the codec rejected the bytes.
    pub fn finish<T>(&mut self, decoded: Option<T>) -> (r: Result<T, DecodeProtoError>)
        requires
            old(self).phase() is Decoding,
        ensures
            final(self).phase() is Finished,
            r == match decoded {
                Some(v) => Ok::<T, DecodeProtoError>(v),
                None => Err(DecodeProtoError::Decode),
            },
    {
        self.stage = Stage::Done;
        match decoded {
            Some(v) => Ok(v),
            None => Err(DecodeProtoError::Decode),
        }
    }
}

/// Feeding the chunks `cs` and then `last` to an accumulator that holds
/// `buf` asks for one pull per chunk, then reacts to `last` on the buffer
/// `buf` followed by all the chunks' bytes.
proof fn lemma_run_chunks(buf: Seq<u8>, cs: Seq<Seq<u8>>, last: Input)
    requires
        !(last is Chunk),
    ensures
        run(Phase::Parsing(buf), chunked_body(cs, last)).1.len() == cs.len() + 1,
        forall|i: int|
            0 <= i < cs.len() ==> #[trigger] run(Phase::Parsing(buf), chunked_body(cs, last)).1[i]
                is Pull,
        (run(Phase::Parsing(buf), chunked_body(cs, last)).0, run(
            Phase::Parsing(buf),
            chunked_body(cs, last),
        ).1.last()) == feed_step(Phase::Parsing(buf + cs.flatten()), last),
    decreases cs.len(),
{
    let body = chunked_body(cs, last);
    if cs.len() == 0 {
        assert(body =~= seq![last]);
        assert(buf + cs.flatten() =~= buf);
        let (q, r) = feed_step(Phase::Parsing(buf), last);
        assert(body.drop_first() =~= Seq::<Input>::empty());
        assert(run(q, body.drop_first()).1 =~= Seq::<Reaction>::empty());
    } else {
        let tail = cs.drop_first();
        assert(body.drop_first() =~= chunked_body(tail, last));
        assert(body[0] == Input::Chunk(cs[0]));
        lemma_run_chunks(buf + cs[0], tail, last);
        assert(buf + cs[0] + tail.flatten() =~= buf + cs.flatten());
        let rest = run(Phase::Parsing(buf + cs[0]), chunked_body(tail, last)).1;
        let all = run(Phase::Parsing(buf), body).1;
        assert(all =~= seq![Reaction::Pull] + rest);
        assert forall|i: int| 0 <= i < cs.len() implies #[trigger] all[i] is Pull by {
            if i > 0 {
                assert(all[i] == rest[i - 1]);
            }
        }
    }
}

/// Any number of chunks, handed in while accumulating, are appended to the
/// buffer in order, with no byte dropped, duplicated or reordered: each asks
/// for another pull, and none asks for decoding.
pub proof fn lemma_chunks_append(buf: Seq<u8>, cs: Seq<Seq<u8>>)
    ensures
        run(Phase::Parsing(buf), chunk_inputs(cs)).0 == Phase::Parsing(
            buf + cs.flatten(),
        ),
        run(Phase::Parsing(buf), chunk_inputs(cs)).1.len() == cs.len(),
        forall|i: int|
            0 <= i < cs.len() ==> #[trigger] run(
                Phase::Parsing(buf),
                chunk_inputs(cs),
            ).1[i] is Pull,
        decode_count(run(Phase::Parsing(buf), chunk_inputs(cs)).1)
            == 0,
    decreases cs.len(),
{
    let inputs = chunk_inputs(cs);
    if cs.len() == 0 {
        assert(buf + cs.flatten() =~= buf);
    } else {
        let tail = cs.drop_first();
        assert(inputs.drop_first() =~= chunk_inputs(tail));
        assert(inputs[0] == Input::Chunk(cs[0]));
        lemma_chunks_append(buf + cs[0], tail);
        assert(buf + cs[0] + tail.flatten() =~= buf + cs.flatten());
        let rest = run(Phase::Parsing(buf + cs[0]), inputs.drop_first()).1;
        let all = run(Phase::Parsing(buf), inputs).1;
        assert(all =~= seq![Reaction::Pull] + rest);
        assert(all.drop_first() =~= rest);
        assert forall|i: int| 0 <= i < cs.len() implies #[trigger] all[i] is Pull by {
            if i > 0 {
                assert(all[i] == rest[i - 1]);
            }
        }
    }
}

/// Chunk boundaries do not matter: two deliveries of the same bytes, cut
/// into chunks in any two ways and ended alike, leave the accumulator in the
/// same state with the same final reaction. At the stream's end that
/// reaction hands the codec exactly the concatenated bytes, so the decoded
/// command, or the decode error, is the same; a transport fault fails alike.
pub proof fn lemma_chunking_irrelevant(a: Seq<Seq<u8>>, b: Seq<Seq<u8>>, last: Input)
    requires
        a.flatten() == b.flatten(),
        !(last is Chunk),
    ensures
        run(Phase::Parsing(Seq::empty()), chunked_body(a, last)).0 == run(
            Phase::Parsing(Seq::empty()),
            chunked_body(b, last),
        ).0,
        run(Phase::Parsing(Seq::empty()), chunked_body(a, last)).1.last() == run(
            Phase::Parsing(Seq::empty()),
            chunked_body(b, last),
        ).1.last(),
        last is End ==> run(Phase::Parsing(Seq::empty()), chunked_body(a, last)).1.last()
            == Reaction::Decode(a.flatten()),
        last is Fault ==> run(Phase::Parsing(Seq::empty()), chunked_body(a, last)).1.last()
            == Reaction::Fail(DecodeProtoError::Transport),
{
    lemma_run_chunks(Seq::empty(), a, last);
    lemma_run_chunks(Seq::empty(), b, last);
    assert(Seq::<u8>::empty() + a.flatten() =~= a.flatten());
    assert(Seq::<u8>::empty() + b.flatten() =~= b.flatten());
}

/// Decoding is asked for at most once, and only on the stream's end after
/// nothing but chunks: no partial buffer reaches the codec, and nothing is
/// read after the end.
pub proof fn lemma_decode_once_after_end(buf: Seq<u8>, inputs: Seq<Input>)
    ensures
        run(Phase::Parsing(buf), inputs).1.len() <= inputs.len(),
        decode_count(run(Phase::Parsing(buf), inputs).1) <= 1,
        forall|k: int|
            0 <= k < run(Phase::Parsing(buf), inputs).1.len() && (#[trigger] run(
                Phase::Parsing(buf),
                inputs,
            ).1[k]) is Decode ==> {
                &&& inputs[k] is End
                &&& k == run(Phase::Parsing(buf), inputs).1.len() - 1
                &&& forall|j: int| 0 <= j < k ==> (#[trigger] inputs[j]) is Chunk
            },
    decreases inputs.len(),
{
    let rs = run(Phase::Parsing(buf), inputs).1;
    if inputs.len() > 0 {
        let tail = inputs.drop_first();
        let (q, r) = feed_step(Phase::Parsing(buf), inputs[0]);
        let rest = run(q, tail).1;
        assert(rs == seq![r] + rest);
        assert(rs.drop_first() =~= rest);
        match inputs[0] {
            Input::Chunk(c) => {
                lemma_decode_once_after_end(buf + c, tail);
                assert forall|k: int| 0 <= k < rs.len() && (#[trigger] rs[k]) is Decode implies {
                    &&& inputs[k] is End
                    &&& k == rs.len() - 1
                    &&& forall|j: int| 0 <= j < k ==> (#[trigger] inputs[j]) is Chunk
                } by {
                    assert(k > 0);
                    assert(rs[k] == rest[k - 1]);
                    assert(inputs[k] == tail[k - 1]);
                    assert forall|j: int| 0 <= j < k implies (#[trigger] inputs[j]) is Chunk by {
                        if j > 0 {
                            assert(inputs[j] == tail[j - 1]);
                        }
                    }
                }
            },
            _ => {
                assert(rest =~= Seq::<Reaction>::empty());
                assert(decode_count(rest) == 0);
            },
        }
    }
}

/// A request without the binary-octet content type fails with
/// `ContentType` at its first poll, and no body item is ever read.
pub proof fn lemma_rejected_reads_nothing(header: Option<Seq<char>>, inputs: Seq<Input>)
    requires
        !content_type_accepted(header),
    ensures
        poll_step(start_phase(header)) == (Phase::Finished, Reaction::Fail(
            DecodeProtoError::ContentType,
        )),
        run(start_phase(header), inputs).1.len() == 0,
{
}

} // verus!
