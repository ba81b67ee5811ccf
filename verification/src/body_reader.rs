use vstd::prelude::*;

verus! {

/// How many bytes one read of the body stream asks for.
pub const MAX_READ_BYTES: u32 = 2048;

/// Where reading a request body stands.
pub enum ReadStep {
    /// Waiting for the request to hand over its body.
    Consume,
    /// Waiting for the body to open its stream.
    Stream,
    /// Reading; `buf` holds the bytes read so far.
    Reading { buf: Vec<u8> },
    /// Finished.
    Done,
}

/// What the host reported.
pub enum ReadEvent {
    /// The request handed over its body, or refused.
    Consumed(bool),
    /// The body opened its stream, or refused.
    Streamed(bool),
    /// A read returned these bytes.
    Chunk(Vec<u8>),
    /// The stream is closed: the body is complete.
    Closed,
    /// A read failed with this error text.
    Failed(String),
}

/// What to do next.
pub enum ReadAction {
    /// Ask the body for its stream.
    OpenStream,
    /// Read up to this many bytes from the stream.
    Read(u64),
    /// Close the stream and the body, and return this outcome.
    Finish(Result<Vec<u8>, String>),
}

pub open spec fn read_answers(s: ReadStep, e: ReadEvent) -> bool {
    match s {
        ReadStep::Consume => e is Consumed,
        ReadStep::Stream => e is Streamed,
        ReadStep::Reading { .. } => e is Chunk || e is Closed || e is Failed,
        ReadStep::Done => false,
    }
}

/// One step of reading a body, as `read_body` takes it: a refused body or
/// stream fails with its own text; each chunk is appended and another read
/// of `MAX_READ_BYTES` asked for; a closed stream returns everything read;
/// a failed read fails with `failed to read bytes: ` and the error.
pub open spec fn read_next(s: ReadStep, e: ReadEvent, s2: ReadStep, a: ReadAction) -> bool {
    match (s, e) {
        (ReadStep::Consume, ReadEvent::Consumed(ok)) => if ok {
            s2 == ReadStep::Stream && a == ReadAction::OpenStream
        } else {
            &&& s2 == ReadStep::Done
            &&& a matches ReadAction::Finish(Err(m))
            &&& m@ == "failed to consume incoming request body"@
        },
        (ReadStep::Stream, ReadEvent::Streamed(ok)) => if ok {
            &&& s2 matches ReadStep::Reading { buf }
            &&& buf@ == Seq::<u8>::empty()
            &&& a == ReadAction::Read(2048)
        } else {
            &&& s2 == ReadStep::Done
            &&& a matches ReadAction::Finish(Err(m))
            &&& m@ == "failed to build stream for incoming request body"@
        },
        (ReadStep::Reading { buf }, ReadEvent::Chunk(bytes)) => {
            &&& s2 matches ReadStep::Reading { buf: b2 }
            &&& b2@ == buf@ + bytes@
            &&& a == ReadAction::Read(2048)
        },
        (ReadStep::Reading { buf }, ReadEvent::Closed) => {
            &&& s2 == ReadStep::Done
            &&& a matches ReadAction::Finish(Ok(b))
            &&& b@ == buf@
        },
        (ReadStep::Reading { .. }, ReadEvent::Failed(t)) => {
            &&& s2 == ReadStep::Done
            &&& a matches ReadAction::Finish(Err(m))
            &&& m@ == "failed to read bytes: "@ + t@
        },
        _ => false,
    }
}

/// The bytes of the chunks, one after the other.
pub open spec fn all_bytes(chunks: Seq<Vec<u8>>) -> Seq<u8>
    decreases chunks.len(),
{
    if chunks.len() == 0 {
        Seq::empty()
    } else {
        all_bytes(chunks.drop_last()) + chunks.last()@
    }
}

/// Reading a stream that yields some chunks and then closes returns the
/// bytes of all the chunks, in order: `steps[i]` is the step after `i`
/// chunks, `actions[i]` the action taken on the event that follows it.
pub proof fn lemma_read_whole_body(steps: Seq<ReadStep>, actions: Seq<ReadAction>, chunks: Seq<Vec<u8>>)
    requires
        steps.len() == chunks.len() + 2,
        actions.len() == chunks.len() + 1,
        steps[0] matches ReadStep::Reading { buf } && buf@ == Seq::<u8>::empty(),
        forall|i: int| 0 <= i < chunks.len() ==> read_next(#[trigger] steps[i], ReadEvent::Chunk(chunks[i]), steps[i + 1], actions[i]),
        read_next(steps[chunks.len() as int], ReadEvent::Closed, steps[chunks.len() + 1int], actions[chunks.len() as int]),
    ensures
        actions[chunks.len() as int] matches ReadAction::Finish(Ok(b)) && b@ == all_bytes(chunks),
{
    assert forall|k: int| 0 <= k <= chunks.len() implies (#[trigger] steps[k] matches ReadStep::Reading { buf } && buf@ == all_bytes(chunks.take(k))) by {
        lemma_read_prefix(steps, actions, chunks, k);
    }
    assert(chunks.take(chunks.len() as int) =~= chunks);
}

proof fn lemma_read_prefix(steps: Seq<ReadStep>, actions: Seq<ReadAction>, chunks: Seq<Vec<u8>>, k: int)
    requires
        steps.len() == chunks.len() + 2,
        actions.len() == chunks.len() + 1,
        steps[0] matches ReadStep::Reading { buf } && buf@ == Seq::<u8>::empty(),
        forall|i: int| 0 <= i < chunks.len() ==> read_next(#[trigger] steps[i], ReadEvent::Chunk(chunks[i]), steps[i + 1], actions[i]),
        0 <= k <= chunks.len(),
    ensures
        steps[k] matches ReadStep::Reading { buf } && buf@ == all_bytes(chunks.take(k)),
    decreases k,
{
    if k == 0 {
        assert(chunks.take(0) =~= Seq::<Vec<u8>>::empty());
    } else {
        lemma_read_prefix(steps, actions, chunks, k - 1);
        assert(read_next(steps[k - 1], ReadEvent::Chunk(chunks[k - 1]), steps[k], actions[k - 1]));
        assert(chunks.take(k).drop_last() =~= chunks.take(k - 1));
    }
}

/// Reading a body starts by consuming the request.
pub fn read_body_start() -> (r: ReadStep)
    ensures
        r == ReadStep::Consume,
{
    ReadStep::Consume
}

/// One step of reading a body: a refused body or stream fails with its own
/// text; each chunk is appended and another read of `MAX_READ_BYTES` asked
/// for; a closed stream returns everything read; a failed read fails with
/// `failed to read bytes: ` and the error.
pub fn read_body(s: ReadStep, e: ReadEvent) -> (r: (ReadStep, ReadAction))
    requires
        read_answers(s, e),
    ensures
        read_next(s, e, r.0, r.1),
{
    match (s, e) {
        (ReadStep::Consume, ReadEvent::Consumed(ok)) => {
            if ok {
                (ReadStep::Stream, ReadAction::OpenStream)
            } else {
                (ReadStep::Done, ReadAction::Finish(Err(String::from_str("failed to consume incoming request body"))))
            }
        },
        (ReadStep::Stream, ReadEvent::Streamed(ok)) => {
            if ok {
                (ReadStep::Reading { buf: Vec::new() }, ReadAction::Read(MAX_READ_BYTES as u64))
            } else {
                (
                    ReadStep::Done,
                    ReadAction::Finish(Err(String::from_str("failed to build stream for incoming request body"))),
                )
            }
        },
        (ReadStep::Reading { buf }, ReadEvent::Chunk(bytes)) => {
            let mut buf = buf;
            let mut bytes = bytes;
            buf.append(&mut bytes);
            (ReadStep::Reading { buf }, ReadAction::Read(MAX_READ_BYTES as u64))
        },
        (ReadStep::Reading { buf }, ReadEvent::Closed) => (ReadStep::Done, ReadAction::Finish(Ok(buf))),
        (ReadStep::Reading { buf }, ReadEvent::Failed(t)) => {
            let mut m = String::from_str("failed to read bytes: ");
            m.append(t.as_str());
            (ReadStep::Done, ReadAction::Finish(Err(m)))
        },
        (s, _) => (s, ReadAction::OpenStream),
    }
}

/// How many bytes one read of a typed request's body asks for.
pub const REQUEST_READ_BYTES: u64 = 1024;

/// What a read of a typed request's body stream gave.
pub enum ChunkEvent {
    /// These bytes.
    Chunk(Vec<u8>),
    /// The stream is closed.
    Closed,
    /// The read failed with this error text.
    Failed(String),
}

/// Where collecting a typed request's body stands after a read.
pub enum Collected {
    /// Keep reading `REQUEST_READ_BYTES` more; these are the bytes so far.
    More(Vec<u8>),
    /// Reading is over: the body, or `None` for an empty body (the request
    /// then has no payload to parse); and the read error to log, if a read
    /// failed.
    Done(Option<Vec<u8>>, Option<String>),
}

/// One step of collecting a typed request's body: chunks are appended; a
/// closed stream ends the body; a failed read is logged and also ends it
/// with what was read so far.
pub fn collect_request_body(buf: Vec<u8>, e: ChunkEvent) -> (r: Collected)
    ensures
        match e {
            ChunkEvent::Chunk(bytes) => r matches Collected::More(b) && b@ == buf@ + bytes@,
            ChunkEvent::Closed => r matches Collected::Done(body, log) && log is None && if buf@.len() == 0 {
                body is None
            } else {
                body matches Some(b) && b@ == buf@
            },
            ChunkEvent::Failed(t) => r matches Collected::Done(body, log) && (log matches Some(l) && l@ == t@)
                && if buf@.len() == 0 {
                body is None
            } else {
                body matches Some(b) && b@ == buf@
            },
        },
{
    match e {
        ChunkEvent::Chunk(bytes) => {
            let mut buf = buf;
            let mut bytes = bytes;
            buf.append(&mut bytes);
            Collected::More(buf)
        },
        ChunkEvent::Closed => {
            if buf.len() == 0 {
                Collected::Done(None, None)
            } else {
                Collected::Done(Some(buf), None)
            }
        },
        ChunkEvent::Failed(t) => {
            if buf.len() == 0 {
                Collected::Done(None, Some(t))
            } else {
                Collected::Done(Some(buf), Some(t))
            }
        },
    }
}

/// Where completing a response stands.
pub enum ResponseStep {
    /// Waiting for the host to take the status code; `body` is still to be
    /// written.
    Status { body: Vec<u8> },
    /// Waiting for the response's outgoing body.
    Body { body: Vec<u8> },
    /// Waiting for the outgoing body's stream.
    Stream { body: Vec<u8> },
    /// Waiting for the bytes to be written and flushed.
    Write,
    /// Waiting for the body to be finished.
    Finish,
    /// The response is handed over, or completing has stopped.
    Done,
}

/// One host operation of completing a response.
pub enum ResponseAction {
    /// Set the response's status code.
    SetStatus(u16),
    /// Take the response's outgoing body.
    OpenBody,
    /// Take the outgoing body's stream.
    OpenStream,
    /// Write these bytes to the stream and flush them.
    WriteAndFlush(Vec<u8>),
    /// Finish the response body, with no trailers.
    FinishBody,
    /// Hand the response to the response outparam.
    Send,
    /// Stop: the host refused the last operation, for this reason. Nothing
    /// more is written or sent.
    Abort(String),
}

/// Completing a response with a status code and a body starts by setting
/// the status code.
pub fn complete_response(status_code: u16, body: &[u8]) -> (r: (ResponseStep, ResponseAction))
    ensures
        r.0 matches ResponseStep::Status { body: b } && b@ == body@,
        r.1 == ResponseAction::SetStatus(status_code),
{
    let mut bytes: Vec<u8> = Vec::new();
    for i in 0..body.len()
        invariant
            bytes@ == body@.take(i as int),
    {
        bytes.push(body[i]);
        assert(body@.take(i + 1) =~= body@.take(i as int).push(body@[i as int]));
    }
    assert(body@.take(body@.len() as int) =~= body@);
    (ResponseStep::Status { body: bytes }, ResponseAction::SetStatus(status_code))
}

/// Whether `a` stops completing with the reason `why`.
pub open spec fn aborts(s2: ResponseStep, a: ResponseAction, why: Seq<char>) -> bool {
    s2 == ResponseStep::Done && (a matches ResponseAction::Abort(m) && m@ == why)
}

/// One step of completing a response, given whether the host accepted the
/// last operation: in order the status code is set, the outgoing body and
/// its stream are taken, the body is written and flushed in one go, the
/// body is finished and the response is sent. A refused operation stops
/// everything at once with its reason, so after a refused status code no
/// byte is written and nothing is sent.
pub open spec fn respond_next(s: ResponseStep, accepted: bool, s2: ResponseStep, a: ResponseAction) -> bool {
    match s {
        ResponseStep::Status { body } => if accepted {
            s2 == (ResponseStep::Body { body }) && a == ResponseAction::OpenBody
        } else {
            aborts(s2, a, "setting status code"@)
        },
        ResponseStep::Body { body } => if accepted {
            s2 == (ResponseStep::Stream { body }) && a == ResponseAction::OpenStream
        } else {
            aborts(s2, a, "outgoing response"@)
        },
        ResponseStep::Stream { body } => if accepted {
            s2 == ResponseStep::Write && a == ResponseAction::WriteAndFlush(body)
        } else {
            aborts(s2, a, "outgoing stream"@)
        },
        ResponseStep::Write => if accepted {
            s2 == ResponseStep::Finish && a == ResponseAction::FinishBody
        } else {
            aborts(s2, a, "writing response"@)
        },
        ResponseStep::Finish => if accepted {
            s2 == ResponseStep::Done && a == ResponseAction::Send
        } else {
            aborts(s2, a, "HTTP-CONTROLLER-RESPONSE: failed to finish response body"@)
        },
        ResponseStep::Done => false,
    }
}

fn stop(why: &str) -> (r: (ResponseStep, ResponseAction))
    ensures
        aborts(r.0, r.1, why@),
{
    (ResponseStep::Done, ResponseAction::Abort(String::from_str(why)))
}

/// Moves completing a response on by the host's answer to the last
/// operation.
pub fn complete_response_step(s: ResponseStep, accepted: bool) -> (r: (ResponseStep, ResponseAction))
    requires
        !(s is Done),
    ensures
        respond_next(s, accepted, r.0, r.1),
{
    match s {
        ResponseStep::Status { body } => if accepted {
            (ResponseStep::Body { body }, ResponseAction::OpenBody)
        } else {
            stop("setting status code")
        },
        ResponseStep::Body { body } => if accepted {
            (ResponseStep::Stream { body }, ResponseAction::OpenStream)
        } else {
            stop("outgoing response")
        },
        ResponseStep::Stream { body } => if accepted {
            (ResponseStep::Write, ResponseAction::WriteAndFlush(body))
        } else {
            stop("outgoing stream")
        },
        ResponseStep::Write => if accepted {
            (ResponseStep::Finish, ResponseAction::FinishBody)
        } else {
            stop("writing response")
        },
        ResponseStep::Finish => if accepted {
            (ResponseStep::Done, ResponseAction::Send)
        } else {
            stop("HTTP-CONTROLLER-RESPONSE: failed to finish response body")
        },
        ResponseStep::Done => (ResponseStep::Done, ResponseAction::Send),
    }
}

} // verus!
