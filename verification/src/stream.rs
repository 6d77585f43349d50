//! Streamed calls: each frame travels as a 4-byte big-endian length
//! followed by the encoded frame; a call's payload arrives as data frames
//! that are put back together, and an answer goes out in chunks of at
//! most 16 MiB followed by a closing frame.

use vstd::prelude::*;
use crate::bytes::copy_bytes;
use crate::rpc::{invalid_method_text, single_dot_at, split_method};

verus! {

/// The largest payload one data frame of an answer carries.
pub const STREAM_CHUNK_SIZE: usize = 16777216;

/// The head of a streamed call.
#[derive(Debug)]
pub struct StreamRequestHead {
    pub id: String,
    pub method: String,
}

/// A piece of a streamed payload; `is_end` marks the last piece.
#[derive(Debug)]
pub struct StreamMessage {
    pub id: String,
    pub data: Vec<u8>,
    pub is_end: bool,
}

/// A failure reported on a stream.
#[derive(Debug)]
pub struct StreamError {
    pub id: String,
    pub error: String,
}

/// A frame of the stream protocol.
#[derive(Debug)]
pub enum StreamFrame {
    Request(StreamRequestHead),
    Data(StreamMessage),
    Error(StreamError),
    Close(String),
}

/// The value of a stream frame.
pub enum FrameView {
    Request { id: Seq<char>, method: Seq<char> },
    Data { id: Seq<char>, data: Seq<u8>, is_end: bool },
    Error { id: Seq<char>, error: Seq<char> },
    Close { id: Seq<char> },
}

impl View for StreamFrame {
    type V = FrameView;

    open spec fn view(&self) -> FrameView {
        match self {
            StreamFrame::Request(h) => FrameView::Request { id: h.id@, method: h.method@ },
            StreamFrame::Data(m) => FrameView::Data { id: m.id@, data: m.data@, is_end: m.is_end },
            StreamFrame::Error(e) => FrameView::Error { id: e.id@, error: e.error@ },
            StreamFrame::Close(id) => FrameView::Close { id: id@ },
        }
    }
}

/// The values of a list of frames.
pub open spec fn frames_view(v: Seq<StreamFrame>) -> Seq<FrameView> {
    v.map_values(|f: StreamFrame| f@)
}

/// The 4-byte big-endian form of `n`.
pub open spec fn be_u32_bytes(n: u32) -> Seq<u8> {
    seq![(n >> 24u32) as u8, ((n >> 16u32) & 0xffu32) as u8, ((n >> 8u32) & 0xffu32) as u8, (n & 0xffu32) as u8]
}

/// The number whose 4-byte big-endian form is `b0 b1 b2 b3`.
pub open spec fn be_u32_value(b0: u8, b1: u8, b2: u8, b3: u8) -> u32 {
    ((b0 as u32) << 24u32) | ((b1 as u32) << 16u32) | ((b2 as u32) << 8u32) | (b3 as u32)
}

/// The length prefix written before a frame of `len` bytes (the length is
/// taken modulo 2^32).
pub fn length_prefix(len: usize) -> (r: [u8; 4])
    ensures
        r@ == be_u32_bytes(len as u32),
{
    let n = len as u32;
    let r: [u8; 4] = [(n >> 24u32) as u8, ((n >> 16u32) & 0xffu32) as u8, ((n >> 8u32) & 0xffu32) as u8, (n & 0xffu32) as u8];
    assert(r@ =~= be_u32_bytes(len as u32));
    r
}

/// The frame length a 4-byte prefix announces.
pub fn read_length(prefix: [u8; 4]) -> (r: u32)
    ensures
        r == be_u32_value(prefix@[0], prefix@[1], prefix@[2], prefix@[3]),
{
    ((prefix[0] as u32) << 24u32) | ((prefix[1] as u32) << 16u32) | ((prefix[2] as u32) << 8u32) | (prefix[3] as u32)
}

/// Reading back a written length prefix gives the length.
pub proof fn lemma_length_prefix_roundtrip(n: u32)
    ensures
        be_u32_value(be_u32_bytes(n)[0], be_u32_bytes(n)[1], be_u32_bytes(n)[2], be_u32_bytes(n)[3]) == n,
{
    let b0 = (n >> 24u32) as u8;
    let b1 = ((n >> 16u32) & 0xffu32) as u8;
    let b2 = ((n >> 8u32) & 0xffu32) as u8;
    let b3 = (n & 0xffu32) as u8;
    assert(((b0 as u32) << 24u32) | ((b1 as u32) << 16u32) | ((b2 as u32) << 8u32) | (b3 as u32) == n) by (bit_vector)
        requires
            b0 == (n >> 24u32) as u8,
            b1 == ((n >> 16u32) & 0xffu32) as u8,
            b2 == ((n >> 8u32) & 0xffu32) as u8,
            b3 == (n & 0xffu32) as u8,
    ;
}

/// The bytes that carry an encoded frame: its length prefix, then the frame.
pub fn encode_frame(frame: &[u8]) -> (r: Vec<u8>)
    ensures
        r@ == be_u32_bytes(frame@.len() as u32) + frame@,
{
    let prefix = length_prefix(frame.len());
    let mut out: Vec<u8> = Vec::new();
    out.push(prefix[0]);
    out.push(prefix[1]);
    out.push(prefix[2]);
    out.push(prefix[3]);
    let mut i: usize = 0;
    while i < frame.len()
        invariant
            i <= frame.len(),
            out@ == be_u32_bytes(frame@.len() as u32) + frame@.subrange(0, i as int),
        decreases frame.len() - i,
    {
        out.push(frame[i]);
        i = i + 1;
        assert(out@ =~= be_u32_bytes(frame@.len() as u32) + frame@.subrange(0, i as int));
    }
    assert(frame@.subrange(0, frame@.len() as int) == frame@);
    out
}

/// The frame at the front of `buf`, if `buf` holds all of it.
pub open spec fn framed_payload(buf: Seq<u8>) -> Option<Seq<u8>> {
    if buf.len() < 4 {
        None
    } else {
        let n = be_u32_value(buf[0], buf[1], buf[2], buf[3]) as int;
        if buf.len() - 4 < n {
            None
        } else {
            Some(buf.subrange(4, 4 + n))
        }
    }
}

/// Takes the frame at the front of `buf`: reads the length prefix and
/// returns that many bytes after it, or `None` when `buf` is too short.
pub fn decode_frame(buf: &[u8]) -> (r: Option<Vec<u8>>)
    ensures
        r matches Some(v) ==> framed_payload(buf@) == Some(v@),
        r is None ==> framed_payload(buf@) is None,
{
    if buf.len() < 4 {
        return None;
    }
    let n = read_length([buf[0], buf[1], buf[2], buf[3]]) as usize;
    if buf.len() - 4 < n {
        return None;
    }
    let mut out: Vec<u8> = Vec::new();
    let mut i: usize = 0;
    while i < n
        invariant
            i <= n,
            n <= buf.len() - 4,
            out@ == buf@.subrange(4, 4 + i),
        decreases n - i,
    {
        out.push(buf[4 + i]);
        i = i + 1;
        assert(out@ =~= buf@.subrange(4, 4 + i));
    }
    Some(out)
}

/// What is written for a frame is read back as that frame, whatever follows it.
pub proof fn lemma_frame_roundtrip(frame: Seq<u8>, rest: Seq<u8>)
    requires
        frame.len() <= u32::MAX,
    ensures
        framed_payload(be_u32_bytes(frame.len() as u32) + frame + rest) == Some(frame),
{
    let n = frame.len() as u32;
    let buf = be_u32_bytes(n) + frame + rest;
    lemma_length_prefix_roundtrip(n);
    assert(buf[0] == be_u32_bytes(n)[0]);
    assert(buf[1] == be_u32_bytes(n)[1]);
    assert(buf[2] == be_u32_bytes(n)[2]);
    assert(buf[3] == be_u32_bytes(n)[3]);
    assert(buf.subrange(4, 4 + frame.len() as int) =~= frame);
}

/// The bounds of one chunk of an answer.
#[derive(Debug, Clone, Copy, PartialEq, Eq, Structural)]
pub struct ChunkRange {
    pub start: usize,
    pub end: usize,
    pub is_end: bool,
}

/// How many chunks of `size` bytes carry `total` bytes.
pub open spec fn chunk_count(total: int, size: int) -> int {
    (total + size - 1) / size
}

/// The `k`-th of the chunks of `size` bytes that carry `total` bytes.
pub open spec fn chunk_at(total: int, size: int, k: int) -> ChunkRange {
    let start = k * size;
    let end = if start + size < total { start + size } else { total };
    ChunkRange { start: start as usize, end: end as usize, is_end: k == chunk_count(total, size) - 1 }
}

/// Splits `total` bytes into consecutive chunks of `chunk_size` bytes, the
/// last one shorter when `total` is no multiple; no chunk for no bytes.
pub fn response_chunks(total: usize, chunk_size: usize) -> (r: Vec<ChunkRange>)
    requires
        chunk_size > 0,
    ensures
        r@.len() == chunk_count(total as int, chunk_size as int),
        forall|k: int| 0 <= k < r@.len() ==> #[trigger] r@[k] == chunk_at(total as int, chunk_size as int, k),
        forall|k: int| 0 <= k < r@.len() ==> (#[trigger] r@[k]).start <= r@[k].end <= total,
{
    let q = total / chunk_size;
    let extra: usize = if total % chunk_size != 0 { 1 } else { 0 };
    proof {
        assert(extra == 1 ==> q < usize::MAX) by (nonlinear_arith)
            requires
                chunk_size > 0,
                q == total / chunk_size,
                extra == 1 ==> total % chunk_size != 0,
        ;
    }
    let count = q + extra;
    proof {
        assert(count > 0 ==> total > 0) by (nonlinear_arith)
            requires
                chunk_size > 0,
                q == total / chunk_size,
                count == q + extra,
                extra == 1 ==> total % chunk_size != 0,
                extra == 0 || extra == 1,
        ;
        assert(count == chunk_count(total as int, chunk_size as int)) by (nonlinear_arith)
            requires
                chunk_size > 0,
                count == total / chunk_size + extra,
                extra == (if total % chunk_size != 0 { 1int } else { 0int }),
        ;
    }
    let mut out: Vec<ChunkRange> = Vec::new();
    let mut k: usize = 0;
    let mut start: usize = 0;
    while k < count
        invariant
            chunk_size > 0,
            count == chunk_count(total as int, chunk_size as int),
            k <= count,
            k < count ==> start == k * chunk_size,
            k < count ==> start < total,
            out@.len() == k,
            forall|j: int| 0 <= j < k ==> #[trigger] out@[j] == chunk_at(total as int, chunk_size as int, j),
            forall|j: int| 0 <= j < k ==> (#[trigger] out@[j]).start <= out@[j].end <= total,
        decreases count - k,
    {
        let end = if total - start > chunk_size { start + chunk_size } else { total };
        let c = ChunkRange { start, end, is_end: k == count - 1 };
        assert(c == chunk_at(total as int, chunk_size as int, k as int));
        out.push(c);
        proof {
            assert((k + 1) * chunk_size == k * chunk_size + chunk_size) by (nonlinear_arith);
            if k + 1 < count {
                assert((k + 1) * chunk_size < total) by (nonlinear_arith)
                    requires
                        k + 1 < count,
                        count == chunk_count(total as int, chunk_size as int),
                        chunk_size > 0,
                ;
            }
        }
        if k + 1 < count {
            start = start + chunk_size;
        }
        k = k + 1;
    }
    out
}


/// What to do after a frame of a streamed call's payload arrived.
#[derive(Debug)]
pub enum AssemblyStep {
    /// Wait for the next frame.
    Continue,
    /// The payload is complete: hand it to the service.
    Complete,
    /// The caller reported a failure: answer it with this error text.
    Abort(String),
}

/// The payload of a streamed call, as it is put back together.
pub struct StreamAssembly {
    pub data: Vec<u8>,
}

/// The payload and step after taking in frame `f` with `acc` gathered so far.
pub open spec fn assembly_step(acc: Seq<u8>, f: FrameView) -> (Seq<u8>, Option<Option<Seq<char>>>) {
    match f {
        FrameView::Data { data, is_end, .. } => (acc + data, if is_end { Some(None) } else { None }),
        FrameView::Error { error, .. } => (acc, Some(Some(error))),
        _ => (acc, Some(None)),
    }
}

impl StreamAssembly {
    /// Nothing gathered yet.
    pub fn new() -> (r: StreamAssembly)
        ensures
            r.data@ == Seq::<u8>::empty(),
    {
        StreamAssembly { data: Vec::new() }
    }

    /// Takes in one frame: data frames extend the payload and the last one
    /// completes it; an error frame aborts with its text; any other frame
    /// ends the payload as it stands.
    pub fn on_frame(&mut self, frame: StreamFrame) -> (r: AssemblyStep)
        ensures
            final(self).data@ == assembly_step(old(self).data@, frame@).0,
            assembly_step(old(self).data@, frame@).1 == match r {
                AssemblyStep::Continue => None,
                AssemblyStep::Complete => Some(None),
                AssemblyStep::Abort(e) => Some(Some(e@)),
            },
    {
        match frame {
            StreamFrame::Data(msg) => {
                let mut i: usize = 0;
                let ghost start = self.data@;
                while i < msg.data.len()
                    invariant
                        i <= msg.data.len(),
                        self.data@ == start + msg.data@.subrange(0, i as int),
                    decreases msg.data.len() - i,
                {
                    self.data.push(msg.data[i]);
                    i = i + 1;
                    assert(self.data@ =~= start + msg.data@.subrange(0, i as int));
                }
                assert(msg.data@.subrange(0, msg.data@.len() as int) == msg.data@);
                if msg.is_end {
                    AssemblyStep::Complete
                } else {
                    AssemblyStep::Continue
                }
            },
            StreamFrame::Error(err) => AssemblyStep::Abort(err.error),
            _ => AssemblyStep::Complete,
        }
    }
}

/// The data frames that carry `data` in chunks of `size` bytes.
pub open spec fn chunk_frames(id: Seq<char>, data: Seq<u8>, size: int) -> Seq<FrameView> {
    Seq::new(chunk_count(data.len() as int, size) as nat, |k: int| {
        let c = chunk_at(data.len() as int, size, k);
        FrameView::Data { id, data: data.subrange(c.start as int, c.end as int), is_end: c.is_end }
    })
}

/// The payload gathered from `frames` after `acc`, and how the gathering
/// ended (`None` while it has not ended).
pub open spec fn assemble(acc: Seq<u8>, frames: Seq<FrameView>) -> (Seq<u8>, Option<Option<Seq<char>>>)
    decreases frames.len(),
{
    if frames.len() == 0 {
        (acc, None)
    } else {
        let (a, st) = assembly_step(acc, frames[0]);
        if st is Some {
            (a, st)
        } else {
            assemble(a, frames.drop_first())
        }
    }
}

/// From chunk `k` on, the chunk frames complete the payload.
proof fn lemma_chunks_reassemble(id: Seq<char>, data: Seq<u8>, size: int, k: int, tail: Seq<FrameView>)
    requires
        size > 0,
        data.len() <= usize::MAX,
        0 <= k <= chunk_count(data.len() as int, size),
        k < chunk_count(data.len() as int, size) ==> k * size < data.len(),
        tail.len() > 0,
        tail[0] is Close,
    ensures
        assemble(
            data.subrange(0, if k * size < data.len() { k * size } else { data.len() as int }),
            chunk_frames(id, data, size).subrange(k, chunk_count(data.len() as int, size)) + tail,
        ) == (data, Some(None::<Seq<char>>)),
    decreases chunk_count(data.len() as int, size) - k,
{
    let n = chunk_count(data.len() as int, size);
    let len = data.len() as int;
    let frames = chunk_frames(id, data, size).subrange(k, n) + tail;
    let acc = data.subrange(0, if k * size < len { k * size } else { len });
    if k == n {
        assert(frames =~= tail);
        assert(n * size >= len) by (nonlinear_arith)
            requires
                size > 0,
                n == (len + size - 1) / size,
                len >= 0,
        ;
        assert(acc =~= data);
    } else {
        let c = chunk_at(len, size, k);
        assert(k * size + size == (k + 1) * size) by (nonlinear_arith);
        assert(frames[0] == chunk_frames(id, data, size)[k]);
        let piece = data.subrange(c.start as int, c.end as int);
        assert(c.start as int == k * size);
        assert(acc + piece =~= data.subrange(0, c.end as int));
        if k == n - 1 {
            assert((k + 1) * size >= len) by (nonlinear_arith)
                requires
                    size > 0,
                    n == (len + size - 1) / size,
                    k == n - 1,
                    len >= 0,
            ;
            assert(c.end == len);
            assert(data.subrange(0, c.end as int) =~= data);
        } else {
            assert((k + 1) * size < len) by (nonlinear_arith)
                requires
                    size > 0,
                    n == (len + size - 1) / size,
                    k + 1 < n,
                    len >= 0,
            ;
            assert(frames.drop_first() =~= chunk_frames(id, data, size).subrange(k + 1, n) + tail);
            lemma_chunks_reassemble(id, data, size, k + 1, tail);
        }
    }
}

/// A streamed answer, gathered frame by frame, gives back exactly the
/// payload the service produced, and the gathering ends there.
pub proof fn lemma_reply_reassembles(request_id: Seq<char>, id: Seq<char>, data: Seq<u8>)
    requires
        data.len() <= usize::MAX,
    ensures
        assemble(Seq::empty(), reply_frames(request_id, Ok((id, data)))) == (data, Some(None::<Seq<char>>)),
{
    let size = STREAM_CHUNK_SIZE as int;
    let n = chunk_count(data.len() as int, size);
    let tail = seq![FrameView::Close { id }];
    assert(reply_frames(request_id, Ok((id, data))) =~= chunk_frames(id, data, size).subrange(0, n) + tail);
    assert(0 * size == 0);
    if 0 < n {
        assert(0 < data.len()) by (nonlinear_arith)
            requires
                size > 0,
                n == (data.len() + size - 1) / size,
                0 < n,
        ;
    }
    assert(data.subrange(0, 0) =~= Seq::<u8>::empty());
    lemma_chunks_reassemble(id, data, size, 0, tail);
}

/// The frames that answer a streamed call: the response payload in chunks,
/// the last marked as the end, then a closing frame with the response id;
/// or, when the service failed, its error and a closing frame under the
/// request's id.
pub open spec fn reply_frames(request_id: Seq<char>, outcome: Result<(Seq<char>, Seq<u8>), Seq<char>>) -> Seq<FrameView> {
    match outcome {
        Ok((id, data)) => {
            chunk_frames(id, data, STREAM_CHUNK_SIZE as int).push(FrameView::Close { id })
        },
        Err(e) => seq![FrameView::Error { id: request_id, error: e }, FrameView::Close { id: request_id }],
    }
}

/// The value of a service's outcome.
pub open spec fn stream_outcome_view(o: &Result<(String, Vec<u8>), String>) -> Result<(Seq<char>, Seq<u8>), Seq<char>> {
    match o {
        Ok((id, data)) => Ok((id@, data@)),
        Err(e) => Err(e@),
    }
}

/// Copies `data[start..end]`.
fn copy_range(data: &Vec<u8>, start: usize, end: usize) -> (r: Vec<u8>)
    requires
        start <= end <= data@.len(),
    ensures
        r@ == data@.subrange(start as int, end as int),
{
    let mut out: Vec<u8> = Vec::new();
    let mut i: usize = start;
    while i < end
        invariant
            start <= i <= end,
            end <= data@.len(),
            out@ == data@.subrange(start as int, i as int),
        decreases end - i,
    {
        out.push(data[i]);
        i = i + 1;
        assert(out@ =~= data@.subrange(start as int, i as int));
    }
    out
}

/// Builds the frames that answer a streamed call from the service's outcome
/// (the response id and payload, or an error text).
pub fn stream_reply_frames(request_id: &String, outcome: Result<(String, Vec<u8>), String>) -> (r: Vec<StreamFrame>)
    ensures
        frames_view(r@) == reply_frames(request_id@, stream_outcome_view(&outcome)),
{
    let ghost ov = stream_outcome_view(&outcome);
    match outcome {
        Ok((id, data)) => {
            let chunks = response_chunks(data.len(), STREAM_CHUNK_SIZE);
            assert(forall|j: int| 0 <= j < chunks@.len() ==> (#[trigger] chunks@[j]).start <= chunks@[j].end <= data@.len());
            let ghost n = chunks@.len();
            let mut out: Vec<StreamFrame> = Vec::new();
            let mut k: usize = 0;
            while k < chunks.len()
                invariant
                    k <= chunks@.len(),
                    n == chunks@.len(),
                    n == chunk_count(data@.len() as int, STREAM_CHUNK_SIZE as int),
                    forall|j: int| 0 <= j < chunks@.len() ==> #[trigger] chunks@[j] == chunk_at(data@.len() as int, STREAM_CHUNK_SIZE as int, j),
                    forall|j: int| 0 <= j < chunks@.len() ==> (#[trigger] chunks@[j]).start <= chunks@[j].end <= data@.len(),
                    out@.len() == k,
                    forall|j: int| 0 <= j < k ==> (#[trigger] out@[j])@ == (FrameView::Data {
                        id: id@,
                        data: data@.subrange(chunks@[j].start as int, chunks@[j].end as int),
                        is_end: chunks@[j].is_end,
                    }),
                decreases chunks@.len() - k,
            {
                let c = chunks[k];
                proof {
                    assert(c == chunk_at(data@.len() as int, STREAM_CHUNK_SIZE as int, k as int));
                    assert(c.start <= c.end <= data@.len());
                }
                let piece = copy_range(&data, c.start, c.end);
                out.push(StreamFrame::Data(StreamMessage { id: id.clone(), data: piece, is_end: c.is_end }));
                k = k + 1;
            }
            out.push(StreamFrame::Close(id.clone()));
            proof {
                let expected = reply_frames(request_id@, ov);
                assert(frames_view(out@) =~= expected);
            }
            out
        },
        Err(e) => {
            let mut out: Vec<StreamFrame> = Vec::new();
            out.push(StreamFrame::Error(StreamError { id: request_id.clone(), error: e }));
            out.push(StreamFrame::Close(request_id.clone()));
            assert(frames_view(out@) =~= reply_frames(request_id@, ov));
            out
        },
    }
}

/// Reads the head of a streamed call: its service and method, or the
/// error frame that answers a malformed method name.
pub fn stream_route(head: &StreamRequestHead) -> (r: Result<(String, String), StreamError>)
    ensures
        r matches Ok((service, name)) ==> exists|i: int|
            single_dot_at(head.method@, i) && service@ == head.method@.subrange(0, i)
                && name@ == head.method@.subrange(i + 1, head.method@.len() as int),
        r matches Err(e) ==> (forall|i: int| !single_dot_at(head.method@, i)) && e.id@ == head.id@
            && e.error@ == invalid_method_text(),
{
    match split_method(head.method.as_str()) {
        Some(parts) => Ok(parts),
        None => Err(StreamError { id: head.id.clone(), error: String::from_str("Invalid method format") }),
    }
}

} // verus!
