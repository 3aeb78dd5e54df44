//! Length-prefixed message frames over a chunked byte stream.
//!
//! A frame is a two-byte little-endian length followed by that many payload
//! bytes. The transport hands bytes over in chunks that need not line up with
//! frames; the first chunk of a frame must hold the whole length prefix, and a
//! frame is taken out before the next one starts.
use vstd::prelude::*;

verus! {

/// Largest payload that a two-byte length prefix can announce.
pub const MAX_PAYLOAD_LEN: usize = 65535;

/// Why a chunk could not be taken in.
#[derive(Clone, Copy, Debug, PartialEq, Eq, Structural)]
pub enum FrameError {
    /// The first chunk of a frame was shorter than the length prefix.
    ShortPrefix,
    /// More bytes arrived than the frame's length prefix announced.
    Overflow,
}

/// The value of a little-endian two-byte length prefix.
pub open spec fn prefix_value(lo: u8, hi: u8) -> nat {
    lo as nat + 256 * (hi as nat)
}

/// The two-byte little-endian encoding of a length below 65536.
pub open spec fn length_prefix(n: nat) -> Seq<u8> {
    seq![(n % 256) as u8, (n / 256) as u8]
}

/// The frame of a payload: its length prefix, then the payload.
pub open spec fn frame(payload: Seq<u8>) -> Seq<u8> {
    length_prefix(payload.len()) + payload
}

/// The state of a reassembly buffer: the announced payload length of the
/// frame under way (zero when none is) and the payload bytes received so far.
pub struct ReaderView {
    pub expected: nat,
    pub received: Seq<u8>,
}

/// The state of a reassembly buffer when no frame is under way.
pub open spec fn idle() -> ReaderView {
    ReaderView { expected: 0, received: Seq::empty() }
}

/// The reassembly buffer after taking in one chunk.
pub open spec fn feed(r: ReaderView, chunk: Seq<u8>) -> Result<ReaderView, FrameError> {
    if chunk.len() == 0 {
        Ok(r)
    } else if r.expected == 0 {
        if chunk.len() < 2 {
            Err(FrameError::ShortPrefix)
        } else {
            let len = prefix_value(chunk[0], chunk[1]);
            let body = chunk.subrange(2, chunk.len() as int);
            if body.len() > len {
                Err(FrameError::Overflow)
            } else {
                Ok(ReaderView { expected: len, received: body })
            }
        }
    } else if r.received.len() + chunk.len() > r.expected {
        Err(FrameError::Overflow)
    } else {
        Ok(ReaderView { expected: r.expected, received: r.received + chunk })
    }
}

/// Taking out a complete payload: the buffer afterwards, and the payload if a
/// non-empty frame is complete.
pub open spec fn take(r: ReaderView) -> (ReaderView, Option<Seq<u8>>) {
    if r.received.len() > 0 && r.received.len() == r.expected {
        (idle(), Some(r.received))
    } else {
        (r, None)
    }
}

/// The chunks joined into one byte sequence.
pub open spec fn joined(chunks: Seq<Seq<u8>>) -> Seq<u8>
    decreases chunks.len(),
{
    if chunks.len() == 0 {
        Seq::empty()
    } else {
        joined(chunks.drop_last()) + chunks.last()
    }
}

/// The reassembly buffer after taking in each chunk in turn, or the first
/// error.
pub open spec fn feed_all(r: ReaderView, chunks: Seq<Seq<u8>>) -> Result<ReaderView, FrameError>
    decreases chunks.len(),
{
    if chunks.len() == 0 {
        Ok(r)
    } else {
        match feed_all(r, chunks.drop_last()) {
            Ok(prev) => feed(prev, chunks.last()),
            Err(e) => Err(e),
        }
    }
}

/// The buffer in which the payload of a frame is put back together.
pub struct ReadBuffer {
    buffer: Vec<u8>,
    expected: usize,
}

impl View for ReadBuffer {
    type V = ReaderView;

    closed spec fn view(&self) -> ReaderView {
        ReaderView { expected: self.expected as nat, received: self.buffer@ }
    }
}

impl ReadBuffer {
    /// The buffer's own bound: no more bytes than announced, and an
    /// announcement that a prefix can make.
    pub closed spec fn wf(&self) -> bool {
        &&& self.buffer@.len() <= self.expected
        &&& self.expected <= MAX_PAYLOAD_LEN
    }

    /// An empty buffer, with no frame under way.
    pub fn new() -> (r: ReadBuffer)
        ensures
            r@ == idle(),
            r.wf(),
    {
        ReadBuffer { buffer: Vec::new(), expected: 0 }
    }
}

/// Takes in one chunk of the byte stream. A chunk that starts a frame must
/// hold the two-byte length prefix; no frame may receive more bytes than its
/// prefix announced. On an error the buffer is left as it was.
pub fn update_read_buffer(reader: &mut ReadBuffer, chunk: &[u8]) -> (r: Result<(), FrameError>)
    requires
        old(reader).wf(),
    ensures
        final(reader).wf(),
        match feed(old(reader)@, chunk@) {
            Ok(v) => r is Ok && final(reader)@ == v,
            Err(e) => r == Err::<(), FrameError>(e) && final(reader)@ == old(reader)@,
        },
{
    let count = chunk.len();
    if count == 0 {
        return Ok(());
    }
    if reader.expected == 0 {
        if count < 2 {
            return Err(FrameError::ShortPrefix);
        }
        let len: usize = chunk[0] as usize + 256 * (chunk[1] as usize);
        if count - 2 > len {
            return Err(FrameError::Overflow);
        }
        let mut body: Vec<u8> = Vec::with_capacity(len);
        let mut i: usize = 2;
        while i < count
            invariant
                2 <= i <= count,
                count == chunk@.len(),
                body@ == chunk@.subrange(2, i as int),
            decreases count - i,
        {
            body.push(chunk[i]);
            i = i + 1;
            proof {
                assert(body@ =~= chunk@.subrange(2, i as int));
            }
        }
        reader.buffer = body;
        reader.expected = len;
        Ok(())
    } else {
        if count > reader.expected - reader.buffer.len() {
            return Err(FrameError::Overflow);
        }
        let ghost before = reader.buffer@;
        let mut i: usize = 0;
        while i < count
            invariant
                i <= count,
                count == chunk@.len(),
                reader.buffer@ == before + chunk@.subrange(0, i as int),
                reader.expected == old(reader).expected,
            decreases count - i,
        {
            reader.buffer.push(chunk[i]);
            i = i + 1;
            proof {
                assert(reader.buffer@ =~= before + chunk@.subrange(0, i as int));
            }
        }
        proof {
            assert(chunk@.subrange(0, count as int) =~= chunk@);
        }
        Ok(())
    }
}

/// Takes out the payload of a complete, non-empty frame, leaving the buffer
/// ready for the next frame; `None` while no such frame is there.
pub fn get_received_message(reader: &mut ReadBuffer) -> (r: Option<Vec<u8>>)
    requires
        old(reader).wf(),
    ensures
        final(reader).wf(),
        final(reader)@ == take(old(reader)@).0,
        r matches Some(v) ==> take(old(reader)@).1 == Some(v@),
        r is None ==> take(old(reader)@).1 is None,
{
    if reader.buffer.len() == 0 || reader.buffer.len() != reader.expected {
        return None;
    }
    let mut message: Vec<u8> = Vec::new();
    core::mem::swap(&mut message, &mut reader.buffer);
    reader.expected = 0;
    Some(message)
}

/// The frame of a payload: its two-byte little-endian length, then the
/// payload; `None` for a payload too long for the prefix.
pub fn frame_message(payload: &[u8]) -> (r: Option<Vec<u8>>)
    ensures
        payload@.len() <= MAX_PAYLOAD_LEN <==> r is Some,
        r matches Some(v) ==> v@ == frame(payload@),
{
    let len = payload.len();
    if len > MAX_PAYLOAD_LEN {
        return None;
    }
    let mut out: Vec<u8> = Vec::with_capacity(len + 2);
    out.push((len % 256) as u8);
    out.push((len / 256) as u8);
    let mut i: usize = 0;
    while i < len
        invariant
            i <= len,
            len == payload@.len(),
            out@ == length_prefix(len as nat) + payload@.subrange(0, i as int),
        decreases len - i,
    {
        out.push(payload[i]);
        i = i + 1;
        proof {
            assert(out@ =~= length_prefix(len as nat) + payload@.subrange(0, i as int));
        }
    }
    proof {
        assert(payload@.subrange(0, len as int) =~= payload@);
    }
    Some(out)
}

proof fn lemma_prefix_of_frame(payload: Seq<u8>, chunks: Seq<Seq<u8>>)
    requires
        1 <= payload.len() <= MAX_PAYLOAD_LEN,
        chunks.len() >= 1,
        chunks[0].len() >= 2,
        joined(chunks).len() <= frame(payload).len(),
        joined(chunks) == frame(payload).subrange(0, joined(chunks).len() as int),
    ensures
        feed_all(idle(), chunks) == Ok::<ReaderView, FrameError>(
            ReaderView {
                expected: payload.len(),
                received: joined(chunks).subrange(2, joined(chunks).len() as int),
            },
        ),
    decreases chunks.len(),
{
    let prev = chunks.drop_last();
    let last = chunks.last();
    let f = frame(payload);
    assert(joined(chunks) == joined(prev) + last);
    if prev.len() == 0 {
        assert(joined(prev) =~= Seq::<u8>::empty());
        assert(joined(chunks) =~= last);
        assert(feed_all(idle(), prev) == Ok::<ReaderView, FrameError>(idle()));
        assert(last[0] == f[0] && last[1] == f[1]);
        assert(prefix_value(last[0], last[1]) == payload.len());
    } else {
        assert(prev[0] == chunks[0]);
        assert(joined(prev) =~= f.subrange(0, joined(prev).len() as int));
        lemma_prefix_of_frame(payload, prev);
        let j = joined(prev);
        assert(j.len() >= 2) by {
            lemma_joined_first(prev);
        }
        assert(j.subrange(2, j.len() as int) + last =~= joined(chunks).subrange(
            2,
            joined(chunks).len() as int,
        ));
        if last.len() == 0 {
            assert(joined(chunks) =~= j);
        }
    }
}

proof fn lemma_joined_first(chunks: Seq<Seq<u8>>)
    requires
        chunks.len() >= 1,
    ensures
        joined(chunks).len() >= chunks[0].len(),
    decreases chunks.len(),
{
    if chunks.len() > 1 {
        assert(chunks.drop_last()[0] == chunks[0]);
        lemma_joined_first(chunks.drop_last());
    } else {
        assert(joined(chunks.drop_last()) =~= Seq::<u8>::empty());
    }
}

/// Framing round trip: the frame of a non-empty payload that fits the length
/// prefix, split into chunks of which the first holds at least the two prefix
/// bytes, is taken in without error by an idle buffer, and taking it out then
/// yields the payload and leaves the buffer idle.
pub proof fn lemma_frame_round_trip(payload: Seq<u8>, chunks: Seq<Seq<u8>>)
    requires
        1 <= payload.len() <= MAX_PAYLOAD_LEN,
        chunks.len() >= 1,
        chunks[0].len() >= 2,
        joined(chunks) == frame(payload),
    ensures
        feed_all(idle(), chunks) == Ok::<ReaderView, FrameError>(
            ReaderView { expected: payload.len(), received: payload },
        ),
        take(ReaderView { expected: payload.len(), received: payload }) == (
        idle(),
        Some(payload),
        ),
{
    let f = frame(payload);
    assert(f.subrange(0, f.len() as int) =~= f);
    lemma_prefix_of_frame(payload, chunks);
    assert(f.subrange(2, f.len() as int) =~= payload);
}

} // verus!
