//! Length-prefixed framing of session messages over a byte stream, and the
//! one-message-per-datagram framing used over datagram transports.
use vstd::prelude::*;

verus! {

/// Largest body that a stream frame can carry.
pub const MAX_FRAME_BODY: usize = 65535;

/// Number of bytes of the length prefix of a stream frame.
pub const LENGTH_PREFIX: usize = 2;

#[derive(Debug, Clone, Copy, PartialEq, Eq, Structural)]
pub enum FrameError {
    /// The body does not fit in the 16-bit length prefix.
    TooLong { len: usize },
    /// A length prefix announces more bytes than the stream holds.
    Truncated { needed: usize, available: usize },
}

/// How messages are delimited on a transport.
#[derive(Debug, Clone, Copy, PartialEq, Eq, Structural)]
pub enum Framing {
    /// A 16-bit little-endian length, then the body.
    Stream,
    /// One message per datagram, no prefix.
    Datagram,
}

/// The two little-endian bytes of a 16-bit length.
pub open spec fn le16(n: nat) -> Seq<u8> {
    seq![(n % 256) as u8, (n / 256) as u8]
}

/// The length that two little-endian bytes announce.
pub open spec fn length_of(lo: u8, hi: u8) -> nat {
    (lo as nat) + 256 * (hi as nat)
}

/// A stream frame: the length of the body, then the body.
pub open spec fn frame_encoding(body: Seq<u8>) -> Seq<u8> {
    le16(body.len()) + body
}

/// The first frame of `s`, and how many bytes it takes, when `s` holds it whole.
pub open spec fn frame_decoding(s: Seq<u8>) -> Option<(Seq<u8>, nat)> {
    if s.len() < 2 {
        None
    } else {
        let n = length_of(s[0], s[1]);
        if s.len() < 2 + n {
            None
        } else {
            Some((s.subrange(2, 2 + n as int), (2 + n) as nat))
        }
    }
}

/// The frames of a whole stream, in order. A tail shorter than a length prefix
/// is ignored; a prefix that announces more bytes than follow makes it `None`.
pub open spec fn parse_frames(s: Seq<u8>) -> Option<Seq<Seq<u8>>>
    decreases s.len(),
{
    if s.len() < 2 {
        Some(Seq::empty())
    } else {
        match frame_decoding(s) {
            None => None,
            Some((body, used)) => match parse_frames(s.skip(used as int)) {
                None => None,
                Some(rest) => Some(seq![body] + rest),
            },
        }
    }
}

/// What travels on the wire for `body` under `framing`.
pub open spec fn framed(framing: Framing, body: Seq<u8>) -> Seq<u8> {
    match framing {
        Framing::Stream => frame_encoding(body),
        Framing::Datagram => body,
    }
}

/// Whether `body` can be sent under `framing`.
pub open spec fn fits(framing: Framing, body: Seq<u8>) -> bool {
    match framing {
        Framing::Stream => body.len() <= MAX_FRAME_BODY,
        Framing::Datagram => true,
    }
}

fn copy_range(src: &[u8], start: usize, end: usize) -> (r: Vec<u8>)
    requires
        start <= end <= src@.len(),
    ensures
        r@ == src@.subrange(start as int, end as int),
{
    let mut r: Vec<u8> = Vec::with_capacity(end - start);
    let mut i: usize = start;
    while i < end
        invariant
            start <= i <= end <= src@.len(),
            r@ == src@.subrange(start as int, i as int),
        decreases end - i,
    {
        r.push(src[i]);
        i = i + 1;
    }
    r
}

/// Reads the length announced by a two-byte prefix.
pub fn decode_length(lo: u8, hi: u8) -> (r: usize)
    ensures
        r == length_of(lo, hi),
        r <= MAX_FRAME_BODY,
{
    (lo as usize) + 256 * (hi as usize)
}

/// Writes `body` as a stream frame.
pub fn encode_frame(body: &[u8]) -> (r: Result<Vec<u8>, FrameError>)
    ensures
        body@.len() <= MAX_FRAME_BODY ==> (r matches Ok(f) && f@ == frame_encoding(body@)),
        body@.len() > MAX_FRAME_BODY ==> r == Err::<Vec<u8>, FrameError>(
            FrameError::TooLong { len: body@.len() as usize },
        ),
{
    let len = body.len();
    if len > MAX_FRAME_BODY {
        return Err(FrameError::TooLong { len });
    }
    let mut out: Vec<u8> = Vec::with_capacity(len + LENGTH_PREFIX);
    out.push((len % 256) as u8);
    out.push((len / 256) as u8);
    let mut i: usize = 0;
    while i < len
        invariant
            len == body@.len() <= MAX_FRAME_BODY,
            i <= len,
            out@ == le16(len as nat) + body@.subrange(0, i as int),
        decreases len - i,
    {
        out.push(body[i]);
        i = i + 1;
        proof {
            assert(body@.subrange(0, i as int) =~= body@.subrange(0, i - 1) + seq![body@[i - 1]]);
        }
    }
    proof {
        assert(body@.subrange(0, len as int) =~= body@);
    }
    Ok(out)
}

/// Reads the first frame of `buf`: its body and the number of bytes it takes.
/// `None` while `buf` does not hold the whole frame yet.
pub fn decode_frame(buf: &[u8]) -> (r: Option<(Vec<u8>, usize)>)
    ensures
        match frame_decoding(buf@) {
            None => r is None,
            Some((body, used)) => r matches Some((b, n)) && b@ == body && n == used,
        },
{
    if buf.len() < LENGTH_PREFIX {
        return None;
    }
    let n = decode_length(buf[0], buf[1]);
    if buf.len() - LENGTH_PREFIX < n {
        return None;
    }
    let body = copy_range(buf, LENGTH_PREFIX, LENGTH_PREFIX + n);
    Some((body, LENGTH_PREFIX + n))
}

/// Splits a captured stream into the bodies of its frames.
pub fn split_frames(stream: &[u8]) -> (r: Result<Vec<Vec<u8>>, FrameError>)
    ensures
        match parse_frames(stream@) {
            Some(frames) => r matches Ok(v) && v@.len() == frames.len() && forall|i: int|
                0 <= i < frames.len() ==> #[trigger] v@[i]@ == frames[i],
            None => r is Err,
        },
{
    let mut frames: Vec<Vec<u8>> = Vec::new();
    let mut pos: usize = 0;
    let ghost mut seen: Seq<Seq<u8>> = Seq::empty();
    proof {
        assert(stream@.skip(0) =~= stream@);
        if let Some(all) = parse_frames(stream@) {
            assert(seen + all =~= all);
        }
    }
    while stream.len() - pos >= LENGTH_PREFIX
        invariant
            pos <= stream@.len(),
            frames@.len() == seen.len(),
            forall|i: int| 0 <= i < seen.len() ==> #[trigger] frames@[i]@ == seen[i],
            parse_frames(stream@) == match parse_frames(stream@.skip(pos as int)) {
                None => None,
                Some(rest) => Some(seen + rest),
            },
        decreases stream@.len() - pos,
    {
        let ghost s = stream@.skip(pos as int);
        let n = decode_length(stream[pos], stream[pos + 1]);
        let available = stream.len() - pos - LENGTH_PREFIX;
        if available < n {
            proof {
                assert(s[0] == stream@[pos as int] && s[1] == stream@[pos + 1]);
                assert(frame_decoding(s) is None);
            }
            return Err(FrameError::Truncated { needed: n, available });
        }
        let body = copy_range(stream, pos + LENGTH_PREFIX, pos + LENGTH_PREFIX + n);
        proof {
            assert(s[0] == stream@[pos as int] && s[1] == stream@[pos + 1]);
            assert(body@ =~= s.subrange(2, 2 + n as int));
            assert(s.skip(2 + n as int) =~= stream@.skip(pos + 2 + n));
            let rest = parse_frames(stream@.skip(pos + 2 + n));
            if let Some(r) = rest {
                assert(seen + (seq![body@] + r) =~= seen.push(body@) + r);
            }
            seen = seen.push(body@);
        }
        frames.push(body);
        pos = pos + LENGTH_PREFIX + n;
    }
    proof {
        assert(seen + Seq::<Seq<u8>>::empty() =~= seen);
    }
    Ok(frames)
}

/// Puts `body` on the wire under `framing`.
pub fn encode(framing: Framing, body: &[u8]) -> (r: Result<Vec<u8>, FrameError>)
    ensures
        fits(framing, body@) ==> (r matches Ok(f) && f@ == framed(framing, body@)),
        !fits(framing, body@) ==> r == Err::<Vec<u8>, FrameError>(
            FrameError::TooLong { len: body@.len() as usize },
        ),
{
    match framing {
        Framing::Stream => encode_frame(body),
        Framing::Datagram => Ok(copy_range(body, 0, body.len())),
    }
}

/// Reassembles stream frames from reads of any size.
pub struct FrameDecoder {
    buf: Vec<u8>,
}

impl View for FrameDecoder {
    type V = Seq<u8>;

    /// The bytes received and not yet handed out as frames.
    closed spec fn view(&self) -> Seq<u8> {
        self.buf@
    }
}

impl FrameDecoder {
    pub fn new() -> (r: Self)
        ensures
            r@ == Seq::<u8>::empty(),
    {
        FrameDecoder { buf: Vec::new() }
    }

    /// Appends the bytes of one read.
    pub fn push(&mut self, chunk: &[u8])
        ensures
            final(self)@ == old(self)@ + chunk@,
    {
        let mut i: usize = 0;
        while i < chunk.len()
            invariant
                i <= chunk@.len(),
                self@ == old(self)@ + chunk@.subrange(0, i as int),
            decreases chunk@.len() - i,
        {
            self.buf.push(chunk[i]);
            i = i + 1;
            proof {
                assert(chunk@.subrange(0, i as int) =~= chunk@.subrange(0, i - 1) + seq![chunk@[i - 1]]);
            }
        }
        proof {
            assert(chunk@.subrange(0, chunk@.len() as int) =~= chunk@);
        }
    }

    /// Hands out the next whole frame's body, if all of it has arrived.
    pub fn next_frame(&mut self) -> (r: Option<Vec<u8>>)
        ensures
            match frame_decoding(old(self)@) {
                None => r is None && final(self)@ == old(self)@,
                Some((body, used)) => r matches Some(b) && b@ == body && final(self)@
                    == old(self)@.skip(used as int),
            },
    {
        match decode_frame(self.buf.as_slice()) {
            None => None,
            Some((body, used)) => {
                let rest = copy_range(self.buf.as_slice(), used, self.buf.len());
                self.buf = rest;
                proof {
                    assert(rest@ =~= old(self)@.skip(used as int));
                }
                Some(body)
            },
        }
    }
}

/// A stream frame of a body that fits decodes back to that body, and takes
/// exactly two bytes more than the body.
pub proof fn lemma_frame_round_trip(body: Seq<u8>)
    requires
        body.len() <= MAX_FRAME_BODY,
    ensures
        frame_encoding(body).len() == body.len() + 2,
        frame_decoding(frame_encoding(body)) == Some((body, (body.len() + 2) as nat)),
{
    let e = frame_encoding(body);
    let n = body.len();
    assert(length_of(e[0], e[1]) == n) by {
        assert(e[0] == (n % 256) as u8);
        assert(e[1] == (n / 256) as u8);
    }
    assert(e.subrange(2, 2 + n as int) =~= body);
}

/// Frames written one after another are read back one by one, in order.
pub proof fn lemma_frames_in_sequence(body: Seq<u8>, rest: Seq<u8>)
    requires
        body.len() <= MAX_FRAME_BODY,
    ensures
        frame_decoding(frame_encoding(body) + rest) == Some((body, (body.len() + 2) as nat)),
        (frame_encoding(body) + rest).skip(body.len() + 2int) == rest,
{
    let e = frame_encoding(body) + rest;
    let n = body.len();
    assert(e[0] == (n % 256) as u8);
    assert(e[1] == (n / 256) as u8);
    assert(length_of(e[0], e[1]) == n);
    assert(e.subrange(2, 2 + n as int) =~= body);
    assert(e.skip(n + 2int) =~= rest);
}

} // verus!
