//! Length-prefixed frame codec.
//!
//! Every message on the wire is an opaque byte payload preceded by its length
//! as an unsigned 32-bit little-endian integer. The decoder is buffered: it
//! accepts arbitrary chunk boundaries, yields zero or more complete payloads
//! per chunk, and keeps the unconsumed tail for the next read. A declared
//! length above the configured cap is a fatal framing error.

use vstd::prelude::*;

verus! {

/// The little-endian value of four bytes.
pub open spec fn le32_val(b0: u8, b1: u8, b2: u8, b3: u8) -> u32 {
    (b0 as u32) | ((b1 as u32) << 8) | ((b2 as u32) << 16) | ((b3 as u32) << 24)
}

/// The four little-endian bytes of a 32-bit value, lowest first.
pub open spec fn le32_bytes(n: u32) -> Seq<u8> {
    seq![
        (n & 0xff) as u8,
        ((n >> 8) & 0xff) as u8,
        ((n >> 16) & 0xff) as u8,
        ((n >> 24) & 0xff) as u8,
    ]
}

/// The encoding of one payload: length prefix, then the payload itself.
pub open spec fn frame_bytes(p: Seq<u8>) -> Seq<u8>
    recommends
        p.len() < 0x1_0000_0000,
{
    le32_bytes(p.len() as u32) + p
}

/// The declared length at the head of a buffer holding at least a prefix.
pub open spec fn head_len(b: Seq<u8>) -> u32
    recommends
        b.len() >= 4,
{
    le32_val(b[0], b[1], b[2], b[3])
}

/// All complete payloads at the head of `b`, stopping at an incomplete tail
/// or at a fatal over-cap length.
pub open spec fn parse_frames(b: Seq<u8>, cap: u32) -> Seq<Seq<u8>>
    decreases b.len(),
{
    if b.len() < 4 {
        seq![]
    } else {
        let n = head_len(b) as int;
        if n > cap as int {
            seq![]
        } else if b.len() < 4 + n {
            seq![]
        } else {
            seq![b.subrange(4, 4 + n)] + parse_frames(b.skip(4 + n), cap)
        }
    }
}

/// The unconsumed tail of `b` once every complete payload has been taken.
pub open spec fn parse_rest(b: Seq<u8>, cap: u32) -> Seq<u8>
    decreases b.len(),
{
    if b.len() < 4 {
        b
    } else {
        let n = head_len(b) as int;
        if n > cap as int {
            b
        } else if b.len() < 4 + n {
            b
        } else {
            parse_rest(b.skip(4 + n), cap)
        }
    }
}

/// Whether `b` holds a declared length above the cap anywhere along its
/// sequence of complete frames.
pub open spec fn parse_fatal(b: Seq<u8>, cap: u32) -> bool
    decreases b.len(),
{
    if b.len() < 4 {
        false
    } else {
        let n = head_len(b) as int;
        if n > cap as int {
            true
        } else if b.len() < 4 + n {
            false
        } else {
            parse_fatal(b.skip(4 + n), cap)
        }
    }
}

/// The concatenation of the encodings of a sequence of payloads.
pub open spec fn encodes(ps: Seq<Seq<u8>>) -> Seq<u8>
    decreases ps.len(),
{
    if ps.len() == 0 {
        Seq::empty()
    } else {
        frame_bytes(ps[0]) + encodes(ps.skip(1))
    }
}

proof fn lemma_le32_round(n: u32)
    ensures
        le32_val(
            (n & 0xff) as u8,
            ((n >> 8) & 0xff) as u8,
            ((n >> 16) & 0xff) as u8,
            ((n >> 24) & 0xff) as u8,
        ) == n,
{
    assert(((n & 0xff) as u8 as u32) | (((n >> 8) & 0xff) as u8 as u32) << 8 | (((n >> 16)
        & 0xff) as u8 as u32) << 16 | (((n >> 24) & 0xff) as u8 as u32) << 24 == n) by (bit_vector);
}

/// Encode one payload, refusing one longer than the cap.
pub fn encode_frame(payload: &Vec<u8>, cap: u32) -> (r: Option<Vec<u8>>)
    ensures
        payload@.len() <= cap ==> (r is Some && r->0@ == frame_bytes(payload@)),
        payload@.len() > cap ==> r is None,
{
    if payload.len() > cap as usize {
        return None;
    }
    let n: u32 = payload.len() as u32;
    let mut out: Vec<u8> = Vec::new();
    out.push((n & 0xff) as u8);
    out.push(((n >> 8) & 0xff) as u8);
    out.push(((n >> 16) & 0xff) as u8);
    out.push(((n >> 24) & 0xff) as u8);
    assert(out@ =~= le32_bytes(n));
    let mut i: usize = 0;
    while i < payload.len()
        invariant
            i <= payload@.len(),
            out@ == le32_bytes(n) + payload@.subrange(0, i as int),
        decreases payload@.len() - i,
    {
        out.push(payload[i]);
        i = i + 1;
        assert(out@ =~= le32_bytes(n) + payload@.subrange(0, i as int));
    }
    assert(out@ =~= frame_bytes(payload@));
    Some(out)
}

proof fn lemma_frame_head(p: Seq<u8>, t: Seq<u8>)
    requires
        p.len() < 0x1_0000_0000,
    ensures
        (frame_bytes(p) + t).len() == 4 + p.len() + t.len(),
        head_len(frame_bytes(p) + t) == p.len(),
        (frame_bytes(p) + t).subrange(4, 4 + p.len() as int) =~= p,
        (frame_bytes(p) + t).skip(4 + p.len() as int) =~= t,
{
    let n = p.len() as u32;
    lemma_le32_round(n);
    let b = frame_bytes(p) + t;
    assert(b[0] == (n & 0xff) as u8);
    assert(b[1] == ((n >> 8) & 0xff) as u8);
    assert(b[2] == ((n >> 16) & 0xff) as u8);
    assert(b[3] == ((n >> 24) & 0xff) as u8);
}

/// Parsing a stream that starts with one whole encoded payload yields that
/// payload and then parses the remainder.
pub proof fn lemma_parse_prepend(p: Seq<u8>, t: Seq<u8>, cap: u32)
    requires
        p.len() <= cap,
    ensures
        parse_frames(frame_bytes(p) + t, cap) == seq![p] + parse_frames(t, cap),
        parse_rest(frame_bytes(p) + t, cap) == parse_rest(t, cap),
        parse_fatal(frame_bytes(p) + t, cap) == parse_fatal(t, cap),
{
    lemma_frame_head(p, t);
    let b = frame_bytes(p) + t;
    assert(parse_frames(b, cap) =~= seq![p] + parse_frames(t, cap));
}

/// Framing round-trip for one payload: the encoding of any payload within
/// the cap decodes to exactly that payload, with nothing left over and no
/// framing fault.
pub proof fn lemma_round_trip(p: Seq<u8>, cap: u32)
    requires
        p.len() <= cap,
    ensures
        parse_frames(frame_bytes(p), cap) == seq![p],
        parse_rest(frame_bytes(p), cap) == Seq::<u8>::empty(),
        !parse_fatal(frame_bytes(p), cap),
{
    assert(frame_bytes(p) + Seq::<u8>::empty() =~= frame_bytes(p));
    lemma_parse_prepend(p, Seq::<u8>::empty(), cap);
    assert(parse_frames(frame_bytes(p), cap) =~= seq![p] + Seq::<Seq<u8>>::empty());
    assert(seq![p] + Seq::<Seq<u8>>::empty() =~= seq![p]);
}

/// Framing round-trip for a whole sequence: the concatenation of the
/// encodings of any payloads within the cap decodes to exactly those
/// payloads, in order, with nothing left over and no framing fault.
#[verifier::rlimit(50)]
pub proof fn lemma_concat_round_trip(ps: Seq<Seq<u8>>, cap: u32)
    requires
        forall|i: int| 0 <= i < ps.len() ==> #[trigger] ps[i].len() <= cap,
    ensures
        parse_frames(encodes(ps), cap) == ps,
        parse_rest(encodes(ps), cap) == Seq::<u8>::empty(),
        !parse_fatal(encodes(ps), cap),
    decreases ps.len(),
{
    if ps.len() == 0 {
        assert(parse_frames(encodes(ps), cap) =~= ps);
    } else {
        let tail = encodes(ps.skip(1));
        lemma_concat_round_trip(ps.skip(1), cap);
        assert(ps[0].len() <= cap);
        lemma_parse_prepend(ps[0], tail, cap);
        assert(encodes(ps) == frame_bytes(ps[0]) + tail);
        assert(parse_frames(encodes(ps), cap) == seq![ps[0]] + ps.skip(1));
        assert(seq![ps[0]] + ps.skip(1) =~= ps);
    }
}

/// Chunking independence at the stream level: feeding more bytes after a
/// fault-free stream parses the already-complete frames unchanged, and the
/// new bytes continue from the kept tail. Together with the decoder's
/// contracts this says the decoded sequence depends only on the
/// concatenation of the chunks, not on their boundaries.
pub proof fn lemma_parse_extend(b: Seq<u8>, c: Seq<u8>, cap: u32)
    requires
        !parse_fatal(b, cap),
    ensures
        parse_frames(b + c, cap) == parse_frames(b, cap) + parse_frames(
            parse_rest(b, cap) + c,
            cap,
        ),
        parse_rest(b + c, cap) == parse_rest(parse_rest(b, cap) + c, cap),
        parse_fatal(b + c, cap) == parse_fatal(parse_rest(b, cap) + c, cap),
    decreases b.len(),
{
    if b.len() < 4 {
        assert(parse_rest(b, cap) + c =~= b + c);
        assert(parse_frames(b + c, cap) =~= parse_frames(b, cap) + parse_frames(b + c, cap));
    } else {
        let n = head_len(b) as int;
        if b.len() < 4 + n {
            assert(parse_rest(b, cap) + c =~= b + c);
            assert(parse_frames(b + c, cap) =~= parse_frames(b, cap) + parse_frames(b + c, cap));
        } else {
            let p = b.subrange(4, 4 + n);
            let s = b.skip(4 + n);
            assert((b + c).len() >= 4);
            assert((b + c)[0] == b[0] && (b + c)[1] == b[1] && (b + c)[2] == b[2] && (b + c)[3]
                == b[3]);
            assert(head_len(b + c) == head_len(b));
            assert((b + c).subrange(4, 4 + n) =~= p);
            assert((b + c).skip(4 + n) =~= s + c);
            lemma_parse_extend(s, c, cap);
            assert(parse_frames(b + c, cap) =~= seq![p] + parse_frames(s + c, cap));
            assert(parse_frames(b, cap) =~= seq![p] + parse_frames(s, cap));
            assert(seq![p] + (parse_frames(s, cap) + parse_frames(parse_rest(s, cap) + c, cap))
                =~= (seq![p] + parse_frames(s, cap)) + parse_frames(parse_rest(s, cap) + c, cap));
        }
    }
}

/// One step of the buffered decoder.
pub enum FrameStep {
    /// Not enough buffered bytes for a prefix or a full payload.
    Incomplete,
    /// The declared length exceeds the cap: a fatal framing error.
    TooLarge,
    /// One complete payload, removed from the buffer.
    Payload(Vec<u8>),
}

/// Buffered decoder for length-prefixed frames.
pub struct FrameDecoder {
    buf: Vec<u8>,
    cap: u32,
}

impl FrameDecoder {
    /// The bytes fed but not yet consumed.
    pub closed spec fn pending(self) -> Seq<u8> {
        self.buf@
    }

    /// The configured maximum payload length.
    pub closed spec fn spec_cap(self) -> u32 {
        self.cap
    }

    pub fn new(cap: u32) -> (r: FrameDecoder)
        ensures
            r.pending() == Seq::<u8>::empty(),
            r.spec_cap() == cap,
    {
        FrameDecoder { buf: Vec::new(), cap }
    }

    /// Append one chunk of raw bytes, at any boundary.
    pub fn feed(&mut self, chunk: &[u8])
        ensures
            final(self).pending() == old(self).pending() + chunk@,
            final(self).spec_cap() == old(self).spec_cap(),
    {
        let mut i: usize = 0;
        while i < chunk.len()
            invariant
                i <= chunk@.len(),
                self.buf@ == old(self).buf@ + chunk@.subrange(0, i as int),
                self.cap == old(self).cap,
            decreases chunk@.len() - i,
        {
            self.buf.push(chunk[i]);
            i = i + 1;
            assert(self.buf@ =~= old(self).buf@ + chunk@.subrange(0, i as int));
        }
        assert(self.buf@ =~= old(self).buf@ + chunk@);
    }

    /// Take the next complete payload off the buffer, if one is there.
    pub fn next_frame(&mut self) -> (r: FrameStep)
        ensures
            final(self).spec_cap() == old(self).spec_cap(),
            old(self).pending().len() < 4 ==> (r is Incomplete && final(self).pending() == old(
                self,
            ).pending()),
            old(self).pending().len() >= 4 ==> {
                let n = head_len(old(self).pending()) as int;
                if n > old(self).spec_cap() as int {
                    r is TooLarge && final(self).pending() == old(self).pending()
                } else if old(self).pending().len() < 4 + n {
                    r is Incomplete && final(self).pending() == old(self).pending()
                } else {
                    r is Payload && r->Payload_0@ == old(self).pending().subrange(4, 4 + n)
                        && final(self).pending() == old(self).pending().skip(4 + n)
                }
            },
    {
        if self.buf.len() < 4 {
            return FrameStep::Incomplete;
        }
        let n: u32 = (self.buf[0] as u32) | ((self.buf[1] as u32) << 8) | ((self.buf[2] as u32)
            << 16) | ((self.buf[3] as u32) << 24);
        assert(n == head_len(self.buf@));
        if n > self.cap {
            return FrameStep::TooLarge;
        }
        if self.buf.len() - 4 < n as usize {
            return FrameStep::Incomplete;
        }
        let end: usize = 4 + n as usize;
        let mut payload: Vec<u8> = Vec::new();
        let mut i: usize = 4;
        while i < end
            invariant
                4 <= i <= end,
                end == 4 + n,
                end <= self.buf@.len(),
                payload@ == self.buf@.subrange(4, i as int),
                self == old(self),
            decreases end - i,
        {
            payload.push(self.buf[i]);
            i = i + 1;
            assert(payload@ =~= self.buf@.subrange(4, i as int));
        }
        let mut rest: Vec<u8> = Vec::new();
        let mut j: usize = end;
        let buf_len: usize = self.buf.len();
        while j < buf_len
            invariant
                end <= j <= buf_len,
                buf_len == self.buf@.len(),
                end == 4 + n,
                rest@ == self.buf@.subrange(end as int, j as int),
                self == old(self),
            decreases buf_len - j,
        {
            rest.push(self.buf[j]);
            j = j + 1;
            assert(rest@ =~= self.buf@.subrange(end as int, j as int));
        }
        assert(rest@ =~= self.buf@.skip(4 + n as int));
        self.buf = rest;
        FrameStep::Payload(payload)
    }

    /// Classify the end of the stream. Left-over bytes shorter than a
    /// length prefix are a truncated prefix: a clean close. A complete
    /// prefix whose payload never arrived is a truncated payload: a fatal
    /// error.
    pub fn finish(&self) -> (r: Result<(), FrameError>)
        ensures
            r is Ok <==> self.pending().len() < 4,
            r matches Err(e) ==> e is TruncatedPayload,
    {
        if self.buf.len() < 4 {
            Ok(())
        } else {
            Err(FrameError::TruncatedPayload)
        }
    }

    /// Feed one chunk and take every payload it completes. `Err` reports a
    /// fatal over-cap length, after which the connection must close.
    pub fn decode_chunk(&mut self, chunk: &[u8]) -> (r: Result<Vec<Vec<u8>>, FrameError>)
        ensures
            final(self).spec_cap() == old(self).spec_cap(),
            ({
                let stream = old(self).pending() + chunk@;
                let cap = old(self).spec_cap();
                match r {
                    Ok(frames) => !parse_fatal(stream, cap) && frames@.map_values(
                        |v: Vec<u8>| v@,
                    ) == parse_frames(stream, cap) && final(self).pending() == parse_rest(
                        stream,
                        cap,
                    ),
                    Err(_) => parse_fatal(stream, cap),
                }
            }),
    {
        let ghost stream = self.buf@ + chunk@;
        let ghost cap = self.cap;
        self.feed(chunk);
        let mut frames: Vec<Vec<u8>> = Vec::new();
        loop
            invariant
                self.cap == cap,
                cap == old(self).spec_cap(),
                stream == old(self).pending() + chunk@,
                frames@.map_values(|v: Vec<u8>| v@) + parse_frames(self.buf@, cap) == parse_frames(
                    stream,
                    cap,
                ),
                parse_rest(self.buf@, cap) == parse_rest(stream, cap),
                parse_fatal(self.buf@, cap) == parse_fatal(stream, cap),
            decreases self.buf@.len(),
        {
            let ghost pre = self.buf@;
            let ghost pre_frames = frames@.map_values(|v: Vec<u8>| v@);
            match self.next_frame() {
                FrameStep::Payload(p) => {
                    proof {
                        let n = head_len(pre) as int;
                        assert(parse_frames(pre, cap) =~= seq![pre.subrange(4, 4 + n)]
                            + parse_frames(self.buf@, cap));
                        assert(pre_frames.push(p@) + parse_frames(self.buf@, cap) =~= pre_frames + (
                        seq![p@] + parse_frames(self.buf@, cap)));
                    }
                    frames.push(p);
                    proof {
                        assert(frames@.map_values(|v: Vec<u8>| v@) =~= pre_frames.push(p@));
                    }
                },
                FrameStep::TooLarge => {
                    return Err(FrameError::TooLarge);
                },
                FrameStep::Incomplete => {
                    proof {
                        assert(parse_frames(self.buf@, cap) =~= Seq::<Seq<u8>>::empty());
                        assert(frames@.map_values(|v: Vec<u8>| v@) + Seq::<Seq<u8>>::empty()
                            =~= frames@.map_values(|v: Vec<u8>| v@));
                        assert(parse_rest(self.buf@, cap) == self.buf@);
                    }
                    return Ok(frames);
                },
            }
        }
    }
}

/// A fatal framing error.
#[derive(Debug)]
pub enum FrameError {
    /// The declared payload length exceeds the configured cap.
    TooLarge,
    /// The stream ended after a complete length prefix but before the
    /// declared payload arrived.
    TruncatedPayload,
}

} // verus!
