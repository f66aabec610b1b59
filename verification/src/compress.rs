//! Per-session streaming compression for bridged sessions.
//!
//! A compressed session carries raw-deflate data in both directions. The
//! compressor and decompressor are stateful across messages — state is
//! owned per bridge and per direction, never recomputed per frame — so
//! every byte must pass through the one codec of its direction, in order.
//! The codec itself is flate2's; what is stated of it is that the
//! compressor's output is a function of the bodies fed so far, that a
//! fresh compressor's stream is empty, that feeding any prefix of such a
//! stream back succeeds, and that inflating exactly that stream yields
//! those bodies back. `compressed_round_trip` derives the session-level
//! round trip from those contracts.

use vstd::prelude::*;
use crate::protocol::RpcError;

verus! {

#[verifier::external_type_specification]
#[verifier::external_body]
pub struct ExCompress(flate2::Compress);

#[verifier::external_type_specification]
#[verifier::external_body]
pub struct ExDecompress(flate2::Decompress);

/// The raw-deflate stream that results from compressing a sequence of
/// bodies, one sync-flushed block run per body. For fixed settings it is
/// a function of the bodies alone.
pub uninterp spec fn deflated(bodies: Seq<Seq<u8>>) -> Seq<u8>;

/// Relies on flate2::Decompress::new: a fresh raw-deflate decompressor
/// with nothing fed yet.
#[verifier::external_body]
fn new_decompress_raw() -> flate2::Decompress {
    flate2::Decompress::new(false)
}

/// A stateful raw-deflate compressor and the bodies fed to it so far.
pub struct StreamCompressor {
    raw: flate2::Compress,
    fed: Ghost<Seq<Seq<u8>>>,
}

impl StreamCompressor {
    /// The bodies compressed so far, in order.
    pub closed spec fn fed(self) -> Seq<Seq<u8>> {
        self.fed@
    }

    /// Relies on flate2::Compress::new: a fresh raw-deflate compressor
    /// with nothing fed, whose stream so far is empty.
    #[verifier::external_body]
    pub fn new() -> (r: StreamCompressor)
        ensures
            r.fed() == Seq::<Seq<u8>>::empty(),
            deflated(r.fed()) == Seq::<u8>::empty(),
    {
        StreamCompressor {
            raw: flate2::Compress::new(flate2::Compression::new(6), false),
            fed: Ghost(Seq::empty()),
        }
    }

    /// Relies on flate2::Compress::compress_vec with a sync flush: with
    /// output space beyond the deflate bound one call consumes the whole
    /// body and flushes every pending bit, and the emitted bytes extend
    /// the deflate stream of the bodies fed so far.
    #[verifier::external_body]
    pub fn compress_body(&mut self, body: &[u8]) -> (r: Vec<u8>)
        ensures
            final(self).fed() == old(self).fed().push(body@),
            deflated(old(self).fed()) + r@ == deflated(final(self).fed()),
    {
        let mut out = Vec::with_capacity(body.len() + body.len() / 4 + 256);
        let _ = self.raw.compress_vec(body, &mut out, flate2::FlushCompress::Sync);
        out
    }
}

/// A stateful raw-deflate decompressor, the compressed bytes fed to it so
/// far, and the plain bytes it has produced. `healthy` records that no
/// call has failed yet; a failed decompressor stays failed.
pub struct StreamDecompressor {
    raw: flate2::Decompress,
    fed: Ghost<Seq<u8>>,
    produced: Ghost<Seq<u8>>,
    healthy: Ghost<bool>,
}

impl StreamDecompressor {
    /// The compressed bytes consumed so far.
    pub closed spec fn fed(self) -> Seq<u8> {
        self.fed@
    }

    /// The plain bytes produced so far.
    pub closed spec fn produced(self) -> Seq<u8> {
        self.produced@
    }

    /// Whether every call so far succeeded.
    pub closed spec fn healthy(self) -> bool {
        self.healthy@
    }

    pub fn new() -> (r: StreamDecompressor)
        ensures
            r.fed() == Seq::<u8>::empty(),
            r.produced() == Seq::<u8>::empty(),
            r.healthy(),
    {
        StreamDecompressor {
            raw: new_decompress_raw(),
            fed: Ghost(Seq::empty()),
            produced: Ghost(Seq::empty()),
            healthy: Ghost(true),
        }
    }

    /// Relies on flate2::Decompress::decompress_vec: inflating a raw
    /// deflate stream yields exactly the bytes that were compressed,
    /// whatever the chunk boundaries of the compressed input, and a
    /// healthy decompressor never fails on a prefix of such a stream. A
    /// corrupt stream — a reported error, or a pass that can make no
    /// progress, as after an end-of-stream marker with input left — is an
    /// error. The loop only grows the output buffer until the call has
    /// consumed the chunk.
    #[verifier::external_body]
    pub fn decompress_chunk(&mut self, chunk: &[u8]) -> (r: Result<Vec<u8>, String>)
        ensures
            (r matches Ok(out) ==> final(self).healthy() && final(self).fed() == old(self).fed()
                + chunk@ && final(self).produced() == old(self).produced() + out@ && (forall|
                bodies: Seq<Seq<u8>>,
            |
                final(self).fed() == deflated(bodies) ==> final(self).produced()
                    == bodies.flatten())),
            r is Err ==> !final(self).healthy() && final(self).fed() == old(self).fed() && final(self).produced() == old(self).produced(),
            (old(self).healthy() && (exists|bodies: Seq<Seq<u8>>|
                (old(self).fed() + chunk@).is_prefix_of(deflated(bodies)))) ==> r is Ok,
    {
        let (mut out, mut done): (Vec<u8>, usize) = (Vec::new(), 0);
        loop {
            out.reserve(chunk.len() * 2 + 256);
            let (bin, bout) = (self.raw.total_in(), out.len());
            let ok = self.raw.decompress_vec(&chunk[done..], &mut out, flate2::FlushDecompress::None).is_ok();
            done += (self.raw.total_in() - bin) as usize;
            if !ok || (done < chunk.len() && self.raw.total_in() == bin && out.len() == bout) {
                return Err(String::from("corrupt deflate stream"));
            }
            if done >= chunk.len() && out.len() < out.capacity() {
                return Ok(out);
            }
        }
    }
}

/// The outbound half of one session's codec: it turns each editor-read
/// body into the bytes sent toward the client — through the streaming
/// compressor when the session is compressed, unchanged when it is plain.
pub struct SessionEncoder {
    comp: Option<StreamCompressor>,
    sent: Ghost<Seq<Seq<u8>>>,
}

impl SessionEncoder {
    /// Whether this session compresses.
    pub closed spec fn compressed(self) -> bool {
        self.comp is Some
    }

    /// The bodies encoded so far, in order.
    pub closed spec fn sent(self) -> Seq<Seq<u8>> {
        self.sent@
    }

    pub closed spec fn wf(self) -> bool {
        self.comp matches Some(c) ==> c.fed() == self.sent@
    }

    pub fn new(compress: bool) -> (r: SessionEncoder)
        ensures
            r.wf(),
            r.compressed() == compress,
            r.sent() == Seq::<Seq<u8>>::empty(),
            compress ==> deflated(r.sent()) == Seq::<u8>::empty(),
    {
        if compress {
            SessionEncoder { comp: Some(StreamCompressor::new()), sent: Ghost(Seq::empty()) }
        } else {
            SessionEncoder { comp: None, sent: Ghost(Seq::empty()) }
        }
    }

    /// Encode one body for the wire: a plain session passes it through,
    /// a compressed one extends the session's deflate stream by exactly
    /// this body.
    pub fn encode_body(&mut self, body: &[u8]) -> (r: Vec<u8>)
        requires
            old(self).wf(),
        ensures
            final(self).wf(),
            final(self).compressed() == old(self).compressed(),
            final(self).sent() == old(self).sent().push(body@),
            !old(self).compressed() ==> r@ == body@,
            old(self).compressed() ==> deflated(old(self).sent()) + r@ == deflated(
                final(self).sent(),
            ),
    {
        let out: Vec<u8> = match &mut self.comp {
            Some(c) => c.compress_body(body),
            None => copy_bytes(body),
        };
        proof {
            self.sent@ = self.sent@.push(body@);
        }
        out
    }
}

/// The inbound half of one session's codec: it turns each wire body into
/// the bytes owed to the editor socket — through the streaming
/// decompressor when the session is compressed, unchanged when plain.
pub struct SessionDecoder {
    dec: Option<StreamDecompressor>,
    received: Ghost<Seq<u8>>,
    delivered: Ghost<Seq<u8>>,
}

impl SessionDecoder {
    /// Whether this session compresses.
    pub closed spec fn compressed(self) -> bool {
        self.dec is Some
    }

    /// The wire bytes accepted so far.
    pub closed spec fn received(self) -> Seq<u8> {
        self.received@
    }

    /// The bytes handed to the editor socket so far, in order.
    pub closed spec fn delivered(self) -> Seq<u8> {
        self.delivered@
    }

    /// Whether every call so far succeeded.
    pub closed spec fn healthy(self) -> bool {
        match self.dec {
            Some(d) => d.healthy(),
            None => true,
        }
    }

    pub closed spec fn wf(self) -> bool {
        self.dec matches Some(d) ==> d.fed() == self.received@ && d.produced() == self.delivered@
    }

    pub fn new(compress: bool) -> (r: SessionDecoder)
        ensures
            r.wf(),
            r.healthy(),
            r.compressed() == compress,
            r.received() == Seq::<u8>::empty(),
            r.delivered() == Seq::<u8>::empty(),
    {
        if compress {
            SessionDecoder {
                dec: Some(StreamDecompressor::new()),
                received: Ghost(Seq::empty()),
                delivered: Ghost(Seq::empty()),
            }
        } else {
            SessionDecoder {
                dec: None,
                received: Ghost(Seq::empty()),
                delivered: Ghost(Seq::empty()),
            }
        }
    }

    /// Decode one wire body. A plain session passes it through. For a
    /// compressed session: a healthy decoder succeeds whenever the bytes
    /// accepted so far, extended by this body, are a prefix of the
    /// compressed stream of some bodies; and whenever the accepted bytes
    /// are exactly such a stream, the bytes delivered to the editor are
    /// exactly those bodies, concatenated, in order — a payload
    /// compressed into several frames is reassembled exactly. A corrupt
    /// stream fails with `InvalidRpcData` and delivers nothing.
    pub fn decode_body(&mut self, body: &[u8]) -> (r: Result<Vec<u8>, RpcError>)
        requires
            old(self).wf(),
        ensures
            final(self).wf(),
            final(self).compressed() == old(self).compressed(),
            !old(self).compressed() ==> (r matches Ok(out) && out@ == body@) && final(self).received() == old(self).received() + body@ && final(self).delivered() == old(self).delivered() + body@ && final(self).healthy(),
            old(self).compressed() ==> ((r matches Ok(out) ==> final(self).healthy() && final(self).received() == old(self).received() + body@ && final(self).delivered() == old(self).delivered() + out@ && (forall|bodies: Seq<Seq<u8>>|
                final(self).received() == deflated(bodies) ==> final(self).delivered()
                    == bodies.flatten())) && (r matches Err(e) ==> e is InvalidRpcData && !final(self).healthy() && final(self).received() == old(self).received() && final(self).delivered() == old(self).delivered())),
            (old(self).healthy() && (exists|bodies: Seq<Seq<u8>>|
                (old(self).received() + body@).is_prefix_of(deflated(bodies)))) ==> r is Ok,
    {
        match &mut self.dec {
            Some(d) => match d.decompress_chunk(body) {
                Ok(out) => {
                    proof {
                        self.received@ = self.received@ + body@;
                        self.delivered@ = self.delivered@ + out@;
                    }
                    Ok(out)
                },
                Err(msg) => Err(RpcError::InvalidRpcData(msg)),
            },
            None => {
                let out = copy_bytes(body);
                proof {
                    self.received@ = self.received@ + body@;
                    self.delivered@ = self.delivered@ + body@;
                }
                Ok(out)
            },
        }
    }
}

/// Compressed-session round trip: any sequence of bodies encoded by one
/// side of a compressed session and decoded by the other, frame by frame
/// in order, is delivered exactly — the concatenation of the bodies, in
/// send order, with every decode succeeding.
pub fn compressed_round_trip(bodies: &Vec<Vec<u8>>) -> (r: Vec<u8>)
    ensures
        r@ == bodies@.map_values(|b: Vec<u8>| b@).flatten(),
{
    let ghost all = bodies@.map_values(|b: Vec<u8>| b@);
    let mut enc = SessionEncoder::new(true);
    let mut dec = SessionDecoder::new(true);
    let mut out: Vec<u8> = Vec::new();
    proof {
        assert(Seq::<Seq<u8>>::empty().flatten() =~= Seq::<u8>::empty());
    }
    let n = bodies.len();
    let mut i: usize = 0;
    while i < n
        invariant
            n == bodies@.len(),
            i <= n,
            all == bodies@.map_values(|b: Vec<u8>| b@),
            enc.wf(),
            dec.wf(),
            dec.healthy(),
            enc.compressed(),
            dec.compressed(),
            enc.sent() == all.subrange(0, i as int),
            dec.received() == deflated(enc.sent()),
            dec.delivered() == enc.sent().flatten(),
            out@ == dec.delivered(),
        decreases n - i,
    {
        let frame = enc.encode_body(bodies[i].as_slice());
        proof {
            assert(enc.sent() =~= all.subrange(0, i + 1));
            assert(dec.received() + frame@ == deflated(enc.sent()));
            assert((dec.received() + frame@).is_prefix_of(deflated(enc.sent())));
        }
        let ghost sent_now = enc.sent();
        let plain = match dec.decode_body(frame.as_slice()) {
            Ok(p) => p,
            Err(_) => {
                // Unreachable: the fed bytes are a prefix of the encoder's
                // stream, so a healthy decoder succeeds.
                proof {
                    assert(false);
                }
                Vec::new()
            },
        };
        proof {
            assert(dec.received() == deflated(sent_now));
            assert(dec.delivered() == sent_now.flatten());
        }
        let mut rest = plain;
        let m = rest.len();
        let mut j: usize = 0;
        while j < m
            invariant
                m == rest@.len() + j,
                out@ + rest@ == dec.delivered(),
            decreases m - j,
        {
            let b = rest.remove(0);
            out.push(b);
            j = j + 1;
        }
        proof {
            assert(out@ + rest@ =~= out@);
        }
        i = i + 1;
    }
    proof {
        assert(enc.sent() =~= all);
        assert(dec.delivered() == all.flatten());
    }
    out
}

/// One-for-one copy of a byte slice.
fn copy_bytes(body: &[u8]) -> (r: Vec<u8>)
    ensures
        r@ == body@,
{
    let mut copy: Vec<u8> = Vec::new();
    let mut i: usize = 0;
    while i < body.len()
        invariant
            i <= body@.len(),
            copy@ == body@.subrange(0, i as int),
        decreases body@.len() - i,
    {
        copy.push(body[i]);
        i = i + 1;
        assert(copy@ =~= body@.subrange(0, i as int));
    }
    assert(copy@ =~= body@);
    copy
}

} // verus!
