//! Bridged sessions and their multiplexer.
//!
//! A bridge is one logical client session bound to a numeric socket id,
//! carrying bytes in both directions between the client and the editor
//! server's local socket. The multiplexer maps socket ids to bridges:
//! inserted on attachment, removed on bridge end or disposal. The transport
//! that owns the editor socket performs the actual reads and writes (and the
//! per-session streaming compression); the bridge records the delivery
//! order, which is what the ordering law speaks of.

use vstd::prelude::*;
use crate::protocol::{ClientRequestMethod, RpcError, ServerMessageParams, ToClientRequest};

verus! {

/// The abstract state of one bridge.
pub struct BridgeView {
    pub socket_id: u16,
    pub compress: bool,
    /// Chunks accepted from the client for the editor socket, in delivery
    /// order.
    pub inbound: Seq<Seq<u8>>,
    /// Chunks read from the editor socket and framed toward the client, in
    /// read order.
    pub outbound: Seq<Seq<u8>>,
}

/// One session bound to a socket id.
pub struct Bridge {
    socket_id: u16,
    compress: bool,
    inbound: Ghost<Seq<Seq<u8>>>,
    outbound: Ghost<Seq<Seq<u8>>>,
}

impl View for Bridge {
    type V = BridgeView;

    closed spec fn view(&self) -> BridgeView {
        BridgeView {
            socket_id: self.socket_id,
            compress: self.compress,
            inbound: self.inbound@,
            outbound: self.outbound@,
        }
    }
}

impl Bridge {
    /// A fresh bridge with nothing delivered yet.
    pub fn new(socket_id: u16, compress: bool) -> (r: Bridge)
        ensures
            r@ == (BridgeView {
                socket_id,
                compress,
                inbound: Seq::empty(),
                outbound: Seq::empty(),
            }),
    {
        Bridge { socket_id, compress, inbound: Ghost(Seq::empty()), outbound: Ghost(Seq::empty()) }
    }

    /// Accept one body from the client and hand back the bytes owed to the
    /// editor socket, appended to the delivery order.
    pub fn write(&mut self, body: Vec<u8>) -> (r: Vec<u8>)
        ensures
            r@ == body@,
            final(self)@ == (BridgeView { inbound: old(self)@.inbound.push(body@), ..old(self)@ }),
    {
        proof {
            self.inbound@ = self.inbound@.push(body@);
        }
        body
    }

    /// Frame one chunk read from the editor socket as a `servermsg` push
    /// toward the client, appended to the read order.
    pub fn emit(&mut self, chunk: Vec<u8>) -> (r: ToClientRequest)
        ensures
            r.id is None,
            r.params matches ClientRequestMethod::servermsg(m) && m.i == old(self)@.socket_id
                && m.body@ == chunk@,
            final(self)@ == (BridgeView { outbound: old(self)@.outbound.push(chunk@), ..old(self)@ }),
    {
        proof {
            self.outbound@ = self.outbound@.push(chunk@);
        }
        ToClientRequest {
            id: None,
            params: ClientRequestMethod::servermsg(ServerMessageParams {
                i: self.socket_id,
                body: chunk,
            }),
        }
    }
}

/// The bridge state after accepting a sequence of client bodies, one
/// `write` per body, in order.
pub open spec fn delivered_after(b: BridgeView, bodies: Seq<Seq<u8>>) -> BridgeView
    decreases bodies.len(),
{
    if bodies.len() == 0 {
        b
    } else {
        delivered_after(
            BridgeView { inbound: b.inbound.push(bodies[0]), ..b },
            bodies.skip(1),
        )
    }
}

/// The bridge state after reading a sequence of editor chunks, one `emit`
/// per chunk, in order.
pub open spec fn emitted_after(b: BridgeView, chunks: Seq<Seq<u8>>) -> BridgeView
    decreases chunks.len(),
{
    if chunks.len() == 0 {
        b
    } else {
        emitted_after(
            BridgeView { outbound: b.outbound.push(chunks[0]), ..b },
            chunks.skip(1),
        )
    }
}

/// Bridge ordering, client to editor: after any sequence of writes the
/// delivery order to the editor socket is exactly the client's send order
/// — the earlier bodies first, then the new ones, in the order sent —
/// and nothing else about the bridge changes.
pub proof fn lemma_bridge_write_order(b: BridgeView, bodies: Seq<Seq<u8>>)
    ensures
        delivered_after(b, bodies) == (BridgeView { inbound: b.inbound + bodies, ..b }),
    decreases bodies.len(),
{
    if bodies.len() == 0 {
        assert(b.inbound + bodies =~= b.inbound);
    } else {
        let b1 = BridgeView { inbound: b.inbound.push(bodies[0]), ..b };
        lemma_bridge_write_order(b1, bodies.skip(1));
        assert(b.inbound.push(bodies[0]) + bodies.skip(1) =~= b.inbound + bodies);
    }
}

/// Bridge ordering, editor to client: after any sequence of reads the
/// chunks framed toward the client stand in exactly the read order, and
/// nothing else about the bridge changes.
pub proof fn lemma_bridge_read_order(b: BridgeView, chunks: Seq<Seq<u8>>)
    ensures
        emitted_after(b, chunks) == (BridgeView { outbound: b.outbound + chunks, ..b }),
    decreases chunks.len(),
{
    if chunks.len() == 0 {
        assert(b.outbound + chunks =~= b.outbound);
    } else {
        let b1 = BridgeView { outbound: b.outbound.push(chunks[0]), ..b };
        lemma_bridge_read_order(b1, chunks.skip(1));
        assert(b.outbound.push(chunks[0]) + chunks.skip(1) =~= b.outbound + chunks);
    }
}

/// Mapping from socket id to bridge.
pub struct ServerMultiplexer {
    entries: Vec<Bridge>,
}

impl ServerMultiplexer {
    /// Socket ids are unique in the table.
    pub closed spec fn wf(self) -> bool {
        forall|i: int, j: int|
            0 <= i < j < self.entries@.len() ==> #[trigger] self.entries@[i]@.socket_id
                != #[trigger] self.entries@[j]@.socket_id
    }

    /// Whether a bridge is attached under `id`.
    pub closed spec fn has(self, id: u16) -> bool {
        exists|i: int| 0 <= i < self.entries@.len() && self.entries@[i]@.socket_id == id
    }

    closed spec fn idx_of(self, id: u16) -> int {
        choose|i: int| 0 <= i < self.entries@.len() && self.entries@[i]@.socket_id == id
    }

    /// The bridge attached under `id`; meaningful only when `has(id)`.
    pub closed spec fn bridge_at(self, id: u16) -> BridgeView {
        self.entries@[self.idx_of(id)]@
    }

    /// How many bridges are attached.
    pub closed spec fn count(self) -> nat {
        self.entries@.len()
    }

    pub fn new() -> (r: ServerMultiplexer)
        ensures
            r.wf(),
            r.count() == 0,
            forall|id: u16| !r.has(id),
    {
        ServerMultiplexer { entries: Vec::new() }
    }

    /// Attach a bridge under its socket id, replacing any bridge already
    /// there (the replaced session is gone).
    pub fn register(&mut self, b: Bridge)
        requires
            old(self).wf(),
        ensures
            final(self).wf(),
            final(self).has(b@.socket_id),
            final(self).bridge_at(b@.socket_id) == b@,
            forall|o: u16|
                o != b@.socket_id ==> #[trigger] final(self).has(o) == old(self).has(o),
            forall|o: u16|
                o != b@.socket_id && old(self).has(o) ==> #[trigger] final(self).bridge_at(o)
                    == old(self).bridge_at(o),
    {
        let id = b.socket_id;
        let mut i: usize = 0;
        let n = self.entries.len();
        while i < n
            invariant
                old(self).wf(),
                n == self.entries@.len(),
                i <= n,
                *self == *old(self),
                id == b@.socket_id,
                forall|k: int| 0 <= k < i ==> self.entries@[k]@.socket_id != id,
            decreases n - i,
        {
            if self.entries[i].socket_id == id {
                self.entries.set(i, b);
                proof {
                    let s = self.entries@;
                    assert(s[i as int]@.socket_id == id);
                    assert(final(self).has(id));
                    assert(final(self).wf()) by {
                        assert forall|a: int, c: int| 0 <= a < c < s.len() implies s[a]@.socket_id
                            != s[c]@.socket_id by {
                            assert(old(self).entries@[a]@.socket_id != old(self).entries@[c]@.socket_id);
                            if a != i {
                                assert(s[a] == old(self).entries@[a]);
                            }
                            if c != i {
                                assert(s[c] == old(self).entries@[c]);
                            }
                            assert(s[i as int]@.socket_id == old(self).entries@[i as int]@.socket_id);
                        }
                    }
                    assert(final(self).idx_of(id) == i) by {
                        let j = final(self).idx_of(id);
                        assert(0 <= j < s.len() && s[j]@.socket_id == id);
                        if j != i {
                            assert(s[j] == old(self).entries@[j]);
                            assert(old(self).entries@[j]@.socket_id == id);
                            assert(old(self).entries@[i as int]@.socket_id == id);
                        }
                    }
                    assert forall|o: u16| o != id implies #[trigger] final(self).has(o) == old(self).has(o) by {
                        if old(self).has(o) {
                            let k = old(self).idx_of(o);
                            assert(0 <= k < s.len() && s[k]@.socket_id == o);
                        }
                        if final(self).has(o) {
                            let k = final(self).idx_of(o);
                            assert(old(self).entries@[k]@.socket_id == o);
                        }
                    }
                    assert forall|o: u16| o != id && old(self).has(o) implies #[trigger] final(self).bridge_at(o) == old(self).bridge_at(o) by {
                        let k = old(self).idx_of(o);
                        assert(0 <= k < s.len() && s[k]@.socket_id == o);
                        let k2 = final(self).idx_of(o);
                        assert(0 <= k2 < s.len() && s[k2]@.socket_id == o);
                        assert(old(self).entries@[k2]@.socket_id == o);
                        assert(k == k2);
                    }
                }
                return ;
            }
            i = i + 1;
        }
        self.entries.push(b);
        proof {
            let s = self.entries@;
            assert(s[s.len() - 1]@.socket_id == id);
            assert(final(self).has(id));
            assert(final(self).idx_of(id) == s.len() - 1) by {
                let j = final(self).idx_of(id);
                assert(0 <= j < s.len() && s[j]@.socket_id == id);
                if j < s.len() - 1 {
                    assert(old(self).entries@[j]@.socket_id == id);
                }
            }
            assert forall|o: u16| o != id implies #[trigger] final(self).has(o) == old(self).has(
                o,
            ) by {
                if old(self).has(o) {
                    let k = old(self).idx_of(o);
                    assert(s[k]@.socket_id == o);
                }
                if final(self).has(o) {
                    let k = final(self).idx_of(o);
                    assert(k < s.len() - 1);
                    assert(old(self).entries@[k]@.socket_id == o);
                }
            }
            assert forall|o: u16| o != id && old(self).has(o) implies #[trigger] final(self).bridge_at(o) == old(self).bridge_at(o) by {
                let k = old(self).idx_of(o);
                assert(s[k]@.socket_id == o);
                let k2 = final(self).idx_of(o);
                assert(k2 < s.len() - 1);
                assert(old(self).entries@[k2]@.socket_id == o);
                assert(k == k2);
            }
        }
    }

    /// Route one client body to the bridge under `i`, if one is attached:
    /// the returned bytes are owed to that editor socket next, in order.
    /// `None` reports that no server is attached under that id.
    pub fn write_message(&mut self, i: u16, body: Vec<u8>) -> (r: Option<Vec<u8>>)
        requires
            old(self).wf(),
        ensures
            final(self).wf(),
            r is Some <==> old(self).has(i),
            forall|o: u16| #[trigger] final(self).has(o) == old(self).has(o),
            old(self).has(i) ==> r->0@ == body@ && final(self).bridge_at(i) == (BridgeView {
                inbound: old(self).bridge_at(i).inbound.push(body@),
                ..old(self).bridge_at(i)
            }),
            forall|o: u16|
                o != i && old(self).has(o) ==> #[trigger] final(self).bridge_at(o) == old(self).bridge_at(o),
            !old(self).has(i) ==> *final(self) == *old(self),
    {
        let n = self.entries.len();
        let mut k: usize = 0;
        while k < n
            invariant
                old(self).wf(),
                n == self.entries@.len(),
                k <= n,
                *self == *old(self),
                forall|j: int| 0 <= j < k ==> self.entries@[j]@.socket_id != i,
            decreases n - k,
        {
            if self.entries[k].socket_id == i {
                let ghost pre = self.entries@;
                let mut b = self.entries.remove(k);
                let out = b.write(body);
                self.entries.insert(k, b);
                proof {
                    let s = self.entries@;
                    assert(s =~= pre.update(k as int, s[k as int]));
                    assert(s[k as int]@.socket_id == i);
                    assert(old(self).has(i) && final(self).has(i));
                    assert(old(self).idx_of(i) == k) by {
                        let j = old(self).idx_of(i);
                        assert(pre[j]@.socket_id == i);
                    }
                    assert(final(self).idx_of(i) == k) by {
                        let j = final(self).idx_of(i);
                        assert(s[j]@.socket_id == i);
                        if j != k {
                            assert(pre[j]@.socket_id == i);
                        }
                    }
                    assert forall|o: u16| #[trigger] final(self).has(o) == old(self).has(o) by {
                        if old(self).has(o) {
                            let j = old(self).idx_of(o);
                            if j == k {
                                assert(s[j]@.socket_id == o);
                            } else {
                                assert(s[j]@.socket_id == o);
                            }
                        }
                        if final(self).has(o) {
                            let j = final(self).idx_of(o);
                            if j == k {
                                assert(pre[j]@.socket_id == o);
                            } else {
                                assert(pre[j]@.socket_id == o);
                            }
                        }
                    }
                    assert forall|o: u16| o != i && old(self).has(o) implies #[trigger] final(self).bridge_at(o) == old(self).bridge_at(o) by {
                        let j = old(self).idx_of(o);
                        assert(pre[j]@.socket_id == o);
                        assert(j != k);
                        assert(s[j]@.socket_id == o);
                        assert(final(self).has(o));
                        let j2 = final(self).idx_of(o);
                        assert(s[j2]@.socket_id == o);
                        assert(j2 != k);
                        assert(pre[j2]@.socket_id == o);
                        assert(j == j2);
                    }
                }
                return Some(out);
            }
            k = k + 1;
        }
        proof {
            if old(self).has(i) {
                let j = old(self).idx_of(i);
                assert(self.entries@[j]@.socket_id == i);
            }
        }
        None
    }

    /// Detach the bridge under `id`, if any; later writes to that id find
    /// no attached server.
    pub fn remove(&mut self, id: u16) -> (r: bool)
        requires
            old(self).wf(),
        ensures
            final(self).wf(),
            r == old(self).has(id),
            !final(self).has(id),
            forall|o: u16|
                o != id ==> #[trigger] final(self).has(o) == old(self).has(o),
            forall|o: u16|
                o != id && old(self).has(o) ==> #[trigger] final(self).bridge_at(o) == old(self).bridge_at(o),
    {
        let n = self.entries.len();
        let mut k: usize = 0;
        while k < n
            invariant
                old(self).wf(),
                n == self.entries@.len(),
                k <= n,
                *self == *old(self),
                forall|j: int| 0 <= j < k ==> self.entries@[j]@.socket_id != id,
            decreases n - k,
        {
            if self.entries[k].socket_id == id {
                let ghost pre = self.entries@;
                self.entries.remove(k);
                proof {
                    let s = self.entries@;
                    pre.remove_ensures(k as int);
                    assert(pre[k as int]@.socket_id == id);
                    assert forall|j: int| 0 <= j < s.len() implies s[j]@.socket_id != id by {
                        if j < k {
                            assert(s[j] == pre[j]);
                        } else {
                            assert(s[j] == pre[j + 1]);
                            assert(pre[j + 1]@.socket_id != pre[k as int]@.socket_id);
                        }
                    }
                    assert(!final(self).has(id));
                    assert(final(self).wf()) by {
                        assert forall|a: int, b: int| 0 <= a < b < s.len() implies s[a]@.socket_id
                            != s[b]@.socket_id by {
                            let a0: int = if a < k { a } else { a + 1 };
                            let b0: int = if b < k { b } else { b + 1 };
                            assert(s[a] == pre[a0] && s[b] == pre[b0]);
                            assert(pre[a0]@.socket_id != pre[b0]@.socket_id);
                        }
                    }
                    assert forall|o: u16| o != id implies #[trigger] final(self).has(o) == old(self).has(o) by {
                        if old(self).has(o) {
                            let j = old(self).idx_of(o);
                            assert(pre[j]@.socket_id == o);
                            assert(j != k);
                            if j < k {
                                assert(s[j]@.socket_id == o);
                            } else {
                                assert(s[j - 1]@.socket_id == o);
                            }
                            assert(final(self).has(o));
                        }
                        if final(self).has(o) {
                            let j = final(self).idx_of(o);
                            assert(s[j]@.socket_id == o);
                            if j < k {
                                assert(pre[j]@.socket_id == o);
                            } else {
                                assert(pre[j + 1]@.socket_id == o);
                            }
                            assert(old(self).has(o));
                        }
                    }
                    assert forall|o: u16| o != id && old(self).has(o) implies #[trigger] final(self).bridge_at(o) == old(self).bridge_at(o) by {
                        let j = old(self).idx_of(o);
                        assert(pre[j]@.socket_id == o);
                        assert(j != k);
                        if j < k {
                            assert(s[j]@.socket_id == o);
                        } else {
                            assert(s[j - 1]@.socket_id == o);
                        }
                        assert(final(self).has(o));
                        let j2 = final(self).idx_of(o);
                        assert(s[j2]@.socket_id == o);
                        if j2 < k {
                            assert(pre[j2]@.socket_id == o);
                            assert(j == j2);
                        } else {
                            assert(pre[j2 + 1]@.socket_id == o);
                            assert(j == j2 + 1);
                        }
                        assert(final(self).bridge_at(o) == s[j2]@);
                        assert(old(self).bridge_at(o) == pre[j]@);
                    }
                }
                return true;
            }
            k = k + 1;
        }
        proof {
            if old(self).has(id) {
                let j = old(self).idx_of(id);
                assert(self.entries@[j]@.socket_id == id);
            }
        }
        false
    }

    /// Drop every bridge: connection teardown.
    pub fn dispose_all(&mut self)
        ensures
            final(self).wf(),
            final(self).count() == 0,
            forall|id: u16| !final(self).has(id),
    {
        self.entries = Vec::new();
    }
}

/// Route one `servermsg` body. The bytes of the result are owed to the
/// editor socket of the bridge under `params.i`, in arrival order; with no
/// bridge attached there the call fails with `NoAttachedServer`.
pub fn handle_server_message(multiplexer: &mut ServerMultiplexer, params: ServerMessageParams) -> (r:
    Result<Vec<u8>, RpcError>)
    requires
        old(multiplexer).wf(),
    ensures
        final(multiplexer).wf(),
        r is Ok <==> old(multiplexer).has(params.i),
        forall|o: u16| #[trigger] final(multiplexer).has(o) == old(multiplexer).has(o),
        old(multiplexer).has(params.i) ==> r->Ok_0@ == params.body@ && final(multiplexer).bridge_at(params.i) == (BridgeView {
            inbound: old(multiplexer).bridge_at(params.i).inbound.push(params.body@),
            ..old(multiplexer).bridge_at(params.i)
        }),
        forall|o: u16|
            o != params.i && old(multiplexer).has(o) ==> #[trigger] final(multiplexer).bridge_at(o)
                == old(multiplexer).bridge_at(o),
        !old(multiplexer).has(params.i) ==> *final(multiplexer) == *old(multiplexer) && (
        r->Err_0 is NoAttachedServer),
{
    match multiplexer.write_message(params.i, params.body) {
        Some(bytes) => Ok(bytes),
        None => Err(RpcError::NoAttachedServer),
    }
}

} // verus!
