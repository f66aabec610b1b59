//! Delegated HTTP: the reverse channel by which the agent performs HTTP
//! through the client. Opening a request allocates a `req_id`, records a
//! pending entry, and emits a `makehttpreq` push. The client answers with
//! `httpheaders` (the initial response) and `httpbody` segments; a segment
//! marked complete removes the entry and ends the body stream. Entries left
//! at connection teardown are dropped and their awaiters fail.

use vstd::prelude::*;
use crate::protocol::{
    ClientRequestMethod, HttpBodyParams, HttpHeadersParams, HttpRequestParams, ToClientRequest,
};

verus! {

/// How an agent-side HTTP request is performed.
pub enum HttpStrategy {
    /// Try the direct client first, falling back to the delegated one on
    /// a transport failure.
    Fallback,
    /// Go through the client only: the download must happen on its side.
    DelegatedOnly,
}

/// Choose the strategy for one request: a caller asking for a local
/// download goes through the client only.
pub fn select_http_strategy(use_local_download: bool) -> (r: HttpStrategy)
    ensures
        r is DelegatedOnly <==> use_local_download,
{
    if use_local_download {
        HttpStrategy::DelegatedOnly
    } else {
        HttpStrategy::Fallback
    }
}

/// What a direct HTTP attempt came back with.
pub enum DirectOutcome {
    /// An HTTP answer, whatever its status: the transport worked.
    Answer(u16, Vec<u8>),
    /// The transport failed before any answer.
    TransportError(String),
}

/// What to do after the direct attempt.
pub enum FallbackAction {
    /// Use this answer.
    Use(u16, Vec<u8>),
    /// Retry through the delegated channel.
    TryDelegated,
}

/// The fallback rule: an HTTP answer of any status is final; only a
/// transport failure retries through the client.
pub fn fallback_decision(direct: DirectOutcome) -> (r: FallbackAction)
    ensures
        (direct matches DirectOutcome::Answer(status, body) ==> (r matches FallbackAction::Use(
            s2,
            b2,
        ) && s2 == status && b2@ == body@)),
        direct is TransportError ==> r is TryDelegated,
{
    match direct {
        DirectOutcome::Answer(status, body) => FallbackAction::Use(status, body),
        DirectOutcome::TransportError(_) => FallbackAction::TryDelegated,
    }
}

/// The abstract state of one pending delegated request.
pub struct PendingView {
    pub req_id: u32,
    /// Whether the initial response (status and headers) has been delivered.
    pub headers_done: bool,
    /// The body bytes the awaiter has observed so far, in delivery order.
    pub body: Seq<u8>,
}

struct PendingEntry {
    req_id: u32,
    headers_done: bool,
    body: Ghost<Seq<u8>>,
}

impl PendingEntry {
    spec fn view(&self) -> PendingView {
        PendingView { req_id: self.req_id, headers_done: self.headers_done, body: self.body@ }
    }
}

/// The initial response half, handed to the awaiter.
pub struct HeadersDelivery {
    pub status_code: u16,
    pub headers: Vec<(String, String)>,
}

/// One body segment, handed to the awaiter; `complete` ends the stream.
pub struct BodyDelivery {
    pub segment: Vec<u8>,
    pub complete: bool,
}

/// The table of requests currently served by the client.
pub struct DelegatedHttp {
    entries: Vec<PendingEntry>,
}

impl DelegatedHttp {
    /// Request ids are unique in the table.
    pub closed spec fn wf(self) -> bool {
        forall|i: int, j: int|
            0 <= i < j < self.entries@.len() ==> #[trigger] self.entries@[i].view().req_id
                != #[trigger] self.entries@[j].view().req_id
    }

    /// Whether `id` is pending.
    pub closed spec fn has(self, id: u32) -> bool {
        exists|i: int| 0 <= i < self.entries@.len() && self.entries@[i].view().req_id == id
    }

    closed spec fn idx_of(self, id: u32) -> int {
        choose|i: int| 0 <= i < self.entries@.len() && self.entries@[i].view().req_id == id
    }

    /// The pending entry under `id`; meaningful only when `has(id)`.
    pub closed spec fn entry_at(self, id: u32) -> PendingView {
        self.entries@[self.idx_of(id)].view()
    }

    /// How many requests are pending.
    pub closed spec fn count(self) -> nat {
        self.entries@.len()
    }

    pub fn new() -> (r: DelegatedHttp)
        ensures
            r.wf(),
            r.count() == 0,
            forall|id: u32| !r.has(id),
    {
        DelegatedHttp { entries: Vec::new() }
    }

    /// Record a fresh pending request and build the `makehttpreq` push that
    /// asks the client to perform it.
    pub fn begin_request(&mut self, req_id: u32, url: String, method: String) -> (r:
        ToClientRequest)
        requires
            old(self).wf(),
            !old(self).has(req_id),
        ensures
            final(self).wf(),
            final(self).has(req_id),
            final(self).entry_at(req_id) == (PendingView {
                req_id,
                headers_done: false,
                body: Seq::empty(),
            }),
            forall|o: u32| o != req_id ==> #[trigger] final(self).has(o) == old(self).has(o),
            forall|o: u32|
                o != req_id && old(self).has(o) ==> #[trigger] final(self).entry_at(o) == old(self).entry_at(o),
            r.id is None,
            r.params matches ClientRequestMethod::makehttpreq(q) && q.req_id == req_id && q.url@
                == url@ && q.method@ == method@,
    {
        let ghost pre = self.entries@;
        self.entries.push(PendingEntry { req_id, headers_done: false, body: Ghost(Seq::empty()) });
        proof {
            let s = self.entries@;
            assert(s[s.len() - 1].view().req_id == req_id);
            assert(final(self).has(req_id));
            assert(final(self).wf()) by {
                assert forall|a: int, c: int| 0 <= a < c < s.len() implies s[a].view().req_id
                    != s[c].view().req_id by {
                    if c < s.len() - 1 {
                        assert(pre[a].view().req_id != pre[c].view().req_id);
                    } else {
                        assert(s[a] == pre[a]);
                        assert(pre[a].view().req_id != req_id) by {
                            if pre[a].view().req_id == req_id {
                                assert(old(self).has(req_id));
                            }
                        }
                    }
                }
            }
            assert(final(self).idx_of(req_id) == s.len() - 1) by {
                let j = final(self).idx_of(req_id);
                assert(0 <= j < s.len() && s[j].view().req_id == req_id);
                if j < s.len() - 1 {
                    assert(pre[j].view().req_id == req_id);
                    assert(old(self).has(req_id));
                }
            }
            assert forall|o: u32| o != req_id implies #[trigger] final(self).has(o) == old(self).has(o) by {
                if old(self).has(o) {
                    let k = old(self).idx_of(o);
                    assert(s[k].view().req_id == o);
                }
                if final(self).has(o) {
                    let k = final(self).idx_of(o);
                    assert(k < s.len() - 1);
                    assert(pre[k].view().req_id == o);
                }
            }
            assert forall|o: u32| o != req_id && old(self).has(o) implies #[trigger] final(self).entry_at(o) == old(self).entry_at(o) by {
                let k = old(self).idx_of(o);
                assert(s[k].view().req_id == o);
                let k2 = final(self).idx_of(o);
                assert(s[k2].view().req_id == o);
                assert(k2 < s.len() - 1);
                assert(pre[k2].view().req_id == o);
                assert(k == k2);
            }
        }
        ToClientRequest {
            id: None,
            params: ClientRequestMethod::makehttpreq(HttpRequestParams { url, method, req_id }),
        }
    }

    /// Deliver the initial response of a pending request to its awaiter.
    /// An unknown id is ignored, as a late or spurious reply.
    pub fn handle_httpheaders(&mut self, p: HttpHeadersParams) -> (r: Option<HeadersDelivery>)
        requires
            old(self).wf(),
        ensures
            final(self).wf(),
            r is Some <==> old(self).has(p.req_id),
            forall|o: u32| #[trigger] final(self).has(o) == old(self).has(o),
            old(self).has(p.req_id) ==> final(self).entry_at(p.req_id) == (PendingView {
                headers_done: true,
                ..old(self).entry_at(p.req_id)
            }) && (r->0.status_code == p.status_code && r->0.headers@ == p.headers@),
            forall|o: u32|
                o != p.req_id && old(self).has(o) ==> #[trigger] final(self).entry_at(o) == old(self).entry_at(o),
            !old(self).has(p.req_id) ==> *final(self) == *old(self),
    {
        let id = p.req_id;
        let n = self.entries.len();
        let mut k: usize = 0;
        while k < n
            invariant
                old(self).wf(),
                n == self.entries@.len(),
                k <= n,
                *self == *old(self),
                id == p.req_id,
                forall|j: int| 0 <= j < k ==> self.entries@[j].view().req_id != id,
            decreases n - k,
        {
            if self.entries[k].req_id == id {
                let ghost pre = self.entries@;
                let mut e = self.entries.remove(k);
                e.headers_done = true;
                self.entries.insert(k, e);
                proof {
                    let s = self.entries@;
                    assert(s =~= pre.update(k as int, s[k as int]));
                    assert(s[k as int].view().req_id == id);
                    assert(s[k as int].view() == (PendingView {
                        headers_done: true,
                        ..pre[k as int].view()
                    }));
                    assert(old(self).has(id) && final(self).has(id));
                    assert(old(self).idx_of(id) == k) by {
                        let j = old(self).idx_of(id);
                        assert(pre[j].view().req_id == id);
                    }
                    assert(final(self).idx_of(id) == k) by {
                        let j = final(self).idx_of(id);
                        assert(s[j].view().req_id == id);
                        if j != k {
                            assert(pre[j].view().req_id == id);
                        }
                    }
                    assert forall|o: u32| #[trigger] final(self).has(o) == old(self).has(o) by {
                        if old(self).has(o) {
                            let j = old(self).idx_of(o);
                            assert(s[j].view().req_id == o);
                        }
                        if final(self).has(o) {
                            let j = final(self).idx_of(o);
                            assert(pre[j].view().req_id == o);
                        }
                    }
                    assert forall|o: u32| o != id && old(self).has(o) implies #[trigger] final(self).entry_at(o) == old(self).entry_at(o) by {
                        let j = old(self).idx_of(o);
                        assert(pre[j].view().req_id == o);
                        assert(j != k);
                        assert(s[j].view().req_id == o);
                        assert(final(self).has(o));
                        let j2 = final(self).idx_of(o);
                        assert(s[j2].view().req_id == o);
                        assert(j2 != k);
                        assert(pre[j2].view().req_id == o);
                        assert(j == j2);
                    }
                }
                return Some(HeadersDelivery { status_code: p.status_code, headers: p.headers });
            }
            k = k + 1;
        }
        proof {
            if old(self).has(id) {
                let j = old(self).idx_of(id);
                assert(self.entries@[j].view().req_id == id);
            }
        }
        None
    }

    /// Deliver one body segment of a pending request to its awaiter; a
    /// segment marked complete removes the entry, so the id is pending no
    /// longer and the awaiter has observed the end of the body. An unknown
    /// id is ignored.
    pub fn handle_httpbody(&mut self, p: HttpBodyParams) -> (r: Option<BodyDelivery>)
        requires
            old(self).wf(),
        ensures
            final(self).wf(),
            r is Some <==> old(self).has(p.req_id),
            old(self).has(p.req_id) ==> (r->0.segment@ == p.segment@ && r->0.complete
                == p.complete),
            p.complete ==> !final(self).has(p.req_id),
            old(self).has(p.req_id) && !p.complete ==> final(self).has(p.req_id) && final(self).entry_at(p.req_id) == (PendingView {
                body: old(self).entry_at(p.req_id).body + p.segment@,
                ..old(self).entry_at(p.req_id)
            }),
            forall|o: u32|
                o != p.req_id ==> #[trigger] final(self).has(o) == old(self).has(o),
            forall|o: u32|
                o != p.req_id && old(self).has(o) ==> #[trigger] final(self).entry_at(o) == old(self).entry_at(o),
            !old(self).has(p.req_id) ==> *final(self) == *old(self),
    {
        let id = p.req_id;
        let n = self.entries.len();
        let mut k: usize = 0;
        while k < n
            invariant
                old(self).wf(),
                n == self.entries@.len(),
                k <= n,
                *self == *old(self),
                id == p.req_id,
                forall|j: int| 0 <= j < k ==> self.entries@[j].view().req_id != id,
            decreases n - k,
        {
            if self.entries[k].req_id == id {
                let ghost pre = self.entries@;
                if p.complete {
                    let mut e = self.entries.remove(k);
                    proof {
                        e.body@ = e.body@ + p.segment@;
                        let s = self.entries@;
                        pre.remove_ensures(k as int);
                        assert(pre[k as int].view().req_id == id);
                        assert forall|j: int| 0 <= j < s.len() implies s[j].view().req_id
                            != id by {
                            if j < k {
                                assert(s[j] == pre[j]);
                            } else {
                                assert(s[j] == pre[j + 1]);
                                assert(pre[j + 1].view().req_id != pre[k as int].view().req_id);
                            }
                        }
                        assert(!final(self).has(id));
                        assert(final(self).wf()) by {
                            assert forall|a: int, c: int| 0 <= a < c < s.len() implies s[a].view().req_id
                                != s[c].view().req_id by {
                                let a0: int = if a < k { a } else { a + 1 };
                                let c0: int = if c < k { c } else { c + 1 };
                                assert(s[a] == pre[a0] && s[c] == pre[c0]);
                                assert(pre[a0].view().req_id != pre[c0].view().req_id);
                            }
                        }
                        assert forall|o: u32| o != id implies #[trigger] final(self).has(o) == old(self).has(o) by {
                            if old(self).has(o) {
                                let j = old(self).idx_of(o);
                                assert(pre[j].view().req_id == o);
                                assert(j != k);
                                if j < k {
                                    assert(s[j].view().req_id == o);
                                } else {
                                    assert(s[j - 1].view().req_id == o);
                                }
                            }
                            if final(self).has(o) {
                                let j = final(self).idx_of(o);
                                assert(s[j].view().req_id == o);
                                if j < k {
                                    assert(pre[j].view().req_id == o);
                                } else {
                                    assert(pre[j + 1].view().req_id == o);
                                }
                            }
                        }
                        assert forall|o: u32| o != id && old(self).has(o) implies #[trigger] final(self).entry_at(o) == old(self).entry_at(o) by {
                            let j = old(self).idx_of(o);
                            assert(pre[j].view().req_id == o);
                            assert(j != k);
                            if j < k {
                                assert(s[j].view().req_id == o);
                            } else {
                                assert(s[j - 1].view().req_id == o);
                            }
                            assert(final(self).has(o));
                            let j2 = final(self).idx_of(o);
                            assert(s[j2].view().req_id == o);
                            if j2 < k {
                                assert(pre[j2].view().req_id == o);
                                assert(j == j2);
                            } else {
                                assert(pre[j2 + 1].view().req_id == o);
                                assert(j == j2 + 1);
                            }
                        }
                    }
                    return Some(BodyDelivery { segment: p.segment, complete: true });
                } else {
                    let mut e = self.entries.remove(k);
                    proof {
                        e.body@ = e.body@ + p.segment@;
                    }
                    self.entries.insert(k, e);
                    proof {
                        let s = self.entries@;
                        assert(s =~= pre.update(k as int, s[k as int]));
                        assert(s[k as int].view().req_id == id);
                        assert(s[k as int].view() == (PendingView {
                            body: pre[k as int].view().body + p.segment@,
                            ..pre[k as int].view()
                        }));
                        assert(old(self).has(id) && final(self).has(id));
                        assert(old(self).idx_of(id) == k) by {
                            let j = old(self).idx_of(id);
                            assert(pre[j].view().req_id == id);
                        }
                        assert(final(self).idx_of(id) == k) by {
                            let j = final(self).idx_of(id);
                            assert(s[j].view().req_id == id);
                            if j != k {
                                assert(pre[j].view().req_id == id);
                            }
                        }
                        assert forall|o: u32| o != id implies #[trigger] final(self).has(o) == old(self).has(o) by {
                            if old(self).has(o) {
                                let j = old(self).idx_of(o);
                                assert(s[j].view().req_id == o);
                            }
                            if final(self).has(o) {
                                let j = final(self).idx_of(o);
                                assert(pre[j].view().req_id == o);
                            }
                        }
                        assert forall|o: u32| o != id && old(self).has(o) implies #[trigger] final(self).entry_at(o) == old(self).entry_at(o) by {
                            let j = old(self).idx_of(o);
                            assert(pre[j].view().req_id == o);
                            assert(j != k);
                            assert(s[j].view().req_id == o);
                            assert(final(self).has(o));
                            let j2 = final(self).idx_of(o);
                            assert(s[j2].view().req_id == o);
                            assert(j2 != k);
                            assert(pre[j2].view().req_id == o);
                            assert(j == j2);
                        }
                    }
                    return Some(BodyDelivery { segment: p.segment, complete: false });
                }
            }
            k = k + 1;
        }
        proof {
            if old(self).has(id) {
                let j = old(self).idx_of(id);
                assert(self.entries@[j].view().req_id == id);
            }
        }
        None
    }

    /// Whether `id` is currently pending.
    pub fn contains(&self, id: u32) -> (r: bool)
        ensures
            r == self.has(id),
    {
        let n = self.entries.len();
        let mut k: usize = 0;
        while k < n
            invariant
                n == self.entries@.len(),
                k <= n,
                forall|j: int| 0 <= j < k ==> self.entries@[j].view().req_id != id,
            decreases n - k,
        {
            if self.entries[k].req_id == id {
                return true;
            }
            k = k + 1;
        }
        proof {
            if self.has(id) {
                let j = self.idx_of(id);
                assert(self.entries@[j].view().req_id == id);
            }
        }
        false
    }

    /// Drop the entry under `id`, if any: its awaiter is abandoned.
    pub fn remove(&mut self, id: u32) -> (r: bool)
        requires
            old(self).wf(),
        ensures
            final(self).wf(),
            r == old(self).has(id),
            !final(self).has(id),
            forall|o: u32| o != id ==> #[trigger] final(self).has(o) == old(self).has(o),
            forall|o: u32|
                o != id && old(self).has(o) ==> #[trigger] final(self).entry_at(o) == old(self).entry_at(o),
    {
        let n = self.entries.len();
        let mut k: usize = 0;
        while k < n
            invariant
                old(self).wf(),
                n == self.entries@.len(),
                k <= n,
                *self == *old(self),
                forall|j: int| 0 <= j < k ==> self.entries@[j].view().req_id != id,
            decreases n - k,
        {
            if self.entries[k].req_id == id {
                let ghost pre = self.entries@;
                self.entries.remove(k);
                proof {
                    let s = self.entries@;
                    pre.remove_ensures(k as int);
                    assert(pre[k as int].view().req_id == id);
                    assert forall|j: int| 0 <= j < s.len() implies s[j].view().req_id != id by {
                        if j < k {
                            assert(s[j] == pre[j]);
                        } else {
                            assert(s[j] == pre[j + 1]);
                            assert(pre[j + 1].view().req_id != pre[k as int].view().req_id);
                        }
                    }
                    assert(!final(self).has(id));
                    assert(final(self).wf()) by {
                        assert forall|a: int, c: int| 0 <= a < c < s.len() implies s[a].view().req_id
                            != s[c].view().req_id by {
                            let a0: int = if a < k {
                                a
                            } else {
                                a + 1
                            };
                            let c0: int = if c < k {
                                c
                            } else {
                                c + 1
                            };
                            assert(s[a] == pre[a0] && s[c] == pre[c0]);
                            assert(pre[a0].view().req_id != pre[c0].view().req_id);
                        }
                    }
                    assert forall|o: u32| o != id implies #[trigger] final(self).has(o) == old(self).has(o) by {
                        if old(self).has(o) {
                            let j = old(self).idx_of(o);
                            assert(pre[j].view().req_id == o);
                            assert(j != k);
                            if j < k {
                                assert(s[j].view().req_id == o);
                            } else {
                                assert(s[j - 1].view().req_id == o);
                            }
                        }
                        if final(self).has(o) {
                            let j = final(self).idx_of(o);
                            assert(s[j].view().req_id == o);
                            if j < k {
                                assert(pre[j].view().req_id == o);
                            } else {
                                assert(pre[j + 1].view().req_id == o);
                            }
                        }
                    }
                    assert forall|o: u32| o != id && old(self).has(o) implies #[trigger] final(self).entry_at(o) == old(self).entry_at(o) by {
                        let j = old(self).idx_of(o);
                        assert(pre[j].view().req_id == o);
                        assert(j != k);
                        if j < k {
                            assert(s[j].view().req_id == o);
                        } else {
                            assert(s[j - 1].view().req_id == o);
                        }
                        assert(final(self).has(o));
                        let j2 = final(self).idx_of(o);
                        assert(s[j2].view().req_id == o);
                        if j2 < k {
                            assert(pre[j2].view().req_id == o);
                            assert(j == j2);
                        } else {
                            assert(pre[j2 + 1].view().req_id == o);
                            assert(j == j2 + 1);
                        }
                    }
                }
                return true;
            }
            k = k + 1;
        }
        proof {
            if old(self).has(id) {
                let j = old(self).idx_of(id);
                assert(self.entries@[j].view().req_id == id);
            }
        }
        false
    }

    /// Drop every pending entry at connection teardown, handing back the
    /// dropped ids so each awaiter can be failed with an I/O error.
    pub fn drain(&mut self) -> (r: Vec<u32>)
        requires
            old(self).wf(),
        ensures
            final(self).wf(),
            final(self).count() == 0,
            forall|id: u32| !final(self).has(id),
            forall|id: u32| old(self).has(id) ==> r@.contains(id),
            forall|j: int| 0 <= j < r@.len() ==> old(self).has(#[trigger] r@[j]),
    {
        let mut ids: Vec<u32> = Vec::new();
        let n = self.entries.len();
        let mut k: usize = 0;
        while k < n
            invariant
                n == self.entries@.len(),
                k <= n,
                *self == *old(self),
                ids@.len() == k,
                forall|j: int| 0 <= j < k ==> ids@[j] == self.entries@[j].view().req_id,
            decreases n - k,
        {
            ids.push(self.entries[k].req_id);
            k = k + 1;
        }
        proof {
            assert forall|id: u32| old(self).has(id) implies ids@.contains(id) by {
                let j = old(self).idx_of(id);
                assert(self.entries@[j].view().req_id == id);
                assert(ids@[j] == id);
            }
            assert forall|j: int| 0 <= j < ids@.len() implies old(self).has(#[trigger] ids@[j]) by {
                assert(self.entries@[j].view().req_id == ids@[j]);
            }
        }
        self.entries = Vec::new();
        ids
    }
}

} // verus!
