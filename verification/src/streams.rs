//! Inline byte streams of duplex methods.
//!
//! A duplex method (`spawn`) is handed a small fixed number of freshly
//! created streams; each is registered here under a stream id, and
//! subsequent frames carrying that id route their bytes into it, in
//! arrival order. A frame marked as the end closes and removes the
//! stream; at teardown every stream goes.

use vstd::prelude::*;

verus! {

/// The abstract state of one open stream.
pub struct StreamView {
    pub stream_id: u32,
    /// The byte chunks routed into this stream, in arrival order.
    pub received: Seq<Seq<u8>>,
}

struct StreamEntry {
    stream_id: u32,
    received: Ghost<Seq<Seq<u8>>>,
}

impl StreamEntry {
    spec fn view(&self) -> StreamView {
        StreamView { stream_id: self.stream_id, received: self.received@ }
    }
}

/// The table of open streams of one connection.
pub struct StreamTable {
    entries: Vec<StreamEntry>,
}

impl StreamTable {
    /// Stream ids are unique in the table.
    pub closed spec fn wf(self) -> bool {
        forall|i: int, j: int|
            0 <= i < j < self.entries@.len() ==> #[trigger] self.entries@[i].view().stream_id
                != #[trigger] self.entries@[j].view().stream_id
    }

    /// Whether `id` is open.
    pub closed spec fn has(self, id: u32) -> bool {
        exists|i: int| 0 <= i < self.entries@.len() && self.entries@[i].view().stream_id == id
    }

    closed spec fn idx_of(self, id: u32) -> int {
        choose|i: int| 0 <= i < self.entries@.len() && self.entries@[i].view().stream_id == id
    }

    /// The stream under `id`; meaningful only when `has(id)`.
    pub closed spec fn entry_at(self, id: u32) -> StreamView {
        self.entries@[self.idx_of(id)].view()
    }

    /// How many streams are open.
    pub closed spec fn count(self) -> nat {
        self.entries@.len()
    }

    pub fn new() -> (r: StreamTable)
        ensures
            r.wf(),
            r.count() == 0,
            forall|id: u32| !r.has(id),
    {
        StreamTable { entries: Vec::new() }
    }

    /// Whether `id` is currently open.
    pub fn contains(&self, id: u32) -> (r: bool)
        ensures
            r == self.has(id),
    {
        let n = self.entries.len();
        let mut k: usize = 0;
        while k < n
            invariant
                n == self.entries@.len(),
                k <= n,
                forall|j: int| 0 <= j < k ==> self.entries@[j].view().stream_id != id,
            decreases n - k,
        {
            if self.entries[k].stream_id == id {
                return true;
            }
            k = k + 1;
        }
        proof {
            if self.has(id) {
                let j = self.idx_of(id);
                assert(self.entries@[j].view().stream_id == id);
            }
        }
        false
    }

    /// Open a fresh stream under `id`.
    pub fn open(&mut self, id: u32)
        requires
            old(self).wf(),
            !old(self).has(id),
        ensures
            final(self).wf(),
            final(self).has(id),
            final(self).entry_at(id) == (StreamView { stream_id: id, received: Seq::empty() }),
            forall|o: u32| o != id ==> #[trigger] final(self).has(o) == old(self).has(o),
            forall|o: u32|
                o != id && old(self).has(o) ==> #[trigger] final(self).entry_at(o) == old(self).entry_at(o),
    {
        let ghost pre = self.entries@;
        self.entries.push(StreamEntry { stream_id: id, received: Ghost(Seq::empty()) });
        proof {
            let s = self.entries@;
            assert(s[s.len() - 1].view().stream_id == id);
            assert(final(self).has(id));
            assert(final(self).wf()) by {
                assert forall|a: int, c: int| 0 <= a < c < s.len() implies s[a].view().stream_id
                    != s[c].view().stream_id by {
                    if c < s.len() - 1 {
                        assert(pre[a].view().stream_id != pre[c].view().stream_id);
                    } else {
                        assert(s[a] == pre[a]);
                        assert(pre[a].view().stream_id != id) by {
                            if pre[a].view().stream_id == id {
                                assert(old(self).has(id));
                            }
                        }
                    }
                }
            }
            assert(final(self).idx_of(id) == s.len() - 1) by {
                let j = final(self).idx_of(id);
                assert(0 <= j < s.len() && s[j].view().stream_id == id);
                if j < s.len() - 1 {
                    assert(pre[j].view().stream_id == id);
                    assert(old(self).has(id));
                }
            }
            assert forall|o: u32| o != id implies #[trigger] final(self).has(o) == old(self).has(
                o,
            ) by {
                if old(self).has(o) {
                    let k = old(self).idx_of(o);
                    assert(s[k].view().stream_id == o);
                }
                if final(self).has(o) {
                    let k = final(self).idx_of(o);
                    assert(k < s.len() - 1);
                    assert(pre[k].view().stream_id == o);
                }
            }
            assert forall|o: u32| o != id && old(self).has(o) implies #[trigger] final(self).entry_at(o) == old(self).entry_at(o) by {
                let k = old(self).idx_of(o);
                assert(s[k].view().stream_id == o);
                let k2 = final(self).idx_of(o);
                assert(s[k2].view().stream_id == o);
                assert(k2 < s.len() - 1);
                assert(pre[k2].view().stream_id == o);
                assert(k == k2);
            }
        }
    }

    /// Route one frame's bytes into the stream under `id`, in arrival
    /// order: the returned bytes are owed to that stream's sink next. A
    /// frame marked as the end closes and removes the stream. An unknown
    /// id yields `None`: the frame is dropped.
    pub fn route(&mut self, id: u32, segment: Vec<u8>, end: bool) -> (r: Option<Vec<u8>>)
        requires
            old(self).wf(),
        ensures
            final(self).wf(),
            r is Some <==> old(self).has(id),
            old(self).has(id) ==> r->0@ == segment@,
            end ==> !final(self).has(id),
            old(self).has(id) && !end ==> final(self).has(id) && final(self).entry_at(id) == (
            StreamView {
                received: old(self).entry_at(id).received.push(segment@),
                ..old(self).entry_at(id)
            }),
            forall|o: u32| o != id ==> #[trigger] final(self).has(o) == old(self).has(o),
            forall|o: u32|
                o != id && old(self).has(o) ==> #[trigger] final(self).entry_at(o) == old(self).entry_at(o),
            !old(self).has(id) ==> *final(self) == *old(self),
    {
        let n = self.entries.len();
        let mut k: usize = 0;
        while k < n
            invariant
                old(self).wf(),
                n == self.entries@.len(),
                k <= n,
                *self == *old(self),
                forall|j: int| 0 <= j < k ==> self.entries@[j].view().stream_id != id,
            decreases n - k,
        {
            if self.entries[k].stream_id == id {
                let ghost pre = self.entries@;
                if end {
                    self.entries.remove(k);
                    proof {
                        let s = self.entries@;
                        pre.remove_ensures(k as int);
                        assert(pre[k as int].view().stream_id == id);
                        assert forall|j: int| 0 <= j < s.len() implies s[j].view().stream_id
                            != id by {
                            if j < k {
                                assert(s[j] == pre[j]);
                            } else {
                                assert(s[j] == pre[j + 1]);
                                assert(pre[j + 1].view().stream_id != pre[k as int].view().stream_id);
                            }
                        }
                        assert(!final(self).has(id));
                        assert(final(self).wf()) by {
                            assert forall|a: int, c: int| 0 <= a < c < s.len() implies s[a].view().stream_id
                                != s[c].view().stream_id by {
                                let a0: int = if a < k {
                                    a
                                } else {
                                    a + 1
                                };
                                let c0: int = if c < k {
                                    c
                                } else {
                                    c + 1
                                };
                                assert(s[a] == pre[a0] && s[c] == pre[c0]);
                                assert(pre[a0].view().stream_id != pre[c0].view().stream_id);
                            }
                        }
                        assert forall|o: u32| o != id implies #[trigger] final(self).has(o) == old(self).has(o) by {
                            if old(self).has(o) {
                                let j = old(self).idx_of(o);
                                assert(pre[j].view().stream_id == o);
                                assert(j != k);
                                if j < k {
                                    assert(s[j].view().stream_id == o);
                                } else {
                                    assert(s[j - 1].view().stream_id == o);
                                }
                            }
                            if final(self).has(o) {
                                let j = final(self).idx_of(o);
                                assert(s[j].view().stream_id == o);
                                if j < k {
                                    assert(pre[j].view().stream_id == o);
                                } else {
                                    assert(pre[j + 1].view().stream_id == o);
                                }
                            }
                        }
                        assert forall|o: u32| o != id && old(self).has(o) implies #[trigger] final(self).entry_at(o) == old(self).entry_at(o) by {
                            let j = old(self).idx_of(o);
                            assert(pre[j].view().stream_id == o);
                            assert(j != k);
                            if j < k {
                                assert(s[j].view().stream_id == o);
                            } else {
                                assert(s[j - 1].view().stream_id == o);
                            }
                            assert(final(self).has(o));
                            let j2 = final(self).idx_of(o);
                            assert(s[j2].view().stream_id == o);
                            if j2 < k {
                                assert(pre[j2].view().stream_id == o);
                                assert(j == j2);
                            } else {
                                assert(pre[j2 + 1].view().stream_id == o);
                                assert(j == j2 + 1);
                            }
                        }
                    }
                    return Some(segment);
                } else {
                    let mut e = self.entries.remove(k);
                    proof {
                        e.received@ = e.received@.push(segment@);
                    }
                    self.entries.insert(k, e);
                    proof {
                        let s = self.entries@;
                        assert(s =~= pre.update(k as int, s[k as int]));
                        assert(s[k as int].view().stream_id == id);
                        assert(s[k as int].view() == (StreamView {
                            received: pre[k as int].view().received.push(segment@),
                            ..pre[k as int].view()
                        }));
                        assert(old(self).has(id) && final(self).has(id));
                        assert(old(self).idx_of(id) == k) by {
                            let j = old(self).idx_of(id);
                            assert(pre[j].view().stream_id == id);
                        }
                        assert(final(self).idx_of(id) == k) by {
                            let j = final(self).idx_of(id);
                            assert(s[j].view().stream_id == id);
                            if j != k {
                                assert(pre[j].view().stream_id == id);
                            }
                        }
                        assert forall|o: u32| o != id implies #[trigger] final(self).has(o) == old(self).has(o) by {
                            if old(self).has(o) {
                                let j = old(self).idx_of(o);
                                assert(s[j].view().stream_id == o);
                            }
                            if final(self).has(o) {
                                let j = final(self).idx_of(o);
                                assert(pre[j].view().stream_id == o);
                            }
                        }
                        assert forall|o: u32| o != id && old(self).has(o) implies #[trigger] final(self).entry_at(o) == old(self).entry_at(o) by {
                            let j = old(self).idx_of(o);
                            assert(pre[j].view().stream_id == o);
                            assert(j != k);
                            assert(s[j].view().stream_id == o);
                            assert(final(self).has(o));
                            let j2 = final(self).idx_of(o);
                            assert(s[j2].view().stream_id == o);
                            assert(j2 != k);
                            assert(pre[j2].view().stream_id == o);
                            assert(j == j2);
                        }
                    }
                    return Some(segment);
                }
            }
            k = k + 1;
        }
        proof {
            if old(self).has(id) {
                let j = old(self).idx_of(id);
                assert(self.entries@[j].view().stream_id == id);
            }
        }
        None
    }

    /// Close and remove the stream under `id`, if any.
    pub fn remove(&mut self, id: u32) -> (r: bool)
        requires
            old(self).wf(),
        ensures
            final(self).wf(),
            r == old(self).has(id),
            !final(self).has(id),
            forall|o: u32| o != id ==> #[trigger] final(self).has(o) == old(self).has(o),
            forall|o: u32|
                o != id && old(self).has(o) ==> #[trigger] final(self).entry_at(o) == old(self).entry_at(o),
    {
        let n = self.entries.len();
        let mut k: usize = 0;
        while k < n
            invariant
                old(self).wf(),
                n == self.entries@.len(),
                k <= n,
                *self == *old(self),
                forall|j: int| 0 <= j < k ==> self.entries@[j].view().stream_id != id,
            decreases n - k,
        {
            if self.entries[k].stream_id == id {
                let ghost pre = self.entries@;
                self.entries.remove(k);
                proof {
                    let s = self.entries@;
                    pre.remove_ensures(k as int);
                    assert(pre[k as int].view().stream_id == id);
                    assert forall|j: int| 0 <= j < s.len() implies s[j].view().stream_id != id by {
                        if j < k {
                            assert(s[j] == pre[j]);
                        } else {
                            assert(s[j] == pre[j + 1]);
                            assert(pre[j + 1].view().stream_id != pre[k as int].view().stream_id);
                        }
                    }
                    assert(!final(self).has(id));
                    assert(final(self).wf()) by {
                        assert forall|a: int, c: int| 0 <= a < c < s.len() implies s[a].view().stream_id
                            != s[c].view().stream_id by {
                            let a0: int = if a < k {
                                a
                            } else {
                                a + 1
                            };
                            let c0: int = if c < k {
                                c
                            } else {
                                c + 1
                            };
                            assert(s[a] == pre[a0] && s[c] == pre[c0]);
                            assert(pre[a0].view().stream_id != pre[c0].view().stream_id);
                        }
                    }
                    assert forall|o: u32| o != id implies #[trigger] final(self).has(o) == old(self).has(o) by {
                        if old(self).has(o) {
                            let j = old(self).idx_of(o);
                            assert(pre[j].view().stream_id == o);
                            assert(j != k);
                            if j < k {
                                assert(s[j].view().stream_id == o);
                            } else {
                                assert(s[j - 1].view().stream_id == o);
                            }
                        }
                        if final(self).has(o) {
                            let j = final(self).idx_of(o);
                            assert(s[j].view().stream_id == o);
                            if j < k {
                                assert(pre[j].view().stream_id == o);
                            } else {
                                assert(pre[j + 1].view().stream_id == o);
                            }
                        }
                    }
                    assert forall|o: u32| o != id && old(self).has(o) implies #[trigger] final(self).entry_at(o) == old(self).entry_at(o) by {
                        let j = old(self).idx_of(o);
                        assert(pre[j].view().stream_id == o);
                        assert(j != k);
                        if j < k {
                            assert(s[j].view().stream_id == o);
                        } else {
                            assert(s[j - 1].view().stream_id == o);
                        }
                        assert(final(self).has(o));
                        let j2 = final(self).idx_of(o);
                        assert(s[j2].view().stream_id == o);
                        if j2 < k {
                            assert(pre[j2].view().stream_id == o);
                            assert(j == j2);
                        } else {
                            assert(pre[j2 + 1].view().stream_id == o);
                            assert(j == j2 + 1);
                        }
                    }
                }
                return true;
            }
            k = k + 1;
        }
        proof {
            if old(self).has(id) {
                let j = old(self).idx_of(id);
                assert(self.entries@[j].view().stream_id == id);
            }
        }
        false
    }

    /// Drop every stream: connection teardown.
    pub fn dispose_all(&mut self)
        ensures
            final(self).wf(),
            final(self).count() == 0,
            forall|id: u32| !final(self).has(id),
    {
        self.entries = Vec::new();
    }
}

} // verus!
