//! Per-peer FIFO buffers for frames awaiting a usable connection, and the
//! drain that moves them into a peer's frame channel in order.

use vstd::prelude::*;

use crate::assoc::{
    lemma_map_of_contains, lemma_map_of_index, lemma_map_of_remove, map_of, unique_keys,
};
use crate::net::{send_frame, Frame, FrameView};
use crate::path::NetAddr;

verus! {

/// The mathematical form of a frame list.
pub open spec fn frame_views(s: Seq<Frame>) -> Seq<FrameView> {
    s.map_values(|f: Frame| f@)
}

/// Indexing the mathematical frame list reads the frame's own view.
pub broadcast proof fn lemma_frame_views_index(s: Seq<Frame>, i: int)
    requires
        0 <= i < s.len(),
    ensures
        #[trigger] frame_views(s)[i] == s[i]@,
{
}

/// The mathematical frame list has one element per frame.
pub broadcast proof fn lemma_frame_views_len(s: Seq<Frame>)
    ensures
        #[trigger] frame_views(s).len() == s.len(),
{
}

/// The mathematical form of one peer's buffer.
pub open spec fn qentry_view(e: (NetAddr, Vec<Frame>)) -> (NetAddr, Seq<FrameView>) {
    (e.0, frame_views(e.1@))
}

/// The mathematical form of the buffer list.
pub open spec fn qentry_views(s: Seq<(NetAddr, Vec<Frame>)>) -> Seq<(NetAddr, Seq<FrameView>)> {
    s.map_values(|e: (NetAddr, Vec<Frame>)| qentry_view(e))
}

/// Indexing the mathematical buffer list reads the buffer's own view.
pub broadcast proof fn lemma_qentry_views_index(s: Seq<(NetAddr, Vec<Frame>)>, i: int)
    requires
        0 <= i < s.len(),
    ensures
        #[trigger] qentry_views(s)[i] == qentry_view(s[i]),
{
}

/// The mathematical buffer list has one element per buffer.
pub broadcast proof fn lemma_qentry_views_len(s: Seq<(NetAddr, Vec<Frame>)>)
    ensures
        #[trigger] qentry_views(s).len() == s.len(),
{
}

/// Per-peer FIFOs of frames pending a usable connection. Unbounded in this
/// core; bounding is a future extension.
pub struct QueueManager {
    entries: Vec<(NetAddr, Vec<Frame>)>,
}

impl View for QueueManager {
    type V = Map<NetAddr, Seq<FrameView>>;

    closed spec fn view(&self) -> Map<NetAddr, Seq<FrameView>> {
        map_of(qentry_views(self.entries@))
    }
}

impl QueueManager {
    /// One peer occurs at most once in the buffer list.
    pub closed spec fn wf(&self) -> bool {
        unique_keys(qentry_views(self.entries@))
    }

    /// The pending frames for a peer, oldest first; peers never seen have an
    /// empty buffer.
    pub open spec fn queue_of(&self, addr: NetAddr) -> Seq<FrameView> {
        if self@.contains_key(addr) {
            self@[addr]
        } else {
            Seq::empty()
        }
    }

    pub fn new() -> (r: QueueManager)
        ensures
            r.wf(),
            forall|a: NetAddr| (#[trigger] r.queue_of(a)) == Seq::<FrameView>::empty(),
    {
        let r = QueueManager { entries: Vec::new() };
        proof {
            assert(qentry_views(r.entries@) =~= Seq::<(NetAddr, Seq<FrameView>)>::empty());
            assert forall|a: NetAddr| (#[trigger] r.queue_of(a)) == Seq::<FrameView>::empty() by {
                lemma_map_of_contains(qentry_views(r.entries@), a);
            }
        }
        r
    }

    /// The position of a peer's buffer, if it has one.
    fn find(&self, addr: &NetAddr) -> (r: Option<usize>)
        requires
            self.wf(),
        ensures
            match r {
                Some(i) => {
                    &&& i < self.entry_len_spec()
                    &&& self.entry_at(i as int).0 == *addr
                    &&& self@.contains_key(*addr)
                    &&& self@[*addr] == self.entry_at(i as int).1
                },
                None => !self@.contains_key(*addr),
            },
    {
        let ghost s = qentry_views(self.entries@);
        let n = self.entries.len();
        for i in 0..n
            invariant
                n == self.entries@.len(),
                s == qentry_views(self.entries@),
                self.wf(),
                forall|j: int| 0 <= j < i ==> (#[trigger] s[j]).0 != *addr,
        {
            proof {
                broadcast use lemma_qentry_views_index, lemma_qentry_views_len;

            }
            if self.entries[i].0 == *addr {
                proof {
                    broadcast use lemma_qentry_views_index, lemma_qentry_views_len;

                    lemma_map_of_index(s, i as int);
                }
                return Some(i);
            }
        }
        proof {
            broadcast use lemma_qentry_views_len;

            lemma_map_of_contains(s, *addr);
        }
        None
    }

    /// The peer and frame views of the buffer at a position.
    pub closed spec fn entry_at(&self, i: int) -> (NetAddr, Seq<FrameView>) {
        qentry_views(self.entries@)[i]
    }

    /// How many peers have a buffer.
    pub closed spec fn entry_len_spec(&self) -> nat {
        self.entries@.len()
    }

    /// Whether frames are pending for a peer.
    pub fn has_frame(&self, addr: &NetAddr) -> (r: bool)
        requires
            self.wf(),
        ensures
            r == (self.queue_of(*addr).len() > 0),
    {
        match self.find(addr) {
            Some(i) => self.entries[i].1.len() > 0,
            None => false,
        }
    }

    /// Appends a frame to a peer's buffer.
    pub fn enqueue_frame(&mut self, frame: Frame, addr: NetAddr)
        requires
            old(self).wf(),
        ensures
            final(self).wf(),
            final(self).queue_of(addr) == old(self).queue_of(addr).push(frame@),
            forall|b: NetAddr|
                b != addr ==> (#[trigger] final(self).queue_of(b)) == old(self).queue_of(b),
            final(self)@ == old(self)@.insert(addr, old(self).queue_of(addr).push(frame@)),
    {
        let ghost s0 = qentry_views(self.entries@);
        let ghost fv = frame@;
        match self.find(&addr) {
            Some(i) => {
                let (a, mut q) = self.entries.remove(i);
                let ghost qv = frame_views(q@);
                q.push(frame);
                self.entries.push((a, q));
                proof {
                    broadcast use lemma_qentry_views_index, lemma_qentry_views_len,
                        lemma_frame_views_index, lemma_frame_views_len;

                    lemma_map_of_remove(s0, i as int);
                    let s1 = qentry_views(self.entries@);
                    assert(qentry_views(old(self).entries@.remove(i as int)) =~= s0.remove(
                        i as int,
                    ));
                    assert(s1.drop_last() =~= qentry_views(old(self).entries@.remove(i as int)));
                    assert(frame_views(q@) =~= qv.push(fv));
                    assert(s1.last() == (addr, qv.push(fv)));
                    assert(self@ =~= old(self)@.insert(addr, qv.push(fv)));
                    assert(unique_keys(s1)) by {
                        let sr = qentry_views(old(self).entries@.remove(i as int));
                        assert forall|x: int, y: int|
                            0 <= x < y < s1.len() implies (#[trigger] s1[x]).0 != (
                        #[trigger] s1[y]).0 by {
                            if y < s1.len() - 1 {
                                assert(s1[x] == sr[x] && s1[y] == sr[y]);
                            } else {
                                assert(s1[y].0 == addr);
                                assert(s1[x] == sr[x]);
                                lemma_map_of_index(sr, x);
                                assert(map_of(sr).contains_key(sr[x].0));
                            }
                        }
                    }
                }
            }
            None => {
                let q: Vec<Frame> = vec![frame];
                self.entries.push((addr, q));
                proof {
                    broadcast use lemma_qentry_views_index, lemma_qentry_views_len,
                        lemma_frame_views_index, lemma_frame_views_len;

                    let s1 = qentry_views(self.entries@);
                    assert(s1.drop_last() =~= s0);
                    assert(frame_views(q@) =~= Seq::<FrameView>::empty().push(fv));
                    assert(s1.last() == (addr, Seq::<FrameView>::empty().push(fv)));
                    assert(self@ =~= old(self)@.insert(addr, old(self).queue_of(addr).push(fv)));
                    assert(unique_keys(s1)) by {
                        assert forall|x: int, y: int|
                            0 <= x < y < s1.len() implies (#[trigger] s1[x]).0 != (
                        #[trigger] s1[y]).0 by {
                            if y < s1.len() - 1 {
                                assert(s1[x] == s0[x] && s1[y] == s0[y]);
                            } else {
                                assert(s1[y].0 == addr);
                                assert(s1[x] == s0[x]);
                                lemma_map_of_index(s0, x);
                                assert(map_of(s0).contains_key(s0[x].0));
                            }
                        }
                    }
                }
            }
        }
    }

    /// Removes and returns the oldest pending frame for a peer, if any.
    pub fn pop_frame(&mut self, addr: NetAddr) -> (r: Option<Frame>)
        requires
            old(self).wf(),
        ensures
            final(self).wf(),
            old(self).queue_of(addr).len() == 0 ==> r is None && final(self)@ == old(self)@,
            old(self).queue_of(addr).len() > 0 ==> {
                &&& r matches Some(f) && f@ == old(self).queue_of(addr)[0]
                &&& final(self).queue_of(addr) == old(self).queue_of(addr).skip(1)
            },
            forall|b: NetAddr|
                b != addr ==> (#[trigger] final(self).queue_of(b)) == old(self).queue_of(b),
    {
        let ghost s0 = qentry_views(self.entries@);
        match self.find(&addr) {
            Some(i) => {
                if self.entries[i].1.len() == 0 {
                    proof {
                        broadcast use lemma_qentry_views_index, lemma_qentry_views_len,
                            lemma_frame_views_len;

                    }
                    return None;
                }
                let (a, mut q) = self.entries.remove(i);
                let ghost qv = frame_views(q@);
                let f = q.remove(0);
                self.entries.push((a, q));
                proof {
                    broadcast use lemma_qentry_views_index, lemma_qentry_views_len,
                        lemma_frame_views_index, lemma_frame_views_len;

                    lemma_map_of_remove(s0, i as int);
                    let s1 = qentry_views(self.entries@);
                    assert(qentry_views(old(self).entries@.remove(i as int)) =~= s0.remove(
                        i as int,
                    ));
                    assert(s1.drop_last() =~= qentry_views(old(self).entries@.remove(i as int)));
                    assert(frame_views(q@) =~= qv.skip(1));
                    assert(s1.last() == (addr, qv.skip(1)));
                    assert(self@ =~= old(self)@.insert(addr, qv.skip(1)));
                    assert(unique_keys(s1)) by {
                        let sr = qentry_views(old(self).entries@.remove(i as int));
                        assert forall|x: int, y: int|
                            0 <= x < y < s1.len() implies (#[trigger] s1[x]).0 != (
                        #[trigger] s1[y]).0 by {
                            if y < s1.len() - 1 {
                                assert(s1[x] == sr[x] && s1[y] == sr[y]);
                            } else {
                                assert(s1[y].0 == addr);
                                assert(s1[x] == sr[x]);
                                lemma_map_of_index(sr, x);
                                assert(map_of(sr).contains_key(sr[x].0));
                            }
                        }
                    }
                }
                Some(f)
            }
            None => None,
        }
    }

    /// Puts a frame back at the head of a peer's buffer; the next drain sends
    /// it first, preserving the enqueue order.
    pub fn requeue_front(&mut self, frame: Frame, addr: NetAddr)
        requires
            old(self).wf(),
        ensures
            final(self).wf(),
            final(self).queue_of(addr) == seq![frame@] + old(self).queue_of(addr),
            forall|b: NetAddr|
                b != addr ==> (#[trigger] final(self).queue_of(b)) == old(self).queue_of(b),
    {
        let ghost s0 = qentry_views(self.entries@);
        let ghost fv = frame@;
        match self.find(&addr) {
            Some(i) => {
                let (a, mut q) = self.entries.remove(i);
                let ghost qv = frame_views(q@);
                q.insert(0, frame);
                self.entries.push((a, q));
                proof {
                    broadcast use lemma_qentry_views_index, lemma_qentry_views_len,
                        lemma_frame_views_index, lemma_frame_views_len;

                    lemma_map_of_remove(s0, i as int);
                    let s1 = qentry_views(self.entries@);
                    assert(qentry_views(old(self).entries@.remove(i as int)) =~= s0.remove(
                        i as int,
                    ));
                    assert(s1.drop_last() =~= qentry_views(old(self).entries@.remove(i as int)));
                    assert(frame_views(q@) =~= seq![fv] + qv);
                    assert(s1.last() == (addr, seq![fv] + qv));
                    assert(self@ =~= old(self)@.insert(addr, seq![fv] + qv));
                    assert(unique_keys(s1)) by {
                        let sr = qentry_views(old(self).entries@.remove(i as int));
                        assert forall|x: int, y: int|
                            0 <= x < y < s1.len() implies (#[trigger] s1[x]).0 != (
                        #[trigger] s1[y]).0 by {
                            if y < s1.len() - 1 {
                                assert(s1[x] == sr[x] && s1[y] == sr[y]);
                            } else {
                                assert(s1[y].0 == addr);
                                assert(s1[x] == sr[x]);
                                lemma_map_of_index(sr, x);
                                assert(map_of(sr).contains_key(sr[x].0));
                            }
                        }
                    }
                }
            }
            None => {
                let q: Vec<Frame> = vec![frame];
                self.entries.push((addr, q));
                proof {
                    broadcast use lemma_qentry_views_index, lemma_qentry_views_len,
                        lemma_frame_views_index, lemma_frame_views_len;

                    let s1 = qentry_views(self.entries@);
                    assert(s1.drop_last() =~= s0);
                    assert(frame_views(q@) =~= seq![fv] + Seq::<FrameView>::empty());
                    assert(s1.last() == (addr, seq![fv] + Seq::<FrameView>::empty()));
                    assert(self@ =~= old(self)@.insert(addr, seq![fv] + old(self).queue_of(addr)));
                    assert(unique_keys(s1)) by {
                        assert forall|x: int, y: int|
                            0 <= x < y < s1.len() implies (#[trigger] s1[x]).0 != (
                        #[trigger] s1[y]).0 by {
                            if y < s1.len() - 1 {
                                assert(s1[x] == s0[x] && s1[y] == s0[y]);
                            } else {
                                assert(s1[y].0 == addr);
                                assert(s1[x] == s0[x]);
                                lemma_map_of_index(s0, x);
                                assert(map_of(s0).contains_key(s0[x].0));
                            }
                        }
                    }
                }
            }
        }
    }

    /// Pops and sends a peer's pending frames in order while the sender
    /// accepts them. On the first failure the rejected frame goes back to the
    /// head of the buffer, the drain stops, and the connection must be
    /// considered closed. Returns whether it so failed, and the frames the
    /// sender accepted, in order.
    pub fn try_drain(&mut self, addr: NetAddr, tx: &futures::sync::mpsc::UnboundedSender<Frame>) -> (r: (
        bool,
        Ghost<Seq<FrameView>>,
    ))
        requires
            old(self).wf(),
        ensures
            final(self).wf(),
            r.1@ + final(self).queue_of(addr) == old(self).queue_of(addr),
            !r.0 ==> final(self).queue_of(addr).len() == 0,
            forall|b: NetAddr|
                b != addr ==> (#[trigger] final(self).queue_of(b)) == old(self).queue_of(b),
    {
        let ghost q0 = old(self).queue_of(addr);
        let mut delivered: Ghost<Seq<FrameView>> = Ghost(Seq::empty());
        loop
            invariant
                self.wf(),
                q0 == old(self).queue_of(addr),
                delivered@ + self.queue_of(addr) == q0,
                forall|b: NetAddr|
                    b != addr ==> (#[trigger] self.queue_of(b)) == old(self).queue_of(b),
            decreases self.queue_of(addr).len(),
        {
            match self.pop_frame(addr) {
                None => {
                    proof {
                        assert(delivered@ + self.queue_of(addr) == q0);
                    }
                    return (false, delivered);
                }
                Some(f) => {
                    let ghost fv = f@;
                    let ghost before = self.queue_of(addr);
                    match send_frame(tx, f) {
                        Ok(_) => {
                            proof {
                                assert((delivered@.push(fv)) + self.queue_of(addr) =~= q0);
                            }
                            delivered = Ghost(delivered@.push(fv));
                        }
                        Err(f2) => {
                            self.requeue_front(f2, addr);
                            proof {
                                assert(self.queue_of(addr) =~= seq![fv] + before);
                                assert(delivered@ + self.queue_of(addr) =~= q0);
                            }
                            return (true, delivered);
                        }
                    }
                }
            }
        }
    }
}

} // verus!
