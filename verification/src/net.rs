//! What the core shares with the transport: data frames, per-peer connection
//! states over the transport's frame channel, and network events.

use vstd::prelude::*;

use crate::path::NetAddr;

verus! {

/// The mathematical form of a data frame.
pub struct FrameView {
    pub stream_id: u32,
    pub seq: u32,
    pub payload: Seq<u8>,
}

/// A data frame: a serialised payload under a small header. This core only
/// emits data frames; framing metadata is reserved and stays zero.
pub struct Frame {
    pub stream_id: u32,
    pub seq: u32,
    pub payload: Vec<u8>,
}

impl View for Frame {
    type V = FrameView;

    open spec fn view(&self) -> FrameView {
        FrameView { stream_id: self.stream_id, seq: self.seq, payload: self.payload@ }
    }
}

impl Frame {
    /// A data frame around a payload, with the reserved zero header.
    pub fn data(payload: Vec<u8>) -> (r: Frame)
        ensures
            r@ == (FrameView { stream_id: 0, seq: 0, payload: payload@ }),
    {
        Frame { stream_id: 0, seq: 0, payload }
    }
}

/// The transport's write end of one peer's frame channel.
#[verifier::external_type_specification]
#[verifier::external_body]
#[verifier::reject_recursive_types(T)]
pub struct ExUnboundedSender<T>(futures::sync::mpsc::UnboundedSender<T>);

/// Relies on `futures::sync::mpsc::UnboundedSender::unbounded_send`: an
/// unbounded channel accepts the message unless the receive end is gone, and
/// `SendError::into_inner` hands back exactly the rejected message.
#[verifier::external_body]
pub fn send_frame(tx: &futures::sync::mpsc::UnboundedSender<Frame>, frame: Frame) -> (r: Result<
    (),
    Frame,
>)
    ensures
        r matches Err(f) ==> f@ == frame@,
{
    match tx.unbounded_send(frame) {
        Ok(()) => Ok(()),
        Err(e) => Err(e.into_inner()),
    }
}

/// Why a connection failed, as the core distinguishes it.
#[derive(Clone, Copy, PartialEq, Eq, Structural, Debug)]
pub enum IoErrKind {
    ConnectionRefused,
    Other,
}

/// The connection status of one peer. `Connected` owns the write end of that
/// peer's frame channel; when the transport drops the other end, sends fail
/// observably and the peer is marked `Closed`.
pub enum ConnectionState {
    New,
    Initializing,
    Connected(futures::sync::mpsc::UnboundedSender<Frame>),
    Closed,
    Error(IoErrKind),
}

/// What the transport reports into the dispatcher.
pub enum NetworkEvent {
    /// A peer's connection changed state.
    Connection(NetAddr, ConnectionState),
    /// A stray inbound payload; not expected at this layer.
    Data(Vec<u8>),
}

/// The event wrapper the dispatcher consumes.
pub enum EventEnvelope {
    Network(NetworkEvent),
}

/// Per-peer connection states, driven by transport events and routing.
pub struct ConnectionTable {
    entries: Vec<(NetAddr, ConnectionState)>,
}

impl View for ConnectionTable {
    type V = Map<NetAddr, ConnectionState>;

    closed spec fn view(&self) -> Map<NetAddr, ConnectionState> {
        crate::assoc::map_of(self.entries@)
    }
}

impl ConnectionTable {
    /// One peer occurs at most once.
    pub closed spec fn wf(&self) -> bool {
        crate::assoc::unique_keys(self.entries@)
    }

    pub fn new() -> (r: ConnectionTable)
        ensures
            r.wf(),
            r@ == Map::<NetAddr, ConnectionState>::empty(),
    {
        ConnectionTable { entries: Vec::new() }
    }

    /// The position of a peer's entry, if it has one.
    fn find(&self, addr: NetAddr) -> (r: Option<usize>)
        requires
            self.wf(),
        ensures
            match r {
                Some(i) => {
                    &&& i < self.entries@.len()
                    &&& self.entries@[i as int].0 == addr
                    &&& self@.contains_key(addr)
                    &&& self@[addr] == self.entries@[i as int].1
                },
                None => !self@.contains_key(addr),
            },
    {
        let ghost s = self.entries@;
        let n = self.entries.len();
        for i in 0..n
            invariant
                n == self.entries@.len(),
                s == self.entries@,
                self.wf(),
                forall|j: int| 0 <= j < i ==> (#[trigger] s[j]).0 != addr,
        {
            if self.entries[i].0 == addr {
                proof {
                    crate::assoc::lemma_map_of_index(s, i as int);
                }
                return Some(i);
            }
        }
        proof {
            crate::assoc::lemma_map_of_contains(s, addr);
        }
        None
    }

    /// Removes and returns a peer's state; a peer never seen starts `New`.
    pub fn take(&mut self, addr: NetAddr) -> (st: ConnectionState)
        requires
            old(self).wf(),
        ensures
            final(self).wf(),
            final(self)@ == old(self)@.remove(addr),
            st == if old(self)@.contains_key(addr) {
                old(self)@[addr]
            } else {
                ConnectionState::New
            },
    {
        let ghost s = self.entries@;
        match self.find(addr) {
            Some(i) => {
                proof {
                    crate::assoc::lemma_map_of_remove(s, i as int);
                }
                let (_, st) = self.entries.remove(i);
                st
            }
            None => {
                proof {
                    assert(self@ =~= old(self)@.remove(addr));
                }
                ConnectionState::New
            }
        }
    }

    /// Stores a peer's state; the peer must have been taken out first.
    pub fn put(&mut self, addr: NetAddr, st: ConnectionState)
        requires
            old(self).wf(),
            !old(self)@.contains_key(addr),
        ensures
            final(self).wf(),
            final(self)@ == old(self)@.insert(addr, st),
    {
        let ghost s0 = self.entries@;
        self.entries.push((addr, st));
        proof {
            assert(self.entries@.drop_last() =~= s0);
            crate::assoc::lemma_map_of_contains(s0, addr);
            assert(crate::assoc::unique_keys(self.entries@)) by {
                let s1 = self.entries@;
                assert forall|x: int, y: int|
                    0 <= x < y < s1.len() implies (#[trigger] s1[x]).0 != (#[trigger] s1[y]).0 by {
                    if y < s1.len() - 1 {
                        assert(s1[x] == s0[x] && s1[y] == s0[y]);
                    } else {
                        assert(s1[y].0 == addr);
                        assert(s1[x] == s0[x]);
                        crate::assoc::lemma_map_of_index(s0, x);
                    }
                }
            }
        }
    }
}

} // verus!
