//! The network-aware dispatcher: it consumes dispatch envelopes, routes
//! messages locally or towards peers, mutates the registry, tracks per-peer
//! connections, and drains queued frames when a connection becomes usable.
//!
//! Socket work itself (binding, connecting, timers) belongs to the owning
//! system: the dispatcher decides, and its results say which outside action
//! the caller must perform.

use vstd::prelude::*;

use crate::envelope::{
    ControlEvent, DispatchEnvelope, ReceivedEnvelope, RegistrationEnvelope, RegistrationError,
};
use crate::net::{
    send_frame, ConnectionState, ConnectionTable, EventEnvelope, Frame, FrameView, NetworkEvent,
};
use crate::path::{
    ActorPath, ActorPathView, NamedPath, NetAddr, PathResolvable, SystemPath, Transport,
    UniquePath,
};
use crate::queue::QueueManager;
use crate::reaper::{decr_step, incr_step, ActorRefReaper};
use crate::registry::{cell_store, RegistryCell};
use crate::serialisation::{
    serialise_msg, serialise_to_recv_envelope, spec_msg_payload, SerError, Serialisable,
    TypedValue,
};
use crate::store::{live_submap, ActorRef, ActorStore};

verus! {

/// Configuration for the network dispatcher: where to listen, and over what.
pub struct NetworkConfig {
    pub addr: NetAddr,
    pub transport: Transport,
}

impl NetworkConfig {
    pub fn new(addr: NetAddr) -> (r: NetworkConfig)
        ensures
            r.addr == addr,
            r.transport == Transport::Tcp,
    {
        NetworkConfig { addr, transport: Transport::Tcp }
    }

    /// Replaces the socket address.
    pub fn with_socket(self, addr: NetAddr) -> (r: NetworkConfig)
        ensures
            r.addr == addr,
            r.transport == self.transport,
    {
        NetworkConfig { addr, transport: self.transport }
    }
}

/// The default socket is localhost with an ephemeral port.
impl Default for NetworkConfig {
    fn default() -> (r: NetworkConfig)
        ensures
            r.addr == (NetAddr { ip: 0x7F000001, port: 0 }),
            r.transport == Transport::Tcp,
    {
        NetworkConfig { addr: NetAddr { ip: 0x7F000001, port: 0 }, transport: Transport::Tcp }
    }
}

/// What routing one message did, and what the owning system must still do.
pub enum RouteOutcome {
    /// Delivered locally through the typed fast path: hand `value` to `dst`
    /// with `src` as the sender.
    TellLocal { dst: ActorRef, src: ActorRef, value: TypedValue },
    /// Delivered locally in serialised form: hand the envelope to `dst`.
    EnqueueLocal { dst: ActorRef, envelope: ReceivedEnvelope },
    /// No local actor at the destination path; the message was dropped.
    DroppedUnknownDestination,
    /// The message could not be serialised and was dropped.
    DroppedSerialisationError(SerError),
    /// The frame was queued; if `connect` holds, the caller must ask the
    /// transport to connect to `addr`.
    Queued { addr: NetAddr, connect: bool },
    /// The frame went straight into the peer's live channel.
    Sent { addr: NetAddr },
    /// The live channel rejected the frame; it was re-queued and the peer
    /// marked closed.
    SendFailedQueued { addr: NetAddr },
    /// The queue was drained into the live channel; `closed` says whether the
    /// channel failed part-way, leaving the rest queued and the peer closed.
    Drained { addr: NetAddr, closed: bool },
    /// The peer sits in a failed state; nothing was queued or sent.
    DroppedPeerFaulted { addr: NetAddr },
    /// The destination names a transport this core does not route over.
    DroppedUnsupportedTransport,
}

/// What consuming one envelope did.
pub enum DispatchOutcome {
    /// A message envelope went through the router.
    Routed(RouteOutcome),
    /// A registration was applied; `respond` says whether a promise awaits
    /// `result`, and `reaper_interval_ms` asks the caller to schedule the
    /// reaper's first run after that many milliseconds.
    Registered {
        result: Result<(), RegistrationError>,
        respond: bool,
        reaper_interval_ms: Option<u64>,
    },
    /// A connection event was folded into the connection table.
    ConnectionUpdated,
    /// A stray data event; dropped.
    DataDropped,
    /// A cast envelope; rejected.
    CastRejected,
}

/// The peer address a destination path names.
pub open spec fn peer_addr_of(p: ActorPathView) -> NetAddr {
    NetAddr { ip: p.sys().ip, port: p.sys().port }
}

/// The effect of one registration on the registry mapping: a fresh path is
/// bound, a duplicate is rejected and publishes nothing.
pub open spec fn register_spec(
    m: Map<ActorPathView, ActorRef>,
    path: ActorPathView,
    actor: ActorRef,
) -> (Map<ActorPathView, ActorRef>, Result<(), RegistrationError>) {
    if m.contains_key(path) {
        (m, Err(RegistrationError::DuplicateEntry))
    } else {
        (m.insert(path, actor), Ok(()))
    }
}

/// Network-aware dispatcher for messages to local and remote actors.
pub struct NetworkDispatcher {
    /// Network configuration for this dispatcher.
    cfg: NetworkConfig,
    /// This dispatcher's own actor identifier.
    own_id: u128,
    /// Per-peer connection statuses.
    connections: ConnectionTable,
    /// Shared lookup structure mapping paths to actor references.
    lookup: RegistryCell,
    /// The bound listen address, once the transport has started.
    bound: Option<NetAddr>,
    /// Whether a start failure has poisoned the owning system.
    poisoned: bool,
    /// Queueing of frames during network unavailability; present once started.
    queue_manager: Option<QueueManager>,
    /// The sweeper of dead references, with its adaptive interval.
    reaper: ActorRefReaper,
    /// Whether the readiness promise is still waiting to be fulfilled.
    notify_ready: bool,
    /// The frames each peer has accepted into its live channel, in order.
    delivered: Ghost<Map<NetAddr, Seq<FrameView>>>,
    /// The frames the router has committed for each peer, in order.
    routed: Ghost<Map<NetAddr, Seq<FrameView>>>,
}

impl NetworkDispatcher {
    pub closed spec fn config(&self) -> NetworkConfig {
        self.cfg
    }

    pub closed spec fn own_id_spec(&self) -> u128 {
        self.own_id
    }

    pub closed spec fn bound_addr(&self) -> Option<NetAddr> {
        self.bound
    }

    pub closed spec fn is_poisoned(&self) -> bool {
        self.poisoned
    }

    pub closed spec fn notify_ready_pending(&self) -> bool {
        self.notify_ready
    }

    /// The registry mapping currently published.
    pub closed spec fn store_map(&self) -> Map<ActorPathView, ActorRef> {
        cell_store(&self.lookup)
    }

    /// The per-peer connection states.
    pub closed spec fn conn_map(&self) -> Map<NetAddr, ConnectionState> {
        self.connections@
    }

    /// A peer's connection state; a peer never seen is `New`.
    pub open spec fn conn_of(&self, a: NetAddr) -> ConnectionState {
        if self.conn_map().contains_key(a) {
            self.conn_map()[a]
        } else {
            ConnectionState::New
        }
    }

    pub closed spec fn reaper_state(&self) -> ActorRefReaper {
        self.reaper
    }

    /// The frames pending for a peer.
    pub closed spec fn queued_of(&self, a: NetAddr) -> Seq<FrameView> {
        match self.queue_manager {
            Some(q) => q.queue_of(a),
            None => Seq::empty(),
        }
    }

    /// The frames a peer's channel has accepted, oldest first.
    pub closed spec fn delivered_to(&self, a: NetAddr) -> Seq<FrameView> {
        if self.delivered@.contains_key(a) {
            self.delivered@[a]
        } else {
            Seq::empty()
        }
    }

    /// The frames the router has committed for a peer, oldest first.
    pub closed spec fn routed_of(&self, a: NetAddr) -> Seq<FrameView> {
        if self.routed@.contains_key(a) {
            self.routed@[a]
        } else {
            Seq::empty()
        }
    }

    /// Whether the transport has been started and bound.
    pub open spec fn started(&self) -> bool {
        self.bound_addr() is Some
    }

    /// The dispatcher's invariant: tables are keyed uniquely, the reaper's
    /// strategy is within its bounds, queueing exists exactly once started,
    /// and for every peer the committed frames are exactly those accepted by
    /// its channel followed by those still queued.
    pub closed spec fn wf(&self) -> bool {
        &&& self.connections.wf()
        &&& self.reaper.wf()
        &&& match self.queue_manager {
            Some(q) => q.wf() && self.bound is Some,
            None => self.bound is None,
        }
        &&& forall|a: NetAddr|
            (#[trigger] self.delivered_to(a)) + self.queued_of(a) == self.routed_of(a)
    }

    /// The view the router takes of a source designator.
    pub open spec fn resolve_view(&self, src: PathResolvable) -> ActorPathView {
        match src {
            PathResolvable::Path(p) => p@,
            PathResolvable::Alias(a) => ActorPathView::Named {
                sys: self.spec_system_path(),
                segments: seq![a@],
            },
            PathResolvable::ActorId(id) => ActorPathView::Unique {
                sys: self.spec_system_path(),
                id: id,
            },
            PathResolvable::System => ActorPathView::Unique {
                sys: self.spec_system_path(),
                id: self.own_id_spec(),
            },
        }
    }

    /// The system path of this dispatcher, valid once bound.
    pub open spec fn spec_system_path(&self) -> SystemPath {
        SystemPath {
            protocol: self.config().transport,
            ip: self.bound_addr().unwrap().ip,
            port: self.bound_addr().unwrap().port,
        }
    }

    pub fn new(own_id: u128) -> (r: NetworkDispatcher)
        ensures
            r.wf(),
            fresh_dispatcher_post(&r, NetworkConfig { addr: NetAddr { ip: 0x7F000001, port: 0 }, transport: Transport::Tcp }, own_id),
    {
        NetworkDispatcher::with_config(NetworkConfig::default(), own_id)
    }

    pub fn with_config(cfg: NetworkConfig, own_id: u128) -> (r: NetworkDispatcher)
        ensures
            r.wf(),
            fresh_dispatcher_post(&r, cfg, own_id),
    {
        let r = NetworkDispatcher {
            cfg,
            own_id,
            connections: ConnectionTable::new(),
            lookup: RegistryCell::new(ActorStore::new()),
            bound: None,
            poisoned: false,
            queue_manager: None,
            reaper: ActorRefReaper::new_default(),
            notify_ready: true,
            delivered: Ghost(Map::empty()),
            routed: Ghost(Map::empty()),
        };
        proof {
            assert forall|a: NetAddr| (#[trigger] r.queued_of(a)) == Seq::<FrameView>::empty() by {}
            assert forall|a: NetAddr| (#[trigger] r.routed_of(a)) == Seq::<FrameView>::empty() by {}
            assert forall|a: NetAddr|
                (#[trigger] r.delivered_to(a)) == Seq::<FrameView>::empty() by {}
            assert forall|a: NetAddr|
                (#[trigger] r.delivered_to(a)) + r.queued_of(a) == r.routed_of(a) by {
                assert(r.delivered_to(a) + r.queued_of(a) =~= Seq::<FrameView>::empty());
                assert(r.routed_of(a) =~= Seq::<FrameView>::empty());
            }
        }
        r
    }

    /// Installs the bound address and the queue manager after the transport
    /// has started; returns whether the readiness promise should now be
    /// fulfilled.
    pub fn start_completed(&mut self, bound_addr: NetAddr) -> (fulfill: bool)
        requires
            old(self).wf(),
            !old(self).started(),
            !old(self).is_poisoned(),
        ensures
            final(self).wf(),
            final(self).started(),
            final(self).bound_addr() == Some(bound_addr),
            !final(self).notify_ready_pending(),
            fulfill == old(self).notify_ready_pending(),
            final(self).config() == old(self).config(),
            final(self).own_id_spec() == old(self).own_id_spec(),
            final(self).store_map() == old(self).store_map(),
            final(self).conn_map() == old(self).conn_map(),
            final(self).reaper_state() == old(self).reaper_state(),
            !final(self).is_poisoned(),
            forall|a: NetAddr| (#[trigger] final(self).queued_of(a)) == old(self).queued_of(a),
            forall|a: NetAddr| (#[trigger] final(self).routed_of(a)) == old(self).routed_of(a),
            forall|a: NetAddr| (#[trigger] final(self).delivered_to(a)) == old(self).delivered_to(a),
    {
        self.bound = Some(bound_addr);
        self.queue_manager = Some(QueueManager::new());
        let fulfill = self.notify_ready;
        self.notify_ready = false;
        proof {
            assert forall|a: NetAddr| (#[trigger] self.queued_of(a)) == old(self).queued_of(a) by {
                assert(self.queued_of(a) =~= Seq::<FrameView>::empty());
                assert(old(self).queued_of(a) =~= Seq::<FrameView>::empty());
            }
            assert forall|a: NetAddr|
                (#[trigger] self.delivered_to(a)) + self.queued_of(a) == self.routed_of(a) by {
                assert(self.delivered_to(a) == old(self).delivered_to(a));
                assert(self.queued_of(a) == old(self).queued_of(a));
                assert(self.routed_of(a) == old(self).routed_of(a));
                assert(old(self).delivered_to(a) + old(self).queued_of(a) == old(self).routed_of(
                    a,
                ));
            }
        }
        fulfill
    }

    /// Records a failed start: the owning system is poisoned and must not
    /// serve further requests.
    pub fn start_failed(&mut self)
        requires
            old(self).wf(),
            !old(self).started(),
        ensures
            final(self).wf(),
            final(self).is_poisoned(),
            !final(self).started(),
    {
        self.poisoned = true;
        proof {
            assert forall|a: NetAddr|
                (#[trigger] self.delivered_to(a)) + self.queued_of(a) == self.routed_of(a) by {
                assert(old(self).delivered_to(a) + old(self).queued_of(a) == old(self).routed_of(
                    a,
                ));
            }
        }
    }

    /// Handles a lifecycle event. For `Start` the owning system has already
    /// asked the transport to bind, and `bind_result` carries the bound
    /// address, or nothing when binding failed: success installs the
    /// queueing state and says whether to fulfill the readiness promise now;
    /// failure poisons the owning system. `Stop` and `Kill` shut the
    /// transport down outside this core and change nothing in it.
    pub fn handle(&mut self, event: ControlEvent, bind_result: Option<NetAddr>) -> (fulfill_ready:
        bool)
        requires
            old(self).wf(),
            event == ControlEvent::Start ==> !old(self).started() && !old(self).is_poisoned(),
        ensures
            final(self).wf(),
            match event {
                ControlEvent::Start => match bind_result {
                    Some(addr) => {
                        &&& final(self).started()
                        &&& final(self).bound_addr() == Some(addr)
                        &&& !final(self).is_poisoned()
                        &&& fulfill_ready == old(self).notify_ready_pending()
                        &&& !final(self).notify_ready_pending()
                        &&& final(self).store_map() == old(self).store_map()
                        &&& final(self).conn_map() == old(self).conn_map()
                    },
                    None => {
                        &&& final(self).is_poisoned()
                        &&& !final(self).started()
                        &&& !fulfill_ready
                    },
                },
                ControlEvent::Stop | ControlEvent::Kill => *final(self) == *old(self)
                    && !fulfill_ready,
            },
    {
        match event {
            ControlEvent::Start => {
                match bind_result {
                    Some(addr) => self.start_completed(addr),
                    None => {
                        self.start_failed();
                        false
                    }
                }
            }
            ControlEvent::Stop | ControlEvent::Kill => false,
        }
    }

    /// The system path derived from the bound socket and the configured
    /// transport; only valid after start.
    pub fn system_path(&self) -> (r: SystemPath)
        requires
            self.started(),
        ensures
            r == self.spec_system_path(),
    {
        let bound = match &self.bound {
            Some(a) => *a,
            None => vstd::pervasive::unreached(),
        };
        SystemPath { protocol: self.cfg.transport, ip: bound.ip, port: bound.port }
    }

    /// This dispatcher's own unique actor path.
    pub fn actor_path(&self) -> (r: ActorPath)
        requires
            self.started(),
        ensures
            r@ == (ActorPathView::Unique { sys: self.spec_system_path(), id: self.own_id_spec() }),
    {
        ActorPath::Unique(UniquePath::with_system(self.system_path(), self.own_id))
    }

    /// A lease on the current registry snapshot: the consistent view a
    /// reader holds while the dispatcher keeps publishing.
    pub fn lease(&self) -> (r: ActorStore)
        ensures
            r.wf(),
            r@ == self.store_map(),
    {
        self.lookup.lease()
    }

    /// Whether the transport has started and the dispatcher is bound.
    pub fn is_started(&self) -> (r: bool)
        ensures
            r == self.started(),
    {
        match &self.bound {
            Some(_) => true,
            None => false,
        }
    }

    /// Whether a start failure has poisoned the owning system.
    pub fn poisoned(&self) -> (r: bool)
        ensures
            r == self.is_poisoned(),
    {
        self.poisoned
    }

    /// Resolves a source designator to a concrete path under this system.
    fn resolve_src(&self, src: PathResolvable) -> (r: ActorPath)
        requires
            self.started(),
        ensures
            r@ == self.resolve_view(src),
    {
        match src {
            PathResolvable::Path(p) => p,
            PathResolvable::Alias(alias) => {
                let ghost av = alias@;
                let mut segments: Vec<String> = Vec::new();
                segments.push(alias);
                proof {
                    assert(crate::path::segments_view(segments@) =~~= seq![av]);
                }
                ActorPath::Named(NamedPath::with_system(self.system_path(), segments))
            }
            PathResolvable::ActorId(id) => ActorPath::Unique(
                UniquePath::with_system(self.system_path(), id),
            ),
            PathResolvable::System => self.actor_path(),
        }
    }

    /// Forwards a message to a local destination: through the typed fast path
    /// when the message offers one, in serialised form otherwise; an unknown
    /// destination drops the message.
    pub fn route_local<M: Serialisable>(&self, src: ActorPath, dst: ActorPath, msg: M) -> (r:
        RouteOutcome)
        requires
            self.store_map().contains_key(dst@) && msg.local_form() is Some
                ==> self.store_map().contains_key(src@),
        ensures
            route_local_post(self.store_map(), src@, dst@, msg, r),
    {
        let lookup = self.lookup.lease();
        let actor = lookup.get_by_actor_path(&dst);
        match actor {
            Some(actor) => {
                match msg.local() {
                    Ok(value) => {
                        let src_actor = lookup.get_by_actor_path(&src);
                        match src_actor {
                            Some(src_actor) => RouteOutcome::TellLocal {
                                dst: actor,
                                src: src_actor,
                                value,
                            },
                            None => vstd::pervasive::unreached(),
                        }
                    }
                    Err(msg) => {
                        match serialise_to_recv_envelope(src, dst, msg) {
                            Ok(envelope) => RouteOutcome::EnqueueLocal { dst: actor, envelope },
                            Err(e) => RouteOutcome::DroppedSerialisationError(e),
                        }
                    }
                }
            }
            None => RouteOutcome::DroppedUnknownDestination,
        }
    }

    /// Routes a message towards the peer its destination names, queueing the
    /// frame while no connection is usable and draining in order when one is.
    pub fn route_remote<M: Serialisable>(&mut self, src: ActorPath, dst: ActorPath, msg: M) -> (r:
        RouteOutcome)
        requires
            old(self).wf(),
            old(self).started(),
        ensures
            final(self).wf(),
            route_remote_post(old(self), final(self), src@, dst@, msg, r),
    {
        let ghost pre = *old(self);
        let sys = dst.system();
        let addr = NetAddr { ip: sys.ip, port: sys.port };
        let ghost fv = FrameView {
            stream_id: 0,
            seq: 0,
            payload: spec_msg_payload(src@, dst@, msg.id_spec(), msg.ser_bytes()),
        };
        let payload = match serialise_msg(&src, &dst, &msg) {
            Ok(p) => p,
            Err(e) => {
                return RouteOutcome::DroppedSerialisationError(e);
            }
        };
        let frame = Frame::data(payload);
        let state = self.connections.take(addr);
        match state {
            ConnectionState::New | ConnectionState::Closed => {
                self.connections.put(addr, ConnectionState::Initializing);
                self.enqueue_and_commit(frame, addr, Ghost(pre));
                proof {
                    assert(self.conn_map() =~= pre.conn_map().insert(
                        addr,
                        ConnectionState::Initializing,
                    ));
                    assert forall|a: NetAddr|
                        a != addr implies (#[trigger] self.queued_of(a)) == pre.queued_of(a) by {}
                    assert forall|a: NetAddr|
                        a != addr implies (#[trigger] self.routed_of(a)) == pre.routed_of(a) by {}
                    assert forall|a: NetAddr|
                        a != addr implies (#[trigger] self.delivered_to(a)) == pre.delivered_to(a) by {}
                    self.lemma_frame_wf_after_commit(pre, addr, fv);
                }
                RouteOutcome::Queued { addr, connect: true }
            }
            ConnectionState::Initializing => {
                self.connections.put(addr, ConnectionState::Initializing);
                self.enqueue_and_commit(frame, addr, Ghost(pre));
                proof {
                    assert(self.conn_map() =~= pre.conn_map());
                    assert forall|a: NetAddr|
                        a != addr implies (#[trigger] self.queued_of(a)) == pre.queued_of(a) by {}
                    assert forall|a: NetAddr|
                        a != addr implies (#[trigger] self.routed_of(a)) == pre.routed_of(a) by {}
                    assert forall|a: NetAddr|
                        a != addr implies (#[trigger] self.delivered_to(a)) == pre.delivered_to(a) by {}
                    self.lemma_frame_wf_after_commit(pre, addr, fv);
                }
                RouteOutcome::Queued { addr, connect: false }
            }
            ConnectionState::Connected(tx) => {
                let qm = match &mut self.queue_manager {
                    Some(q) => q,
                    None => vstd::pervasive::unreached(),
                };
                if qm.has_frame(&addr) {
                    qm.enqueue_frame(frame, addr);
                    let (closed, drained) = qm.try_drain(addr, &tx);
                    self.routed = Ghost(self.routed@.insert(addr, pre.routed_of(addr).push(fv)));
                    self.delivered = Ghost(
                        self.delivered@.insert(addr, pre.delivered_to(addr) + drained@),
                    );
                    if closed {
                        self.connections.put(addr, ConnectionState::Closed);
                        proof {
                            assert(self.conn_map() =~= pre.conn_map().insert(
                                addr,
                                ConnectionState::Closed,
                            ));
                            assert forall|a: NetAddr|
                                a != addr implies (#[trigger] self.queued_of(a)) == pre.queued_of(a) by {}
                            assert forall|a: NetAddr|
                                a != addr implies (#[trigger] self.routed_of(a)) == pre.routed_of(a) by {}
                            assert forall|a: NetAddr|
                                a != addr implies (#[trigger] self.delivered_to(a)) == pre.delivered_to(a) by {}
                            self.lemma_frame_wf_after_drain(pre, addr, fv, drained@);
                        }
                        RouteOutcome::Drained { addr, closed: true }
                    } else {
                        self.connections.put(addr, ConnectionState::Connected(tx));
                        proof {
                            assert(self.conn_map() =~= pre.conn_map());
                            assert forall|a: NetAddr|
                                a != addr implies (#[trigger] self.queued_of(a)) == pre.queued_of(a) by {}
                            assert forall|a: NetAddr|
                                a != addr implies (#[trigger] self.routed_of(a)) == pre.routed_of(a) by {}
                            assert forall|a: NetAddr|
                                a != addr implies (#[trigger] self.delivered_to(a)) == pre.delivered_to(a) by {}
                            self.lemma_frame_wf_after_drain(pre, addr, fv, drained@);
                        }
                        RouteOutcome::Drained { addr, closed: false }
                    }
                } else {
                    match send_frame(&tx, frame) {
                        Ok(_) => {
                            self.routed = Ghost(
                                self.routed@.insert(addr, pre.routed_of(addr).push(fv)),
                            );
                            self.delivered = Ghost(
                                self.delivered@.insert(addr, pre.delivered_to(addr).push(fv)),
                            );
                            self.connections.put(addr, ConnectionState::Connected(tx));
                            proof {
                                assert(self.conn_map() =~= pre.conn_map());
                                assert forall|a: NetAddr|
                                    a != addr implies (#[trigger] self.queued_of(a)) == pre.queued_of(a) by {}
                                assert forall|a: NetAddr|
                                    a != addr implies (#[trigger] self.routed_of(a)) == pre.routed_of(a) by {}
                                assert forall|a: NetAddr|
                                    a != addr implies (#[trigger] self.delivered_to(a)) == pre.delivered_to(a) by {}
                                self.lemma_frame_wf_after_direct_send(pre, addr, fv);
                            }
                            RouteOutcome::Sent { addr }
                        }
                        Err(frame) => {
                            qm.enqueue_frame(frame, addr);
                            self.routed = Ghost(
                                self.routed@.insert(addr, pre.routed_of(addr).push(fv)),
                            );
                            self.connections.put(addr, ConnectionState::Closed);
                            proof {
                                assert(self.conn_map() =~= pre.conn_map().insert(
                                    addr,
                                    ConnectionState::Closed,
                                ));
                                assert forall|a: NetAddr|
                                    a != addr implies (#[trigger] self.queued_of(a)) == pre.queued_of(a) by {}
                                assert forall|a: NetAddr|
                                    a != addr implies (#[trigger] self.routed_of(a)) == pre.routed_of(a) by {}
                                assert forall|a: NetAddr|
                                    a != addr implies (#[trigger] self.delivered_to(a)) == pre.delivered_to(a) by {}
                                self.lemma_frame_wf_after_commit(pre, addr, fv);
                            }
                            RouteOutcome::SendFailedQueued { addr }
                        }
                    }
                }
            }
            ConnectionState::Error(k) => {
                self.connections.put(addr, ConnectionState::Error(k));
                proof {
                    assert(self.conn_map() =~= pre.conn_map());
                    assert forall|a: NetAddr|
                        (#[trigger] self.delivered_to(a)) + self.queued_of(a) == self.routed_of(
                            a,
                        ) by {
                        assert(self.delivered_to(a) == pre.delivered_to(a));
                        assert(self.queued_of(a) == pre.queued_of(a));
                        assert(self.routed_of(a) == pre.routed_of(a));
                    }
                }
                RouteOutcome::DroppedPeerFaulted { addr }
            }
        }
    }

    /// Queues the frame for the peer and commits it to the routed history.
    fn enqueue_and_commit(&mut self, frame: Frame, addr: NetAddr, Ghost(pre): Ghost<NetworkDispatcher>)
        requires
            old(self).queue_manager is Some,
            old(self).queue_manager_wf(),
            pre.queued_of(addr) == old(self).queued_of(addr),
            pre.routed_of(addr) == old(self).routed_of(addr),
            pre.delivered_to(addr) == old(self).delivered_to(addr),
            forall|a: NetAddr| (#[trigger] pre.queued_of(a)) == old(self).queued_of(a),
            forall|a: NetAddr| (#[trigger] pre.routed_of(a)) == old(self).routed_of(a),
            forall|a: NetAddr| (#[trigger] pre.delivered_to(a)) == old(self).delivered_to(a),
        ensures
            final(self).queue_manager_wf(),
            final(self).queue_manager is Some,
            final(self).queued_of(addr) == pre.queued_of(addr).push(frame@),
            final(self).routed_of(addr) == pre.routed_of(addr).push(frame@),
            final(self).delivered_to(addr) == pre.delivered_to(addr),
            forall|a: NetAddr|
                a != addr ==> (#[trigger] final(self).queued_of(a)) == pre.queued_of(a),
            forall|a: NetAddr|
                a != addr ==> (#[trigger] final(self).routed_of(a)) == pre.routed_of(a),
            forall|a: NetAddr|
                a != addr ==> (#[trigger] final(self).delivered_to(a)) == pre.delivered_to(a),
            final(self).connections == old(self).connections,
            final(self).lookup == old(self).lookup,
            final(self).reaper == old(self).reaper,
            final(self).cfg == old(self).cfg,
            final(self).own_id == old(self).own_id,
            final(self).bound == old(self).bound,
            final(self).poisoned == old(self).poisoned,
            final(self).notify_ready == old(self).notify_ready,
    {
        let ghost fv = frame@;
        let qm = match &mut self.queue_manager {
            Some(q) => q,
            None => vstd::pervasive::unreached(),
        };
        qm.enqueue_frame(frame, addr);
        self.routed = Ghost(self.routed@.insert(addr, pre.routed_of(addr).push(fv)));
    }

    /// Whether the queue manager, if present, is well-formed.
    pub closed spec fn queue_manager_wf(&self) -> bool {
        match self.queue_manager {
            Some(q) => q.wf(),
            None => true,
        }
    }

    /// After queueing and committing one frame, the per-peer ledger balances.
    proof fn lemma_frame_wf_after_commit(&self, pre: NetworkDispatcher, addr: NetAddr, fv: FrameView)
        requires
            pre.wf(),
            self.connections.wf(),
            self.reaper.wf(),
            self.queue_manager_wf(),
            self.started(),
            match self.queue_manager {
                Some(_) => true,
                None => false,
            },
            self.queued_of(addr) == pre.queued_of(addr).push(fv),
            self.routed_of(addr) == pre.routed_of(addr).push(fv),
            self.delivered_to(addr) == pre.delivered_to(addr),
            forall|a: NetAddr| a != addr ==> (#[trigger] self.queued_of(a)) == pre.queued_of(a),
            forall|a: NetAddr| a != addr ==> (#[trigger] self.routed_of(a)) == pre.routed_of(a),
            forall|a: NetAddr|
                a != addr ==> (#[trigger] self.delivered_to(a)) == pre.delivered_to(a),
        ensures
            self.wf(),
    {
        assert forall|a: NetAddr|
            (#[trigger] self.delivered_to(a)) + self.queued_of(a) == self.routed_of(a) by {
            if a == addr {
                assert(self.delivered_to(a) + self.queued_of(a) =~= self.routed_of(a));
            } else {
                assert(pre.delivered_to(a) + pre.queued_of(a) == pre.routed_of(a));
            }
        }
    }

    /// After a direct send, the per-peer ledger balances.
    proof fn lemma_frame_wf_after_direct_send(
        &self,
        pre: NetworkDispatcher,
        addr: NetAddr,
        fv: FrameView,
    )
        requires
            pre.wf(),
            self.connections.wf(),
            self.reaper.wf(),
            self.queue_manager_wf(),
            self.started(),
            match self.queue_manager {
                Some(_) => true,
                None => false,
            },
            pre.queued_of(addr).len() == 0,
            self.queued_of(addr) == pre.queued_of(addr),
            self.routed_of(addr) == pre.routed_of(addr).push(fv),
            self.delivered_to(addr) == pre.delivered_to(addr).push(fv),
            forall|a: NetAddr| a != addr ==> (#[trigger] self.queued_of(a)) == pre.queued_of(a),
            forall|a: NetAddr| a != addr ==> (#[trigger] self.routed_of(a)) == pre.routed_of(a),
            forall|a: NetAddr|
                a != addr ==> (#[trigger] self.delivered_to(a)) == pre.delivered_to(a),
        ensures
            self.wf(),
    {
        assert forall|a: NetAddr|
            (#[trigger] self.delivered_to(a)) + self.queued_of(a) == self.routed_of(a) by {
            if a == addr {
                assert(pre.delivered_to(a) + pre.queued_of(a) == pre.routed_of(a));
                assert(pre.delivered_to(a) =~= pre.routed_of(a));
                assert(self.delivered_to(a) + self.queued_of(a) =~= self.routed_of(a));
            } else {
                assert(pre.delivered_to(a) + pre.queued_of(a) == pre.routed_of(a));
            }
        }
    }

    /// After enqueueing one frame and draining some prefix, the ledger balances.
    proof fn lemma_frame_wf_after_drain(
        &self,
        pre: NetworkDispatcher,
        addr: NetAddr,
        fv: FrameView,
        drained: Seq<FrameView>,
    )
        requires
            pre.wf(),
            self.connections.wf(),
            self.reaper.wf(),
            self.queue_manager_wf(),
            self.started(),
            match self.queue_manager {
                Some(_) => true,
                None => false,
            },
            drained + self.queued_of(addr) == pre.queued_of(addr).push(fv),
            self.routed_of(addr) == pre.routed_of(addr).push(fv),
            self.delivered_to(addr) == pre.delivered_to(addr) + drained,
            forall|a: NetAddr| a != addr ==> (#[trigger] self.queued_of(a)) == pre.queued_of(a),
            forall|a: NetAddr| a != addr ==> (#[trigger] self.routed_of(a)) == pre.routed_of(a),
            forall|a: NetAddr|
                a != addr ==> (#[trigger] self.delivered_to(a)) == pre.delivered_to(a),
        ensures
            self.wf(),
    {
        assert forall|a: NetAddr|
            (#[trigger] self.delivered_to(a)) + self.queued_of(a) == self.routed_of(a) by {
            if a == addr {
                assert(pre.delivered_to(a) + pre.queued_of(a) == pre.routed_of(a));
                assert((pre.delivered_to(a) + drained) + self.queued_of(a) =~= pre.delivered_to(a)
                    + (drained + self.queued_of(a)));
                assert(pre.delivered_to(a) + (pre.queued_of(a).push(fv)) =~= (pre.delivered_to(a)
                    + pre.queued_of(a)).push(fv));
                assert(self.delivered_to(a) + self.queued_of(a) =~= self.routed_of(a));
            } else {
                assert(pre.delivered_to(a) + pre.queued_of(a) == pre.routed_of(a));
            }
        }
    }

    /// Forwards a message to the destination its path describes, locally or
    /// across the network; an unsupported transport drops it.
    pub fn route<M: Serialisable>(&mut self, src: PathResolvable, dst: ActorPath, msg: M) -> (r:
        RouteOutcome)
        requires
            old(self).wf(),
            old(self).started(),
            dst@.sys().protocol == Transport::Local && old(self).store_map().contains_key(dst@)
                && msg.local_form() is Some ==> old(self).store_map().contains_key(
                old(self).resolve_view(src),
            ),
        ensures
            final(self).wf(),
            route_post(old(self), final(self), src, dst@, msg, r),
    {
        let src_path = self.resolve_src(src);
        let proto = dst.system().protocol();
        match proto {
            Transport::Local => self.route_local(src_path, dst, msg),
            Transport::Tcp => self.route_remote(src_path, dst, msg),
            Transport::Udp => RouteOutcome::DroppedUnsupportedTransport,
        }
    }

    /// Folds a connection event into the table; on a transition into
    /// `Connected` the peer's queue is drained in order into the new channel,
    /// re-queuing at the head and marking the peer closed if the channel
    /// fails.
    pub fn on_conn_state(&mut self, addr: NetAddr, state: ConnectionState)
        requires
            old(self).wf(),
        ensures
            final(self).wf(),
            on_conn_state_post(old(self), final(self), addr, state),
    {
        let ghost pre = *old(self);
        let _prev = self.connections.take(addr);
        match state {
            ConnectionState::Connected(tx) => {
                let has = match &self.queue_manager {
                    Some(qm) => qm.has_frame(&addr),
                    None => false,
                };
                if has {
                    let qm = match &mut self.queue_manager {
                        Some(q) => q,
                        None => vstd::pervasive::unreached(),
                    };
                    let (closed, drained) = qm.try_drain(addr, &tx);
                    self.delivered = Ghost(
                        self.delivered@.insert(addr, pre.delivered_to(addr) + drained@),
                    );
                    if closed {
                        self.connections.put(addr, ConnectionState::Closed);
                        proof {
                            assert(self.conn_map() =~= pre.conn_map().insert(
                                addr,
                                ConnectionState::Closed,
                            ));
                            self.lemma_event_wf_after_drain(pre, addr, drained@);
                        }
                    } else {
                        self.connections.put(addr, ConnectionState::Connected(tx));
                        proof {
                            assert(self.conn_map() =~= pre.conn_map().insert(addr, state));
                            self.lemma_event_wf_after_drain(pre, addr, drained@);
                        }
                    }
                } else {
                    self.connections.put(addr, ConnectionState::Connected(tx));
                    proof {
                        assert(self.conn_map() =~= pre.conn_map().insert(addr, state));
                        self.lemma_event_wf_unchanged_frames(pre);
                    }
                }
            }
            other => {
                self.connections.put(addr, other);
                proof {
                    assert(self.conn_map() =~= pre.conn_map().insert(addr, state));
                    self.lemma_event_wf_unchanged_frames(pre);
                }
            }
        }
    }

    /// With every peer's histories untouched, the ledger still balances.
    proof fn lemma_event_wf_unchanged_frames(&self, pre: NetworkDispatcher)
        requires
            pre.wf(),
            self.connections.wf(),
            self.reaper == pre.reaper,
            self.queue_manager == pre.queue_manager,
            self.bound == pre.bound,
            self.delivered == pre.delivered,
            self.routed == pre.routed,
        ensures
            self.wf(),
    {
        assert forall|a: NetAddr|
            (#[trigger] self.delivered_to(a)) + self.queued_of(a) == self.routed_of(a) by {
            assert(pre.delivered_to(a) + pre.queued_of(a) == pre.routed_of(a));
        }
    }

    /// After draining a prefix of one peer's queue, the ledger still
    /// balances.
    proof fn lemma_event_wf_after_drain(
        &self,
        pre: NetworkDispatcher,
        addr: NetAddr,
        drained: Seq<FrameView>,
    )
        requires
            pre.wf(),
            self.connections.wf(),
            self.reaper == pre.reaper,
            self.bound == pre.bound,
            self.queue_manager is Some,
            pre.bound is Some,
            self.queue_manager_wf(),
            drained + self.queued_of(addr) == pre.queued_of(addr),
            self.delivered_to(addr) == pre.delivered_to(addr) + drained,
            self.routed == pre.routed,
            forall|a: NetAddr| a != addr ==> (#[trigger] self.queued_of(a)) == pre.queued_of(a),
            forall|a: NetAddr|
                a != addr ==> (#[trigger] self.delivered_to(a)) == pre.delivered_to(a),
        ensures
            self.wf(),
    {
        assert forall|a: NetAddr|
            (#[trigger] self.delivered_to(a)) + self.queued_of(a) == self.routed_of(a) by {
            assert(pre.delivered_to(a) + pre.queued_of(a) == pre.routed_of(a));
            assert(self.routed_of(a) == pre.routed_of(a));
            if a == addr {
                assert((pre.delivered_to(a) + drained) + self.queued_of(a) =~= pre.delivered_to(a)
                    + (drained + self.queued_of(a)));
            }
        }
    }

    /// Applies one registration to the registry: a fresh path is bound and
    /// published; a duplicate is rejected and publishes nothing.
    fn register(&mut self, actor: ActorRef, path: ActorPath) -> (r: Result<(), RegistrationError>)
        ensures
            final(self).store_map() == register_spec(old(self).store_map(), path@, actor).0,
            r == register_spec(old(self).store_map(), path@, actor).1,
            final(self).connections == old(self).connections,
            final(self).queue_manager == old(self).queue_manager,
            final(self).reaper == old(self).reaper,
            final(self).cfg == old(self).cfg,
            final(self).own_id == old(self).own_id,
            final(self).bound == old(self).bound,
            final(self).poisoned == old(self).poisoned,
            final(self).notify_ready == old(self).notify_ready,
            final(self).delivered == old(self).delivered,
            final(self).routed == old(self).routed,
    {
        let lease = self.lookup.lease();
        if lease.contains(&path) {
            Err(RegistrationError::DuplicateEntry)
        } else {
            self.lookup.publish_insert(actor, path);
            Ok(())
        }
    }

    /// One reaper step. The first call only marks the reaper scheduled; each
    /// later call sweeps dead references out of the registry and adapts the
    /// interval: longer after a run that reaped nothing, shorter otherwise.
    /// Returns the interval in milliseconds until the next run, which the
    /// owning system must schedule.
    pub fn schedule_reaper(&mut self) -> (ms: u64)
        requires
            old(self).wf(),
        ensures
            final(self).wf(),
            schedule_reaper_post(old(self), final(self), ms),
    {
        let ghost pre = *old(self);
        if !self.reaper.is_scheduled() {
            self.reaper.schedule();
        } else {
            let n = self.reaper.run(&mut self.lookup);
            if n == 0 {
                self.reaper.strategy_incr();
            } else {
                self.reaper.strategy_decr();
            }
        }
        proof {
            self.lemma_event_wf_unchanged_frames_reaper(pre);
        }
        self.reaper.current_interval()
    }

    /// Reaper steps leave connections, queues and histories untouched, so the
    /// ledger still balances.
    proof fn lemma_event_wf_unchanged_frames_reaper(&self, pre: NetworkDispatcher)
        requires
            pre.wf(),
            self.reaper.wf(),
            self.connections == pre.connections,
            self.queue_manager == pre.queue_manager,
            self.bound == pre.bound,
            self.delivered == pre.delivered,
            self.routed == pre.routed,
        ensures
            self.wf(),
    {
        assert forall|a: NetAddr|
            (#[trigger] self.delivered_to(a)) + self.queued_of(a) == self.routed_of(a) by {
            assert(pre.delivered_to(a) + pre.queued_of(a) == pre.routed_of(a));
        }
    }

    /// Consumes one dispatch envelope: messages go to the router,
    /// registrations mutate the registry and answer their promise, network
    /// events drive the connection table, and anything else is rejected.
    pub fn receive<M: Serialisable>(&mut self, env: DispatchEnvelope<M>) -> (r: DispatchOutcome)
        requires
            old(self).wf(),
            receive_requires(old(self), &env),
        ensures
            final(self).wf(),
            receive_post(old(self), final(self), env, r),
    {
        match env {
            DispatchEnvelope::Msg { src, dst, msg } => DispatchOutcome::Routed(
                self.route(src, dst, msg),
            ),
            DispatchEnvelope::Registration(reg) => {
                match reg {
                    RegistrationEnvelope::Register { actor, path, with_promise } => {
                        let ghost pre = *old(self);
                        let res = self.register(actor, path);
                        proof {
                            self.lemma_event_wf_unchanged_frames_reaper(pre);
                        }
                        let ok = match &res {
                            Ok(_) => true,
                            Err(_) => false,
                        };
                        let interval: Option<u64> = if ok && !self.reaper.is_scheduled() {
                            Some(self.schedule_reaper())
                        } else {
                            proof {
                                self.lemma_event_wf_unchanged_frames_reaper(pre);
                            }
                            None
                        };
                        DispatchOutcome::Registered {
                            result: res,
                            respond: with_promise,
                            reaper_interval_ms: interval,
                        }
                    }
                }
            }
            DispatchEnvelope::Event(ev) => {
                match ev {
                    EventEnvelope::Network(nev) => {
                        match nev {
                            NetworkEvent::Connection(addr, state) => {
                                self.on_conn_state(addr, state);
                                DispatchOutcome::ConnectionUpdated
                            }
                            NetworkEvent::Data(_) => DispatchOutcome::DataDropped,
                        }
                    }
                }
            }
            DispatchEnvelope::Cast => DispatchOutcome::CastRejected,
        }
    }
}

/// What `route` promises: local destinations go through the local router
/// without touching dispatcher state, remote ones through the remote router,
/// and an unsupported transport drops the message unchanged.
pub open spec fn route_post<M: Serialisable>(
    pre: &NetworkDispatcher,
    post: &NetworkDispatcher,
    src: PathResolvable,
    dstv: ActorPathView,
    msg: M,
    r: RouteOutcome,
) -> bool {
    let srcv = pre.resolve_view(src);
    match dstv.sys().protocol {
        Transport::Local => post == pre && route_local_post(pre.store_map(), srcv, dstv, msg, r),
        Transport::Tcp => route_remote_post(pre, post, srcv, dstv, msg, r),
        Transport::Udp => post == pre && r is DroppedUnsupportedTransport,
    }
}

/// What folding one connection event promises: the table holds the reported
/// state; a transition into `Connected` first drains the pending queue in
/// order into the new channel, and a failing channel leaves the rest queued
/// with the peer marked `Closed`.
pub open spec fn on_conn_state_post(
    pre: &NetworkDispatcher,
    post: &NetworkDispatcher,
    addr: NetAddr,
    state: ConnectionState,
) -> bool {
    &&& post.store_map() == pre.store_map()
    &&& post.config() == pre.config()
    &&& post.own_id_spec() == pre.own_id_spec()
    &&& post.bound_addr() == pre.bound_addr()
    &&& post.is_poisoned() == pre.is_poisoned()
    &&& post.notify_ready_pending() == pre.notify_ready_pending()
    &&& post.reaper_state() == pre.reaper_state()
    &&& forall|b: NetAddr| b != addr ==> (#[trigger] post.queued_of(b)) == pre.queued_of(b)
    &&& forall|b: NetAddr| b != addr ==> (#[trigger] post.routed_of(b)) == pre.routed_of(b)
    &&& forall|b: NetAddr| b != addr ==> (#[trigger] post.delivered_to(b)) == pre.delivered_to(b)
    &&& post.routed_of(addr) == pre.routed_of(addr)
    &&& match state {
        ConnectionState::Connected(_) => {
            if pre.queued_of(addr).len() == 0 {
                &&& post.conn_map() == pre.conn_map().insert(addr, state)
                &&& post.queued_of(addr) == pre.queued_of(addr)
                &&& post.delivered_to(addr) == pre.delivered_to(addr)
            } else {
                &&& exists|d: Seq<FrameView>|
                    post.delivered_to(addr) == #[trigger] (pre.delivered_to(addr) + d) && d
                        + post.queued_of(addr) == pre.queued_of(addr)
                &&& {
                    ||| post.conn_map() == pre.conn_map().insert(addr, ConnectionState::Closed)
                    ||| (post.conn_map() == pre.conn_map().insert(addr, state) && post.queued_of(
                        addr,
                    ).len() == 0)
                }
            }
        },
        _ => {
            &&& post.conn_map() == pre.conn_map().insert(addr, state)
            &&& post.queued_of(addr) == pre.queued_of(addr)
            &&& post.delivered_to(addr) == pre.delivered_to(addr)
        },
    }
}

/// What one reaper step promises: the first call only marks the reaper
/// scheduled; a later call publishes the registry without its dead entries
/// and moves the interval one step, up when nothing was reaped and down
/// otherwise. The returned interval is the one now current.
pub open spec fn schedule_reaper_post(
    pre: &NetworkDispatcher,
    post: &NetworkDispatcher,
    ms: u64,
) -> bool {
    let st = pre.reaper_state().strategy();
    &&& post.config() == pre.config()
    &&& post.own_id_spec() == pre.own_id_spec()
    &&& post.bound_addr() == pre.bound_addr()
    &&& post.is_poisoned() == pre.is_poisoned()
    &&& post.notify_ready_pending() == pre.notify_ready_pending()
    &&& post.conn_map() == pre.conn_map()
    &&& forall|b: NetAddr| (#[trigger] post.queued_of(b)) == pre.queued_of(b)
    &&& forall|b: NetAddr| (#[trigger] post.routed_of(b)) == pre.routed_of(b)
    &&& forall|b: NetAddr| (#[trigger] post.delivered_to(b)) == pre.delivered_to(b)
    &&& post.reaper_state().is_scheduled_spec()
    &&& post.reaper_state().strategy().floor() == st.floor()
    &&& post.reaper_state().strategy().ceiling() == st.ceiling()
    &&& post.reaper_state().strategy().factor() == st.factor()
    &&& ms == post.reaper_state().strategy().curr()
    &&& if !pre.reaper_state().is_scheduled_spec() {
        &&& post.store_map() == pre.store_map()
        &&& post.reaper_state().strategy() == st
    } else {
        &&& post.store_map() == live_submap(pre.store_map())
        &&& post.reaper_state().strategy().curr() == if pre.store_map() == live_submap(
            pre.store_map(),
        ) {
            incr_step(st.curr(), st.factor(), st.ceiling())
        } else {
            decr_step(st.curr(), st.factor(), st.floor())
        }
    }
}

/// What the dispatcher owes on the envelope it receives.
pub open spec fn receive_requires<M: Serialisable>(
    pre: &NetworkDispatcher,
    env: &DispatchEnvelope<M>,
) -> bool {
    match env {
        DispatchEnvelope::Msg { src, dst, msg } => pre.started() && (dst@.sys().protocol
            == Transport::Local && pre.store_map().contains_key(dst@) && msg.local_form() is Some
            ==> pre.store_map().contains_key(pre.resolve_view(*src))),
        _ => true,
    }
}

/// What consuming one envelope promises, by its shape.
pub open spec fn receive_post<M: Serialisable>(
    pre: &NetworkDispatcher,
    post: &NetworkDispatcher,
    env: DispatchEnvelope<M>,
    r: DispatchOutcome,
) -> bool {
    match env {
        DispatchEnvelope::Msg { src, dst, msg } => r matches DispatchOutcome::Routed(o)
            && route_post(pre, post, src, dst@, msg, o),
        DispatchEnvelope::Registration(reg) => match reg {
            RegistrationEnvelope::Register { actor, path, with_promise } => {
                let step = register_spec(pre.store_map(), path@, actor);
                &&& post.conn_map() == pre.conn_map()
                &&& post.config() == pre.config()
                &&& post.own_id_spec() == pre.own_id_spec()
                &&& post.bound_addr() == pre.bound_addr()
                &&& post.is_poisoned() == pre.is_poisoned()
                &&& post.notify_ready_pending() == pre.notify_ready_pending()
                &&& forall|b: NetAddr| (#[trigger] post.queued_of(b)) == pre.queued_of(b)
                &&& forall|b: NetAddr| (#[trigger] post.routed_of(b)) == pre.routed_of(b)
                &&& forall|b: NetAddr| (#[trigger] post.delivered_to(b)) == pre.delivered_to(b)
                &&& post.store_map() == step.0
                &&& r matches DispatchOutcome::Registered { result, respond, reaper_interval_ms }
                    && result == step.1 && respond == with_promise && (if step.1 is Ok
                    && !pre.reaper_state().is_scheduled_spec() {
                    reaper_interval_ms == Some(pre.reaper_state().strategy().curr())
                        && post.reaper_state().is_scheduled_spec()
                        && post.reaper_state().strategy() == pre.reaper_state().strategy()
                } else {
                    reaper_interval_ms is None && post.reaper_state() == pre.reaper_state()
                })
            },
        },
        DispatchEnvelope::Event(ev) => match ev {
            EventEnvelope::Network(nev) => match nev {
                NetworkEvent::Connection(addr, state) => r is ConnectionUpdated
                    && on_conn_state_post(pre, post, addr, state),
                NetworkEvent::Data(_) => r is DataDropped && post == pre,
            },
        },
        DispatchEnvelope::Cast => r is CastRejected && post == pre,
    }
}

/// What `route_local` promises: the message reaches the registered local
/// actor through the typed fast path when it offers one, in serialised form
/// otherwise, and is dropped when the destination is unknown or serialisation
/// fails.
pub open spec fn route_local_post<M: Serialisable>(
    m: Map<ActorPathView, ActorRef>,
    src: ActorPathView,
    dst: ActorPathView,
    msg: M,
    r: RouteOutcome,
) -> bool {
    if !m.contains_key(dst) {
        r is DroppedUnknownDestination
    } else {
        match msg.local_form() {
            Some(tv) => r == (RouteOutcome::TellLocal { dst: m[dst], src: m[src], value: tv }),
            None => if msg.ser_ok() {
                r matches RouteOutcome::EnqueueLocal { dst: d, envelope } && d == m[dst]
                    && envelope.src@ == src && envelope.dst@ == dst && envelope.ser_id
                    == msg.id_spec() && envelope.body@ == msg.ser_bytes()
            } else {
                r is DroppedSerialisationError
            },
        }
    }
}

/// Everything `route_remote` leaves alone: identity, registry, reaper, and
/// the histories of other peers.
pub open spec fn route_remote_frame(
    pre: &NetworkDispatcher,
    post: &NetworkDispatcher,
    a: NetAddr,
) -> bool {
    &&& post.store_map() == pre.store_map()
    &&& post.config() == pre.config()
    &&& post.own_id_spec() == pre.own_id_spec()
    &&& post.bound_addr() == pre.bound_addr()
    &&& post.is_poisoned() == pre.is_poisoned()
    &&& post.notify_ready_pending() == pre.notify_ready_pending()
    &&& post.reaper_state() == pre.reaper_state()
    &&& forall|b: NetAddr| b != a ==> (#[trigger] post.queued_of(b)) == pre.queued_of(b)
    &&& forall|b: NetAddr| b != a ==> (#[trigger] post.routed_of(b)) == pre.routed_of(b)
    &&& forall|b: NetAddr| b != a ==> (#[trigger] post.delivered_to(b)) == pre.delivered_to(b)
}

/// What `route_remote` promises, by the peer's connection state: the frame
/// is queued (and a connection requested from `New` or `Closed`), sent
/// directly only when the queue is empty, drained in order behind the queue
/// otherwise, re-queued at the head on channel failure with the peer marked
/// `Closed`, and dropped only for a peer sitting in `Error`.
pub open spec fn route_remote_post<M: Serialisable>(
    pre: &NetworkDispatcher,
    post: &NetworkDispatcher,
    src: ActorPathView,
    dst: ActorPathView,
    msg: M,
    r: RouteOutcome,
) -> bool {
    let a = peer_addr_of(dst);
    let fv = FrameView {
        stream_id: 0,
        seq: 0,
        payload: spec_msg_payload(src, dst, msg.id_spec(), msg.ser_bytes()),
    };
    if !(crate::codec::spec_path_encodable(src) && crate::codec::spec_path_encodable(dst)
        && msg.ser_ok()) {
        r is DroppedSerialisationError && post == pre
    } else {
        &&& route_remote_frame(pre, post, a)
        &&& match pre.conn_of(a) {
            ConnectionState::New | ConnectionState::Closed => {
                &&& r == (RouteOutcome::Queued { addr: a, connect: true })
                &&& post.conn_map() == pre.conn_map().insert(a, ConnectionState::Initializing)
                &&& post.queued_of(a) == pre.queued_of(a).push(fv)
                &&& post.routed_of(a) == pre.routed_of(a).push(fv)
                &&& post.delivered_to(a) == pre.delivered_to(a)
            },
            ConnectionState::Initializing => {
                &&& r == (RouteOutcome::Queued { addr: a, connect: false })
                &&& post.conn_map() == pre.conn_map()
                &&& post.queued_of(a) == pre.queued_of(a).push(fv)
                &&& post.routed_of(a) == pre.routed_of(a).push(fv)
                &&& post.delivered_to(a) == pre.delivered_to(a)
            },
            ConnectionState::Connected(_) => {
                &&& post.routed_of(a) == pre.routed_of(a).push(fv)
                &&& if pre.queued_of(a).len() == 0 {
                    ||| {
                        &&& r == (RouteOutcome::Sent { addr: a })
                        &&& post.conn_map() == pre.conn_map()
                        &&& post.queued_of(a) == pre.queued_of(a)
                        &&& post.delivered_to(a) == pre.delivered_to(a).push(fv)
                    }
                    ||| {
                        &&& r == (RouteOutcome::SendFailedQueued { addr: a })
                        &&& post.conn_map() == pre.conn_map().insert(a, ConnectionState::Closed)
                        &&& post.queued_of(a) == pre.queued_of(a).push(fv)
                        &&& post.delivered_to(a) == pre.delivered_to(a)
                    }
                } else {
                    &&& exists|d: Seq<FrameView>|
                        post.delivered_to(a) == #[trigger] (pre.delivered_to(a) + d) && d
                            + post.queued_of(a) == pre.queued_of(a).push(fv)
                    &&& r matches RouteOutcome::Drained { addr, closed } && addr == a && (closed
                        ==> post.conn_map() == pre.conn_map().insert(a, ConnectionState::Closed))
                        && (!closed ==> post.conn_map() == pre.conn_map() && post.queued_of(
                        a,
                    ).len() == 0)
                }
            },
            ConnectionState::Error(_) => {
                &&& r == (RouteOutcome::DroppedPeerFaulted { addr: a })
                &&& post.conn_map() == pre.conn_map()
                &&& post.queued_of(a) == pre.queued_of(a)
                &&& post.routed_of(a) == pre.routed_of(a)
                &&& post.delivered_to(a) == pre.delivered_to(a)
            },
        }
    }
}

/// A freshly configured dispatcher: not started, not poisoned, empty
/// registry, connection table, queues and histories, the readiness promise
/// pending, and the reaper unscheduled at its floor interval.
pub open spec fn fresh_dispatcher_post(
    r: &NetworkDispatcher,
    cfg: NetworkConfig,
    own_id: u128,
) -> bool {
    &&& r.config() == cfg
    &&& r.own_id_spec() == own_id
    &&& !r.started()
    &&& !r.is_poisoned()
    &&& r.notify_ready_pending()
    &&& r.store_map() == Map::<ActorPathView, ActorRef>::empty()
    &&& r.conn_map() == Map::<NetAddr, ConnectionState>::empty()
    &&& !r.reaper_state().is_scheduled_spec()
    &&& r.reaper_state().strategy().curr() == crate::reaper::DEFAULT_FLOOR_MS
    &&& forall|a: NetAddr| (#[trigger] r.queued_of(a)) == Seq::<FrameView>::empty()
    &&& forall|a: NetAddr| (#[trigger] r.routed_of(a)) == Seq::<FrameView>::empty()
    &&& forall|a: NetAddr| (#[trigger] r.delivered_to(a)) == Seq::<FrameView>::empty()
}

/// For every sequence of registrations, at most one publication ever binds a
/// given path: a registration succeeds exactly on a fresh path, and a second
/// registration of the same path is rejected and publishes nothing.
pub proof fn lemma_at_most_one_publication(
    m: Map<ActorPathView, ActorRef>,
    path: ActorPathView,
    first: ActorRef,
    second: ActorRef,
)
    ensures
        register_spec(m, path, first).1 is Ok <==> !m.contains_key(path),
        register_spec(m, path, first).1 is Ok ==> register_spec(
            register_spec(m, path, first).0,
            path,
            second,
        ) == (
            register_spec(m, path, first).0,
            Result::<(), RegistrationError>::Err(RegistrationError::DuplicateEntry),
        ),
{
}

/// For every peer, the frames its channel has accepted are a prefix of the
/// frames the router committed for it: delivery is in order, with no
/// reordering and no duplication.
pub proof fn lemma_delivered_is_prefix_of_routed(d: &NetworkDispatcher, a: NetAddr)
    requires
        d.wf(),
    ensures
        d.delivered_to(a).is_prefix_of(d.routed_of(a)),
{
    assert(d.delivered_to(a) + d.queued_of(a) == d.routed_of(a));
    assert(d.routed_of(a).subrange(0, d.delivered_to(a).len() as int) =~= d.delivered_to(a));
}

/// No later registration disturbs an existing binding: whatever path it
/// names, the mapping at an already-bound path is unchanged.
pub proof fn lemma_registration_preserves_existing(
    m: Map<ActorPathView, ActorRef>,
    bound: ActorPathView,
    path: ActorPathView,
    actor: ActorRef,
)
    requires
        m.contains_key(bound),
    ensures
        register_spec(m, path, actor).0.contains_key(bound),
        register_spec(m, path, actor).0[bound] == m[bound],
{
}

/// After a successful registration, looking the path up in the published
/// mapping yields the registered reference.
pub proof fn lemma_lookup_after_register(
    m: Map<ActorPathView, ActorRef>,
    path: ActorPathView,
    actor: ActorRef,
)
    requires
        !m.contains_key(path),
    ensures
        register_spec(m, path, actor).0.contains_key(path),
        register_spec(m, path, actor).0[path] == actor,
{
}

/// A reap never removes a binding whose reference is still alive: lookups
/// keep returning the registered reference until it dies or is deregistered.
pub proof fn lemma_reap_keeps_live_binding(m: Map<ActorPathView, ActorRef>, path: ActorPathView)
    requires
        m.contains_key(path),
        m[path].alive,
    ensures
        live_submap(m).contains_key(path),
        live_submap(m)[path] == m[path],
{
}

} // verus!
