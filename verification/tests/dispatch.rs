use dispatch_core::dispatcher::{
    DispatchOutcome, NetworkConfig, NetworkDispatcher, RouteOutcome,
};
use dispatch_core::envelope::{
    ControlEvent, DispatchEnvelope, RegistrationEnvelope, RegistrationError,
};
use dispatch_core::net::{ConnectionState, EventEnvelope, Frame, IoErrKind, NetworkEvent};
use dispatch_core::path::{
    ActorPath, NamedPath, NetAddr, PathResolvable, SystemPath, Transport, UniquePath,
};
use dispatch_core::serialisation::{serialise_msg, SerError, Serialiser, TypedValue};
use dispatch_core::store::ActorRef;

use futures::stream::Stream;
use futures::sync::mpsc::unbounded;

const LOCALHOST: u32 = 0x7F000001;

fn local_sys(port: u16) -> SystemPath {
    SystemPath::new(Transport::Local, LOCALHOST, port)
}

fn unique_local(port: u16, id: u128) -> ActorPath {
    ActorPath::Unique(UniquePath::with_system(local_sys(port), id))
}

fn unique_tcp(ip: u32, port: u16, id: u128) -> ActorPath {
    ActorPath::Unique(UniquePath::new(Transport::Tcp, ip, port, id))
}

fn alias_path(sys: SystemPath, name: &str) -> ActorPath {
    ActorPath::Named(NamedPath::with_system(sys, vec![name.to_string()]))
}

fn started_dispatcher(port: u16) -> NetworkDispatcher {
    let mut d = NetworkDispatcher::with_config(
        NetworkConfig::new(NetAddr { ip: LOCALHOST, port }),
        1,
    );
    let fulfilled = d.start_completed(NetAddr { ip: LOCALHOST, port });
    assert!(fulfilled, "the first successful start fulfills the readiness promise");
    d
}

fn register(
    d: &mut NetworkDispatcher,
    actor: ActorRef,
    path: ActorPath,
) -> (Result<(), RegistrationError>, Option<u64>) {
    let env: DispatchEnvelope<TypedValue> = DispatchEnvelope::Registration(
        RegistrationEnvelope::Register { actor, path, with_promise: true },
    );
    match d.receive(env) {
        DispatchOutcome::Registered { result, respond, reaper_interval_ms } => {
            assert!(respond, "a promise was attached and must be answered");
            (result, reaper_interval_ms)
        }
        _ => panic!("registration must yield a registration outcome"),
    }
}

fn ping(i: u64) -> TypedValue {
    let mut data = Vec::new();
    dispatch_core::codec::put_u64_be(&mut data, i);
    TypedValue { type_id: 42, data }
}

fn route_msg(d: &mut NetworkDispatcher, src: ActorPath, dst: ActorPath, msg: TypedValue) -> RouteOutcome {
    match d.receive(DispatchEnvelope::Msg { src: PathResolvable::Path(src), dst, msg }) {
        DispatchOutcome::Routed(o) => o,
        _ => panic!("a message envelope must be routed"),
    }
}

#[test]
fn named_registration() {
    const ACTOR_NAME: &str = "ponger";
    let mut d = started_dispatcher(0);
    let sys = d.system_path();
    let ponger = ActorRef { id: 1, alive: true };

    let (res, _) = register(&mut d, ponger, alias_path(sys, ACTOR_NAME));
    assert!(res.is_ok(), "Single registration with unique alias should succeed.");

    let (res, _) = register(&mut d, ponger, alias_path(sys, ACTOR_NAME));
    assert_eq!(
        res,
        Err(RegistrationError::DuplicateEntry),
        "Duplicate alias registration should fail."
    );
}

#[test]
fn registration_is_visible_to_lookup() {
    let mut d = started_dispatcher(0);
    let ponger = ActorRef { id: 7, alive: true };
    let path = unique_local(8080, 100);
    let (res, _) = register(&mut d, ponger, path);
    assert!(res.is_ok());
    let lease = d.lease();
    assert_eq!(lease.get_by_actor_path(&unique_local(8080, 100)), Some(ponger));
    assert_eq!(lease.get_by_actor_path(&unique_local(8080, 101)), None);
}

#[test]
fn local_delivery() {
    const PING_COUNT: u64 = 10;
    let mut d = started_dispatcher(8080);
    let ponger_ref = ActorRef { id: 1, alive: true };
    let pinger_ref = ActorRef { id: 2, alive: true };
    let (res, _) = register(&mut d, ponger_ref, unique_local(8080, 100));
    assert!(res.is_ok(), "Ponger failed to register!");
    let (res, _) = register(&mut d, pinger_ref, unique_local(8080, 200));
    assert!(res.is_ok(), "Pinger failed to register!");

    let mut local_count: u64 = 0;
    let remote_count: u64 = 0;
    let mut i: u64 = 0;
    while i < PING_COUNT {
        // The pinger tells a ping to the ponger's local path.
        match route_msg(&mut d, unique_local(8080, 200), unique_local(8080, 100), ping(i)) {
            RouteOutcome::TellLocal { dst, src, value } => {
                assert_eq!(dst, ponger_ref);
                assert_eq!(src, pinger_ref);
                assert_eq!(value.type_id, 42);
            }
            _ => panic!("a registered local destination takes the typed fast path"),
        }
        // The ponger answers with a pong, which the pinger counts.
        match route_msg(&mut d, unique_local(8080, 100), unique_local(8080, 200), ping(i)) {
            RouteOutcome::TellLocal { dst, src, .. } => {
                assert_eq!(dst, pinger_ref);
                assert_eq!(src, ponger_ref);
                local_count += 1;
            }
            _ => panic!("a registered local destination takes the typed fast path"),
        }
        i += 1;
    }
    assert_eq!(local_count, PING_COUNT);
    assert_eq!(remote_count, 0);
}

#[test]
fn unknown_local_destination_drops() {
    let mut d = started_dispatcher(8080);
    match route_msg(&mut d, unique_local(8080, 200), unique_local(8080, 999), ping(0)) {
        RouteOutcome::DroppedUnknownDestination => (),
        _ => panic!("an unknown local destination drops the message"),
    }
}

#[test]
fn udp_destination_is_unsupported() {
    let mut d = started_dispatcher(8080);
    let dst = ActorPath::Unique(UniquePath::new(Transport::Udp, LOCALHOST, 9000, 5));
    match route_msg(&mut d, unique_local(8080, 200), dst, ping(0)) {
        RouteOutcome::DroppedUnsupportedTransport => (),
        _ => panic!("routing over an unsupported transport is rejected"),
    }
}

#[test]
fn system_path_after_start() {
    let mut d = NetworkDispatcher::with_config(
        NetworkConfig::new(NetAddr { ip: LOCALHOST, port: 0 }),
        1,
    );
    d.start_completed(NetAddr { ip: LOCALHOST, port: 4321 });
    assert_eq!(d.system_path(), SystemPath::new(Transport::Tcp, LOCALHOST, 4321));
}

#[test]
fn lifecycle_start_fulfills_readiness_once() {
    let mut d = NetworkDispatcher::with_config(
        NetworkConfig::new(NetAddr { ip: LOCALHOST, port: 0 }),
        1,
    );
    assert!(!d.handle(ControlEvent::Stop, None), "stopping fulfills nothing");
    let fulfilled = d.handle(
        ControlEvent::Start,
        Some(NetAddr { ip: LOCALHOST, port: 5000 }),
    );
    assert!(fulfilled, "a successful start fulfills the readiness promise");
    assert!(d.is_started());
    assert!(!d.handle(ControlEvent::Kill, None), "killing fulfills nothing");
}

#[test]
fn failed_start_via_handle_poisons_system() {
    let mut d = NetworkDispatcher::with_config(
        NetworkConfig::new(NetAddr { ip: LOCALHOST, port: 80 }),
        1,
    );
    let fulfilled = d.handle(ControlEvent::Start, None);
    assert!(!fulfilled);
    assert!(d.poisoned());
}

#[test]
fn failed_start_poisons_system() {
    let mut d = NetworkDispatcher::with_config(
        NetworkConfig::new(NetAddr { ip: LOCALHOST, port: 80 }),
        1,
    );
    assert!(!d.poisoned());
    d.start_failed();
    assert!(d.poisoned(), "System should not start correctly!");
    assert!(!d.is_started());
}

fn expected_payload(src: &ActorPath, dst: &ActorPath, msg: &TypedValue) -> Vec<u8> {
    serialise_msg(src, dst, msg).expect("these paths and messages serialise")
}

fn connect_event(addr: NetAddr, tx: futures::sync::mpsc::UnboundedSender<Frame>) -> DispatchEnvelope<TypedValue> {
    DispatchEnvelope::Event(EventEnvelope::Network(NetworkEvent::Connection(
        addr,
        ConnectionState::Connected(tx),
    )))
}

#[test]
fn remote_delivery_frames_in_order() {
    let mut d = started_dispatcher(8080);
    let peer = NetAddr { ip: 0x0A000001, port: 9000 };

    let mut expected: Vec<Vec<u8>> = Vec::new();
    for i in 0..3u64 {
        let src = unique_tcp(LOCALHOST, 8080, 200);
        let dst = unique_tcp(peer.ip, peer.port, 7);
        expected.push(expected_payload(&src, &dst, &ping(i)));
        let out = route_msg(&mut d, src, dst, ping(i));
        match (i, out) {
            (0, RouteOutcome::Queued { addr, connect: true }) => assert_eq!(addr, peer),
            (_, RouteOutcome::Queued { addr, connect: false }) => assert_eq!(addr, peer),
            _ => panic!("frames queue while the connection is initializing"),
        }
    }

    let (tx, rx) = unbounded::<Frame>();
    match d.receive(connect_event(peer, tx)) {
        DispatchOutcome::ConnectionUpdated => (),
        _ => panic!("a connection event updates the table"),
    }
    drop(d);

    let frames: Vec<Frame> = rx.wait().map(|r| r.expect("stream item")).collect();
    assert_eq!(frames.len(), 3);
    for (i, f) in frames.iter().enumerate() {
        assert_eq!(f.stream_id, 0);
        assert_eq!(f.seq, 0);
        assert_eq!(f.payload, expected[i], "frames arrive in enqueue order");
    }
}

#[test]
fn remote_delivery_to_named_path() {
    let mut d = started_dispatcher(8080);
    let peer = NetAddr { ip: 0x0A000002, port: 9001 };
    let remote_sys = SystemPath::new(Transport::Tcp, peer.ip, peer.port);
    let src = unique_tcp(LOCALHOST, 8080, 200);
    let dst = alias_path(remote_sys, "custom_name");
    let want = expected_payload(
        &unique_tcp(LOCALHOST, 8080, 200),
        &alias_path(remote_sys, "custom_name"),
        &ping(0),
    );

    match route_msg(&mut d, src, dst, ping(0)) {
        RouteOutcome::Queued { addr, connect: true } => assert_eq!(addr, peer),
        _ => panic!("the first remote message requests a connection"),
    }

    let (tx, rx) = unbounded::<Frame>();
    d.receive(connect_event(peer, tx));
    drop(d);
    let frames: Vec<Frame> = rx.wait().map(|r| r.expect("stream item")).collect();
    assert_eq!(frames.len(), 1);
    assert_eq!(frames[0].payload, want);
}

#[test]
fn backpressure_preserves_order() {
    const COUNT: u64 = 100;
    let mut d = started_dispatcher(8080);
    let peer = NetAddr { ip: 0x0A000003, port: 9002 };
    let mut expected: Vec<Vec<u8>> = Vec::new();

    for i in 0..COUNT {
        let src = unique_tcp(LOCALHOST, 8080, 200);
        let dst = unique_tcp(peer.ip, peer.port, 7);
        expected.push(expected_payload(&src, &dst, &ping(i)));
        route_msg(&mut d, src, dst, ping(i));
    }

    let (tx, rx) = unbounded::<Frame>();
    d.receive(connect_event(peer, tx));
    drop(d);

    let frames: Vec<Frame> = rx.wait().map(|r| r.expect("stream item")).collect();
    assert_eq!(frames.len(), COUNT as usize);
    for (i, f) in frames.iter().enumerate() {
        assert_eq!(f.payload, expected[i], "the first {} frames arrive in order", COUNT);
    }
}

#[test]
fn failed_sender_requeues_and_closes() {
    const COUNT: u64 = 100;
    let mut d = started_dispatcher(8080);
    let peer = NetAddr { ip: 0x0A000004, port: 9003 };
    let mut expected: Vec<Vec<u8>> = Vec::new();

    for i in 0..COUNT {
        let src = unique_tcp(LOCALHOST, 8080, 200);
        let dst = unique_tcp(peer.ip, peer.port, 7);
        expected.push(expected_payload(&src, &dst, &ping(i)));
        route_msg(&mut d, src, dst, ping(i));
    }

    // The receive end is gone before the drain starts: the first send fails,
    // every frame stays queued, and the peer is marked closed.
    let (dead_tx, dead_rx) = unbounded::<Frame>();
    drop(dead_rx);
    d.receive(connect_event(peer, dead_tx));

    // A closed peer behaves like a fresh one: the next message queues behind
    // the others and asks for a new connection.
    let src = unique_tcp(LOCALHOST, 8080, 200);
    let dst = unique_tcp(peer.ip, peer.port, 7);
    expected.push(expected_payload(&src, &dst, &ping(COUNT)));
    match route_msg(&mut d, src, dst, ping(COUNT)) {
        RouteOutcome::Queued { addr, connect: true } => assert_eq!(addr, peer),
        _ => panic!("a closed peer requests a fresh connection"),
    }

    // A usable connection then delivers everything, still in enqueue order.
    let (tx, rx) = unbounded::<Frame>();
    d.receive(connect_event(peer, tx));
    drop(d);
    let frames: Vec<Frame> = rx.wait().map(|r| r.expect("stream item")).collect();
    assert_eq!(frames.len(), (COUNT + 1) as usize);
    for (i, f) in frames.iter().enumerate() {
        assert_eq!(f.payload, expected[i], "no frame is lost, reordered or duplicated");
    }
}

#[test]
fn alias_and_system_sources_resolve_under_this_system() {
    let mut d = started_dispatcher(8080);
    let peer = NetAddr { ip: 0x0A000006, port: 9005 };
    let dst = unique_tcp(peer.ip, peer.port, 7);

    // An alias resolves to a named path under the dispatcher's own system.
    let env = DispatchEnvelope::Msg {
        src: PathResolvable::Alias("pinger".to_string()),
        dst,
        msg: ping(0),
    };
    match d.receive(env) {
        DispatchOutcome::Routed(RouteOutcome::Queued { addr, connect: true }) => {
            assert_eq!(addr, peer)
        }
        _ => panic!("the first remote message queues and requests a connection"),
    }

    // The system designator resolves to the dispatcher's own unique path.
    let env = DispatchEnvelope::Msg {
        src: PathResolvable::System,
        dst: unique_tcp(peer.ip, peer.port, 7),
        msg: ping(1),
    };
    match d.receive(env) {
        DispatchOutcome::Routed(RouteOutcome::Queued { addr, connect: false }) => {
            assert_eq!(addr, peer)
        }
        _ => panic!("while initializing, later messages only queue"),
    }

    let own_sys = d.system_path();
    let want0 = expected_payload(
        &alias_path(own_sys, "pinger"),
        &unique_tcp(peer.ip, peer.port, 7),
        &ping(0),
    );
    let want1 = expected_payload(
        // The dispatcher was built with actor id 1.
        &ActorPath::Unique(UniquePath::with_system(own_sys, 1)),
        &unique_tcp(peer.ip, peer.port, 7),
        &ping(1),
    );

    let (tx, rx) = unbounded::<Frame>();
    d.receive(connect_event(peer, tx));
    drop(d);
    let frames: Vec<Frame> = rx.wait().map(|r| r.expect("stream item")).collect();
    assert_eq!(frames.len(), 2);
    assert_eq!(frames[0].payload, want0);
    assert_eq!(frames[1].payload, want1);
}

#[test]
fn faulted_peer_drops_messages() {
    let mut d = started_dispatcher(8080);
    let peer = NetAddr::from_octets(10, 0, 0, 5, 9004);
    let err_event: DispatchEnvelope<TypedValue> = DispatchEnvelope::Event(EventEnvelope::Network(
        NetworkEvent::Connection(peer, ConnectionState::Error(IoErrKind::ConnectionRefused)),
    ));
    match d.receive(err_event) {
        DispatchOutcome::ConnectionUpdated => (),
        _ => panic!("a connection event updates the table"),
    }
    let src = unique_tcp(LOCALHOST, 8080, 200);
    let dst = unique_tcp(peer.ip, peer.port, 7);
    match route_msg(&mut d, src, dst, ping(0)) {
        RouteOutcome::DroppedPeerFaulted { addr } => assert_eq!(addr, peer),
        _ => panic!("a faulted peer neither queues nor sends"),
    }
}

#[test]
fn reaper_interval_adapts() {
    let mut d = started_dispatcher(8080);
    let live = ActorRef { id: 1, alive: true };
    let (res, interval) = register(&mut d, live, unique_local(8080, 100));
    assert!(res.is_ok());
    assert_eq!(interval, Some(100), "the first registration schedules the reaper at the floor");

    // Nothing to reap: the interval doubles up to the ceiling.
    let expected = [200u64, 400, 800, 1600, 3200, 6400, 10000, 10000];
    for want in expected {
        assert_eq!(d.schedule_reaper(), want);
    }

    // A dead reference is reaped and the interval tightens again.
    let dead = ActorRef { id: 9, alive: false };
    let (res, interval) = register(&mut d, dead, unique_local(8080, 900));
    assert!(res.is_ok());
    assert_eq!(interval, None, "later registrations do not re-schedule the reaper");
    assert_eq!(d.schedule_reaper(), 5000);

    let lease = d.lease();
    assert_eq!(lease.get_by_actor_path(&unique_local(8080, 900)), None);
    assert_eq!(lease.get_by_actor_path(&unique_local(8080, 100)), Some(live));
}

struct RawSer;

impl Serialiser<u64> for RawSer {
    fn id(&self) -> u64 {
        77
    }

    fn serialise(&self, v: &u64, buf: &mut Vec<u8>) -> Result<(), SerError> {
        dispatch_core::codec::put_u64_be(buf, *v);
        Ok(())
    }
}

#[test]
fn local_delivery_without_typed_form_enqueues_envelope() {
    let mut d = started_dispatcher(8080);
    let ponger_ref = ActorRef { id: 1, alive: true };
    let (res, _) = register(&mut d, ponger_ref, unique_local(8080, 100));
    assert!(res.is_ok());

    let msg = dispatch_core::serialisation::SerialisableValue { v: 5u64, ser: RawSer };
    let env = DispatchEnvelope::Msg {
        src: PathResolvable::Path(unique_local(8080, 200)),
        dst: unique_local(8080, 100),
        msg,
    };
    match d.receive(env) {
        DispatchOutcome::Routed(RouteOutcome::EnqueueLocal { dst, envelope }) => {
            assert_eq!(dst, ponger_ref);
            assert_eq!(envelope.ser_id, 77);
            assert_eq!(envelope.body, vec![0, 0, 0, 0, 0, 0, 0, 5]);
        }
        _ => panic!("a message without a typed form is delivered serialised"),
    }
}

#[test]
fn cast_and_stray_data_are_rejected() {
    let mut d = started_dispatcher(8080);
    let cast: DispatchEnvelope<TypedValue> = DispatchEnvelope::Cast;
    match d.receive(cast) {
        DispatchOutcome::CastRejected => (),
        _ => panic!("casts are not expected at this layer"),
    }
    let data: DispatchEnvelope<TypedValue> = DispatchEnvelope::Event(EventEnvelope::Network(
        NetworkEvent::Data(vec![1, 2, 3]),
    ));
    match d.receive(data) {
        DispatchOutcome::DataDropped => (),
        _ => panic!("stray data events are dropped"),
    }
}
