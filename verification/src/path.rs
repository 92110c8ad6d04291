//! Location-transparent actor addressing: transports, system paths, and the
//! two actor path variants (unique id or named segments).

use vstd::prelude::*;

verus! {

/// Transport protocol selector for a system path.
#[derive(Clone, Copy, PartialEq, Eq, Structural, Debug)]
pub enum Transport {
    Local,
    Tcp,
    Udp,
}

/// A peer socket address: an IPv4 address held as its 32-bit value, plus a port.
#[derive(Clone, Copy, PartialEq, Eq, Structural, Debug)]
pub struct NetAddr {
    pub ip: u32,
    pub port: u16,
}

impl NetAddr {
    /// Builds an address from the four dotted-quad octets and a port.
    pub fn from_octets(a: u8, b: u8, c: u8, d: u8, port: u16) -> (r: NetAddr)
        ensures
            r.ip == ((a as u32) << 24 | (b as u32) << 16 | (c as u32) << 8 | (d as u32)),
            r.port == port,
    {
        NetAddr { ip: (a as u32) << 24 | (b as u32) << 16 | (c as u32) << 8 | (d as u32), port }
    }
}

/// Identifies a host system: transport, address, and port. Equality is structural.
#[derive(Clone, Copy, PartialEq, Eq, Structural, Debug)]
pub struct SystemPath {
    pub protocol: Transport,
    pub ip: u32,
    pub port: u16,
}

impl SystemPath {
    pub fn new(protocol: Transport, ip: u32, port: u16) -> (r: SystemPath)
        ensures
            r == (SystemPath { protocol, ip, port }),
    {
        SystemPath { protocol, ip, port }
    }

    /// The peer address this system listens on.
    pub fn addr(&self) -> (r: NetAddr)
        ensures
            r == (NetAddr { ip: self.ip, port: self.port }),
    {
        NetAddr { ip: self.ip, port: self.port }
    }

    pub fn protocol(&self) -> (r: Transport)
        ensures
            r == self.protocol,
    {
        self.protocol
    }
}

/// The mathematical form of a segment list: each segment as its character sequence.
pub open spec fn segments_view(segs: Seq<String>) -> Seq<Seq<char>> {
    segs.map_values(|s: String| s@)
}

/// Mathematical form of an actor path.
pub enum ActorPathView {
    Unique { sys: SystemPath, id: u128 },
    Named { sys: SystemPath, segments: Seq<Seq<char>> },
}

impl ActorPathView {
    pub open spec fn sys(self) -> SystemPath {
        match self {
            ActorPathView::Unique { sys, .. } => sys,
            ActorPathView::Named { sys, .. } => sys,
        }
    }
}

/// A path addressing an actor by its opaque 128-bit identifier.
pub struct UniquePath {
    pub sys: SystemPath,
    pub id: u128,
}

impl UniquePath {
    pub fn new(protocol: Transport, ip: u32, port: u16, id: u128) -> (r: UniquePath)
        ensures
            r.sys == (SystemPath { protocol, ip, port }),
            r.id == id,
    {
        UniquePath { sys: SystemPath { protocol, ip, port }, id }
    }

    pub fn with_system(sys: SystemPath, id: u128) -> (r: UniquePath)
        ensures
            r.sys == sys,
            r.id == id,
    {
        UniquePath { sys, id }
    }
}

/// A path addressing an actor by an ordered sequence of name segments.
pub struct NamedPath {
    pub sys: SystemPath,
    pub segments: Vec<String>,
}

impl NamedPath {
    pub fn with_system(sys: SystemPath, segments: Vec<String>) -> (r: NamedPath)
        ensures
            r.sys == sys,
            r.segments == segments,
    {
        NamedPath { sys, segments }
    }
}

/// Location-transparent identifier of an actor.
pub enum ActorPath {
    Unique(UniquePath),
    Named(NamedPath),
}

impl View for ActorPath {
    type V = ActorPathView;

    open spec fn view(&self) -> ActorPathView {
        match self {
            ActorPath::Unique(u) => ActorPathView::Unique { sys: u.sys, id: u.id },
            ActorPath::Named(n) => ActorPathView::Named {
                sys: n.sys,
                segments: segments_view(n.segments@),
            },
        }
    }
}

impl ActorPath {
    /// The system component of this path.
    pub fn system(&self) -> (r: SystemPath)
        ensures
            r == self@.sys(),
    {
        match self {
            ActorPath::Unique(u) => u.sys,
            ActorPath::Named(n) => n.sys,
        }
    }
}

/// Decides structural equality of two paths, at the level of their views.
pub fn path_eq(a: &ActorPath, b: &ActorPath) -> (r: bool)
    ensures
        r == (a@ == b@),
{
    match (a, b) {
        (ActorPath::Unique(ua), ActorPath::Unique(ub)) => {
            ua.sys == ub.sys && ua.id == ub.id
        }
        (ActorPath::Named(na), ActorPath::Named(nb)) => {
            if na.sys != nb.sys {
                false
            } else {
                segments_eq(&na.segments, &nb.segments)
            }
        }
        _ => false,
    }
}

/// Decides elementwise equality of two segment lists, at the level of their views.
fn segments_eq(a: &Vec<String>, b: &Vec<String>) -> (r: bool)
    ensures
        r == (segments_view(a@) == segments_view(b@)),
{
    let ghost av = segments_view(a@);
    let ghost bv = segments_view(b@);
    if a.len() != b.len() {
        assert(av.len() != bv.len());
        return false;
    }
    let n = a.len();
    for i in 0..n
        invariant
            n == a.len() == b.len(),
            av == segments_view(a@),
            bv == segments_view(b@),
            forall|j: int| 0 <= j < i ==> av[j] == bv[j],
    {
        let sa: &String = &a[i];
        if !sa.eq(&b[i]) {
            assert(av[i as int] != bv[i as int]);
            return false;
        }
    }
    proof {
        assert(av =~~= bv);
    }
    true
}

/// A source designator that the router resolves to an actor path.
pub enum PathResolvable {
    /// An explicit path.
    Path(ActorPath),
    /// A symbolic alias, resolved as a named path under this system.
    Alias(String),
    /// An actor id, resolved as a unique path under this system.
    ActorId(u128),
    /// The dispatcher's own path.
    System,
}

} // verus!
