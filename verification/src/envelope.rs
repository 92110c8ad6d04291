//! The shapes the dispatcher consumes: dispatch envelopes, registration
//! requests, lifecycle events, and the serialised envelope handed to a local
//! actor without an in-process fast path.

use vstd::prelude::*;

use crate::net::EventEnvelope;
use crate::path::{ActorPath, PathResolvable};
use crate::store::ActorRef;

verus! {

/// Why a registration was rejected.
#[derive(Clone, Copy, PartialEq, Eq, Structural, Debug)]
pub enum RegistrationError {
    DuplicateEntry,
}

/// A request to bind an actor reference to a path. `with_promise` says
/// whether a caller awaits the result and must be answered.
pub enum RegistrationEnvelope {
    Register { actor: ActorRef, path: ActorPath, with_promise: bool },
}

/// The dispatcher's single inbound shape.
pub enum DispatchEnvelope<M> {
    /// An outbound message to route.
    Msg { src: PathResolvable, dst: ActorPath, msg: M },
    /// A registry mutation.
    Registration(RegistrationEnvelope),
    /// A transport event.
    Event(EventEnvelope),
    /// A component cast; not expected at this layer.
    Cast,
}

/// Lifecycle events the owning system delivers.
#[derive(Clone, Copy, PartialEq, Eq, Structural, Debug)]
pub enum ControlEvent {
    Start,
    Stop,
    Kill,
}

/// A serialised message as a local actor receives it when no in-process
/// typed form exists.
pub struct ReceivedEnvelope {
    pub src: ActorPath,
    pub dst: ActorPath,
    pub ser_id: u64,
    pub body: Vec<u8>,
}

} // verus!
