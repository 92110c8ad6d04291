//! The network-aware dispatch core of an actor runtime, with its behaviour
//! stated in contracts and proved.
//!
//! The core owns three tightly coupled concerns:
//!
//! * a registry mapping actor paths to live references, read through leases
//!   and published whole by read-copy-update, with a background reaper that
//!   sweeps dead references on a self-tuning interval;
//! * a router that resolves each outbound message to local or remote
//!   delivery, hands local messages over typed or serialised, and turns
//!   remote ones into data frames;
//! * a per-peer connection state machine with FIFO frame queues that absorb
//!   messages while a connection is established and drain in order once the
//!   peer's channel is usable.
//!
//! The dispatcher decides; socket work (binding, connecting, timers, actual
//! delivery into mailboxes) belongs to the embedding runtime, which performs
//! what each [`dispatcher::DispatchOutcome`] asks for. The central invariant,
//! kept by every operation and stated in
//! [`dispatcher::lemma_delivered_is_prefix_of_routed`], is that for every
//! peer the frames its channel accepted are a prefix of the frames the
//! router committed, in order, with the difference still queued.

pub mod assoc;
pub mod codec;
pub mod dispatcher;
pub mod envelope;
pub mod net;
pub mod path;
pub mod queue;
pub mod registry;
pub mod reaper;
pub mod serialisation;
pub mod store;
