//! The polymorphic serialisation contract: errors, the serialiser and
//! deserialiser traits, and the composition of a value with its serialiser.

use vstd::prelude::*;

use crate::codec::{
    encode_path, put_u64_be, spec_encode_path, spec_path_encodable, spec_u64_be, ByteReader,
};
use crate::envelope::ReceivedEnvelope;
use crate::path::{ActorPath, ActorPathView};

verus! {

/// Why serialisation or deserialisation failed.
#[derive(Debug, PartialEq, Eq)]
pub enum SerError {
    InvalidData(String),
    InvalidType(String),
    Unknown(String),
}

/// The in-process typed form of a message: its type id and its owned payload.
/// This is the value a local typed delivery hands to the destination actor.
pub struct TypedValue {
    pub type_id: u64,
    pub data: Vec<u8>,
}

/// Binds a type `T` to a wire format. `ser_bytes` is the byte image the
/// serialiser promises to write; `serialise` appends exactly that image on
/// success, and `ser_ok` says on which values it succeeds.
pub trait Serialiser<T>: Sized {
    open spec fn id_spec(&self) -> u64 {
        0
    }

    open spec fn ser_ok(&self, v: &T) -> bool {
        true
    }

    open spec fn ser_bytes(&self, v: &T) -> Seq<u8> {
        Seq::empty()
    }

    fn id(&self) -> (r: u64)
        ensures
            r == self.id_spec(),
    ;

    fn size_hint(&self) -> (r: Option<usize>) {
        None
    }

    fn serialise(&self, v: &T, buf: &mut Vec<u8>) -> (r: Result<(), SerError>)
        ensures
            r is Ok <==> self.ser_ok(v),
            r is Ok ==> final(buf)@ == old(buf)@ + self.ser_bytes(v),
    ;
}

/// A self-describing serialisable value: it knows its serialiser id, the
/// bytes it writes, and optionally its in-process typed form for the local
/// delivery fast path.
pub trait Serialisable: Sized {
    open spec fn id_spec(&self) -> u64 {
        0
    }

    open spec fn ser_ok(&self) -> bool {
        true
    }

    open spec fn ser_bytes(&self) -> Seq<u8> {
        Seq::empty()
    }

    /// The in-process form this value can short-circuit to, if any.
    open spec fn local_form(&self) -> Option<TypedValue> {
        None
    }

    fn id(&self) -> (r: u64)
        ensures
            r == self.id_spec(),
    ;

    fn size_hint(&self) -> (r: Option<usize>) {
        None
    }

    fn serialise(&self, buf: &mut Vec<u8>) -> (r: Result<(), SerError>)
        ensures
            r is Ok <==> self.ser_ok(),
            r is Ok ==> final(buf)@ == old(buf)@ + self.ser_bytes(),
    ;

    /// Recovers the original typed value for in-process delivery, or hands
    /// the value back when no such short-circuit exists.
    fn local(self) -> (r: Result<TypedValue, Self>)
        ensures
            match r {
                Ok(tv) => self.local_form() == Some(tv),
                Err(v) => v == self && self.local_form() is None,
            },
    ;
}

/// A typed value is serialisable as itself: its payload is its byte image and
/// it always offers itself for in-process delivery.
impl Serialisable for TypedValue {
    open spec fn id_spec(&self) -> u64 {
        self.type_id
    }

    open spec fn ser_ok(&self) -> bool {
        true
    }

    open spec fn ser_bytes(&self) -> Seq<u8> {
        self.data@
    }

    open spec fn local_form(&self) -> Option<TypedValue> {
        Some(*self)
    }

    fn id(&self) -> (r: u64) {
        self.type_id
    }

    fn serialise(&self, buf: &mut Vec<u8>) -> (r: Result<(), SerError>) {
        crate::codec::put_bytes(buf, self.data.as_slice());
        Ok(())
    }

    fn local(self) -> (r: Result<TypedValue, Self>) {
        Ok(self)
    }
}

/// A value paired with a serialiser for it, composed into one serialisable.
pub struct SerialisableValue<T, S: Serialiser<T>> {
    pub v: T,
    pub ser: S,
}

impl<T, S: Serialiser<T>> Serialisable for SerialisableValue<T, S> {
    open spec fn id_spec(&self) -> u64 {
        self.ser.id_spec()
    }

    open spec fn ser_ok(&self) -> bool {
        self.ser.ser_ok(&self.v)
    }

    open spec fn ser_bytes(&self) -> Seq<u8> {
        self.ser.ser_bytes(&self.v)
    }

    open spec fn local_form(&self) -> Option<TypedValue> {
        None
    }

    fn id(&self) -> (r: u64) {
        self.ser.id()
    }

    fn size_hint(&self) -> (r: Option<usize>) {
        self.ser.size_hint()
    }

    fn serialise(&self, buf: &mut Vec<u8>) -> (r: Result<(), SerError>) {
        self.ser.serialise(&self.v, buf)
    }

    fn local(self) -> (r: Result<TypedValue, Self>) {
        Err(self)
    }
}

/// Consumes a byte cursor and yields a `T`.
pub trait Deserialiser<T> {
    fn deserialise(buf: &mut ByteReader) -> (r: Result<T, SerError>)
        requires
            old(buf).wf(),
        ensures
            final(buf).wf(),
    ;
}

/// Something that can be turned into a deserialised `T`.
pub trait Deserialisable<T>: Sized {
    /// Whether this carrier knows a serialiser id.
    spec fn has_id(&self) -> bool;

    /// The value this carrier deserialises to, when it succeeds.
    spec fn deserialised(self) -> Result<T, SerError>;

    fn id(&self) -> (r: u64)
        requires
            self.has_id(),
    ;

    fn get_deserialised(self) -> (r: Result<T, SerError>)
        ensures
            r == self.deserialised(),
    ;
}

/// Trivial identity: a `T` deserialises to itself.
impl<T> Deserialisable<T> for T {
    open spec fn has_id(&self) -> bool {
        false
    }

    open spec fn deserialised(self) -> Result<T, SerError> {
        Ok(self)
    }

    fn id(&self) -> (r: u64) {
        0
    }

    fn get_deserialised(self) -> (r: Result<T, SerError>) {
        Ok(self)
    }
}

/// Trivial heap-to-stack: a boxed `T` deserialises to its contents.
impl<T> Deserialisable<T> for Box<T> {
    open spec fn has_id(&self) -> bool {
        false
    }

    open spec fn deserialised(self) -> Result<T, SerError> {
        Ok(*self)
    }

    fn id(&self) -> (r: u64) {
        0
    }

    fn get_deserialised(self) -> (r: Result<T, SerError>) {
        Ok(*self)
    }
}

/// The wire payload of an outbound message: source path, destination path,
/// serialiser id, then the message's own byte image.
pub open spec fn spec_msg_payload(
    src: ActorPathView,
    dst: ActorPathView,
    ser_id: u64,
    body: Seq<u8>,
) -> Seq<u8> {
    spec_encode_path(src) + spec_encode_path(dst) + spec_u64_be(ser_id) + body
}

/// Serialises an outbound message into the payload of a data frame. Fails
/// exactly when a path overflows its wire fields or the message's own
/// serialiser fails.
pub fn serialise_msg<M: Serialisable>(src: &ActorPath, dst: &ActorPath, msg: &M) -> (r: Result<
    Vec<u8>,
    SerError,
>)
    ensures
        r is Ok <==> spec_path_encodable(src@) && spec_path_encodable(dst@) && msg.ser_ok(),
        r matches Ok(p) ==> p@ == spec_msg_payload(src@, dst@, msg.id_spec(), msg.ser_bytes()),
{
    let mut buf: Vec<u8> = Vec::new();
    match encode_path(&mut buf, src) {
        Ok(_) => (),
        Err(e) => {
            return Err(e);
        }
    }
    match encode_path(&mut buf, dst) {
        Ok(_) => (),
        Err(e) => {
            return Err(e);
        }
    }
    put_u64_be(&mut buf, msg.id());
    match msg.serialise(&mut buf) {
        Ok(_) => (),
        Err(e) => {
            return Err(e);
        }
    }
    Ok(buf)
}

/// Wraps a message for a local actor that offers no in-process typed form:
/// the message is serialised and handed over with its addressing intact.
pub fn serialise_to_recv_envelope<M: Serialisable>(src: ActorPath, dst: ActorPath, msg: M) -> (r:
    Result<ReceivedEnvelope, SerError>)
    ensures
        r is Ok <==> msg.ser_ok(),
        r matches Ok(env) ==> {
            &&& env.src == src
            &&& env.dst == dst
            &&& env.ser_id == msg.id_spec()
            &&& env.body@ == msg.ser_bytes()
        },
{
    let ser_id = msg.id();
    let mut body: Vec<u8> = Vec::new();
    match msg.serialise(&mut body) {
        Ok(_) => (),
        Err(e) => {
            return Err(e);
        }
    }
    Ok(ReceivedEnvelope { src, dst, ser_id, body })
}

} // verus!
