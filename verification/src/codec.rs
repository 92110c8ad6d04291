//! Byte-level encoding primitives for the wire payload, a cursor for reading
//! them back, and the helper that serialises an outbound message into the
//! payload of a data frame.

use vstd::prelude::*;

use crate::path::{segments_view, ActorPath, ActorPathView, SystemPath, Transport};

verus! {

/// Big-endian byte image of a 16-bit value.
pub open spec fn spec_u16_be(v: u16) -> Seq<u8> {
    seq![(v >> 8) as u8, v as u8]
}

/// Big-endian byte image of a 32-bit value.
pub open spec fn spec_u32_be(v: u32) -> Seq<u8> {
    seq![(v >> 24) as u8, (v >> 16) as u8, (v >> 8) as u8, v as u8]
}

/// Big-endian byte image of a 64-bit value.
pub open spec fn spec_u64_be(v: u64) -> Seq<u8> {
    seq![
        (v >> 56) as u8,
        (v >> 48) as u8,
        (v >> 40) as u8,
        (v >> 32) as u8,
        (v >> 24) as u8,
        (v >> 16) as u8,
        (v >> 8) as u8,
        v as u8,
    ]
}

/// Big-endian byte image of a 128-bit value.
pub open spec fn spec_u128_be(v: u128) -> Seq<u8> {
    spec_u64_be((v >> 64) as u64) + spec_u64_be(v as u64)
}

/// The 16-bit value read back from two big-endian bytes.
pub open spec fn spec_u16_from_be(s: Seq<u8>) -> u16
    recommends
        s.len() == 2,
{
    ((s[0] as u16) << 8 | (s[1] as u16)) as u16
}

/// The 32-bit value read back from four big-endian bytes.
pub open spec fn spec_u32_from_be(s: Seq<u8>) -> u32
    recommends
        s.len() == 4,
{
    ((s[0] as u32) << 24 | (s[1] as u32) << 16 | (s[2] as u32) << 8 | (s[3] as u32)) as u32
}

/// The 64-bit value read back from eight big-endian bytes.
pub open spec fn spec_u64_from_be(s: Seq<u8>) -> u64 {
    ((s[0] as u64) << 56 | (s[1] as u64) << 48 | (s[2] as u64) << 40 | (s[3] as u64) << 32
        | (s[4] as u64) << 24 | (s[5] as u64) << 16 | (s[6] as u64) << 8 | (s[7] as u64)) as u64
}

/// The 128-bit value read back from sixteen big-endian bytes.
pub open spec fn spec_u128_from_be(s: Seq<u8>) -> u128
    recommends
        s.len() == 16,
{
    (spec_u64_from_be(s.take(8)) as u128) << 64 | (spec_u64_from_be(s.skip(8)) as u128)
}

/// Reading back two big-endian bytes recovers the encoded 16-bit value.
pub proof fn lemma_u16_be_round_trip(v: u16)
    ensures
        spec_u16_from_be(spec_u16_be(v)) == v,
{
    assert(((v >> 8) as u8 as u16) << 8 | (v as u8 as u16) == v) by (bit_vector);
}

/// Reading back eight big-endian bytes recovers the encoded 64-bit value.
pub proof fn lemma_u64_be_round_trip(v: u64)
    ensures
        spec_u64_from_be(spec_u64_be(v)) == v,
{
    assert(((v >> 56) as u8 as u64) << 56 | ((v >> 48) as u8 as u64) << 48 | ((v >> 40) as u8
        as u64) << 40 | ((v >> 32) as u8 as u64) << 32 | ((v >> 24) as u8 as u64) << 24 | ((v >> 16)
        as u8 as u64) << 16 | ((v >> 8) as u8 as u64) << 8 | (v as u8 as u64) == v)
        by (bit_vector);
}

/// Reading back four big-endian bytes recovers the encoded 32-bit value.
pub proof fn lemma_u32_be_round_trip(v: u32)
    ensures
        spec_u32_from_be(spec_u32_be(v)) == v,
{
    assert(((v >> 24) as u8 as u32) << 24 | ((v >> 16) as u8 as u32) << 16 | ((v >> 8) as u8
        as u32) << 8 | (v as u8 as u32) == v) by (bit_vector);
}

/// Reading back sixteen big-endian bytes recovers the encoded 128-bit value.
pub proof fn lemma_u128_be_round_trip(v: u128)
    ensures
        spec_u128_from_be(spec_u128_be(v)) == v,
{
    let hi = (v >> 64) as u64;
    let lo = v as u64;
    assert(spec_u128_be(v).take(8) =~= spec_u64_be(hi));
    assert(spec_u128_be(v).skip(8) =~= spec_u64_be(lo));
    lemma_u64_be_round_trip(hi);
    lemma_u64_be_round_trip(lo);
    assert(((v >> 64) as u64 as u128) << 64 | (v as u64 as u128) == v) by (bit_vector);
}

/// Appends one byte.
pub fn put_u8(buf: &mut Vec<u8>, v: u8)
    ensures
        final(buf)@ == old(buf)@.push(v),
{
    buf.push(v);
}

/// Appends a 16-bit value in big-endian order.
pub fn put_u16_be(buf: &mut Vec<u8>, v: u16)
    ensures
        final(buf)@ == old(buf)@ + spec_u16_be(v),
{
    buf.push((v >> 8) as u8);
    buf.push(v as u8);
    assert(buf@ =~= old(buf)@ + spec_u16_be(v));
}

/// Appends a 32-bit value in big-endian order.
pub fn put_u32_be(buf: &mut Vec<u8>, v: u32)
    ensures
        final(buf)@ == old(buf)@ + spec_u32_be(v),
{
    buf.push((v >> 24) as u8);
    buf.push((v >> 16) as u8);
    buf.push((v >> 8) as u8);
    buf.push(v as u8);
    assert(buf@ =~= old(buf)@ + spec_u32_be(v));
}

/// Appends a 64-bit value in big-endian order.
pub fn put_u64_be(buf: &mut Vec<u8>, v: u64)
    ensures
        final(buf)@ == old(buf)@ + spec_u64_be(v),
{
    buf.push((v >> 56) as u8);
    buf.push((v >> 48) as u8);
    buf.push((v >> 40) as u8);
    buf.push((v >> 32) as u8);
    buf.push((v >> 24) as u8);
    buf.push((v >> 16) as u8);
    buf.push((v >> 8) as u8);
    buf.push(v as u8);
    assert(buf@ =~= old(buf)@ + spec_u64_be(v));
}

/// Appends a 128-bit value in big-endian order.
pub fn put_u128_be(buf: &mut Vec<u8>, v: u128)
    ensures
        final(buf)@ == old(buf)@ + spec_u128_be(v),
{
    put_u64_be(buf, (v >> 64) as u64);
    put_u64_be(buf, v as u64);
    assert(buf@ =~= old(buf)@ + spec_u128_be(v));
}

/// Appends a byte slice.
pub fn put_bytes(buf: &mut Vec<u8>, bytes: &[u8])
    ensures
        final(buf)@ == old(buf)@ + bytes@,
{
    let n = bytes.len();
    for i in 0..n
        invariant
            n == bytes@.len(),
            buf@ == old(buf)@ + bytes@.take(i as int),
    {
        buf.push(bytes[i]);
        assert(buf@ =~= old(buf)@ + bytes@.take(i + 1));
    }
    assert(buf@ =~= old(buf)@ + bytes@);
}

/// A read cursor over an owned byte buffer.
pub struct ByteReader {
    data: Vec<u8>,
    pos: usize,
}

impl ByteReader {
    /// The bytes not yet consumed.
    pub closed spec fn remaining(&self) -> Seq<u8> {
        self.data@.skip(self.pos as int)
    }

    pub closed spec fn wf(&self) -> bool {
        self.pos <= self.data@.len()
    }

    pub fn new(data: Vec<u8>) -> (r: ByteReader)
        ensures
            r.wf(),
            r.remaining() == data@,
    {
        let r = ByteReader { data, pos: 0 };
        assert(r.remaining() =~= r.data@);
        r
    }

    /// How many bytes remain to be read.
    pub fn remaining_len(&self) -> (n: usize)
        requires
            self.wf(),
        ensures
            n == self.remaining().len(),
    {
        self.data.len() - self.pos
    }

    /// Consumes and returns the next byte.
    pub fn get_u8(&mut self) -> (v: u8)
        requires
            old(self).wf(),
            old(self).remaining().len() >= 1,
        ensures
            final(self).wf(),
            v == old(self).remaining()[0],
            final(self).remaining() == old(self).remaining().skip(1),
    {
        let len = self.data.len();
        assert(self.pos < len);
        let v = self.data[self.pos];
        self.pos = self.pos + 1;
        assert(self.remaining() =~= old(self).remaining().skip(1));
        v
    }

    /// Consumes eight bytes and returns the big-endian value they encode.
    pub fn get_u64_be(&mut self) -> (v: u64)
        requires
            old(self).wf(),
            old(self).remaining().len() >= 8,
        ensures
            final(self).wf(),
            v == spec_u64_from_be(old(self).remaining().take(8)),
            final(self).remaining() == old(self).remaining().skip(8),
    {
        let b0 = self.get_u8();
        let b1 = self.get_u8();
        let b2 = self.get_u8();
        let b3 = self.get_u8();
        let b4 = self.get_u8();
        let b5 = self.get_u8();
        let b6 = self.get_u8();
        let b7 = self.get_u8();
        let v = (b0 as u64) << 56 | (b1 as u64) << 48 | (b2 as u64) << 40 | (b3 as u64) << 32 | (
        b4 as u64) << 24 | (b5 as u64) << 16 | (b6 as u64) << 8 | (b7 as u64);
        assert(self.remaining() =~= old(self).remaining().skip(8));
        v
    }

    /// Consumes two bytes and returns the big-endian value they encode.
    pub fn get_u16_be(&mut self) -> (v: u16)
        requires
            old(self).wf(),
            old(self).remaining().len() >= 2,
        ensures
            final(self).wf(),
            v == spec_u16_from_be(old(self).remaining().take(2)),
            final(self).remaining() == old(self).remaining().skip(2),
    {
        let b0 = self.get_u8();
        let b1 = self.get_u8();
        assert(self.remaining() =~= old(self).remaining().skip(2));
        (b0 as u16) << 8 | (b1 as u16)
    }

    /// Consumes four bytes and returns the big-endian value they encode.
    pub fn get_u32_be(&mut self) -> (v: u32)
        requires
            old(self).wf(),
            old(self).remaining().len() >= 4,
        ensures
            final(self).wf(),
            v == spec_u32_from_be(old(self).remaining().take(4)),
            final(self).remaining() == old(self).remaining().skip(4),
    {
        let b0 = self.get_u8();
        let b1 = self.get_u8();
        let b2 = self.get_u8();
        let b3 = self.get_u8();
        assert(self.remaining() =~= old(self).remaining().skip(4));
        (b0 as u32) << 24 | (b1 as u32) << 16 | (b2 as u32) << 8 | (b3 as u32)
    }

    /// Consumes sixteen bytes and returns the big-endian value they encode.
    pub fn get_u128_be(&mut self) -> (v: u128)
        requires
            old(self).wf(),
            old(self).remaining().len() >= 16,
        ensures
            final(self).wf(),
            v == spec_u128_from_be(old(self).remaining().take(16)),
            final(self).remaining() == old(self).remaining().skip(16),
    {
        let hi = self.get_u64_be();
        let lo = self.get_u64_be();
        proof {
            assert(old(self).remaining().take(16).take(8) =~= old(self).remaining().take(8));
            assert(old(self).remaining().take(16).skip(8) =~= old(self).remaining().skip(8).take(
                8,
            ));
            assert(self.remaining() =~= old(self).remaining().skip(16));
        }
        (hi as u128) << 64 | (lo as u128)
    }

    /// Consumes `n` bytes and returns them as an owned vector.
    pub fn get_bytes(&mut self, n: usize) -> (r: Vec<u8>)
        requires
            old(self).wf(),
            old(self).remaining().len() >= n,
        ensures
            final(self).wf(),
            r@ == old(self).remaining().take(n as int),
            final(self).remaining() == old(self).remaining().skip(n as int),
    {
        let mut r: Vec<u8> = Vec::new();
        let len = self.data.len();
        assert(self.pos + n <= len);
        let mut i: usize = 0;
        while i < n
            invariant
                self.wf(),
                i <= n <= self.remaining().len(),
                len == self.data@.len(),
                self.pos + n <= len,
                r@ == self.remaining().take(i as int),
            decreases n - i,
        {
            r.push(self.data[self.pos + i]);
            assert(r@ =~= self.remaining().take(i + 1));
            i = i + 1;
        }
        assert(r@ =~= self.remaining().take(n as int));
        self.pos = self.pos + n;
        assert(self.remaining() =~= old(self).remaining().skip(n as int));
        r
    }
}

/// Wire tag of a transport.
pub open spec fn spec_transport_tag(t: Transport) -> u8 {
    match t {
        Transport::Local => 0,
        Transport::Tcp => 1,
        Transport::Udp => 2,
    }
}

/// Byte image of a system path: transport tag, address, port.
pub open spec fn spec_encode_system_path(sys: SystemPath) -> Seq<u8> {
    seq![spec_transport_tag(sys.protocol)] + spec_u32_be(sys.ip) + spec_u16_be(sys.port)
}

/// A named path is encodable when its segment count and every segment's byte
/// length fit the 16-bit fields of the wire form.
pub open spec fn spec_path_encodable(p: ActorPathView) -> bool {
    match p {
        ActorPathView::Unique { .. } => true,
        ActorPathView::Named { segments, .. } => {
            &&& segments.len() <= u16::MAX
            &&& forall|i: int|
                0 <= i < segments.len() ==> (#[trigger] vstd::utf8::encode_utf8(
                    segments[i],
                )).len() <= u16::MAX
        },
    }
}

/// Byte image of the segment list of a named path.
pub open spec fn spec_encode_segments(segments: Seq<Seq<char>>) -> Seq<u8>
    decreases segments.len(),
{
    if segments.len() == 0 {
        Seq::empty()
    } else {
        let bytes = vstd::utf8::encode_utf8(segments[0]);
        spec_u16_be(bytes.len() as u16) + bytes + spec_encode_segments(segments.skip(1))
    }
}

/// Byte image of an actor path: its system path, a variant tag, then either
/// the 128-bit identifier or the counted segment list.
pub open spec fn spec_encode_path(p: ActorPathView) -> Seq<u8> {
    match p {
        ActorPathView::Unique { sys, id } => spec_encode_system_path(sys) + seq![0u8]
            + spec_u128_be(id),
        ActorPathView::Named { sys, segments } => spec_encode_system_path(sys) + seq![1u8]
            + spec_u16_be(segments.len() as u16) + spec_encode_segments(segments),
    }
}

/// Appends the wire form of a system path.
pub fn encode_system_path(buf: &mut Vec<u8>, sys: &SystemPath)
    ensures
        final(buf)@ == old(buf)@ + spec_encode_system_path(*sys),
{
    let tag: u8 = match sys.protocol {
        Transport::Local => 0,
        Transport::Tcp => 1,
        Transport::Udp => 2,
    };
    put_u8(buf, tag);
    put_u32_be(buf, sys.ip);
    put_u16_be(buf, sys.port);
    assert(buf@ =~= old(buf)@ + spec_encode_system_path(*sys));
}

/// Appends the wire form of an actor path; fails with `InvalidData` exactly
/// when a segment count or a segment's byte length overflows its wire field,
/// leaving the buffer unchanged in that case.
pub fn encode_path(buf: &mut Vec<u8>, p: &ActorPath) -> (r: Result<(), crate::serialisation::SerError>)
    ensures
        r is Ok <==> spec_path_encodable(p@),
        r is Ok ==> final(buf)@ == old(buf)@ + spec_encode_path(p@),
        r is Err ==> final(buf)@ == old(buf)@,
{
    match p {
        ActorPath::Unique(u) => {
            encode_system_path(buf, &u.sys);
            put_u8(buf, 0);
            put_u128_be(buf, u.id);
            assert(buf@ =~= old(buf)@ + spec_encode_path(p@));
            Ok(())
        }
        ActorPath::Named(n) => {
            let ghost segs = segments_view(n.segments@);
            if n.segments.len() > u16::MAX as usize {
                return Err(crate::serialisation::SerError::InvalidData(
                    "too many path segments for the wire form".to_owned(),
                ));
            }
            let count = n.segments.len();
            let mut i: usize = 0;
            let mut body: Vec<u8> = Vec::new();
            while i < count
                invariant
                    count == n.segments@.len(),
                    count <= u16::MAX,
                    i <= count,
                    segs == segments_view(n.segments@),
                    p@ == (ActorPathView::Named { sys: n.sys, segments: segs }),
                    forall|j: int|
                        0 <= j < i ==> (#[trigger] vstd::utf8::encode_utf8(segs[j])).len()
                            <= u16::MAX,
                    body@ == spec_encode_segments(segs.take(i as int)),
                decreases count - i,
            {
                let seg: &String = &n.segments[i];
                let seg_bytes = seg.as_str().as_bytes();
                if seg_bytes.len() > u16::MAX as usize {
                    proof {
                        assert(segs[i as int] == n.segments@[i as int]@);
                        assert(seg_bytes@ == vstd::utf8::encode_utf8(segs[i as int]));
                        assert(vstd::utf8::encode_utf8(segs[i as int]).len() > u16::MAX);
                        assert(!spec_path_encodable(p@));
                    }
                    return Err(crate::serialisation::SerError::InvalidData(
                        "path segment too long for the wire form".to_owned(),
                    ));
                }
                put_u16_be(&mut body, seg_bytes.len() as u16);
                put_bytes(&mut body, seg_bytes);
                proof {
                    lemma_encode_segments_snoc(segs, i as int);
                }
                i = i + 1;
            }
            assert(segs.take(count as int) =~~= segs);
            encode_system_path(buf, &n.sys);
            put_u8(buf, 1);
            put_u16_be(buf, count as u16);
            put_bytes(buf, body.as_slice());
            assert(buf@ =~= old(buf)@ + spec_encode_path(p@));
            Ok(())
        }
    }
}

/// Extending the encoded prefix by one segment appends that segment's counted bytes.
proof fn lemma_encode_segments_snoc(segs: Seq<Seq<char>>, i: int)
    requires
        0 <= i < segs.len(),
    ensures
        spec_encode_segments(segs.take(i + 1)) == spec_encode_segments(segs.take(i)) + spec_u16_be(
            vstd::utf8::encode_utf8(segs[i]).len() as u16,
        ) + vstd::utf8::encode_utf8(segs[i]),
    decreases i,
{
    let pre = segs.take(i + 1);
    if i == 0 {
        assert(pre.skip(1) =~~= segs.take(0));
        assert(spec_encode_segments(segs.take(0)) == Seq::<u8>::empty());
        assert(spec_encode_segments(pre) =~= spec_u16_be(
            vstd::utf8::encode_utf8(segs[0]).len() as u16,
        ) + vstd::utf8::encode_utf8(segs[0]) + spec_encode_segments(pre.skip(1)));
        assert(spec_encode_segments(pre) =~= spec_encode_segments(segs.take(0)) + spec_u16_be(
            vstd::utf8::encode_utf8(segs[0]).len() as u16,
        ) + vstd::utf8::encode_utf8(segs[0]));
    } else {
        lemma_encode_segments_snoc(segs.skip(1), i - 1);
        assert(pre.skip(1) =~~= segs.skip(1).take(i));
        assert(segs.take(i).skip(1) =~~= segs.skip(1).take(i - 1));
        assert(segs.skip(1)[i - 1] == segs[i]);
        assert(spec_encode_segments(pre) == spec_u16_be(
            vstd::utf8::encode_utf8(segs[0]).len() as u16,
        ) + vstd::utf8::encode_utf8(segs[0]) + spec_encode_segments(segs.skip(1).take(i)));
        assert(spec_encode_segments(segs.take(i)) == spec_u16_be(
            vstd::utf8::encode_utf8(segs[0]).len() as u16,
        ) + vstd::utf8::encode_utf8(segs[0]) + spec_encode_segments(segs.skip(1).take(i - 1)));
        assert(spec_encode_segments(pre) =~= spec_encode_segments(segs.take(i)) + spec_u16_be(
            vstd::utf8::encode_utf8(segs[i]).len() as u16,
        ) + vstd::utf8::encode_utf8(segs[i]));
    }
}

} // verus!
