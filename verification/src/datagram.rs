//! Framing of UDP datagrams carried over the QUIC tunnel.
//!
//! A relayed datagram is the 8-byte big-endian id of the UDP peer it belongs
//! to, followed by the payload: `[client_id | payload]`.

use vstd::prelude::*;
use bytes::{Bytes, BytesMut};

verus! {

/// Marks `bytes::BytesMut` as a type that verified code may hold; its
/// contents are reached only through `buffer_contents`.
#[verifier::external_type_specification]
#[verifier::external_body]
pub struct ExBytesMut(BytesMut);

/// Marks `bytes::Bytes` as a type that verified code may hold; its contents
/// are reached only through `frozen_contents`.
#[verifier::external_type_specification]
#[verifier::external_body]
pub struct ExBytes(Bytes);

/// The bytes that a `BytesMut` holds, from its start to its length.
pub uninterp spec fn buffer_contents(b: BytesMut) -> Seq<u8>;

/// The bytes that a `Bytes` handle refers to.
pub uninterp spec fn frozen_contents(b: Bytes) -> Seq<u8>;

/// `BytesMut::with_capacity` builds an empty buffer; it reserves its capacity
/// through `Vec::with_capacity`, which panics above `isize::MAX` bytes. The
/// capacity itself is not stated.
pub assume_specification[ BytesMut::with_capacity ](capacity: usize) -> (b: BytesMut)
    requires
        capacity <= isize::MAX,
    ensures
        buffer_contents(b) == Seq::<u8>::empty(),
;

/// `BytesMut::extend_from_slice` appends the slice to the buffer's contents;
/// growing the buffer panics when the total length passes `isize::MAX`.
pub assume_specification[ BytesMut::extend_from_slice ](b: &mut BytesMut, extend: &[u8])
    requires
        buffer_contents(*old(b)).len() + extend@.len() <= isize::MAX,
    ensures
        buffer_contents(*final(b)) == buffer_contents(*old(b)) + extend@,
;

/// `BytesMut::freeze` turns the buffer into a `Bytes` handle to the same bytes.
pub assume_specification[ BytesMut::freeze ](b: BytesMut) -> (r: Bytes)
    ensures
        frozen_contents(r) == buffer_contents(b),
;

/// Length of the id header in front of every relayed datagram.
pub const ID_LEN: usize = 8;

/// The 8 big-endian bytes of `id`, most significant first.
pub open spec fn be_bytes(id: u64) -> Seq<u8> {
    seq![
        (id >> 56u64) as u8,
        (id >> 48u64) as u8,
        (id >> 40u64) as u8,
        (id >> 32u64) as u8,
        (id >> 24u64) as u8,
        (id >> 16u64) as u8,
        (id >> 8u64) as u8,
        id as u8,
    ]
}

/// The number whose big-endian bytes are `b0 .. b7`.
pub open spec fn be_value(b0: u8, b1: u8, b2: u8, b3: u8, b4: u8, b5: u8, b6: u8, b7: u8) -> u64 {
    ((b0 as u64) << 56u64) | ((b1 as u64) << 48u64) | ((b2 as u64) << 40u64) | ((b3 as u64)
        << 32u64) | ((b4 as u64) << 24u64) | ((b5 as u64) << 16u64) | ((b6 as u64) << 8u64) | (
    b7 as u64)
}

/// The number whose big-endian bytes are the first eight of `s`.
pub open spec fn be_prefix_value(s: Seq<u8>) -> u64 {
    be_value(s[0], s[1], s[2], s[3], s[4], s[5], s[6], s[7])
}

/// The wire form of a datagram of peer `id`.
pub open spec fn frame(id: u64, payload: Seq<u8>) -> Seq<u8> {
    be_bytes(id) + payload
}

/// What a received datagram means: nothing when it is shorter than the id
/// header, else the peer id and the payload behind it.
pub open spec fn parse_frame(data: Seq<u8>) -> Option<(u64, Seq<u8>)> {
    if data.len() < 8 {
        None
    } else {
        Some((be_prefix_value(data), data.skip(8)))
    }
}

proof fn lemma_be_value_of_be_bytes(id: u64)
    ensures
        be_value(
            (id >> 56u64) as u8,
            (id >> 48u64) as u8,
            (id >> 40u64) as u8,
            (id >> 32u64) as u8,
            (id >> 24u64) as u8,
            (id >> 16u64) as u8,
            (id >> 8u64) as u8,
            id as u8,
        ) == id,
{
    assert(((((id >> 56u64) as u8) as u64) << 56u64) | ((((id >> 48u64) as u8) as u64) << 48u64)
        | ((((id >> 40u64) as u8) as u64) << 40u64) | ((((id >> 32u64) as u8) as u64) << 32u64)
        | ((((id >> 24u64) as u8) as u64) << 24u64) | ((((id >> 16u64) as u8) as u64) << 16u64)
        | ((((id >> 8u64) as u8) as u64) << 8u64) | ((id as u8) as u64) == id) by (bit_vector);
}

proof fn lemma_be_bytes_of_be_value(b0: u8, b1: u8, b2: u8, b3: u8, b4: u8, b5: u8, b6: u8, b7: u8)
    ensures
        be_bytes(be_value(b0, b1, b2, b3, b4, b5, b6, b7)) == seq![b0, b1, b2, b3, b4, b5, b6, b7],
{
    let v = be_value(b0, b1, b2, b3, b4, b5, b6, b7);
    assert((v >> 56u64) as u8 == b0 && (v >> 48u64) as u8 == b1 && (v >> 40u64) as u8 == b2
        && (v >> 32u64) as u8 == b3 && (v >> 24u64) as u8 == b4 && (v >> 16u64) as u8 == b5
        && (v >> 8u64) as u8 == b6 && v as u8 == b7) by (bit_vector)
        requires
            v == ((b0 as u64) << 56u64) | ((b1 as u64) << 48u64) | ((b2 as u64) << 40u64) | ((
            b3 as u64) << 32u64) | ((b4 as u64) << 24u64) | ((b5 as u64) << 16u64) | ((b6 as u64)
                << 8u64) | (b7 as u64),
    ;
    assert(be_bytes(v) =~= seq![b0, b1, b2, b3, b4, b5, b6, b7]);
}

/// Reading back a framed datagram gives the peer id and the payload that
/// were framed.
pub proof fn lemma_parse_frame_inverts_frame(id: u64, payload: Seq<u8>)
    ensures
        parse_frame(frame(id, payload)) == Some((id, payload)),
{
    lemma_be_value_of_be_bytes(id);
    assert(frame(id, payload).skip(8) =~= payload);
}

/// A datagram that parses is exactly the frame of the id and payload that
/// it parses to: nothing is lost or added.
pub proof fn lemma_frame_inverts_parse_frame(data: Seq<u8>, id: u64, payload: Seq<u8>)
    requires
        parse_frame(data) == Some((id, payload)),
    ensures
        frame(id, payload) == data,
{
    lemma_be_bytes_of_be_value(data[0], data[1], data[2], data[3], data[4], data[5], data[6], data[7]);
    assert(data.take(8) =~= seq![data[0], data[1], data[2], data[3], data[4], data[5], data[6], data[7]]);
    assert(data =~= data.take(8) + data.skip(8));
}

/// Byte `k` of `be_bytes(id)` is `id` shifted right by `56 - 8 * k` bits:
/// the most significant byte comes first.
pub proof fn lemma_be_bytes_digits(id: u64)
    ensures
        be_bytes(id).len() == 8,
        forall|k: int|
            0 <= k < 8 ==> #[trigger] be_bytes(id)[k] == (id >> ((56 - 8 * k) as u64)) as u8,
{
    assert forall|k: int| 0 <= k < 8 implies #[trigger] be_bytes(id)[k] == (id >> ((56 - 8 * k)
        as u64)) as u8 by {
        if k == 0 {
        } else if k == 1 {
        } else if k == 2 {
        } else if k == 3 {
        } else if k == 4 {
        } else if k == 5 {
        } else if k == 6 {
        } else {
            assert(id >> 0u64 == id) by (bit_vector);
        }
    }
}

/// The value read from the first eight bytes of `s` has exactly those bytes
/// as its big-endian bytes, so no two different headers read as the same id.
pub proof fn lemma_be_prefix_value_digits(s: Seq<u8>)
    requires
        s.len() >= 8,
    ensures
        forall|k: int|
            0 <= k < 8 ==> (be_prefix_value(s) >> ((56 - 8 * k) as u64)) as u8 == #[trigger] s[k],
{
    lemma_be_bytes_of_be_value(s[0], s[1], s[2], s[3], s[4], s[5], s[6], s[7]);
    lemma_be_bytes_digits(be_prefix_value(s));
    assert forall|k: int| 0 <= k < 8 implies (be_prefix_value(s) >> ((56 - 8 * k) as u64)) as u8
        == #[trigger] s[k] by {
        assert(be_bytes(be_prefix_value(s))[k] == seq![s[0], s[1], s[2], s[3], s[4], s[5], s[6], s[7]][k]);
    }
}

/// A framed datagram is the eight bytes of the id, most significant first,
/// followed by the whole payload.
pub proof fn lemma_frame_layout(id: u64, payload: Seq<u8>)
    ensures
        frame(id, payload).len() == 8 + payload.len(),
        forall|k: int|
            0 <= k < 8 ==> #[trigger] frame(id, payload)[k] == (id >> ((56 - 8 * k) as u64)) as u8,
        frame(id, payload).skip(8) == payload,
{
    lemma_be_bytes_digits(id);
    assert(frame(id, payload).skip(8) =~= payload);
}

/// A received datagram is dropped exactly when it is shorter than 8 bytes;
/// otherwise its id is the number whose big-endian bytes are its first eight
/// bytes, and its payload is everything after them.
pub proof fn lemma_parse_frame_layout(data: Seq<u8>)
    ensures
        parse_frame(data) is None <==> data.len() < 8,
        data.len() >= 8 ==> (parse_frame(data) matches Some((id, payload)) && payload == data.skip(
            8,
        ) && forall|k: int|
            0 <= k < 8 ==> (id >> ((56 - 8 * k) as u64)) as u8 == #[trigger] data[k]),
{
    if data.len() >= 8 {
        lemma_be_prefix_value_digits(data);
    }
}

/// The 8 big-endian bytes of `id`.
pub fn id_to_be_bytes(id: u64) -> (r: [u8; 8])
    ensures
        r@ == be_bytes(id),
        forall|k: int| 0 <= k < 8 ==> #[trigger] r@[k] == (id >> ((56 - 8 * k) as u64)) as u8,
{
    let r: [u8; 8] = [
        (id >> 56u64) as u8,
        (id >> 48u64) as u8,
        (id >> 40u64) as u8,
        (id >> 32u64) as u8,
        (id >> 24u64) as u8,
        (id >> 16u64) as u8,
        (id >> 8u64) as u8,
        id as u8,
    ];
    assert(r@ =~= be_bytes(id));
    proof {
        lemma_be_bytes_digits(id);
    }
    r
}

/// The number whose big-endian bytes are the first eight of `data`.
pub fn id_from_be_bytes(data: &[u8]) -> (r: u64)
    requires
        data@.len() >= 8,
    ensures
        r == be_prefix_value(data@),
        forall|k: int| 0 <= k < 8 ==> (r >> ((56 - 8 * k) as u64)) as u8 == #[trigger] data@[k],
{
    proof {
        lemma_be_prefix_value_digits(data@);
    }
    ((data[0] as u64) << 56u64) | ((data[1] as u64) << 48u64) | ((data[2] as u64) << 40u64) | ((
    data[3] as u64) << 32u64) | ((data[4] as u64) << 24u64) | ((data[5] as u64) << 16u64) | ((
    data[6] as u64) << 8u64) | (data[7] as u64)
}

/// Frames `payload` as a datagram of peer `id`: `[id | payload]`.
pub fn encode_datagram(id: u64, payload: &[u8]) -> (msg: Bytes)
    requires
        payload@.len() + 8 <= isize::MAX,
    ensures
        frozen_contents(msg) == frame(id, payload@),
        frozen_contents(msg).len() == 8 + payload@.len(),
        forall|k: int|
            0 <= k < 8 ==> #[trigger] frozen_contents(msg)[k] == (id >> ((56 - 8 * k) as u64)) as u8,
        frozen_contents(msg).skip(8) == payload@,
{
    proof {
        lemma_frame_layout(id, payload@);
    }
    let mut msg = BytesMut::with_capacity(ID_LEN + payload.len());
    let header = id_to_be_bytes(id);
    msg.extend_from_slice(&header);
    msg.extend_from_slice(payload);
    msg.freeze()
}

/// Splits a received datagram into the peer id and the payload; `None` when
/// it is shorter than the id header, in which case it is dropped.
pub fn decode_datagram(data: &[u8]) -> (r: Option<(u64, &[u8])>)
    ensures
        r matches Some(p) ==> parse_frame(data@) == Some((p.0, p.1@)),
        r is None <==> parse_frame(data@) is None,
        r is None <==> data@.len() < 8,
        r matches Some(p) ==> p.1@ == data@.skip(8) && forall|k: int|
            0 <= k < 8 ==> (p.0 >> ((56 - 8 * k) as u64)) as u8 == #[trigger] data@[k],
{
    if data.len() < ID_LEN {
        None
    } else {
        let id = id_from_be_bytes(data);
        let payload = vstd::slice::slice_subrange(data, ID_LEN, data.len());
        assert(payload@ =~= data@.skip(8));
        Some((id, payload))
    }
}

} // verus!
