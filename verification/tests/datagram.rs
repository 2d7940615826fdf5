use srp::datagram::{id_from_be_bytes, id_to_be_bytes};
use srp::{decode_datagram, encode_datagram};

#[test]
fn encode_puts_big_endian_id_before_payload() {
    let msg = encode_datagram(0x0102030405060708, &[0xaa, 0xbb]);
    assert_eq!(&msg[..], &[1, 2, 3, 4, 5, 6, 7, 8, 0xaa, 0xbb]);
}

#[test]
fn encode_empty_payload_is_header_only() {
    let msg = encode_datagram(1, &[]);
    assert_eq!(&msg[..], &[0, 0, 0, 0, 0, 0, 0, 1]);
}

#[test]
fn decode_splits_id_and_payload() {
    let data = [0, 0, 0, 0, 0, 0, 1, 2, 9, 8, 7];
    let (id, payload) = decode_datagram(&data).unwrap();
    assert_eq!(id, 258);
    assert_eq!(payload, &[9, 8, 7]);
}

#[test]
fn decode_header_only_gives_empty_payload() {
    let data = [0xff; 8];
    let (id, payload) = decode_datagram(&data).unwrap();
    assert_eq!(id, u64::MAX);
    assert!(payload.is_empty());
}

#[test]
fn decode_drops_short_datagrams() {
    assert!(decode_datagram(&[]).is_none());
    assert!(decode_datagram(&[1, 2, 3, 4, 5, 6, 7]).is_none());
}

#[test]
fn decode_inverts_encode() {
    for id in [0u64, 1, 42, 1 << 40, u64::MAX] {
        let payload = [3u8, 1, 4, 1, 5, 9, 2, 6];
        let msg = encode_datagram(id, &payload);
        let (got_id, got_payload) = decode_datagram(&msg).unwrap();
        assert_eq!(got_id, id);
        assert_eq!(got_payload, &payload);
    }
}

#[test]
fn be_bytes_match_std() {
    for id in [0u64, 7, 0x1122334455667788, u64::MAX - 1] {
        assert_eq!(id_to_be_bytes(id), id.to_be_bytes());
        assert_eq!(id_from_be_bytes(&id.to_be_bytes()), id);
    }
}
