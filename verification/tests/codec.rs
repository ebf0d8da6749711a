use nl80211scan::codec::align4;
use nl80211scan::codec::encode_request;
use nl80211scan::codec::read_le16;
use nl80211scan::codec::read_le32;
use nl80211scan::codec::read_le64;
use nl80211scan::codec::split_messages;
use nl80211scan::codec::u32_payload;
use nl80211scan::codec::AttributeTable;
use nl80211scan::ScanError;

fn enc_attr(id: u16, payload: &[u8]) -> Vec<u8> {
    let alen = (payload.len() + 4) as u16;
    let mut out = vec![
        (alen % 256) as u8,
        (alen / 256) as u8,
        (id % 256) as u8,
        (id / 256) as u8,
    ];
    out.extend_from_slice(payload);
    while out.len() % 4 != 0 {
        out.push(0);
    }
    out
}

#[test]
fn le_readers() {
    let b: Vec<u8> = vec![0x78, 0x56, 0x34, 0x12, 0xff, 0, 0, 0, 1, 0, 0, 0];
    assert_eq!(read_le16(&b, 0), 0x5678);
    assert_eq!(read_le32(&b, 0), 0x12345678);
    assert_eq!(read_le64(&b, 4), 0x0000_0001_0000_00ff);
}

#[test]
fn align4_rounds_up() {
    assert_eq!(align4(0), 0);
    assert_eq!(align4(1), 4);
    assert_eq!(align4(4), 4);
    assert_eq!(align4(6), 8);
    assert_eq!(align4(8), 8);
}

#[test]
fn decode_walks_attributes_in_order() {
    let mut b = enc_attr(3, &[1, 0, 0, 0]);
    b.extend_from_slice(&enc_attr(4, b"wlan0\0"));
    let t = AttributeTable::decode(&b, 0);
    assert_eq!(t.entries.len(), 2);
    assert_eq!(t.entries[0], (3, vec![1, 0, 0, 0]));
    assert_eq!(t.entries[1], (4, b"wlan0\0".to_vec()));
}

#[test]
fn decode_strips_flag_bits_from_id() {
    // The nested flag (bit 15) is not part of the attribute id.
    let b = enc_attr(0x8000 | 47, &[1, 2, 3, 4]);
    let t = AttributeTable::decode(&b, 0);
    assert_eq!(t.entries.len(), 1);
    assert_eq!(t.entries[0].0, 47);
}

#[test]
fn decode_stops_at_truncated_attribute() {
    let mut b = enc_attr(1, &[9, 9, 9, 9]);
    // A second attribute that declares 12 bytes but has only its header.
    b.extend_from_slice(&[12, 0, 2, 0]);
    let t = AttributeTable::decode(&b, 0);
    assert_eq!(t.entries.len(), 1);
    assert_eq!(t.entries[0].0, 1);
}

#[test]
fn decode_stops_at_undersized_length() {
    let b: Vec<u8> = vec![3, 0, 1, 0, 0, 0, 0, 0];
    let t = AttributeTable::decode(&b, 0);
    assert_eq!(t.entries.len(), 0);
}

#[test]
fn duplicate_id_last_occurrence_wins() {
    let mut b = enc_attr(7, &[1, 0, 0, 0]);
    b.extend_from_slice(&enc_attr(7, &[2, 0, 0, 0]));
    let t = AttributeTable::decode(&b, 0);
    assert_eq!(t.get_scalar_u32(7), Ok(2));
}

#[test]
fn scalar_width_mismatch_is_a_decode_error() {
    let b = enc_attr(5, &[1, 2]);
    let t = AttributeTable::decode(&b, 0);
    assert_eq!(t.get_scalar_u32(5), Err(ScanError::Decode(5)));
    assert_eq!(t.get_scalar_u64(5), Err(ScanError::Decode(5)));
}

#[test]
fn scalar_absent_is_a_decode_error() {
    let b = enc_attr(5, &[1, 2, 3, 4]);
    let t = AttributeTable::decode(&b, 0);
    assert_eq!(t.get_scalar_u32(6), Err(ScanError::Decode(6)));
}

#[test]
fn signed_scalar_reads_negative_values() {
    // -5000 in little-endian two's complement.
    let b = enc_attr(7, &[0x78, 0xec, 0xff, 0xff]);
    let t = AttributeTable::decode(&b, 0);
    assert_eq!(t.get_scalar_i32(7), Ok(-5000));
}

#[test]
fn nested_attributes_decode_recursively() {
    let inner = enc_attr(7, &[0x78, 0xec, 0xff, 0xff]);
    let b = enc_attr(47, &inner);
    let t = AttributeTable::decode(&b, 0);
    let bss = t.get_nested(47).unwrap();
    assert_eq!(bss.get_scalar_i32(7), Ok(-5000));
    assert!(matches!(t.get_nested(48), Err(ScanError::Decode(48))));
}

#[test]
fn trimmed_bytes_drop_the_terminator() {
    let b = enc_attr(4, b"wlan0\0");
    let t = AttributeTable::decode(&b, 0);
    assert_eq!(t.get_bytes_trimmed(4), Ok(b"wlan0".to_vec()));
}

#[test]
fn exact_bytes_enforce_width() {
    let b = enc_attr(6, &[1, 2, 3, 4, 5, 6]);
    let t = AttributeTable::decode(&b, 0);
    assert_eq!(t.get_bytes_exact(6, 6), Ok(vec![1, 2, 3, 4, 5, 6]));
    assert_eq!(t.get_bytes_exact(6, 4), Err(ScanError::Decode(6)));
}

#[test]
fn encode_request_known_bytes() {
    let attrs: Vec<(u16, Vec<u8>)> = vec![(3, u32_payload(9))];
    let r = encode_request(0x1c, 5, 33, &attrs);
    let expected: Vec<u8> = vec![
        28, 0, 0, 0, // length: 16 + 4 + 8
        0x1c, 0, // family id
        5, 0, // flags: request | ack
        0, 0, 0, 0, // sequence
        0, 0, 0, 0, // port id
        33, 1, 0, 0, // command, version, reserved
        8, 0, 3, 0, 9, 0, 0, 0, // the ifindex attribute
    ];
    assert_eq!(r, expected);
}

#[test]
fn encode_then_decode_round_trips() {
    let attrs: Vec<(u16, Vec<u8>)> = vec![(3, u32_payload(7)), (158, u32_payload(4))];
    let r = encode_request(0x1c, 5, 33, &attrs);
    let t = AttributeTable::decode(&r, 20);
    assert_eq!(t.entries, attrs);
}

#[test]
fn split_messages_cuts_by_declared_length() {
    let mut buf: Vec<u8> = Vec::new();
    // First message: 20 bytes.
    buf.extend_from_slice(&[20, 0, 0, 0, 0x1c, 0, 2, 0, 0, 0, 0, 0, 0, 0, 0, 0, 34, 1, 0, 0]);
    // Second message: the 16-byte dump terminator.
    buf.extend_from_slice(&[16, 0, 0, 0, 3, 0, 0, 0, 0, 0, 0, 0, 0, 0, 0, 0]);
    let msgs = split_messages(&buf);
    assert_eq!(msgs.len(), 2);
    assert_eq!(msgs[0].len(), 20);
    assert_eq!(msgs[1].len(), 16);
    assert_eq!(msgs[0][16], 34);
    assert_eq!(msgs[1][4], 3);
}

#[test]
fn split_messages_stops_at_truncated_tail() {
    let mut buf: Vec<u8> = Vec::new();
    buf.extend_from_slice(&[16, 0, 0, 0, 3, 0, 0, 0, 0, 0, 0, 0, 0, 0, 0, 0]);
    // A header that declares 32 bytes with only 16 present.
    buf.extend_from_slice(&[32, 0, 0, 0, 3, 0, 0, 0, 0, 0, 0, 0, 0, 0, 0, 0]);
    let msgs = split_messages(&buf);
    assert_eq!(msgs.len(), 1);
}
