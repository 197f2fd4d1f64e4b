use nbd_netlink::{connect_reply, encode_sockets, parse_reply, ConnectParams, NBDConnect, NbdError};

const FAMILY: u16 = 0x1c;

fn u16_le(b: &[u8], i: usize) -> u16 {
    u16::from_le_bytes([b[i], b[i + 1]])
}

fn u32_le(b: &[u8], i: usize) -> u32 {
    u32::from_le_bytes([b[i], b[i + 1], b[i + 2], b[i + 3]])
}

fn u64_le(b: &[u8], i: usize) -> u64 {
    let mut a = [0u8; 8];
    a.copy_from_slice(&b[i..i + 8]);
    u64::from_le_bytes(a)
}

/// A reply with the given family and command, holding `attrs` after the headers.
fn reply(family: u16, cmd: u8, attrs: &[u8]) -> Vec<u8> {
    let mut b = Vec::new();
    b.extend_from_slice(&((20 + attrs.len()) as u32).to_le_bytes());
    b.extend_from_slice(&family.to_le_bytes());
    b.extend_from_slice(&0u16.to_le_bytes());
    b.extend_from_slice(&1u32.to_le_bytes());
    b.extend_from_slice(&0u32.to_le_bytes());
    b.extend_from_slice(&[cmd, 1, 0, 0]);
    b.extend_from_slice(attrs);
    b
}

fn index_attr(index: u32) -> Vec<u8> {
    let mut a = vec![8, 0, 1, 0];
    a.extend_from_slice(&index.to_le_bytes());
    a
}

#[test]
fn default_configuration() {
    let p = NBDConnect::new().params();
    assert_eq!(
        p,
        ConnectParams { size_bytes: 0, block_size_bytes: 4096, server_flags: 0b1, client_flags: 0 }
    );
}

#[test]
fn size_and_block_size_setters() {
    let p = NBDConnect::new().size_bytes(1 << 40).block_size(512).params();
    assert_eq!(p.size_bytes, 1 << 40);
    assert_eq!(p.block_size_bytes, 512);
    assert_eq!(p.server_flags, 1);
    assert_eq!(p.client_flags, 0);
}

#[test]
fn read_only_toggles_one_bit() {
    let b = NBDConnect::new().can_multi_conn(true);
    let before = b.params();
    let on = b.read_only(true);
    assert_eq!(on.params().server_flags, before.server_flags | 0b10);
    assert_eq!(on.params().server_flags, 0b1_0000_0011);
    let off = on.read_only(false);
    assert_eq!(off.params(), before);
}

#[test]
fn multi_conn_toggles_one_bit() {
    let b = NBDConnect::new().read_only(true);
    let on = b.can_multi_conn(true);
    assert_eq!(on.params().server_flags, 0b1_0000_0011);
    let off = on.can_multi_conn(false);
    assert_eq!(off.params().server_flags, 0b11);
}

#[test]
fn disconnect_on_close_toggles_client_bit() {
    let b = NBDConnect::new().disconnect_on_close(true);
    assert_eq!(b.params().client_flags, 0b10);
    assert_eq!(b.params().server_flags, 0b1);
    let b = b.disconnect_on_close(false);
    assert_eq!(b.params(), NBDConnect::new().params());
}

#[test]
fn marker_bit_survives_every_setter() {
    let b = NBDConnect::new()
        .read_only(true)
        .can_multi_conn(true)
        .read_only(false)
        .can_multi_conn(false)
        .disconnect_on_close(true)
        .size_bytes(7)
        .block_size(1024);
    assert_eq!(b.params().server_flags & 1, 1);
    assert_eq!(b.params().server_flags, 1);
}

#[test]
fn sockets_attribute_holds_each_descriptor_in_order() {
    let fds = [3, 17, 4096];
    let s = encode_sockets(&fds);
    assert_eq!(s.len(), 4 + 12 * 3);
    assert_eq!(u16_le(&s, 0), 40);
    assert_eq!(u16_le(&s, 2), 7 | 0x8000);
    for (i, fd) in fds.iter().enumerate() {
        let item = &s[4 + 12 * i..16 + 12 * i];
        assert_eq!(u16_le(item, 0), 12);
        assert_eq!(u16_le(item, 2), 1 | 0x8000);
        assert_eq!(u16_le(item, 4), 8);
        assert_eq!(u16_le(item, 6), 1);
        assert_eq!(u32_le(item, 8), *fd as u32);
    }
}

#[test]
fn negative_descriptor_keeps_its_bits() {
    let s = encode_sockets(&[-1]);
    assert_eq!(&s[12..16], &[0xff, 0xff, 0xff, 0xff]);
}

#[test]
fn read_only_request_and_reply() {
    let b = NBDConnect::new().size_bytes(1048576).read_only(true);
    let r = b.request(FAMILY, &[5]);
    assert_eq!(r.len(), 16 + 4 + 4 * 12 + 4 + 12);
    assert_eq!(u32_le(&r, 0) as usize, r.len());
    assert_eq!(u16_le(&r, 4), FAMILY);
    assert_eq!(u16_le(&r, 6), 1);
    assert_eq!(&r[16..20], &[1, 1, 0, 0]);
    assert_eq!(u16_le(&r, 20), 12);
    assert_eq!(u16_le(&r, 22), 2);
    assert_eq!(u64_le(&r, 24), 1048576);
    assert_eq!(u16_le(&r, 34), 3);
    assert_eq!(u64_le(&r, 36), 4096);
    assert_eq!(u16_le(&r, 46), 5);
    assert_eq!(u64_le(&r, 48), 0b11);
    assert_eq!(u16_le(&r, 58), 6);
    assert_eq!(u64_le(&r, 60), 0);
    assert_eq!(u16_le(&r, 68), 16);
    assert_eq!(u16_le(&r, 70), 7 | 0x8000);
    assert_eq!(u32_le(&r, 80), 5);
    let answer = reply(FAMILY, 1, &index_attr(3));
    assert_eq!(connect_reply(Some(&answer), FAMILY), Ok(3));
}

#[test]
fn no_sockets_still_sends_empty_container() {
    let r = NBDConnect::new().request(FAMILY, &[]);
    assert_eq!(r.len(), 72);
    assert_eq!(&r[68..72], &[4, 0, 7, 0x80]);
}

#[test]
fn reply_without_index_is_malformed() {
    let mut other = vec![8, 0, 5, 0];
    other.extend_from_slice(&7u32.to_le_bytes());
    let answer = reply(FAMILY, 1, &other);
    assert_eq!(parse_reply(&answer, FAMILY), Err(NbdError::MalformedResponse));
    let empty = reply(FAMILY, 1, &[]);
    assert_eq!(parse_reply(&empty, FAMILY), Err(NbdError::MalformedResponse));
}

#[test]
fn index_of_wrong_width_is_malformed() {
    let mut wide = vec![12, 0, 1, 0];
    wide.extend_from_slice(&3u64.to_le_bytes());
    let answer = reply(FAMILY, 1, &wide);
    assert_eq!(parse_reply(&answer, FAMILY), Err(NbdError::MalformedResponse));
}

#[test]
fn index_after_padded_attribute() {
    let mut attrs = vec![5, 0, 9, 0, 0xaa, 0, 0, 0];
    attrs.extend_from_slice(&index_attr(0x01020304));
    let answer = reply(FAMILY, 1, &attrs);
    assert_eq!(parse_reply(&answer, FAMILY), Ok(0x01020304));
}

#[test]
fn reply_from_other_family_is_mismatch() {
    let answer = reply(FAMILY + 1, 1, &index_attr(3));
    assert_eq!(parse_reply(&answer, FAMILY), Err(NbdError::ProtocolMismatch));
    let wrong_cmd = reply(FAMILY, 2, &index_attr(3));
    assert_eq!(parse_reply(&wrong_cmd, FAMILY), Err(NbdError::ProtocolMismatch));
}

#[test]
fn truncated_reply_is_malformed() {
    let answer = reply(FAMILY, 1, &index_attr(3));
    assert_eq!(parse_reply(&answer[..10], FAMILY), Err(NbdError::MalformedResponse));
    assert_eq!(parse_reply(&answer[..26], FAMILY), Err(NbdError::MalformedResponse));
}

#[test]
fn missing_reply_is_no_response() {
    assert_eq!(connect_reply(None, FAMILY), Err(NbdError::NoResponse));
}
