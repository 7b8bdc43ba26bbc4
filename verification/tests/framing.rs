use bytes::BytesMut;
use pgmux::protocol::messages::{
    build_startup_message, query_message, startup_message_fits, try_read_message,
};

fn buffer(bytes: &[u8]) -> BytesMut {
    BytesMut::from(bytes)
}

#[test]
fn takes_one_message_off_the_front() {
    let mut buf = buffer(b"Z\x00\x00\x00\x05IR\x00");
    let message = try_read_message(&mut buf).unwrap().unwrap();
    assert_eq!(message.msg_type, b'Z');
    assert_eq!(message.payload, b"I");
    assert_eq!(&buf[..], b"R\x00");
    assert!(try_read_message(&mut buf).unwrap().is_none());
    assert_eq!(&buf[..], b"R\x00");
}

#[test]
fn an_empty_payload_is_a_message() {
    let mut buf = buffer(b"1\x00\x00\x00\x04");
    let message = try_read_message(&mut buf).unwrap().unwrap();
    assert_eq!(message.msg_type, b'1');
    assert!(message.payload.is_empty());
    assert!(buf.is_empty());
}

#[test]
fn every_cut_of_a_message_waits_for_more() {
    let whole = b"S\x00\x00\x00\x0aa\x00bcd\x00";
    for count in 0..whole.len() {
        let mut buf = buffer(&whole[..count]);
        assert!(try_read_message(&mut buf).unwrap().is_none());
        assert_eq!(&buf[..], &whole[..count]);
        buf.extend_from_slice(&whole[count..]);
        let message = try_read_message(&mut buf).unwrap().unwrap();
        assert_eq!(message.payload, b"a\x00bcd\x00");
        assert!(buf.is_empty());
    }
}

#[test]
fn a_length_below_four_is_an_error() {
    for (bytes, length) in [
        (&b"R\x00\x00\x00\x03rest"[..], 3),
        (&b"R\x00\x00\x00\x00rest"[..], 0),
        (&b"R\xff\xff\xff\xff"[..], -1),
        (&b"R\x80\x00\x00\x00"[..], i32::MIN),
    ] {
        let mut buf = buffer(bytes);
        assert_eq!(try_read_message(&mut buf).unwrap_err().length, length);
        assert_eq!(&buf[..], bytes);
    }
}

#[test]
fn the_largest_length_waits_for_more() {
    let mut buf = buffer(b"D\x7f\xff\xff\xff");
    assert!(try_read_message(&mut buf).unwrap().is_none());
}

#[test]
fn a_query_ends_in_a_zero_byte() {
    assert_eq!(&query_message("SELECT 1")[..], b"Q\x00\x00\x00\x0dSELECT 1\x00");
    assert_eq!(&query_message("")[..], b"Q\x00\x00\x00\x05\x00");
}

#[test]
fn a_written_message_is_read_back() {
    let mut buf = query_message("DISCARD ALL");
    buf.extend_from_slice(b"tail");
    let message = try_read_message(&mut buf).unwrap().unwrap();
    assert_eq!(message.msg_type, b'Q');
    assert_eq!(message.payload, b"DISCARD ALL\x00");
    assert_eq!(&buf[..], b"tail");
}

#[test]
fn the_startup_message_holds_all_settings_in_order() {
    let extra = vec![
        ("application_name".to_string(), "psql".to_string()),
        ("client_encoding".to_string(), "UTF8".to_string()),
    ];
    assert!(startup_message_fits("tenant_42", "db", &extra));
    let buf = build_startup_message("tenant_42", "db", &extra);
    let mut expected = b"\x00\x00\x00\x4f\x00\x03\x00\x00".to_vec();
    expected.extend_from_slice(b"user\x00tenant_42\x00database\x00db\x00");
    expected.extend_from_slice(b"application_name\x00psql\x00client_encoding\x00UTF8\x00\x00");
    assert_eq!(expected.len(), 0x4f);
    assert_eq!(&buf[..], &expected[..]);
}

#[test]
fn the_startup_message_without_extra_settings() {
    let buf = build_startup_message("u", "d", &[]);
    assert_eq!(
        &buf[..],
        b"\x00\x00\x00\x1b\x00\x03\x00\x00user\x00u\x00database\x00d\x00\x00"
    );
}

#[test]
fn settings_are_read_back_from_a_startup_message() {
    let extra = vec![("search_path".to_string(), "caf\u{e9}".to_string())];
    let buf = build_startup_message("u", "d", &extra);
    let texts: Vec<&[u8]> = buf[8..buf.len() - 2].split(|&b| b == 0).collect();
    let expected: Vec<&[u8]> = vec![
        b"user",
        b"u",
        b"database",
        b"d",
        b"search_path",
        "caf\u{e9}".as_bytes(),
    ];
    assert_eq!(texts, expected);
}
