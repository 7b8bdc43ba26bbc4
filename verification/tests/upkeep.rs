use bytes::BytesMut;
use pgmux::protocol::session::{check_deadline, Upkeep};

fn buffer(bytes: &[u8]) -> BytesMut {
    BytesMut::from(bytes)
}

#[test]
fn the_queries_are_fixed() {
    assert_eq!(&Upkeep::Reset.request()[..], b"Q\x00\x00\x00\x10DISCARD ALL\x00");
    assert_eq!(&Upkeep::HealthCheck.request()[..], b"Q\x00\x00\x00\x0dSELECT 1\x00");
}

#[test]
fn readiness_settles_a_query() {
    for upkeep in [Upkeep::Reset, Upkeep::HealthCheck] {
        let mut buf = buffer(b"C\x00\x00\x00\x10DISCARD ALL\x00Z\x00\x00\x00\x05Imore");
        assert!(upkeep.poll(&mut buf).unwrap());
        assert_eq!(&buf[..], b"more");
    }
}

#[test]
fn an_error_fails_a_query() {
    let bytes = b"E\x00\x00\x00\x0fMin use\x00\x00\x00\x00Z\x00\x00\x00\x05I";
    let mut buf = buffer(bytes);
    let error = Upkeep::Reset.poll(&mut buf).unwrap_err();
    assert_eq!(error.message(), "Reset failed: in use");
    assert_eq!(&buf[..], b"Z\x00\x00\x00\x05I");
    let error = Upkeep::HealthCheck.poll(&mut buffer(bytes)).unwrap_err();
    assert_eq!(error.message(), "Health check failed");
}

#[test]
fn a_query_waits_for_its_reply() {
    let whole = b"C\x00\x00\x00\x0bSELECT\x00Z\x00\x00\x00\x05I";
    for count in 0..whole.len() {
        let mut buf = buffer(&whole[..count]);
        assert!(!Upkeep::HealthCheck.poll(&mut buf).unwrap());
        buf.extend_from_slice(&whole[count..]);
        assert!(Upkeep::HealthCheck.poll(&mut buf).unwrap());
        assert!(buf.is_empty());
    }
}

#[test]
fn a_bad_length_fails_a_query() {
    let error = Upkeep::Reset.poll(&mut buffer(b"Z\x00\x00\x00\x02")).unwrap_err();
    assert_eq!(error.message(), "Invalid message length: 2");
}

#[test]
fn a_closed_connection_fails_a_query() {
    assert!(Upkeep::Reset.on_read(1).is_ok());
    let error = Upkeep::Reset.on_read(0).unwrap_err();
    assert_eq!(error.message(), "Backend disconnected during reset");
    let error = Upkeep::HealthCheck.on_read(0).unwrap_err();
    assert_eq!(error.message(), "Backend disconnected during health check");
}

#[test]
fn a_health_check_may_take_five_seconds() {
    assert!(check_deadline(0, 0).is_ok());
    assert!(check_deadline(4, 999_999_999).is_ok());
    assert!(check_deadline(5, 0).is_ok());
    assert_eq!(check_deadline(5, 1).unwrap_err().message(), "Health check timed out");
    assert!(check_deadline(u64::MAX, 999_999_999).is_err());
}

#[test]
fn only_a_health_check_has_a_deadline() {
    assert!(Upkeep::Reset.before_read(u64::MAX, 999_999_999).is_ok());
    assert!(Upkeep::HealthCheck.before_read(0, 0).is_ok());
    assert!(Upkeep::HealthCheck.before_read(5, 0).is_ok());
    let error = Upkeep::HealthCheck.before_read(5, 1).unwrap_err();
    assert_eq!(error.message(), "Health check timed out");
}

#[test]
fn an_empty_read_ends_a_query() {
    let mut buf = buffer(b"Z\x00\x00\x00\x05I");
    let error = Upkeep::Reset.after_read(0, &mut buf).unwrap_err();
    assert_eq!(error.message(), "Backend disconnected during reset");
    assert_eq!(buf.len(), 6);
    let error = Upkeep::HealthCheck.after_read(0, &mut buf).unwrap_err();
    assert_eq!(error.message(), "Backend disconnected during health check");
    assert!(Upkeep::Reset.after_read(6, &mut buf).unwrap());
}

#[test]
fn a_reply_may_come_byte_by_byte() {
    let whole = b"C\x00\x00\x00\x0bSELECT\x00Z\x00\x00\x00\x05I";
    let mut buf = BytesMut::new();
    for (i, byte) in whole.iter().enumerate() {
        buf.extend_from_slice(&[*byte]);
        let done = Upkeep::HealthCheck.after_read(1, &mut buf).unwrap();
        assert_eq!(done, i + 1 == whole.len());
    }
    assert!(buf.is_empty());
}
