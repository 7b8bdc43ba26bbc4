use pgmux::protocol::error::{carry_encode, carry_scram, parse_error_fields, BackendError, Step};

#[test]
fn the_message_field_is_the_text() {
    let payload = b"SFATAL\x00C28P01\x00Mpassword authentication failed\x00\x00";
    assert_eq!(parse_error_fields(payload), "password authentication failed");
}

#[test]
fn without_a_message_field_the_error_is_unknown() {
    assert_eq!(parse_error_fields(b""), "unknown error");
    assert_eq!(parse_error_fields(b"\x00"), "unknown error");
    assert_eq!(parse_error_fields(b"SFATAL\x00\x00"), "unknown error");
    assert_eq!(parse_error_fields(b"M\x00\x00"), "unknown error");
    assert_eq!(parse_error_fields(b"M"), "unknown error");
}

#[test]
fn the_last_valid_message_field_counts() {
    assert_eq!(parse_error_fields(b"Mone\x00Mtwo\x00\x00"), "two");
    assert_eq!(parse_error_fields(b"Mone\x00M\xff\xfe\x00\x00"), "one");
    assert_eq!(parse_error_fields(b"Mone\x00M\x00\x00"), "unknown error");
}

#[test]
fn a_zero_in_place_of_a_type_ends_the_fields() {
    assert_eq!(parse_error_fields(b"Mone\x00\x00Mtwo\x00"), "one");
}

#[test]
fn a_value_may_lack_its_zero_byte() {
    assert_eq!(parse_error_fields(b"SERROR\x00Mcut off"), "cut off");
}

#[test]
fn text_beyond_ascii_is_kept() {
    let text = "r\u{f4}le \u{ab}x\u{bb} \u{1f418}";
    let mut payload = b"M".to_vec();
    payload.extend_from_slice(text.as_bytes());
    payload.push(0);
    assert_eq!(parse_error_fields(&payload), text);
}

#[test]
fn a_closed_connection_in_words() {
    for (step, text) in [
        (Step::Startup, "Backend disconnected during auth"),
        (Step::SaslContinue, "Backend disconnected during SCRAM"),
        (Step::SaslFinal, "Backend disconnected during SCRAM final"),
        (Step::AwaitReady, "Backend disconnected after auth"),
        (Step::Reset, "Backend disconnected during reset"),
        (Step::HealthCheck, "Backend disconnected during health check"),
    ] {
        assert_eq!(BackendError::Disconnected(step).message(), text);
    }
}

#[test]
fn a_refusal_in_words() {
    for (step, text) in [
        (Step::Startup, "Backend error: no"),
        (Step::SaslContinue, "Backend error during SCRAM: no"),
        (Step::SaslFinal, "Backend error during SCRAM: no"),
        (Step::AwaitReady, "Backend error after auth: no"),
        (Step::Reset, "Reset failed: no"),
        (Step::HealthCheck, "Health check failed"),
    ] {
        assert_eq!(BackendError::Refused(step, "no".to_string()).message(), text);
    }
}

#[test]
fn other_errors_in_words() {
    assert_eq!(BackendError::InvalidAuth.message(), "Invalid auth message");
    assert_eq!(BackendError::InvalidMd5.message(), "Invalid MD5 auth message");
    assert_eq!(
        BackendError::NoMechanism.message(),
        "Server requires SASL but doesn't support SCRAM-SHA-256"
    );
    assert_eq!(BackendError::UnsupportedAuth(7).message(), "Unsupported auth type: 7");
    assert_eq!(
        BackendError::UnsupportedAuth(i32::MIN).message(),
        "Unsupported auth type: -2147483648"
    );
    assert_eq!(
        BackendError::UnexpectedSasl(0).message(),
        "Unexpected auth type during SCRAM: 0"
    );
    assert_eq!(
        BackendError::UnexpectedSaslFinal(11).message(),
        "Unexpected auth type in SCRAM final: 11"
    );
    assert_eq!(BackendError::BadLength(-1).message(), "Invalid message length: -1");
    assert_eq!(BackendError::TimedOut.message(), "Health check timed out");
    let cause = std::io::Error::new(std::io::ErrorKind::InvalidInput, "invalid nonce");
    assert_eq!(BackendError::Scram(cause).message(), "invalid nonce");
    let cause = std::io::Error::new(std::io::ErrorKind::InvalidInput, "too large");
    assert_eq!(BackendError::Encode(cause).message(), "too large");
}

#[test]
fn outside_errors_are_carried() {
    let error = |words: &str| Err(std::io::Error::other(words.to_string()));
    assert!(carry_encode(Ok(())).is_ok());
    assert!(carry_scram(Ok(())).is_ok());
    match carry_encode(error("too long")) {
        Err(BackendError::Encode(cause)) => assert_eq!(cause.to_string(), "too long"),
        _ => panic!("another result"),
    }
    match carry_scram(error("no match")) {
        Err(BackendError::Scram(cause)) => assert_eq!(cause.to_string(), "no match"),
        _ => panic!("another result"),
    }
}
