use bytes::BytesMut;
use pgmux::protocol::connect::{Action, BackendConnect};
use pgmux::protocol::error::{BackendError, Step};
use postgres_protocol::authentication::sasl::{ChannelBinding, ScramSha256};

fn message(msg_type: u8, payload: &[u8]) -> Vec<u8> {
    let mut bytes = vec![msg_type];
    bytes.extend_from_slice(&(payload.len() as i32 + 4).to_be_bytes());
    bytes.extend_from_slice(payload);
    bytes
}

fn auth(code: i32, data: &[u8]) -> Vec<u8> {
    let mut payload = code.to_be_bytes().to_vec();
    payload.extend_from_slice(data);
    message(b'R', &payload)
}

fn ready() -> Vec<u8> {
    message(b'Z', b"I")
}

/// A connection and its buffer.
struct Client {
    connect: BackendConnect,
    buf: BytesMut,
}

impl Client {
    fn new(password: &str) -> Client {
        let mut client = Client {
            connect: BackendConnect::new("md5_user", password),
            buf: BytesMut::new(),
        };
        assert!(matches!(client.poll(), Ok(Action::Read)));
        client
    }

    fn poll(&mut self) -> Result<Action, BackendError> {
        assert!(self.connect.can_poll(&self.buf));
        self.connect.poll(&mut self.buf)
    }

    fn receive(&mut self, bytes: &[u8]) -> Result<Action, BackendError> {
        self.buf.extend_from_slice(bytes);
        self.connect.on_read(bytes.len()).unwrap();
        self.poll()
    }

    fn expect_send(&mut self, bytes: &[u8]) -> Vec<u8> {
        match self.receive(bytes) {
            Ok(Action::Send(sent)) => sent.to_vec(),
            Ok(_) => panic!("nothing sent"),
            Err(error) => panic!("{}", error.message()),
        }
    }

    fn expect_read(&mut self, bytes: &[u8]) {
        assert!(matches!(self.receive(bytes), Ok(Action::Read)));
    }

    fn expect_ready(&mut self, bytes: &[u8]) {
        assert!(matches!(self.receive(bytes), Ok(Action::Ready)));
    }

    fn expect_error(&mut self, bytes: &[u8]) -> BackendError {
        match self.receive(bytes) {
            Err(error) => error,
            Ok(_) => panic!("no error"),
        }
    }

    fn disconnected(&mut self) -> String {
        self.connect.on_read(0).unwrap_err().message()
    }
}

const OFFER: &[u8] = b"SCRAM-SHA-256-PLUS\x00SCRAM-SHA-256\x00\x00";

/// A client that has sent its first SASL message, and the nonce of that.
fn client_in_sasl(password: &str) -> (Client, String) {
    let mut client = Client::new(password);
    let sent = client.expect_send(&auth(10, OFFER));
    assert_eq!(sent.len(), 1 + 4 + 14 + 4 + 32);
    assert_eq!(&sent[..5], b"p\x00\x00\x00\x36");
    assert_eq!(&sent[5..19], b"SCRAM-SHA-256\x00");
    assert_eq!(&sent[19..23], b"\x00\x00\x00\x20");
    assert_eq!(&sent[23..31], b"n,,n=,r=");
    let nonce = String::from_utf8(sent[31..].to_vec()).unwrap();
    assert!(nonce.bytes().all(|b| (0x21..=0x7e).contains(&b) && b != b','));
    assert!(matches!(client.poll(), Ok(Action::Read)));
    (client, nonce)
}

#[test]
fn a_trusted_client_is_connected() {
    let mut client = Client::new("secret");
    let mut bytes = auth(0, b"");
    bytes.extend(message(b'S', b"server_version\x0017\x00"));
    bytes.extend(message(b'K', &[0; 8]));
    bytes.extend(message(b'N', b"Mhello\x00\x00"));
    bytes.extend(ready());
    bytes.extend(b"left");
    client.expect_ready(&bytes);
    assert_eq!(&client.buf[..], b"left");
}

#[test]
fn a_password_is_sent_when_asked_for() {
    let mut client = Client::new("secret");
    assert_eq!(client.expect_send(&auth(3, b"")), b"p\x00\x00\x00\x0bsecret\x00");
    assert!(matches!(client.poll(), Ok(Action::Read)));
    client.expect_read(&auth(0, b""));
    client.expect_ready(&ready());
}

#[test]
fn a_hashed_password_is_sent_when_asked_for() {
    let mut client = Client::new("password");
    let sent = client.expect_send(&auth(5, &[0x2a, 0x3d, 0x8f, 0xe0]));
    assert_eq!(sent, b"p\x00\x00\x00\x28md562af4dd09bbb41884907a838a3233294\x00");
}

#[test]
fn messages_behind_a_request_are_kept() {
    let mut client = Client::new("secret");
    let mut bytes = auth(3, b"");
    bytes.extend(auth(0, b""));
    bytes.extend(ready());
    client.expect_send(&bytes);
    assert!(matches!(client.poll(), Ok(Action::Ready)));
    assert!(client.buf.is_empty());
}

#[test]
fn messages_may_come_in_any_pieces() {
    let mut client = Client::new("secret");
    let request = auth(3, b"");
    for byte in &request[..request.len() - 1] {
        client.expect_read(&[*byte]);
    }
    client.expect_send(&request[request.len() - 1..]);
    let mut rest = auth(0, b"");
    rest.extend(message(b'S', b"a\x00b\x00"));
    rest.extend(ready());
    for byte in &rest[..rest.len() - 1] {
        client.expect_read(&[*byte]);
    }
    client.expect_ready(&rest[rest.len() - 1..]);
}

#[test]
fn an_accepted_client_is_connected_however_the_bytes_are_cut() {
    let mut bytes = auth(0, b"");
    bytes.extend(message(b'S', b"a\x00b\x00"));
    bytes.extend(message(b'K', &[7; 8]));
    bytes.extend(ready());
    for first in 1..bytes.len() {
        for second in first..bytes.len() {
            let mut client = Client::new("secret");
            client.expect_read(&bytes[..first]);
            if first < second {
                client.expect_read(&bytes[first..second]);
            }
            assert_eq!(client.connect.is_authenticated(), second >= 9);
            client.expect_ready(&bytes[second..]);
            assert!(client.buf.is_empty());
        }
    }
}

#[test]
fn the_password_makes_no_difference_until_it_is_asked_for() {
    for password in ["", "secret", "with\0zero"] {
        let mut client = Client::new(password);
        client.expect_read(&message(b'N', b"Mhello\x00\x00"));
        client.expect_read(&auth(0, b""));
        client.expect_ready(&ready());

        let mut client = Client::new(password);
        assert_eq!(client.expect_error(&auth(7, b"")).message(), "Unsupported auth type: 7");
    }
}

#[test]
fn a_password_with_a_zero_byte_cannot_be_sent() {
    let error = Client::new("a\0b").expect_error(&auth(3, b""));
    assert!(matches!(error, BackendError::Encode(_)));
    assert_eq!(error.message(), "string contains embedded null");
}

#[test]
fn short_authentication_messages_are_refused() {
    let error = Client::new("x").expect_error(&message(b'R', b"\x00\x00\x00"));
    assert!(matches!(error, BackendError::InvalidAuth));
    let error = Client::new("x").expect_error(&auth(5, b"\x01\x02\x03"));
    assert!(matches!(error, BackendError::InvalidMd5));
}

#[test]
fn other_kinds_of_authentication_are_refused() {
    for code in [1, 2, 6, 7, 8, 9, 11, 12, -1, i32::MAX] {
        let error = Client::new("x").expect_error(&auth(code, b""));
        assert_eq!(error.message(), format!("Unsupported auth type: {code}"));
    }
}

#[test]
fn other_mechanisms_are_refused() {
    for offer in [
        &b""[..],
        &b"\x00"[..],
        &b"SCRAM-SHA-256-PLUS\x00\x00"[..],
        &b"SCRAM-SHA-25\x006\x00"[..],
        &b"XSCRAM-SHA-256\x00"[..],
        &b"\xff\x00scram-sha-256\x00"[..],
    ] {
        let error = Client::new("x").expect_error(&auth(10, offer));
        assert!(matches!(error, BackendError::NoMechanism));
    }
}

#[test]
fn the_mechanism_is_found_anywhere_in_the_offer() {
    for offer in [
        &b"SCRAM-SHA-256"[..],
        &b"SCRAM-SHA-256\x00\x00"[..],
        &b"\x00\x00SCRAM-SHA-256"[..],
        &b"\xff\xfe\x00SCRAM-SHA-256\x00A\x00"[..],
    ] {
        Client::new("x").expect_send(&auth(10, offer));
    }
}

#[test]
fn the_server_may_refuse_at_every_stage() {
    let refusal = message(b'E', b"SFATAL\x00Mno such user\x00\x00");
    let error = Client::new("x").expect_error(&refusal);
    assert_eq!(error.message(), "Backend error: no such user");

    let (mut client, _) = client_in_sasl("x");
    let error = client.expect_error(&refusal);
    assert!(matches!(error, BackendError::Refused(Step::SaslContinue, _)));
    assert_eq!(error.message(), "Backend error during SCRAM: no such user");

    let mut client = scram_answered("pencil").0;
    let error = client.expect_error(&refusal);
    assert!(matches!(error, BackendError::Refused(Step::SaslFinal, _)));

    let mut client = Client::new("x");
    client.expect_read(&auth(0, b""));
    let error = client.expect_error(&refusal);
    assert_eq!(error.message(), "Backend error after auth: no such user");
}

#[test]
fn the_server_may_disconnect_at_every_stage() {
    assert_eq!(Client::new("x").disconnected(), "Backend disconnected during auth");
    assert_eq!(client_in_sasl("x").0.disconnected(), "Backend disconnected during SCRAM");
    assert_eq!(
        scram_answered("pencil").0.disconnected(),
        "Backend disconnected during SCRAM final"
    );
    let mut client = Client::new("x");
    client.expect_read(&auth(0, b""));
    assert_eq!(client.disconnected(), "Backend disconnected after auth");
}

#[test]
fn a_bad_length_is_refused() {
    let error = Client::new("x").expect_error(b"R\x00\x00\x00\x03");
    assert!(matches!(error, BackendError::BadLength(3)));
}

#[test]
fn readiness_ends_the_startup_even_without_acceptance() {
    Client::new("x").expect_ready(&ready());
}

#[test]
fn requests_are_passed_over_once_the_client_waits() {
    let mut client = Client::new("x");
    client.expect_read(&auth(0, b""));
    client.expect_read(&auth(3, b""));
    client.expect_read(&message(b'R', b""));
    client.expect_ready(&ready());
}

#[test]
fn a_request_right_behind_the_acceptance_is_answered() {
    let mut client = Client::new("x");
    let mut bytes = auth(0, b"");
    bytes.extend(auth(3, b""));
    assert_eq!(client.expect_send(&bytes), b"p\x00\x00\x00\x06x\x00");
}

#[test]
fn a_sasl_exchange_takes_one_message_per_read() {
    let (mut client, nonce) = client_in_sasl("pencil");
    let first = format!("r={nonce}server,s=QSXCR+Q6sek8bf92,i=4096");
    let mut bytes = message(b'S', b"a\x00b\x00");
    bytes.extend(auth(11, first.as_bytes()));
    client.expect_read(&bytes);
    // The second message is there, but only taken after another read.
    assert!(matches!(client.poll(), Ok(Action::Read)));
    client.expect_send(b"S");
}

#[test]
fn a_sasl_exchange_needs_its_own_messages() {
    let (mut client, _) = client_in_sasl("x");
    let error = client.expect_error(&auth(0, b""));
    assert!(matches!(error, BackendError::UnexpectedSasl(0)));

    let mut client = scram_answered("pencil").0;
    let error = client.expect_error(&auth(11, b""));
    assert!(matches!(error, BackendError::UnexpectedSaslFinal(11)));
}

#[test]
fn a_short_message_in_a_sasl_exchange_cannot_be_taken() {
    let (mut client, _) = client_in_sasl("x");
    client.buf.extend_from_slice(&message(b'R', b"\x00\x00\x00"));
    assert!(client.connect.can_poll(&client.buf));
    client.connect.on_read(8).unwrap();
    assert!(!client.connect.can_poll(&client.buf));

    let (mut client, _) = client_in_sasl("x");
    client.buf.extend_from_slice(&message(b'S', b"\x00\x00\x00"));
    client.connect.on_read(8).unwrap();
    assert!(client.connect.can_poll(&client.buf));

    let mut client = Client::new("x");
    client.buf.extend_from_slice(&message(b'R', b"\x00\x00\x00"));
    client.connect.on_read(8).unwrap();
    assert!(client.connect.can_poll(&client.buf));
}

#[test]
fn an_exchange_is_opened_with_its_first_message() {
    let scram = ScramSha256::new(b"pencil", ChannelBinding::unsupported());
    let first = scram.message().to_vec();
    let mut client = Client::new("pencil");
    let sent = client.connect.begin_sasl(scram).unwrap();
    let mut expected = b"p\x00\x00\x00\x36SCRAM-SHA-256\x00\x00\x00\x00\x20".to_vec();
    expected.extend(first);
    assert_eq!(&sent[..], &expected[..]);
    assert!(matches!(client.poll(), Ok(Action::Read)));
    assert!(matches!(
        client.expect_error(&auth(0, b"")),
        BackendError::UnexpectedSasl(0)
    ));
}

#[test]
fn a_server_with_another_nonce_is_refused() {
    let (mut client, _) = client_in_sasl("pencil");
    let error = client.expect_error(&auth(11, b"r=other,s=QSXCR+Q6sek8bf92,i=4096"));
    assert!(matches!(error, BackendError::Scram(_)));
    assert_eq!(error.message(), "invalid nonce");
}

#[test]
fn a_scram_exchange_goes_through() {
    let (mut client, server_signature) = scram_answered("pencil");
    let last = format!("v={}", base64(&server_signature));
    let mut bytes = auth(12, last.as_bytes());
    bytes.extend(auth(0, b""));
    bytes.extend(message(b'S', b"a\x00b\x00"));
    bytes.extend(ready());
    client.expect_ready(&bytes);
    assert!(client.buf.is_empty());
}

#[test]
fn a_server_that_does_not_know_the_password_is_refused() {
    let (mut client, mut server_signature) = scram_answered("pencil");
    server_signature[0] ^= 1;
    let last = format!("v={}", base64(&server_signature));
    let error = client.expect_error(&auth(12, last.as_bytes()));
    assert!(matches!(error, BackendError::Scram(_)));
    assert_eq!(error.message(), "SCRAM verification error");
}

#[test]
fn an_acceptance_ends_a_scram_exchange() {
    let mut client = scram_answered("pencil").0;
    client.expect_read(&auth(0, b""));
    // It does not count as accepted, so a request is still answered.
    client.expect_send(&auth(3, b""));
    client.expect_ready(&ready());
}

/// A client whose final SASL message has been checked, and the signature by which the server proves
/// that it knows the password.
fn scram_answered(password: &str) -> (Client, Vec<u8>) {
    let (mut client, nonce) = client_in_sasl(password);
    let salt = b"0123456789ab";
    let first = format!("r={nonce}SERVER,s={},i=3", base64(salt));
    let sent = client.expect_send(&auth(11, first.as_bytes()));
    assert_eq!(sent[0], b'p');
    assert_eq!(&sent[1..5], &(sent.len() as i32 - 1).to_be_bytes());
    assert!(matches!(client.poll(), Ok(Action::Read)));

    let mut salted = salt.to_vec();
    salted.extend_from_slice(&[0, 0, 0, 1]);
    let mut block = hmac(password.as_bytes(), &salted);
    let mut salted_password = block.clone();
    for _ in 1..3 {
        block = hmac(password.as_bytes(), &block);
        salted_password = xor(&salted_password, &block);
    }
    let client_key = hmac(&salted_password, b"Client Key");
    let without_proof = format!("c=biws,r={nonce}SERVER");
    let signed = format!("n=,r={nonce},{first},{without_proof}");
    let proof = xor(&client_key, &hmac(&sha256(&client_key), signed.as_bytes()));
    let expected = format!("{without_proof},p={}", base64(&proof));
    assert_eq!(&sent[5..], expected.as_bytes());

    let server_key = hmac(&salted_password, b"Server Key");
    (client, hmac(&server_key, signed.as_bytes()))
}

fn xor(a: &[u8], b: &[u8]) -> Vec<u8> {
    a.iter().zip(b).map(|(x, y)| x ^ y).collect()
}

fn base64(bytes: &[u8]) -> String {
    let alphabet = b"ABCDEFGHIJKLMNOPQRSTUVWXYZabcdefghijklmnopqrstuvwxyz0123456789+/";
    let mut text = String::new();
    for chunk in bytes.chunks(3) {
        let group = chunk.iter().fold(0u32, |g, b| g << 8 | *b as u32) << (8 * (3 - chunk.len()));
        for i in 0..4 {
            if i <= chunk.len() {
                text.push(alphabet[(group >> (18 - 6 * i) & 63) as usize] as char);
            } else {
                text.push('=');
            }
        }
    }
    text
}

fn hmac(key: &[u8], data: &[u8]) -> Vec<u8> {
    let mut block = if key.len() > 64 { sha256(key) } else { key.to_vec() };
    block.resize(64, 0);
    let mut inner: Vec<u8> = block.iter().map(|b| b ^ 0x36).collect();
    inner.extend_from_slice(data);
    let mut outer: Vec<u8> = block.iter().map(|b| b ^ 0x5c).collect();
    outer.extend_from_slice(&sha256(&inner));
    sha256(&outer)
}

/// The first 32 bits of the fractional part of a root of the `n`-th prime.
fn root_bits(n: usize, root: f64) -> u32 {
    let prime = (2u32..)
        .filter(|p| (2..*p).all(|d| p % d != 0))
        .nth(n)
        .unwrap();
    let value = (prime as f64).powf(1.0 / root);
    ((value - value.floor()) * 4_294_967_296.0) as u32
}

fn sha256(data: &[u8]) -> Vec<u8> {
    let mut state: Vec<u32> = (0..8).map(|n| root_bits(n, 2.0)).collect();
    let constants: Vec<u32> = (0..64).map(|n| root_bits(n, 3.0)).collect();
    let mut bytes = data.to_vec();
    bytes.push(0x80);
    while bytes.len() % 64 != 56 {
        bytes.push(0);
    }
    bytes.extend_from_slice(&(data.len() as u64 * 8).to_be_bytes());
    for block in bytes.chunks(64) {
        let mut w: Vec<u32> = block
            .chunks(4)
            .map(|c| u32::from_be_bytes([c[0], c[1], c[2], c[3]]))
            .collect();
        for i in 16..64 {
            let s0 = w[i - 15].rotate_right(7) ^ w[i - 15].rotate_right(18) ^ w[i - 15] >> 3;
            let s1 = w[i - 2].rotate_right(17) ^ w[i - 2].rotate_right(19) ^ w[i - 2] >> 10;
            w.push(w[i - 16].wrapping_add(s0).wrapping_add(w[i - 7]).wrapping_add(s1));
        }
        let mut v = state.clone();
        for i in 0..64 {
            let s1 = v[4].rotate_right(6) ^ v[4].rotate_right(11) ^ v[4].rotate_right(25);
            let choice = (v[4] & v[5]) ^ (!v[4] & v[6]);
            let one = v[7]
                .wrapping_add(s1)
                .wrapping_add(choice)
                .wrapping_add(constants[i])
                .wrapping_add(w[i]);
            let s0 = v[0].rotate_right(2) ^ v[0].rotate_right(13) ^ v[0].rotate_right(22);
            let majority = (v[0] & v[1]) ^ (v[0] & v[2]) ^ (v[1] & v[2]);
            let two = s0.wrapping_add(majority);
            v = vec![
                one.wrapping_add(two),
                v[0],
                v[1],
                v[2],
                v[3].wrapping_add(one),
                v[4],
                v[5],
                v[6],
            ];
        }
        for (s, x) in state.iter_mut().zip(v) {
            *s = s.wrapping_add(x);
        }
    }
    state.iter().flat_map(|s| s.to_be_bytes()).collect()
}

#[test]
fn the_digest_used_here_is_right() {
    let hex: String = sha256(b"abc").iter().map(|b| format!("{b:02x}")).collect();
    assert_eq!(hex, "ba7816bf8f01cfea414140de5dae2223b00361a396177a9cb410ff61f20015ad");
    assert_eq!(base64(b"n,,"), "biws");
    assert_eq!(base64(b"abcd"), "YWJjZA==");
}
