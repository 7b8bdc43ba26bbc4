//! Authentication as the `postgres-protocol` crate computes it: hashed passwords, the SCRAM
//! exchange, and the messages that carry them.
//!
//! Every item here is trusted: the contracts restate what that crate does.

use bytes::BytesMut;
use postgres_protocol::authentication::sasl::{ChannelBinding, ScramSha256};
use vstd::prelude::*;
use vstd::utf8::*;

use super::buffer::bytes_of;
use super::messages::{frame, i32_bytes};
use crate::words::says;

verus! {

/// `p`: the type of every message that answers a request for authentication.
pub const PASSWORD: u8 = 0x70;

/// What `postgres_protocol::authentication::md5_hash` returns for a user, a password and a salt.
pub uninterp spec fn md5_text(user: Seq<u8>, password: Seq<u8>, salt: Seq<u8>) -> Seq<char>;

/// A hexadecimal digit in lower case.
pub open spec fn is_hex_digit(c: char) -> bool {
    '0' <= c <= '9' || 'a' <= c <= 'f'
}

/// `md5` and thirty-two hexadecimal digits.
pub open spec fn is_md5_text(text: Seq<char>) -> bool {
    &&& text.len() == 35
    &&& text[0] == 'm' && text[1] == 'd' && text[2] == '5'
    &&& forall|i: int| 3 <= i < 35 ==> is_hex_digit(#[trigger] text[i])
}

/// `postgres_protocol::authentication::md5_hash`: `md5` and thirty-two hexadecimal digits, which
/// depend on the user, the password and the salt alone.
pub assume_specification[ postgres_protocol::authentication::md5_hash ](
    username: &[u8],
    password: &[u8],
    salt: [u8; 4],
) -> (text: String)
    ensures
        text@ == md5_text(username@, password@, salt@),
        is_md5_text(text@),
;

/// A message that answers with a password.
pub open spec fn password_bytes(password: Seq<u8>) -> Seq<u8> {
    frame(PASSWORD, password.push(0))
}

/// Whether a password can be sent: no zero byte in it, and the message is not too long.
pub open spec fn sendable_password(password: Seq<u8>) -> bool {
    !password.contains(0u8) && password.len() + 5 <= i32::MAX
}

/// The words of an encoder that fails, on a zero byte or else on a length that does not fit.
pub open spec fn encode_words(zero_byte: bool) -> Seq<char> {
    if zero_byte {
        "string contains embedded null"@
    } else {
        "value too large to transmit"@
    }
}

/// `postgres_protocol::message::frontend::password_message`: appends the password message, or
/// fails on a zero byte in the password or on a length that does not fit. What a failed call
/// leaves in the buffer is not stated.
pub assume_specification[ postgres_protocol::message::frontend::password_message ](
    password: &[u8],
    buf: &mut BytesMut,
) -> (result: std::io::Result<()>)
    ensures
        result is Ok <==> sendable_password(password@),
        result matches Err(error) ==> says(error, encode_words(password@.contains(0u8))),
        result is Ok ==> bytes_of(*final(buf)) == bytes_of(*old(buf)) + password_bytes(password@),
;

/// A message that starts a SASL exchange: the name of the mechanism, and the client's first
/// message behind its length.
pub open spec fn sasl_initial_bytes(mechanism: Seq<char>, data: Seq<u8>) -> Seq<u8> {
    frame(PASSWORD, encode_utf8(mechanism).push(0) + i32_bytes(data.len() as int) + data)
}

/// Whether a SASL exchange can be started with these: no zero byte in the mechanism's name, and the
/// message is not too long.
pub open spec fn sendable_initial(mechanism: Seq<char>, data: Seq<u8>) -> bool {
    let name = encode_utf8(mechanism);
    !name.contains(0u8) && name.len() + data.len() + 9 <= i32::MAX
}

/// `postgres_protocol::message::frontend::sasl_initial_response`: appends the message that starts
/// a SASL exchange, or fails on a zero byte in the mechanism's name or on a length that does not
/// fit. What a failed call leaves in the buffer is not stated.
pub assume_specification[ postgres_protocol::message::frontend::sasl_initial_response ](
    mechanism: &str,
    data: &[u8],
    buf: &mut BytesMut,
) -> (result: std::io::Result<()>)
    ensures
        result is Ok <==> sendable_initial(mechanism@, data@),
        result matches Err(error) ==> says(
            error,
            encode_words(encode_utf8(mechanism@).contains(0u8)),
        ),
        result is Ok ==> bytes_of(*final(buf)) == bytes_of(*old(buf)) + sasl_initial_bytes(
            mechanism@,
            data@,
        ),
;

/// A message that continues a SASL exchange.
pub open spec fn sasl_bytes(data: Seq<u8>) -> Seq<u8> {
    frame(PASSWORD, data)
}

/// `postgres_protocol::message::frontend::sasl_response`: appends the message that continues a
/// SASL exchange, or fails on a length that does not fit. What a failed call leaves in the buffer
/// is not stated.
pub assume_specification[ postgres_protocol::message::frontend::sasl_response ](
    data: &[u8],
    buf: &mut BytesMut,
) -> (result: std::io::Result<()>)
    ensures
        result is Ok <==> data@.len() + 4 <= i32::MAX,
        result matches Err(error) ==> says(error, encode_words(false)),
        result is Ok ==> bytes_of(*final(buf)) == bytes_of(*old(buf)) + sasl_bytes(data@),
;

/// The client side of a SCRAM-SHA-256 exchange, opaque but for [`exchange_of`].
#[verifier::external_type_specification]
#[verifier::external_body]
pub struct ExScramSha256(ScramSha256);

/// How far a SCRAM exchange has come, and what it rests on.
pub enum Exchange {
    /// Without channel binding; the client's first message is due.
    First { password: Seq<u8>, nonce: Seq<u8> },
    /// Without channel binding; the server's first message was accepted, and the client's final
    /// message is due.
    Last { password: Seq<u8>, nonce: Seq<u8>, server_first: Seq<u8> },
    /// The exchange is over, or a message of the server was refused.
    Over,
    /// With channel binding. Nothing is stated of such an exchange.
    Bound,
}

/// What a `ScramSha256` was made with and has been told since.
pub uninterp spec fn exchange_of(scram: ScramSha256) -> Exchange;

/// The client's final message that `ScramSha256::update` works out from the password, the client's
/// nonce and the server's first message; where it refuses the server's message, the words of the
/// error.
pub uninterp spec fn client_final(
    password: Seq<u8>,
    nonce: Seq<u8>,
    server_first: Seq<u8>,
) -> Result<Seq<u8>, Seq<char>>;

/// What `ScramSha256::finish` makes of the server's final message: it accepts the message as proof
/// that the server knows the password, or fails with an error of these words.
pub uninterp spec fn server_proof(
    password: Seq<u8>,
    nonce: Seq<u8>,
    server_first: Seq<u8>,
    server_final: Seq<u8>,
) -> Result<(), Seq<char>>;

/// A client nonce: twenty-four printable ASCII characters, none of them a comma.
pub open spec fn is_nonce(nonce: Seq<u8>) -> bool {
    &&& nonce.len() == 24
    &&& forall|i: int| 0 <= i < 24 ==> 0x21 <= #[trigger] nonce[i] <= 0x7e && nonce[i] != 0x2c
}

/// The client's first message without channel binding: `n,,n=,r=` and the nonce.
pub open spec fn client_first(nonce: Seq<u8>) -> Seq<u8> {
    encode_utf8("n,,n=,r="@) + nonce
}

/// An exchange for `password` of which nothing has been sent yet.
pub open spec fn at_start(exchange: Exchange, password: Seq<u8>) -> bool {
    match exchange {
        Exchange::First { password: p, nonce } => p == password && is_nonce(nonce),
        _ => false,
    }
}

/// `ScramSha256::new` with `ChannelBinding::unsupported`: an exchange at its start, for the given
/// password and a nonce drawn at random.
#[verifier::external_body]
pub(crate) fn start_scram(password: &[u8]) -> (scram: ScramSha256)
    ensures
        at_start(exchange_of(scram), password@),
{
    ScramSha256::new(password, ChannelBinding::unsupported())
}

/// `ScramSha256::message`: the message that the client sends next. It panics once the exchange is
/// over.
pub assume_specification[ ScramSha256::message ](scram: &ScramSha256) -> (message: &[u8])
    requires
        exchange_of(*scram) is First || exchange_of(*scram) is Last,
    ensures
        match exchange_of(*scram) {
            Exchange::First { password, nonce } => message@ == client_first(nonce),
            Exchange::Last { password, nonce, server_first } => client_final(
                password,
                nonce,
                server_first,
            ) matches Ok(answer) && message@ == answer,
            _ => true,
        },
;

/// `ScramSha256::update`: takes the server's first message. The exchange is over where the message
/// is refused or was not due.
pub assume_specification[ ScramSha256::update ](
    scram: &mut ScramSha256,
    message: &[u8],
) -> (result: std::io::Result<()>)
    ensures
        match exchange_of(*old(scram)) {
            Exchange::First { password, nonce } => match client_final(password, nonce, message@) {
                Ok(_) => result is Ok && exchange_of(*final(scram)) == (Exchange::Last {
                    password,
                    nonce,
                    server_first: message@,
                }),
                Err(words) => (result matches Err(error) && says(error, words)) && exchange_of(
                    *final(scram),
                ) is Over,
            },
            Exchange::Bound => true,
            _ => result is Err && exchange_of(*final(scram)) is Over,
        },
;

/// `ScramSha256::finish`: takes the server's final message and succeeds where it proves that the
/// server knows the password. The exchange is over either way.
pub assume_specification[ ScramSha256::finish ](
    scram: &mut ScramSha256,
    message: &[u8],
) -> (result: std::io::Result<()>)
    ensures
        exchange_of(*final(scram)) is Over,
        match exchange_of(*old(scram)) {
            Exchange::Last { password, nonce, server_first } => match server_proof(
                password,
                nonce,
                server_first,
                message@,
            ) {
                Ok(_) => result is Ok,
                Err(words) => result matches Err(error) && says(error, words),
            },
            Exchange::Bound => true,
            _ => result is Err,
        },
;

} // verus!
