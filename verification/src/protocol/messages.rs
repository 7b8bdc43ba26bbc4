//! Framing of wire protocol messages, and the messages that the multiplexer writes itself.

use bytes::BytesMut;
use vstd::prelude::*;
use vstd::utf8::*;

use super::buffer::{
    advance, as_slice, bytes_of, extend_from_slice, get_i32, new_buffer, put_i32, put_u8,
};

verus! {

/// `Q`: the type of a simple query message.
pub const QUERY: u8 = 0x51;

/// `R`: the type of an authentication message.
pub const AUTHENTICATION: u8 = 0x52;

/// `E`: the type of an error message.
pub const ERROR: u8 = 0x45;

/// `Z`: the type of the message that says that the server is ready for queries.
pub const READY: u8 = 0x5a;

/// Version 3.0 of the protocol.
pub const PROTOCOL_VERSION: i32 = 0x3_0000;

/// The signed 32-bit number in the first four bytes, most significant byte first.
pub open spec fn be_i32(bytes: Seq<u8>) -> int {
    let unsigned = bytes[0] * 0x100_0000 + bytes[1] * 0x1_0000 + bytes[2] * 0x100 + bytes[3];
    if unsigned < 0x8000_0000 {
        unsigned
    } else {
        unsigned - 0x1_0000_0000
    }
}

/// The four bytes of a signed 32-bit number in two's complement, most significant byte first.
pub open spec fn i32_bytes(value: int) -> Seq<u8> {
    let unsigned = if value < 0 {
        value + 0x1_0000_0000
    } else {
        value
    };
    seq![
        (unsigned / 0x100_0000 % 0x100) as u8,
        (unsigned / 0x1_0000 % 0x100) as u8,
        (unsigned / 0x100 % 0x100) as u8,
        (unsigned % 0x100) as u8,
    ]
}

/// Writing a signed 32-bit number and reading it gives the number back, whatever follows it.
pub proof fn law_i32_round_trip(value: int, rest: Seq<u8>)
    requires
        i32::MIN <= value <= i32::MAX,
    ensures
        i32_bytes(value).len() == 4,
        be_i32(i32_bytes(value) + rest) == value,
{
    let bytes = i32_bytes(value) + rest;
    let unsigned = if value < 0 {
        value + 0x1_0000_0000
    } else {
        value
    };
    let upper_three = unsigned / 0x100;
    let upper_two = unsigned / 0x1_0000;
    assert(upper_two == upper_three / 0x100);
    assert(unsigned / 0x100_0000 == upper_two / 0x100);
    assert(bytes[0] == upper_two / 0x100);
    assert(bytes[1] == upper_two % 0x100);
    assert(bytes[2] == upper_three % 0x100);
    assert(bytes[3] == unsigned % 0x100);
    assert(unsigned == bytes[0] * 0x100_0000 + bytes[1] * 0x1_0000 + bytes[2] * 0x100 + bytes[3]);
}

/// The four bytes of a number that was read are those that it was read from.
pub proof fn law_i32_bytes_kept(bytes: Seq<u8>)
    requires
        bytes.len() >= 4,
    ensures
        i32::MIN <= be_i32(bytes) <= i32::MAX,
        i32_bytes(be_i32(bytes)) == bytes.take(4),
{
    let unsigned = bytes[0] * 0x100_0000 + bytes[1] * 0x1_0000 + bytes[2] * 0x100 + bytes[3];
    let upper_three = bytes[0] * 0x1_0000 + bytes[1] * 0x100 + bytes[2];
    let upper_two = bytes[0] * 0x100 + bytes[1];
    assert(unsigned / 0x100 == upper_three);
    assert(unsigned / 0x1_0000 == upper_two);
    assert(unsigned / 0x100_0000 == bytes[0] as int);
    assert(i32_bytes(be_i32(bytes)) =~= bytes.take(4));
}

/// A message from the server: its type byte and the bytes after its length.
#[derive(Debug, Clone)]
pub struct Message {
    pub msg_type: u8,
    pub payload: Vec<u8>,
}

/// The bytes of a message on the wire: the type, the length of what follows the type (the
/// length field counts itself), then the payload.
pub open spec fn frame(msg_type: u8, payload: Seq<u8>) -> Seq<u8> {
    seq![msg_type] + i32_bytes(payload.len() as int + 4) + payload
}

/// What the front of a buffer holds.
pub enum Front {
    /// Not yet a whole message.
    Incomplete,
    /// A length field that cannot be: less than the four bytes of the field itself.
    BadLength { length: int },
    /// A whole message.
    Whole { msg_type: u8, payload: Seq<u8> },
}

/// The first message in `bytes`, if it is all there.
pub open spec fn front(bytes: Seq<u8>) -> Front {
    if bytes.len() < 5 {
        Front::Incomplete
    } else {
        let length = be_i32(bytes.skip(1));
        if length < 4 {
            Front::BadLength { length }
        } else if bytes.len() < 1 + length {
            Front::Incomplete
        } else {
            Front::Whole { msg_type: bytes[0], payload: bytes.subrange(5, 1 + length) }
        }
    }
}

/// What is left behind the first message, given that message's payload.
pub open spec fn behind(bytes: Seq<u8>, payload: Seq<u8>) -> Seq<u8> {
    bytes.skip(5 + payload.len() as int)
}

/// A message whose length field is less than four.
#[derive(Debug, Clone, Copy, PartialEq, Eq, Structural)]
pub struct BadLength {
    pub length: i32,
}

/// Takes the first message off the buffer. `Ok(None)` means that more bytes are needed; the
/// buffer is then as it was, and so it is on an error.
pub fn try_read_message(buf: &mut BytesMut) -> (result: Result<Option<Message>, BadLength>)
    ensures
        match front(bytes_of(*old(buf))) {
            Front::Incomplete => result matches Ok(None) && bytes_of(*final(buf)) == bytes_of(
                *old(buf),
            ),
            Front::BadLength { length } => result matches Err(e) && e.length == length && bytes_of(
                *final(buf),
            ) == bytes_of(*old(buf)),
            Front::Whole { msg_type, payload } => result matches Ok(Some(m)) && m.msg_type
                == msg_type && m.payload@ == payload && bytes_of(*final(buf)) == behind(
                bytes_of(*old(buf)),
                payload,
            ),
        },
{
    let bytes = as_slice(buf);
    if bytes.len() < 5 {
        return Ok(None);
    }
    let length: i32 = get_i32(vstd::slice::slice_subrange(bytes, 1, bytes.len()));
    assert(bytes@.subrange(1, bytes@.len() as int) == bytes@.skip(1));
    if length < 4 {
        return Err(BadLength { length });
    }
    let body: usize = length as usize - 4;
    if bytes.len() - 5 < body {
        return Ok(None);
    }
    let msg_type: u8 = bytes[0];
    let payload = vstd::slice::slice_to_vec(vstd::slice::slice_subrange(bytes, 5, 5 + body));
    advance(buf, 5 + body);
    Ok(Some(Message { msg_type, payload }))
}

/// How many bytes come before the first zero byte, or all of them where there is none.
pub open spec fn until_zero(bytes: Seq<u8>) -> nat
    decreases bytes.len(),
{
    if bytes.len() == 0 || bytes[0] == 0 {
        0
    } else {
        1 + until_zero(bytes.skip(1))
    }
}

/// The bytes before the first zero byte are `n` where no byte before the `n`-th is zero and the
/// `n`-th, if there is one, is.
pub proof fn lemma_until_zero(bytes: Seq<u8>, n: nat)
    requires
        n <= bytes.len(),
        forall|i: int| 0 <= i < n ==> bytes[i] != 0,
        n == bytes.len() || bytes[n as int] == 0,
    ensures
        until_zero(bytes) == n,
    decreases n,
{
    if n > 0 {
        assert(bytes[0] != 0);
        assert forall|i: int| 0 <= i < n - 1 implies bytes.skip(1)[i] != 0 by {
            assert(bytes[i + 1] != 0);
        }
        lemma_until_zero(bytes.skip(1), (n - 1) as nat);
    }
}

/// A text as the protocol writes it: UTF-8 and a zero byte.
pub open spec fn zero_ended(text: Seq<char>) -> Seq<u8> {
    encode_utf8(text).push(0)
}

/// A simple query message, which holds the query as a zero-ended string.
pub open spec fn query_bytes(query: Seq<char>) -> Seq<u8> {
    frame(QUERY, zero_ended(query))
}

/// Builds a simple query message.
pub fn query_message(query: &str) -> (buf: BytesMut)
    requires
        encode_utf8(query@).len() + 5 <= i32::MAX,
    ensures
        bytes_of(buf) == query_bytes(query@),
{
    let bytes = query.as_bytes();
    let mut buf = new_buffer();
    put_u8(&mut buf, QUERY);
    put_i32(&mut buf, bytes.len() as i32 + 5);
    extend_from_slice(&mut buf, bytes);
    put_u8(&mut buf, 0);
    assert(bytes_of(buf) =~= query_bytes(query@));
    buf
}

/// The settings of a connection as they stand in a startup message: each name and each value
/// as a zero-ended string.
pub open spec fn settings_bytes(settings: Seq<(Seq<char>, Seq<char>)>) -> Seq<u8>
    decreases settings.len(),
{
    if settings.len() == 0 {
        seq![]
    } else {
        settings_bytes(settings.drop_last()) + zero_ended(settings.last().0) + zero_ended(
            settings.last().1,
        )
    }
}

/// The settings that a connection is opened with: the user, the database, then the extra ones in
/// their order.
pub open spec fn startup_settings(
    user: Seq<char>,
    database: Seq<char>,
    extra_params: Seq<(String, String)>,
) -> Seq<(Seq<char>, Seq<char>)> {
    seq![("user"@, user), ("database"@, database)] + extra_params.map_values(
        |p: (String, String)| (p.0@, p.1@),
    )
}

/// What a startup message holds behind its length: the protocol version, the settings, and a zero
/// byte that ends them.
pub open spec fn startup_body(settings: Seq<(Seq<char>, Seq<char>)>) -> Seq<u8> {
    i32_bytes(PROTOCOL_VERSION as int) + settings_bytes(settings) + seq![0u8]
}

/// A startup message: it has no type byte, and its length counts itself.
pub open spec fn startup_bytes(settings: Seq<(Seq<char>, Seq<char>)>) -> Seq<u8> {
    i32_bytes(startup_body(settings).len() as int + 4) + startup_body(settings)
}

proof fn lemma_settings_bytes_grow(settings: Seq<(Seq<char>, Seq<char>)>, count: int)
    requires
        0 <= count <= settings.len(),
    ensures
        settings_bytes(settings.take(count)).len() <= settings_bytes(settings).len(),
    decreases settings.len(),
{
    if count == settings.len() {
        assert(settings.take(count) =~= settings);
    } else {
        assert(settings.take(count) =~= settings.drop_last().take(count));
        lemma_settings_bytes_grow(settings.drop_last(), count);
    }
}

/// Whether a startup message with these settings is short enough for its length field.
pub fn startup_message_fits(
    user: &str,
    database: &str,
    extra_params: &[(String, String)],
) -> (fits: bool)
    ensures
        fits == (startup_bytes(startup_settings(user@, database@, extra_params@)).len()
            <= i32::MAX),
{
    let ghost settings = startup_settings(user@, database@, extra_params@);
    let limit: u128 = i32::MAX as u128;
    // Length and version, the two names, four zero bytes behind names and values, and the last one.
    let fixed: u128 = 8 + 4 + 8 + 4 + 1;
    let mut length: u128 = fixed + user.as_bytes().len() as u128 + database.as_bytes().len() as u128;
    proof {
        let first = settings.take(2);
        reveal_strlit("user");
        reveal_strlit("database");
        is_ascii_chars_encode_utf8("user"@);
        is_ascii_chars_encode_utf8("database"@);
        reveal_with_fuel(settings_bytes, 3);
        assert(first.drop_last().drop_last() =~= seq![]);
        assert(length == settings_bytes(first).len() + 9);
    }
    for i in 0..extra_params.len()
        invariant
            limit == i32::MAX,
            settings == startup_settings(user@, database@, extra_params@),
            length == settings_bytes(settings.take(i as int + 2)).len() + 9,
            length <= i32::MAX + 2 * usize::MAX + 25,
    {
        proof {
            lemma_settings_bytes_grow(settings, i as int + 2);
        }
        if length > limit {
            return false;
        }
        length = length + extra_params[i].0.as_str().as_bytes().len() as u128
            + extra_params[i].1.as_str().as_bytes().len() as u128 + 2;
        proof {
            let next = settings.take(i as int + 3);
            assert(next.drop_last() =~= settings.take(i as int + 2));
        }
    }
    assert(settings.take(settings.len() as int) =~= settings);
    length <= limit
}

/// Builds the message that opens a connection.
pub fn build_startup_message(
    user: &str,
    database: &str,
    extra_params: &[(String, String)],
) -> (buf: BytesMut)
    requires
        startup_bytes(startup_settings(user@, database@, extra_params@)).len() <= i32::MAX,
    ensures
        bytes_of(buf) == startup_bytes(startup_settings(user@, database@, extra_params@)),
{
    let ghost settings = startup_settings(user@, database@, extra_params@);
    let mut body = new_buffer();
    put_i32(&mut body, PROTOCOL_VERSION);
    put_text(&mut body, "user");
    put_text(&mut body, user);
    put_text(&mut body, "database");
    put_text(&mut body, database);
    proof {
        let first = settings.take(2);
        reveal_with_fuel(settings_bytes, 3);
        assert(first.drop_last().drop_last() =~= seq![]);
        assert(bytes_of(body) =~= i32_bytes(PROTOCOL_VERSION as int) + settings_bytes(first));
    }
    for i in 0..extra_params.len()
        invariant
            settings == startup_settings(user@, database@, extra_params@),
            bytes_of(body) == i32_bytes(PROTOCOL_VERSION as int) + settings_bytes(
                settings.take(i as int + 2),
            ),
    {
        put_text(&mut body, extra_params[i].0.as_str());
        put_text(&mut body, extra_params[i].1.as_str());
        proof {
            let next = settings.take(i as int + 3);
            assert(next.drop_last() =~= settings.take(i as int + 2));
            assert(bytes_of(body) =~= i32_bytes(PROTOCOL_VERSION as int) + settings_bytes(next));
        }
    }
    put_u8(&mut body, 0);
    assert(settings.take(settings.len() as int) =~= settings);
    assert(bytes_of(body) =~= startup_body(settings));
    let bytes = as_slice(&body);
    let mut buf = new_buffer();
    put_i32(&mut buf, bytes.len() as i32 + 4);
    extend_from_slice(&mut buf, bytes);
    assert(bytes_of(buf) =~= startup_bytes(settings));
    buf
}

/// Appends a zero-ended string.
fn put_text(buf: &mut BytesMut, text: &str)
    ensures
        bytes_of(*final(buf)) == bytes_of(*old(buf)) + zero_ended(text@),
{
    extend_from_slice(buf, text.as_bytes());
    put_u8(buf, 0);
    assert(bytes_of(*buf) =~= bytes_of(*old(buf)) + zero_ended(text@));
}

/// A message that was written is read back, whatever follows it, and nothing else is taken with it.
pub proof fn law_frame_round_trip(msg_type: u8, payload: Seq<u8>, rest: Seq<u8>)
    requires
        payload.len() + 4 <= i32::MAX,
    ensures
        front(frame(msg_type, payload) + rest) == (Front::Whole { msg_type, payload }),
        behind(frame(msg_type, payload) + rest, payload) == rest,
{
    let bytes = frame(msg_type, payload) + rest;
    let length = payload.len() as int + 4;
    law_i32_round_trip(length, payload + rest);
    assert(bytes.skip(1) =~= i32_bytes(length) + (payload + rest));
    assert(bytes.subrange(5, 1 + length) =~= payload);
    assert(behind(bytes, payload) =~= rest);
}

/// A message on the wire is its type, the length of all but the type in four bytes, and the payload.
pub proof fn law_frame_layout(msg_type: u8, payload: Seq<u8>)
    requires
        payload.len() + 4 <= i32::MAX,
    ensures
        frame(msg_type, payload).len() == payload.len() + 5,
        frame(msg_type, payload)[0] == msg_type,
        be_i32(frame(msg_type, payload).skip(1)) == frame(msg_type, payload).len() - 1,
        frame(msg_type, payload).skip(5) == payload,
{
    let bytes = frame(msg_type, payload);
    law_i32_round_trip(payload.len() as int + 4, payload);
    assert(bytes.skip(1) =~= i32_bytes(payload.len() as int + 4) + payload);
    assert(bytes.skip(5) =~= payload);
}

/// Whatever the bytes are: a message that is found at the front stands there byte for byte, with what is
/// left behind it; a length is impossible exactly where it is less than four; and else more bytes are
/// waited for exactly as long as there are fewer than the length says.
pub proof fn law_front_is_there(bytes: Seq<u8>)
    ensures
        front(bytes) matches Front::Whole { msg_type, payload } ==> bytes == frame(msg_type, payload)
            + behind(bytes, payload),
        front(bytes) is BadLength <==> bytes.len() >= 5 && be_i32(bytes.skip(1)) < 4,
        front(bytes) matches Front::BadLength { length } ==> length == be_i32(bytes.skip(1)),
        front(bytes) is Incomplete <==> bytes.len() < 5 || bytes.len() - 1 < be_i32(bytes.skip(1)),
{
    if let Front::Whole { msg_type, payload } = front(bytes) {
        law_i32_bytes_kept(bytes.skip(1));
        assert(bytes =~= frame(msg_type, payload) + behind(bytes, payload));
    }
}

/// A query message is read back with the whole query, and a zero byte behind it.
pub proof fn law_query_read_back(query: Seq<char>, rest: Seq<u8>)
    requires
        encode_utf8(query).len() + 5 <= i32::MAX,
    ensures
        front(query_bytes(query) + rest) == (Front::Whole {
            msg_type: 0x51,
            payload: encode_utf8(query) + seq![0u8],
        }),
{
    assert(zero_ended(query) =~= encode_utf8(query) + seq![0u8]);
    law_frame_round_trip(QUERY, zero_ended(query), rest);
}

/// As long as a message is not all there, more bytes are waited for.
pub proof fn law_partial_frame(msg_type: u8, payload: Seq<u8>, count: int)
    requires
        payload.len() + 4 <= i32::MAX,
        0 <= count < frame(msg_type, payload).len(),
    ensures
        front(frame(msg_type, payload).take(count)) is Incomplete,
{
    let bytes = frame(msg_type, payload).take(count);
    let length = payload.len() as int + 4;
    if count >= 5 {
        law_i32_round_trip(length, payload.take(count - 5));
        assert(bytes.skip(1) =~= i32_bytes(length) + payload.take(count - 5));
    }
}

/// Bytes that arrive later do not change what is at the front once it is decided, and are left
/// behind it.
pub proof fn law_more_bytes(bytes: Seq<u8>, more: Seq<u8>)
    requires
        !(front(bytes) is Incomplete),
    ensures
        front(bytes + more) == front(bytes),
        front(bytes) matches Front::Whole { payload, .. } ==> behind(bytes + more, payload) == behind(
            bytes,
            payload,
        ) + more,
{
    assert((bytes + more).skip(1).take(4) =~= bytes.skip(1).take(4));
    let head = bytes.skip(1);
    let longer = (bytes + more).skip(1);
    assert(longer[0] == head[0] && longer[1] == head[1] && longer[2] == head[2] && longer[3]
        == head[3]);
    if let Front::Whole { msg_type, payload } = front(bytes) {
        let length = be_i32(head);
        assert((bytes + more).subrange(5, 1 + length) =~= bytes.subrange(5, 1 + length));
        assert(behind(bytes + more, payload) =~= behind(bytes, payload) + more);
    }
}

/// The settings that a server reads: names and values in turn, each up to a zero byte, until an empty
/// name.
pub open spec fn read_settings(bytes: Seq<u8>) -> Seq<(Seq<u8>, Seq<u8>)>
    decreases bytes.len(),
{
    let name = bytes.take(until_zero(bytes) as int);
    if name.len() == 0 || name.len() >= bytes.len() {
        seq![]
    } else {
        let behind_name = bytes.skip(name.len() as int + 1);
        let value = behind_name.take(until_zero(behind_name) as int);
        if value.len() >= behind_name.len() {
            seq![]
        } else {
            seq![(name, value)] + read_settings(behind_name.skip(value.len() as int + 1))
        }
    }
}

/// A setting that can be read back: no zero byte in it, and a name.
pub open spec fn is_readable(setting: (Seq<char>, Seq<char>)) -> bool {
    &&& setting.0.len() > 0
    &&& !encode_utf8(setting.0).contains(0u8)
    &&& !encode_utf8(setting.1).contains(0u8)
}

/// A setting as bytes.
pub open spec fn setting_bytes(setting: (Seq<char>, Seq<char>)) -> (Seq<u8>, Seq<u8>) {
    (encode_utf8(setting.0), encode_utf8(setting.1))
}

proof fn lemma_zero_ended(text: Seq<char>, rest: Seq<u8>)
    requires
        !encode_utf8(text).contains(0u8),
    ensures
        until_zero(zero_ended(text) + rest) == encode_utf8(text).len(),
        (zero_ended(text) + rest).take(encode_utf8(text).len() as int) == encode_utf8(text),
        (zero_ended(text) + rest).skip(encode_utf8(text).len() as int + 1) == rest,
{
    let bytes = zero_ended(text) + rest;
    let n = encode_utf8(text).len();
    assert forall|i: int| 0 <= i < n implies bytes[i] != 0 by {
        assert(encode_utf8(text).contains(encode_utf8(text)[i]));
    }
    lemma_until_zero(bytes, n);
    assert(bytes.take(n as int) =~= encode_utf8(text));
    assert(bytes.skip(n as int + 1) =~= rest);
}

proof fn lemma_encoding_not_empty(text: Seq<char>)
    requires
        text.len() > 0,
    ensures
        encode_utf8(text).len() > 0,
{
}

proof fn lemma_settings_bytes_first(settings: Seq<(Seq<char>, Seq<char>)>)
    requires
        settings.len() > 0,
    ensures
        settings_bytes(settings) == zero_ended(settings[0].0) + zero_ended(settings[0].1)
            + settings_bytes(settings.skip(1)),
    decreases settings.len(),
{
    if settings.len() == 1 {
        assert(settings.drop_last() =~= seq![]);
        assert(settings.skip(1) =~= seq![]);
        assert(settings_bytes(settings) =~= zero_ended(settings[0].0) + zero_ended(settings[0].1)
            + settings_bytes(settings.skip(1)));
    } else {
        lemma_settings_bytes_first(settings.drop_last());
        assert(settings.drop_last().skip(1) =~= settings.skip(1).drop_last());
        assert(settings_bytes(settings) =~= zero_ended(settings[0].0) + zero_ended(settings[0].1)
            + settings_bytes(settings.skip(1)));
    }
}

proof fn lemma_read_settings(settings: Seq<(Seq<char>, Seq<char>)>)
    requires
        forall|i: int| 0 <= i < settings.len() ==> is_readable(#[trigger] settings[i]),
    ensures
        read_settings(settings_bytes(settings) + seq![0u8]) == settings.map_values(
            |s: (Seq<char>, Seq<char>)| setting_bytes(s),
        ),
    decreases settings.len(),
{
    let view = |s: (Seq<char>, Seq<char>)| setting_bytes(s);
    let bytes = settings_bytes(settings) + seq![0u8];
    if settings.len() == 0 {
        assert(bytes =~= seq![0u8]);
        assert(bytes.take(until_zero(bytes) as int).len() == 0);
        assert(settings.map_values(view) =~= seq![]);
    } else {
        let (name, value) = settings[0];
        let rest = settings_bytes(settings.skip(1)) + seq![0u8];
        assert(is_readable(settings[0]));
        lemma_settings_bytes_first(settings);
        assert(bytes =~= zero_ended(name) + (zero_ended(value) + rest));
        lemma_zero_ended(name, zero_ended(value) + rest);
        lemma_zero_ended(value, rest);
        lemma_encoding_not_empty(name);
        assert forall|i: int| 0 <= i < settings.skip(1).len() implies is_readable(
            #[trigger] settings.skip(1)[i],
        ) by {
            assert(is_readable(settings[i + 1]));
        }
        lemma_read_settings(settings.skip(1));
        assert(settings.map_values(view) =~= seq![view(settings[0])] + settings.skip(1).map_values(
            view,
        ));
    }
}

/// A server reads back from a startup message its length, the protocol version and all settings in
/// their order: the user, the database and the extra ones.
pub proof fn law_startup_read_back(settings: Seq<(Seq<char>, Seq<char>)>)
    requires
        startup_bytes(settings).len() <= i32::MAX,
        forall|i: int| 0 <= i < settings.len() ==> is_readable(#[trigger] settings[i]),
    ensures
        be_i32(startup_bytes(settings)) == startup_bytes(settings).len(),
        be_i32(startup_bytes(settings).skip(4)) == PROTOCOL_VERSION,
        read_settings(startup_bytes(settings).skip(8)) == settings.map_values(
            |s: (Seq<char>, Seq<char>)| setting_bytes(s),
        ),
{
    let bytes = startup_bytes(settings);
    let body = startup_body(settings);
    let list = settings_bytes(settings) + seq![0u8];
    law_i32_round_trip(body.len() as int + 4, body);
    law_i32_round_trip(PROTOCOL_VERSION as int, list);
    assert(bytes.skip(4) =~= i32_bytes(PROTOCOL_VERSION as int) + list);
    assert(bytes.skip(8) =~= list);
    lemma_read_settings(settings);
}

/// The settings that a connection is opened with are the user, the database and every extra setting, each
/// as the caller gave it and in the caller's order.
pub proof fn law_settings_as_given(
    user: Seq<char>,
    database: Seq<char>,
    extra_params: Seq<(String, String)>,
)
    ensures
        startup_settings(user, database, extra_params).len() == 2 + extra_params.len(),
        startup_settings(user, database, extra_params)[0] == ("user"@, user),
        startup_settings(user, database, extra_params)[1] == ("database"@, database),
        forall|i: int|
            0 <= i < extra_params.len() ==> startup_settings(user, database, extra_params)[2 + i] == (
                (#[trigger] extra_params[i]).0@,
                extra_params[i].1@,
            ),
{
}

/// A server reads back from the startup message the length of the message, the protocol version, the user
/// and the database that the caller gave, and every extra setting of the caller in its place, and nothing
/// more.
pub proof fn law_startup_as_given(
    user: Seq<char>,
    database: Seq<char>,
    extra_params: Seq<(String, String)>,
)
    requires
        startup_bytes(startup_settings(user, database, extra_params)).len() <= i32::MAX,
        !encode_utf8(user).contains(0u8),
        !encode_utf8(database).contains(0u8),
        forall|i: int|
            0 <= i < extra_params.len() ==> is_readable(
                ((#[trigger] extra_params[i]).0@, extra_params[i].1@),
            ),
    ensures
        ({
            let bytes = startup_bytes(startup_settings(user, database, extra_params));
            let read = read_settings(bytes.skip(8));
            &&& be_i32(bytes) == bytes.len()
            &&& be_i32(bytes.skip(4)) == 0x3_0000
            &&& read.len() == 2 + extra_params.len()
            &&& read[0] == (encode_utf8("user"@), encode_utf8(user))
            &&& read[1] == (encode_utf8("database"@), encode_utf8(database))
            &&& forall|i: int|
                0 <= i < extra_params.len() ==> read[2 + i] == (
                    encode_utf8((#[trigger] extra_params[i]).0@),
                    encode_utf8(extra_params[i].1@),
                )
        }),
{
    let settings = startup_settings(user, database, extra_params);
    reveal_strlit("user");
    reveal_strlit("database");
    is_ascii_chars_encode_utf8("user"@);
    is_ascii_chars_encode_utf8("database"@);
    law_settings_as_given(user, database, extra_params);
    assert forall|i: int| 0 <= i < settings.len() implies is_readable(#[trigger] settings[i]) by {
        if i >= 2 {
            let param = extra_params[i - 2];
            assert(settings[2 + (i - 2)] == (param.0@, param.1@));
        }
    }
    law_startup_read_back(settings);
    assert forall|i: int| 0 <= i < extra_params.len() implies read_settings(
        startup_bytes(settings).skip(8),
    )[2 + i] == (encode_utf8((#[trigger] extra_params[i]).0@), encode_utf8(extra_params[i].1@)) by {
        assert(settings[2 + i] == (extra_params[i].0@, extra_params[i].1@));
    }
}

/// Whatever the texts hold, the startup message without extra settings holds the version, the two names
/// and the texts that the caller gave, each with a zero byte behind it, and one more at the end.
pub proof fn law_startup_without_extra(user: Seq<char>, database: Seq<char>)
    ensures
        startup_bytes(startup_settings(user, database, seq![])).skip(4) == i32_bytes(0x3_0000)
            + encode_utf8("user"@) + seq![0u8] + encode_utf8(user) + seq![0u8] + encode_utf8(
            "database"@,
        ) + seq![0u8] + encode_utf8(database) + seq![0u8] + seq![0u8],
{
    let settings = startup_settings(user, database, seq![]);
    reveal_with_fuel(settings_bytes, 3);
    assert(settings.drop_last().drop_last() =~= seq![]);
    assert(startup_bytes(settings).skip(4) =~= startup_body(settings));
    assert(startup_body(settings) =~= i32_bytes(0x3_0000) + encode_utf8("user"@) + seq![0u8]
        + encode_utf8(user) + seq![0u8] + encode_utf8("database"@) + seq![0u8] + encode_utf8(database)
        + seq![0u8] + seq![0u8]);
}

/// Whatever the texts hold, one more extra setting adds its name and its value, each with a zero byte
/// behind it, right before the last byte of the startup message.
pub proof fn law_startup_one_more(
    user: Seq<char>,
    database: Seq<char>,
    extra_params: Seq<(String, String)>,
    param: (String, String),
)
    ensures
        ({
            let fewer = startup_bytes(startup_settings(user, database, extra_params));
            let more = startup_bytes(startup_settings(user, database, extra_params.push(param)));
            more.skip(4) == fewer.skip(4).drop_last() + encode_utf8(param.0@) + seq![0u8]
                + encode_utf8(param.1@) + seq![0u8] + seq![0u8]
        }),
{
    let settings = startup_settings(user, database, extra_params);
    let longer = startup_settings(user, database, extra_params.push(param));
    assert(longer.drop_last() =~= settings);
    assert(startup_bytes(settings).skip(4) =~= startup_body(settings));
    assert(startup_bytes(longer).skip(4) =~= startup_body(longer));
    assert(startup_body(settings).drop_last() =~= i32_bytes(PROTOCOL_VERSION as int)
        + settings_bytes(settings));
    assert(startup_body(longer) =~= startup_body(settings).drop_last() + encode_utf8(param.0@)
        + seq![0u8] + encode_utf8(param.1@) + seq![0u8] + seq![0u8]);
}

/// The first four bytes of the startup message are its length.
pub proof fn law_startup_length(settings: Seq<(Seq<char>, Seq<char>)>)
    requires
        startup_bytes(settings).len() <= i32::MAX,
    ensures
        be_i32(startup_bytes(settings)) == startup_bytes(settings).len(),
{
    law_i32_round_trip(startup_body(settings).len() as int + 4, startup_body(settings));
}

} // verus!
