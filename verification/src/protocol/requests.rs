//! What each message brings about while a connection is opened, told from the bytes of the message and
//! from what the caller gave.

use vstd::prelude::*;
use vstd::utf8::*;

use super::auth::{
    client_final, client_first, md5_text, password_bytes, sasl_bytes, sasl_initial_bytes,
    server_proof,
};
use super::buffer::bytes_of;
use super::connect::{
    is_piece, lists, on_message, polled, run, started, takeable, Action,
    BackendConnect, Outcome, Progress, Stage,
};
use super::error::{error_text, BackendError, Failure, Step};
use super::handshake::{auth_bytes, law_one_by_one};
use super::messages::{
    be_i32, frame, front, i32_bytes, law_frame_round_trip, law_i32_round_trip, Front,
};

verus! {

/// A new connection is for the very user and password that the caller gave, and nothing has come of it
/// yet.
pub proof fn law_started_as_given(user: Seq<char>, password: Seq<char>)
    ensures
        started(user, password).user == user,
        started(user, password).password == password,
        !started(user, password).authenticated,
        started(user, password).stage is Startup,
        started(user, password).read_first,
{
}

/// A new connection after its first read.
pub open spec fn begun(user: Seq<char>, password: Seq<char>) -> Progress {
    Progress { read_first: false, ..started(user, password) }
}

/// A new connection answers a request for the password with the whole password that the caller gave, and
/// a zero byte behind it, in a message of type `p`. A password that cannot be sent fails the connection.
pub proof fn law_new_connection_sends_password(
    user: Seq<char>,
    password: Seq<char>,
    data: Seq<u8>,
    rest: Seq<u8>,
    nonce: Seq<u8>,
)
    requires
        data.len() + 8 <= i32::MAX,
    ensures
        ({
            let ran = run(begun(user, password), auth_bytes(3, data) + rest, nonce);
            let secret = encode_utf8(password);
            &&& ran.0 == rest
            &&& !secret.contains(0u8) && secret.len() + 5 <= i32::MAX ==> {
                &&& ran.1 is Send
                &&& ran.1->Send_0 == begun(user, password)
                &&& ran.1->Send_1 == frame(0x70, secret.push(0))
            }
            &&& secret.contains(0u8) ==> ran.1 == Outcome::Fail(
                Failure::Encode("string contains embedded null"@),
            )
            &&& !secret.contains(0u8) && secret.len() + 5 > i32::MAX ==> ran.1 == Outcome::Fail(
                Failure::Encode("value too large to transmit"@),
            )
        }),
{
    let payload = i32_bytes(3) + data;
    law_i32_round_trip(3, data);
    law_one_by_one(begun(user, password), 0x52, payload, rest, nonce);
}

/// A new connection answers a request for the hashed password with the hash of the user and the password
/// that the caller gave, and of the four bytes of the request's salt.
pub proof fn law_new_connection_sends_hash(
    user: Seq<char>,
    password: Seq<char>,
    salt: Seq<u8>,
    more: Seq<u8>,
    rest: Seq<u8>,
    nonce: Seq<u8>,
)
    requires
        salt.len() == 4,
        more.len() + 12 <= i32::MAX,
    ensures
        run(begun(user, password), auth_bytes(5, salt + more) + rest, nonce) == (
            rest,
            Outcome::Send(
                begun(user, password),
                frame(
                    0x70,
                    encode_utf8(
                        md5_text(encode_utf8(user), encode_utf8(password), salt),
                    ).push(0),
                ),
            ),
        ),
{
    let payload = i32_bytes(5) + (salt + more);
    law_i32_round_trip(5, salt + more);
    law_one_by_one(begun(user, password), 0x52, payload, rest, nonce);
    assert(payload.subrange(4, 8) =~= salt);
}

/// A new connection takes up the offer of a SCRAM exchange, and opens it with its nonce.
pub proof fn law_new_connection_opens_exchange(
    user: Seq<char>,
    password: Seq<char>,
    offered: Seq<u8>,
    rest: Seq<u8>,
    nonce: Seq<u8>,
)
    requires
        lists(offered, encode_utf8("SCRAM-SHA-256"@)),
        offered.len() + 8 <= i32::MAX,
    ensures
        run(begun(user, password), auth_bytes(10, offered) + rest, nonce) == (
            rest,
            Outcome::Send(
                in_exchange(user, password, Stage::SaslContinue { nonce }, true),
                sasl_initial_bytes("SCRAM-SHA-256"@, client_first(nonce)),
            ),
        ),
{
    law_i32_round_trip(10, offered);
    law_one_by_one(begun(user, password), 0x52, i32_bytes(10) + offered, rest, nonce);
    assert((i32_bytes(10) + offered).skip(4) =~= offered);
}

/// A connection for this user and password in a SASL exchange.
pub open spec fn in_exchange(
    user: Seq<char>,
    password: Seq<char>,
    stage: Stage,
    read_first: bool,
) -> Progress {
    Progress { user, password, authenticated: false, stage, read_first }
}

/// The server's first message in a SCRAM exchange is answered as the exchange for the password that the
/// caller gave does; where that refuses the message, the connection fails with the same words.
pub proof fn law_exchange_answers_for_password(
    user: Seq<char>,
    password: Seq<char>,
    nonce: Seq<u8>,
    server_first: Seq<u8>,
    rest: Seq<u8>,
    other: Seq<u8>,
)
    requires
        server_first.len() + 8 <= i32::MAX,
    ensures
        run(
            in_exchange(user, password, Stage::SaslContinue { nonce }, false),
            auth_bytes(11, server_first) + rest,
            other,
        ) == (
            rest,
            match client_final(encode_utf8(password), nonce, server_first) {
                Ok(answer) => if answer.len() + 4 <= i32::MAX {
                    Outcome::Send(
                        in_exchange(user, password, Stage::SaslFinal { nonce, server_first }, true),
                        frame(0x70, answer),
                    )
                } else {
                    Outcome::Fail(Failure::Encode("value too large to transmit"@))
                },
                Err(words) => Outcome::Fail(Failure::Scram(words)),
            },
        ),
{
    let p = in_exchange(user, password, Stage::SaslContinue { nonce }, false);
    law_i32_round_trip(11, server_first);
    law_one_by_one(p, 0x52, i32_bytes(11) + server_first, rest, other);
    assert((i32_bytes(11) + server_first).skip(4) =~= server_first);
}

/// The server's final message in a SCRAM exchange is taken only where the exchange for the password that
/// the caller gave takes it, and the connection then goes on as before the exchange; else it fails with
/// the same words.
pub proof fn law_exchange_proves_password(
    user: Seq<char>,
    password: Seq<char>,
    nonce: Seq<u8>,
    server_first: Seq<u8>,
    server_final: Seq<u8>,
    rest: Seq<u8>,
    other: Seq<u8>,
)
    requires
        server_final.len() + 8 <= i32::MAX,
    ensures
        run(
            in_exchange(user, password, Stage::SaslFinal { nonce, server_first }, false),
            auth_bytes(12, server_final) + rest,
            other,
        ) == match server_proof(encode_utf8(password), nonce, server_first, server_final) {
            Ok(_) => run(begun(user, password), rest, other),
            Err(words) => (rest, Outcome::Fail(Failure::Scram(words))),
        },
{
    let p = in_exchange(user, password, Stage::SaslFinal { nonce, server_first }, false);
    law_i32_round_trip(12, server_final);
    law_one_by_one(p, 0x52, i32_bytes(12) + server_final, rest, other);
    assert((i32_bytes(12) + server_final).skip(4) =~= server_final);
    assert(Progress { stage: Stage::Startup, ..p } =~= begun(user, password));
}

/// The answers are messages that can be read back: their type, and all that they are to hold.
pub proof fn law_answers_read_back(mechanism: Seq<char>, data: Seq<u8>, rest: Seq<u8>)
    requires
        data.len() + encode_utf8(mechanism).len() + 9 <= i32::MAX,
    ensures
        front(password_bytes(data) + rest) == (Front::Whole { msg_type: 0x70, payload: data.push(0) }),
        front(sasl_bytes(data) + rest) == (Front::Whole { msg_type: 0x70, payload: data }),
        ({
            let name = encode_utf8(mechanism).push(0);
            &&& front(sasl_initial_bytes(mechanism, data) + rest) is Whole
            &&& front(sasl_initial_bytes(mechanism, data) + rest)->msg_type == 0x70
            &&& front(sasl_initial_bytes(mechanism, data) + rest)->payload.take(name.len() as int)
                == name
            &&& be_i32(
                front(sasl_initial_bytes(mechanism, data) + rest)->payload.skip(name.len() as int),
            ) == data.len()
            &&& front(sasl_initial_bytes(mechanism, data) + rest)->payload.skip(
                name.len() as int + 4,
            ) == data
        }),
{
    let name = encode_utf8(mechanism).push(0);
    let payload = name + i32_bytes(data.len() as int) + data;
    law_frame_round_trip(0x70, data.push(0), rest);
    law_frame_round_trip(0x70, data, rest);
    law_frame_round_trip(0x70, payload, rest);
    law_i32_round_trip(data.len() as int, data);
    assert(payload.take(name.len() as int) =~= name);
    assert(payload.skip(name.len() as int) =~= i32_bytes(data.len() as int) + data);
    assert(payload.skip(name.len() as int + 4) =~= data);
}

/// Outside a SASL exchange, an authentication message too short for its kind fails the connection, and so
/// do a request for a hashed password without its salt, an offer without the known mechanism, and a
/// message of any other kind.
pub proof fn law_unusable_requests_fail(p: Progress, payload: Seq<u8>, nonce: Seq<u8>)
    requires
        p.stage is Startup,
    ensures
        payload.len() < 4 ==> on_message(p, 0x52, payload, nonce) == Outcome::Fail(
            Failure::InvalidAuth,
        ),
        4 <= payload.len() < 8 && be_i32(payload) == 5 ==> on_message(p, 0x52, payload, nonce)
            == Outcome::Fail(Failure::InvalidMd5),
        payload.len() >= 4 && be_i32(payload) == 10 && !lists(
            payload.skip(4),
            encode_utf8("SCRAM-SHA-256"@),
        ) ==> on_message(p, 0x52, payload, nonce) == Outcome::Fail(Failure::NoMechanism),
        payload.len() >= 4 && be_i32(payload) != 0 && be_i32(payload) != 3 && be_i32(payload) != 5
            && be_i32(payload) != 10 ==> on_message(p, 0x52, payload, nonce) == Outcome::Fail(
            Failure::UnsupportedAuth(be_i32(payload)),
        ),
{
}

/// Whatever came before, a request is answered with the whole password of the connection, with its hash
/// for the user of the connection and the salt of the request, or with the opening of a SCRAM exchange,
/// and nothing else changes.
pub proof fn law_requests_answered(p: Progress, payload: Seq<u8>, nonce: Seq<u8>)
    requires
        p.stage is Startup,
        payload.len() >= 4,
    ensures
        be_i32(payload) == 3 && !encode_utf8(p.password).contains(0u8) && encode_utf8(p.password).len()
            + 5 <= i32::MAX ==> on_message(p, 0x52, payload, nonce) == Outcome::Send(
            p,
            frame(0x70, encode_utf8(p.password).push(0)),
        ),
        be_i32(payload) == 3 && (encode_utf8(p.password).contains(0u8) || encode_utf8(p.password).len()
            + 5 > i32::MAX) ==> on_message(p, 0x52, payload, nonce) is Fail,
        be_i32(payload) == 5 && payload.len() >= 8 ==> on_message(p, 0x52, payload, nonce)
            == Outcome::Send(
            p,
            frame(
                0x70,
                encode_utf8(
                    md5_text(encode_utf8(p.user), encode_utf8(p.password), payload.subrange(4, 8)),
                ).push(0),
            ),
        ),
        be_i32(payload) == 10 && lists(payload.skip(4), encode_utf8("SCRAM-SHA-256"@)) ==> on_message(
            p,
            0x52,
            payload,
            nonce,
        ) == Outcome::Send(
            Progress { stage: Stage::SaslContinue { nonce }, read_first: true, ..p },
            sasl_initial_bytes("SCRAM-SHA-256"@, client_first(nonce)),
        ),
{
}

/// Whatever came before, each message of the server in a SCRAM exchange is taken as the exchange for the
/// password of the connection takes it, with the nonce that the exchange was opened with.
pub proof fn law_exchange_goes_by_password(
    p: Progress,
    payload: Seq<u8>,
    session_nonce: Seq<u8>,
    server_first: Seq<u8>,
    nonce: Seq<u8>,
)
    requires
        payload.len() >= 4,
    ensures
        p.stage == (Stage::SaslContinue { nonce: session_nonce }) && be_i32(payload) == 11
            ==> on_message(p, 0x52, payload, nonce) == match client_final(
            encode_utf8(p.password),
            session_nonce,
            payload.skip(4),
        ) {
            Ok(answer) => if answer.len() + 4 <= i32::MAX {
                Outcome::Send(
                    Progress {
                        stage: Stage::SaslFinal {
                            nonce: session_nonce,
                            server_first: payload.skip(4),
                        },
                        read_first: true,
                        ..p
                    },
                    frame(0x70, answer),
                )
            } else {
                Outcome::Fail(Failure::Encode("value too large to transmit"@))
            },
            Err(words) => Outcome::Fail(Failure::Scram(words)),
        },
        p.stage == (Stage::SaslFinal { nonce: session_nonce, server_first }) && be_i32(payload) == 12
            ==> on_message(p, 0x52, payload, nonce) == match server_proof(
            encode_utf8(p.password),
            session_nonce,
            server_first,
            payload.skip(4),
        ) {
            Ok(_) => Outcome::Next(Progress { stage: Stage::Startup, ..p }),
            Err(words) => Outcome::Fail(Failure::Scram(words)),
        },
{
}

/// The acceptance of the client changes nothing but that it is accepted, and nothing is sent.
pub proof fn law_acceptance_is_noted(p: Progress, payload: Seq<u8>, nonce: Seq<u8>)
    requires
        p.stage is Startup,
        payload.len() >= 4,
        be_i32(payload) == 0,
    ensures
        on_message(p, 0x52, payload, nonce) matches Outcome::Next(q) && q.authenticated && q.user
            == p.user && q.password == p.password && q.stage == p.stage && q.read_first
            == p.read_first,
{
}

/// In a SASL exchange the server's next authentication message must be of the kind that is due, or, in
/// place of the final one, the acceptance; any other fails the connection with its kind.
pub proof fn law_sasl_in_order(p: Progress, payload: Seq<u8>, nonce: Seq<u8>)
    requires
        payload.len() >= 4,
    ensures
        p.stage is SaslContinue && be_i32(payload) != 11 ==> on_message(p, 0x52, payload, nonce)
            == Outcome::Fail(Failure::UnexpectedSasl(be_i32(payload))),
        p.stage is SaslFinal && be_i32(payload) != 12 && be_i32(payload) != 0 ==> on_message(
            p,
            0x52,
            payload,
            nonce,
        ) == Outcome::Fail(Failure::UnexpectedSaslFinal(be_i32(payload))),
        p.stage is SaslFinal && be_i32(payload) == 0 ==> on_message(p, 0x52, payload, nonce)
            == Outcome::Next(Progress { stage: Stage::Startup, ..p }),
{
}

/// A server that does not prove that it knows the password is never taken for one that does.
pub proof fn law_unproven_server_fails(
    p: Progress,
    session_nonce: Seq<u8>,
    server_first: Seq<u8>,
    payload: Seq<u8>,
    nonce: Seq<u8>,
)
    requires
        p.stage == (Stage::SaslFinal { nonce: session_nonce, server_first }),
        payload.len() >= 4,
        be_i32(payload) == 12,
    ensures
        on_message(p, 0x52, payload, nonce) is Next <==> server_proof(
            encode_utf8(p.password),
            session_nonce,
            server_first,
            payload.skip(4),
        ) is Ok,
        on_message(p, 0x52, payload, nonce) is Next || on_message(p, 0x52, payload, nonce) is Fail,
{
}

/// In a SASL exchange a message that is neither about authentication nor an error is passed over, and the
/// next one is taken after another read.
pub proof fn law_sasl_passes_over(p: Progress, msg_type: u8, payload: Seq<u8>, nonce: Seq<u8>)
    requires
        p.stage is SaslContinue || p.stage is SaslFinal,
        msg_type != 0x52,
        msg_type != 0x45,
    ensures
        on_message(p, msg_type, payload, nonce) == Outcome::Next(Progress { read_first: true, ..p }),
{
}

/// Once the client waits for the server to be ready, only that and an error count.
pub proof fn law_waiting_passes_over(p: Progress, msg_type: u8, payload: Seq<u8>, nonce: Seq<u8>)
    requires
        p.stage is AwaitReady,
        msg_type != 0x5a,
        msg_type != 0x45,
    ensures
        on_message(p, msg_type, payload, nonce) == Outcome::Next(p),
{
}

/// An error message fails the connection, with the step that it was at.
pub proof fn law_refusal_names_the_step(p: Progress, payload: Seq<u8>, nonce: Seq<u8>)
    ensures
        on_message(p, 0x45, payload, nonce) == Outcome::Fail(
            Failure::Refused(p.stage.step(), error_text(payload)),
        ),
        p.stage.step() == match p.stage {
            Stage::Startup => Step::Startup,
            Stage::SaslContinue { .. } => Step::SaslContinue,
            Stage::SaslFinal { .. } => Step::SaslFinal,
            Stage::AwaitReady => Step::AwaitReady,
        },
{
}

/// Without a whole message more bytes are read, and nothing else changes but that an accepted client
/// then waits for the server to be ready. A message with an impossible length fails the connection. Where
/// bytes must be read first, nothing is taken.
pub proof fn law_nothing_to_take(p: Progress, bytes: Seq<u8>, nonce: Seq<u8>)
    ensures
        p.read_first ==> run(p, bytes, nonce) == (bytes, Outcome::Read(p)),
        !p.read_first && front(bytes) is Incomplete ==> run(p, bytes, nonce).0 == bytes && (run(
            p,
            bytes,
            nonce,
        ).1 matches Outcome::Read(q) && q.user == p.user && q.password == p.password
            && q.authenticated == p.authenticated && q.read_first && (if p.stage is Startup
            && p.authenticated {
            q.stage is AwaitReady
        } else {
            q.stage == p.stage
        })),
        !p.read_first ==> (front(bytes) matches Front::BadLength { length } ==> run(p, bytes, nonce)
            == (bytes, Outcome::Fail(Failure::BadLength(length)))),
{
}

/// What a call gives back is what the messages call for, and nothing else: it asks for a read, a sending
/// or nothing more, or fails, exactly where they do; what is to be sent is what they call for; and the
/// bytes that are left are those behind the messages taken.
pub proof fn law_call_does_as_found(
    ran: (Seq<u8>, Outcome),
    after: BackendConnect,
    rest: Seq<u8>,
    result: Result<Action, BackendError>,
)
    requires
        polled(ran, after, rest, result),
    ensures
        rest == ran.0,
        result matches Ok(Action::Ready) <==> ran.1 is Ready,
        result matches Ok(Action::Read) <==> ran.1 is Read,
        result matches Ok(Action::Send(_)) <==> ran.1 is Send,
        result is Err <==> ran.1 is Fail,
        ran.1 matches Outcome::Read(p) ==> after@ == p,
        ran.1 matches Outcome::Send(p, bytes) ==> after@ == p && (result matches Ok(
            Action::Send(buf),
        ) && bytes_of(buf) == bytes),
        ran.1 matches Outcome::Fail(failure) ==> (result matches Err(error) && error.stands_for(
            failure,
        )),
{
}

/// The next message can be taken, unless in a SASL exchange it is an authentication message without its
/// kind.
pub proof fn law_takeable(p: Progress, msg_type: u8, payload: Seq<u8>, rest: Seq<u8>)
    requires
        payload.len() + 4 <= i32::MAX,
    ensures
        takeable(p, frame(msg_type, payload) + rest) <==> !(msg_type == 0x52 && payload.len() < 4
            && !p.read_first && (p.stage is SaslContinue || p.stage is SaslFinal)),
        front(rest) is Whole || takeable(p, rest),
{
    law_frame_round_trip(msg_type, payload, rest);
}

/// A zero-ended name at the front of a list is one of its names, and the others are those behind it.
pub proof fn law_first_name_is_listed(first: Seq<u8>, rest: Seq<u8>, name: Seq<u8>)
    requires
        !first.contains(0u8),
        !name.contains(0u8),
    ensures
        lists(first.push(0) + rest, name) <==> first == name || lists(rest, name),
{
    let names = first.push(0) + rest;
    let shift = first.len() as int + 1;
    if first == name {
        assert(names.subrange(0, first.len() as int) =~= name);
        assert(is_piece(names, 0, first.len() as int));
    }
    if lists(rest, name) {
        let (i, j) = choose|i: int, j: int|
            is_piece(rest, i, j) && #[trigger] rest.subrange(i, j) == name;
        assert(names.subrange(i + shift, j + shift) =~= rest.subrange(i, j));
        assert(is_piece(names, i + shift, j + shift));
    }
    if lists(names, name) {
        let (i, j) = choose|i: int, j: int|
            is_piece(names, i, j) && #[trigger] names.subrange(i, j) == name;
        if i == 0 {
            if j > first.len() {
                assert(names.subrange(i, j)[first.len() as int] == 0);
                assert(name.contains(0u8));
            } else if j < first.len() {
                assert(first.contains(first[j]));
            }
            assert(names.subrange(0, first.len() as int) =~= first);
        } else if i <= first.len() {
            assert(first.contains(first[i - 1]));
        } else {
            assert(names.subrange(i, j) =~= rest.subrange(i - shift, j - shift));
            assert(is_piece(rest, i - shift, j - shift));
        }
    }
}

/// A list without a zero byte is one name.
pub proof fn law_only_name_is_listed(only: Seq<u8>, name: Seq<u8>)
    requires
        !only.contains(0u8),
    ensures
        lists(only, name) <==> only == name,
{
    if only == name {
        assert(only.subrange(0, only.len() as int) =~= only);
        assert(is_piece(only, 0, only.len() as int));
    }
    if lists(only, name) {
        let (i, j) = choose|i: int, j: int|
            is_piece(only, i, j) && #[trigger] only.subrange(i, j) == name;
        if i > 0 {
            assert(only.contains(only[i - 1]));
        }
        if j < only.len() {
            assert(only.contains(only[j]));
        }
        assert(only.subrange(0, only.len() as int) =~= only);
    }
}

} // verus!
