//! What holds of every opening of a backend connection.

use vstd::prelude::*;
use vstd::utf8::*;

use super::auth::{
    client_final, client_first, md5_text, password_bytes, sasl_bytes, sasl_initial_bytes,
    sendable_password, server_proof,
};
use super::connect::{
    known_mechanism, lists, on_message, run, started, Outcome, Progress, Stage, AUTH_CLEARTEXT, AUTH_MD5, AUTH_OK,
    AUTH_SASL, AUTH_SASL_CONTINUE, AUTH_SASL_FINAL,
};
use super::error::{error_text, Failure};
use super::messages::{
    be_i32, behind, frame, front, i32_bytes, law_frame_round_trip, law_i32_round_trip,
    law_more_bytes, Front, AUTHENTICATION, ERROR, READY,
};

verus! {

/// A connection is reported ready only on the message that says so, and outside a SASL exchange that
/// message always makes it ready.
pub proof fn law_ready_is_announced(p: Progress, msg_type: u8, payload: Seq<u8>, nonce: Seq<u8>)
    ensures
        on_message(p, msg_type, payload, nonce) is Ready <==> msg_type == READY
            && !p.stage.in_sasl(),
{
}

/// An error message of the server ends the opening of a connection at every stage, with the words of
/// the server.
pub proof fn law_error_ends(p: Progress, payload: Seq<u8>, nonce: Seq<u8>)
    ensures
        on_message(p, ERROR, payload, nonce) == Outcome::Fail(
            Failure::Refused(p.stage.step(), error_text(payload)),
        ),
{
}

/// Nothing is sent unless the server asks for it: for a password, for a SASL exchange, or for the
/// next step of one.
pub proof fn law_sends_only_answers(p: Progress, msg_type: u8, payload: Seq<u8>, nonce: Seq<u8>)
    requires
        on_message(p, msg_type, payload, nonce) is Send,
    ensures
        msg_type == AUTHENTICATION,
        p.stage is Startup ==> be_i32(payload) == AUTH_CLEARTEXT || be_i32(payload) == AUTH_MD5
            || be_i32(payload) == AUTH_SASL,
        p.stage is SaslContinue ==> be_i32(payload) == AUTH_SASL_CONTINUE,
        p.stage is Startup || p.stage is SaslContinue,
{
}

/// The client counts as accepted only once the server has said so.
pub proof fn law_accepted_by_server(p: Progress, msg_type: u8, payload: Seq<u8>, nonce: Seq<u8>)
    requires
        !p.authenticated,
        on_message(p, msg_type, payload, nonce) matches Outcome::Next(q) && q.authenticated,
    ensures
        msg_type == AUTHENTICATION,
        p.stage is Startup,
        be_i32(payload) == AUTH_OK,
{
}

/// Messages are taken off the front of the buffer, and nothing else is changed in it.
pub proof fn law_takes_from_front(p: Progress, bytes: Seq<u8>, nonce: Seq<u8>)
    ensures
        exists|taken: int|
            0 <= taken <= bytes.len() && run(p, bytes, nonce).0 == #[trigger] bytes.skip(taken),
    decreases bytes.len(),
{
    assert(bytes.skip(0) =~= bytes);
    if !p.read_first {
        if let Front::Whole { msg_type, payload } = front(bytes) {
            let rest = behind(bytes, payload);
            let first = 5 + payload.len() as int;
            if let Outcome::Next(next) = on_message(p, msg_type, payload, nonce) {
                law_takes_from_front(next, rest, nonce);
                let more = choose|more: int|
                    0 <= more <= rest.len() && run(next, rest, nonce).0 == #[trigger] rest.skip(more);
                assert(bytes.skip(first + more) =~= rest.skip(more));
            } else {
                assert(rest =~= bytes.skip(first));
            }
        }
    }
}

/// What holds of a connection between any two calls: only an accepted client waits for the server to
/// be ready.
pub open spec fn is_consistent(p: Progress) -> bool {
    p.stage is AwaitReady ==> p.authenticated
}

/// A new connection is consistent, and reading keeps a connection so.
pub proof fn law_starts_consistent(user: Seq<char>, password: Seq<char>, p: Progress)
    ensures
        is_consistent(started(user, password)),
        is_consistent(p) ==> is_consistent(Progress { read_first: false, ..p }),
{
}

/// A consistent connection stays so whatever the server sends. The user and the password stay the
/// same, and a client that was accepted stays accepted.
pub proof fn law_run_keeps(p: Progress, bytes: Seq<u8>, nonce: Seq<u8>)
    requires
        is_consistent(p),
    ensures
        match run(p, bytes, nonce).1 {
            Outcome::Read(q) => keeps(p, q),
            Outcome::Send(q, _) => keeps(p, q),
            Outcome::Next(_) => false,
            _ => true,
        },
    decreases bytes.len(),
{
    if !p.read_first {
        if let Front::Whole { msg_type, payload } = front(bytes) {
            if let Outcome::Next(next) = on_message(p, msg_type, payload, nonce) {
                law_run_keeps(next, behind(bytes, payload), nonce);
            }
        }
    }
}

/// Whether a later state of a connection is consistent, for the same user and password, and no less
/// accepted.
pub open spec fn keeps(p: Progress, q: Progress) -> bool {
    &&& is_consistent(q)
    &&& q.user == p.user
    &&& q.password == p.password
    &&& p.authenticated ==> q.authenticated
}

/// How the server's bytes are cut into reads makes no difference outside a SASL exchange, as long as
/// no cut falls right behind the acceptance of the client.
pub proof fn law_run_split(p: Progress, bytes: Seq<u8>, more: Seq<u8>, nonce: Seq<u8>)
    requires
        !p.read_first,
        run(p, bytes, nonce).1 matches Outcome::Read(q) && (q.stage is Startup
            || p.stage is AwaitReady),
    ensures
        run(p, bytes + more, nonce) == run(
            Progress { read_first: false, ..run(p, bytes, nonce).1->Read_0 },
            run(p, bytes, nonce).0 + more,
            nonce,
        ),
    decreases bytes.len(),
{
    if let Front::Whole { msg_type, payload } = front(bytes) {
        law_more_bytes(bytes, more);
        if let Outcome::Next(next) = on_message(p, msg_type, payload, nonce) {
            law_run_split(next, behind(bytes, payload), more, nonce);
        }
    }
}

/// Once the client waits for the server to be ready, nothing is sent any more.
pub proof fn law_silent_when_accepted(p: Progress, bytes: Seq<u8>, nonce: Seq<u8>)
    requires
        p.stage is AwaitReady,
    ensures
        !(run(p, bytes, nonce).1 is Send),
    decreases bytes.len(),
{
    if !p.read_first {
        if let Front::Whole { msg_type, payload } = front(bytes) {
            if let Outcome::Next(next) = on_message(p, msg_type, payload, nonce) {
                law_silent_when_accepted(next, behind(bytes, payload), nonce);
            }
        }
    }
}

/// An authentication message of this kind.
pub open spec fn auth_bytes(code: i32, data: Seq<u8>) -> Seq<u8> {
    frame(AUTHENTICATION, i32_bytes(code as int) + data)
}

/// Messages are handled one by one: what comes of several is what comes of the first, and of the
/// others where the first leaves nothing to do.
pub proof fn law_one_by_one(
    p: Progress,
    msg_type: u8,
    payload: Seq<u8>,
    rest: Seq<u8>,
    nonce: Seq<u8>,
)
    requires
        !p.read_first,
        payload.len() + 4 <= i32::MAX,
    ensures
        run(p, frame(msg_type, payload) + rest, nonce) == match on_message(
            p,
            msg_type,
            payload,
            nonce,
        ) {
            Outcome::Next(next) => run(next, rest, nonce),
            outcome => (rest, outcome),
        },
{
    law_frame_round_trip(msg_type, payload, rest);
}

proof fn lemma_auth_bytes(p: Progress, code: i32, data: Seq<u8>, rest: Seq<u8>, nonce: Seq<u8>)
    requires
        !p.read_first,
        data.len() + 8 <= i32::MAX,
    ensures
        be_i32(i32_bytes(code as int) + data) == code,
        (i32_bytes(code as int) + data).len() == data.len() + 4,
        (i32_bytes(code as int) + data).skip(4) == data,
        run(p, auth_bytes(code, data) + rest, nonce) == match on_message(
            p,
            AUTHENTICATION,
            i32_bytes(code as int) + data,
            nonce,
        ) {
            Outcome::Next(next) => run(next, rest, nonce),
            outcome => (rest, outcome),
        },
{
    let payload = i32_bytes(code as int) + data;
    law_i32_round_trip(code as int, data);
    law_one_by_one(p, AUTHENTICATION, payload, rest, nonce);
    assert(payload.skip(4) =~= data);
}

/// A message that is neither about authentication, nor an error, nor that the server is ready is
/// passed over outside a SASL exchange.
pub proof fn law_other_messages_ignored(
    p: Progress,
    msg_type: u8,
    payload: Seq<u8>,
    rest: Seq<u8>,
    nonce: Seq<u8>,
)
    requires
        !p.read_first,
        !p.stage.in_sasl(),
        msg_type != AUTHENTICATION,
        msg_type != ERROR,
        msg_type != READY,
        payload.len() + 4 <= i32::MAX,
    ensures
        run(p, frame(msg_type, payload) + rest, nonce) == run(p, rest, nonce),
{
    law_one_by_one(p, msg_type, payload, rest, nonce);
}

/// A client that the server accepts is connected once the server is ready.
pub proof fn law_accepted_then_ready(
    p: Progress,
    status: Seq<u8>,
    rest: Seq<u8>,
    nonce: Seq<u8>,
)
    requires
        !p.read_first,
        p.stage is Startup,
        status.len() + 4 <= i32::MAX,
    ensures
        run(p, auth_bytes(AUTH_OK, seq![]) + (frame(READY, status) + rest), nonce) == (
            rest,
            Outcome::Ready,
        ),
{
    let accepted = Progress { authenticated: true, ..p };
    lemma_auth_bytes(p, AUTH_OK, seq![], frame(READY, status) + rest, nonce);
    law_one_by_one(accepted, READY, status, rest, nonce);
}

/// A request for the password gets it, and the messages behind the request are left for later.
pub proof fn law_cleartext_answered(p: Progress, rest: Seq<u8>, nonce: Seq<u8>)
    requires
        !p.read_first,
        p.stage is Startup,
        sendable_password(encode_utf8(p.password)),
    ensures
        run(p, auth_bytes(AUTH_CLEARTEXT, seq![]) + rest, nonce) == (
            rest,
            Outcome::Send(p, password_bytes(encode_utf8(p.password))),
        ),
{
    lemma_auth_bytes(p, AUTH_CLEARTEXT, seq![], rest, nonce);
}

/// A request for the hashed password gets it, hashed with the salt of the request.
pub proof fn law_md5_answered(p: Progress, salt: Seq<u8>, rest: Seq<u8>, nonce: Seq<u8>)
    requires
        !p.read_first,
        p.stage is Startup,
        salt.len() == 4,
    ensures
        run(p, auth_bytes(AUTH_MD5, salt) + rest, nonce) == (
            rest,
            Outcome::Send(
                p,
                password_bytes(
                    encode_utf8(md5_text(encode_utf8(p.user), encode_utf8(p.password), salt)),
                ),
            ),
        ),
{
    lemma_auth_bytes(p, AUTH_MD5, salt, rest, nonce);
    assert((i32_bytes(AUTH_MD5 as int) + salt).subrange(4, 8) =~= salt);
}

/// The offer of a SASL exchange by the known mechanism is taken up.
proof fn lemma_sasl_started(p: Progress, offered: Seq<u8>, nonce: Seq<u8>)
    requires
        !p.read_first,
        p.stage is Startup,
        lists(offered, encode_utf8(known_mechanism())),
        offered.len() + 8 <= i32::MAX,
    ensures
        run(p, auth_bytes(AUTH_SASL, offered), nonce) == (
            Seq::<u8>::empty(),
            Outcome::Send(
                Progress { stage: Stage::SaslContinue { nonce }, read_first: true, ..p },
                sasl_initial_bytes(known_mechanism(), client_first(nonce)),
            ),
        ),
{
    lemma_auth_bytes(p, AUTH_SASL, offered, seq![], nonce);
    assert(auth_bytes(AUTH_SASL, offered) + Seq::<u8>::empty() =~= auth_bytes(AUTH_SASL, offered));
}

/// The server's first message in a SASL exchange is answered.
proof fn lemma_sasl_continued(p: Progress, nonce: Seq<u8>, server_first: Seq<u8>, answer: Seq<u8>)
    requires
        !p.read_first,
        p.stage == (Stage::SaslContinue { nonce }),
        server_first.len() + 8 <= i32::MAX,
        client_final(encode_utf8(p.password), nonce, server_first) == Ok::<_, Seq<char>>(answer),
        answer.len() + 4 <= i32::MAX,
    ensures
        run(p, auth_bytes(AUTH_SASL_CONTINUE, server_first), nonce) == (
            Seq::<u8>::empty(),
            Outcome::Send(
                Progress { stage: Stage::SaslFinal { nonce, server_first }, read_first: true, ..p },
                sasl_bytes(answer),
            ),
        ),
{
    let bytes = auth_bytes(AUTH_SASL_CONTINUE, server_first);
    lemma_auth_bytes(p, AUTH_SASL_CONTINUE, server_first, seq![], nonce);
    assert(bytes + Seq::<u8>::empty() =~= bytes);
}

/// The server's final message in a SASL exchange ends it, if it proves that the server knows the
/// password.
proof fn lemma_sasl_finished(
    p: Progress,
    nonce: Seq<u8>,
    server_first: Seq<u8>,
    server_final: Seq<u8>,
    rest: Seq<u8>,
)
    requires
        !p.read_first,
        p.stage == (Stage::SaslFinal { nonce, server_first }),
        server_final.len() + 8 <= i32::MAX,
        server_proof(encode_utf8(p.password), nonce, server_first, server_final) is Ok,
    ensures
        run(p, auth_bytes(AUTH_SASL_FINAL, server_final) + rest, nonce) == run(
            Progress { stage: Stage::Startup, ..p },
            rest,
            nonce,
        ),
{
    lemma_auth_bytes(p, AUTH_SASL_FINAL, server_final, rest, nonce);
}

/// A SCRAM exchange with a server that knows the password goes through: each message of the server,
/// read by itself, gets the answer that the exchange calls for, and then the server's acceptance and
/// readiness connect the client.
pub proof fn law_scram_goes_through(
    p: Progress,
    offered: Seq<u8>,
    nonce: Seq<u8>,
    server_first: Seq<u8>,
    server_final: Seq<u8>,
    status: Seq<u8>,
)
    requires
        !p.read_first,
        p.stage is Startup,
        lists(offered, encode_utf8(known_mechanism())),
        offered.len() + 8 <= i32::MAX,
        server_first.len() + 8 <= i32::MAX,
        server_final.len() + 8 <= i32::MAX,
        status.len() + 4 <= i32::MAX,
        client_final(encode_utf8(p.password), nonce, server_first) matches Ok(answer)
            && answer.len() + 4 <= i32::MAX,
        server_proof(encode_utf8(p.password), nonce, server_first, server_final) is Ok,
    ensures
        ({
            let waiting = Progress { stage: Stage::SaslContinue { nonce }, ..p };
            let proving = Progress { stage: Stage::SaslFinal { nonce, server_first }, ..p };
            let answer = client_final(encode_utf8(p.password), nonce, server_first)->Ok_0;
            &&& run(p, auth_bytes(AUTH_SASL, offered), nonce) == (
                Seq::<u8>::empty(),
                Outcome::Send(
                    Progress { read_first: true, ..waiting },
                    sasl_initial_bytes(known_mechanism(), client_first(nonce)),
                ),
            )
            &&& run(waiting, auth_bytes(AUTH_SASL_CONTINUE, server_first), nonce) == (
                Seq::<u8>::empty(),
                Outcome::Send(Progress { read_first: true, ..proving }, sasl_bytes(answer)),
            )
            &&& run(
                proving,
                auth_bytes(AUTH_SASL_FINAL, server_final) + (auth_bytes(AUTH_OK, seq![]) + frame(
                    READY,
                    status,
                )),
                nonce,
            ) == (Seq::<u8>::empty(), Outcome::Ready)
        }),
{
    let waiting = Progress { stage: Stage::SaslContinue { nonce }, ..p };
    let proving = Progress { stage: Stage::SaslFinal { nonce, server_first }, ..p };
    let answer = client_final(encode_utf8(p.password), nonce, server_first)->Ok_0;
    lemma_sasl_started(p, offered, nonce);
    lemma_sasl_continued(waiting, nonce, server_first, answer);
    let ready = frame(READY, status);
    assert(ready + Seq::<u8>::empty() =~= ready);
    law_accepted_then_ready(p, status, seq![], nonce);
    lemma_sasl_finished(
        proving,
        nonce,
        server_first,
        server_final,
        auth_bytes(AUTH_OK, seq![]) + ready,
    );
}

} // verus!
