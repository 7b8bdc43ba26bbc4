//! What holds of an opening as a whole, however the server's bytes are cut into reads.

use vstd::prelude::*;

use super::connect::{
    drained, on_message, run, takeable, Outcome, Progress, AUTH_CLEARTEXT, AUTH_MD5, AUTH_OK,
    AUTH_SASL,
};
use super::error::Failure;
use super::handshake::auth_bytes;
use super::messages::{
    be_i32, behind, frame, front, i32_bytes, law_frame_round_trip, law_i32_round_trip,
    law_more_bytes, Front, AUTHENTICATION, ERROR, READY,
};

verus! {

/// Where an opening has come to.
pub enum Opening {
    /// All reads have been used, and more are needed; with the bytes that are left.
    Waiting(Progress, Seq<u8>),
    /// The server is ready for queries.
    Ready,
    /// The connection cannot be used.
    Fail(Failure),
    /// The next message cannot be taken.
    Stuck,
}

/// The messages sent, added to `sent`, and where the opening comes to, when what has to be done is
/// done each time: what is to be sent is sent, and where bytes are needed the next of `reads` is
/// appended to the buffer. An empty read means that the server closed the connection. The nonce of a
/// SASL exchange goes by the number of messages sent before it.
pub open spec fn opened(
    p: Progress,
    buf: Seq<u8>,
    reads: Seq<Seq<u8>>,
    nonces: spec_fn(nat) -> Seq<u8>,
    sent: Seq<Seq<u8>>,
) -> (Seq<Seq<u8>>, Opening)
    decreases reads.len(), buf.len(),
{
    if !takeable(p, buf) {
        (sent, Opening::Stuck)
    } else {
        let (rest, outcome) = run(p, buf, nonces(sent.len()));
        match outcome {
            Outcome::Ready => (sent, Opening::Ready),
            Outcome::Fail(failure) => (sent, Opening::Fail(failure)),
            Outcome::Send(next, bytes) => {
                proof {
                    lemma_run_takes(p, buf, nonces(sent.len()));
                }
                opened(next, rest, reads, nonces, sent.push(bytes))
            },
            Outcome::Next(_) => (sent, Opening::Stuck),
            Outcome::Read(next) => if reads.len() == 0 {
                (sent, Opening::Waiting(next, rest))
            } else if reads[0].len() == 0 {
                (sent, Opening::Fail(Failure::Disconnected(next.stage.step())))
            } else {
                opened(
                    Progress { read_first: false, ..next },
                    rest + reads[0],
                    reads.drop_first(),
                    nonces,
                    sent,
                )
            },
        }
    }
}

/// A message that is answered has been taken off the buffer.
pub proof fn lemma_run_takes(p: Progress, bytes: Seq<u8>, nonce: Seq<u8>)
    ensures
        run(p, bytes, nonce).0.len() <= bytes.len(),
        run(p, bytes, nonce).1 is Send ==> run(p, bytes, nonce).0.len() < bytes.len(),
    decreases bytes.len(),
{
    if !p.read_first {
        if let Front::Whole { msg_type, payload } = front(bytes) {
            if let Outcome::Next(next) = on_message(p, msg_type, payload, nonce) {
                lemma_run_takes(next, behind(bytes, payload), nonce);
            }
        }
    }
}

/// Whether no message in `bytes` is about authentication or an error.
pub open spec fn is_calm(bytes: Seq<u8>) -> bool
    decreases bytes.len(),
{
    match front(bytes) {
        Front::Whole { msg_type, payload } => msg_type != AUTHENTICATION && msg_type != ERROR
            && is_calm(behind(bytes, payload)),
        _ => true,
    }
}

/// On calm messages it makes no difference whether an accepted client still takes what came with the
/// acceptance or already waits for the server to be ready.
proof fn lemma_calm(p: Progress, bytes: Seq<u8>, nonce: Seq<u8>)
    requires
        !p.read_first,
        p.authenticated,
        !p.stage.in_sasl(),
        is_calm(bytes),
    ensures
        run(p, bytes, nonce) == run(
            Progress { read_first: false, ..drained(p) },
            bytes,
            nonce,
        ),
    decreases bytes.len(),
{
    if let Front::Whole { msg_type, payload } = front(bytes) {
        if let Outcome::Next(next) = on_message(p, msg_type, payload, nonce) {
            lemma_calm(next, behind(bytes, payload), nonce);
        }
    }
}

/// Once the client is accepted, how the server's bytes are cut into reads makes no difference, as
/// long as no message among them is about authentication or an error.
pub proof fn law_accepted_split(p: Progress, bytes: Seq<u8>, more: Seq<u8>, nonce: Seq<u8>)
    requires
        !p.read_first,
        p.authenticated,
        !p.stage.in_sasl(),
        is_calm(bytes + more),
        run(p, bytes, nonce).1 is Read,
    ensures
        run(p, bytes + more, nonce) == run(
            Progress { read_first: false, ..run(p, bytes, nonce).1->Read_0 },
            run(p, bytes, nonce).0 + more,
            nonce,
        ),
    decreases bytes.len(),
{
    match front(bytes) {
        Front::Whole { msg_type, payload } => {
            law_more_bytes(bytes, more);
            if let Outcome::Next(next) = on_message(p, msg_type, payload, nonce) {
                law_accepted_split(next, behind(bytes, payload), more, nonce);
            }
        },
        _ => lemma_calm(p, bytes + more, nonce),
    }
}

/// Whether `bytes` start with messages by which the client is accepted, where it is not yet, and then
/// told that the server is ready, with none between that is about authentication or an error.
spec fn is_smooth(accepted: bool, bytes: Seq<u8>) -> bool
    decreases bytes.len(),
{
    match front(bytes) {
        Front::Whole { msg_type, payload } => {
            let rest = behind(bytes, payload);
            if accepted {
                msg_type == READY || (msg_type != AUTHENTICATION && msg_type != ERROR && is_smooth(
                    true,
                    rest,
                ))
            } else {
                msg_type == AUTHENTICATION && payload.len() >= 4 && be_i32(payload) == AUTH_OK
                    && is_smooth(true, rest)
            }
        },
        _ => false,
    }
}

/// Whether the stage is one in which the client is, or is not, accepted.
spec fn stands(p: Progress, accepted: bool) -> bool {
    &&& p.authenticated == accepted
    &&& p.stage is Startup || (p.stage is AwaitReady && accepted)
}

/// One call on the buffered part of a smooth stream either ends ready or leaves a smooth stream.
proof fn lemma_smooth_run(p: Progress, accepted: bool, buf: Seq<u8>, more: Seq<u8>, nonce: Seq<u8>)
    requires
        !p.read_first,
        stands(p, accepted),
        is_smooth(accepted, buf + more),
    ensures
        match run(p, buf, nonce).1 {
            Outcome::Ready => true,
            Outcome::Read(q) => {
                &&& stands(q, q.authenticated)
                &&& is_smooth(q.authenticated, run(p, buf, nonce).0 + more)
                &&& front(run(p, buf, nonce).0) is Incomplete
            },
            _ => false,
        },
    decreases buf.len(),
{
    if !(front(buf) is Incomplete) {
        law_more_bytes(buf, more);
    }
    if let Front::Whole { msg_type, payload } = front(buf) {
        if let Outcome::Next(next) = on_message(p, msg_type, payload, nonce) {
            lemma_smooth_run(next, true, behind(buf, payload), more, nonce);
        }
    }
}

/// A smooth stream makes the connection ready without anything being sent.
proof fn lemma_smooth(
    p: Progress,
    accepted: bool,
    buf: Seq<u8>,
    reads: Seq<Seq<u8>>,
    nonces: spec_fn(nat) -> Seq<u8>,
    sent: Seq<Seq<u8>>,
)
    requires
        stands(p, accepted),
        is_smooth(accepted, buf + reads.flatten()),
        p.read_first ==> reads.len() > 0,
        forall|i: int| 0 <= i < reads.len() ==> (#[trigger] reads[i]).len() > 0,
    ensures
        opened(p, buf, reads, nonces, sent) == (sent, Opening::Ready),
    decreases reads.len(),
{
    let (rest, outcome) = run(p, buf, nonces(sent.len()));
    if !p.read_first {
        lemma_smooth_run(p, accepted, buf, reads.flatten(), nonces(sent.len()));
    }
    if let Outcome::Read(next) = outcome {
        if reads.len() == 0 {
            assert(rest + reads.flatten() =~= rest);
            assert(false);
        }
        assert(reads[0].len() > 0);
        let later = reads.drop_first();
        assert(rest + reads.flatten() =~= (rest + reads[0]) + later.flatten());
        assert forall|i: int| 0 <= i < later.len() implies (#[trigger] later[i]).len() > 0 by {
            assert(reads[i + 1].len() > 0);
        }
        lemma_smooth(
            Progress { read_first: false, ..next },
            next.authenticated,
            rest + reads[0],
            later,
            nonces,
            sent,
        );
    }
}

/// Messages on the wire, one behind the other.
pub open spec fn frames(messages: Seq<(u8, Seq<u8>)>) -> Seq<u8>
    decreases messages.len(),
{
    if messages.len() == 0 {
        seq![]
    } else {
        frame(messages[0].0, messages[0].1) + frames(messages.drop_first())
    }
}

/// Whether a message can be written, and is neither about authentication, nor an error, nor that the
/// server is ready.
pub open spec fn is_aside(message: (u8, Seq<u8>)) -> bool {
    &&& message.0 != AUTHENTICATION
    &&& message.0 != ERROR
    &&& message.0 != READY
    &&& message.1.len() + 4 <= i32::MAX
}

proof fn lemma_frames_smooth(
    messages: Seq<(u8, Seq<u8>)>,
    status: Seq<u8>,
    behind_it: Seq<u8>,
)
    requires
        forall|i: int| 0 <= i < messages.len() ==> is_aside(#[trigger] messages[i]),
        status.len() + 4 <= i32::MAX,
    ensures
        is_smooth(true, frames(messages) + (frame(READY, status) + behind_it)),
    decreases messages.len(),
{
    let last = frame(READY, status) + behind_it;
    if messages.len() == 0 {
        law_frame_round_trip(READY, status, behind_it);
        assert(frames(messages) + last =~= last);
    } else {
        let (msg_type, payload) = messages[0];
        let others = messages.drop_first();
        assert(is_aside(messages[0]));
        assert forall|i: int| 0 <= i < others.len() implies is_aside(#[trigger] others[i]) by {
            assert(is_aside(messages[i + 1]));
        }
        lemma_frames_smooth(others, status, behind_it);
        law_frame_round_trip(msg_type, payload, frames(others) + last);
        assert(frames(messages) + last =~= frame(msg_type, payload) + (frames(others) + last));
    }
}

/// A client that the server accepts is connected once the server is ready, whatever other messages
/// come between, and however the bytes are cut into reads. Nothing is sent on the way.
pub proof fn law_accepted_however_cut(
    p: Progress,
    data: Seq<u8>,
    messages: Seq<(u8, Seq<u8>)>,
    status: Seq<u8>,
    behind_it: Seq<u8>,
    reads: Seq<Seq<u8>>,
    nonces: spec_fn(nat) -> Seq<u8>,
    sent: Seq<Seq<u8>>,
)
    requires
        p.stage is Startup,
        !p.authenticated,
        data.len() + 8 <= i32::MAX,
        forall|i: int| 0 <= i < messages.len() ==> is_aside(#[trigger] messages[i]),
        status.len() + 4 <= i32::MAX,
        reads.flatten() == auth_bytes(AUTH_OK, data) + (frames(messages) + (frame(READY, status)
            + behind_it)),
        forall|i: int| 0 <= i < reads.len() ==> (#[trigger] reads[i]).len() > 0,
    ensures
        opened(p, seq![], reads, nonces, sent) == (sent, Opening::Ready),
{
    let later = frames(messages) + (frame(READY, status) + behind_it);
    lemma_frames_smooth(messages, status, behind_it);
    law_i32_round_trip(AUTH_OK as int, data);
    law_frame_round_trip(AUTHENTICATION, i32_bytes(AUTH_OK as int) + data, later);
    assert(Seq::<u8>::empty() + reads.flatten() =~= reads.flatten());
    lemma_smooth(p, false, seq![], reads, nonces, sent);
}

/// Whether a message in `bytes` asks for a password, or for an exchange that proves it.
pub open spec fn asks_for_password(bytes: Seq<u8>) -> bool
    decreases bytes.len(),
{
    match front(bytes) {
        Front::Whole { msg_type, payload } => is_request(msg_type, payload) || asks_for_password(
            behind(bytes, payload),
        ),
        _ => false,
    }
}

/// Whether a message asks for a password, or for an exchange that proves it.
pub open spec fn is_request(msg_type: u8, payload: Seq<u8>) -> bool {
    &&& msg_type == AUTHENTICATION
    &&& payload.len() >= 4
    &&& be_i32(payload) == AUTH_CLEARTEXT || be_i32(payload) == AUTH_MD5 || be_i32(payload)
        == AUTH_SASL
}

/// The same connection with another password.
pub open spec fn with_password(p: Progress, password: Seq<char>) -> Progress {
    Progress { password, ..p }
}

/// The same outcome for another password, where nothing is sent.
pub open spec fn outcome_with_password(outcome: Outcome, password: Seq<char>) -> Outcome {
    match outcome {
        Outcome::Next(p) => Outcome::Next(with_password(p, password)),
        Outcome::Read(p) => Outcome::Read(with_password(p, password)),
        other => other,
    }
}

/// One call on the buffered part of a stream in which nothing asks for a password.
proof fn lemma_unasked_run(
    p: Progress,
    password: Seq<char>,
    buf: Seq<u8>,
    more: Seq<u8>,
    nonce: Seq<u8>,
    other_nonce: Seq<u8>,
)
    requires
        !p.stage.in_sasl(),
        !asks_for_password(buf + more),
    ensures
        run(with_password(p, password), buf, other_nonce) == (
            run(p, buf, nonce).0,
            outcome_with_password(run(p, buf, nonce).1, password),
        ),
        !(run(p, buf, nonce).1 is Send),
        run(p, buf, nonce).1 matches Outcome::Read(q) ==> !q.stage.in_sasl(),
        !asks_for_password(run(p, buf, nonce).0 + more),
    decreases buf.len(),
{
    if !p.read_first {
        if !(front(buf) is Incomplete) {
            law_more_bytes(buf, more);
        }
        if let Front::Whole { msg_type, payload } = front(buf) {
            if let Outcome::Next(next) = on_message(p, msg_type, payload, nonce) {
                lemma_unasked_run(next, password, behind(buf, payload), more, nonce, other_nonce);
            }
        }
    }
}

/// The password makes no difference to what comes of messages that do not ask for it, and nothing is
/// sent on them.
pub proof fn law_password_unasked(
    p: Progress,
    password: Seq<char>,
    bytes: Seq<u8>,
    nonce: Seq<u8>,
    other_nonce: Seq<u8>,
)
    requires
        !p.stage.in_sasl(),
        !asks_for_password(bytes),
    ensures
        run(with_password(p, password), bytes, other_nonce) == (
            run(p, bytes, nonce).0,
            outcome_with_password(run(p, bytes, nonce).1, password),
        ),
        !(run(p, bytes, nonce).1 is Send),
{
    assert(bytes + Seq::<u8>::empty() =~= bytes);
    lemma_unasked_run(p, password, bytes, seq![], nonce, other_nonce);
}

/// The same end of an opening for another password.
pub open spec fn opening_with_password(opening: Opening, password: Seq<char>) -> Opening {
    match opening {
        Opening::Waiting(p, rest) => Opening::Waiting(with_password(p, password), rest),
        other => other,
    }
}

/// The password reaches the wire only when the server asks for it: two openings with different
/// passwords come to the same, and send nothing, as long as no message asks for a password or for an
/// exchange that proves it.
pub proof fn law_openings_alike(
    p: Progress,
    password: Seq<char>,
    buf: Seq<u8>,
    reads: Seq<Seq<u8>>,
    nonces: spec_fn(nat) -> Seq<u8>,
    other_nonces: spec_fn(nat) -> Seq<u8>,
    sent: Seq<Seq<u8>>,
)
    requires
        !p.stage.in_sasl(),
        !asks_for_password(buf + reads.flatten()),
    ensures
        opened(p, buf, reads, nonces, sent).0 == sent,
        opened(with_password(p, password), buf, reads, other_nonces, sent) == (
            sent,
            opening_with_password(opened(p, buf, reads, nonces, sent).1, password),
        ),
    decreases reads.len(),
{
    let nonce = nonces(sent.len());
    let other_nonce = other_nonces(sent.len());
    let (rest, outcome) = run(p, buf, nonce);
    lemma_unasked_run(p, password, buf, reads.flatten(), nonce, other_nonce);
    if let Outcome::Read(next) = outcome {
        if reads.len() > 0 && reads[0].len() > 0 {
            let later = reads.drop_first();
            assert(rest + reads.flatten() =~= (rest + reads[0]) + later.flatten());
            law_openings_alike(
                Progress { read_first: false, ..next },
                password,
                rest + reads[0],
                later,
                nonces,
                other_nonces,
                sent,
            );
        }
    }
}

} // verus!
