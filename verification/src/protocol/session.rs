//! Queries that the multiplexer itself sends over an open connection: one that resets it for reuse,
//! and one that checks it.

use bytes::BytesMut;
use vstd::prelude::*;
use vstd::utf8::*;

use super::buffer::bytes_of;
use super::error::{error_text, parse_error_fields, BackendError, Failure, Step};
use super::messages::{
    behind, frame, front, law_frame_round_trip, law_more_bytes, law_query_read_back,
    query_bytes, query_message,
    try_read_message, Front, ERROR, READY,
};

verus! {

/// How long a health check may take, in seconds.
pub const HEALTH_CHECK_SECONDS: u64 = 5;

/// What the messages behind a query say about it.
pub enum Reply {
    /// Not yet anything.
    Pending,
    /// The query was carried out.
    Done,
    /// The server sent an error message with this payload.
    Error(Seq<u8>),
    /// There is a message with an impossible length.
    BadLength(int),
}

/// What the messages in `bytes` say about a query, and the bytes behind the last message that was
/// taken. The first message that says whether the server is ready or that there was an error
/// decides; others are passed over.
pub open spec fn reply(bytes: Seq<u8>) -> (Seq<u8>, Reply)
    decreases bytes.len(),
{
    match front(bytes) {
        Front::Incomplete => (bytes, Reply::Pending),
        Front::BadLength { length } => (bytes, Reply::BadLength(length)),
        Front::Whole { msg_type, payload } => {
            let rest = behind(bytes, payload);
            if msg_type == READY {
                (rest, Reply::Done)
            } else if msg_type == ERROR {
                (rest, Reply::Error(payload))
            } else {
                reply(rest)
            }
        },
    }
}

/// A query of the multiplexer's own.
#[derive(Debug, Clone, Copy, PartialEq, Eq, Structural)]
pub enum Upkeep {
    /// Resets the session for reuse.
    Reset,
    /// Checks that the server answers.
    HealthCheck,
}

impl Upkeep {
    /// The text of the query.
    pub open spec fn query(self) -> Seq<char> {
        match self {
            Upkeep::Reset => "DISCARD ALL"@,
            Upkeep::HealthCheck => "SELECT 1"@,
        }
    }

    /// The query as errors name it.
    pub open spec fn step(self) -> Step {
        match self {
            Upkeep::Reset => Step::Reset,
            Upkeep::HealthCheck => Step::HealthCheck,
        }
    }

    /// Whether a result says what became of the query: `Ok(true)` when it was carried out,
    /// `Ok(false)` when more bytes are needed.
    pub open spec fn tells(self, reply: Reply, result: Result<bool, BackendError>) -> bool {
        match reply {
            Reply::Pending => result matches Ok(done) && !done,
            Reply::Done => result matches Ok(done) && done,
            Reply::Error(payload) => result matches Err(error) && error.stands_for(
                Failure::Refused(self.step(), error_text(payload)),
            ),
            Reply::BadLength(length) => result matches Err(error) && error.stands_for(
                Failure::BadLength(length),
            ),
        }
    }

    /// The message to send.
    pub fn request(self) -> (buf: BytesMut)
        ensures
            bytes_of(buf) == query_bytes(self.query()),
    {
        proof {
            reveal_strlit("DISCARD ALL");
            reveal_strlit("SELECT 1");
            is_ascii_chars_encode_utf8("DISCARD ALL"@);
            is_ascii_chars_encode_utf8("SELECT 1"@);
        }
        match self {
            Upkeep::Reset => query_message("DISCARD ALL"),
            Upkeep::HealthCheck => query_message("SELECT 1"),
        }
    }

    /// Takes note that `count` bytes were read; none means that the server closed the connection.
    pub fn on_read(self, count: usize) -> (result: Result<(), BackendError>)
        ensures
            result is Ok <==> count != 0,
            result matches Err(error) ==> error.stands_for(Failure::Disconnected(self.step())),
    {
        if count != 0 {
            return Ok(());
        }
        match self {
            Upkeep::Reset => Err(BackendError::Disconnected(Step::Reset)),
            Upkeep::HealthCheck => Err(BackendError::Disconnected(Step::HealthCheck)),
        }
    }

    /// Takes messages off the buffer until they say what became of the query: `Ok(true)` when it was
    /// carried out, `Ok(false)` when more bytes are needed.
    pub fn poll(self, buf: &mut BytesMut) -> (result: Result<bool, BackendError>)
        ensures
            bytes_of(*final(buf)) == reply(bytes_of(*old(buf))).0,
            self.tells(reply(bytes_of(*old(buf))).1, result),
            result matches Ok(true) <==> reply(bytes_of(*old(buf))).1 is Done,
            result is Err <==> reply(bytes_of(*old(buf))).1 is Error || reply(
                bytes_of(*old(buf)),
            ).1 is BadLength,
    {
        loop
            invariant
                reply(bytes_of(*buf)) == reply(bytes_of(*old(buf))),
            decreases bytes_of(*buf).len(),
        {
            match try_read_message(buf) {
                Err(bad) => return Err(BackendError::BadLength(bad.length)),
                Ok(None) => return Ok(false),
                Ok(Some(message)) => {
                    if message.msg_type == READY {
                        return Ok(true);
                    }
                    if message.msg_type == ERROR {
                        let text = parse_error_fields(message.payload.as_slice());
                        return match self {
                            Upkeep::Reset => Err(BackendError::Refused(Step::Reset, text)),
                            Upkeep::HealthCheck => Err(
                                BackendError::Refused(Step::HealthCheck, text),
                            ),
                        };
                    }
                },
            }
        }
    }

    /// What to do before each read: a health check that has been under way for too long fails, and a
    /// reset waits as long as it takes. The time since the request was sent is given as whole seconds
    /// and the nanoseconds beyond them.
    pub fn before_read(self, seconds: u64, nanoseconds: u32) -> (result: Result<(), BackendError>)
        ensures
            result is Ok <==> self is Reset || within_deadline(seconds, nanoseconds),
            result matches Err(error) ==> error.stands_for(Failure::TimedOut),
    {
        match self {
            Upkeep::Reset => Ok(()),
            Upkeep::HealthCheck => check_deadline(seconds, nanoseconds),
        }
    }

    /// What to do after each read, of which `count` bytes were appended to the buffer: none means that
    /// the server closed the connection, and else messages are taken off the buffer as by
    /// [`poll`](Self::poll).
    pub fn after_read(self, count: usize, buf: &mut BytesMut) -> (result: Result<bool, BackendError>)
        ensures
            count == 0 ==> (result matches Err(error) && error.stands_for(
                Failure::Disconnected(self.step()),
            )) && bytes_of(*final(buf)) == bytes_of(*old(buf)),
            count != 0 ==> bytes_of(*final(buf)) == reply(bytes_of(*old(buf))).0 && self.tells(
                reply(bytes_of(*old(buf))).1,
                result,
            ),
    {
        self.on_read(count)?;
        self.poll(buf)
    }
}

/// Whether a health check may still be under way after this time.
pub open spec fn within_deadline(seconds: u64, nanoseconds: u32) -> bool {
    seconds * 1_000_000_000 + nanoseconds <= HEALTH_CHECK_SECONDS * 1_000_000_000
}

/// Fails a health check that has been under way for longer than it may. The time is given as whole
/// seconds and the nanoseconds beyond them.
pub fn check_deadline(seconds: u64, nanoseconds: u32) -> (result: Result<(), BackendError>)
    ensures
        result is Ok <==> within_deadline(seconds, nanoseconds),
        result matches Err(error) ==> error.stands_for(Failure::TimedOut),
{
    let elapsed: u128 = seconds as u128 * 1_000_000_000 + nanoseconds as u128;
    if elapsed > HEALTH_CHECK_SECONDS as u128 * 1_000_000_000 {
        Err(BackendError::TimedOut)
    } else {
        Ok(())
    }
}

/// How the server's bytes are cut into reads makes no difference to what they say about a query.
pub proof fn law_reply_split(bytes: Seq<u8>, more: Seq<u8>)
    ensures
        reply(bytes).1 is Pending ==> reply(bytes + more) == reply(reply(bytes).0 + more),
        !(reply(bytes).1 is Pending) ==> reply(bytes + more) == (
            reply(bytes).0 + more,
            reply(bytes).1,
        ),
    decreases bytes.len(),
{
    if !(front(bytes) is Incomplete) {
        law_more_bytes(bytes, more);
        if let Front::Whole { msg_type, payload } = front(bytes) {
            law_reply_split(behind(bytes, payload), more);
        }
    }
}

/// A result says that the query was carried out exactly where the server was found to be ready, and asks
/// for more bytes exactly where nothing was found. An error message of the server always fails the query,
/// whatever it holds, with the server's words, and so does a message with an impossible length.
pub proof fn law_result_follows_reply(
    upkeep: Upkeep,
    found: Reply,
    result: Result<bool, BackendError>,
)
    requires
        upkeep.tells(found, result),
    ensures
        result matches Ok(true) <==> found is Done,
        result matches Ok(false) <==> found is Pending,
        result is Err <==> found is Error || found is BadLength,
        found matches Reply::Error(payload) ==> (result matches Err(BackendError::Refused(step, text))
            && step == (match upkeep {
            Upkeep::Reset => Step::Reset,
            Upkeep::HealthCheck => Step::HealthCheck,
        }) && text@ == error_text(payload)),
        found matches Reply::BadLength(length) ==> (result matches Err(
            BackendError::BadLength(named),
        ) && named == length),
{
}

/// Whether messages stand one behind the other in `bytes`, none of them an error message or one that says
/// that the server is ready, and `last` behind them.
pub open spec fn passed_over(bytes: Seq<u8>, last: Seq<u8>) -> bool
    decreases bytes.len(),
{
    bytes == last || (front(bytes) matches Front::Whole { msg_type, payload } && msg_type != 0x5a
        && msg_type != 0x45 && passed_over(behind(bytes, payload), last))
}

/// The first message that is an error message or says that the server is ready decides what a call gives
/// back: where it says that the server is ready, the query was carried out, and where it is an error
/// message, the query has failed. What follows it makes no difference, and is left in the buffer.
pub proof fn law_first_verdict_is_told(
    upkeep: Upkeep,
    bytes: Seq<u8>,
    payload: Seq<u8>,
    rest: Seq<u8>,
    result: Result<bool, BackendError>,
)
    requires
        payload.len() + 4 <= i32::MAX,
        upkeep.tells(reply(bytes).1, result),
    ensures
        passed_over(bytes, frame(0x5a, payload) + rest) ==> (result matches Ok(true)) && reply(bytes).0
            == rest,
        passed_over(bytes, frame(0x45, payload) + rest) ==> result is Err && reply(bytes).0 == rest,
{
    lemma_passed_over(bytes, frame(0x5a, payload) + rest);
    lemma_passed_over(bytes, frame(0x45, payload) + rest);
    law_first_verdict_decides(payload, rest);
}

proof fn lemma_passed_over(bytes: Seq<u8>, last: Seq<u8>)
    ensures
        passed_over(bytes, last) ==> reply(bytes) == reply(last),
    decreases bytes.len(),
{
    if bytes != last {
        if let Front::Whole { msg_type, payload } = front(bytes) {
            lemma_passed_over(behind(bytes, payload), last);
        }
    }
}

/// As long as no whole message is there nothing is found, and a message with an impossible length is
/// found as such; either way nothing is taken off the buffer.
pub proof fn law_nothing_to_take(bytes: Seq<u8>)
    ensures
        front(bytes) is Incomplete ==> reply(bytes) == (bytes, Reply::Pending),
        front(bytes) matches Front::BadLength { length } ==> reply(bytes) == (
            bytes,
            Reply::BadLength(length),
        ),
{
}

/// A health check may take five seconds and no nanosecond more.
pub proof fn law_deadline(seconds: u64, nanoseconds: u32)
    requires
        nanoseconds < 1_000_000_000,
    ensures
        within_deadline(seconds, nanoseconds) <==> seconds < 5 || (seconds == 5 && nanoseconds == 0),
{
}

/// Each request is a query message: one that discards all of the session's state, and one that selects a
/// number.
pub proof fn law_requests(rest: Seq<u8>)
    ensures
        front(query_bytes(Upkeep::Reset.query()) + rest) == (Front::Whole {
            msg_type: 0x51,
            payload: encode_utf8("DISCARD ALL"@) + seq![0u8],
        }),
        front(query_bytes(Upkeep::HealthCheck.query()) + rest) == (Front::Whole {
            msg_type: 0x51,
            payload: encode_utf8("SELECT 1"@) + seq![0u8],
        }),
{
    reveal_strlit("DISCARD ALL");
    reveal_strlit("SELECT 1");
    is_ascii_chars_encode_utf8("DISCARD ALL"@);
    is_ascii_chars_encode_utf8("SELECT 1"@);
    law_query_read_back("DISCARD ALL"@, rest);
    law_query_read_back("SELECT 1"@, rest);
}

/// What is found when the messages are looked at after each of `reads`, until they say what became of
/// the query: the bytes left in the buffer, the reads that were not needed, and the finding.
pub open spec fn replied(buf: Seq<u8>, reads: Seq<Seq<u8>>) -> (Seq<u8>, Seq<Seq<u8>>, Reply)
    decreases reads.len(),
{
    if reads.len() == 0 {
        (buf, reads, Reply::Pending)
    } else {
        let (rest, found) = reply(buf + reads[0]);
        if found is Pending {
            replied(rest, reads.drop_first())
        } else {
            (rest, reads.drop_first(), found)
        }
    }
}

/// Looking at the messages after each read gives what all the bytes together say about a query, however
/// they are cut into reads, and takes the same messages off them.
pub proof fn law_reply_however_cut(buf: Seq<u8>, reads: Seq<Seq<u8>>)
    requires
        front(buf) is Incomplete,
    ensures
        replied(buf, reads).2 == reply(buf + reads.flatten()).1,
        replied(buf, reads).0 + replied(buf, reads).1.flatten() == reply(buf + reads.flatten()).0,
    decreases reads.len(),
{
    if reads.len() == 0 {
        assert(buf + reads.flatten() =~= buf);
    } else {
        let first = buf + reads[0];
        let later = reads.drop_first();
        assert(buf + reads.flatten() =~= first + later.flatten());
        law_reply_split(first, later.flatten());
        if reply(first).1 is Pending {
            lemma_pending_incomplete(first);
            law_reply_however_cut(reply(first).0, later);
        }
    }
}

/// Where nothing is said yet, no whole message is left.
proof fn lemma_pending_incomplete(bytes: Seq<u8>)
    requires
        reply(bytes).1 is Pending,
    ensures
        front(reply(bytes).0) is Incomplete,
    decreases bytes.len(),
{
    if let Front::Whole { msg_type, payload } = front(bytes) {
        lemma_pending_incomplete(behind(bytes, payload));
    }
}

/// A message that says neither that the server is ready nor that there was an error has no part in
/// what becomes of a query.
pub proof fn law_other_messages_ignored(msg_type: u8, payload: Seq<u8>, bytes: Seq<u8>)
    requires
        msg_type != READY,
        msg_type != ERROR,
        payload.len() + 4 <= i32::MAX,
    ensures
        reply(frame(msg_type, payload) + bytes) == reply(bytes),
{
    law_frame_round_trip(msg_type, payload, bytes);
}

/// The message that the server is ready settles a query, and an error message fails it with the
/// error's payload.
pub proof fn law_first_verdict_decides(payload: Seq<u8>, bytes: Seq<u8>)
    requires
        payload.len() + 4 <= i32::MAX,
    ensures
        reply(frame(READY, payload) + bytes) == (bytes, Reply::Done),
        reply(frame(ERROR, payload) + bytes) == (bytes, Reply::Error(payload)),
{
    law_frame_round_trip(READY, payload, bytes);
    law_frame_round_trip(ERROR, payload, bytes);
}

} // verus!
