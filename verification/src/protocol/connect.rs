//! Opening a backend connection: what the client answers to each message of the server, until the
//! server is ready for queries.

use bytes::BytesMut;
use postgres_protocol::authentication::md5_hash;
use postgres_protocol::authentication::sasl::ScramSha256;
use postgres_protocol::message::frontend;
use vstd::prelude::*;
use vstd::slice::slice_subrange;
use vstd::utf8::*;

use super::auth::{
    at_start, client_final, client_first, encode_words, exchange_of, is_nonce, md5_text, password_bytes,
    sasl_bytes, sasl_initial_bytes, sendable_initial, sendable_password, server_proof, start_scram,
    Exchange,
};
use super::buffer::{as_slice, bytes_of, get_i32, new_buffer};
use super::error::{
    carry_encode, carry_scram, error_text, parse_error_fields, BackendError, Failure, Step,
};
use super::messages::{
    be_i32, behind, front, try_read_message, Front, Message, AUTHENTICATION, ERROR, READY,
};

verus! {

/// The server accepts the client.
pub const AUTH_OK: i32 = 0;

/// The server asks for the password as it is.
pub const AUTH_CLEARTEXT: i32 = 3;

/// The server asks for the password hashed with a salt.
pub const AUTH_MD5: i32 = 5;

/// The server offers SASL mechanisms.
pub const AUTH_SASL: i32 = 10;

/// The server's first message in a SASL exchange.
pub const AUTH_SASL_CONTINUE: i32 = 11;

/// The server's final message in a SASL exchange.
pub const AUTH_SASL_FINAL: i32 = 12;

/// Where the opening of a connection stands.
pub enum Stage {
    /// Authentication and what comes with it.
    Startup,
    /// The client's first SASL message, with this nonce, was sent.
    SaslContinue { nonce: Seq<u8> },
    /// The server's first SASL message was answered.
    SaslFinal { nonce: Seq<u8>, server_first: Seq<u8> },
    /// Authenticated, and all messages that came with that have been taken.
    AwaitReady,
}

impl Stage {
    /// Whether a SASL exchange is under way.
    pub open spec fn in_sasl(self) -> bool {
        self is SaslContinue || self is SaslFinal
    }

    /// The stage as errors name it.
    pub open spec fn step(self) -> Step {
        match self {
            Stage::Startup => Step::Startup,
            Stage::SaslContinue { .. } => Step::SaslContinue,
            Stage::SaslFinal { .. } => Step::SaslFinal,
            Stage::AwaitReady => Step::AwaitReady,
        }
    }
}

/// A connection that is being opened.
#[verifier::ext_equal]
pub struct Progress {
    pub user: Seq<char>,
    pub password: Seq<char>,
    /// Whether the server has accepted the client.
    pub authenticated: bool,
    pub stage: Stage,
    /// Whether bytes must be read before the next message is taken, even if one is there.
    pub read_first: bool,
}

/// A connection over which the startup message was just sent.
pub open spec fn started(user: Seq<char>, password: Seq<char>) -> Progress {
    Progress { user, password, authenticated: false, stage: Stage::Startup, read_first: true }
}

/// What comes of a message, or of a call that takes messages.
pub enum Outcome {
    /// The next message can be taken.
    Next(Progress),
    /// More bytes have to be read.
    Read(Progress),
    /// These bytes have to be sent.
    Send(Progress, Seq<u8>),
    /// The server is ready for queries.
    Ready,
    /// The connection cannot be used.
    Fail(Failure),
}

/// Whether one of the zero-separated names in `names` is `name`.
pub open spec fn lists(names: Seq<u8>, name: Seq<u8>) -> bool {
    exists|i: int, j: int| is_piece(names, i, j) && #[trigger] names.subrange(i, j) == name
}

/// Whether a zero-separated piece reaches from `i` to `j`.
pub open spec fn is_piece(bytes: Seq<u8>, i: int, j: int) -> bool {
    &&& 0 <= i <= j <= bytes.len()
    &&& i == 0 || bytes[i - 1] == 0
    &&& j == bytes.len() || bytes[j] == 0
}

/// The one SASL mechanism that is known here.
pub open spec fn known_mechanism() -> Seq<char> {
    "SCRAM-SHA-256"@
}

/// Answers a request for a password with this one.
pub open spec fn answer_password(p: Progress, password: Seq<u8>) -> Outcome {
    if sendable_password(password) {
        Outcome::Send(p, password_bytes(password))
    } else {
        Outcome::Fail(Failure::Encode(encode_words(password.contains(0u8))))
    }
}

/// What comes of an authentication message outside a SASL exchange. The nonce is the one that a
/// SASL exchange is started with, where this message starts one.
pub open spec fn on_auth(p: Progress, payload: Seq<u8>, nonce: Seq<u8>) -> Outcome {
    if payload.len() < 4 {
        Outcome::Fail(Failure::InvalidAuth)
    } else {
        let code = be_i32(payload);
        if code == AUTH_OK {
            Outcome::Next(Progress { authenticated: true, ..p })
        } else if code == AUTH_CLEARTEXT {
            answer_password(p, encode_utf8(p.password))
        } else if code == AUTH_MD5 {
            if payload.len() < 8 {
                Outcome::Fail(Failure::InvalidMd5)
            } else {
                let hashed = md5_text(
                    encode_utf8(p.user),
                    encode_utf8(p.password),
                    payload.subrange(4, 8),
                );
                Outcome::Send(p, password_bytes(encode_utf8(hashed)))
            }
        } else if code == AUTH_SASL {
            if lists(payload.skip(4), encode_utf8(known_mechanism())) {
                Outcome::Send(
                    Progress { stage: Stage::SaslContinue { nonce }, read_first: true, ..p },
                    sasl_initial_bytes(known_mechanism(), client_first(nonce)),
                )
            } else {
                Outcome::Fail(Failure::NoMechanism)
            }
        } else {
            Outcome::Fail(Failure::UnsupportedAuth(code))
        }
    }
}

/// What comes of an authentication message when the server's first SASL message is due.
pub open spec fn on_sasl_continue(p: Progress, nonce: Seq<u8>, payload: Seq<u8>) -> Outcome {
    let code = be_i32(payload);
    let server_first = payload.skip(4);
    if code != AUTH_SASL_CONTINUE {
        Outcome::Fail(Failure::UnexpectedSasl(code))
    } else {
        match client_final(encode_utf8(p.password), nonce, server_first) {
            Err(words) => Outcome::Fail(Failure::Scram(words)),
            Ok(answer) => if answer.len() + 4 <= i32::MAX {
                Outcome::Send(
                    Progress {
                        stage: Stage::SaslFinal { nonce, server_first },
                        read_first: true,
                        ..p
                    },
                    sasl_bytes(answer),
                )
            } else {
                Outcome::Fail(Failure::Encode(encode_words(false)))
            },
        }
    }
}

/// What comes of an authentication message when the server's final SASL message is due.
pub open spec fn on_sasl_final(
    p: Progress,
    nonce: Seq<u8>,
    server_first: Seq<u8>,
    payload: Seq<u8>,
) -> Outcome {
    let code = be_i32(payload);
    if code == AUTH_SASL_FINAL {
        match server_proof(encode_utf8(p.password), nonce, server_first, payload.skip(4)) {
            Ok(_) => Outcome::Next(Progress { stage: Stage::Startup, ..p }),
            Err(words) => Outcome::Fail(Failure::Scram(words)),
        }
    } else if code == AUTH_OK {
        Outcome::Next(Progress { stage: Stage::Startup, ..p })
    } else {
        Outcome::Fail(Failure::UnexpectedSaslFinal(code))
    }
}

/// What comes of a message of the server. The nonce is the one that a SASL exchange is started
/// with, where this message starts one.
pub open spec fn on_message(
    p: Progress,
    msg_type: u8,
    payload: Seq<u8>,
    nonce: Seq<u8>,
) -> Outcome {
    if msg_type == ERROR {
        Outcome::Fail(Failure::Refused(p.stage.step(), error_text(payload)))
    } else if msg_type == AUTHENTICATION && !(p.stage is AwaitReady) {
        match p.stage {
            Stage::SaslContinue { nonce } => on_sasl_continue(p, nonce, payload),
            Stage::SaslFinal { nonce, server_first } => on_sasl_final(
                p,
                nonce,
                server_first,
                payload,
            ),
            _ => on_auth(p, payload, nonce),
        }
    } else if p.stage.in_sasl() {
        Outcome::Next(Progress { read_first: true, ..p })
    } else if msg_type == READY {
        Outcome::Ready
    } else {
        Outcome::Next(p)
    }
}

/// A connection whose messages have all been taken: bytes have to be read, and if the server has
/// accepted the client there is nothing left but to wait for it to be ready.
pub open spec fn drained(p: Progress) -> Progress {
    Progress {
        stage: if p.stage is Startup && p.authenticated {
            Stage::AwaitReady
        } else {
            p.stage
        },
        read_first: true,
        ..p
    }
}

/// What comes of the messages in `bytes`, taken one after the other until something has to be
/// done; with the bytes that are left.
pub open spec fn run(p: Progress, bytes: Seq<u8>, nonce: Seq<u8>) -> (Seq<u8>, Outcome)
    decreases bytes.len(),
{
    if p.read_first {
        (bytes, Outcome::Read(p))
    } else {
        match front(bytes) {
            Front::Incomplete => (bytes, Outcome::Read(drained(p))),
            Front::BadLength { length } => (bytes, Outcome::Fail(Failure::BadLength(length))),
            Front::Whole { msg_type, payload } => {
                let rest = behind(bytes, payload);
                match on_message(p, msg_type, payload, nonce) {
                    Outcome::Next(next) => run(next, rest, nonce),
                    outcome => (rest, outcome),
                }
            },
        }
    }
}

/// Whether the next message can be taken. In a SASL exchange it cannot where it is an
/// authentication message too short to hold its kind.
pub open spec fn takeable(p: Progress, bytes: Seq<u8>) -> bool {
    p.stage.in_sasl() && !p.read_first ==> match front(bytes) {
        Front::Whole { msg_type, payload } => msg_type == AUTHENTICATION ==> payload.len() >= 4,
        _ => true,
    }
}

/// Where the opening of a connection stands, with the running SASL exchange.
enum Phase {
    Startup,
    SaslContinue(ScramSha256),
    SaslFinal(ScramSha256),
    AwaitReady,
}

/// What the caller has to do next to open a connection.
pub enum Action {
    /// Read from the server, then report how much was read.
    Read,
    /// Send these bytes.
    Send(BytesMut),
    /// Nothing: the server is ready for queries.
    Ready,
}

/// A connection that is being opened.
///
/// The startup message has been sent. The caller asks what to do with [`poll`](Self::poll), does
/// it, and asks again; after reading it says so with [`on_read`](Self::on_read).
pub struct BackendConnect {
    user: String,
    password: String,
    authenticated: bool,
    phase: Phase,
    read_first: bool,
}

/// The stage that a phase stands for.
spec fn stage_of(phase: Phase) -> Stage {
    match phase {
        Phase::Startup => Stage::Startup,
        Phase::SaslContinue(scram) => Stage::SaslContinue { nonce: exchange_of(scram)->First_nonce },
        Phase::SaslFinal(scram) => Stage::SaslFinal {
            nonce: exchange_of(scram)->Last_nonce,
            server_first: exchange_of(scram)->server_first,
        },
        Phase::AwaitReady => Stage::AwaitReady,
    }
}

/// Whether the SASL exchange of a phase is where it should be, and for this password.
spec fn phase_wf(phase: Phase, password: Seq<u8>) -> bool {
    match phase {
        Phase::SaslContinue(scram) => exchange_of(scram) is First && exchange_of(
            scram,
        )->First_password == password,
        Phase::SaslFinal(scram) => exchange_of(scram) is Last && exchange_of(scram)->Last_password
            == password,
        _ => true,
    }
}

impl View for BackendConnect {
    type V = Progress;

    closed spec fn view(&self) -> Progress {
        Progress {
            user: self.user@,
            password: self.password@,
            authenticated: self.authenticated,
            stage: stage_of(self.phase),
            read_first: self.read_first,
        }
    }
}

/// What comes of one message, for the loop that takes them.
enum Flow {
    Next,
    Send(BytesMut),
    Ready,
}

/// Whether a connection and a result are what an outcome says.
spec fn follows(
    outcome: Outcome,
    after: BackendConnect,
    result: Result<Flow, BackendError>,
) -> bool {
    match outcome {
        Outcome::Next(p) => result matches Ok(Flow::Next) && after@ == p && after.wf(),
        Outcome::Send(p, bytes) => result matches Ok(Flow::Send(buf)) && bytes_of(buf) == bytes
            && after@ == p && after.wf(),
        Outcome::Ready => result matches Ok(Flow::Ready),
        Outcome::Fail(failure) => result matches Err(error) && error.stands_for(failure),
        Outcome::Read(_) => false,
    }
}

/// Whether a connection, a buffer and a result are what the messages call for.
pub open spec fn polled(
    ran: (Seq<u8>, Outcome),
    after: BackendConnect,
    rest: Seq<u8>,
    result: Result<Action, BackendError>,
) -> bool {
    &&& rest == ran.0
    &&& match ran.1 {
        Outcome::Next(_) => false,
        Outcome::Read(p) => result matches Ok(Action::Read) && after@ == p && after.wf(),
        Outcome::Send(p, bytes) => result matches Ok(Action::Send(buf)) && bytes_of(buf) == bytes
            && after@ == p && after.wf(),
        Outcome::Ready => result matches Ok(Action::Ready),
        Outcome::Fail(failure) => result matches Err(error) && error.stands_for(failure),
    }
}

/// Compares two byte strings.
fn same_bytes(a: &[u8], b: &[u8]) -> (same: bool)
    ensures
        same == (a@ == b@),
{
    if a.len() != b.len() {
        return false;
    }
    for i in 0..a.len()
        invariant
            a@.len() == b@.len(),
            forall|k: int| 0 <= k < i ==> a@[k] == b@[k],
    {
        if a[i] != b[i] {
            return false;
        }
    }
    assert(a@ =~= b@);
    true
}

/// Whether one of the zero-separated names in `names` is `name`.
fn lists_name(names: &[u8], name: &[u8]) -> (found: bool)
    requires
        !name@.contains(0u8),
    ensures
        found == lists(names@, name@),
{
    let mut start: usize = 0;
    loop
        invariant
            !name@.contains(0u8),
            start <= names@.len(),
            start == 0 || names@[start - 1] == 0,
            forall|i: int, j: int|
                i < start && is_piece(names@, i, j) ==> #[trigger] names@.subrange(i, j) != name@,
        decreases names@.len() - start,
    {
        let mut end: usize = start;
        while end < names.len() && names[end] != 0
            invariant
                start <= end <= names@.len(),
                forall|k: int| start <= k < end ==> names@[k] != 0,
            decreases names@.len() - end,
        {
            end += 1;
        }
        let piece = slice_subrange(names, start, end);
        assert(is_piece(names@, start as int, end as int));
        if same_bytes(piece, name) {
            return true;
        }
        proof {
            assert forall|i: int, j: int|
                i <= end && is_piece(names@, i, j) implies #[trigger] names@.subrange(i, j)
                != name@ by {
                if start < i {
                    assert(names@[i - 1] != 0);
                } else if i == start && j != end {
                    if j < end {
                        assert(names@[j] != 0);
                    } else {
                        assert(names@.subrange(i, j)[end - i] == 0);
                    }
                }
            }
        }
        if end == names.len() {
            return false;
        }
        start = end + 1;
    }
}

/// The bytes of a text of ASCII characters.
proof fn lemma_ascii_bytes(text: Seq<char>)
    requires
        forall|i: int| 0 <= i < text.len() ==> 0 < (#[trigger] text[i] as int) < 0x80,
    ensures
        encode_utf8(text).len() == text.len(),
        !encode_utf8(text).contains(0u8),
{
    is_ascii_chars_encode_utf8(text);
}

impl BackendConnect {
    /// Whether the SASL exchange, where one is under way, is the one that the stage tells of.
    pub closed spec fn wf(self) -> bool {
        phase_wf(self.phase, encode_utf8(self.password@))
    }

    /// A connection over which the startup message was just sent.
    pub fn new(user: &str, password: &str) -> (connect: Self)
        ensures
            connect.wf(),
            connect@ == started(user@, password@),
            connect@.user == user@,
            connect@.password == password@,
    {
        BackendConnect {
            user: user.to_owned(),
            password: password.to_owned(),
            authenticated: false,
            phase: Phase::Startup,
            read_first: true,
        }
    }

    /// Whether the server has accepted the client.
    pub fn is_authenticated(&self) -> (authenticated: bool)
        ensures
            authenticated == self@.authenticated,
    {
        self.authenticated
    }

    /// What the connection is doing.
    fn step(&self) -> (step: Step)
        ensures
            step == self@.stage.step(),
    {
        match &self.phase {
            Phase::Startup => Step::Startup,
            Phase::SaslContinue(_) => Step::SaslContinue,
            Phase::SaslFinal(_) => Step::SaslFinal,
            Phase::AwaitReady => Step::AwaitReady,
        }
    }

    /// Takes note that `count` bytes were read and appended to the buffer; none means that the
    /// server closed the connection.
    pub fn on_read(&mut self, count: usize) -> (result: Result<(), BackendError>)
        requires
            old(self).wf(),
        ensures
            final(self).wf(),
            result is Ok <==> count != 0,
            result matches Err(error) ==> error.stands_for(
                Failure::Disconnected(old(self)@.stage.step()),
            ) && final(self)@ == old(self)@,
            result is Ok ==> final(self)@ == (Progress { read_first: false, ..old(self)@ }),
    {
        if count == 0 {
            return Err(BackendError::Disconnected(self.step()));
        }
        self.read_first = false;
        Ok(())
    }

    /// Takes an authentication message outside a SASL exchange.
    fn take_auth(&mut self, payload: &[u8]) -> (result: Result<Flow, BackendError>)
        requires
            old(self)@.stage is Startup,
            !old(self)@.read_first,
        ensures
            exists|nonce: Seq<u8>| #[trigger]
                is_nonce(nonce) && follows(on_auth(old(self)@, payload@, nonce), *final(self), result),
    {
        let ghost any_nonce = Seq::new(24, |i: int| 0x41u8);
        assert(is_nonce(any_nonce));
        if payload.len() < 4 {
            return Err(BackendError::InvalidAuth);
        }
        let code: i32 = get_i32(payload);
        if code == AUTH_OK {
            self.authenticated = true;
            Ok(Flow::Next)
        } else if code == AUTH_CLEARTEXT {
            let mut buf = new_buffer();
            carry_encode(
                frontend::password_message(self.password.as_str().as_bytes(), &mut buf),
            )?;
            assert(bytes_of(buf) =~= password_bytes(encode_utf8(self.password@)));
            Ok(Flow::Send(buf))
        } else if code == AUTH_MD5 {
            if payload.len() < 8 {
                return Err(BackendError::InvalidMd5);
            }
            let salt: [u8; 4] = [payload[4], payload[5], payload[6], payload[7]];
            assert(salt@ =~= payload@.subrange(4, 8));
            let hashed = md5_hash(
                self.user.as_str().as_bytes(),
                self.password.as_str().as_bytes(),
                salt,
            );
            proof {
                lemma_ascii_bytes(hashed@);
            }
            let mut buf = new_buffer();
            carry_encode(frontend::password_message(hashed.as_str().as_bytes(), &mut buf))?;
            assert(bytes_of(buf) =~= password_bytes(encode_utf8(hashed@)));
            Ok(Flow::Send(buf))
        } else if code == AUTH_SASL {
            self.start_sasl(slice_subrange(payload, 4, payload.len()))
        } else {
            Err(BackendError::UnsupportedAuth(code))
        }
    }

    /// Starts a SASL exchange, if one of the offered mechanisms is known.
    fn start_sasl(&mut self, offered: &[u8]) -> (result: Result<Flow, BackendError>)
        requires
            old(self)@.stage is Startup,
        ensures
            lists(offered@, encode_utf8(known_mechanism())) ==> exists|nonce: Seq<u8>| #[trigger]
                is_nonce(nonce) && follows(
                    Outcome::Send(
                        Progress {
                            stage: Stage::SaslContinue { nonce },
                            read_first: true,
                            ..old(self)@
                        },
                        sasl_initial_bytes(known_mechanism(), client_first(nonce)),
                    ),
                    *final(self),
                    result,
                ),
            !lists(offered@, encode_utf8(known_mechanism())) ==> follows(
                Outcome::Fail(Failure::NoMechanism),
                *final(self),
                result,
            ),
    {
        let name = "SCRAM-SHA-256";
        proof {
            reveal_strlit("SCRAM-SHA-256");
            lemma_ascii_bytes(name@);
        }
        if !lists_name(offered, name.as_bytes()) {
            return Err(BackendError::NoMechanism);
        }
        let scram = start_scram(self.password.as_str().as_bytes());
        assert(is_nonce(exchange_of(scram)->First_nonce));
        let buf = self.begin_sasl(scram)?;
        Ok(Flow::Send(buf))
    }

    /// Enters a SASL exchange that is at its start, and gives the message that opens it.
    pub fn begin_sasl(&mut self, scram: ScramSha256) -> (result: Result<BytesMut, BackendError>)
        requires
            old(self)@.stage is Startup,
            at_start(exchange_of(scram), encode_utf8(old(self)@.password)),
        ensures
            final(self).wf(),
            final(self)@ == (Progress {
                stage: Stage::SaslContinue { nonce: exchange_of(scram)->First_nonce },
                read_first: true,
                ..old(self)@
            }),
            result matches Ok(buf) && bytes_of(buf) == sasl_initial_bytes(
                known_mechanism(),
                client_first(exchange_of(scram)->First_nonce),
            ),
    {
        let name = "SCRAM-SHA-256";
        let ghost nonce = exchange_of(scram)->First_nonce;
        proof {
            reveal_strlit("SCRAM-SHA-256");
            reveal_strlit("n,,n=,r=");
            lemma_ascii_bytes(name@);
            lemma_ascii_bytes("n,,n=,r="@);
            assert(sendable_initial(name@, client_first(nonce)));
        }
        let mut buf = new_buffer();
        carry_encode(frontend::sasl_initial_response(name, scram.message(), &mut buf))?;
        assert(bytes_of(buf) =~= sasl_initial_bytes(known_mechanism(), client_first(nonce)));
        self.phase = Phase::SaslContinue(scram);
        self.read_first = true;
        Ok(buf)
    }

    /// Takes the server's first SASL message.
    fn take_sasl_continue(&mut self, scram: ScramSha256, payload: &[u8]) -> (result: Result<
        Flow,
        BackendError,
    >)
        requires
            payload@.len() >= 4,
            phase_wf(Phase::SaslContinue(scram), encode_utf8(old(self)@.password)),
        ensures
            follows(
                on_sasl_continue(old(self)@, exchange_of(scram)->First_nonce, payload@),
                *final(self),
                result,
            ),
    {
        let code: i32 = get_i32(payload);
        if code != AUTH_SASL_CONTINUE {
            return Err(BackendError::UnexpectedSasl(code));
        }
        let mut scram = scram;
        let server_first = slice_subrange(payload, 4, payload.len());
        assert(server_first@ =~= payload@.skip(4));
        carry_scram(scram.update(server_first))?;
        let mut buf = new_buffer();
        carry_encode(frontend::sasl_response(scram.message(), &mut buf))?;
        self.phase = Phase::SaslFinal(scram);
        self.read_first = true;
        Ok(Flow::Send(buf))
    }

    /// Takes the server's final SASL message.
    fn take_sasl_final(&mut self, scram: ScramSha256, payload: &[u8]) -> (result: Result<
        Flow,
        BackendError,
    >)
        requires
            payload@.len() >= 4,
            phase_wf(Phase::SaslFinal(scram), encode_utf8(old(self)@.password)),
        ensures
            follows(
                on_sasl_final(
                    old(self)@,
                    exchange_of(scram)->Last_nonce,
                    exchange_of(scram)->server_first,
                    payload@,
                ),
                *final(self),
                result,
            ),
    {
        let code: i32 = get_i32(payload);
        if code == AUTH_SASL_FINAL {
            let mut scram = scram;
            let server_final = slice_subrange(payload, 4, payload.len());
            assert(server_final@ =~= payload@.skip(4));
            carry_scram(scram.finish(server_final))?;
        } else if code != AUTH_OK {
            return Err(BackendError::UnexpectedSaslFinal(code));
        }
        self.phase = Phase::Startup;
        Ok(Flow::Next)
    }

    /// Takes a message.
    fn take_message(&mut self, message: Message) -> (result: Result<Flow, BackendError>)
        requires
            old(self).wf(),
            !old(self)@.read_first,
            old(self)@.stage.in_sasl() && message.msg_type == AUTHENTICATION
                ==> message.payload@.len() >= 4,
        ensures
            exists|nonce: Seq<u8>| #[trigger]
                is_nonce(nonce) && follows(
                    on_message(old(self)@, message.msg_type, message.payload@, nonce),
                    *final(self),
                    result,
                ),
    {
        let ghost any_nonce = Seq::new(24, |i: int| 0x41u8);
        assert(is_nonce(any_nonce));
        let payload = message.payload.as_slice();
        let step = self.step();
        if message.msg_type == ERROR {
            return Err(BackendError::Refused(step, parse_error_fields(payload)));
        }
        if message.msg_type == AUTHENTICATION {
            let mut phase = Phase::Startup;
            std::mem::swap(&mut self.phase, &mut phase);
            match phase {
                Phase::Startup => self.take_auth(payload),
                Phase::SaslContinue(scram) => self.take_sasl_continue(scram, payload),
                Phase::SaslFinal(scram) => self.take_sasl_final(scram, payload),
                Phase::AwaitReady => {
                    self.phase = Phase::AwaitReady;
                    Ok(Flow::Next)
                },
            }
        } else if step == Step::SaslContinue || step == Step::SaslFinal {
            self.read_first = true;
            Ok(Flow::Next)
        } else if message.msg_type == READY {
            Ok(Flow::Ready)
        } else {
            Ok(Flow::Next)
        }
    }

    /// Whether [`poll`](Self::poll) may be called on this buffer. It may not where a SASL exchange
    /// waits for an authentication message and the next one is too short to hold its kind.
    pub fn can_poll(&self, buf: &BytesMut) -> (can: bool)
        ensures
            can == takeable(self@, bytes_of(*buf)),
    {
        let step = self.step();
        if self.read_first || !(step == Step::SaslContinue || step == Step::SaslFinal) {
            return true;
        }
        let bytes = as_slice(buf);
        if bytes.len() < 5 || bytes[0] != AUTHENTICATION {
            return true;
        }
        let length: i32 = get_i32(slice_subrange(bytes, 1, bytes.len()));
        assert(bytes@.subrange(1, bytes@.len() as int) =~= bytes@.skip(1));
        length < 4 || length >= 8 || bytes.len() - 1 < length as usize
    }

    /// Takes messages off the buffer until something has to be done, and says what. A SASL exchange
    /// that is started on the way gets a nonce drawn at random.
    pub fn poll(&mut self, buf: &mut BytesMut) -> (result: Result<Action, BackendError>)
        requires
            old(self).wf(),
            takeable(old(self)@, bytes_of(*old(buf))),
        ensures
            exists|nonce: Seq<u8>| #[trigger]
                is_nonce(nonce) && polled(
                    run(old(self)@, bytes_of(*old(buf)), nonce),
                    *final(self),
                    bytes_of(*final(buf)),
                    result,
                ),
    {
        let ghost any_nonce = Seq::new(24, |i: int| 0x41u8);
        assert(is_nonce(any_nonce));
        let ghost before = (self@, bytes_of(*buf));
        loop
            invariant
                is_nonce(any_nonce),
                self.wf(),
                takeable(self@, bytes_of(*buf)),
                forall|nonce: Seq<u8>| #[trigger]
                    run(before.0, before.1, nonce) == run(self@, bytes_of(*buf), nonce),
                before == (old(self)@, bytes_of(*old(buf))),
            decreases bytes_of(*buf).len(),
        {
            if self.read_first {
                assert(polled(
                    run(before.0, before.1, any_nonce),
                    *self,
                    bytes_of(*buf),
                    Ok(Action::Read),
                ));
                return Ok(Action::Read);
            }
            let ghost here = (self@, bytes_of(*buf));
            match try_read_message(buf) {
                Err(bad) => {
                    let result = Err(BackendError::BadLength(bad.length));
                    assert(polled(
                        run(before.0, before.1, any_nonce),
                        *self,
                        bytes_of(*buf),
                        result,
                    ));
                    return result;
                },
                Ok(None) => {
                    self.drain();
                    assert(polled(
                        run(before.0, before.1, any_nonce),
                        *self,
                        bytes_of(*buf),
                        Ok(Action::Read),
                    ));
                    return Ok(Action::Read);
                },
                Ok(Some(message)) => {
                    let ghost msg_type = message.msg_type;
                    let ghost payload = message.payload@;
                    let flow = self.take_message(message);
                    let ghost nonce = choose|nonce: Seq<u8>| #[trigger]
                        is_nonce(nonce) && follows(
                            on_message(here.0, msg_type, payload, nonce),
                            *self,
                            flow,
                        );
                    assert(run(before.0, before.1, nonce) == run(here.0, here.1, nonce));
                    let result = match flow {
                        Err(error) => Err(error),
                        Ok(Flow::Send(bytes)) => Ok(Action::Send(bytes)),
                        Ok(Flow::Ready) => Ok(Action::Ready),
                        Ok(Flow::Next) => {
                            assert forall|n: Seq<u8>| #[trigger]
                                run(before.0, before.1, n) == run(self@, bytes_of(*buf), n) by {
                                assert(run(before.0, before.1, n) == run(here.0, here.1, n));
                                assert(on_message(here.0, msg_type, payload, n) == on_message(
                                    here.0,
                                    msg_type,
                                    payload,
                                    nonce,
                                ));
                            }
                            continue;
                        },
                    };
                    assert(polled(run(before.0, before.1, nonce), *self, bytes_of(*buf), result));
                    return result;
                },
            }
        }
    }

    /// Takes note that all messages have been taken.
    fn drain(&mut self)
        requires
            old(self).wf(),
        ensures
            final(self).wf(),
            final(self)@ == drained(old(self)@),
    {
        if self.authenticated && self.step() == Step::Startup {
            self.phase = Phase::AwaitReady;
        }
        self.read_first = true;
    }
}

} // verus!
