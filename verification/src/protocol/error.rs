//! What goes wrong with a backend connection, and what the server says about it.

use vstd::prelude::*;
use vstd::slice::slice_subrange;
use vstd::string::*;
use vstd::utf8::*;

use super::messages::{lemma_until_zero, until_zero};
use super::text::{decimal, i32_to_string};
use crate::words::says;

verus! {

/// `M`: the field of an error message that holds the text meant for people.
pub const MESSAGE_FIELD: u8 = 0x4d;

/// The fields of an error message: for each its type byte and its value, which ends at a zero
/// byte or where the message ends. A zero byte in place of a type ends the list.
pub open spec fn error_fields(payload: Seq<u8>) -> Seq<(u8, Seq<u8>)>
    decreases payload.len(),
{
    if payload.len() == 0 || payload[0] == 0 {
        seq![]
    } else {
        let value = payload.skip(1).take(until_zero(payload.skip(1)) as int);
        let rest = if value.len() + 2 <= payload.len() {
            payload.skip(value.len() as int + 2)
        } else {
            seq![]
        };
        seq![(payload[0], value)] + error_fields(rest)
    }
}

/// The text of the last message field (type `M`) that is valid UTF-8; empty if there is none.
pub open spec fn message_field(fields: Seq<(u8, Seq<u8>)>) -> Seq<char>
    decreases fields.len(),
{
    if fields.len() == 0 {
        seq![]
    } else if fields.last().0 == MESSAGE_FIELD && valid_utf8(fields.last().1) {
        decode_utf8(fields.last().1)
    } else {
        message_field(fields.drop_last())
    }
}

/// What an error message says: its message field, or `unknown error` where that is missing or
/// empty.
pub open spec fn error_text(payload: Seq<u8>) -> Seq<char> {
    let text = message_field(error_fields(payload));
    if text.len() == 0 {
        "unknown error"@
    } else {
        text
    }
}

/// Parse error fields from an ErrorResponse payload.
pub fn parse_error_fields(payload: &[u8]) -> (text: String)
    ensures
        text@ == error_text(payload@),
{
    let mut msg = String::new();
    let mut pos: usize = 0;
    let ghost mut seen: Seq<(u8, Seq<u8>)> = seq![];
    assert(payload@.skip(0) =~= payload@);
    assert(seen + error_fields(payload@) =~= error_fields(payload@));
    while pos < payload.len() && payload[pos] != 0
        invariant
            pos <= payload@.len(),
            seen + error_fields(payload@.skip(pos as int)) == error_fields(payload@),
            msg@ == message_field(seen),
        decreases payload.len() - pos,
    {
        let ghost here = payload@.skip(pos as int);
        let field_type: u8 = payload[pos];
        let start: usize = pos + 1;
        let mut end: usize = start;
        while end < payload.len() && payload[end] != 0
            invariant
                start <= end <= payload@.len(),
                forall|i: int| start <= i < end ==> payload@[i] != 0,
            decreases payload.len() - end,
        {
            end += 1;
        }
        let value = slice_subrange(payload, start, end);
        proof {
            let n = (end - start) as nat;
            assert forall|i: int| 0 <= i < n implies here.skip(1)[i] != 0 by {
                assert(payload@[start + i] != 0);
            }
            lemma_until_zero(here.skip(1), n);
            assert(value@ =~= here.skip(1).take(n as int));
            let seen_now = seen.push((field_type, value@));
            assert(seen_now.drop_last() =~= seen);
            let rest = if end < payload@.len() {
                payload@.skip(end as int + 1)
            } else {
                seq![]
            };
            if end < payload@.len() {
                assert(here.skip(n as int + 2) =~= rest);
            }
            assert(seen_now + error_fields(rest) =~= seen + (seq![(field_type, value@)]
                + error_fields(rest)));
            seen = seen_now;
            assert(payload@.skip(payload@.len() as int) =~= Seq::<u8>::empty());
        }
        if field_type == MESSAGE_FIELD {
            if let Ok(s) = std::str::from_utf8(value) {
                msg = s.to_owned();
            }
        }
        pos = if end < payload.len() {
            end + 1
        } else {
            end
        };
    }
    proof {
        assert(seen + Seq::<(u8, Seq<u8>)>::empty() =~= seen);
    }
    if msg.as_str().is_empty() {
        "unknown error".to_owned()
    } else {
        msg
    }
}

/// An error message as a server writes it: each field as its type byte and its value up to a zero
/// byte, and a zero byte at the end.
pub open spec fn error_bytes(fields: Seq<(u8, Seq<u8>)>) -> Seq<u8>
    decreases fields.len(),
{
    if fields.len() == 0 {
        seq![0u8]
    } else {
        seq![fields[0].0] + fields[0].1 + seq![0u8] + error_bytes(fields.skip(1))
    }
}

/// The fields of an error message are read back as they were written.
pub proof fn law_error_fields_round_trip(fields: Seq<(u8, Seq<u8>)>)
    requires
        forall|i: int|
            0 <= i < fields.len() ==> (#[trigger] fields[i]).0 != 0 && !fields[i].1.contains(0u8),
    ensures
        error_fields(error_bytes(fields)) == fields,
    decreases fields.len(),
{
    let bytes = error_bytes(fields);
    if fields.len() == 0 {
        assert(error_fields(bytes) =~= fields);
    } else {
        let (field_type, value) = fields[0];
        let rest = error_bytes(fields.skip(1));
        assert(fields[0].0 != 0);
        let n = value.len();
        assert forall|i: int| 0 <= i < n implies bytes.skip(1)[i] != 0 by {
            assert(value.contains(value[i]));
        }
        lemma_until_zero(bytes.skip(1), n);
        assert(bytes.skip(1).take(n as int) =~= value);
        assert(bytes.skip(n as int + 2) =~= rest);
        assert forall|i: int| 0 <= i < fields.skip(1).len() implies (
        #[trigger] fields.skip(1)[i]).0 != 0 && !fields.skip(1)[i].1.contains(0u8) by {
            assert(fields[i + 1].0 != 0);
        }
        law_error_fields_round_trip(fields.skip(1));
        assert(seq![fields[0]] + fields.skip(1) =~= fields);
    }
}

/// A field at the front of an error message is read with its whole value, up to the zero byte behind it,
/// and the fields behind it are read as if they stood alone.
pub proof fn law_first_field(field_type: u8, value: Seq<u8>, rest: Seq<u8>)
    requires
        field_type != 0,
        !value.contains(0u8),
    ensures
        error_fields(seq![field_type] + value + seq![0u8] + rest) == seq![(field_type, value)]
            + error_fields(rest),
{
    let payload = seq![field_type] + value + seq![0u8] + rest;
    let n = value.len();
    assert forall|i: int| 0 <= i < n implies payload.skip(1)[i] != 0 by {
        assert(value.contains(value[i]));
    }
    lemma_until_zero(payload.skip(1), n);
    assert(payload.skip(1).take(n as int) =~= value);
    assert(payload.skip(n as int + 2) =~= rest);
}

/// A value that the end of the message cuts off is read as far as it is there.
pub proof fn law_field_cut_off(field_type: u8, value: Seq<u8>)
    requires
        field_type != 0,
        !value.contains(0u8),
    ensures
        error_fields(seq![field_type] + value) == seq![(field_type, value)],
{
    let payload = seq![field_type] + value;
    let n = value.len();
    assert forall|i: int| 0 <= i < n implies payload.skip(1)[i] != 0 by {
        assert(value.contains(value[i]));
    }
    lemma_until_zero(payload.skip(1), n);
    assert(payload.skip(1).take(n as int) =~= value);
    reveal_with_fuel(error_fields, 2);
    assert(error_fields(payload) =~= seq![(field_type, value)]);
}

/// No field is read from an empty message, nor behind a zero byte in place of a type.
pub proof fn law_fields_end(rest: Seq<u8>)
    ensures
        error_fields(seq![]) == Seq::<(u8, Seq<u8>)>::empty(),
        error_fields(seq![0u8] + rest) == Seq::<(u8, Seq<u8>)>::empty(),
{
}

/// Whether a field holds a text meant for people: it is of type `M`, and UTF-8.
pub open spec fn is_message(field: (u8, Seq<u8>)) -> bool {
    field.0 == 0x4d && valid_utf8(field.1)
}

/// An error message says the whole text of its last message field; where that is empty, or there is none,
/// the error is unknown.
pub proof fn law_last_message_is_said(payload: Seq<u8>, i: int)
    ensures
        0 <= i < error_fields(payload).len() && is_message(error_fields(payload)[i]) && (forall|j: int|
            i < j < error_fields(payload).len() ==> !is_message(#[trigger] error_fields(payload)[j]))
            ==> error_text(payload) == (if decode_utf8(error_fields(payload)[i].1).len() == 0 {
            "unknown error"@
        } else {
            decode_utf8(error_fields(payload)[i].1)
        }),
        (forall|j: int|
            0 <= j < error_fields(payload).len() ==> !is_message(#[trigger] error_fields(payload)[j]))
            ==> error_text(payload) == "unknown error"@,
{
    let fields = error_fields(payload);
    lemma_last_message(fields, i);
}

proof fn lemma_last_message(fields: Seq<(u8, Seq<u8>)>, i: int)
    ensures
        0 <= i < fields.len() && is_message(fields[i]) && (forall|j: int|
            i < j < fields.len() ==> !is_message(#[trigger] fields[j])) ==> message_field(fields)
            == decode_utf8(fields[i].1),
        (forall|j: int| 0 <= j < fields.len() ==> !is_message(#[trigger] fields[j]))
            ==> message_field(fields) == Seq::<char>::empty(),
    decreases fields.len(),
{
    if fields.len() > 0 && !is_message(fields.last()) {
        let earlier = fields.drop_last();
        assert(forall|j: int| 0 <= j < earlier.len() ==> earlier[j] == fields[j]);
        if forall|j: int| 0 <= j < fields.len() ==> !is_message(#[trigger] fields[j]) {
            assert forall|j: int| 0 <= j < earlier.len() implies !is_message(
                #[trigger] earlier[j],
            ) by {
                assert(!is_message(fields[j]));
            }
        }
        if 0 <= i < fields.len() && is_message(fields[i]) && (forall|j: int|
            i < j < fields.len() ==> !is_message(#[trigger] fields[j])) {
            assert forall|j: int| i < j < earlier.len() implies !is_message(#[trigger] earlier[j]) by {
                assert(!is_message(fields[j]));
            }
        }
        lemma_last_message(earlier, i);
    }
}

/// A server's text is said whole: an error message whose message field holds a text, with no other
/// message field behind it, says that text.
pub proof fn law_text_is_said(before: Seq<(u8, Seq<u8>)>, text: Seq<char>, after: Seq<(u8, Seq<u8>)>)
    requires
        text.len() > 0,
        !encode_utf8(text).contains(0u8),
        forall|i: int|
            0 <= i < before.len() ==> (#[trigger] before[i]).0 != 0 && !before[i].1.contains(0u8),
        forall|i: int|
            0 <= i < after.len() ==> (#[trigger] after[i]).0 != 0 && after[i].0 != 0x4d
                && !after[i].1.contains(0u8),
    ensures
        error_text(error_bytes(before + seq![(0x4du8, encode_utf8(text))] + after)) == text,
{
    let fields = before + seq![(0x4du8, encode_utf8(text))] + after;
    assert forall|i: int| 0 <= i < fields.len() implies (#[trigger] fields[i]).0 != 0
        && !fields[i].1.contains(0u8) by {
        if i > before.len() {
            assert(fields[i] == after[i - before.len() - 1]);
        } else if i < before.len() {
            assert(fields[i] == before[i]);
        }
    }
    law_error_fields_round_trip(fields);
    encode_utf8_valid_utf8(text);
    encode_utf8_decode_utf8(text);
    assert forall|j: int| before.len() < j < fields.len() implies !is_message(#[trigger] fields[j]) by {
        assert(fields[j] == after[j - before.len() - 1]);
    }
    law_last_message_is_said(error_bytes(fields), before.len() as int);
}

/// An error message always says something.
pub proof fn law_error_text_not_empty(payload: Seq<u8>)
    ensures
        error_text(payload).len() > 0,
{
    reveal_strlit("unknown error");
}

/// What a connection was doing.
#[derive(Debug, Clone, Copy, PartialEq, Eq, Structural)]
pub enum Step {
    /// Opening: authentication and the settings that follow it.
    Startup,
    /// In a SASL exchange, before the server's first message.
    SaslContinue,
    /// In a SASL exchange, before the server's final message.
    SaslFinal,
    /// Authenticated, and waiting to be told that the server is ready.
    AwaitReady,
    /// Being reset for reuse.
    Reset,
    /// Being checked.
    HealthCheck,
}

/// Why a connection failed.
#[derive(Debug)]
pub enum BackendError {
    /// The server closed the connection.
    Disconnected(Step),
    /// The server sent an error message with this text.
    Refused(Step, String),
    /// An authentication message too short to hold its kind.
    InvalidAuth,
    /// A request for an MD5 password too short to hold its salt.
    InvalidMd5,
    /// The server offers SASL, but not by a mechanism that is known here.
    NoMechanism,
    /// A kind of authentication that is not known here.
    UnsupportedAuth(i32),
    /// An authentication message in place of the server's first SASL message.
    UnexpectedSasl(i32),
    /// An authentication message in place of the server's final SASL message.
    UnexpectedSaslFinal(i32),
    /// A message with an impossible length.
    BadLength(i32),
    /// A health check that took too long.
    TimedOut,
    /// An answer that cannot be written as a message.
    Encode(std::io::Error),
    /// A SCRAM message that the client does not accept.
    Scram(std::io::Error),
}

/// What a [`BackendError`] stands for. Of an outside error these are the words.
pub enum Failure {
    Disconnected(Step),
    Refused(Step, Seq<char>),
    InvalidAuth,
    InvalidMd5,
    NoMechanism,
    UnsupportedAuth(int),
    UnexpectedSasl(int),
    UnexpectedSaslFinal(int),
    BadLength(int),
    TimedOut,
    Encode(Seq<char>),
    Scram(Seq<char>),
}

impl BackendError {
    /// Whether this is the error for a failure.
    pub open spec fn stands_for(self, failure: Failure) -> bool {
        match self {
            BackendError::Disconnected(step) => failure == Failure::Disconnected(step),
            BackendError::Refused(step, text) => failure == Failure::Refused(step, text@),
            BackendError::InvalidAuth => failure is InvalidAuth,
            BackendError::InvalidMd5 => failure is InvalidMd5,
            BackendError::NoMechanism => failure is NoMechanism,
            BackendError::UnsupportedAuth(code) => failure == Failure::UnsupportedAuth(code as int),
            BackendError::UnexpectedSasl(code) => failure == Failure::UnexpectedSasl(code as int),
            BackendError::UnexpectedSaslFinal(code) => failure == Failure::UnexpectedSaslFinal(
                code as int,
            ),
            BackendError::BadLength(length) => failure == Failure::BadLength(length as int),
            BackendError::TimedOut => failure is TimedOut,
            BackendError::Encode(error) => failure matches Failure::Encode(words) && says(
                error,
                words,
            ),
            BackendError::Scram(error) => failure matches Failure::Scram(words) && says(
                error,
                words,
            ),
        }
    }
}

/// An error stands for one failure alone: that of its own kind, with all that it holds. Of an outside
/// error it holds the words.
pub proof fn law_error_is_of_its_kind(error: BackendError, failure: Failure)
    requires
        error.stands_for(failure),
    ensures
        match error {
            BackendError::Disconnected(step) => failure == Failure::Disconnected(step),
            BackendError::Refused(step, text) => failure == Failure::Refused(step, text@),
            BackendError::InvalidAuth => failure == Failure::InvalidAuth,
            BackendError::InvalidMd5 => failure == Failure::InvalidMd5,
            BackendError::NoMechanism => failure == Failure::NoMechanism,
            BackendError::UnsupportedAuth(code) => failure == Failure::UnsupportedAuth(code as int),
            BackendError::UnexpectedSasl(code) => failure == Failure::UnexpectedSasl(code as int),
            BackendError::UnexpectedSaslFinal(code) => failure == Failure::UnexpectedSaslFinal(
                code as int,
            ),
            BackendError::BadLength(length) => failure == Failure::BadLength(length as int),
            BackendError::TimedOut => failure == Failure::TimedOut,
            BackendError::Encode(cause) => failure matches Failure::Encode(words) && forall|
                text: String,
            | #[trigger]
                to_string_from_display_ensures(&cause, text) ==> text@ == words,
            BackendError::Scram(cause) => failure matches Failure::Scram(words) && forall|
                text: String,
            | #[trigger]
                to_string_from_display_ensures(&cause, text) ==> text@ == words,
        },
{
}

/// Carries the error of a message that could not be written.
pub fn carry_encode(result: std::io::Result<()>) -> (carried: Result<(), BackendError>)
    ensures
        match result {
            Ok(_) => carried is Ok,
            Err(error) => carried == Err::<(), _>(BackendError::Encode(error)),
        },
{
    match result {
        Ok(_) => Ok(()),
        Err(error) => Err(BackendError::Encode(error)),
    }
}

/// Carries the error of a SCRAM exchange that does not accept what the server sent.
pub fn carry_scram(result: std::io::Result<()>) -> (carried: Result<(), BackendError>)
    ensures
        match result {
            Ok(_) => carried is Ok,
            Err(error) => carried == Err::<(), _>(BackendError::Scram(error)),
        },
{
    match result {
        Ok(_) => Ok(()),
        Err(error) => Err(BackendError::Scram(error)),
    }
}

/// The words for a connection that was closed.
pub open spec fn disconnected_text(step: Step) -> Seq<char> {
    match step {
        Step::Startup => "Backend disconnected during auth"@,
        Step::SaslContinue => "Backend disconnected during SCRAM"@,
        Step::SaslFinal => "Backend disconnected during SCRAM final"@,
        Step::AwaitReady => "Backend disconnected after auth"@,
        Step::Reset => "Backend disconnected during reset"@,
        Step::HealthCheck => "Backend disconnected during health check"@,
    }
}

/// The words for an error message of the server. A failed health check does not repeat what the
/// server said.
pub open spec fn refused_text(step: Step, text: Seq<char>) -> Seq<char> {
    match step {
        Step::Startup => "Backend error: "@ + text,
        Step::SaslContinue => "Backend error during SCRAM: "@ + text,
        Step::SaslFinal => "Backend error during SCRAM: "@ + text,
        Step::AwaitReady => "Backend error after auth: "@ + text,
        Step::Reset => "Reset failed: "@ + text,
        Step::HealthCheck => "Health check failed"@,
    }
}

/// The words for a failure; those of an outside error are its own.
pub open spec fn failure_text(failure: Failure) -> Seq<char> {
    match failure {
        Failure::Disconnected(step) => disconnected_text(step),
        Failure::Refused(step, text) => refused_text(step, text),
        Failure::InvalidAuth => "Invalid auth message"@,
        Failure::InvalidMd5 => "Invalid MD5 auth message"@,
        Failure::NoMechanism => "Server requires SASL but doesn't support SCRAM-SHA-256"@,
        Failure::UnsupportedAuth(code) => "Unsupported auth type: "@ + decimal(code),
        Failure::UnexpectedSasl(code) => "Unexpected auth type during SCRAM: "@ + decimal(code),
        Failure::UnexpectedSaslFinal(code) => "Unexpected auth type in SCRAM final: "@ + decimal(
            code,
        ),
        Failure::BadLength(length) => "Invalid message length: "@ + decimal(length),
        Failure::TimedOut => "Health check timed out"@,
        Failure::Encode(words) => words,
        Failure::Scram(words) => words,
    }
}

/// What the server said is repeated whole, behind the same words for every text, but for a failed health
/// check, which is worded the same whatever the server said.
pub proof fn law_refusal_repeats_the_server(step: Step, text: Seq<char>, other: Seq<char>)
    ensures
        step != Step::HealthCheck ==> failure_text(Failure::Refused(step, text)) == failure_text(
            Failure::Refused(step, seq![]),
        ) + text,
        step == Step::HealthCheck ==> failure_text(Failure::Refused(step, text)) == failure_text(
            Failure::Refused(step, other),
        ),
{
    assert(failure_text(Failure::Refused(step, text)) =~= if step == Step::HealthCheck {
        "Health check failed"@
    } else {
        failure_text(Failure::Refused(step, seq![])) + text
    });
}

/// A kind of authentication or a length that is named in words is named in decimal, as it is.
pub proof fn law_numbers_are_named(code: int)
    ensures
        failure_text(Failure::UnsupportedAuth(code)) == "Unsupported auth type: "@ + decimal(code),
        failure_text(Failure::UnexpectedSasl(code)) == "Unexpected auth type during SCRAM: "@ + decimal(
            code,
        ),
        failure_text(Failure::UnexpectedSaslFinal(code)) == "Unexpected auth type in SCRAM final: "@
            + decimal(code),
        failure_text(Failure::BadLength(code)) == "Invalid message length: "@ + decimal(code),
{
}

/// An outside error is worded by its own words.
pub proof fn law_outside_words_are_kept(words: Seq<char>)
    ensures
        failure_text(Failure::Encode(words)) == words,
        failure_text(Failure::Scram(words)) == words,
{
}

/// Joins two texts.
fn join(head: &str, tail: &str) -> (text: String)
    ensures
        text@ == head@ + tail@,
{
    let mut text = head.to_owned();
    text.append(tail);
    text
}

impl BackendError {
    /// The error in words.
    pub fn message(&self) -> (text: String)
        ensures
            forall|failure: Failure| #[trigger]
                self.stands_for(failure) ==> text@ == failure_text(failure),
            match self {
                BackendError::Encode(error) => to_string_from_display_ensures(error, text),
                BackendError::Scram(error) => to_string_from_display_ensures(error, text),
                _ => true,
            },
    {
        match self {
            BackendError::Disconnected(step) => match step {
                Step::Startup => "Backend disconnected during auth".to_owned(),
                Step::SaslContinue => "Backend disconnected during SCRAM".to_owned(),
                Step::SaslFinal => "Backend disconnected during SCRAM final".to_owned(),
                Step::AwaitReady => "Backend disconnected after auth".to_owned(),
                Step::Reset => "Backend disconnected during reset".to_owned(),
                Step::HealthCheck => "Backend disconnected during health check".to_owned(),
            },
            BackendError::Refused(step, text) => match step {
                Step::Startup => join("Backend error: ", text.as_str()),
                Step::SaslContinue => join("Backend error during SCRAM: ", text.as_str()),
                Step::SaslFinal => join("Backend error during SCRAM: ", text.as_str()),
                Step::AwaitReady => join("Backend error after auth: ", text.as_str()),
                Step::Reset => join("Reset failed: ", text.as_str()),
                Step::HealthCheck => "Health check failed".to_owned(),
            },
            BackendError::InvalidAuth => "Invalid auth message".to_owned(),
            BackendError::InvalidMd5 => "Invalid MD5 auth message".to_owned(),
            BackendError::NoMechanism =>
            "Server requires SASL but doesn't support SCRAM-SHA-256".to_owned(),
            BackendError::UnsupportedAuth(code) => join(
                "Unsupported auth type: ",
                i32_to_string(*code).as_str(),
            ),
            BackendError::UnexpectedSasl(code) => join(
                "Unexpected auth type during SCRAM: ",
                i32_to_string(*code).as_str(),
            ),
            BackendError::UnexpectedSaslFinal(code) => join(
                "Unexpected auth type in SCRAM final: ",
                i32_to_string(*code).as_str(),
            ),
            BackendError::BadLength(length) => join(
                "Invalid message length: ",
                i32_to_string(*length).as_str(),
            ),
            BackendError::TimedOut => "Health check timed out".to_owned(),
            BackendError::Encode(error) => error.to_string(),
            BackendError::Scram(error) => error.to_string(),
        }
    }
}

} // verus!
