//! The request gateway on safe values: what is accepted as a request, and the
//! text that is handed back for every way a call can end.

use vstd::prelude::*;
use vstd::string::*;
use vstd::utf8::{decode_utf8, encode_scalar, encode_utf8, valid_utf8};
use crate::executor::{
    Outcome, OutcomeView, Outgoing, OutgoingView, concluded, conclude, outgoing, plan,
};
use crate::json::{escape, is_plain, json_reading, parse, quote};
use crate::model::{
    Request, RequestView, Response, ResponseView, failure, is_failure, law_wire_is_plain, wire,
};
use crate::schema::{SchemaError, read_request, request_of};
use crate::text::decimal;

verus! {

/// What the standard library says of bytes that are no UTF-8.
pub uninterp spec fn utf8_fault(bytes: Seq<u8>) -> Seq<char>;

/// `std::str::from_utf8`: the text that valid UTF-8 encodes; for other bytes
/// the text of the error, which depends on the bytes alone.
#[verifier::external_body]
fn read_utf8<'a>(bytes: &'a [u8]) -> (r: Result<&'a str, String>)
    ensures
        match r {
            Ok(text) => valid_utf8(bytes@) && text@ == decode_utf8(bytes@),
            Err(fault) => !valid_utf8(bytes@) && fault@ == utf8_fault(bytes@),
        },
{
    std::str::from_utf8(bytes).map_err(|e| e.to_string())
}

/// Whether a text holds the character NUL, which cannot stand inside a
/// NUL-terminated string.
pub open spec fn has_nul(s: Seq<char>) -> bool {
    exists|i: int| 0 <= i < s.len() && s[i] == '\0'
}

/// A text without control characters holds no NUL.
pub proof fn lemma_plain_has_no_nul(s: Seq<char>)
    requires
        is_plain(s),
    ensures
        !has_nul(s),
{
}

/// Whether a byte string holds the byte zero, which ends a NUL-terminated
/// string.
pub open spec fn has_zero_byte(bytes: Seq<u8>) -> bool {
    exists|i: int| 0 <= i < bytes.len() && bytes[i] == 0
}

/// Only the character NUL is encoded with a zero byte.
proof fn lemma_zero_byte_of_scalar(c: char)
    ensures
        has_zero_byte(encode_scalar(c as u32)) <==> c == '\0',
{
    let v = c as u32;
    let bytes = encode_scalar(v);
    assert(v <= 0x7F ==> ((v & 0x7F) as u8 == 0 <==> v == 0)) by (bit_vector);
    assert((0xC0 | ((v >> 6) & 0x1F) as u8) != 0) by (bit_vector);
    assert((0xE0 | ((v >> 12) & 0x0F) as u8) != 0) by (bit_vector);
    assert((0xF0 | ((v >> 18) & 0x7) as u8) != 0) by (bit_vector);
    assert((0x80 | (v & 0x3F) as u8) != 0) by (bit_vector);
    assert((0x80 | ((v >> 6) & 0x3F) as u8) != 0) by (bit_vector);
    assert((0x80 | ((v >> 12) & 0x3F) as u8) != 0) by (bit_vector);
    if c == '\0' {
        assert(bytes[0] == 0);
    }
}

/// A text holds the character NUL exactly when its UTF-8 encoding holds a zero
/// byte.
pub proof fn law_nul_is_the_zero_byte(s: Seq<char>)
    ensures
        has_nul(s) <==> has_zero_byte(encode_utf8(s)),
    decreases s.len(),
{
    if s.len() > 0 {
        let head = encode_scalar(s[0] as u32);
        let tail = encode_utf8(s.drop_first());
        lemma_zero_byte_of_scalar(s[0]);
        law_nul_is_the_zero_byte(s.drop_first());
        assert(encode_utf8(s) == head + tail);
        if has_nul(s) {
            let i = choose|i: int| 0 <= i < s.len() && s[i] == '\0';
            if i == 0 {
                let k = choose|k: int| 0 <= k < head.len() && head[k] == 0;
                assert((head + tail)[k] == 0);
            } else {
                assert(s.drop_first()[i - 1] == '\0');
                let k = choose|k: int| 0 <= k < tail.len() && tail[k] == 0;
                assert((head + tail)[head.len() + k] == 0);
            }
        }
        if has_zero_byte(encode_utf8(s)) {
            let k = choose|k: int| 0 <= k < (head + tail).len() && (head + tail)[k] == 0;
            if k < head.len() {
                assert(head[k] == 0);
                assert(s[0] == '\0');
            } else {
                assert(tail[k - head.len()] == 0);
                let i = choose|i: int| 0 <= i < s.drop_first().len() && s.drop_first()[i] == '\0';
                assert(s[i + 1] == '\0');
            }
        }
    }
}

/// Whether a text holds the character NUL.
pub fn contains_nul(s: &str) -> (found: bool)
    ensures
        found == has_nul(s@),
{
    for c in it: s.chars()
        invariant
            it.seq() == s@,
            !has_nul(it.seq().take(it.index() as int)),
    {
        if c == '\0' {
            assert(s@[it.index() as int] == '\0');
            return true;
        }
        let ghost done = it.seq().take(it.index() as int);
        let ghost next = it.seq().take(it.index() + 1);
        assert forall|i: int| 0 <= i < next.len() implies next[i] != '\0' by {
            if i < done.len() {
                assert(done[i] == next[i]);
            }
        }
    }
    assert(s@.take(s@.len() as int) == s@);
    false
}

/// The payload that reports a failure of the call: the failure response for
/// `message`, with no duration, on the wire.
pub fn json_error(message: &str) -> (payload: String)
    ensures
        payload@ == wire(failure(message@, 0)),
{
    Response::failure(String::from_str(message), 0).to_json()
}

/// The text that may cross the boundary as a NUL-terminated string in place
/// of `text`: `text` itself, unless it holds a NUL; then the failure payload
/// that says so.
pub fn boundary_text(text: String) -> (safe: String)
    ensures
        !has_nul(safe@),
        !has_zero_byte(encode_utf8(safe@)),
        safe@ == if has_nul(text@) {
            wire(failure("Invalid string (interior NUL)"@, 0))
        } else {
            text@
        },
{
    let safe = if contains_nul(text.as_str()) {
        proof {
            law_wire_is_plain(failure("Invalid string (interior NUL)"@, 0));
        }
        json_error("Invalid string (interior NUL)")
    } else {
        text
    };
    proof {
        law_nul_is_the_zero_byte(safe@);
    }
    safe
}

/// Why a call's input is refused.
#[derive(Clone, Debug)]
pub enum InputError {
    /// There is no input.
    Null,
    /// The input is no UTF-8; `fault` says where it goes wrong.
    NotUtf8 { fault: String },
    /// The input is no JSON document; `diagnostic` is the parser's.
    NotJson { diagnostic: String },
    /// The document is no request description.
    NotRequest(SchemaError),
}

/// What a refusal holds.
pub enum InputErrorView {
    Null,
    NotUtf8 { fault: Seq<char> },
    NotJson { diagnostic: Seq<char> },
    NotRequest(SchemaError),
}

impl View for InputError {
    type V = InputErrorView;

    open spec fn view(&self) -> InputErrorView {
        match self {
            InputError::Null => InputErrorView::Null,
            InputError::NotUtf8 { fault } => InputErrorView::NotUtf8 { fault: fault@ },
            InputError::NotJson { diagnostic } => InputErrorView::NotJson {
                diagnostic: diagnostic@,
            },
            InputError::NotRequest(e) => InputErrorView::NotRequest(*e),
        }
    }
}

impl InputErrorView {
    /// The message that the refusal is reported with.
    pub open spec fn message(self) -> Seq<char> {
        match self {
            InputErrorView::Null => "req_json is null"@,
            InputErrorView::NotUtf8 { fault } => "invalid utf-8: "@ + fault,
            InputErrorView::NotJson { diagnostic } => "invalid json: "@ + diagnostic,
            InputErrorView::NotRequest(e) => "invalid json: "@ + e.message(),
        }
    }
}

impl InputError {
    /// The message that the refusal is reported with.
    pub fn describe(&self) -> (text: String)
        ensures
            text@ == self@.message(),
    {
        match self {
            InputError::Null => String::from_str("req_json is null"),
            InputError::NotUtf8 { fault } => {
                let mut text = String::from_str("invalid utf-8: ");
                text.append(fault.as_str());
                text
            },
            InputError::NotJson { diagnostic } => {
                let mut text = String::from_str("invalid json: ");
                text.append(diagnostic.as_str());
                text
            },
            InputError::NotRequest(e) => {
                let mut text = String::from_str("invalid json: ");
                text.append(e.describe().as_str());
                text
            },
        }
    }
}

/// What a call's input is taken for: the request it describes, or why it is
/// refused. No input at all, bytes that are no UTF-8, text that is no JSON
/// document and a document that is no request description are refused, in
/// that order.
pub open spec fn admission(input: Option<Seq<u8>>) -> Result<RequestView, InputErrorView> {
    match input {
        None => Err(InputErrorView::Null),
        Some(bytes) => if !valid_utf8(bytes) {
            Err(InputErrorView::NotUtf8 { fault: utf8_fault(bytes) })
        } else {
            match json_reading(decode_utf8(bytes)) {
                Err(diagnostic) => Err(InputErrorView::NotJson { diagnostic }),
                Ok(document) => match request_of(document) {
                    Err(e) => Err(InputErrorView::NotRequest(e)),
                    Ok(request) => Ok(request),
                },
            }
        },
    }
}

/// The bytes behind an input that may be absent.
pub open spec fn input_view(input: Option<&[u8]>) -> Option<Seq<u8>> {
    match input {
        Some(bytes) => Some(bytes@),
        None => None,
    }
}

/// Takes a call's input for a request, or says why it is refused.
pub fn accept(input: Option<&[u8]>) -> (r: Result<Request, InputError>)
    ensures
        match r {
            Ok(request) => admission(input_view(input)) == Ok::<RequestView, InputErrorView>(
                request@,
            ),
            Err(e) => admission(input_view(input)) == Err::<RequestView, InputErrorView>(e@),
        },
{
    let bytes = match input {
        Some(bytes) => bytes,
        None => {
            return Err(InputError::Null);
        },
    };
    let text = match read_utf8(bytes) {
        Ok(text) => text,
        Err(fault) => {
            return Err(InputError::NotUtf8 { fault });
        },
    };
    let document = match parse(text) {
        Ok(document) => document,
        Err(diagnostic) => {
            return Err(InputError::NotJson { diagnostic });
        },
    };
    match read_request(&document) {
        Ok(request) => Ok(request),
        Err(e) => Err(InputError::NotRequest(e)),
    }
}

/// What the gateway does next with a call.
#[derive(Clone, Debug)]
pub enum Step {
    /// The call is over: this payload goes back.
    Reply(String),
    /// This request goes out; how that ends decides the payload.
    Send(Outgoing),
}

/// What a step holds.
pub enum StepView {
    Reply(Seq<char>),
    Send(OutgoingView),
}

impl View for Step {
    type V = StepView;

    open spec fn view(&self) -> StepView {
        match self {
            Step::Reply(payload) => StepView::Reply(payload@),
            Step::Send(out) => StepView::Send(out@),
        }
    }
}

/// The first step of a call: input that is refused is answered at once with
/// the failure payload for the refusal; a request goes out as planned.
pub open spec fn first_step(input: Option<Seq<u8>>) -> StepView {
    match admission(input) {
        Err(e) => StepView::Reply(wire(failure(e.message(), 0))),
        Ok(request) => StepView::Send(outgoing(request)),
    }
}

/// The first step of a call.
pub fn begin(input: Option<&[u8]>) -> (step: Step)
    ensures
        step@ == first_step(input_view(input)),
{
    match accept(input) {
        Ok(request) => Step::Send(plan(&request)),
        Err(e) => Step::Reply(json_error(e.describe().as_str())),
    }
}

/// The payload that reports how sending a request ended, after `duration_ms`
/// milliseconds.
pub fn respond(outcome: Outcome, duration_ms: u64) -> (payload: String)
    requires
        outcome@.wf(),
    ensures
        payload@ == wire(concluded(outcome@, duration_ms)),
        !has_nul(payload@),
{
    proof {
        law_wire_is_plain(concluded(outcome@, duration_ms));
    }
    conclude(outcome, duration_ms).to_json()
}

/// The payload that reports a fault inside the call itself.
pub fn fault_payload() -> (payload: String)
    ensures
        payload@ == wire(failure("panic in pigeon_send_request"@, 0)),
{
    json_error("panic in pigeon_send_request")
}

/// The payload of last resort, for a payload that cannot be handed over: a
/// failure response written out by hand.
pub const FALLBACK: &'static str =
    "{\"status\":0,\"statusText\":\"Error\",\"headers\":[],\"body\":\"serialization error\",\"durationMs\":0}";

/// The payload of last resort is the failure response for the message
/// `serialization error`, as it is on the wire.
pub proof fn lemma_fallback_is_a_failure()
    ensures
        FALLBACK@ == wire(failure("serialization error"@, 0)),
        !has_nul(FALLBACK@),
{
    let message = "serialization error"@;
    reveal_strlit("serialization error");
    reveal_strlit("Error");
    reveal_strlit("{\"status\":");
    reveal_strlit(",\"statusText\":");
    reveal_strlit(",\"headers\":[");
    reveal_strlit("],\"body\":");
    reveal_strlit(",\"durationMs\":");
    reveal_strlit("}");
    reveal_strlit(
        "{\"status\":0,\"statusText\":\"Error\",\"headers\":[],\"body\":\"serialization error\",\"durationMs\":0}",
    );
    reveal_with_fuel(escape, 20);
    assert(quote("Error"@) =~= seq!['"', 'E', 'r', 'r', 'o', 'r', '"']);
    assert(quote(message) =~= seq![
        '"', 's', 'e', 'r', 'i', 'a', 'l', 'i', 'z', 'a', 't', 'i', 'o', 'n', ' ', 'e', 'r', 'r',
        'o', 'r', '"',
    ]);
    assert(decimal(0) =~= seq!['0']);
    assert(FALLBACK@ =~= wire(failure(message, 0)));
    law_wire_is_plain(failure(message, 0));
}

/// Whatever a response holds, its payload crosses the boundary as it is.
pub proof fn law_payload_crosses_unchanged(r: ResponseView)
    ensures
        !has_nul(wire(r)),
{
    law_wire_is_plain(r);
}

/// The response that a call ends with: the failure for the refusal where the
/// input is refused; else what sending the request came to.
pub open spec fn final_response(
    input: Option<Seq<u8>>,
    outcome: OutcomeView,
    duration_ms: u64,
) -> ResponseView {
    match admission(input) {
        Err(e) => failure(e.message(), 0),
        Ok(_) => concluded(outcome, duration_ms),
    }
}

/// Every payload that reports a refusal or a fault has status 0 and the
/// status text `Error`, whatever its message and its duration.
pub proof fn law_failure_has_the_failure_shape(message: Seq<char>, duration_ms: u64)
    ensures
        is_failure(failure(message, duration_ms)),
        failure(message, duration_ms).body == message,
        failure(message, duration_ms).duration_ms == duration_ms,
{
}

/// Every call ends with a response, and that response has status 0 and the
/// status text `Error` if and only if no answer was obtained: the input was
/// refused, or sending failed.
pub proof fn law_call_ends_in_response(
    input: Option<Seq<u8>>,
    outcome: OutcomeView,
    duration_ms: u64,
)
    requires
        outcome.wf(),
    ensures
        first_step(input) matches StepView::Reply(payload) ==> payload == wire(
            final_response(input, outcome, duration_ms),
        ),
        first_step(input) is Send ==> final_response(input, outcome, duration_ms) == concluded(
            outcome,
            duration_ms,
        ),
        is_failure(final_response(input, outcome, duration_ms)) <==> (admission(input) is Err
            || outcome is Failed),
        !has_nul(wire(final_response(input, outcome, duration_ms))),
{
    law_wire_is_plain(final_response(input, outcome, duration_ms));
}

} // verus!
