//! The decisions of the request executor: which verb goes out, which headers,
//! which payload, and how an outcome becomes the uniform response.

use vstd::prelude::*;
use vstd::string::*;
use crate::model::{
    Body, BodyView, Header, HeaderView, Request, RequestView, Response, ResponseView, failure,
    header_views, is_failure, pair_views,
};

verus! {

/// The upper-case form of an ASCII lower-case letter; any other character
/// unchanged.
pub open spec fn upper_char(c: char) -> char {
    if 'a' <= c <= 'z' {
        ((c as u8) - 32) as u8 as char
    } else {
        c
    }
}

/// `s` with its ASCII letters in upper case.
pub open spec fn ascii_upper(s: Seq<char>) -> Seq<char> {
    Seq::new(s.len(), |i: int| upper_char(s[i]))
}

/// The characters that a verb may hold: ASCII letters and digits and
/// ``!#$%&'*+-.^_`|~``.
pub open spec fn is_token_char(c: char) -> bool {
    ||| 'a' <= c <= 'z'
    ||| 'A' <= c <= 'Z'
    ||| '0' <= c <= '9'
    ||| c == '!'
    ||| c == '#'
    ||| c == '$'
    ||| c == '%'
    ||| c == '&'
    ||| c == '\''
    ||| c == '*'
    ||| c == '+'
    ||| c == '-'
    ||| c == '.'
    ||| c == '^'
    ||| c == '_'
    ||| c == '`'
    ||| c == '|'
    ||| c == '~'
}

/// Whether `s` can be a verb: not empty, and made of token characters.
pub open spec fn is_verb(s: Seq<char>) -> bool {
    s.len() > 0 && forall|i: int| 0 <= i < s.len() ==> is_token_char(#[trigger] s[i])
}

/// The verb that a request with the method `method` goes out with: the method
/// in upper case where that is a verb, `GET` otherwise.
pub open spec fn verb_of(method: Seq<char>) -> Seq<char> {
    if is_verb(ascii_upper(method)) {
        ascii_upper(method)
    } else {
        "GET"@
    }
}

/// Whether `c` has the Unicode property White_Space: the controls from tab
/// to carriage return, the space, next line, the no-break space, the ogham
/// space mark, the spaces from en quad to hair space, the line and the
/// paragraph separator, the narrow no-break space, the medium mathematical
/// space and the ideographic space.
pub open spec fn white_space(c: char) -> bool {
    let code = c as u32;
    ||| 0x9 <= code <= 0xD
    ||| code == 0x20
    ||| code == 0x85
    ||| code == 0xA0
    ||| code == 0x1680
    ||| 0x2000 <= code <= 0x200A
    ||| code == 0x2028
    ||| code == 0x2029
    ||| code == 0x202F
    ||| code == 0x205F
    ||| code == 0x3000
}

/// `char::is_whitespace` of the standard library tells whether the character
/// has the Unicode property White_Space.
pub assume_specification[ char::is_whitespace ](c: char) -> (white: bool)
    ensures
        white == white_space(c),
;

/// Whether trimming `s` leaves nothing: every character is white space.
pub open spec fn is_blank(s: Seq<char>) -> bool {
    forall|i: int| 0 <= i < s.len() ==> white_space(#[trigger] s[i])
}

/// `Method::from_bytes` of `reqwest` (which is that of `http`) on the bytes of
/// `name`: it accepts a name that is not empty and holds token characters
/// only, and the method it gives is written as the name is.
#[verifier::external_body]
fn parse_method(name: &str) -> (method: Option<String>)
    ensures
        match method {
            Some(verb) => is_verb(name@) && verb@ == name@,
            None => !is_verb(name@),
        },
{
    reqwest::Method::from_bytes(name.as_bytes()).ok().map(|m| m.as_str().to_string())
}

/// The upper-case form of `c`.
fn upper_of(c: char) -> (u: char)
    ensures
        u == upper_char(c),
{
    if 'a' <= c && c <= 'z' {
        ((c as u8) - 32) as char
    } else {
        c
    }
}

/// `s` with its ASCII letters in upper case.
pub fn to_ascii_upper(s: &str) -> (upper: String)
    ensures
        upper@ == ascii_upper(s@),
{
    let mut out = String::new();
    for c in it: s.chars()
        invariant
            it.seq() == s@,
            out@ == ascii_upper(it.seq().take(it.index() as int)),
    {
        let ghost next = it.seq().take(it.index() + 1);
        out.push(upper_of(c));
        assert(out@ =~= ascii_upper(next));
    }
    assert(s@.take(s@.len() as int) == s@);
    out
}

/// The verb that a request with the method `method` goes out with.
pub fn verb(method: &str) -> (verb: String)
    ensures
        verb@ == verb_of(method@),
{
    let upper = to_ascii_upper(method);
    match parse_method(upper.as_str()) {
        Some(verb) => verb,
        None => String::from_str("GET"),
    }
}

/// Whether trimming `s` leaves nothing.
pub fn blank(s: &str) -> (b: bool)
    ensures
        b == is_blank(s@),
{
    for c in it: s.chars()
        invariant
            it.seq() == s@,
            is_blank(it.seq().take(it.index() as int)),
    {
        if !c.is_whitespace() {
            assert(s@[it.index() as int] == c);
            return false;
        }
        let ghost done = it.seq().take(it.index() as int);
        let ghost next = it.seq().take(it.index() + 1);
        assert forall|i: int| 0 <= i < next.len() implies white_space(#[trigger] next[i]) by {
            if i < done.len() {
                assert(next[i] == done[i]);
            }
        }
    }
    assert(s@.take(s@.len() as int) == s@);
    true
}

/// Whatever the method, what goes out is a verb; and methods that differ in
/// the case of their ASCII letters only go out as the same verb.
pub proof fn law_verb_is_a_verb(method: Seq<char>, other: Seq<char>)
    ensures
        is_verb(verb_of(method)),
        ascii_upper(method) == ascii_upper(other) ==> verb_of(method) == verb_of(other),
        is_verb(method) ==> verb_of(method) == ascii_upper(method),
{
    reveal_strlit("GET");
    if is_verb(method) {
        let upper = ascii_upper(method);
        assert forall|i: int| 0 <= i < upper.len() implies is_token_char(#[trigger] upper[i]) by {
            assert(is_token_char(method[i]));
        }
    }
}

/// What goes out on the wire for one request.
#[derive(Clone, Debug)]
pub struct Outgoing {
    pub method: String,
    pub url: String,
    pub headers: Vec<(String, String)>,
    pub payload: Option<String>,
}

/// What an outgoing request holds.
pub struct OutgoingView {
    pub method: Seq<char>,
    pub url: Seq<char>,
    pub headers: Seq<(Seq<char>, Seq<char>)>,
    pub payload: Option<Seq<char>>,
}

impl View for Outgoing {
    type V = OutgoingView;

    open spec fn view(&self) -> OutgoingView {
        OutgoingView {
            method: self.method@,
            url: self.url@,
            headers: pair_views(self.headers@),
            payload: match self.payload {
                Some(payload) => Some(payload@),
                None => None,
            },
        }
    }
}

/// The key and value of a header.
pub open spec fn pair_of(header: HeaderView) -> (Seq<char>, Seq<char>) {
    (header.key, header.value)
}

/// The headers of a description that are transmitted: those that are
/// enabled, as they are written, in their order.
pub open spec fn sent_headers(headers: Seq<HeaderView>) -> Seq<(Seq<char>, Seq<char>)> {
    headers.filter(|h: HeaderView| h.enabled).map_values(|h: HeaderView| pair_of(h))
}

/// Whether a body names a content type: one that is not blank.
pub open spec fn is_typed(body: Option<BodyView>) -> bool {
    body matches Some(b) && !is_blank(b.content_type)
}

/// The header that a body adds: `Content-Type` with the content type as it
/// is written, where `typed` says that the body names one.
pub open spec fn type_header(body: Option<BodyView>, typed: bool) -> Seq<(Seq<char>, Seq<char>)> {
    match body {
        Some(b) => if typed {
            seq![("Content-Type"@, b.content_type)]
        } else {
            Seq::empty()
        },
        None => Seq::empty(),
    }
}

/// The payload that a body gives: its content, unless that is empty.
pub open spec fn payload_of(body: Option<BodyView>) -> Option<Seq<char>> {
    match body {
        Some(b) => if b.content.len() > 0 {
            Some(b.content)
        } else {
            None
        },
        None => None,
    }
}

/// What goes out for `request` under the verb `method`, where `typed` says
/// whether its body names a content type.
pub open spec fn composed(request: RequestView, method: Seq<char>, typed: bool) -> OutgoingView {
    OutgoingView {
        method,
        url: request.url,
        headers: sent_headers(request.headers) + type_header(request.body, typed),
        payload: payload_of(request.body),
    }
}

/// What goes out for `request`.
pub open spec fn outgoing(request: RequestView) -> OutgoingView {
    composed(request, verb_of(request.method), is_typed(request.body))
}

/// What goes out for `request` under the verb `method`, where `typed` says
/// whether its body names a content type.
pub fn compose(request: &Request, method: String, typed: bool) -> (out: Outgoing)
    ensures
        out@ == composed(request@, method@, typed),
{
    let ghost described = header_views(request.headers@);
    let ghost keep = |h: HeaderView| h.enabled;
    let mut headers: Vec<(String, String)> = Vec::new();
    let mut i: usize = 0;
    proof {
        reveal(Seq::filter);
        assert(described.take(0).filter(keep) =~= Seq::empty());
        assert(pair_views(headers@) =~= sent_headers(described.take(0)));
    }
    while i < request.headers.len()
        invariant
            i <= request.headers.len(),
            described == header_views(request.headers@),
            keep == |h: HeaderView| h.enabled,
            pair_views(headers@) == sent_headers(described.take(i as int)),
        decreases request.headers.len() - i,
    {
        let header = &request.headers[i];
        let ghost done = described.take(i as int);
        let ghost next = described.take(i + 1);
        let ghost before = pair_views(headers@);
        proof {
            reveal(Seq::filter);
            assert(next.drop_last() =~= done);
            assert(next.last() == header@);
        }
        if header.enabled {
            headers.push((header.key.clone(), header.value.clone()));
            assert(pair_views(headers@) =~= before.push(pair_of(header@)));
            assert(next.filter(keep) == done.filter(keep).push(header@));
            assert(sent_headers(next) =~= sent_headers(done).push(pair_of(header@)));
        }
        i = i + 1;
    }
    assert(described.take(i as int) =~= described);
    let ghost sent = pair_views(headers@);
    let payload = match &request.body {
        Some(body) => {
            if typed {
                headers.push((String::from_str("Content-Type"), body.content_type.clone()));
                assert(pair_views(headers@) =~= sent + type_header(request@.body, typed));
            }
            if body.content.as_str().is_empty() {
                None
            } else {
                Some(body.content.clone())
            }
        },
        None => None,
    };
    assert(pair_views(headers@) =~= sent + type_header(request@.body, typed));
    Outgoing { method, url: request.url.clone(), headers, payload }
}

/// What goes out for `request`.
pub fn plan(request: &Request) -> (out: Outgoing)
    ensures
        out@ == outgoing(request@),
{
    let method = verb(request.method.as_str());
    let typed = match &request.body {
        Some(body) => !blank(body.content_type.as_str()),
        None => false,
    };
    compose(request, method, typed)
}

/// A header that is not enabled leaves what is transmitted as it is,
/// wherever in the description it stands.
pub proof fn law_disabled_header_is_not_sent(headers: Seq<HeaderView>, at: int, header: HeaderView)
    requires
        0 <= at <= headers.len(),
        !header.enabled,
    ensures
        sent_headers(headers.insert(at, header)) == sent_headers(headers),
{
    let keep = |h: HeaderView| h.enabled;
    let front = headers.take(at);
    let back = headers.skip(at);
    assert(headers.insert(at, header) =~= front + seq![header] + back);
    assert(headers =~= front + back);
    Seq::filter_distributes_over_add(front + seq![header], back, keep);
    Seq::filter_distributes_over_add(front, seq![header], keep);
    Seq::filter_distributes_over_add(front, back, keep);
    assert(seq![header].filter(keep) =~= Seq::empty()) by {
        reveal_with_fuel(Seq::filter, 2);
    }
    assert(front.filter(keep) + Seq::<HeaderView>::empty() =~= front.filter(keep));
}

/// A header that is enabled is transmitted as it is written, between what
/// the headers before it and the headers behind it give.
pub proof fn law_enabled_header_is_sent(headers: Seq<HeaderView>, at: int, header: HeaderView)
    requires
        0 <= at <= headers.len(),
        header.enabled,
    ensures
        sent_headers(headers.insert(at, header)) == sent_headers(headers.take(at)) + seq![
            (header.key, header.value),
        ] + sent_headers(headers.skip(at)),
{
    let keep = |h: HeaderView| h.enabled;
    let pair = |h: HeaderView| pair_of(h);
    let front = headers.take(at);
    let back = headers.skip(at);
    assert(headers.insert(at, header) =~= front + seq![header] + back);
    Seq::filter_distributes_over_add(front + seq![header], back, keep);
    Seq::filter_distributes_over_add(front, seq![header], keep);
    assert(seq![header].filter(keep) =~= seq![header]) by {
        reveal_with_fuel(Seq::filter, 2);
    }
    assert((front.filter(keep) + seq![header] + back.filter(keep)).map_values(pair)
        =~= front.filter(keep).map_values(pair) + seq![pair_of(header)] + back.filter(
        keep,
    ).map_values(pair));
}

/// Every pair that is transmitted for a list of headers is the key and value
/// of an enabled header of the list.
pub proof fn law_sent_headers_are_enabled(headers: Seq<HeaderView>, k: int)
    requires
        0 <= k < sent_headers(headers).len(),
    ensures
        exists|i: int|
            0 <= i < headers.len() && headers[i].enabled && sent_headers(headers)[k] == pair_of(
                #[trigger] headers[i],
            ),
{
    let keep = |h: HeaderView| h.enabled;
    let kept = headers.filter(keep);
    headers.lemma_filter_pred(keep, k);
    headers.lemma_filter_contains_rev(keep, kept[k]);
    let i = choose|i: int| 0 <= i < headers.len() && headers[i] == kept[k];
    assert(headers[i].enabled);
}

/// How sending a request ended.
#[derive(Clone, Debug)]
pub enum Outcome {
    /// A server answered. Its status is never 0.
    Answered { status: u16, status_text: String, headers: Vec<(String, String)>, body: String },
    /// No answer was obtained; `reason` describes the transport's error.
    Failed { reason: String },
}

/// What an outcome holds.
pub enum OutcomeView {
    Answered {
        status: u16,
        status_text: Seq<char>,
        headers: Seq<(Seq<char>, Seq<char>)>,
        body: Seq<char>,
    },
    Failed { reason: Seq<char> },
}

impl View for Outcome {
    type V = OutcomeView;

    open spec fn view(&self) -> OutcomeView {
        match self {
            Outcome::Answered { status, status_text, headers, body } => OutcomeView::Answered {
                status: *status,
                status_text: status_text@,
                headers: pair_views(headers@),
                body: body@,
            },
            Outcome::Failed { reason } => OutcomeView::Failed { reason: reason@ },
        }
    }
}

impl OutcomeView {
    /// An answer carries a status other than 0, which stands for "no answer".
    pub open spec fn wf(self) -> bool {
        self matches OutcomeView::Answered { status, .. } ==> status != 0
    }
}

/// A header value as text: the text itself; the empty text for a value that
/// is no text.
pub open spec fn value_text(value: Option<String>) -> Seq<char> {
    match value {
        Some(text) => text@,
        None => Seq::empty(),
    }
}

/// The headers of an answer as pairs of texts, in the order received.
pub open spec fn received_pairs(headers: Seq<(String, Option<String>)>) -> Seq<
    (Seq<char>, Seq<char>),
> {
    Seq::new(headers.len(), |i: int| (headers[i].0@, value_text(headers[i].1)))
}

impl Outcome {
    /// The outcome for an answer as the transport hands it over: a header
    /// value that is no text counts as empty, and so does a body that could
    /// not be read. Nothing where the status is 0, which no answer carries.
    pub fn answered(
        status: u16,
        status_text: String,
        headers: Vec<(String, Option<String>)>,
        body: Option<String>,
    ) -> (outcome: Option<Outcome>)
        ensures
            outcome is Some <==> status != 0,
            outcome matches Some(o) ==> o@ == (OutcomeView::Answered {
                status,
                status_text: status_text@,
                headers: received_pairs(headers@),
                body: value_text(body),
            }) && o@.wf(),
    {
        if status == 0 {
            return None;
        }
        let mut pairs: Vec<(String, String)> = Vec::new();
        let mut i: usize = 0;
        while i < headers.len()
            invariant
                i <= headers.len(),
                pair_views(pairs@) == received_pairs(headers@).take(i as int),
            decreases headers.len() - i,
        {
            let ghost before = pair_views(pairs@);
            let value = match &headers[i].1 {
                Some(text) => text.clone(),
                None => String::new(),
            };
            assert(value@ == value_text(headers[i as int].1));
            pairs.push((headers[i].0.clone(), value));
            assert(pair_views(pairs@) =~= before.push(
                (headers[i as int].0@, value_text(headers[i as int].1)),
            ));
            i = i + 1;
        }
        let body = match body {
            Some(text) => text,
            None => String::new(),
        };
        assert(received_pairs(headers@).take(i as int) =~= received_pairs(headers@));
        Some(Outcome::Answered { status, status_text, headers: pairs, body })
    }
}

/// The response that reports `outcome` after `duration_ms` milliseconds: the
/// answer as it came, or the failure response whose body is `request failed: `
/// and the reason. Either carries the duration.
pub open spec fn concluded(outcome: OutcomeView, duration_ms: u64) -> ResponseView {
    match outcome {
        OutcomeView::Answered { status, status_text, headers, body } => ResponseView {
            status,
            status_text,
            headers,
            body,
            duration_ms,
        },
        OutcomeView::Failed { reason } => failure("request failed: "@ + reason, duration_ms),
    }
}

/// The response that reports `outcome` after `duration_ms` milliseconds.
pub fn conclude(outcome: Outcome, duration_ms: u64) -> (response: Response)
    requires
        outcome@.wf(),
    ensures
        response@ == concluded(outcome@, duration_ms),
        is_failure(response@) <==> outcome is Failed,
{
    match outcome {
        Outcome::Answered { status, status_text, headers, body } => Response {
            status,
            status_text,
            headers,
            body,
            duration_ms,
        },
        Outcome::Failed { reason } => {
            let mut message = String::from_str("request failed: ");
            message.append(reason.as_str());
            Response::failure(message, duration_ms)
        },
    }
}

/// The milliseconds that are reported for an elapsed time of `millis`
/// milliseconds: the low 64 bits.
pub fn elapsed_ms(millis: u128) -> (ms: u64)
    ensures
        ms == millis % 0x1_0000_0000_0000_0000,
{
    assert(millis as u64 == millis % 0x1_0000_0000_0000_0000) by (bit_vector);
    millis as u64
}

/// A response has status 0 and the status text `Error` if and only if no
/// answer was obtained.
pub proof fn law_failure_shape_iff_no_answer(outcome: OutcomeView, duration_ms: u64)
    requires
        outcome.wf(),
    ensures
        is_failure(concluded(outcome, duration_ms)) <==> outcome is Failed,
        concluded(outcome, duration_ms).status == 0 <==> outcome is Failed,
        concluded(outcome, duration_ms).duration_ms == duration_ms,
{
}

} // verus!
