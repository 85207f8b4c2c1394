//! The data that crosses the boundary: a request as the caller describes it,
//! and the one response shape that every outcome is reported in.

use vstd::prelude::*;
use vstd::string::*;
use crate::json::{
    is_plain, lemma_decimal_is_plain, lemma_quote_is_delimited, lemma_quote_is_plain, push_quoted,
    quote,
};
use crate::text::{
    decimal, ends_numeral, lemma_decimal_is_delimited, lemma_same_start, push_decimal, same_text,
};

verus! {

/// One header of a request description. A header that is not enabled is kept
/// in the description and never transmitted.
#[derive(Clone, Debug)]
pub struct Header {
    pub key: String,
    pub value: String,
    pub enabled: bool,
}

/// The body selected for a request.
#[derive(Clone, Debug)]
pub struct Body {
    pub content_type: String,
    pub content: String,
}

/// A request as the caller describes it.
#[derive(Clone, Debug)]
pub struct Request {
    pub method: String,
    pub url: String,
    pub headers: Vec<Header>,
    pub body: Option<Body>,
}

/// The uniform response: what a server answered, or, with status 0, why no
/// answer was obtained.
#[derive(Clone, Debug)]
pub struct Response {
    pub status: u16,
    pub status_text: String,
    pub headers: Vec<(String, String)>,
    pub body: String,
    pub duration_ms: u64,
}

/// What a header holds.
pub struct HeaderView {
    pub key: Seq<char>,
    pub value: Seq<char>,
    pub enabled: bool,
}

/// What a body holds.
pub struct BodyView {
    pub content_type: Seq<char>,
    pub content: Seq<char>,
}

/// What a request description holds.
pub struct RequestView {
    pub method: Seq<char>,
    pub url: Seq<char>,
    pub headers: Seq<HeaderView>,
    pub body: Option<BodyView>,
}

/// What a response holds.
pub struct ResponseView {
    pub status: u16,
    pub status_text: Seq<char>,
    pub headers: Seq<(Seq<char>, Seq<char>)>,
    pub body: Seq<char>,
    pub duration_ms: u64,
}

impl View for Header {
    type V = HeaderView;

    open spec fn view(&self) -> HeaderView {
        HeaderView { key: self.key@, value: self.value@, enabled: self.enabled }
    }
}

impl View for Body {
    type V = BodyView;

    open spec fn view(&self) -> BodyView {
        BodyView { content_type: self.content_type@, content: self.content@ }
    }
}

/// The views of a list of headers, in order.
pub open spec fn header_views(headers: Seq<Header>) -> Seq<HeaderView> {
    Seq::new(headers.len(), |i: int| headers[i]@)
}

/// The views of a list of key and value pairs, in order.
pub open spec fn pair_views(pairs: Seq<(String, String)>) -> Seq<(Seq<char>, Seq<char>)> {
    Seq::new(pairs.len(), |i: int| (pairs[i].0@, pairs[i].1@))
}

impl View for Request {
    type V = RequestView;

    open spec fn view(&self) -> RequestView {
        RequestView {
            method: self.method@,
            url: self.url@,
            headers: header_views(self.headers@),
            body: match self.body {
                Some(body) => Some(body@),
                None => None,
            },
        }
    }
}

impl View for Response {
    type V = ResponseView;

    open spec fn view(&self) -> ResponseView {
        ResponseView {
            status: self.status,
            status_text: self.status_text@,
            headers: pair_views(self.headers@),
            body: self.body@,
            duration_ms: self.duration_ms,
        }
    }
}

/// The response that reports a failure: status 0, the text `Error`, no
/// headers, the message as body.
pub open spec fn failure(message: Seq<char>, duration_ms: u64) -> ResponseView {
    ResponseView {
        status: 0,
        status_text: "Error"@,
        headers: Seq::empty(),
        body: message,
        duration_ms,
    }
}

/// Whether a response has the shape that stands for "no answer obtained".
pub open spec fn is_failure(r: ResponseView) -> bool {
    r.status == 0 && r.status_text == "Error"@
}

/// One response header on the wire: `["key","value"]`.
pub open spec fn wire_pair(pair: (Seq<char>, Seq<char>)) -> Seq<char> {
    seq!['['] + quote(pair.0) + seq![','] + quote(pair.1) + seq![']']
}

/// The response headers on the wire, separated by commas, without the
/// brackets around the list.
pub open spec fn wire_pairs(pairs: Seq<(Seq<char>, Seq<char>)>) -> Seq<char>
    decreases pairs.len(),
{
    if pairs.len() == 0 {
        Seq::empty()
    } else if pairs.len() == 1 {
        wire_pair(pairs[0])
    } else {
        wire_pairs(pairs.drop_last()) + seq![','] + wire_pair(pairs.last())
    }
}

/// A response on the wire: one JSON object without white space, its members
/// in the order `status`, `statusText`, `headers`, `body`, `durationMs`.
pub open spec fn wire(r: ResponseView) -> Seq<char> {
    "{\"status\":"@ + decimal(r.status as nat) + ",\"statusText\":"@ + quote(r.status_text)
        + ",\"headers\":["@ + wire_pairs(r.headers) + "],\"body\":"@ + quote(r.body)
        + ",\"durationMs\":"@ + decimal(r.duration_ms as nat) + "}"@
}

impl Response {
    /// The failure response for `message`.
    pub fn failure(message: String, duration_ms: u64) -> (r: Response)
        ensures
            r@ == failure(message@, duration_ms),
    {
        let r = Response {
            status: 0,
            status_text: String::from_str("Error"),
            headers: Vec::new(),
            body: message,
            duration_ms,
        };
        assert(pair_views(r.headers@) =~= Seq::empty());
        r
    }

    /// Whether this response reports that no answer was obtained.
    pub fn is_failure(&self) -> (b: bool)
        ensures
            b == is_failure(self@),
    {
        self.status == 0 && same_text(self.status_text.as_str(), "Error")
    }

    /// Writes the response as it goes over the wire.
    pub fn to_json(&self) -> (text: String)
        ensures
            text@ == wire(self@),
    {
        let mut out = String::from_str("{\"status\":");
        push_decimal(&mut out, self.status as u64);
        out.append(",\"statusText\":");
        push_quoted(&mut out, self.status_text.as_str());
        out.append(",\"headers\":[");
        let ghost before = out@;
        let n = self.headers.len();
        let mut i: usize = 0;
        while i < n
            invariant
                n == self.headers.len(),
                i <= n,
                out@ == before + wire_pairs(pair_views(self.headers@).take(i as int)),
            decreases n - i,
        {
            let ghost shown = pair_views(self.headers@).take(i as int);
            let ghost next = pair_views(self.headers@).take(i + 1);
            assert(next.drop_last() == shown);
            assert(next.last() == (self.headers[i as int].0@, self.headers[i as int].1@));
            if i > 0 {
                out.push(',');
            }
            out.push('[');
            push_quoted(&mut out, self.headers[i].0.as_str());
            out.push(',');
            push_quoted(&mut out, self.headers[i].1.as_str());
            out.push(']');
            i = i + 1;
        }
        assert(pair_views(self.headers@).take(n as int) == pair_views(self.headers@));
        out.append("],\"body\":");
        push_quoted(&mut out, self.body.as_str());
        out.append(",\"durationMs\":");
        push_decimal(&mut out, self.duration_ms);
        out.append("}");
        out
    }
}

/// A list of headers on the wire holds no control character.
proof fn lemma_wire_pairs_are_plain(pairs: Seq<(Seq<char>, Seq<char>)>)
    ensures
        is_plain(wire_pairs(pairs)),
    decreases pairs.len(),
{
    if pairs.len() > 0 {
        let last = pairs.last();
        lemma_quote_is_plain(last.0);
        lemma_quote_is_plain(last.1);
        assert(is_plain(wire_pair(last)));
        if pairs.len() > 1 {
            lemma_wire_pairs_are_plain(pairs.drop_last());
        }
    }
}

/// A response on the wire holds no control character, so no NUL, whatever
/// its texts hold.
pub proof fn law_wire_is_plain(r: ResponseView)
    ensures
        is_plain(wire(r)),
{
    reveal_strlit("{\"status\":");
    reveal_strlit(",\"statusText\":");
    reveal_strlit(",\"headers\":[");
    reveal_strlit("],\"body\":");
    reveal_strlit(",\"durationMs\":");
    reveal_strlit("}");
    lemma_decimal_is_plain(r.status as nat);
    lemma_decimal_is_plain(r.duration_ms as nat);
    lemma_quote_is_plain(r.status_text);
    lemma_quote_is_plain(r.body);
    lemma_wire_pairs_are_plain(r.headers);
}

/// One header on the wire is read in one way only, whatever follows it.
proof fn lemma_wire_pair_is_delimited(
    p1: (Seq<char>, Seq<char>),
    r1: Seq<char>,
    p2: (Seq<char>, Seq<char>),
    r2: Seq<char>,
)
    requires
        wire_pair(p1) + r1 == wire_pair(p2) + r2,
    ensures
        p1 == p2,
        r1 == r2,
{
    let open = seq!['['];
    let comma = seq![','];
    let close = seq![']'];
    let v1 = quote(p1.1) + (close + r1);
    let v2 = quote(p2.1) + (close + r2);
    let k1 = quote(p1.0) + (comma + v1);
    let k2 = quote(p2.0) + (comma + v2);
    assert(wire_pair(p1) + r1 =~= open + k1);
    assert(wire_pair(p2) + r2 =~= open + k2);
    lemma_same_start(open, k1, k2);
    lemma_quote_is_delimited(p1.0, comma + v1, p2.0, comma + v2);
    lemma_same_start(comma, v1, v2);
    lemma_quote_is_delimited(p1.1, close + r1, p2.1, close + r2);
    lemma_same_start(close, r1, r2);
}

/// What follows the first header of a list: nothing, or a comma and the
/// other headers.
spec fn wire_more(rest: Seq<(Seq<char>, Seq<char>)>) -> Seq<char> {
    if rest.len() == 0 {
        Seq::empty()
    } else {
        seq![','] + wire_pairs(rest)
    }
}

/// A list of headers on the wire begins with its first header.
proof fn lemma_wire_pairs_first(pairs: Seq<(Seq<char>, Seq<char>)>)
    requires
        pairs.len() > 0,
    ensures
        wire_pairs(pairs) == wire_pair(pairs[0]) + wire_more(pairs.drop_first()),
    decreases pairs.len(),
{
    if pairs.len() == 1 {
        assert(wire_pair(pairs[0]) + wire_more(pairs.drop_first()) =~= wire_pair(pairs[0]));
    } else {
        let front = pairs.drop_last();
        lemma_wire_pairs_first(front);
        assert(front[0] == pairs[0]);
        assert(front.drop_first() =~= pairs.drop_first().drop_last());
        let rest = pairs.drop_first();
        assert(rest.last() == pairs.last());
        if rest.len() == 1 {
            assert(wire_more(front.drop_first()) =~= Seq::<char>::empty());
            assert(wire_pairs(rest) == wire_pair(rest[0]));
            assert(wire_pairs(pairs) =~= wire_pair(pairs[0]) + wire_more(rest));
        } else {
            assert(wire_pairs(rest) == wire_pairs(rest.drop_last()) + seq![','] + wire_pair(
                rest.last(),
            ));
            assert(wire_pairs(pairs) =~= wire_pair(pairs[0]) + wire_more(rest));
        }
    }
}

/// A list of headers on the wire that is followed by the closing bracket is
/// read in one way only.
proof fn lemma_wire_pairs_are_delimited(
    h1: Seq<(Seq<char>, Seq<char>)>,
    r1: Seq<char>,
    h2: Seq<(Seq<char>, Seq<char>)>,
    r2: Seq<char>,
)
    requires
        wire_pairs(h1) + (seq![']'] + r1) == wire_pairs(h2) + (seq![']'] + r2),
    ensures
        h1 == h2,
        r1 == r2,
    decreases h1.len(),
{
    let close = seq![']'];
    let comma = seq![','];
    let t1 = close + r1;
    let t2 = close + r2;
    if h1.len() == 0 && h2.len() == 0 {
        assert(wire_pairs(h1) + t1 =~= t1);
        assert(wire_pairs(h2) + t2 =~= t2);
        lemma_same_start(close, r1, r2);
        assert(h1 =~= h2);
    } else if h1.len() == 0 {
        lemma_wire_pairs_first(h2);
        assert(wire_pairs(h1) + t1 =~= t1);
        assert((wire_pairs(h2) + t2)[0] == wire_pair(h2[0])[0]);
        assert(t1[0] == ']');
        assert(false);
    } else if h2.len() == 0 {
        lemma_wire_pairs_first(h1);
        assert(wire_pairs(h2) + t2 =~= t2);
        assert((wire_pairs(h1) + t1)[0] == wire_pair(h1[0])[0]);
        assert(t2[0] == ']');
        assert(false);
    } else {
        lemma_wire_pairs_first(h1);
        lemma_wire_pairs_first(h2);
        let rest1 = h1.drop_first();
        let rest2 = h2.drop_first();
        let x = wire_more(rest1) + t1;
        let y = wire_more(rest2) + t2;
        assert(wire_pairs(h1) + t1 =~= wire_pair(h1[0]) + x);
        assert(wire_pairs(h2) + t2 =~= wire_pair(h2[0]) + y);
        lemma_wire_pair_is_delimited(h1[0], x, h2[0], y);
        if rest1.len() == 0 && rest2.len() == 0 {
            assert(x =~= t1);
            assert(y =~= t2);
            lemma_same_start(close, r1, r2);
            assert(rest1 =~= rest2);
        } else if rest1.len() == 0 {
            assert(x =~= t1);
            assert(x[0] == ']');
            assert(y[0] == ',');
            assert(false);
        } else if rest2.len() == 0 {
            assert(y =~= t2);
            assert(y[0] == ']');
            assert(x[0] == ',');
            assert(false);
        } else {
            let x1 = wire_pairs(rest1) + t1;
            let y1 = wire_pairs(rest2) + t2;
            assert(x =~= comma + x1);
            assert(y =~= comma + y1);
            lemma_same_start(comma, x1, y1);
            lemma_wire_pairs_are_delimited(rest1, r1, rest2, r2);
        }
        assert(h1 =~= seq![h1[0]] + rest1);
        assert(h2 =~= seq![h2[0]] + rest2);
    }
}

/// What follows the status on the wire.
spec fn wire_after_status(r: ResponseView) -> Seq<char> {
    ",\"statusText\":"@ + wire_from_status_text(r)
}

/// The status text on the wire, and what follows it.
spec fn wire_from_status_text(r: ResponseView) -> Seq<char> {
    quote(r.status_text) + (",\"headers\":["@ + wire_from_headers(r))
}

/// The headers on the wire, and what follows them.
spec fn wire_from_headers(r: ResponseView) -> Seq<char> {
    wire_pairs(r.headers) + (seq![']'] + ("],\"body\":"@.skip(1) + wire_from_body(r)))
}

/// The body on the wire, and what follows it.
spec fn wire_from_body(r: ResponseView) -> Seq<char> {
    quote(r.body) + (",\"durationMs\":"@ + wire_from_duration(r))
}

/// The duration on the wire, and the closing brace.
spec fn wire_from_duration(r: ResponseView) -> Seq<char> {
    decimal(r.duration_ms as nat) + "}"@
}

/// A response on the wire, member after member.
proof fn lemma_wire_in_members(r: ResponseView)
    ensures
        wire(r) == "{\"status\":"@ + (decimal(r.status as nat) + wire_after_status(r)),
        ends_numeral(wire_after_status(r)),
        ends_numeral("}"@),
{
    reveal_strlit(",\"statusText\":");
    reveal_strlit("],\"body\":");
    reveal_strlit("}");
    let l4 = "],\"body\":"@;
    assert(l4 =~= seq![']'] + l4.skip(1));
    assert(wire(r) =~= "{\"status\":"@ + (decimal(r.status as nat) + wire_after_status(r)));
}

/// The text on the wire stands for one response only: responses that are
/// written alike are alike in every member.
pub proof fn law_wire_is_read_one_way(a: ResponseView, b: ResponseView)
    requires
        wire(a) == wire(b),
    ensures
        a == b,
{
    lemma_wire_in_members(a);
    lemma_wire_in_members(b);
    lemma_same_start(
        "{\"status\":"@,
        decimal(a.status as nat) + wire_after_status(a),
        decimal(b.status as nat) + wire_after_status(b),
    );
    lemma_decimal_is_delimited(
        a.status as nat,
        wire_after_status(a),
        b.status as nat,
        wire_after_status(b),
    );
    lemma_same_start(",\"statusText\":"@, wire_from_status_text(a), wire_from_status_text(b));
    lemma_quote_is_delimited(
        a.status_text,
        ",\"headers\":["@ + wire_from_headers(a),
        b.status_text,
        ",\"headers\":["@ + wire_from_headers(b),
    );
    lemma_same_start(",\"headers\":["@, wire_from_headers(a), wire_from_headers(b));
    lemma_wire_pairs_are_delimited(
        a.headers,
        "],\"body\":"@.skip(1) + wire_from_body(a),
        b.headers,
        "],\"body\":"@.skip(1) + wire_from_body(b),
    );
    lemma_same_start("],\"body\":"@.skip(1), wire_from_body(a), wire_from_body(b));
    lemma_quote_is_delimited(
        a.body,
        ",\"durationMs\":"@ + wire_from_duration(a),
        b.body,
        ",\"durationMs\":"@ + wire_from_duration(b),
    );
    lemma_same_start(",\"durationMs\":"@, wire_from_duration(a), wire_from_duration(b));
    lemma_decimal_is_delimited(a.duration_ms as nat, "}"@, b.duration_ms as nat, "}"@);
}

} // verus!
