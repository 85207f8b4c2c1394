//! JSON text: how strings are written, and the tree that a parsed document is
//! read as.

use vstd::prelude::*;
use vstd::string::*;
use crate::text::{decimal, digit_char, is_digit, lemma_decimal_digits, lemma_same_start};

verus! {

/// The lower-case hexadecimal digit for `d`.
pub open spec fn hex_char(d: nat) -> char {
    if d < 10 {
        digit_char(d)
    } else if d == 10 {
        'a'
    } else if d == 11 {
        'b'
    } else if d == 12 {
        'c'
    } else if d == 13 {
        'd'
    } else if d == 14 {
        'e'
    } else {
        'f'
    }
}

/// How one character stands inside a JSON string: the quote and the
/// backslash behind a backslash, the five control characters that have a
/// short form in that form, every other character below U+0020 as `\u00XX`,
/// anything else as itself.
pub open spec fn escape_char(c: char) -> Seq<char> {
    if c == '"' {
        seq!['\\', '"']
    } else if c == '\\' {
        seq!['\\', '\\']
    } else if c == '\u{8}' {
        seq!['\\', 'b']
    } else if c == '\t' {
        seq!['\\', 't']
    } else if c == '\n' {
        seq!['\\', 'n']
    } else if c == '\u{c}' {
        seq!['\\', 'f']
    } else if c == '\r' {
        seq!['\\', 'r']
    } else if (c as u32) < 0x20 {
        seq![
            '\\',
            'u',
            '0',
            '0',
            hex_char((c as u32 / 16) as nat),
            hex_char((c as u32 % 16) as nat),
        ]
    } else {
        seq![c]
    }
}

/// The characters of `s`, each escaped, in order.
pub open spec fn escape(s: Seq<char>) -> Seq<char>
    decreases s.len(),
{
    if s.len() == 0 {
        Seq::empty()
    } else {
        escape(s.drop_last()) + escape_char(s.last())
    }
}

/// The JSON string literal for `s`.
pub open spec fn quote(s: Seq<char>) -> Seq<char> {
    seq!['"'] + escape(s) + seq!['"']
}

/// Whether `s` holds no control character below U+0020, so no NUL either.
pub open spec fn is_plain(s: Seq<char>) -> bool {
    forall|i: int| 0 <= i < s.len() ==> (#[trigger] s[i]) as u32 >= 0x20
}

/// A decimal numeral holds no control character.
pub proof fn lemma_decimal_is_plain(n: nat)
    ensures
        is_plain(decimal(n)),
{
    lemma_decimal_digits(n);
    assert forall|i: int| 0 <= i < decimal(n).len() implies (#[trigger] decimal(n)[i]) as u32
        >= 0x20 by {
        assert(is_digit(decimal(n)[i]));
    }
}

/// An escaped text holds no control character, whatever the text holds.
pub proof fn lemma_escape_is_plain(s: Seq<char>)
    ensures
        is_plain(escape(s)),
    decreases s.len(),
{
    if s.len() > 0 {
        lemma_escape_is_plain(s.drop_last());
        assert(is_plain(escape_char(s.last())));
    }
}

/// A JSON string literal holds no control character, whatever it stands for.
pub proof fn lemma_quote_is_plain(s: Seq<char>)
    ensures
        is_plain(quote(s)),
{
    lemma_escape_is_plain(s);
}

/// Escaping goes through a text piece by piece.
pub proof fn lemma_escape_concat(a: Seq<char>, b: Seq<char>)
    ensures
        escape(a + b) == escape(a) + escape(b),
    decreases b.len(),
{
    if b.len() == 0 {
        assert(a + b =~= a);
        assert(escape(a) + escape(b) =~= escape(a));
    } else {
        assert((a + b).drop_last() =~= a + b.drop_last());
        assert((a + b).last() == b.last());
        lemma_escape_concat(a, b.drop_last());
        assert(escape(a + b) =~= escape(a) + escape(b));
    }
}

/// The escaped form of a text begins with the escaped form of its first
/// character.
pub proof fn lemma_escape_first(s: Seq<char>)
    requires
        s.len() > 0,
    ensures
        escape(s) == escape_char(s[0]) + escape(s.drop_first()),
{
    let head = seq![s[0]];
    assert(s =~= head + s.drop_first());
    lemma_escape_concat(head, s.drop_first());
    assert(head.drop_last() =~= Seq::<char>::empty());
    assert(escape(head) =~= escape_char(s[0])) by {
        reveal_with_fuel(escape, 2);
    }
}

/// No escaped character begins with a quote, and none begins another: what
/// begins with the escaped form of a character is read in one way only.
pub proof fn lemma_escape_char_is_delimited(c1: char, x: Seq<char>, c2: char, y: Seq<char>)
    requires
        escape_char(c1) + x == escape_char(c2) + y,
    ensures
        c1 == c2,
        x == y,
{
    let e1 = escape_char(c1);
    let e2 = escape_char(c2);
    let left = e1 + x;
    let right = e2 + y;
    assert(left[0] == e1[0]);
    assert(right[0] == e2[0]);
    if e1[0] == '\\' {
        assert(e2[0] == '\\');
        assert(e1.len() >= 2 && e2.len() >= 2);
        assert(left[1] == e1[1]);
        assert(right[1] == e2[1]);
        if e1[1] == 'u' {
            assert(e1.len() == 6 && e2.len() == 6);
            assert(left[4] == e1[4] && left[5] == e1[5]);
            assert(right[4] == e2[4] && right[5] == e2[5]);
            let n1 = c1 as u32;
            let n2 = c2 as u32;
            assert(n1 < 0x20 && n2 < 0x20);
            assert(hex_char((n1 / 16) as nat) == hex_char((n2 / 16) as nat));
            assert(hex_char((n1 % 16) as nat) == hex_char((n2 % 16) as nat));
            assert(n1 / 16 == n2 / 16);
            assert(n1 % 16 == n2 % 16);
            assert(n1 == n2);
        }
    }
    assert(c1 == c2);
    lemma_same_start(e1, x, y);
}

/// An escaped text that is followed by a quote is read in one way only.
pub proof fn lemma_escape_is_delimited(s1: Seq<char>, r1: Seq<char>, s2: Seq<char>, r2: Seq<char>)
    requires
        escape(s1) + (seq!['"'] + r1) == escape(s2) + (seq!['"'] + r2),
    ensures
        s1 == s2,
        r1 == r2,
    decreases s1.len(),
{
    let t1 = seq!['"'] + r1;
    let t2 = seq!['"'] + r2;
    if s1.len() == 0 && s2.len() == 0 {
        assert(escape(s1) + t1 =~= t1);
        assert(escape(s2) + t2 =~= t2);
        lemma_same_start(seq!['"'], r1, r2);
        assert(s1 =~= s2);
    } else if s1.len() == 0 {
        lemma_escape_first(s2);
        assert(escape(s1) + t1 =~= t1);
        assert((escape(s2) + t2)[0] == escape_char(s2[0])[0]);
        assert(t1[0] == '"');
        assert(false);
    } else if s2.len() == 0 {
        lemma_escape_first(s1);
        assert(escape(s2) + t2 =~= t2);
        assert((escape(s1) + t1)[0] == escape_char(s1[0])[0]);
        assert(t2[0] == '"');
        assert(false);
    } else {
        lemma_escape_first(s1);
        lemma_escape_first(s2);
        let x = escape(s1.drop_first()) + t1;
        let y = escape(s2.drop_first()) + t2;
        assert(escape(s1) + t1 =~= escape_char(s1[0]) + x);
        assert(escape(s2) + t2 =~= escape_char(s2[0]) + y);
        lemma_escape_char_is_delimited(s1[0], x, s2[0], y);
        lemma_escape_is_delimited(s1.drop_first(), r1, s2.drop_first(), r2);
        assert(s1 =~= seq![s1[0]] + s1.drop_first());
        assert(s2 =~= seq![s2[0]] + s2.drop_first());
    }
}

/// A JSON string literal is read in one way only, whatever follows it.
pub proof fn lemma_quote_is_delimited(s1: Seq<char>, r1: Seq<char>, s2: Seq<char>, r2: Seq<char>)
    requires
        quote(s1) + r1 == quote(s2) + r2,
    ensures
        s1 == s2,
        r1 == r2,
{
    let open = seq!['"'];
    let x = escape(s1) + (seq!['"'] + r1);
    let y = escape(s2) + (seq!['"'] + r2);
    assert(quote(s1) + r1 =~= open + x);
    assert(quote(s2) + r2 =~= open + y);
    lemma_same_start(open, x, y);
    lemma_escape_is_delimited(s1, r1, s2, r2);
}

/// The lower-case hexadecimal digit for `d`.
fn hex_of(d: u32) -> (c: char)
    requires
        d < 16,
    ensures
        c == hex_char(d as nat),
{
    if d == 0 {
        '0'
    } else if d == 1 {
        '1'
    } else if d == 2 {
        '2'
    } else if d == 3 {
        '3'
    } else if d == 4 {
        '4'
    } else if d == 5 {
        '5'
    } else if d == 6 {
        '6'
    } else if d == 7 {
        '7'
    } else if d == 8 {
        '8'
    } else if d == 9 {
        '9'
    } else if d == 10 {
        'a'
    } else if d == 11 {
        'b'
    } else if d == 12 {
        'c'
    } else if d == 13 {
        'd'
    } else if d == 14 {
        'e'
    } else {
        'f'
    }
}

/// Appends the escaped form of `c` to `out`.
fn push_escaped_char(out: &mut String, c: char)
    ensures
        final(out)@ == old(out)@ + escape_char(c),
{
    if c == '"' {
        out.push('\\');
        out.push('"');
    } else if c == '\\' {
        out.push('\\');
        out.push('\\');
    } else if c == '\u{8}' {
        out.push('\\');
        out.push('b');
    } else if c == '\t' {
        out.push('\\');
        out.push('t');
    } else if c == '\n' {
        out.push('\\');
        out.push('n');
    } else if c == '\u{c}' {
        out.push('\\');
        out.push('f');
    } else if c == '\r' {
        out.push('\\');
        out.push('r');
    } else if (c as u32) < 0x20 {
        let code: u32 = c as u32;
        out.push('\\');
        out.push('u');
        out.push('0');
        out.push('0');
        out.push(hex_of(code / 16));
        out.push(hex_of(code % 16));
    } else {
        out.push(c);
    }
}

/// Appends the JSON string literal for `s` to `out`.
pub fn push_quoted(out: &mut String, s: &str)
    ensures
        final(out)@ == old(out)@ + quote(s@),
{
    let ghost start = out@;
    out.push('"');
    for c in it: s.chars()
        invariant
            it.seq() == s@,
            out@ == start + seq!['"'] + escape(it.seq().take(it.index() as int)),
    {
        proof {
            let done = it.seq().take(it.index() as int);
            let next = it.seq().take(it.index() + 1);
            assert(next.drop_last() == done);
            assert(next.last() == c);
        }
        push_escaped_char(out, c);
    }
    assert(s@.take(s@.len() as int) == s@);
    out.push('"');
}

/// A parsed JSON document. A number is kept as the text that the parser
/// displays it as, which need not be the text it was written with; an object
/// keeps its members as a list, each name once.
#[derive(Debug)]
pub enum JsonValue {
    Null,
    Bool(bool),
    Number(String),
    Text(String),
    List(Vec<JsonValue>),
    Record(Vec<(String, JsonValue)>),
}

/// The mathematical tree that a `JsonValue` stands for.
pub enum JsonTree {
    Null,
    Bool(bool),
    Number(Seq<char>),
    Text(Seq<char>),
    List(Seq<JsonTree>),
    Record(Seq<(Seq<char>, JsonTree)>),
}

impl View for JsonValue {
    type V = JsonTree;

    open spec fn view(&self) -> JsonTree
        decreases self,
    {
        match self {
            JsonValue::Null => JsonTree::Null,
            JsonValue::Bool(b) => JsonTree::Bool(*b),
            JsonValue::Number(n) => JsonTree::Number(n@),
            JsonValue::Text(s) => JsonTree::Text(s@),
            JsonValue::List(items) => JsonTree::List(
                Seq::new(
                    items@.len(),
                    |i: int|
                        if 0 <= i < items@.len() {
                            items@[i]@
                        } else {
                            JsonTree::Null
                        },
                ),
            ),
            JsonValue::Record(members) => JsonTree::Record(
                Seq::new(
                    members@.len(),
                    |i: int|
                        if 0 <= i < members@.len() {
                            (members@[i].0@, members@[i].1@)
                        } else {
                            (Seq::empty(), JsonTree::Null)
                        },
                ),
            ),
        }
    }
}

#[verifier::external_type_specification]
#[verifier::external_body]
pub struct ExValue(serde_json::Value);

/// What reading `text` as one JSON document gives: the document, or the
/// parser's diagnostic.
pub uninterp spec fn json_reading(text: Seq<char>) -> Result<JsonTree, Seq<char>>;

/// The tree that a value of the parser holds.
pub uninterp spec fn tree_of(value: serde_json::Value) -> JsonTree;

/// `serde_json::from_str` at the type `serde_json::Value`: the parsed
/// document, or the text of the parser's error. The result depends on the
/// text alone.
#[verifier::external_body]
fn read_value(text: &str) -> (r: Result<serde_json::Value, String>)
    ensures
        match r {
            Ok(value) => json_reading(text@) == Ok::<JsonTree, Seq<char>>(tree_of(value)),
            Err(diagnostic) => json_reading(text@) == Err::<JsonTree, Seq<char>>(diagnostic@),
        },
{
    serde_json::from_str::<serde_json::Value>(text).map_err(|e| e.to_string())
}

/// Moves a `serde_json::Value` into a `JsonValue`, variant by variant: a
/// number as the text it displays as, the members of an object in the order
/// in which its map hands them out.
#[verifier::external_body]
fn lift(value: serde_json::Value) -> (r: JsonValue)
    ensures
        r@ == tree_of(value),
{
    match value {
        serde_json::Value::Null => JsonValue::Null,
        serde_json::Value::Bool(b) => JsonValue::Bool(b),
        serde_json::Value::Number(n) => JsonValue::Number(n.to_string()),
        serde_json::Value::String(s) => JsonValue::Text(s),
        serde_json::Value::Array(items) => JsonValue::List(items.into_iter().map(lift).collect()),
        serde_json::Value::Object(members) => JsonValue::Record(
            members.into_iter().map(|(name, member)| (name, lift(member))).collect(),
        ),
    }
}

/// Reads `text` as one JSON document.
pub fn parse(text: &str) -> (r: Result<JsonValue, String>)
    ensures
        match r {
            Ok(document) => json_reading(text@) == Ok::<JsonTree, Seq<char>>(document@),
            Err(diagnostic) => json_reading(text@) == Err::<JsonTree, Seq<char>>(diagnostic@),
        },
{
    match read_value(text) {
        Ok(value) => Ok(lift(value)),
        Err(diagnostic) => Err(diagnostic),
    }
}

} // verus!
