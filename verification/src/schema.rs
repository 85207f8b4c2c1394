//! Reading a request description out of a parsed JSON document.

use vstd::prelude::*;
use vstd::string::*;
use crate::json::{JsonTree, JsonValue};
use crate::model::{Body, BodyView, Header, HeaderView, Request, RequestView, header_views};
use crate::text::same_text;
use crate::default_true;

verus! {

/// The members that the request schema names.
#[derive(Clone, Copy, Debug, PartialEq, Eq, Structural)]
pub enum Field {
    Method,
    Url,
    Headers,
    Key,
    Value,
    Enabled,
    Body,
    ContentType,
    Content,
}

/// Why a JSON document is not a request description.
#[derive(Clone, Copy, Debug, PartialEq, Eq, Structural)]
pub enum SchemaError {
    /// The document is not an object.
    NotAnObject,
    /// A member that has no default is not there.
    Missing(Field),
    /// A member holds a value of another type than the schema gives it.
    Invalid(Field),
}

impl Field {
    /// The member's name on the wire.
    pub open spec fn name(self) -> Seq<char> {
        match self {
            Field::Method => "method"@,
            Field::Url => "url"@,
            Field::Headers => "headers"@,
            Field::Key => "key"@,
            Field::Value => "value"@,
            Field::Enabled => "enabled"@,
            Field::Body => "body"@,
            Field::ContentType => "contentType"@,
            Field::Content => "content"@,
        }
    }

    /// The member's name on the wire.
    pub fn as_str(self) -> (name: &'static str)
        ensures
            name@ == self.name(),
    {
        match self {
            Field::Method => "method",
            Field::Url => "url",
            Field::Headers => "headers",
            Field::Key => "key",
            Field::Value => "value",
            Field::Enabled => "enabled",
            Field::Body => "body",
            Field::ContentType => "contentType",
            Field::Content => "content",
        }
    }
}

impl SchemaError {
    /// The diagnostic that is reported for this error.
    pub open spec fn message(self) -> Seq<char> {
        match self {
            SchemaError::NotAnObject => "expected a JSON object"@,
            SchemaError::Missing(field) => "missing field `"@ + field.name() + "`"@,
            SchemaError::Invalid(field) => "invalid type for field `"@ + field.name() + "`"@,
        }
    }

    /// The diagnostic that is reported for this error.
    pub fn describe(self) -> (text: String)
        ensures
            text@ == self.message(),
    {
        match self {
            SchemaError::NotAnObject => String::from_str("expected a JSON object"),
            SchemaError::Missing(field) => {
                let mut text = String::from_str("missing field `");
                text.append(field.as_str());
                text.append("`");
                text
            },
            SchemaError::Invalid(field) => {
                let mut text = String::from_str("invalid type for field `");
                text.append(field.as_str());
                text.append("`");
                text
            },
        }
    }
}

/// The value of the first member called `name`, if there is one.
pub open spec fn member(members: Seq<(Seq<char>, JsonTree)>, name: Seq<char>) -> Option<JsonTree>
    decreases members.len(),
{
    if members.len() == 0 {
        None
    } else if members[0].0 == name {
        Some(members[0].1)
    } else {
        member(members.drop_first(), name)
    }
}

/// A member that holds text: its text; `default` where it is left out.
pub open spec fn text_member(
    members: Seq<(Seq<char>, JsonTree)>,
    field: Field,
    default: Option<Seq<char>>,
) -> Result<Seq<char>, SchemaError> {
    match member(members, field.name()) {
        None => match default {
            Some(text) => Ok(text),
            None => Err(SchemaError::Missing(field)),
        },
        Some(JsonTree::Text(text)) => Ok(text),
        Some(_) => Err(SchemaError::Invalid(field)),
    }
}

/// A member that holds a truth value: that value; `default` where it is left
/// out.
pub open spec fn flag_member(
    members: Seq<(Seq<char>, JsonTree)>,
    field: Field,
    default: bool,
) -> Result<bool, SchemaError> {
    match member(members, field.name()) {
        None => Ok(default),
        Some(JsonTree::Bool(flag)) => Ok(flag),
        Some(_) => Err(SchemaError::Invalid(field)),
    }
}

/// One element of `headers`: an object with the texts `key` and `value`, and
/// `enabled`, which is true where it is left out.
pub open spec fn header_of(tree: JsonTree) -> Result<HeaderView, SchemaError> {
    match tree {
        JsonTree::Record(members) => match text_member(members, Field::Key, None) {
            Err(e) => Err(e),
            Ok(key) => match text_member(members, Field::Value, None) {
                Err(e) => Err(e),
                Ok(value) => match flag_member(members, Field::Enabled, true) {
                    Err(e) => Err(e),
                    Ok(enabled) => Ok(HeaderView { key, value, enabled }),
                },
            },
        },
        _ => Err(SchemaError::Invalid(Field::Headers)),
    }
}

/// The elements of `headers` in order, or the error of the first element
/// that is no header.
pub open spec fn headers_of(items: Seq<JsonTree>) -> Result<Seq<HeaderView>, SchemaError>
    decreases items.len(),
{
    if items.len() == 0 {
        Ok(Seq::empty())
    } else {
        match headers_of(items.drop_last()) {
            Err(e) => Err(e),
            Ok(front) => match header_of(items.last()) {
                Err(e) => Err(e),
                Ok(header) => Ok(front.push(header)),
            },
        }
    }
}

/// The member `headers`: a list of headers; no headers where it is left out.
pub open spec fn headers_member(members: Seq<(Seq<char>, JsonTree)>) -> Result<
    Seq<HeaderView>,
    SchemaError,
> {
    match member(members, Field::Headers.name()) {
        None => Ok(Seq::empty()),
        Some(JsonTree::List(items)) => headers_of(items),
        Some(_) => Err(SchemaError::Invalid(Field::Headers)),
    }
}

/// The member `body`: an object whose texts `contentType` and `content` are
/// empty where they are left out; no body where the member is left out or
/// null.
pub open spec fn body_member(members: Seq<(Seq<char>, JsonTree)>) -> Result<
    Option<BodyView>,
    SchemaError,
> {
    match member(members, Field::Body.name()) {
        None => Ok(None),
        Some(JsonTree::Null) => Ok(None),
        Some(JsonTree::Record(inner)) => match text_member(
            inner,
            Field::ContentType,
            Some(Seq::empty()),
        ) {
            Err(e) => Err(e),
            Ok(content_type) => match text_member(inner, Field::Content, Some(Seq::empty())) {
                Err(e) => Err(e),
                Ok(content) => Ok(Some(BodyView { content_type, content })),
            },
        },
        Some(_) => Err(SchemaError::Invalid(Field::Body)),
    }
}

/// The request that a JSON document describes. The members are read in the
/// order `method`, `url`, `headers`, `body`, and the first that does not fit
/// gives the error. A `method` that is left out is read as the empty text.
/// Members that the schema does not name are passed over.
pub open spec fn request_of(tree: JsonTree) -> Result<RequestView, SchemaError> {
    match tree {
        JsonTree::Record(members) => match text_member(members, Field::Method, Some(Seq::empty())) {
            Err(e) => Err(e),
            Ok(method) => match text_member(members, Field::Url, None) {
                Err(e) => Err(e),
                Ok(url) => match headers_member(members) {
                    Err(e) => Err(e),
                    Ok(headers) => match body_member(members) {
                        Err(e) => Err(e),
                        Ok(body) => Ok(RequestView { method, url, headers, body }),
                    },
                },
            },
        },
        _ => Err(SchemaError::NotAnObject),
    }
}

/// The members of an object as the view of the object holds them.
pub open spec fn member_views(members: Seq<(String, JsonValue)>) -> Seq<(Seq<char>, JsonTree)> {
    Seq::new(members.len(), |i: int| (members[i].0@, members[i].1@))
}

/// The elements of a list as the view of the list holds them.
pub open spec fn item_views(items: Seq<JsonValue>) -> Seq<JsonTree> {
    Seq::new(items.len(), |i: int| items[i]@)
}

/// The view of an object holds the views of its members, and the view of a
/// list the views of its elements.
proof fn lemma_record_view(value: JsonValue)
    ensures
        value matches JsonValue::Record(members) ==> value@ == JsonTree::Record(
            member_views(members@),
        ),
        value matches JsonValue::List(items) ==> value@ == JsonTree::List(item_views(items@)),
{
    reveal_with_fuel(<JsonValue as View>::view, 2);
    match value {
        JsonValue::Record(members) => {
            assert(value@->Record_0 =~= member_views(members@));
        },
        JsonValue::List(items) => {
            assert(value@->List_0 =~= item_views(items@));
        },
        _ => {},
    }
}

/// The value of the first member called `name`.
fn find<'a>(members: &'a Vec<(String, JsonValue)>, name: &str) -> (found: Option<&'a JsonValue>)
    ensures
        match found {
            Some(value) => member(member_views(members@), name@) == Some(value@),
            None => member(member_views(members@), name@) is None,
        },
{
    let ghost all = member_views(members@);
    let mut i: usize = 0;
    assert(all.skip(0) =~= all);
    while i < members.len()
        invariant
            i <= members.len(),
            all == member_views(members@),
            member(all, name@) == member(all.skip(i as int), name@),
        decreases members.len() - i,
    {
        proof {
            let rest = all.skip(i as int);
            assert(rest[0] == all[i as int]);
            assert(rest.drop_first() =~= all.skip(i + 1));
        }
        if same_text(members[i].0.as_str(), name) {
            return Some(&members[i].1);
        }
        i = i + 1;
    }
    assert(all.skip(i as int).len() == 0);
    None
}

/// The view of a text that may be absent.
pub open spec fn text_view(text: Option<String>) -> Option<Seq<char>> {
    match text {
        Some(text) => Some(text@),
        None => None,
    }
}

/// The text of a member, or `default` where the member is left out.
fn read_text(
    members: &Vec<(String, JsonValue)>,
    field: Field,
    default: Option<String>,
) -> (r: Result<String, SchemaError>)
    ensures
        match r {
            Ok(text) => text_member(member_views(members@), field, text_view(default))
                == Ok::<Seq<char>, SchemaError>(text@),
            Err(e) => text_member(member_views(members@), field, text_view(default))
                == Err::<Seq<char>, SchemaError>(e),
        },
{
    match find(members, field.as_str()) {
        None => match default {
            Some(text) => Ok(text),
            None => Err(SchemaError::Missing(field)),
        },
        Some(value) => match value {
            JsonValue::Text(text) => Ok(text.clone()),
            _ => Err(SchemaError::Invalid(field)),
        },
    }
}

/// The truth value of a member, or `default` where the member is left out.
fn read_flag(members: &Vec<(String, JsonValue)>, field: Field, default: bool) -> (r: Result<
    bool,
    SchemaError,
>)
    ensures
        r == flag_member(member_views(members@), field, default),
{
    match find(members, field.as_str()) {
        None => Ok(default),
        Some(value) => match value {
            JsonValue::Bool(flag) => Ok(*flag),
            _ => Err(SchemaError::Invalid(field)),
        },
    }
}

/// The header that one element of `headers` describes.
fn read_header(value: &JsonValue) -> (r: Result<Header, SchemaError>)
    ensures
        match r {
            Ok(header) => header_of(value@) == Ok::<HeaderView, SchemaError>(header@),
            Err(e) => header_of(value@) == Err::<HeaderView, SchemaError>(e),
        },
{
    proof {
        lemma_record_view(*value);
    }
    match value {
        JsonValue::Record(members) => {
            let key = match read_text(members, Field::Key, None) {
                Ok(key) => key,
                Err(e) => {
                    return Err(e);
                },
            };
            let value = match read_text(members, Field::Value, None) {
                Ok(value) => value,
                Err(e) => {
                    return Err(e);
                },
            };
            let enabled = match read_flag(members, Field::Enabled, default_true()) {
                Ok(enabled) => enabled,
                Err(e) => {
                    return Err(e);
                },
            };
            Ok(Header { key, value, enabled })
        },
        _ => Err(SchemaError::Invalid(Field::Headers)),
    }
}

/// Once an element is no header, no longer list is a list of headers.
proof fn lemma_headers_error_stays(items: Seq<JsonTree>, n: int, e: SchemaError)
    requires
        0 <= n <= items.len(),
        headers_of(items.take(n)) == Err::<Seq<HeaderView>, SchemaError>(e),
    ensures
        headers_of(items) == Err::<Seq<HeaderView>, SchemaError>(e),
    decreases items.len() - n,
{
    if n < items.len() {
        let longer = items.take(n + 1);
        assert(longer.drop_last() =~= items.take(n));
        lemma_headers_error_stays(items, n + 1, e);
    } else {
        assert(items.take(n) =~= items);
    }
}

/// The headers that the elements of `headers` describe.
fn read_headers(items: &Vec<JsonValue>) -> (r: Result<Vec<Header>, SchemaError>)
    ensures
        match r {
            Ok(headers) => headers_of(item_views(items@)) == Ok::<Seq<HeaderView>, SchemaError>(
                header_views(headers@),
            ),
            Err(e) => headers_of(item_views(items@)) == Err::<Seq<HeaderView>, SchemaError>(e),
        },
{
    let ghost all = item_views(items@);
    let mut headers: Vec<Header> = Vec::new();
    let mut i: usize = 0;
    assert(header_views(headers@) =~= Seq::empty());
    while i < items.len()
        invariant
            i <= items.len(),
            all == item_views(items@),
            headers_of(all.take(i as int)) == Ok::<Seq<HeaderView>, SchemaError>(
                header_views(headers@),
            ),
        decreases items.len() - i,
    {
        let ghost longer = all.take(i + 1);
        assert(longer.drop_last() =~= all.take(i as int));
        assert(longer.last() == items[i as int]@);
        match read_header(&items[i]) {
            Ok(header) => {
                let ghost before = header_views(headers@);
                headers.push(header);
                assert(header_views(headers@) =~= before.push(header@));
            },
            Err(e) => {
                proof {
                    lemma_headers_error_stays(all, i + 1, e);
                }
                return Err(e);
            },
        }
        i = i + 1;
    }
    assert(all.take(i as int) =~= all);
    Ok(headers)
}

/// Reads a request description out of a parsed JSON document.
pub fn read_request(document: &JsonValue) -> (r: Result<Request, SchemaError>)
    ensures
        match r {
            Ok(request) => request_of(document@) == Ok::<RequestView, SchemaError>(request@),
            Err(e) => request_of(document@) == Err::<RequestView, SchemaError>(e),
        },
{
    proof {
        lemma_record_view(*document);
    }
    let members = match document {
        JsonValue::Record(members) => members,
        _ => {
            return Err(SchemaError::NotAnObject);
        },
    };
    let method = match read_text(members, Field::Method, Some(String::new())) {
        Ok(method) => method,
        Err(e) => {
            return Err(e);
        },
    };
    let url = match read_text(members, Field::Url, None) {
        Ok(url) => url,
        Err(e) => {
            return Err(e);
        },
    };
    let headers = match find(members, Field::Headers.as_str()) {
        None => {
            let none: Vec<Header> = Vec::new();
            assert(header_views(none@) =~= Seq::empty());
            none
        },
        Some(value) => {
            proof {
                lemma_record_view(*value);
            }
            match value {
                JsonValue::List(items) => match read_headers(items) {
                    Ok(headers) => headers,
                    Err(e) => {
                        return Err(e);
                    },
                },
                _ => {
                    return Err(SchemaError::Invalid(Field::Headers));
                },
            }
        },
    };
    let body = match find(members, Field::Body.as_str()) {
        None => None,
        Some(value) => {
            proof {
                lemma_record_view(*value);
            }
            match value {
                JsonValue::Null => None,
                JsonValue::Record(inner) => {
                    let content_type = match read_text(
                        inner,
                        Field::ContentType,
                        Some(String::new()),
                    ) {
                        Ok(content_type) => content_type,
                        Err(e) => {
                            return Err(e);
                        },
                    };
                    let content = match read_text(inner, Field::Content, Some(String::new())) {
                        Ok(content) => content,
                        Err(e) => {
                            return Err(e);
                        },
                    };
                    Some(Body { content_type, content })
                },
                _ => {
                    return Err(SchemaError::Invalid(Field::Body));
                },
            }
        },
    };
    Ok(Request { method, url, headers, body })
}

} // verus!
