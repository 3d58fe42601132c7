//! Naming and shaping the steps that are generated from the operations of
//! an API description.

use crate::config::{Expectation, StatusExpectation};
use crate::import::{path_name, sanitize_path};
use crate::json::{Json, JsonModel, JsonNumber, NumberModel};
use crate::text::{chars_of, lowercase_of, push_str_chars, text_of};
use vstd::prelude::*;

verus! {

/// The key of a response in an API description: a status code, or a range
/// of codes by its first digit (`2` for `2XX`).
#[derive(Debug, Clone, Copy, PartialEq, Eq, Structural)]
pub enum ResponseKey {
    Code(u16),
    Range(u16),
}

/// The kinds of value that a schema describes.
#[derive(Debug, Clone, Copy, PartialEq, Eq, Structural)]
pub enum SchemaKind {
    String,
    Number,
    Integer,
    Boolean,
    Array,
    Object,
}

/// The status that the first success among the responses gives: the first
/// key that is a code from 200 to 299, or the range of those codes, which
/// stands for 200; 200 where there is none.
pub open spec fn success_status(keys: Seq<ResponseKey>) -> u16
    decreases keys.len(),
{
    if keys.len() == 0 {
        200
    } else {
        match keys[0] {
            ResponseKey::Code(code) => if 200 <= code && code < 300 {
                code
            } else {
                success_status(keys.drop_first())
            },
            ResponseKey::Range(range) => if range == 2 {
                200
            } else {
                success_status(keys.drop_first())
            },
        }
    }
}

/// The name of an operation that has none: the method in lower case, `_`,
/// and the name that the path gives.
pub open spec fn operation_name(method: Seq<char>, path: Seq<char>) -> Seq<char> {
    lowercase_of(method) + seq!['_'] + path_name(path)
}

/// The summary of an operation that has none: the method and the path.
pub open spec fn operation_summary(method: Seq<char>, path: Seq<char>) -> Seq<char> {
    method + seq![' '] + path
}

/// The URL of an operation: the base and the path, with a `/` between them
/// unless the path starts with one.
pub open spec fn operation_url(base: Seq<char>, path: Seq<char>) -> Seq<char> {
    if path.len() > 0 && path[0] == '/' {
        base + path
    } else {
        base + seq!['/'] + path
    }
}

/// The example value for a schema of the kind `kind`.
pub open spec fn example_value(kind: SchemaKind) -> JsonModel {
    match kind {
        SchemaKind::String => JsonModel::Text("example"@),
        SchemaKind::Number => JsonModel::Number(NumberModel::PosInt(42)),
        SchemaKind::Integer => JsonModel::Number(NumberModel::PosInt(42)),
        SchemaKind::Boolean => JsonModel::Bool(true),
        SchemaKind::Array => JsonModel::Array(seq![JsonModel::Text("example"@)]),
        SchemaKind::Object => JsonModel::Object(Seq::empty()),
    }
}

/// Whether an operation with `method` carries a body.
pub open spec fn carries_body(method: Seq<char>) -> bool {
    method == "POST"@ || method == "PUT"@ || method == "PATCH"@
}

/// The expectation for an operation with the responses `keys`, in their
/// order: a status and nothing else.
pub fn generate_expectation_from_responses(keys: &Vec<ResponseKey>) -> (r: Option<Expectation>)
    ensures
        r is Some,
        r->0.status == Some(StatusExpectation::Number(success_status(keys@))),
        r->0.schema is None,
        r->0.jsonpath is None,
        r->0.headers is None,
{
    let mut i: usize = 0;
    proof {
        assert(keys@.skip(0) =~= keys@);
    }
    while i < keys.len()
        invariant
            i <= keys.len(),
            success_status(keys@.skip(i as int)) == success_status(keys@),
        decreases keys.len() - i,
    {
        proof {
            assert(keys@.skip(i as int)[0] == keys@[i as int]);
            assert(keys@.skip(i as int).drop_first() =~= keys@.skip(i + 1));
        }
        let found: Option<u16> = match keys[i] {
            ResponseKey::Code(code) => if 200 <= code && code < 300 {
                Some(code)
            } else {
                None
            },
            ResponseKey::Range(range) => if range == 2 {
                Some(200)
            } else {
                None
            },
        };
        match found {
            Some(code) => {
                return Some(status_only(code));
            },
            None => {},
        }
        i += 1;
    }
    Some(status_only(200))
}

/// The expectation of the status `code` and nothing else.
pub fn status_only(code: u16) -> (r: Expectation)
    ensures
        r.status == Some(StatusExpectation::Number(code)),
        r.schema is None,
        r.jsonpath is None,
        r.headers is None,
{
    Expectation {
        status: Some(StatusExpectation::Number(code)),
        schema: None,
        jsonpath: None,
        headers: None,
    }
}

/// The name of the operation with `method` at `path`, which has none of
/// its own.
pub fn default_operation_id(method: &str, path: &str) -> (r: String)
    ensures
        r@ == operation_name(method@, path@),
{
    let mut out: Vec<char> = Vec::new();
    let lower = method.to_lowercase();
    push_str_chars(&mut out, lower.as_str());
    out.push('_');
    let name = sanitize_path(path);
    push_str_chars(&mut out, name.as_str());
    proof {
        assert(out@ =~= operation_name(method@, path@));
    }
    text_of(&out)
}

/// The summary of the operation with `method` at `path`, which has none of
/// its own.
pub fn default_summary(method: &str, path: &str) -> (r: String)
    ensures
        r@ == operation_summary(method@, path@),
{
    let mut out: Vec<char> = Vec::new();
    push_str_chars(&mut out, method);
    out.push(' ');
    push_str_chars(&mut out, path);
    proof {
        assert(out@ =~= operation_summary(method@, path@));
    }
    text_of(&out)
}

/// The URL of the operation at `path` under `base_url`.
pub fn full_url(base_url: &str, path: &str) -> (r: String)
    ensures
        r@ == operation_url(base_url@, path@),
{
    let tail = chars_of(path);
    let mut out: Vec<char> = Vec::new();
    push_str_chars(&mut out, base_url);
    if !(tail.len() > 0 && tail[0] == '/') {
        out.push('/');
    }
    crate::text::push_chars(&mut out, &tail);
    proof {
        assert(out@ =~= operation_url(base_url@, path@));
    }
    text_of(&out)
}

/// Whether an operation with `method` carries a body: `POST`, `PUT` and
/// `PATCH` do.
pub fn has_request_body(method: &str) -> (r: bool)
    ensures
        r == carries_body(method@),
{
    crate::text::same_text(method, "POST") || crate::text::same_text(method, "PUT")
        || crate::text::same_text(method, "PATCH")
}

/// The example value for a schema of the kind `kind`.
pub fn generate_simple_example_value(kind: SchemaKind) -> (r: Json)
    ensures
        r@ == example_value(kind),
{
    match kind {
        SchemaKind::String => Json::Text("example".to_string()),
        SchemaKind::Number => Json::Number(JsonNumber::PosInt(42)),
        SchemaKind::Integer => Json::Number(JsonNumber::PosInt(42)),
        SchemaKind::Boolean => Json::Bool(true),
        SchemaKind::Array => {
            let mut items: Vec<Json> = Vec::new();
            items.push(Json::Text("example".to_string()));
            let ghost first = items@[0];
            let r = Json::Array(items);
            proof {
                assert(first@ == JsonModel::Text("example"@));
                assert(r@->Array_0.len() == 1);
                assert(r@->Array_0[0] == first@);
                assert(r@->Array_0 =~= seq![JsonModel::Text("example"@)]);
            }
            r
        },
        SchemaKind::Object => {
            let r = Json::Object(Vec::new());
            proof {
                assert(r@->Object_0 =~= Seq::<(Seq<char>, JsonModel)>::empty());
            }
            r
        },
    }
}

} // verus!
