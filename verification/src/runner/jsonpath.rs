//! Paths into a JSON value.
//!
//! A path is a list of parts separated by `.`, after an optional leading
//! `$.`. A part names a member (`name`), or a member and an element of it
//! (`name[2]`), or an element alone (`[2]`); an empty part is passed over.
//! A path that starts with `$[` first takes an element of the root: `$[0]`,
//! `$[0].name`.

use crate::decimal::{decimal_text, parse_unsigned, unsigned_of};
use crate::json::{element, json_debug, member, Json, JsonModel};
use crate::text::{find_char, index_of, lemma_index_of, push_str_chars, text_of, text_of_range};
use vstd::prelude::*;

verus! {

/// Why a response does not meet an expectation.
#[derive(Debug)]
pub enum ValidationError {
    /// The expected status is no status code.
    InvalidStatusCode(String),
    /// The status is not the expected one.
    StatusMismatch { expected: u16, actual: u16 },
    /// The text between `[` and `]` is no index.
    InvalidArrayIndex(String),
    /// The value is no array, or the array is too short.
    IndexNotFound(usize),
    /// The value is no object, or the object has no such member.
    FieldNotFound(String),
    /// The value at the path is not the expected one.
    Mismatch { path: String, wanted: Json, found: Json },
}

/// What a `ValidationError` holds.
pub enum ErrorModel {
    InvalidStatusCode(Seq<char>),
    StatusMismatch { expected: u16, actual: u16 },
    InvalidArrayIndex(Seq<char>),
    IndexNotFound(nat),
    FieldNotFound(Seq<char>),
    Mismatch { path: Seq<char>, wanted: JsonModel, found: JsonModel },
}

impl View for ValidationError {
    type V = ErrorModel;

    open spec fn view(&self) -> ErrorModel {
        match self {
            ValidationError::InvalidStatusCode(s) => ErrorModel::InvalidStatusCode(s@),
            ValidationError::StatusMismatch { expected, actual } => ErrorModel::StatusMismatch {
                expected: *expected,
                actual: *actual,
            },
            ValidationError::InvalidArrayIndex(s) => ErrorModel::InvalidArrayIndex(s@),
            ValidationError::IndexNotFound(i) => ErrorModel::IndexNotFound(*i as nat),
            ValidationError::FieldNotFound(s) => ErrorModel::FieldNotFound(s@),
            ValidationError::Mismatch { path, wanted, found } => ErrorModel::Mismatch {
                path: path@,
                wanted: wanted@,
                found: found@,
            },
        }
    }
}

impl ErrorModel {
    /// The message of the error.
    pub open spec fn message(self) -> Seq<char> {
        match self {
            ErrorModel::InvalidStatusCode(s) => "Invalid status code: "@ + s,
            ErrorModel::StatusMismatch { expected, actual } => "Expected status "@ + decimal_text(
                expected as nat,
            ) + " but got "@ + decimal_text(actual as nat),
            ErrorModel::InvalidArrayIndex(s) => "Invalid array index: "@ + s,
            ErrorModel::IndexNotFound(i) => "Array index "@ + decimal_text(i) + " not found"@,
            ErrorModel::FieldNotFound(s) => "Field '"@ + s + "' not found in JSON"@,
            ErrorModel::Mismatch { path, wanted, found } => "JSONPath assertion failed for '"@
                + path + "': expected "@ + json_debug(wanted) + " but got "@ + json_debug(found),
        }
    }
}

impl ValidationError {
    /// The message of the error.
    pub fn message(&self) -> (r: String)
        ensures
            r@ == self@.message(),
    {
        let mut out: Vec<char> = Vec::new();
        match self {
            ValidationError::InvalidStatusCode(s) => {
                push_str_chars(&mut out, "Invalid status code: ");
                push_str_chars(&mut out, s.as_str());
            },
            ValidationError::StatusMismatch { expected, actual } => {
                push_str_chars(&mut out, "Expected status ");
                crate::decimal::push_decimal(&mut out, *expected as u128);
                push_str_chars(&mut out, " but got ");
                crate::decimal::push_decimal(&mut out, *actual as u128);
            },
            ValidationError::InvalidArrayIndex(s) => {
                push_str_chars(&mut out, "Invalid array index: ");
                push_str_chars(&mut out, s.as_str());
            },
            ValidationError::IndexNotFound(i) => {
                push_str_chars(&mut out, "Array index ");
                crate::decimal::push_decimal(&mut out, *i as u128);
                push_str_chars(&mut out, " not found");
            },
            ValidationError::FieldNotFound(s) => {
                push_str_chars(&mut out, "Field '");
                push_str_chars(&mut out, s.as_str());
                push_str_chars(&mut out, "' not found in JSON");
            },
            ValidationError::Mismatch { path, wanted, found } => {
                push_str_chars(&mut out, "JSONPath assertion failed for '");
                push_str_chars(&mut out, path.as_str());
                push_str_chars(&mut out, "': expected ");
                let shown = wanted.debug_string();
                push_str_chars(&mut out, shown.as_str());
                push_str_chars(&mut out, " but got ");
                let got = found.debug_string();
                push_str_chars(&mut out, got.as_str());
            },
        }
        proof {
            assert(out@ =~= self@.message());
        }
        text_of(&out)
    }
}

/// Reads the text of an index.
pub open spec fn index_value(text: Seq<char>) -> Result<nat, ErrorModel> {
    match unsigned_of(text, usize::MAX as nat) {
        Some(index) => Ok(index),
        None => Err(ErrorModel::InvalidArrayIndex(text)),
    }
}

/// The member named `name` of `value`.
pub open spec fn take_member(value: JsonModel, name: Seq<char>) -> Result<JsonModel, ErrorModel> {
    match member(value, name) {
        Some(found) => Ok(found),
        None => Err(ErrorModel::FieldNotFound(name)),
    }
}

/// The element of `value` whose index is written in `text`.
pub open spec fn take_element(value: JsonModel, text: Seq<char>) -> Result<
    JsonModel,
    ErrorModel,
> {
    match index_value(text) {
        Err(e) => Err(e),
        Ok(index) => match element(value, index) {
            Some(found) => Ok(found),
            None => Err(ErrorModel::IndexNotFound(index)),
        },
    }
}

/// Where one part of a path leads from `value`. A part that holds `[` and
/// ends in `]` names a member, unless nothing stands before the first `[`,
/// and then an element; any other part names a member.
pub open spec fn follow_part(value: JsonModel, part: Seq<char>) -> Result<JsonModel, ErrorModel> {
    if part.len() == 0 {
        Ok(value)
    } else if index_of(part, '[') < part.len() && part.last() == ']' {
        let open = index_of(part, '[');
        let name = part.take(open);
        let index_text = part.subrange(open + 1, part.len() - 1);
        if name.len() == 0 {
            take_element(value, index_text)
        } else {
            match take_member(value, name) {
                Err(e) => Err(e),
                Ok(inner) => take_element(inner, index_text),
            }
        }
    } else {
        take_member(value, part)
    }
}

/// Where the parts of `path`, separated by `.`, lead from `value`.
pub open spec fn follow_parts(value: JsonModel, path: Seq<char>) -> Result<JsonModel, ErrorModel>
    decreases path.len(),
{
    let dot = index_of(path, '.');
    if 0 <= dot <= path.len() {
        match follow_part(value, path.take(dot)) {
            Err(e) => Err(e),
            Ok(next) => if dot < path.len() {
                follow_parts(next, path.skip(dot + 1))
            } else {
                Ok(next)
            },
        }
    } else {
        Ok(value)
    }
}

/// Whether `path` takes an element of the root first: it starts with `$[`
/// and holds a `]`.
pub open spec fn is_root_index(path: Seq<char>) -> bool {
    path.len() >= 2 && path[0] == '$' && path[1] == '[' && index_of(path.skip(1), ']') < path.len()
        - 1
}

/// Where `path` leads from `value`.
pub open spec fn extract(value: JsonModel, path: Seq<char>) -> Result<JsonModel, ErrorModel>
    decreases path.len(),
{
    if is_root_index(path) {
        let close = index_of(path.skip(1), ']') + 1;
        if 2 <= close < path.len() {
            match take_element(value, path.subrange(2, close)) {
                Err(e) => Err(e),
                Ok(inner) => {
                    let rest = path.skip(close + 1);
                    if rest.len() > 0 && rest[0] == '.' {
                        extract(inner, rest.skip(1))
                    } else {
                        Ok(inner)
                    }
                },
            }
        } else {
            Ok(value)
        }
    } else if path.len() >= 2 && path[0] == '$' && path[1] == '.' {
        follow_parts(value, path.skip(2))
    } else {
        follow_parts(value, path)
    }
}

/// The element of `value` whose index is written in `v[from..to]`.
fn element_at<'a>(value: &'a Json, v: &Vec<char>, from: usize, to: usize) -> (r: Result<
    &'a Json,
    ValidationError,
>)
    requires
        from <= to <= v.len(),
    ensures
        match r {
            Ok(found) => take_element(value@, v@.subrange(from as int, to as int)) == Ok::<
                JsonModel,
                ErrorModel,
            >(found@),
            Err(e) => take_element(value@, v@.subrange(from as int, to as int)) == Err::<
                JsonModel,
                ErrorModel,
            >(e@),
        },
{
    match parse_unsigned(v, from, to, usize::MAX as u64) {
        None => Err(ValidationError::InvalidArrayIndex(text_of_range(v, from, to))),
        Some(index) => {
            let index: usize = index as usize;
            match value.get_element(index) {
                Some(found) => Ok(found),
                None => Err(ValidationError::IndexNotFound(index)),
            }
        },
    }
}

/// The member of `value` named `v[from..to]`.
fn member_at<'a>(value: &'a Json, v: &Vec<char>, from: usize, to: usize) -> (r: Result<
    &'a Json,
    ValidationError,
>)
    requires
        from <= to <= v.len(),
    ensures
        match r {
            Ok(found) => take_member(value@, v@.subrange(from as int, to as int)) == Ok::<
                JsonModel,
                ErrorModel,
            >(found@),
            Err(e) => take_member(value@, v@.subrange(from as int, to as int)) == Err::<
                JsonModel,
                ErrorModel,
            >(e@),
        },
{
    let name = text_of_range(v, from, to);
    match value.get_member(name.as_str()) {
        Some(found) => Ok(found),
        None => Err(ValidationError::FieldNotFound(name)),
    }
}

/// Where the part `v[from..to]` leads from `value`.
fn follow_part_at<'a>(value: &'a Json, v: &Vec<char>, from: usize, to: usize) -> (r: Result<
    &'a Json,
    ValidationError,
>)
    requires
        from <= to <= v.len(),
    ensures
        match r {
            Ok(found) => follow_part(value@, v@.subrange(from as int, to as int)) == Ok::<
                JsonModel,
                ErrorModel,
            >(found@),
            Err(e) => follow_part(value@, v@.subrange(from as int, to as int)) == Err::<
                JsonModel,
                ErrorModel,
            >(e@),
        },
{
    let ghost part = v@.subrange(from as int, to as int);
    if from == to {
        return Ok(value);
    }
    let open = find_char(v, from, to, '[');
    proof {
        assert(part.last() == v@[to - 1]);
        lemma_index_of(part, '[');
    }
    if open < to - from && v[to - 1] == ']' {
        proof {
            assert(part.take(open as int) =~= v@.subrange(from as int, from + open));
            assert(part.subrange(open + 1, part.len() - 1) =~= v@.subrange(
                from + open + 1,
                to - 1,
            ));
            assert(part[open as int] == '[');
        }
        if open == 0 {
            element_at(value, v, from + 1, to - 1)
        } else {
            match member_at(value, v, from, from + open) {
                Err(e) => Err(e),
                Ok(inner) => element_at(inner, v, from + open + 1, to - 1),
            }
        }
    } else {
        member_at(value, v, from, to)
    }
}

/// Where the parts of `v[from..]` lead from `value`.
fn follow_parts_at<'a>(value: &'a Json, v: &Vec<char>, from: usize) -> (r: Result<
    &'a Json,
    ValidationError,
>)
    requires
        from <= v.len(),
    ensures
        match r {
            Ok(found) => follow_parts(value@, v@.skip(from as int)) == Ok::<JsonModel, ErrorModel>(
                found@,
            ),
            Err(e) => follow_parts(value@, v@.skip(from as int)) == Err::<JsonModel, ErrorModel>(
                e@,
            ),
        },
{
    let mut current: &'a Json = value;
    let mut start: usize = from;
    loop
        invariant
            from <= start <= v.len(),
            follow_parts(current@, v@.skip(start as int)) == follow_parts(
                value@,
                v@.skip(from as int),
            ),
        decreases v.len() - start,
    {
        let ghost path = v@.skip(start as int);
        proof {
            assert(path =~= v@.subrange(start as int, v.len() as int));
            lemma_index_of(path, '.');
        }
        let dot = find_char(v, start, v.len(), '.');
        proof {
            assert(path.take(dot as int) =~= v@.subrange(start as int, start + dot));
            if dot < path.len() {
                assert(path.skip(dot + 1) =~= v@.skip(start + dot + 1));
            }
        }
        match follow_part_at(current, v, start, start + dot) {
            Err(e) => {
                return Err(e);
            },
            Ok(next) => {
                if start + dot < v.len() {
                    current = next;
                    start = start + dot + 1;
                } else {
                    return Ok(next);
                }
            },
        }
    }
}

/// Where the path `v[from..]` leads from `value`.
fn extract_at<'a>(value: &'a Json, v: &Vec<char>, from: usize) -> (r: Result<
    &'a Json,
    ValidationError,
>)
    requires
        from <= v.len(),
    ensures
        match r {
            Ok(found) => extract(value@, v@.skip(from as int)) == Ok::<JsonModel, ErrorModel>(
                found@,
            ),
            Err(e) => extract(value@, v@.skip(from as int)) == Err::<JsonModel, ErrorModel>(e@),
        },
    decreases v.len() - from,
{
    let ghost path = v@.skip(from as int);
    let len: usize = v.len() - from;
    proof {
        if len >= 1 {
            assert(path[0] == v@[from as int]);
        }
        if len >= 2 {
            assert(path[1] == v@[from + 1]);
        }
    }
    if len >= 2 && v[from] == '$' && v[from + 1] == '[' {
        let close = find_char(v, from + 1, v.len(), ']');
        proof {
            assert(path.skip(1) =~= v@.subrange(from + 1, v.len() as int));
            lemma_index_of(path.skip(1), ']');
        }
        if close < len - 1 {
            proof {
                assert(path.skip(1)[0] == '[');
                assert(path.subrange(2, close + 1) =~= v@.subrange(from + 2, from + 1 + close));
                assert(path.skip(close + 2) =~= v@.skip(from + close + 2));
            }
            match element_at(value, v, from + 2, from + 1 + close) {
                Err(e) => {
                    return Err(e);
                },
                Ok(inner) => {
                    let next: usize = from + close + 2;
                    proof {
                        if next < v.len() {
                            assert(path.skip(close + 2)[0] == v@[next as int]);
                            assert(path.skip(close + 2).skip(1) =~= v@.skip(next + 1));
                        }
                    }
                    if next < v.len() && v[next] == '.' {
                        return extract_at(inner, v, next + 1);
                    } else {
                        return Ok(inner);
                    }
                },
            }
        }
    }
    if len >= 2 && v[from] == '$' && v[from + 1] == '.' {
        proof {
            assert(path.skip(2) =~= v@.skip(from + 2));
        }
        follow_parts_at(value, v, from + 2)
    } else {
        follow_parts_at(value, v, from)
    }
}

/// The value that `path` leads to in `json`, or why it leads nowhere.
pub fn extract_jsonpath_value(json: &Json, path: &str) -> (r: Result<Json, ValidationError>)
    ensures
        match r {
            Ok(found) => extract(json@, path@) == Ok::<JsonModel, ErrorModel>(found@),
            Err(e) => extract(json@, path@) == Err::<JsonModel, ErrorModel>(e@),
        },
{
    let v = crate::text::chars_of(path);
    proof {
        assert(v@.skip(0) =~= v@);
    }
    match extract_at(json, &v, 0) {
        Ok(found) => Ok(found.duplicate()),
        Err(e) => Err(e),
    }
}

} // verus!
