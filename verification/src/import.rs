//! Turning the requests of a Postman collection into requests of a suite,
//! and naming the files that they are written to.

use crate::bindings::{bind, Bindings, Entry};
use crate::config::{Expectation, Request, StatusExpectation};
use crate::json::{member, Json, JsonModel, JsonNumber, NumberModel};
use crate::text::{chars_of, lowercase_of, push_chars, push_str_chars, same_text, text_of,
    text_of_range, uppercase_of};
use vstd::prelude::*;

verus! {

/// A header of a request in a collection.
#[derive(Debug, Clone)]
pub struct PostmanHeader {
    pub key: String,
    pub value: String,
    pub disabled: Option<bool>,
}

/// A query parameter of a URL in a collection.
#[derive(Debug, Clone)]
pub struct PostmanQuery {
    pub key: String,
    pub value: String,
    pub disabled: Option<bool>,
}

/// A URL in parts.
#[derive(Debug, Clone)]
pub struct PostmanUrlObject {
    pub raw: Option<String>,
    pub protocol: Option<String>,
    pub host: Option<Vec<String>>,
    pub path: Option<Vec<String>>,
    pub query: Option<Vec<PostmanQuery>>,
}

/// A URL in a collection: a text, or its parts.
#[derive(Debug, Clone)]
pub enum PostmanUrl {
    String(String),
    Object(PostmanUrlObject),
}

/// A field of a form.
#[derive(Debug, Clone)]
pub struct PostmanFormData {
    pub key: String,
    pub value: Option<String>,
    pub disabled: Option<bool>,
}

/// The body of a request in a collection.
#[derive(Debug, Clone)]
pub struct PostmanBody {
    pub mode: Option<String>,
    pub raw: Option<String>,
    pub formdata: Option<Vec<PostmanFormData>>,
    pub urlencoded: Option<Vec<PostmanFormData>>,
}

/// A request in a collection.
#[derive(Debug, Clone)]
pub struct PostmanRequest {
    pub method: String,
    pub header: Option<Vec<PostmanHeader>>,
    pub url: PostmanUrl,
    pub body: Option<PostmanBody>,
}

/// Whether an item counts: it is not marked as disabled.
pub open spec fn enabled(disabled: Option<bool>) -> bool {
    match disabled {
        Some(d) => !d,
        None => true,
    }
}

/// The texts joined, `sep` between every two of them.
pub open spec fn joined(parts: Seq<Seq<char>>, sep: Seq<char>) -> Seq<char>
    decreases parts.len(),
{
    if parts.len() == 0 {
        Seq::empty()
    } else if parts.len() == 1 {
        parts[0]
    } else {
        joined(parts.drop_last(), sep) + sep + parts.last()
    }
}

/// The texts of a sequence of strings.
pub open spec fn texts(parts: Seq<String>) -> Seq<Seq<char>> {
    Seq::new(parts.len(), |i: int| parts[i]@)
}

/// The pair `key=value`.
pub open spec fn pair_text(key: Seq<char>, value: Seq<char>) -> Seq<char> {
    key + seq!['='] + value
}

/// The enabled query parameters, each as `key=value`.
pub open spec fn query_pairs(query: Seq<PostmanQuery>) -> Seq<Seq<char>>
    decreases query.len(),
{
    if query.len() == 0 {
        Seq::empty()
    } else if enabled(query.last().disabled) {
        query_pairs(query.drop_last()).push(pair_text(query.last().key@, query.last().value@))
    } else {
        query_pairs(query.drop_last())
    }
}

/// The enabled fields of a form, each as `key=value`, a field without a
/// value having the empty one.
pub open spec fn form_pairs(fields: Seq<PostmanFormData>) -> Seq<Seq<char>>
    decreases fields.len(),
{
    if fields.len() == 0 {
        Seq::empty()
    } else if enabled(fields.last().disabled) {
        form_pairs(fields.drop_last()).push(
            pair_text(
                fields.last().key@,
                match fields.last().value {
                    Some(v) => v@,
                    None => Seq::empty(),
                },
            ),
        )
    } else {
        form_pairs(fields.drop_last())
    }
}

/// The URL that the parts make: the protocol, `https` by default; the
/// labels of the host joined by `.`, `localhost` by default; the segments of
/// the path, each after a `/`; and the enabled query parameters after a `?`,
/// where there is one.
pub open spec fn url_from_parts(url: PostmanUrlObject) -> Seq<char> {
    let protocol = match url.protocol {
        Some(p) => p@,
        None => "https"@,
    };
    let host = match url.host {
        Some(h) => joined(texts(h@), seq!['.']),
        None => "localhost"@,
    };
    let path = match url.path {
        Some(p) => seq!['/'] + joined(texts(p@), seq!['/']),
        None => seq!['/'],
    };
    let query = match url.query {
        Some(q) => if query_pairs(q@).len() > 0 {
            seq!['?'] + joined(query_pairs(q@), seq!['&'])
        } else {
            Seq::empty()
        },
        None => Seq::empty(),
    };
    protocol + "://"@ + host + path + query
}

/// The URL of a request: the text where it is one, the raw text of the
/// parts where they hold one, else what the parts make.
pub open spec fn url_text(url: PostmanUrl) -> Seq<char> {
    match url {
        PostmanUrl::String(s) => s@,
        PostmanUrl::Object(parts) => match parts.raw {
            Some(raw) => raw@,
            None => url_from_parts(parts),
        },
    }
}

/// The table of the enabled headers, a later header overriding an earlier
/// one of the same name.
pub open spec fn header_table(headers: Seq<PostmanHeader>) -> Seq<Entry>
    decreases headers.len(),
{
    if headers.len() == 0 {
        Seq::empty()
    } else if enabled(headers.last().disabled) {
        bind(header_table(headers.drop_last()), headers.last().key@, headers.last().value@)
    } else {
        header_table(headers.drop_last())
    }
}

/// The body that a form makes: its enabled fields joined by `&`; none where
/// no field is enabled.
pub open spec fn form_body(fields: Option<Vec<PostmanFormData>>) -> Option<Seq<char>> {
    match fields {
        Some(f) => if form_pairs(f@).len() > 0 {
            Some(joined(form_pairs(f@), seq!['&']))
        } else {
            None
        },
        None => None,
    }
}

/// The text of an optional string.
pub open spec fn opt_text(s: Option<String>) -> Option<Seq<char>> {
    match s {
        Some(t) => Some(t@),
        None => None,
    }
}

/// The body of a request: by its mode the form data or the URL-encoded
/// data as a form, in any other mode the raw text.
pub open spec fn body_text(body: Option<PostmanBody>) -> Option<Seq<char>> {
    match body {
        None => None,
        Some(b) => match b.mode {
            Some(mode) => if mode@ == "formdata"@ {
                form_body(b.formdata)
            } else if mode@ == "urlencoded"@ {
                form_body(b.urlencoded)
            } else {
                opt_text(b.raw)
            },
            None => opt_text(b.raw),
        },
    }
}

/// Whether `request` is what the request `source` of a collection becomes.
pub open spec fn converts(source: PostmanRequest, request: Request) -> bool {
    &&& request.method@ == uppercase_of(source.method@)
    &&& request.url@ == url_text(source.url)
    &&& match source.header {
        Some(h) => if header_table(h@).len() > 0 {
            request.headers is Some && request.headers->0@ == header_table(h@)
        } else {
            request.headers is None
        },
        None => request.headers is None,
    }
    &&& request.params is None
    &&& opt_text(request.body) == body_text(source.body)
}

/// Appends the texts of `parts`, `sep` between every two of them.
fn push_joined(out: &mut Vec<char>, parts: &Vec<String>, sep: char)
    ensures
        final(out)@ == old(out)@ + joined(texts(parts@), seq![sep]),
{
    let ghost all = texts(parts@);
    let mut i: usize = 0;
    proof {
        assert(all.take(0) =~= Seq::<Seq<char>>::empty());
        assert(old(out)@ + Seq::<char>::empty() =~= old(out)@);
    }
    while i < parts.len()
        invariant
            i <= parts.len(),
            all == texts(parts@),
            out@ == old(out)@ + joined(all.take(i as int), seq![sep]),
        decreases parts.len() - i,
    {
        if i > 0 {
            out.push(sep);
        }
        push_str_chars(out, parts[i].as_str());
        proof {
            let next = all.take(i + 1);
            assert(next.drop_last() =~= all.take(i as int));
            assert(next.last() == parts@[i as int]@);
            assert(out@ =~= old(out)@ + joined(next, seq![sep]));
        }
        i += 1;
    }
    proof {
        assert(all.take(all.len() as int) =~= all);
    }
}

/// Appends `key=value`.
fn push_pair(out: &mut Vec<char>, key: &str, value: &str)
    ensures
        final(out)@ == old(out)@ + pair_text(key@, value@),
{
    push_str_chars(out, key);
    out.push('=');
    push_str_chars(out, value);
    proof {
        assert(out@ =~= old(out)@ + pair_text(key@, value@));
    }
}

/// The enabled query parameters joined by `&`, and how many there are.
fn join_query(query: &Vec<PostmanQuery>) -> (r: (Vec<char>, usize))
    ensures
        r.0@ == joined(query_pairs(query@), seq!['&']),
        r.1 == query_pairs(query@).len(),
{
    let mut out: Vec<char> = Vec::new();
    let mut count: usize = 0;
    let mut i: usize = 0;
    proof {
        assert(query@.take(0) =~= Seq::<PostmanQuery>::empty());
    }
    while i < query.len()
        invariant
            i <= query.len(),
            count == query_pairs(query@.take(i as int)).len(),
            count <= i,
            out@ == joined(query_pairs(query@.take(i as int)), seq!['&']),
        decreases query.len() - i,
    {
        proof {
            assert(query@.take(i + 1).drop_last() =~= query@.take(i as int));
            assert(query@.take(i + 1).last() == query@[i as int]);
        }
        let on: bool = match query[i].disabled {
            Some(d) => !d,
            None => true,
        };
        if on {
            let ghost before = query_pairs(query@.take(i as int));
            if count > 0 {
                out.push('&');
            }
            push_pair(&mut out, query[i].key.as_str(), query[i].value.as_str());
            proof {
                let next = query_pairs(query@.take(i + 1));
                assert(next.drop_last() =~= before);
                assert(out@ =~= joined(next, seq!['&']));
            }
            count += 1;
        }
        i += 1;
    }
    proof {
        assert(query@.take(query@.len() as int) =~= query@);
    }
    (out, count)
}

/// The enabled fields joined by `&`, and how many there are.
fn join_form(fields: &Vec<PostmanFormData>) -> (r: (Vec<char>, usize))
    ensures
        r.0@ == joined(form_pairs(fields@), seq!['&']),
        r.1 == form_pairs(fields@).len(),
{
    let mut out: Vec<char> = Vec::new();
    let mut count: usize = 0;
    let mut i: usize = 0;
    proof {
        assert(fields@.take(0) =~= Seq::<PostmanFormData>::empty());
    }
    while i < fields.len()
        invariant
            i <= fields.len(),
            count == form_pairs(fields@.take(i as int)).len(),
            count <= i,
            out@ == joined(form_pairs(fields@.take(i as int)), seq!['&']),
        decreases fields.len() - i,
    {
        proof {
            assert(fields@.take(i + 1).drop_last() =~= fields@.take(i as int));
            assert(fields@.take(i + 1).last() == fields@[i as int]);
        }
        let on: bool = match fields[i].disabled {
            Some(d) => !d,
            None => true,
        };
        if on {
            let ghost before = form_pairs(fields@.take(i as int));
            if count > 0 {
                out.push('&');
            }
            match &fields[i].value {
                Some(v) => push_pair(&mut out, fields[i].key.as_str(), v.as_str()),
                None => push_pair(&mut out, fields[i].key.as_str(), ""),
            }
            proof {
                reveal_strlit("");
                let next = form_pairs(fields@.take(i + 1));
                assert(next.drop_last() =~= before);
                assert(""@ =~= Seq::<char>::empty());
                assert(out@ =~= joined(next, seq!['&']));
            }
            count += 1;
        }
        i += 1;
    }
    proof {
        assert(fields@.take(fields@.len() as int) =~= fields@);
    }
    (out, count)
}

/// The body that a form makes.
fn form_to_body(fields: &Option<Vec<PostmanFormData>>) -> (r: Option<String>)
    ensures
        opt_text(r) == form_body(*fields),
{
    match fields {
        Some(f) => {
            let (text, count) = join_form(f);
            if count > 0 {
                Some(text_of(&text))
            } else {
                None
            }
        },
        None => None,
    }
}

/// A copy of an optional string.
fn copy_text(s: &Option<String>) -> (r: Option<String>)
    ensures
        opt_text(r) == opt_text(*s),
{
    match s {
        Some(t) => Some(t.clone()),
        None => None,
    }
}

/// The URL that the parts make.
fn build_url(url: &PostmanUrlObject) -> (r: String)
    ensures
        r@ == url_from_parts(*url),
{
    let mut out: Vec<char> = Vec::new();
    match &url.protocol {
        Some(p) => push_str_chars(&mut out, p.as_str()),
        None => push_str_chars(&mut out, "https"),
    }
    push_str_chars(&mut out, "://");
    match &url.host {
        Some(h) => push_joined(&mut out, h, '.'),
        None => push_str_chars(&mut out, "localhost"),
    }
    out.push('/');
    match &url.path {
        Some(p) => push_joined(&mut out, p, '/'),
        None => {},
    }
    match &url.query {
        Some(q) => {
            let (pairs, count) = join_query(q);
            if count > 0 {
                out.push('?');
                push_chars(&mut out, &pairs);
            }
        },
        None => {},
    }
    proof {
        assert(out@ =~= url_from_parts(*url));
    }
    text_of(&out)
}

/// The request of a suite that the request `postman_request` of a
/// collection becomes. Query parameters stay in the URL.
pub fn convert_postman_request_to_rivet(postman_request: &PostmanRequest) -> (r: Request)
    ensures
        converts(*postman_request, r),
{
    let url: String = match &postman_request.url {
        PostmanUrl::String(s) => s.clone(),
        PostmanUrl::Object(parts) => match &parts.raw {
            Some(raw) => raw.clone(),
            None => build_url(parts),
        },
    };
    let headers: Option<Bindings> = match &postman_request.header {
        Some(list) => {
            let mut table = Bindings::new();
            let mut i: usize = 0;
            proof {
                assert(list@.take(0) =~= Seq::<PostmanHeader>::empty());
            }
            while i < list.len()
                invariant
                    i <= list.len(),
                    table@ == header_table(list@.take(i as int)),
                decreases list.len() - i,
            {
                proof {
                    assert(list@.take(i + 1).drop_last() =~= list@.take(i as int));
                    assert(list@.take(i + 1).last() == list@[i as int]);
                }
                let on: bool = match list[i].disabled {
                    Some(d) => !d,
                    None => true,
                };
                if on {
                    table.insert(list[i].key.clone(), list[i].value.clone());
                }
                i += 1;
            }
            proof {
                assert(list@.take(list@.len() as int) =~= list@);
            }
            if table.is_empty() {
                None
            } else {
                Some(table)
            }
        },
        None => None,
    };
    let body: Option<String> = match &postman_request.body {
        None => None,
        Some(b) => match &b.mode {
            Some(mode) => {
                if same_text(mode.as_str(), "formdata") {
                    form_to_body(&b.formdata)
                } else if same_text(mode.as_str(), "urlencoded") {
                    form_to_body(&b.urlencoded)
                } else {
                    copy_text(&b.raw)
                }
            },
            None => copy_text(&b.raw),
        },
    };
    Request {
        method: postman_request.method.as_str().to_uppercase(),
        url,
        headers,
        params: None,
        body,
    }
}

/// The status that the first of the example responses carries: its member
/// `code`, where that is a non-negative integer, cut to 16 bits; 200 where
/// there is no example or no such member.
pub open spec fn example_status(responses: Option<Vec<Json>>) -> u16 {
    match responses {
        Some(list) => if list@.len() > 0 {
            match member(list@[0]@, "code"@) {
                Some(JsonModel::Number(NumberModel::PosInt(code))) => (code % 0x10000) as u16,
                _ => 200,
            }
        } else {
            200
        },
        None => 200,
    }
}

/// The expectation that the example responses of a request give: a status
/// and nothing else.
pub fn create_expectation_from_responses(responses: &Option<Vec<Json>>) -> (r: Option<
    Expectation,
>)
    ensures
        r is Some,
        r->0.status == Some(StatusExpectation::Number(example_status(*responses))),
        r->0.schema is None,
        r->0.jsonpath is None,
        r->0.headers is None,
{
    let mut status: u16 = 200;
    match responses {
        Some(list) => {
            if list.len() > 0 {
                match list[0].get_member("code") {
                    Some(Json::Number(JsonNumber::PosInt(code))) => {
                        status = (*code % 0x10000) as u16;
                    },
                    _ => {},
                }
            }
        },
        None => {},
    }
    Some(
        Expectation {
            status: Some(StatusExpectation::Number(status)),
            schema: None,
            jsonpath: None,
            headers: None,
        },
    )
}

/// A character of a file name: a letter, a digit, `-` or `_` of ASCII as it
/// is, a capital letter in lower case, anything else as `_`.
pub open spec fn file_char(c: char) -> char {
    if ('a' <= c && c <= 'z') || ('0' <= c && c <= '9') || c == '-' || c == '_' {
        c
    } else if 'A' <= c && c <= 'Z' {
        ((c as u8) + 32) as char
    } else {
        '_'
    }
}

/// The number of `_` that `s` starts with.
pub open spec fn leading_underscores(s: Seq<char>) -> nat
    decreases s.len(),
{
    if s.len() > 0 && s[0] == '_' {
        1 + leading_underscores(s.skip(1))
    } else {
        0
    }
}

/// The number of `_` that `s` ends with.
pub open spec fn trailing_underscores(s: Seq<char>) -> nat
    decreases s.len(),
{
    if s.len() > 0 && s.last() == '_' {
        1 + trailing_underscores(s.drop_last())
    } else {
        0
    }
}

/// `s` without the `_` at its two ends.
pub open spec fn without_underscores(s: Seq<char>) -> Seq<char> {
    let from = leading_underscores(s) as int;
    let to = s.len() - trailing_underscores(s);
    if from < to {
        s.subrange(from, to)
    } else {
        Seq::empty()
    }
}

/// The file name for `name`: every character as a character of a file
/// name, without the `_` at the two ends.
pub open spec fn file_name(name: Seq<char>) -> Seq<char> {
    without_underscores(Seq::new(name.len(), |i: int| file_char(name[i])))
}

/// `v` without the `_` at its two ends.
fn trim_underscores(v: &Vec<char>) -> (r: String)
    ensures
        r@ == without_underscores(v@),
{
    let ghost s = v@;
    let mut a: usize = 0;
    proof {
        assert(s.skip(0) =~= s);
    }
    while a < v.len() && v[a] == '_'
        invariant
            a <= v.len(),
            s == v@,
            leading_underscores(s) == a + leading_underscores(s.skip(a as int)),
        decreases v.len() - a,
    {
        proof {
            assert(s.skip(a as int)[0] == v@[a as int]);
            assert(s.skip(a as int).skip(1) =~= s.skip(a + 1));
        }
        a += 1;
    }
    proof {
        if a < v.len() {
            assert(s.skip(a as int)[0] == v@[a as int]);
        }
        assert(s.take(s.len() as int) =~= s);
    }
    let mut b: usize = v.len();
    while b > 0 && v[b - 1] == '_'
        invariant
            b <= v.len(),
            s == v@,
            trailing_underscores(s) == (v.len() - b) + trailing_underscores(s.take(b as int)),
        decreases b,
    {
        proof {
            assert(s.take(b as int).last() == v@[b - 1]);
            assert(s.take(b as int).drop_last() =~= s.take(b - 1));
        }
        b -= 1;
    }
    proof {
        if b > 0 {
            assert(s.take(b as int).last() == v@[b - 1]);
        }
    }
    if a < b {
        text_of_range(v, a, b)
    } else {
        String::new()
    }
}

/// The file name for the request or the folder `name`.
pub fn sanitize_filename(name: &str) -> (r: String)
    ensures
        r@ == file_name(name@),
{
    let source = chars_of(name);
    let mut mapped: Vec<char> = Vec::new();
    let mut i: usize = 0;
    while i < source.len()
        invariant
            i <= source.len(),
            source@ == name@,
            mapped@.len() == i,
            forall|k: int| 0 <= k < i ==> mapped@[k] == file_char(source@[k]),
        decreases source.len() - i,
    {
        let c = source[i];
        let out: char = if ('a' <= c && c <= 'z') || ('0' <= c && c <= '9') || c == '-' || c
            == '_' {
            c
        } else if 'A' <= c && c <= 'Z' {
            ((c as u8) + 32) as char
        } else {
            '_'
        };
        mapped.push(out);
        i += 1;
    }
    proof {
        assert(mapped@ =~= Seq::new(name@.len(), |i: int| file_char(name@[i])));
    }
    trim_underscores(&mapped)
}

/// `name` after `prefix` and a `_`, or alone where the prefix is empty.
pub open spec fn prefixed(prefix: Seq<char>, name: Seq<char>) -> Seq<char> {
    if prefix.len() == 0 {
        name
    } else {
        prefix + seq!['_'] + name
    }
}

/// The prefix for what lies in the folder `folder_name`, itself under
/// `folder_prefix`.
pub fn nested_prefix(folder_prefix: &str, folder_name: &str) -> (r: String)
    ensures
        r@ == prefixed(folder_prefix@, file_name(folder_name@)),
{
    let name = sanitize_filename(folder_name);
    let mut out: Vec<char> = Vec::new();
    push_str_chars(&mut out, folder_prefix);
    if out.len() > 0 {
        out.push('_');
    }
    push_str_chars(&mut out, name.as_str());
    proof {
        assert(out@ =~= prefixed(folder_prefix@, file_name(folder_name@)));
    }
    text_of(&out)
}

/// The name of the file for the request `request_name` under
/// `folder_prefix`.
pub fn request_file_name(folder_prefix: &str, request_name: &str) -> (r: String)
    ensures
        r@ == prefixed(folder_prefix@, file_name(request_name@)) + ".yaml"@,
{
    let stem = nested_prefix(folder_prefix, request_name);
    let mut out: Vec<char> = Vec::new();
    push_str_chars(&mut out, stem.as_str());
    push_str_chars(&mut out, ".yaml");
    proof {
        assert(out@ =~= prefixed(folder_prefix@, file_name(request_name@)) + ".yaml"@);
    }
    text_of(&out)
}

/// `path` with `_` for every `/` and without braces.
pub open spec fn flattened(path: Seq<char>) -> Seq<char>
    decreases path.len(),
{
    if path.len() == 0 {
        Seq::empty()
    } else {
        let c = path.last();
        let before = flattened(path.drop_last());
        if c == '/' {
            before.push('_')
        } else if c == '{' || c == '}' {
            before
        } else {
            before.push(c)
        }
    }
}

/// The name that a path gives to an operation: `_` for every `/`, no
/// braces, no `_` at the two ends, in lower case.
pub open spec fn path_name(path: Seq<char>) -> Seq<char> {
    lowercase_of(without_underscores(flattened(path)))
}

/// The name that `path` gives to an operation.
pub fn sanitize_path(path: &str) -> (r: String)
    ensures
        r@ == path_name(path@),
{
    let source = chars_of(path);
    let mut flat: Vec<char> = Vec::new();
    let mut i: usize = 0;
    proof {
        assert(source@.take(0) =~= Seq::<char>::empty());
    }
    while i < source.len()
        invariant
            i <= source.len(),
            source@ == path@,
            flat@ == flattened(source@.take(i as int)),
        decreases source.len() - i,
    {
        let c = source[i];
        proof {
            assert(source@.take(i + 1).drop_last() =~= source@.take(i as int));
            assert(source@.take(i + 1).last() == c);
        }
        if c == '/' {
            flat.push('_');
        } else if c == '{' || c == '}' {
        } else {
            flat.push(c);
        }
        i += 1;
    }
    proof {
        assert(source@.take(source@.len() as int) =~= source@);
    }
    let trimmed = trim_underscores(&flat);
    trimmed.as_str().to_lowercase()
}

} // verus!
