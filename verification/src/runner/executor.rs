//! One request: making it ready from its template, and judging what came
//! back. Sending is the caller's part; it hands back an `Exchange`.

use crate::bindings::{Bindings, Entry};
use crate::config::{Expectation, Request, StatusExpectation};
use crate::decimal::{bool_of, decimal_text, parse_bool, parse_signed, parse_unsigned, signed_of,
    unsigned_of};
use crate::json::{parsed_json, same_json, Json, JsonModel, JsonNumber, NumberModel};
use crate::runner::jsonpath::{extract, extract_jsonpath_value, ErrorModel, ValidationError};
use crate::runner::variables::{substitute, VariableContext};
use crate::span::TimeSpan;
use crate::text::{chars_of, push_str_chars, text_of};
use vstd::prelude::*;

verus! {

/// The serialization of the URL that `url::Url::parse` reads from a text,
/// if it reads one.
pub uninterp spec fn parsed_url(text: Seq<char>) -> Option<Seq<char>>;

/// The serialization of the URL that `url::Url::parse` reads from a text,
/// if it reads one, after `extend_pairs` appended the pairs to its query.
pub uninterp spec fn parsed_url_with_query(text: Seq<char>, pairs: Seq<Entry>) -> Option<
    Seq<char>,
>;

/// Whether `c` may stand in an HTTP method: a letter or a digit of ASCII,
/// or one of the signs that a token may hold.
pub open spec fn method_char(c: char) -> bool {
    ('a' <= c && c <= 'z') || ('A' <= c && c <= 'Z') || ('0' <= c && c <= '9') || c == '!' || c
        == '#' || c == '$' || c == '%' || c == '&' || c == '\'' || c == '*' || c == '+' || c == '-'
        || c == '.' || c == '^' || c == '_' || c == '`' || c == '|' || c == '~'
}

/// Whether a text is an HTTP method: one or more characters, each of which
/// may stand in a method.
pub open spec fn valid_http_method(text: Seq<char>) -> bool {
    text.len() > 0 && forall|i: int| 0 <= i < text.len() ==> method_char(#[trigger] text[i])
}

/// The pairs of a vector of string pairs.
pub open spec fn pairs_of(v: Seq<(String, String)>) -> Seq<Entry> {
    Seq::new(v.len(), |i: int| (v[i].0@, v[i].1@))
}

/// `Url::parse` on `text`; where it succeeds, the serialization of the URL.
/// Believed without proof: the result is `parsed_url` of the text.
#[verifier::external_body]
fn parse_url(text: &str) -> (r: Option<String>)
    ensures
        r matches Some(url) ==> parsed_url(text@) == Some(url@),
        r is None ==> parsed_url(text@) is None,
{
    url::Url::parse(text).ok().map(String::from)
}

/// `Url::parse` on `text`; where it succeeds, `Url::query_pairs_mut` and
/// `extend_pairs` with `pairs`, then the serialization of the URL. Believed
/// without proof: the result is `parsed_url_with_query` of the text and the
/// pairs.
#[verifier::external_body]
fn parse_url_with_query(text: &str, pairs: &Vec<(String, String)>) -> (r: Option<String>)
    ensures
        r matches Some(url) ==> parsed_url_with_query(text@, pairs_of(pairs@)) == Some(url@),
        r is None ==> parsed_url_with_query(text@, pairs_of(pairs@)) is None,
{
    let mut url = url::Url::parse(text).ok()?;
    url.query_pairs_mut().extend_pairs(pairs.iter());
    Some(url.into())
}

/// Whether `reqwest::Method::from_bytes` accepts the bytes of `text`.
/// Believed without proof: it accepts exactly the texts that are not empty
/// and hold nothing but the characters of its table of method characters,
/// which are those of `method_char`.
#[verifier::external_body]
fn is_http_method(text: &str) -> (r: bool)
    ensures
        r == valid_http_method(text@),
{
    reqwest::Method::from_bytes(text.as_bytes()).is_ok()
}

/// Why a request cannot be sent.
#[derive(Debug)]
pub enum RequestError {
    /// The URL, after substitution, is no URL.
    InvalidUrl(String),
    /// The method is no HTTP method.
    InvalidMethod(String),
}

/// What a `RequestError` holds.
pub enum RequestErrorModel {
    InvalidUrl(Seq<char>),
    InvalidMethod(Seq<char>),
}

impl View for RequestError {
    type V = RequestErrorModel;

    open spec fn view(&self) -> RequestErrorModel {
        match self {
            RequestError::InvalidUrl(s) => RequestErrorModel::InvalidUrl(s@),
            RequestError::InvalidMethod(s) => RequestErrorModel::InvalidMethod(s@),
        }
    }
}

impl RequestErrorModel {
    /// The message of the error.
    pub open spec fn message(self) -> Seq<char> {
        match self {
            RequestErrorModel::InvalidUrl(s) => "Invalid URL: "@ + s,
            RequestErrorModel::InvalidMethod(s) => "Invalid HTTP method: "@ + s,
        }
    }
}

impl RequestError {
    /// The message of the error.
    pub fn message(&self) -> (r: String)
        ensures
            r@ == self@.message(),
    {
        let mut out: Vec<char> = Vec::new();
        match self {
            RequestError::InvalidUrl(s) => {
                push_str_chars(&mut out, "Invalid URL: ");
                push_str_chars(&mut out, s.as_str());
            },
            RequestError::InvalidMethod(s) => {
                push_str_chars(&mut out, "Invalid HTTP method: ");
                push_str_chars(&mut out, s.as_str());
            },
        }
        proof {
            assert(out@ =~= self@.message());
        }
        text_of(&out)
    }
}

/// A request that is ready to be sent: every placeholder is resolved.
#[derive(Debug)]
pub struct PreparedRequest {
    pub method: String,
    pub url: String,
    pub headers: Vec<(String, String)>,
    pub body: Option<String>,
}

/// What came of a request.
#[derive(Debug)]
pub enum Exchange {
    /// A response arrived and its body was read.
    Response { status: u16, body: String },
    /// A response arrived, and reading its body failed for the reason given.
    UnreadableBody { status: u16, reason: String },
    /// No response arrived: the request could not be sent in time.
    SendFailed,
    /// The request was not sent.
    NotSent(RequestError),
}

/// The outcome of one step.
#[derive(Debug, Clone)]
pub struct TestResult {
    pub name: String,
    pub passed: bool,
    pub duration: TimeSpan,
    pub error: Option<String>,
    pub response_status: Option<u16>,
    pub response_body: Option<String>,
}

/// What a `TestResult` holds.
pub struct TestResultModel {
    pub name: Seq<char>,
    pub passed: bool,
    pub duration: TimeSpan,
    pub error: Option<Seq<char>>,
    pub response_status: Option<u16>,
    pub response_body: Option<Seq<char>>,
}

/// The text of an optional string.
pub open spec fn text_view(s: Option<String>) -> Option<Seq<char>> {
    match s {
        Some(t) => Some(t@),
        None => None,
    }
}

impl View for TestResult {
    type V = TestResultModel;

    open spec fn view(&self) -> TestResultModel {
        TestResultModel {
            name: self.name@,
            passed: self.passed,
            duration: self.duration,
            error: text_view(self.error),
            response_status: self.response_status,
            response_body: text_view(self.response_body),
        }
    }
}

/// The pairs with both sides expanded.
pub open spec fn expand_pairs(env: Seq<Entry>, vars: Seq<Entry>, pairs: Seq<Entry>) -> Seq<Entry> {
    Seq::new(
        pairs.len(),
        |i: int| (substitute(env, vars, pairs[i].0), substitute(env, vars, pairs[i].1)),
    )
}

/// The pairs of an optional table, expanded; none where there is no table.
pub open spec fn expand_table(env: Seq<Entry>, vars: Seq<Entry>, table: Option<Bindings>) -> Seq<
    Entry,
> {
    match table {
        Some(t) => expand_pairs(env, vars, t@),
        None => Seq::empty(),
    }
}

/// The URL of a request: its template expanded and read as a URL, with the
/// expanded query parameters appended where the request has any.
pub open spec fn target_url(env: Seq<Entry>, vars: Seq<Entry>, request: Request) -> Option<
    Seq<char>,
> {
    match request.params {
        Some(params) => parsed_url_with_query(
            substitute(env, vars, request.url@),
            expand_pairs(env, vars, params@),
        ),
        None => parsed_url(substitute(env, vars, request.url@)),
    }
}

/// Whether `prepared` is `request` made ready, given the URL that was read
/// from it.
pub open spec fn is_prepared(
    env: Seq<Entry>,
    vars: Seq<Entry>,
    request: Request,
    url: Seq<char>,
    prepared: PreparedRequest,
) -> bool {
    &&& prepared.method@ == request.method@
    &&& prepared.url@ == url
    &&& pairs_of(prepared.headers@) == expand_table(env, vars, request.headers)
    &&& text_view(prepared.body) == match request.body {
        Some(body) => Some(substitute(env, vars, body@)),
        None => None,
    }
}

/// The status code that an expectation asks for.
pub open spec fn expected_status(env: Seq<Entry>, vars: Seq<Entry>, status: StatusExpectation)
    -> Result<u16, ErrorModel> {
    match status {
        StatusExpectation::Number(code) => Ok(code),
        StatusExpectation::String(template) => {
            let text = substitute(env, vars, template@);
            match unsigned_of(text, 0xffff) {
                Some(code) => Ok(code as u16),
                None => Err(ErrorModel::InvalidStatusCode(text)),
            }
        },
    }
}

/// The error of the status check, if it fails.
pub open spec fn status_failure(
    env: Seq<Entry>,
    vars: Seq<Entry>,
    expected: Option<StatusExpectation>,
    status: u16,
) -> Option<ErrorModel> {
    match expected {
        None => None,
        Some(e) => match expected_status(env, vars, e) {
            Err(error) => Some(error),
            Ok(code) => if status == code {
                None
            } else {
                Some(ErrorModel::StatusMismatch { expected: code, actual: status })
            },
        },
    }
}

/// The value that an expected value stands for. A text is expanded, and
/// where the expansion reads as a signed integer or as a truth value it
/// stands for that; any other value stands for itself.
pub open spec fn coerce(env: Seq<Entry>, vars: Seq<Entry>, expected: JsonModel) -> JsonModel {
    match expected {
        JsonModel::Text(template) => {
            let text = substitute(env, vars, template);
            match signed_of(text) {
                Some(n) => JsonModel::Number(
                    if n < 0 {
                        NumberModel::NegInt(n as i64)
                    } else {
                        NumberModel::PosInt(n as u64)
                    },
                ),
                None => match bool_of(text) {
                    Some(b) => JsonModel::Bool(b),
                    None => JsonModel::Text(text),
                },
            }
        },
        other => other,
    }
}

/// The error of one path assertion, if it fails.
pub open spec fn path_failure(
    env: Seq<Entry>,
    vars: Seq<Entry>,
    json: JsonModel,
    path: Seq<char>,
    expected: JsonModel,
) -> Option<ErrorModel> {
    match extract(json, path) {
        Err(e) => Some(e),
        Ok(actual) => {
            let wanted = coerce(env, vars, expected);
            if same_json(actual, wanted) {
                None
            } else {
                Some(ErrorModel::Mismatch { path, wanted, found: actual })
            }
        },
    }
}

/// The error of the first path assertion that fails, if one does.
pub open spec fn paths_failure(
    env: Seq<Entry>,
    vars: Seq<Entry>,
    json: JsonModel,
    assertions: Seq<(Seq<char>, JsonModel)>,
) -> Option<ErrorModel>
    decreases assertions.len(),
{
    if assertions.len() == 0 {
        None
    } else {
        match path_failure(env, vars, json, assertions[0].0, assertions[0].1) {
            Some(e) => Some(e),
            None => paths_failure(env, vars, json, assertions.drop_first()),
        }
    }
}

/// One step of `paths_failure`.
pub proof fn lemma_paths_step(
    env: Seq<Entry>,
    vars: Seq<Entry>,
    json: JsonModel,
    all: Seq<(Seq<char>, JsonModel)>,
    i: int,
)
    requires
        0 <= i < all.len(),
    ensures
        paths_failure(env, vars, json, all.skip(i)) == match path_failure(
            env,
            vars,
            json,
            all[i].0,
            all[i].1,
        ) {
            Some(e) => Some(e),
            None => paths_failure(env, vars, json, all.skip(i + 1)),
        },
{
    assert(all.skip(i)[0] == all[i]);
    assert(all.skip(i).drop_first() =~= all.skip(i + 1));
}

/// No assertion is left to fail once all were checked.
pub proof fn lemma_paths_done(
    env: Seq<Entry>,
    vars: Seq<Entry>,
    json: JsonModel,
    all: Seq<(Seq<char>, JsonModel)>,
)
    ensures
        paths_failure(env, vars, json, all.skip(all.len() as int)) is None,
{
    assert(all.skip(all.len() as int).len() == 0);
}

/// The path assertions of an expectation.
pub open spec fn assertions_of(v: Seq<(String, Json)>) -> Seq<(Seq<char>, JsonModel)> {
    Seq::new(v.len(), |i: int| (v[i].0@, v[i].1@))
}

/// Why a response with `status`, whose body reads as `parsed`, does not
/// meet `expectation`, if it does not. The status is checked first. The
/// path assertions are checked only where the body reads as JSON: a body
/// that does not is no failure.
pub open spec fn failure(
    env: Seq<Entry>,
    vars: Seq<Entry>,
    status: u16,
    parsed: Option<JsonModel>,
    expectation: Expectation,
) -> Option<ErrorModel> {
    match status_failure(env, vars, expectation.status, status) {
        Some(e) => Some(e),
        None => match expectation.jsonpath {
            None => None,
            Some(assertions) => match parsed {
                None => None,
                Some(json) => paths_failure(env, vars, json, assertions_of(assertions@)),
            },
        },
    }
}

/// The view of an optional error.
pub open spec fn error_view(r: Result<(), ValidationError>) -> Option<ErrorModel> {
    match r {
        Ok(_) => None,
        Err(e) => Some(e@),
    }
}

/// The outcome of a step named `name` that took `duration`, given what came
/// of its request and how the body of the response reads.
pub open spec fn outcome(
    env: Seq<Entry>,
    vars: Seq<Entry>,
    name: Seq<char>,
    exchange: Exchange,
    parsed: Option<JsonModel>,
    expectation: Option<Expectation>,
    duration: TimeSpan,
) -> TestResultModel {
    match exchange {
        Exchange::Response { status, body } => {
            let error = match expectation {
                Some(e) => match failure(env, vars, status, parsed, e) {
                    Some(error) => Some(error.message()),
                    None => None,
                },
                None => if status >= 400 {
                    Some("HTTP "@ + decimal_text(status as nat))
                } else {
                    None
                },
            };
            TestResultModel {
                name,
                passed: error is None,
                duration,
                error,
                response_status: Some(status),
                response_body: Some(body@),
            }
        },
        Exchange::UnreadableBody { status, reason } => TestResultModel {
            name,
            passed: false,
            duration,
            error: Some("Failed to read response body: "@ + reason@),
            response_status: Some(status),
            response_body: None,
        },
        Exchange::SendFailed => TestResultModel {
            name,
            passed: false,
            duration,
            error: Some("Failed to send HTTP request"@),
            response_status: None,
            response_body: None,
        },
        Exchange::NotSent(e) => TestResultModel {
            name,
            passed: false,
            duration,
            error: Some(e@.message()),
            response_status: None,
            response_body: None,
        },
    }
}

/// Expands both sides of every pair of `table`.
fn expand_bindings(context: &VariableContext, table: &Bindings) -> (r: Vec<(String, String)>)
    ensures
        pairs_of(r@) == expand_pairs(context.env@, context.vars@, table@),
{
    let mut r: Vec<(String, String)> = Vec::new();
    let mut i: usize = 0;
    while i < table.len()
        invariant
            i <= table@.len(),
            r@.len() == i,
            forall|k: int|
                0 <= k < i ==> (#[trigger] r@[k]).0@ == substitute(
                    context.env@,
                    context.vars@,
                    table@[k].0,
                ) && r@[k].1@ == substitute(context.env@, context.vars@, table@[k].1),
        decreases table@.len() - i,
    {
        let key = context.substitute_variables(table.key_at(i).as_str());
        let value = context.substitute_variables(table.value_at(i).as_str());
        r.push((key, value));
        i += 1;
    }
    proof {
        assert(pairs_of(r@) =~= expand_pairs(context.env@, context.vars@, table@));
    }
    r
}

/// Makes requests ready and judges their responses.
#[derive(Debug, Clone)]
pub struct RequestExecutor {
    timeout: TimeSpan,
}

impl RequestExecutor {
    /// An executor whose requests are given `timeout` each.
    pub fn new(timeout: TimeSpan) -> (r: RequestExecutor)
        ensures
            r.timeout() == timeout,
    {
        RequestExecutor { timeout }
    }

    /// The time that a request is given.
    pub closed spec fn timeout(&self) -> TimeSpan {
        self.timeout
    }

    /// The time that a request is given.
    pub fn request_timeout(&self) -> (r: TimeSpan)
        ensures
            r == self.timeout(),
    {
        self.timeout
    }

    /// Puts together the request to send from the URL that was read and
    /// from whether the method is one. The URL is looked at first.
    pub fn assemble_request(
        request: &Request,
        context: &VariableContext,
        url: Option<String>,
        method_is_valid: bool,
    ) -> (r: Result<PreparedRequest, RequestError>)
        ensures
            match r {
                Ok(prepared) => url is Some && method_is_valid && is_prepared(
                    context.env@,
                    context.vars@,
                    *request,
                    url->0@,
                    prepared,
                ),
                Err(e) => if url is None {
                    e@ == RequestErrorModel::InvalidUrl(
                        substitute(context.env@, context.vars@, request.url@),
                    )
                } else {
                    !method_is_valid && e@ == RequestErrorModel::InvalidMethod(request.method@)
                },
            },
    {
        let target = match url {
            Some(target) => target,
            None => {
                return Err(
                    RequestError::InvalidUrl(context.substitute_variables(request.url.as_str())),
                );
            },
        };
        if !method_is_valid {
            return Err(RequestError::InvalidMethod(request.method.clone()));
        }
        let headers: Vec<(String, String)> = match &request.headers {
            Some(table) => expand_bindings(context, table),
            None => {
                let none: Vec<(String, String)> = Vec::new();
                proof {
                    assert(pairs_of(none@) =~= Seq::<Entry>::empty());
                }
                none
            },
        };
        let body: Option<String> = match &request.body {
            Some(template) => Some(context.substitute_variables(template.as_str())),
            None => None,
        };
        Ok(PreparedRequest { method: request.method.clone(), url: target, headers, body })
    }

    /// Makes `request` ready to be sent: expands its URL, query parameters,
    /// headers and body, and reads the URL and the method. Fails, without
    /// anything else, where the URL or else the method is malformed.
    pub fn execute_request(&self, request: &Request, context: &VariableContext) -> (r: Result<
        PreparedRequest,
        RequestError,
    >)
        ensures
            match r {
                Ok(prepared) => {
                    let url = target_url(context.env@, context.vars@, *request);
                    url is Some && valid_http_method(request.method@) && is_prepared(
                        context.env@,
                        context.vars@,
                        *request,
                        url->0,
                        prepared,
                    )
                },
                Err(e) => if target_url(context.env@, context.vars@, *request) is None {
                    e@ == RequestErrorModel::InvalidUrl(
                        substitute(context.env@, context.vars@, request.url@),
                    )
                } else {
                    !valid_http_method(request.method@) && e@ == RequestErrorModel::InvalidMethod(
                        request.method@,
                    )
                },
            },
    {
        let text = context.substitute_variables(request.url.as_str());
        let url: Option<String> = match &request.params {
            Some(params) => {
                let pairs = expand_bindings(context, params);
                parse_url_with_query(text.as_str(), &pairs)
            },
            None => parse_url(text.as_str()),
        };
        let method_is_valid = is_http_method(request.method.as_str());
        RequestExecutor::assemble_request(request, context, url, method_is_valid)
    }

    /// The value that the expected value `expected` stands for.
    pub fn coerce_expected(expected: &Json, context: &VariableContext) -> (r: Json)
        ensures
            r@ == coerce(context.env@, context.vars@, expected@),
    {
        match expected {
            Json::Text(template) => {
                let text = context.substitute_variables(template.as_str());
                let chars = chars_of(text.as_str());
                proof {
                    assert(chars@.subrange(0, chars@.len() as int) =~= chars@);
                }
                match parse_signed(&chars, 0, chars.len()) {
                    Some(n) => Json::Number(JsonNumber::from_i64(n)),
                    None => match parse_bool(&chars) {
                        Some(b) => Json::Bool(b),
                        None => Json::Text(text),
                    },
                }
            },
            other => other.duplicate(),
        }
    }

    /// Checks one path assertion against the body.
    pub fn validate_jsonpath(
        json: &Json,
        path: &str,
        expected: &Json,
        context: &VariableContext,
    ) -> (r: Result<(), ValidationError>)
        ensures
            error_view(r) == path_failure(
                context.env@,
                context.vars@,
                json@,
                path@,
                expected@,
            ),
    {
        let actual = match extract_jsonpath_value(json, path) {
            Ok(actual) => actual,
            Err(e) => {
                return Err(e);
            },
        };
        let wanted = RequestExecutor::coerce_expected(expected, context);
        if actual.same(&wanted) {
            Ok(())
        } else {
            Err(ValidationError::Mismatch { path: path.to_owned(), wanted, found: actual })
        }
    }

    /// Checks the status against the expected one.
    pub fn validate_status(
        status: u16,
        expected: Option<&StatusExpectation>,
        context: &VariableContext,
    ) -> (r: Result<(), ValidationError>)
        ensures
            error_view(r) == status_failure(
                context.env@,
                context.vars@,
                match expected {
                    Some(e) => Some(*e),
                    None => None,
                },
                status,
            ),
    {
        let code: u16 = match expected {
            None => {
                return Ok(());
            },
            Some(StatusExpectation::Number(code)) => *code,
            Some(StatusExpectation::String(template)) => {
                let text = context.substitute_variables(template.as_str());
                let chars = chars_of(text.as_str());
                proof {
                    assert(chars@.subrange(0, chars@.len() as int) =~= chars@);
                }
                match parse_unsigned(&chars, 0, chars.len(), 0xffff) {
                    Some(code) => code as u16,
                    None => {
                        return Err(ValidationError::InvalidStatusCode(text));
                    },
                }
            },
        };
        if status == code {
            Ok(())
        } else {
            Err(ValidationError::StatusMismatch { expected: code, actual: status })
        }
    }

    /// Checks a response against `expectation`, given how its body reads as
    /// JSON. The first check that fails decides.
    pub fn validate_parsed(
        status: u16,
        parsed: Option<&Json>,
        expectation: &Expectation,
        context: &VariableContext,
    ) -> (r: Result<(), ValidationError>)
        ensures
            error_view(r) == failure(
                context.env@,
                context.vars@,
                status,
                match parsed {
                    Some(json) => Some(json@),
                    None => None,
                },
                *expectation,
            ),
    {
        match RequestExecutor::validate_status(status, expectation.status.as_ref(), context) {
            Err(e) => {
                return Err(e);
            },
            Ok(_) => {},
        }
        let assertions = match &expectation.jsonpath {
            None => {
                return Ok(());
            },
            Some(assertions) => assertions,
        };
        let json = match parsed {
            None => {
                return Ok(());
            },
            Some(json) => json,
        };
        RequestExecutor::validate_paths(json, assertions, context)
    }

    /// Checks the path assertions, first to last, up to the first that
    /// fails.
    pub fn validate_paths(
        json: &Json,
        assertions: &Vec<(String, Json)>,
        context: &VariableContext,
    ) -> (r: Result<(), ValidationError>)
        ensures
            error_view(r) == paths_failure(
                context.env@,
                context.vars@,
                json@,
                assertions_of(assertions@),
            ),
    {
        let ghost all = assertions_of(assertions@);
        let mut i: usize = 0;
        proof {
            assert(all.skip(0) =~= all);
        }
        while i < assertions.len()
            invariant
                i <= assertions.len(),
                all == assertions_of(assertions@),
                paths_failure(context.env@, context.vars@, json@, all.skip(i as int))
                    == paths_failure(context.env@, context.vars@, json@, all),
            decreases assertions.len() - i,
        {
            proof {
                lemma_paths_step(context.env@, context.vars@, json@, all, i as int);
            }
            match RequestExecutor::validate_jsonpath(
                json,
                assertions[i].0.as_str(),
                &assertions[i].1,
                context,
            ) {
                Err(e) => {
                    return Err(e);
                },
                Ok(_) => {},
            }
            i += 1;
        }
        proof {
            lemma_paths_done(context.env@, context.vars@, json@, all);
        }
        Ok(())
    }

    /// Checks a response against `expectation`. The first check that fails
    /// decides.
    pub fn validate_response(
        &self,
        status: u16,
        body: &str,
        expectation: &Expectation,
        context: &VariableContext,
    ) -> (r: Result<(), ValidationError>)
        ensures
            error_view(r) == failure(
                context.env@,
                context.vars@,
                status,
                parsed_json(body@),
                *expectation,
            ),
    {
        if expectation.jsonpath.is_some() {
            let parsed = Json::parse(body);
            RequestExecutor::validate_parsed(status, parsed.as_ref(), expectation, context)
        } else {
            RequestExecutor::validate_parsed(status, None, expectation, context)
        }
    }

    /// The outcome of the step `name`, given what came of its request and
    /// how the body of the response reads as JSON.
    pub fn judge(
        name: &str,
        exchange: Exchange,
        parsed: Option<&Json>,
        expectation: Option<&Expectation>,
        context: &VariableContext,
        duration: TimeSpan,
    ) -> (r: TestResult)
        ensures
            r@ == outcome(
                context.env@,
                context.vars@,
                name@,
                exchange,
                match parsed {
                    Some(json) => Some(json@),
                    None => None,
                },
                match expectation {
                    Some(e) => Some(*e),
                    None => None,
                },
                duration,
            ),
    {
        match exchange {
            Exchange::Response { status, body } => {
                let error: Option<String> = match expectation {
                    Some(e) => match RequestExecutor::validate_parsed(status, parsed, e, context) {
                        Err(error) => Some(error.message()),
                        Ok(_) => None,
                    },
                    None => if status >= 400 {
                        let mut out: Vec<char> = Vec::new();
                        push_str_chars(&mut out, "HTTP ");
                        crate::decimal::push_decimal(&mut out, status as u128);
                        Some(text_of(&out))
                    } else {
                        None
                    },
                };
                TestResult {
                    name: name.to_owned(),
                    passed: error.is_none(),
                    duration,
                    error,
                    response_status: Some(status),
                    response_body: Some(body),
                }
            },
            Exchange::UnreadableBody { status, reason } => {
                let mut out: Vec<char> = Vec::new();
                push_str_chars(&mut out, "Failed to read response body: ");
                push_str_chars(&mut out, reason.as_str());
                TestResult {
                    name: name.to_owned(),
                    passed: false,
                    duration,
                    error: Some(text_of(&out)),
                    response_status: Some(status),
                    response_body: None,
                }
            },
            Exchange::SendFailed => TestResult {
                name: name.to_owned(),
                passed: false,
                duration,
                error: Some("Failed to send HTTP request".to_string()),
                response_status: None,
                response_body: None,
            },
            Exchange::NotSent(e) => TestResult {
                name: name.to_owned(),
                passed: false,
                duration,
                error: Some(e.message()),
                response_status: None,
                response_body: None,
            },
        }
    }

    /// The outcome of the step `name`, given what came of its request.
    /// Never fails: whatever went wrong is in the result.
    pub fn execute_test(
        &self,
        name: &str,
        exchange: Exchange,
        expectation: Option<&Expectation>,
        context: &VariableContext,
        duration: TimeSpan,
    ) -> (r: TestResult)
        ensures
            r@ == outcome(
                context.env@,
                context.vars@,
                name@,
                exchange,
                match exchange {
                    Exchange::Response { status, body } => parsed_json(body@),
                    _ => None,
                },
                match expectation {
                    Some(e) => Some(*e),
                    None => None,
                },
                duration,
            ),
    {
        let parsed: Option<Json> = match &exchange {
            Exchange::Response { status, body } => {
                let wanted = match expectation {
                    Some(e) => e.jsonpath.is_some(),
                    None => false,
                };
                if wanted {
                    Json::parse(body.as_str())
                } else {
                    None
                }
            },
            _ => None,
        };
        RequestExecutor::judge(name, exchange, parsed.as_ref(), expectation, context, duration)
    }
}

} // verus!
