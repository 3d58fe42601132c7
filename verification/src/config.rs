//! The description of a suite, and the user's preferences for reports.

use crate::bindings::Bindings;
use crate::json::Json;
use vstd::prelude::*;

verus! {

/// How reports are produced when nothing else is said.
#[derive(Debug, Clone)]
pub struct ReportConfig {
    pub auto_open_browser: bool,
    pub default_template: String,
    pub default_formats: Vec<String>,
}

impl Default for ReportConfig {
    fn default() -> (r: ReportConfig)
        ensures
            r.auto_open_browser,
            r.default_template@ == "compact"@,
            r.default_formats@.len() == 1,
            r.default_formats@[0]@ == "html"@,
    {
        let mut formats: Vec<String> = Vec::new();
        formats.push("html".to_string());
        ReportConfig {
            auto_open_browser: true,
            default_template: "compact".to_string(),
            default_formats: formats,
        }
    }
}

/// The user's preferences.
#[derive(Debug, Clone)]
pub struct UserConfig {
    pub reports: ReportConfig,
}

impl Default for UserConfig {
    fn default() -> (r: UserConfig)
        ensures
            r.reports.auto_open_browser,
            r.reports.default_template@ == "compact"@,
            r.reports.default_formats@.len() == 1,
            r.reports.default_formats@[0]@ == "html"@,
    {
        UserConfig { reports: ReportConfig::default() }
    }
}

/// A suite: named steps with optional setup, teardown and data set.
#[derive(Debug, Clone)]
pub struct RivetConfig {
    pub name: String,
    pub description: Option<String>,
    pub env: Option<String>,
    pub vars: Option<Bindings>,
    pub setup: Option<Vec<TestStep>>,
    pub tests: Vec<TestStep>,
    pub dataset: Option<Dataset>,
    pub teardown: Option<Vec<TestStep>>,
}

/// One step: a request and what is expected of its response.
#[derive(Debug, Clone)]
pub struct TestStep {
    pub name: String,
    pub description: Option<String>,
    pub request: Request,
    pub expect: Option<Expectation>,
}

/// A request, as a template: every text but the method may hold
/// placeholders.
#[derive(Debug, Clone)]
pub struct Request {
    pub method: String,
    pub url: String,
    pub headers: Option<Bindings>,
    pub params: Option<Bindings>,
    pub body: Option<String>,
}

/// What is expected of a response.
#[derive(Debug, Clone)]
pub struct Expectation {
    /// The status code.
    pub status: Option<StatusExpectation>,
    /// A schema reference; not evaluated.
    pub schema: Option<String>,
    /// Paths into the body and the value expected at each, checked first to
    /// last.
    pub jsonpath: Option<Vec<(String, Json)>>,
    /// Header expectations; not evaluated.
    pub headers: Option<Bindings>,
}

/// An expected status code: a number, or a template that expands to one.
#[derive(Debug, Clone)]
pub enum StatusExpectation {
    Number(u16),
    String(String),
}

/// A data set: the file that holds the rows, and how many steps of a row
/// may run at once.
#[derive(Debug, Clone)]
pub struct Dataset {
    pub file: String,
    pub parallel: Option<usize>,
}

} // verus!
