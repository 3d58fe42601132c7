//! Running suites: template variables, response validation and the
//! scheduling of steps.

pub mod executor;
pub mod jsonpath;
pub mod test_runner;
pub mod variable_laws;
pub mod variables;
