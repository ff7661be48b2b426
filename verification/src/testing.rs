//! Handler test cases and the judgement of a run. Reading a case from disk
//! and driving the handler happen in the embedding program; the comparison
//! rule — summaries match up to leading and trailing whitespace — is fixed
//! here.
use vstd::prelude::*;

verus! {

use std::collections::HashMap;
use crate::text::{spec_trim, str_eq, trim_str};

/// One handler test case: the command and settings to create the handler
/// with, the captured streams and exit code to summarize, and the summary
/// expected back.
pub struct TestCase {
    pub command: String,
    pub settings: HashMap<String, serde_json::Value>,
    pub stdout: String,
    pub stderr: String,
    pub exit_code: i32,
    pub expected_summary: String,
}

/// The outcome of one test case.
pub struct TestResult {
    pub name: String,
    pub passed: bool,
    pub expected: String,
    pub actual: String,
}

/// Judges one test case: it passes exactly when the expected and actual
/// summaries agree once leading and trailing whitespace is removed from
/// both.
pub fn evaluate_test(name: &str, expected_summary: &str, actual_summary: &str) -> (r: TestResult)
    ensures
        r.name@ == name@,
        r.expected@ == expected_summary@,
        r.actual@ == actual_summary@,
        r.passed == (spec_trim(expected_summary@) == spec_trim(actual_summary@)),
{
    let passed = str_eq(trim_str(expected_summary), trim_str(actual_summary));
    TestResult {
        name: name.to_owned(),
        passed,
        expected: expected_summary.to_owned(),
        actual: actual_summary.to_owned(),
    }
}

} // verus!
