//! Stored content that judging draws on: a problem's statement and test
//! cases, solutions, and submitted code.
use crate::judge::TestCaseData;
use vstd::prelude::*;

verus! {

/// A problem's statement, with its sample cases.
#[derive(Clone, Debug)]
pub struct ProblemContent {
    pub name: String,
    pub description: String,
    pub input_description: String,
    pub output_description: String,
    pub samples: Vec<TestCaseData>,
    pub note: Option<String>,
}

/// The test cases of a problem, in order.
#[derive(Clone, Debug)]
pub struct TestCasesData {
    pub test_cases: Vec<TestCaseData>,
}

/// A written solution of a problem.
#[derive(Clone, Debug)]
pub struct SolutionContent {
    pub title: String,
    pub content: String,
}

/// The source code of a submission.
#[derive(Clone, Debug)]
pub struct SubmissionCode {
    pub code: String,
}

} // verus!
