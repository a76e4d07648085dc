//! The values that travel between the server and its judge workers.
use vstd::prelude::*;

verus! {

/// A programming language that a submission may be written in.
#[derive(Clone, Copy, Debug, PartialEq, Eq, Structural, Hash)]
pub enum Language {
    C,
    Cpp,
    Java,
    Python,
    Go,
    Rust,
    JavaScript,
    TypeScript,
    CSharp,
    Php,
    Ruby,
    Swift,
    Kotlin,
    Scala,
    Haskell,
    Lua,
    Perl,
    R,
    Dart,
    ObjectiveC,
}

/// What a worker presents once, when it registers.
#[derive(Clone, Debug)]
pub struct JudgeInfo {
    pub judge_id: String,
    pub version: String,
    /// Seconds since the Unix epoch at which the worker signed.
    pub timestamp: i64,
    /// Signature over the challenge made of `judge_id` and `timestamp`.
    pub signature: String,
    pub languages: Vec<Language>,
}

/// Hundredths of a percent in a full scale.
pub const FULL_USAGE: u32 = 10000;

/// A worker's load. Usages are in hundredths of a percent, so `FULL_USAGE` is 100%.
#[derive(Clone, Copy, Debug, PartialEq, Eq, Structural)]
pub struct JudgeLoad {
    pub running_tasks: u32,
    pub cpu_usage: u32,
    pub memory_usage: u32,
}

impl JudgeLoad {
    pub open spec fn wf(&self) -> bool {
        self.cpu_usage <= FULL_USAGE && self.memory_usage <= FULL_USAGE
    }
}

/// A message from the server to a worker.
#[derive(Clone, Debug)]
pub enum ApiToJudgeMessage {
    JudgeTask(JudgeTask),
    Pong,
}

/// One submission to judge.
#[derive(Clone, Debug)]
pub struct JudgeTask {
    pub submission_id: i32,
    pub lang: Language,
    pub code: String,
    /// Milliseconds.
    pub time_limit: i32,
    /// Megabytes.
    pub memory_limit: i32,
    pub test_cases: Vec<TestCase>,
}

#[derive(Clone, Debug)]
pub struct TestCase {
    pub id: i32,
    pub data: TestCaseData,
}

#[derive(Clone, Debug)]
pub struct TestCaseData {
    pub input: String,
    pub output: String,
}

/// A message from a worker to the server.
#[derive(Clone, Debug)]
pub enum JudgeToApiMessage {
    JudgeResult(JudgeResult),
    JudgeProgress(JudgeProgress),
    Ping(JudgeLoad),
    Register(JudgeInfo),
    /// A submission that could not be judged, with the reason.
    Error(i32, String),
}

/// The outcome of one judging pass over a submission.
#[derive(Clone, Debug)]
pub struct JudgeResult {
    pub submission_id: i32,
    pub result: SubmissionResult,
    /// Milliseconds, summed over the test cases.
    pub time_consumption: i32,
    /// Kilobytes, the largest over the test cases.
    pub memory_consumption: i32,
    pub test_results: Vec<TestCaseResult>,
}

#[derive(Clone, Copy, Debug, PartialEq, Eq, Structural)]
pub struct JudgeProgress {
    pub submission_id: i32,
    pub completed_tests: u32,
    pub total_tests: u32,
}

/// The verdict of a whole submission.
#[derive(Clone, Copy, Debug, PartialEq, Eq, Structural)]
pub enum SubmissionResult {
    Pending,
    Accepted,
    WrongAnswer,
    TimeLimitExceeded,
    MemoryLimitExceeded,
    RuntimeError,
    CompileError,
    UnknownError,
}

/// The verdict of one test case.
#[derive(Clone, Copy, Debug, PartialEq, Eq, Structural)]
pub enum TestCaseJudgeResult {
    Pending,
    Compiling,
    Running,
    Accepted,
    WrongAnswer,
    TimeLimitExceeded,
    MemoryLimitExceeded,
    RuntimeError,
    CompileError,
    UnknownError,
}

#[derive(Clone, Copy, Debug, PartialEq, Eq, Structural)]
pub struct TestCaseResult {
    pub test_case_id: i32,
    pub result: TestCaseJudgeResult,
    /// Milliseconds.
    pub time_consumption: i32,
    /// Kilobytes.
    pub memory_consumption: i32,
}

} // verus!
