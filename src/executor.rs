//! The decisions of the judge executor for one submission: which sandbox
//! executions to request, the verdict of each test case, and how they add up
//! to the verdict of the submission.
use crate::judge::{
    JudgeResult, JudgeTask, JudgeToApiMessage, Language, SubmissionResult, TestCase,
    TestCaseJudgeResult, TestCaseResult,
};
use crate::judger::{
    texts_view, FileInput, JudgerError, JudgerResult, RequestView, ResponseView,
    SandboxRequest, Verdict,
};
use crate::text::{decimal, push_decimal};
use vstd::prelude::*;
use vstd::string::*;

verus! {

/// Wall-clock ceiling of a compilation, in milliseconds.
pub const COMPILE_TIME_LIMIT_MS: i32 = 5000;

/// Memory ceiling of a compilation, in megabytes.
pub const COMPILE_MEMORY_LIMIT_MB: i64 = 512;

/// Process-count ceiling of a compilation.
pub const COMPILE_PIDS_LIMIT: i32 = 128;

/// Process-count ceiling of a test run.
pub const TEST_PIDS_LIMIT: i32 = 16;

/// Permission bits of the source file (rw-r--r--).
pub const SOURCE_MODE: i32 = 0o644;

/// Permission bits of the compiled program (rwxrwxr-x).
pub const ARTIFACT_MODE: i32 = 0o775;

/// How a language is installed, compiled and run inside the sandbox.
#[derive(Clone, Debug)]
pub struct LanguageConfig {
    pub install: Option<Vec<String>>,
    /// Name under which the source is written.
    pub source: String,
    /// Command line of the compiler, if the language has a compile step.
    pub compile: Option<Vec<String>>,
    /// Name of the file that the compile step produces.
    pub compiled: String,
    /// Command line that runs the program.
    pub run: Vec<String>,
}

/// Where the sandbox lives on the worker.
#[derive(Clone, Debug)]
pub struct SandboxSettings {
    pub rootfs_path: String,
    pub cgroup_base: String,
}

/// Unicode's White_Space property.
pub open spec fn is_white_space(c: char) -> bool {
    ('\u{9}' <= c && c <= '\u{d}') || c == ' ' || c == '\u{85}' || c == '\u{a0}' || c
        == '\u{1680}' || ('\u{2000}' <= c && c <= '\u{200a}') || c == '\u{2028}' || c
        == '\u{2029}' || c == '\u{202f}' || c == '\u{205f}' || c == '\u{3000}'
}

pub open spec fn trim_start_ws(s: Seq<char>) -> Seq<char>
    decreases s.len(),
{
    if s.len() > 0 && is_white_space(s[0]) {
        trim_start_ws(s.drop_first())
    } else {
        s
    }
}

pub open spec fn trim_end_ws(s: Seq<char>) -> Seq<char>
    decreases s.len(),
{
    if s.len() > 0 && is_white_space(s.last()) {
        trim_end_ws(s.drop_last())
    } else {
        s
    }
}

/// `s` without its leading and trailing white space.
pub open spec fn trimmed(s: Seq<char>) -> Seq<char> {
    trim_end_ws(trim_start_ws(s))
}

/// Relies on `str::trim`: leading and trailing characters with Unicode's
/// White_Space property are removed, and nothing else.
#[verifier::external_body]
fn trim_text(s: &str) -> (r: String)
    ensures
        r@ == trimmed(s@),
{
    s.trim().to_owned()
}

/// Whether a program's output matches the expected output: equal once white
/// space is removed from both ends, with nothing normalised inside.
pub fn outputs_match(actual: &str, expected: &str) -> (r: bool)
    ensures
        r == (trimmed(actual@) == trimmed(expected@)),
{
    let a = trim_text(actual);
    let e = trim_text(expected);
    a == e
}

/// What one test run gave: `None` when it did not run or the runner failed.
pub open spec fn run_view(run: Option<Result<JudgerResult, JudgerError>>) -> Option<ResponseView> {
    match run {
        Some(Ok(res)) => Some(res@),
        _ => None,
    }
}

/// The verdict of one test case from what its run gave.
pub open spec fn test_verdict(run: Option<ResponseView>, expected: Seq<char>) -> TestCaseJudgeResult {
    match run {
        None => TestCaseJudgeResult::UnknownError,
        Some(res) => match res.verdict {
            Verdict::Success => if trimmed(res.stdout) == trimmed(expected) {
                TestCaseJudgeResult::Accepted
            } else {
                TestCaseJudgeResult::WrongAnswer
            },
            Verdict::Tle => TestCaseJudgeResult::TimeLimitExceeded,
            Verdict::Mle => TestCaseJudgeResult::MemoryLimitExceeded,
            Verdict::Re => TestCaseJudgeResult::RuntimeError,
            Verdict::Uke => TestCaseJudgeResult::UnknownError,
        },
    }
}

/// `x` saturated to the range of `i32`.
pub open spec fn clamp_i32(x: int) -> i32 {
    if x > i32::MAX {
        i32::MAX
    } else if x < i32::MIN {
        i32::MIN
    } else {
        x as i32
    }
}

/// The result of one test case: its verdict, and the time and memory measured
/// when the runner answered (zero otherwise).
pub open spec fn test_result_of(id: i32, run: Option<ResponseView>, expected: Seq<char>) -> TestCaseResult {
    TestCaseResult {
        test_case_id: id,
        result: test_verdict(run, expected),
        time_consumption: match run {
            Some(res) => res.time,
            None => 0,
        },
        memory_consumption: match run {
            Some(res) => clamp_i32(res.memory as int),
            None => 0,
        },
    }
}

fn clamp_memory(m: i64) -> (r: i32)
    ensures
        r == clamp_i32(m as int),
{
    if m > i32::MAX as i64 {
        i32::MAX
    } else if m < i32::MIN as i64 {
        i32::MIN
    } else {
        m as i32
    }
}

/// The result of `test` from what its run gave.
pub fn test_case_result(test: &TestCase, run: &Option<Result<JudgerResult, JudgerError>>) -> (r:
    TestCaseResult)
    ensures
        r == test_result_of(test.id, run_view(*run), test.data.output@),
{
    match run {
        Some(Ok(res)) => {
            let result = match res.verdict {
                Verdict::Success => if outputs_match(res.stdout.as_str(), test.data.output.as_str()) {
                    TestCaseJudgeResult::Accepted
                } else {
                    TestCaseJudgeResult::WrongAnswer
                },
                Verdict::Tle => TestCaseJudgeResult::TimeLimitExceeded,
                Verdict::Mle => TestCaseJudgeResult::MemoryLimitExceeded,
                Verdict::Re => TestCaseJudgeResult::RuntimeError,
                Verdict::Uke => TestCaseJudgeResult::UnknownError,
            };
            TestCaseResult {
                test_case_id: test.id,
                result,
                time_consumption: res.time,
                memory_consumption: clamp_memory(res.memory),
            }
        },
        _ => TestCaseResult {
            test_case_id: test.id,
            result: TestCaseJudgeResult::UnknownError,
            time_consumption: 0,
            memory_consumption: 0,
        },
    }
}

/// The verdicts of a list of test results.
pub open spec fn verdicts(rs: Seq<TestCaseResult>) -> Seq<TestCaseJudgeResult> {
    rs.map_values(|r: TestCaseResult| r.result)
}

pub open spec fn has_verdict(vs: Seq<TestCaseJudgeResult>, v: TestCaseJudgeResult) -> bool {
    exists|i: int| 0 <= i < vs.len() && vs[i] == v
}

/// The verdict of a submission by precedence: all accepted, else any wrong
/// answer, else any time limit, else any memory limit, else a runtime error.
pub open spec fn aggregate_of(vs: Seq<TestCaseJudgeResult>) -> SubmissionResult {
    if forall|i: int| 0 <= i < vs.len() ==> vs[i] == TestCaseJudgeResult::Accepted {
        SubmissionResult::Accepted
    } else if has_verdict(vs, TestCaseJudgeResult::WrongAnswer) {
        SubmissionResult::WrongAnswer
    } else if has_verdict(vs, TestCaseJudgeResult::TimeLimitExceeded) {
        SubmissionResult::TimeLimitExceeded
    } else if has_verdict(vs, TestCaseJudgeResult::MemoryLimitExceeded) {
        SubmissionResult::MemoryLimitExceeded
    } else {
        SubmissionResult::RuntimeError
    }
}

/// The verdict of a submission from the verdicts of its test cases.
pub fn aggregate_verdict(results: &Vec<TestCaseResult>) -> (r: SubmissionResult)
    ensures
        r == aggregate_of(verdicts(results@)),
{
    let ghost vs = verdicts(results@);
    let mut all_accepted = true;
    let mut any_wa = false;
    let mut any_tle = false;
    let mut any_mle = false;
    let mut i: usize = 0;
    while i < results.len()
        invariant
            i <= results@.len(),
            vs == verdicts(results@),
            all_accepted == forall|j: int| 0 <= j < i ==> vs[j] == TestCaseJudgeResult::Accepted,
            any_wa == exists|j: int| 0 <= j < i && vs[j] == TestCaseJudgeResult::WrongAnswer,
            any_tle == exists|j: int| 0 <= j < i && vs[j] == TestCaseJudgeResult::TimeLimitExceeded,
            any_mle == exists|j: int|
                0 <= j < i && vs[j] == TestCaseJudgeResult::MemoryLimitExceeded,
        decreases results@.len() - i,
    {
        let v = results[i].result;
        assert(vs[i as int] == v);
        if v != TestCaseJudgeResult::Accepted {
            all_accepted = false;
        }
        if v == TestCaseJudgeResult::WrongAnswer {
            any_wa = true;
        }
        if v == TestCaseJudgeResult::TimeLimitExceeded {
            any_tle = true;
        }
        if v == TestCaseJudgeResult::MemoryLimitExceeded {
            any_mle = true;
        }
        i = i + 1;
    }
    if all_accepted {
        SubmissionResult::Accepted
    } else if any_wa {
        SubmissionResult::WrongAnswer
    } else if any_tle {
        SubmissionResult::TimeLimitExceeded
    } else if any_mle {
        SubmissionResult::MemoryLimitExceeded
    } else {
        SubmissionResult::RuntimeError
    }
}

/// The sum of the times of a list of test results.
pub open spec fn time_sum(rs: Seq<TestCaseResult>) -> int
    decreases rs.len(),
{
    if rs.len() == 0 {
        0
    } else {
        time_sum(rs.drop_last()) + rs.last().time_consumption
    }
}

/// The largest memory of a list of test results, zero for none.
pub open spec fn peak_memory(rs: Seq<TestCaseResult>) -> i32
    decreases rs.len(),
{
    if rs.len() == 0 {
        0
    } else if rs.len() == 1 {
        rs[0].memory_consumption
    } else if peak_memory(rs.drop_last()) >= rs.last().memory_consumption {
        peak_memory(rs.drop_last())
    } else {
        rs.last().memory_consumption
    }
}

/// The outcome of a judging pass from the results of its test cases, kept in
/// order: the verdict by precedence, the total time (saturated to `i32`), and
/// the peak memory.
pub fn summarize(submission_id: i32, results: Vec<TestCaseResult>) -> (r: JudgeResult)
    ensures
        r.submission_id == submission_id,
        r.result == aggregate_of(verdicts(results@)),
        r.time_consumption == clamp_i32(time_sum(results@)),
        r.memory_consumption == peak_memory(results@),
        r.test_results@ == results@,
{
    let result = aggregate_verdict(&results);
    let mut total: i128 = 0;
    let mut peak: i32 = 0;
    let mut i: usize = 0;
    while i < results.len()
        invariant
            i <= results@.len(),
            total == time_sum(results@.take(i as int)),
            -0x8000_0000 * i <= total <= 0x8000_0000 * i,
            peak == peak_memory(results@.take(i as int)),
        decreases results@.len() - i,
    {
        let r = results[i];
        assert(results@.take(i + 1).drop_last() =~= results@.take(i as int));
        if i == 0 || r.memory_consumption > peak {
            peak = r.memory_consumption;
        }
        total = total + r.time_consumption as i128;
        i = i + 1;
    }
    assert(results@.take(results@.len() as int) =~= results@);
    let time = if total > i32::MAX as i128 {
        i32::MAX
    } else if total < i32::MIN as i128 {
        i32::MIN
    } else {
        total as i32
    };
    JudgeResult {
        submission_id,
        result,
        time_consumption: time,
        memory_consumption: peak,
        test_results: results,
    }
}

/// The ids of a list of test results, in order.
pub open spec fn result_ids(rs: Seq<TestCaseResult>) -> Seq<i32> {
    rs.map_values(|r: TestCaseResult| r.test_case_id)
}

/// The ids of a task's test cases, in order.
pub open spec fn case_ids(ts: Seq<TestCase>) -> Seq<i32> {
    ts.map_values(|t: TestCase| t.id)
}

/// What the run of the `i`-th test case gave; a test case without a run is
/// treated as one that did not run.
pub open spec fn run_at(runs: Seq<Option<Result<JudgerResult, JudgerError>>>, i: int) -> Option<
    ResponseView,
> {
    if 0 <= i < runs.len() {
        run_view(runs[i])
    } else {
        None
    }
}

/// The outcome of a judging pass: one result per test case, in the task's
/// order, from what each run gave.
pub fn judge_tests(
    submission_id: i32,
    tests: &Vec<TestCase>,
    runs: &Vec<Option<Result<JudgerResult, JudgerError>>>,
) -> (r: JudgeResult)
    ensures
        r.submission_id == submission_id,
        r.test_results@.len() == tests@.len(),
        forall|i: int|
            0 <= i < tests@.len() ==> r.test_results@[i] == test_result_of(
                #[trigger] tests@[i].id,
                run_at(runs@, i),
                tests@[i].data.output@,
            ),
        result_ids(r.test_results@) == case_ids(tests@),
        r.result == aggregate_of(verdicts(r.test_results@)),
        r.time_consumption == clamp_i32(time_sum(r.test_results@)),
        r.memory_consumption == peak_memory(r.test_results@),
{
    let not_run: Option<Result<JudgerResult, JudgerError>> = None;
    let mut results: Vec<TestCaseResult> = Vec::new();
    let mut i: usize = 0;
    while i < tests.len()
        invariant
            i <= tests@.len(),
            not_run is None,
            results@.len() == i,
            forall|j: int|
                0 <= j < i ==> results@[j] == test_result_of(
                    #[trigger] tests@[j].id,
                    run_at(runs@, j),
                    tests@[j].data.output@,
                ),
        decreases tests@.len() - i,
    {
        let r = if i < runs.len() {
            test_case_result(&tests[i], &runs[i])
        } else {
            test_case_result(&tests[i], &not_run)
        };
        results.push(r);
        i = i + 1;
    }
    let r = summarize(submission_id, results);
    assert(result_ids(r.test_results@) =~= case_ids(tests@)) by {
        assert forall|j: int| 0 <= j < tests@.len() implies result_ids(r.test_results@)[j]
            == case_ids(tests@)[j] by {
            assert(r.test_results@[j] == test_result_of(
                tests@[j].id,
                run_at(runs@, j),
                tests@[j].data.output@,
            ));
        }
    }
    r
}

/// A judging pass reports each test case of the task exactly once: the ids of
/// its results are the ids of the task's test cases, and they repeat only
/// where the task's own ids do.
pub proof fn lemma_result_ids_are_case_ids(tests: Seq<TestCase>, results: Seq<TestCaseResult>)
    requires
        result_ids(results) == case_ids(tests),
    ensures
        result_ids(results).to_set() == case_ids(tests).to_set(),
        results.len() == tests.len(),
        case_ids(tests).no_duplicates() ==> result_ids(results).no_duplicates(),
{
    assert(result_ids(results).len() == results.len());
    assert(case_ids(tests).len() == tests.len());
}

/// Size of the scratch file system of each execution.
pub const TMPFS_SIZE: &'static str = "256M";

/// The sandbox id of a submission's compilation.
pub open spec fn compile_sandbox_id(submission_id: i32) -> Seq<char> {
    "theoj_judge_"@ + decimal(submission_id as int) + "_compile"@
}

/// The sandbox id of one test run of a submission.
pub open spec fn test_sandbox_id(submission_id: i32, test_id: i32) -> Seq<char> {
    "theoj_judge_"@ + decimal(submission_id as int) + "_test_"@ + decimal(test_id as int)
}

fn compile_id(submission_id: i32) -> (r: String)
    ensures
        r@ == compile_sandbox_id(submission_id),
{
    let mut s = "theoj_judge_".to_owned();
    push_decimal(&mut s, submission_id as i64);
    s.append("_compile");
    s
}

fn test_run_id(submission_id: i32, case_id: i32) -> (r: String)
    ensures
        r@ == test_sandbox_id(submission_id, case_id),
{
    let mut s = "theoj_judge_".to_owned();
    push_decimal(&mut s, submission_id as i64);
    s.append("_test_");
    push_decimal(&mut s, case_id as i64);
    s
}

fn clone_texts(v: &Vec<String>) -> (r: Vec<String>)
    ensures
        r@ == v@,
{
    let mut out: Vec<String> = Vec::new();
    let mut i: usize = 0;
    while i < v.len()
        invariant
            i <= v@.len(),
            out@ == v@.take(i as int),
        decreases v@.len() - i,
    {
        out.push(v[i].clone());
        i = i + 1;
        assert(out@ =~= v@.take(i as int));
    }
    assert(v@.take(v@.len() as int) =~= v@);
    out
}

/// The request of a submission's compilation: the source written under the
/// language's source name, the compiler's command line, the fixed compile
/// ceilings, and the compiled file asked back.
pub open spec fn compile_request_view(
    task: JudgeTask,
    cfg: LanguageConfig,
    settings: SandboxSettings,
) -> RequestView {
    RequestView {
        time_limit_ms: COMPILE_TIME_LIMIT_MS,
        memory_limit_mb: COMPILE_MEMORY_LIMIT_MB,
        pids_limit: COMPILE_PIDS_LIMIT,
        rootfs: settings.rootfs_path@,
        tmpfs_size: TMPFS_SIZE@,
        cgroup: settings.cgroup_base@,
        sandbox_id: compile_sandbox_id(task.submission_id),
        stdin_content: Seq::empty(),
        cmdline: texts_view(cfg.compile.unwrap()@),
        files: seq![(cfg.source@, vstd::utf8::encode_utf8(task.code@), SOURCE_MODE)],
        output_filenames: seq![cfg.compiled@],
    }
}

/// The compilation that a submission needs: none when its language has no
/// compile step.
pub fn plan_compile(task: &JudgeTask, cfg: &LanguageConfig, settings: &SandboxSettings) -> (r:
    Option<SandboxRequest>)
    ensures
        r is None <==> cfg.compile is None,
        r is Some ==> r.unwrap()@ == compile_request_view(*task, *cfg, *settings),
{
    match &cfg.compile {
        None => None,
        Some(cmd) => {
            let source = FileInput::text(cfg.source.as_str(), task.code.as_str(), SOURCE_MODE);
            let mut files: Vec<FileInput> = Vec::new();
            files.push(source);
            let mut outputs: Vec<String> = Vec::new();
            outputs.push(cfg.compiled.clone());
            let q = SandboxRequest {
                time_limit_ms: COMPILE_TIME_LIMIT_MS,
                memory_limit_mb: COMPILE_MEMORY_LIMIT_MB,
                pids_limit: COMPILE_PIDS_LIMIT,
                rootfs: settings.rootfs_path.clone(),
                tmpfs_size: TMPFS_SIZE.to_owned(),
                cgroup: settings.cgroup_base.clone(),
                sandbox_id: compile_id(task.submission_id),
                stdin_content: String::new(),
                cmdline: clone_texts(cmd),
                files,
                output_filenames: outputs,
            };
            assert(q@.files =~= compile_request_view(*task, *cfg, *settings).files);
            assert(q@.output_filenames =~= compile_request_view(*task, *cfg, *settings).output_filenames);
            Some(q)
        },
    }
}

/// The compiled program that test runs are given.
#[derive(Clone, Debug)]
pub enum Artifact {
    /// The language has no compile step.
    NotNeeded,
    /// The compilation succeeded but did not leave the expected file.
    Missing,
    Present(Vec<u8>),
}

/// Where judging stands after the compile step.
#[derive(Clone, Debug)]
pub enum CompileStage {
    /// Judging is over, with this message to report.
    Finished(JudgeToApiMessage),
    /// The test cases are to run with this program.
    Ready(Artifact),
}

/// The content of the first output file named `name`.
pub open spec fn first_output_named(files: Seq<(Seq<char>, Seq<u8>)>, name: Seq<char>) -> Option<
    Seq<u8>,
>
    decreases files.len(),
{
    if files.len() == 0 {
        None
    } else if files[0].0 == name {
        Some(files[0].1)
    } else {
        first_output_named(files.drop_first(), name)
    }
}

fn find_output(files: &Vec<(String, Vec<u8>)>, name: &String) -> (r: Option<usize>)
    ensures
        match first_output_named(crate::judger::outputs_view(files@), name@) {
            None => r is None,
            Some(c) => r is Some && r.unwrap() < files@.len() && files@[r.unwrap() as int].1@ == c,
        },
{
    let ghost all = crate::judger::outputs_view(files@);
    let mut i: usize = 0;
    assert(all.subrange(0, all.len() as int) =~= all);
    while i < files.len()
        invariant
            i <= files@.len(),
            all == crate::judger::outputs_view(files@),
            first_output_named(all, name@) == first_output_named(all.subrange(i as int, all.len() as int), name@),
        decreases files@.len() - i,
    {
        let ghost rest = all.subrange(i as int, all.len() as int);
        assert(rest[0] == (files@[i as int].0@, files@[i as int].1@));
        if files[i].0 == *name {
            return Some(i);
        }
        assert(rest.drop_first() =~= all.subrange(i + 1, all.len() as int));
        i = i + 1;
    }
    None
}

/// The message that ends judging when the runner fails during compilation.
pub open spec fn is_compile_failure(m: JudgeToApiMessage, submission_id: i32) -> bool {
    m matches JudgeToApiMessage::Error(id, _) && id == submission_id
}

/// The result that ends judging when the program does not compile: a compile
/// error with no test results.
pub open spec fn is_compile_error(m: JudgeToApiMessage, submission_id: i32) -> bool {
    match m {
        JudgeToApiMessage::JudgeResult(jr) => jr.submission_id == submission_id && jr.result
            == SubmissionResult::CompileError && jr.time_consumption == 0 && jr.memory_consumption
            == 0 && jr.test_results@.len() == 0,
        _ => false,
    }
}

/// What follows a compilation: a runner failure ends judging with an error
/// message, a verdict other than success ends it with a compile error, and
/// success hands the compiled file, if it came back, to the test runs.
pub fn compile_stage(
    submission_id: i32,
    cfg: &LanguageConfig,
    outcome: &Result<JudgerResult, JudgerError>,
) -> (r: CompileStage)
    ensures
        match outcome {
            Err(_) => r matches CompileStage::Finished(m) && is_compile_failure(m, submission_id),
            Ok(res) => if res.verdict != Verdict::Success {
                r matches CompileStage::Finished(m) && is_compile_error(m, submission_id)
            } else {
                match first_output_named(res@.output_files, cfg.compiled@) {
                    None => r matches CompileStage::Ready(Artifact::Missing),
                    Some(c) => r matches CompileStage::Ready(Artifact::Present(p)) && p@ == c,
                }
            },
        },
{
    match outcome {
        Err(_) => CompileStage::Finished(
            JudgeToApiMessage::Error(submission_id, "Judger error when compiling".to_owned()),
        ),
        Ok(res) => {
            if res.verdict != Verdict::Success {
                CompileStage::Finished(
                    JudgeToApiMessage::JudgeResult(
                        JudgeResult {
                            submission_id,
                            result: SubmissionResult::CompileError,
                            time_consumption: 0,
                            memory_consumption: 0,
                            test_results: Vec::new(),
                        },
                    ),
                )
            } else {
                match find_output(&res.output_files, &cfg.compiled) {
                    None => CompileStage::Ready(Artifact::Missing),
                    Some(k) => CompileStage::Ready(Artifact::Present(res.output_files[k].1.clone())),
                }
            }
        },
    }
}

/// The files that a test run is given.
pub open spec fn artifact_files(a: Artifact, cfg: LanguageConfig) -> Seq<(Seq<char>, Seq<u8>, i32)> {
    match a {
        Artifact::Present(c) => seq![(cfg.compiled@, c@, ARTIFACT_MODE)],
        _ => Seq::empty(),
    }
}

/// The request of one test run: the test's input on standard input, the
/// submission's own time and memory ceilings, and the compiled program if any.
pub open spec fn test_request_view(
    task: JudgeTask,
    test: TestCase,
    cfg: LanguageConfig,
    settings: SandboxSettings,
    a: Artifact,
) -> RequestView {
    RequestView {
        time_limit_ms: task.time_limit,
        memory_limit_mb: task.memory_limit as i64,
        pids_limit: TEST_PIDS_LIMIT,
        rootfs: settings.rootfs_path@,
        tmpfs_size: TMPFS_SIZE@,
        cgroup: settings.cgroup_base@,
        sandbox_id: test_sandbox_id(task.submission_id, test.id),
        stdin_content: test.data.input@,
        cmdline: texts_view(cfg.run@),
        files: artifact_files(a, cfg),
        output_filenames: Seq::empty(),
    }
}

/// The run of one test case; none when the compiled program is missing, in
/// which case the test case gets an unknown error without running.
pub fn plan_test(
    task: &JudgeTask,
    test: &TestCase,
    cfg: &LanguageConfig,
    settings: &SandboxSettings,
    artifact: &Artifact,
) -> (r: Option<SandboxRequest>)
    ensures
        r is None <==> *artifact is Missing,
        r is Some ==> r.unwrap()@ == test_request_view(*task, *test, *cfg, *settings, *artifact),
{
    let mut files: Vec<FileInput> = Vec::new();
    match artifact {
        Artifact::Missing => {
            return None;
        },
        Artifact::NotNeeded => {},
        Artifact::Present(c) => {
            files.push(FileInput { filename: cfg.compiled.clone(), content: c.clone(), mode: ARTIFACT_MODE });
        },
    }
    let q = SandboxRequest {
        time_limit_ms: task.time_limit,
        memory_limit_mb: task.memory_limit as i64,
        pids_limit: TEST_PIDS_LIMIT,
        rootfs: settings.rootfs_path.clone(),
        tmpfs_size: TMPFS_SIZE.to_owned(),
        cgroup: settings.cgroup_base.clone(),
        sandbox_id: test_run_id(task.submission_id, test.id),
        stdin_content: test.data.input.clone(),
        cmdline: clone_texts(&cfg.run),
        files,
        output_filenames: Vec::new(),
    };
    assert(q@.files =~= artifact_files(*artifact, *cfg));
    assert(q@.output_filenames =~= Seq::<Seq<char>>::empty());
    Some(q)
}

/// No language appears twice.
pub open spec fn languages_unique(es: Seq<(Language, LanguageConfig)>) -> bool {
    forall|i: int, j: int| 0 <= i < j < es.len() ==> es[i].0 != es[j].0
}

/// The configured languages, with at most one configuration per language.
pub struct LanguageTable {
    entries: Vec<(Language, LanguageConfig)>,
}

impl LanguageTable {
    /// The table's entries, in the order they were first inserted.
    pub closed spec fn entries(&self) -> Seq<(Language, LanguageConfig)> {
        self.entries@
    }

    pub closed spec fn wf(&self) -> bool {
        languages_unique(self.entries@)
    }

    /// A table with no language.
    pub fn new() -> (r: LanguageTable)
        ensures
            r.wf(),
            r.entries().len() == 0,
    {
        LanguageTable { entries: Vec::new() }
    }

    fn position(&self, lang: Language) -> (r: Option<usize>)
        ensures
            match r {
                Some(k) => k < self.entries().len() && self.entries()[k as int].0 == lang,
                None => forall|j: int| 0 <= j < self.entries().len() ==> self.entries()[j].0 != lang,
            },
    {
        let mut i: usize = 0;
        while i < self.entries.len()
            invariant
                i <= self.entries@.len(),
                forall|j: int| 0 <= j < i ==> self.entries@[j].0 != lang,
            decreases self.entries@.len() - i,
        {
            if self.entries[i].0 == lang {
                return Some(i);
            }
            i = i + 1;
        }
        None
    }

    /// Sets the configuration of `lang`, in place of any earlier one.
    pub fn insert(&mut self, lang: Language, cfg: LanguageConfig)
        requires
            old(self).wf(),
        ensures
            final(self).wf(),
            (exists|k: int|
                0 <= k < old(self).entries().len() && old(self).entries()[k].0 == lang
                    && final(self).entries() == old(self).entries().update(k, (lang, cfg))) || ((
            forall|k: int| 0 <= k < old(self).entries().len() ==> old(self).entries()[k].0 != lang)
                && final(self).entries() == old(self).entries().push((lang, cfg))),
    {
        match self.position(lang) {
            Some(k) => {
                self.entries.set(k, (lang, cfg));
            },
            None => {
                self.entries.push((lang, cfg));
            },
        }
    }

    /// The configuration of `lang`, if it has one.
    pub fn get(&self, lang: Language) -> (r: Option<&LanguageConfig>)
        ensures
            match r {
                Some(c) => exists|k: int|
                    0 <= k < self.entries().len() && self.entries()[k] == (lang, *c),
                None => forall|j: int| 0 <= j < self.entries().len() ==> self.entries()[j].0 != lang,
            },
    {
        match self.position(lang) {
            Some(k) => Some(&self.entries[k].1),
            None => None,
        }
    }

    /// The configured languages, in order.
    pub fn languages(&self) -> (r: Vec<Language>)
        ensures
            r@ == self.entries().map_values(|e: (Language, LanguageConfig)| e.0),
    {
        let mut out: Vec<Language> = Vec::new();
        let mut i: usize = 0;
        while i < self.entries.len()
            invariant
                i <= self.entries@.len(),
                out@ == self.entries@.take(i as int).map_values(|e: (Language, LanguageConfig)| e.0),
            decreases self.entries@.len() - i,
        {
            out.push(self.entries[i].0);
            i = i + 1;
            assert(out@ =~= self.entries@.take(i as int).map_values(|e: (Language, LanguageConfig)| e.0));
        }
        assert(self.entries@.take(self.entries@.len() as int) =~= self.entries@);
        out
    }
}

/// The search path of commands run inside the sandbox's root file system.
pub const CHROOT_PATH: &'static str = "/sbin:/bin:/usr/sbin:/usr/bin:/usr/local/sbin:/usr/local/bin";

/// The shell script that runs an installation command inside the sandbox's
/// root file system, with the sandbox's own search path.
pub fn chroot_script(cmd: &str) -> (r: String)
    ensures
        r@ == "export PATH="@ + CHROOT_PATH@ + " && "@ + cmd@,
{
    let mut s = "export PATH=".to_owned();
    s.append(CHROOT_PATH);
    s.append(" && ");
    s.append(cmd);
    s
}

} // verus!
