use theoj::executor::{
    aggregate_verdict, compile_stage, judge_tests, outputs_match, plan_compile,
    plan_test, summarize, test_case_result, Artifact, CompileStage, LanguageConfig, LanguageTable,
    SandboxSettings,
};
use theoj::judge::{
    JudgeTask, JudgeToApiMessage, Language, SubmissionResult, TestCase, TestCaseData,
    TestCaseJudgeResult, TestCaseResult,
};
use theoj::judger::{JudgerError, JudgerResult, Verdict};

fn tr(id: i32, result: TestCaseJudgeResult, time: i32, memory: i32) -> TestCaseResult {
    TestCaseResult { test_case_id: id, result, time_consumption: time, memory_consumption: memory }
}

fn verdicts(vs: &[TestCaseJudgeResult]) -> Vec<TestCaseResult> {
    vs.iter().enumerate().map(|(i, v)| tr(i as i32, *v, 0, 0)).collect()
}

fn case(id: i32, input: &str, output: &str) -> TestCase {
    TestCase { id, data: TestCaseData { input: input.to_string(), output: output.to_string() } }
}

fn ran(verdict: Verdict, stdout: &str, time: i32, memory: i64) -> Option<Result<JudgerResult, JudgerError>> {
    Some(Ok(JudgerResult {
        verdict,
        time,
        memory,
        stdout: stdout.to_string(),
        stderr: String::new(),
        output_files: vec![],
    }))
}

fn c_config() -> LanguageConfig {
    LanguageConfig {
        install: None,
        source: "main.c".to_string(),
        compile: Some(vec!["gcc".to_string(), "main.c".to_string(), "-o".to_string(), "main".to_string()]),
        compiled: "main".to_string(),
        run: vec!["./main".to_string()],
    }
}

fn python_config() -> LanguageConfig {
    LanguageConfig {
        install: None,
        source: "main.py".to_string(),
        compile: None,
        compiled: "main.py".to_string(),
        run: vec!["python3".to_string(), "main.py".to_string()],
    }
}

fn settings() -> SandboxSettings {
    SandboxSettings { rootfs_path: "/rootfs".to_string(), cgroup_base: "/cgroup".to_string() }
}

fn task(lang: Language) -> JudgeTask {
    JudgeTask {
        submission_id: 12,
        lang,
        code: "print(42)".to_string(),
        time_limit: 1000,
        memory_limit: 256,
        test_cases: vec![case(3, "", "42"), case(5, "", "43")],
    }
}

#[test]
fn wrong_answer_beats_time_limit() {
    assert_eq!(aggregate_verdict(&verdicts(&[TestCaseJudgeResult::Accepted, TestCaseJudgeResult::WrongAnswer, TestCaseJudgeResult::TimeLimitExceeded])), SubmissionResult::WrongAnswer);
}

#[test]
fn all_accepted_is_accepted() {
    assert_eq!(aggregate_verdict(&verdicts(&[TestCaseJudgeResult::Accepted, TestCaseJudgeResult::Accepted])), SubmissionResult::Accepted);
}

#[test]
fn time_limit_beats_memory_limit() {
    assert_eq!(aggregate_verdict(&verdicts(&[TestCaseJudgeResult::TimeLimitExceeded, TestCaseJudgeResult::MemoryLimitExceeded])), SubmissionResult::TimeLimitExceeded);
}

#[test]
fn unknown_errors_fold_into_runtime_error() {
    assert_eq!(aggregate_verdict(&verdicts(&[TestCaseJudgeResult::Accepted, TestCaseJudgeResult::UnknownError])), SubmissionResult::RuntimeError);
    assert_eq!(aggregate_verdict(&verdicts(&[TestCaseJudgeResult::RuntimeError, TestCaseJudgeResult::MemoryLimitExceeded])), SubmissionResult::MemoryLimitExceeded);
    assert_eq!(aggregate_verdict(&verdicts(&[])), SubmissionResult::Accepted);
}

#[test]
fn trailing_newline_is_ignored() {
    assert!(outputs_match("42\n", "42"));
    assert!(outputs_match("  42 \t\r\n", "\n42"));
}

#[test]
fn inner_whitespace_counts() {
    assert!(!outputs_match("4 2", "42"));
    assert!(!outputs_match("1\n2", "1 2"));
}

#[test]
fn test_verdicts_follow_the_runner() {
    let t = case(7, "", "42");
    assert_eq!(test_case_result(&t, &ran(Verdict::Success, "42\n", 10, 300)), tr(7, TestCaseJudgeResult::Accepted, 10, 300));
    assert_eq!(test_case_result(&t, &ran(Verdict::Success, "4 2", 10, 300)).result, TestCaseJudgeResult::WrongAnswer);
    assert_eq!(test_case_result(&t, &ran(Verdict::Tle, "", 1000, 300)).result, TestCaseJudgeResult::TimeLimitExceeded);
    assert_eq!(test_case_result(&t, &ran(Verdict::Mle, "", 10, 300)).result, TestCaseJudgeResult::MemoryLimitExceeded);
    assert_eq!(test_case_result(&t, &ran(Verdict::Re, "", 10, 300)).result, TestCaseJudgeResult::RuntimeError);
    assert_eq!(test_case_result(&t, &ran(Verdict::Uke, "", 10, 300)).result, TestCaseJudgeResult::UnknownError);
    assert_eq!(test_case_result(&t, &Some(Err(JudgerError::ExitedAbnormally))), tr(7, TestCaseJudgeResult::UnknownError, 0, 0));
    assert_eq!(test_case_result(&t, &None), tr(7, TestCaseJudgeResult::UnknownError, 0, 0));
}

#[test]
fn huge_memory_saturates() {
    let t = case(1, "", "");
    assert_eq!(test_case_result(&t, &ran(Verdict::Success, "", 1, 1i64 << 40)).memory_consumption, i32::MAX);
}

#[test]
fn totals_are_sum_and_peak() {
    let r = summarize(9, vec![
        tr(1, TestCaseJudgeResult::Accepted, 10, 300),
        tr(2, TestCaseJudgeResult::Accepted, 25, 900),
        tr(3, TestCaseJudgeResult::Accepted, 5, 100),
    ]);
    assert_eq!(r.submission_id, 9);
    assert_eq!(r.result, SubmissionResult::Accepted);
    assert_eq!(r.time_consumption, 40);
    assert_eq!(r.memory_consumption, 900);
    assert_eq!(r.test_results.len(), 3);
}

#[test]
fn empty_results_have_zero_totals() {
    let r = summarize(1, vec![]);
    assert_eq!(r.time_consumption, 0);
    assert_eq!(r.memory_consumption, 0);
}

#[test]
fn total_time_saturates() {
    let r = summarize(1, vec![
        tr(1, TestCaseJudgeResult::Accepted, i32::MAX, 0),
        tr(2, TestCaseJudgeResult::Accepted, 10, 0),
    ]);
    assert_eq!(r.time_consumption, i32::MAX);
}

#[test]
fn every_test_case_is_reported_once() {
    let tests = vec![case(11, "", "1"), case(4, "", "2"), case(9, "", "3")];
    let runs = vec![ran(Verdict::Success, "1", 1, 1), None, Some(Err(JudgerError::Io))];
    let r = judge_tests(5, &tests, &runs);
    let ids: Vec<i32> = r.test_results.iter().map(|t| t.test_case_id).collect();
    assert_eq!(ids, vec![11, 4, 9]);
    assert_eq!(r.result, SubmissionResult::RuntimeError);
}

#[test]
fn no_compile_step_means_no_compilation() {
    assert!(plan_compile(&task(Language::Python), &python_config(), &settings()).is_none());
}

#[test]
fn compilation_request() {
    let q = plan_compile(&task(Language::C), &c_config(), &settings()).unwrap();
    assert_eq!(q.sandbox_id, "theoj_judge_12_compile");
    assert_eq!(q.time_limit_ms, 5000);
    assert_eq!(q.memory_limit_mb, 512);
    assert_eq!(q.pids_limit, 128);
    assert_eq!(q.tmpfs_size, "256M");
    assert_eq!(q.rootfs, "/rootfs");
    assert_eq!(q.cgroup, "/cgroup");
    assert_eq!(q.stdin_content, "");
    assert_eq!(q.cmdline, c_config().compile.unwrap());
    assert_eq!(q.files.len(), 1);
    assert_eq!(q.files[0].filename, "main.c");
    assert_eq!(q.files[0].content, b"print(42)".to_vec());
    assert_eq!(q.files[0].mode, 0o644);
    assert_eq!(q.output_filenames, vec!["main".to_string()]);
}

#[test]
fn test_run_request() {
    let t = task(Language::C);
    let q = plan_test(&t, &t.test_cases[1], &c_config(), &settings(), &Artifact::Present(vec![1, 2])).unwrap();
    assert_eq!(q.sandbox_id, "theoj_judge_12_test_5");
    assert_eq!(q.time_limit_ms, 1000);
    assert_eq!(q.memory_limit_mb, 256);
    assert_eq!(q.pids_limit, 16);
    assert_eq!(q.cmdline, vec!["./main".to_string()]);
    assert_eq!(q.files.len(), 1);
    assert_eq!(q.files[0].filename, "main");
    assert_eq!(q.files[0].content, vec![1, 2]);
    assert_eq!(q.files[0].mode, 0o775);
    assert!(q.output_filenames.is_empty());
    let p = plan_test(&t, &t.test_cases[0], &python_config(), &settings(), &Artifact::NotNeeded).unwrap();
    assert!(p.files.is_empty());
    assert!(plan_test(&t, &t.test_cases[0], &c_config(), &settings(), &Artifact::Missing).is_none());
}

#[test]
fn compile_outcomes() {
    let cfg = c_config();
    match compile_stage(12, &cfg, &Err(JudgerError::Io)) {
        CompileStage::Finished(JudgeToApiMessage::Error(id, _)) => assert_eq!(id, 12),
        _ => panic!("expected an error message"),
    }
    let failed = JudgerResult { verdict: Verdict::Re, time: 1, memory: 1, stdout: String::new(), stderr: "error".to_string(), output_files: vec![] };
    match compile_stage(12, &cfg, &Ok(failed)) {
        CompileStage::Finished(JudgeToApiMessage::JudgeResult(r)) => {
            assert_eq!(r.result, SubmissionResult::CompileError);
            assert!(r.test_results.is_empty());
        }
        _ => panic!("expected a compile error"),
    }
    let built = JudgerResult {
        verdict: Verdict::Success,
        time: 1,
        memory: 1,
        stdout: String::new(),
        stderr: String::new(),
        output_files: vec![("other".to_string(), vec![0]), ("main".to_string(), vec![4, 5])],
    };
    match compile_stage(12, &cfg, &Ok(built)) {
        CompileStage::Ready(Artifact::Present(c)) => assert_eq!(c, vec![4, 5]),
        _ => panic!("expected the compiled program"),
    }
    let empty = JudgerResult { verdict: Verdict::Success, time: 1, memory: 1, stdout: String::new(), stderr: String::new(), output_files: vec![] };
    assert!(matches!(compile_stage(12, &cfg, &Ok(empty)), CompileStage::Ready(Artifact::Missing)));
}

#[test]
fn language_lookup() {
    let mut langs = LanguageTable::new();
    langs.insert(Language::C, c_config());
    langs.insert(Language::Python, c_config());
    langs.insert(Language::Python, python_config());
    assert_eq!(langs.languages(), vec![Language::C, Language::Python]);
    assert_eq!(langs.get(Language::Python).unwrap().source, "main.py");
    assert_eq!(langs.get(Language::C).unwrap().source, "main.c");
    assert!(langs.get(Language::Rust).is_none());
}

#[test]
fn install_command_runs_with_sandbox_path() {
    assert_eq!(
        theoj::executor::chroot_script("apk add gcc"),
        "export PATH=/sbin:/bin:/usr/sbin:/usr/bin:/usr/local/sbin:/usr/local/bin && apk add gcc"
    );
}

#[test]
fn missing_runs_still_report_every_case() {
    let tests = vec![case(1, "", "a"), case(2, "", "b")];
    let runs = vec![ran(Verdict::Success, "a", 3, 4)];
    let r = judge_tests(8, &tests, &runs);
    assert_eq!(r.test_results, vec![tr(1, TestCaseJudgeResult::Accepted, 3, 4), tr(2, TestCaseJudgeResult::UnknownError, 0, 0)]);
    let extra = vec![ran(Verdict::Success, "a", 1, 1), ran(Verdict::Success, "b", 1, 1), ran(Verdict::Tle, "", 1, 1)];
    let r = judge_tests(8, &tests, &extra);
    assert_eq!(r.test_results.len(), 2);
    assert_eq!(r.result, SubmissionResult::Accepted);
}
