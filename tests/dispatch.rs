use theoj::dispatch::{DispatchError, JudgeConnection, WorkerRegistry};
use theoj::judge::{JudgeInfo, JudgeLoad, Language};

const NOW: i64 = 1_700_000_000;

fn worker(id: &str, running: u32, cpu: u32, last: i64, langs: Vec<Language>) -> JudgeConnection {
    JudgeConnection {
        info: JudgeInfo {
            judge_id: id.to_string(),
            version: "1.0".to_string(),
            timestamp: last,
            signature: String::new(),
            languages: langs,
        },
        load: JudgeLoad { running_tasks: running, cpu_usage: cpu, memory_usage: 0 },
        last_heartbeat: last,
    }
}

fn three_workers() -> WorkerRegistry {
    let mut reg = WorkerRegistry::new();
    // Scores of 100, 105 and 140 points.
    reg.insert(worker("a", 1, 0, NOW, vec![Language::Cpp]));
    reg.insert(worker("b", 1, 1000, NOW, vec![Language::Cpp]));
    reg.insert(worker("c", 1, 8000, NOW, vec![Language::Cpp]));
    reg
}

#[test]
fn load_score_weights() {
    assert_eq!(worker("a", 1, 0, NOW, vec![]).load_score(), 100_000);
    assert_eq!(worker("b", 1, 1000, NOW, vec![]).load_score(), 105_000);
    assert_eq!(worker("c", 1, 8000, NOW, vec![]).load_score(), 140_000);
    let mut w = worker("d", 2, 5000, NOW, vec![]);
    w.load.memory_usage = 1000;
    assert_eq!(w.load_score(), 200_000 + 25_000 + 3_000);
}

#[test]
fn candidates_within_a_fifth_of_best() {
    let reg = three_workers();
    assert_eq!(reg.select_candidates(Language::Cpp, NOW).unwrap(), vec!["a".to_string(), "b".to_string()]);
}

#[test]
fn selection_stays_among_candidates() {
    let reg = three_workers();
    for _ in 0..200 {
        let id = reg.select_judge(Language::Cpp, NOW).unwrap();
        assert!(id == "a" || id == "b");
    }
}

#[test]
fn stale_worker_is_not_chosen() {
    let mut reg = WorkerRegistry::new();
    reg.insert(worker("old", 0, 0, NOW - 61, vec![Language::C]));
    reg.insert(worker("fresh", 5, 9000, NOW - 59, vec![Language::C]));
    assert_eq!(reg.select_candidates(Language::C, NOW).unwrap(), vec!["fresh".to_string()]);
    for _ in 0..20 {
        assert_eq!(reg.select_judge(Language::C, NOW).unwrap(), "fresh");
    }
}

#[test]
fn no_worker_at_all() {
    let reg = WorkerRegistry::new();
    assert_eq!(reg.select_judge(Language::C, NOW), Err(DispatchError::NoJudge));
}

#[test]
fn no_worker_for_the_language_or_live() {
    let mut reg = WorkerRegistry::new();
    reg.insert(worker("java", 0, 0, NOW, vec![Language::Java]));
    reg.insert(worker("stale", 0, 0, NOW - 60, vec![Language::C]));
    assert_eq!(reg.select_judge(Language::C, NOW), Err(DispatchError::NoneAvailable(Language::C)));
}

#[test]
fn insert_replaces_same_id() {
    let mut reg = WorkerRegistry::new();
    reg.insert(worker("a", 3, 0, NOW - 10, vec![Language::C]));
    reg.insert(worker("a", 0, 0, NOW, vec![Language::Go]));
    assert_eq!(reg.judges.len(), 1);
    assert_eq!(reg.judges[0].info.languages, vec![Language::Go]);
}

#[test]
fn heartbeat_updates_load_and_never_goes_back() {
    let mut reg = WorkerRegistry::new();
    reg.insert(worker("a", 0, 0, NOW, vec![Language::C]));
    let load = JudgeLoad { running_tasks: 4, cpu_usage: 100, memory_usage: 200 };
    assert!(reg.heartbeat(&"a".to_string(), load, NOW + 8));
    assert_eq!(reg.judges[0].load, load);
    assert_eq!(reg.judges[0].last_heartbeat, NOW + 8);
    assert!(reg.heartbeat(&"a".to_string(), load, NOW));
    assert_eq!(reg.judges[0].last_heartbeat, NOW + 8);
    assert!(!reg.heartbeat(&"b".to_string(), load, NOW));
}

#[test]
fn removed_worker_is_gone() {
    let mut reg = three_workers();
    assert!(reg.remove(&"b".to_string()));
    assert!(!reg.remove(&"b".to_string()));
    assert_eq!(reg.position(&"b".to_string()), None);
    assert_eq!(reg.select_candidates(Language::Cpp, NOW).unwrap(), vec!["a".to_string()]);
}
