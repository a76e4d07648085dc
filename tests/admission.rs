use theoj::admission::{AdmissionGate, TaskScheduler, MAX_CONCURRENT_TASKS};
use theoj::judge::{JudgeTask, Language};

#[test]
fn one_past_capacity_waits_for_a_release() {
    let mut gate = AdmissionGate::new(MAX_CONCURRENT_TASKS);
    for _ in 0..MAX_CONCURRENT_TASKS {
        assert!(gate.try_acquire());
        assert!(gate.running_tasks() <= gate.capacity());
    }
    assert_eq!(gate.running_tasks(), 64);
    assert!(!gate.try_acquire());
    assert_eq!(gate.running_tasks(), 64);
    gate.release();
    assert!(gate.try_acquire());
    assert_eq!(gate.running_tasks(), 64);
}

#[test]
fn load_snapshot_counts_held_permits() {
    let mut gate = AdmissionGate::new(2);
    assert!(gate.try_acquire());
    let load = gate.load_snapshot(2550, 12000);
    assert_eq!(load.running_tasks, 1);
    assert_eq!(load.cpu_usage, 2550);
    assert_eq!(load.memory_usage, 10000);
}

fn task(id: i32) -> JudgeTask {
    JudgeTask { submission_id: id, lang: Language::C, code: String::new(), time_limit: 1, memory_limit: 1, test_cases: vec![] }
}

#[test]
fn task_past_capacity_starts_only_when_one_finishes() {
    let mut s = TaskScheduler::new(MAX_CONCURRENT_TASKS);
    for i in 0..64 {
        assert_eq!(s.submit(task(i)).unwrap().submission_id, i);
    }
    assert_eq!(s.running_tasks(), 64);
    assert!(s.submit(task(64)).is_none());
    assert!(s.submit(task(65)).is_none());
    assert_eq!(s.running_tasks(), 64);
    assert_eq!(s.finish().unwrap().submission_id, 64);
    assert_eq!(s.running_tasks(), 64);
    assert_eq!(s.finish().unwrap().submission_id, 65);
    assert!(s.finish().is_none());
    assert_eq!(s.running_tasks(), 63);
    assert_eq!(s.load_snapshot(0, 0).running_tasks, 63);
}
