use rxec::output::{store_path, RunOutcome, RunResult};
use rxec::queue::Tasks;
use rxec::schedule::{pacing, policy_of, worker_threads, Policy, Scheduler};

fn strings(v: &[&str]) -> Vec<String> {
    v.iter().map(|s| s.to_string()).collect()
}

fn exited(label: &str, index: u32, out: &[u8]) -> RunResult {
    RunResult {
        label: label.to_string(),
        index,
        outcome: RunOutcome::Exited { code: Some(0), stdout: out.to_vec(), stderr: Vec::new() },
    }
}

#[test]
fn policy_from_parallel_setting() {
    assert_eq!(policy_of(None), Policy::Serial);
    assert_eq!(policy_of(Some(0)), Policy::Unbounded);
    assert_eq!(policy_of(Some(3)), Policy::Capped(3));
}

#[test]
fn pacing_only_when_serial() {
    assert_eq!(pacing(Policy::Serial, 2), Some(2));
    assert_eq!(pacing(Policy::Capped(2), 2), None);
    assert_eq!(pacing(Policy::Unbounded, 2), None);
}

#[test]
fn worker_thread_choice() {
    assert_eq!(worker_threads(Some(4), None), Some(4));
    assert_eq!(worker_threads(None, None), Some(1));
    assert_eq!(worker_threads(None, Some(2)), None);
}

#[test]
fn capped_keeps_width_until_drained() {
    let tasks = Tasks::build(&strings(&["echo"]), &strings(&["a", "b", "c", "d", "e"]), 1).unwrap();
    let (mut s, first) = Scheduler::start(tasks, Policy::Capped(2));
    assert_eq!(first.len(), 2);
    assert_eq!(s.running(), 2);
    let mut admitted = first.len();
    while !s.is_finished() {
        assert!(s.running() <= 2);
        if s.complete().is_some() {
            admitted += 1;
            assert_eq!(s.running(), 2);
        }
    }
    assert_eq!(admitted, 5);
}

#[test]
fn unbounded_admits_all_at_once() {
    let tasks = Tasks::build(&strings(&["echo"]), &strings(&["a", "b", "c"]), 2).unwrap();
    let (mut s, first) = Scheduler::start(tasks, Policy::Capped(0));
    assert_eq!(first.len(), 6);
    for _ in 0..6 {
        assert!(s.complete().is_none());
    }
    assert!(s.is_finished());
}

#[test]
fn echo_two_variants_unbounded() {
    let tasks = Tasks::build(&strings(&["echo"]), &strings(&["a", "b"]), 1).unwrap();
    let (_, first) = Scheduler::start(tasks, policy_of(Some(0)));
    let paths: Vec<String> = first
        .iter()
        .map(|t| store_path("echo-20240101000000", &exited(&t.label, t.index, b"x\n")).unwrap())
        .collect();
    assert_eq!(paths, vec!["echo-20240101000000/a-1.log", "echo-20240101000000/b-1.log"]);
    assert_eq!(first[0].args, strings(&["a"]));
}

#[test]
fn serial_three_repeats() {
    let tasks = Tasks::build(&strings(&["echo"]), &strings(&["x"]), 3).unwrap();
    let policy = policy_of(None);
    assert_eq!(pacing(policy, 2), Some(2));
    let (mut s, first) = Scheduler::start(tasks, policy);
    assert_eq!(first.len(), 1);
    let mut indices = vec![first[0].index];
    while !s.is_finished() {
        assert!(s.running() <= 1);
        if let Some(t) = s.complete() {
            indices.push(t.index);
        }
    }
    assert_eq!(indices, vec![1, 2, 3]);
    let names: Vec<String> = indices.iter().map(|i| store_path("d", &exited("x", *i, b"")).unwrap()).collect();
    assert_eq!(names, vec!["d/x-1.log", "d/x-2.log", "d/x-3.log"]);
}

#[test]
fn timed_out_run_writes_no_log() {
    let r = RunResult { label: "5".to_string(), index: 1, outcome: RunOutcome::TimedOut };
    assert_eq!(store_path("d", &r), None);
}

#[test]
fn failed_runs_write_no_log() {
    let spawn = RunResult { label: "a".to_string(), index: 1, outcome: RunOutcome::SpawnFailed };
    let capture = RunResult { label: "a".to_string(), index: 1, outcome: RunOutcome::CaptureFailed };
    assert_eq!(store_path("d", &spawn), None);
    assert_eq!(store_path("d", &capture), None);
}

#[test]
fn empty_variants_run_nothing() {
    let tasks = Tasks::build(&strings(&["echo"]), &Vec::new(), 1).unwrap();
    let (s, first) = Scheduler::start(tasks, Policy::Serial);
    assert!(first.is_empty());
    assert!(s.is_finished());
}
