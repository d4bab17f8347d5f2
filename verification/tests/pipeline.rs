use gutenfetch::pipeline::{Outcome, PipelineState, tally};
use gutenfetch::report::{classify_status, summary_line};

fn run_to_completion(files: usize, threads: usize, fails: &[usize]) -> PipelineState {
    // Drives the state machine task by task, at most `threads` inside the
    // region at once, failing the identifiers listed in `fails`.
    let mut st = PipelineState::new(files, threads);
    let mut next_id: usize = 1;
    let mut in_region: Vec<usize> = Vec::new();
    while !(in_region.is_empty() && next_id > files) {
        assert!(st.is_wf());
        if st.can_enter() && next_id <= files {
            st.enter();
            in_region.push(next_id);
            next_id += 1;
        } else {
            let id = in_region.remove(0);
            let outcome =
                if fails.contains(&id) { Outcome::Failure } else { Outcome::Success };
            st.settle(outcome);
        }
        assert!(st.active <= st.threads, "concurrency bound violated");
    }
    st
}

#[test]
fn three_files_two_threads_all_succeed() {
    let st = run_to_completion(3, 2, &[]);
    assert_eq!(st.success, 3);
    assert_eq!(st.failure, 0);
    assert_eq!(st.success + st.failure, st.files);
}

#[test]
fn one_of_three_fails() {
    let st = run_to_completion(3, 2, &[2]);
    assert_eq!(st.success, 2);
    assert_eq!(st.failure, 1);
    assert_eq!(st.success + st.failure, st.files);
}

#[test]
fn accounting_holds_for_various_shapes() {
    for files in 0..8usize {
        for threads in 1..4usize {
            let st = run_to_completion(files, threads, &[1, 4]);
            assert_eq!(st.success + st.failure, files);
        }
    }
}

#[test]
fn single_thread_admits_one_at_a_time() {
    let mut st = PipelineState::new(10, 1);
    assert!(st.can_enter());
    st.enter();
    // The one permit is held: nothing else may enter until it settles.
    assert!(!st.can_enter());
    st.settle(Outcome::Success);
    assert!(st.can_enter());
}

#[test]
fn ten_threads_admit_ten_at_once() {
    let mut st = PipelineState::new(10, 10);
    for _ in 0..10 {
        assert!(st.can_enter());
        st.enter();
    }
    assert_eq!(st.active, 10);
    assert!(!st.can_enter());
}

#[test]
fn zero_files_terminates_immediately() {
    let st = PipelineState::new(0, 2);
    assert!(!st.can_enter());
    assert_eq!(st.success + st.failure, st.files);
}

#[test]
fn failure_of_one_task_leaves_others_unchanged() {
    let baseline = run_to_completion(5, 2, &[]);
    let with_failure = run_to_completion(5, 2, &[3]);
    // Only the failing identifier moved between the counters.
    assert_eq!(with_failure.success, baseline.success - 1);
    assert_eq!(with_failure.failure, baseline.failure + 1);
    assert_eq!(with_failure.success + with_failure.failure, baseline.success + baseline.failure);
}

#[test]
fn tally_counts_both_outcomes() {
    let outs = vec![
        Outcome::Success,
        Outcome::Failure,
        Outcome::Success,
        Outcome::Success,
        Outcome::Failure,
    ];
    let (s, f) = tally(&outs);
    assert_eq!(s, 3);
    assert_eq!(f, 2);
    assert_eq!(s + f, outs.len());
}

#[test]
fn tally_of_empty_run() {
    let (s, f) = tally(&Vec::new());
    assert_eq!((s, f), (0, 0));
}

#[test]
fn outcomes_follow_statuses() {
    // The scenario of a 404 on the second of three identifiers.
    let statuses = [200u16, 404, 200];
    let outcomes: Vec<Outcome> = statuses
        .iter()
        .map(|&code| match classify_status(code) {
            Ok(()) => Outcome::Success,
            Err(_) => Outcome::Failure,
        })
        .collect();
    let (s, f) = tally(&outcomes);
    assert_eq!(s, 2);
    assert_eq!(f, 1);
    let msg = classify_status(404).unwrap_err();
    assert!(msg.contains("404"));
}

#[test]
fn summary_of_successful_run() {
    assert_eq!(
        summary_line(3, 40, 2, 3, 0),
        "Downloaded 3 files in 0.04 seconds using 2 threads (3 succeeded, 0 failed)"
    );
}

#[test]
fn summary_with_failures_and_seconds() {
    assert_eq!(
        summary_line(10, 1234, 1, 9, 1),
        "Downloaded 10 files in 1.23 seconds using 1 threads (9 succeeded, 1 failed)"
    );
}

#[test]
fn summary_truncates_to_two_decimals() {
    assert_eq!(
        summary_line(1, 999, 1, 1, 0),
        "Downloaded 1 files in 0.99 seconds using 1 threads (1 succeeded, 0 failed)"
    );
    assert_eq!(
        summary_line(1, 10000, 1, 0, 1),
        "Downloaded 1 files in 10.00 seconds using 1 threads (0 succeeded, 1 failed)"
    );
}
