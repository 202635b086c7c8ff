use loadgen::client::Attempt;
use loadgen::executor::{deadline, fold_attempt, worker_step, WorkerStep};
use loadgen::models::dsl_model::{DslConfig, HttpMethod};
use loadgen::models::metrics::{Classification, Metrics};

fn config() -> DslConfig {
    DslConfig {
        name: String::from("executor"),
        target: String::from("http://localhost:9/ok"),
        method: HttpMethod::GET,
        concurrency: 4,
        duration: 1,
        timeout_ms: Some(100),
        body: None,
        auth: None,
        query_params: None,
        headers: None,
    }
}

#[test]
fn the_deadline_is_the_start_plus_the_length() {
    assert_eq!(deadline(0, 0), 0);
    assert_eq!(deadline(1_000, 30), 31_000);
    assert_eq!(deadline(123, 1), 1_123);
}

#[test]
fn the_deadline_does_not_overflow() {
    assert_eq!(deadline(u64::MAX, 1), u64::MAX);
    assert_eq!(deadline(0, u64::MAX), u64::MAX);
    assert_eq!(deadline(u64::MAX - 1000, 1), u64::MAX);
    assert_eq!(deadline(u64::MAX - 1001, 1), u64::MAX - 1);
}

#[test]
fn a_worker_goes_on_until_the_deadline() {
    assert_eq!(worker_step(false, 0, 1_000, 1), WorkerStep::Dispatch);
    assert_eq!(worker_step(false, 999, 1_000, 1), WorkerStep::Dispatch);
    assert_eq!(worker_step(false, 1_000, 1_000, 1), WorkerStep::Exit);
    assert_eq!(worker_step(false, 1_001, 1_000, 1), WorkerStep::Exit);
}

#[test]
fn a_worker_ends_once_told_to_stop() {
    assert_eq!(worker_step(true, 0, 1_000, 1), WorkerStep::Exit);
    assert_eq!(worker_step(true, 5_000, 1_000, 0), WorkerStep::Exit);
}

#[test]
fn a_worker_ends_once_no_session_is_open() {
    assert_eq!(worker_step(false, 0, 1_000, 0), WorkerStep::Exit);
}

#[test]
fn a_timeout_shorter_than_the_latency_gives_timeouts_of_that_length() {
    let c = config();
    let mut metrics = Metrics::new(false);
    // The target sleeps two seconds; each request is given up after 100 ms.
    for measured in [101u128, 100, 117, 2_000] {
        let outcome =
            fold_attempt(&mut metrics, &Attempt::TimedOut, measured, c.effective_timeout_ms());
        assert_eq!(outcome.classification, Classification::Timeout);
        assert_eq!(outcome.elapsed_ms, 100);
    }
    let summary = metrics.finalize(&c, String::from("now"));
    assert_eq!(summary.total_requests, 4);
    assert_eq!(summary.failed_requests, 4);
    assert_eq!(summary.fastest_response_ms, 100);
    assert_eq!(summary.slowest_response_ms, 100);
    assert_eq!(summary.status_counts, vec![(String::from("REQUEST_ERROR"), 4)]);
}

#[test]
fn a_runner_that_counts_timeouts_apart() {
    let c = config();
    let mut metrics = Metrics::new(true);
    fold_attempt(&mut metrics, &Attempt::Response { status: 200 }, 15, 100);
    fold_attempt(&mut metrics, &Attempt::TimedOut, 100, 100);
    fold_attempt(
        &mut metrics,
        &Attempt::Failed { connect: true, timeout: false, closed: false },
        3,
        100,
    );
    fold_attempt(&mut metrics, &Attempt::TimedOut, 100, 100);
    let summary = metrics.finalize(&c, String::from("now"));
    assert_eq!(summary.total_requests, 4);
    assert_eq!(summary.successful_requests, 1);
    assert_eq!(summary.failed_requests, 3);
    assert_eq!(
        summary.status_counts,
        vec![
            (String::from("200"), 1),
            (String::from("TIMEOUT"), 2),
            (String::from("REQUEST_ERROR"), 1),
        ]
    );
}

#[test]
fn each_attempt_is_folded_once() {
    let c = config();
    let mut metrics = Metrics::new(false);
    for n in 1..=50u64 {
        let outcome = fold_attempt(&mut metrics, &Attempt::Response { status: 200 }, n as u128, 100);
        assert_eq!(outcome.elapsed_ms, n);
        assert_eq!(metrics.finalize(&c, String::new()).total_requests, n);
    }
}
