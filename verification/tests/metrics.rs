use loadgen::models::dsl_model::{DslConfig, HttpMethod};
use loadgen::models::metrics::{
    calculate_median, key_of, key_text, Classification, Median, Metrics, RequestOutcome,
    StatusKey, Summary, Throughput,
};

fn config(duration: u64) -> DslConfig {
    DslConfig {
        name: String::from("metrics"),
        target: String::from("http://localhost:9/ok"),
        method: HttpMethod::POST,
        concurrency: 4,
        duration,
        timeout_ms: Some(500),
        body: None,
        auth: None,
        query_params: None,
        headers: None,
    }
}

fn outcome(classification: Classification, elapsed_ms: u64) -> RequestOutcome {
    RequestOutcome { classification, elapsed_ms, error_detail: None }
}

fn summary_of(timeouts_apart: bool, outcomes: &[(Classification, u64)], duration: u64) -> Summary {
    let mut metrics = Metrics::new(timeouts_apart);
    for (classification, elapsed_ms) in outcomes {
        metrics.record(&outcome(*classification, *elapsed_ms));
    }
    metrics.finalize(&config(duration), String::from("2024/05/06 07:08:09"))
}

fn count_of(summary: &Summary, key: &str) -> Option<u64> {
    summary.status_counts.iter().find(|(k, _)| k == key).map(|(_, n)| *n)
}

const MIXED: [(Classification, u64); 7] = [
    (Classification::HttpStatus(200), 30),
    (Classification::HttpStatus(500), 10),
    (Classification::Timeout, 100),
    (Classification::HttpStatus(200), 20),
    (Classification::ConnectFailure, 5),
    (Classification::ConnectionClosed, 7),
    (Classification::UnknownNetworkError, 9),
];

#[test]
fn nothing_recorded_gives_an_empty_summary() {
    let summary = summary_of(false, &[], 3);
    assert_eq!(summary.total_requests, 0);
    assert_eq!(summary.successful_requests, 0);
    assert_eq!(summary.failed_requests, 0);
    assert_eq!(summary.fastest_response_ms, 0);
    assert_eq!(summary.slowest_response_ms, 0);
    assert_eq!(summary.median_response_ms, Median { lower: 0, upper: 0 });
    assert_eq!(summary.throughput_rps, Throughput { whole: 0, remainder: 0 });
    assert!(summary.status_counts.is_empty());
}

#[test]
fn the_summary_names_the_test() {
    let summary = summary_of(false, &MIXED, 3);
    assert_eq!(summary.target_url, "http://localhost:9/ok");
    assert_eq!(summary.http_method, "POST");
    assert_eq!(summary.duration_secs, 3);
    assert_eq!(summary.concurrency, 4);
    assert_eq!(summary.timestamp, "2024/05/06 07:08:09");
}

#[test]
fn a_response_counts_as_successful_whatever_its_status() {
    let summary = summary_of(false, &MIXED, 3);
    assert_eq!(summary.total_requests, 7);
    assert_eq!(summary.successful_requests, 3);
    assert_eq!(summary.failed_requests, 4);
}

#[test]
fn total_is_successful_plus_failed() {
    for n in 0..MIXED.len() {
        let summary = summary_of(false, &MIXED[..n], 1);
        assert_eq!(summary.total_requests, n as u64);
        assert_eq!(
            summary.total_requests,
            summary.successful_requests + summary.failed_requests
        );
    }
}

#[test]
fn status_counts_sum_to_total() {
    for apart in [false, true] {
        for n in 0..=MIXED.len() {
            let summary = summary_of(apart, &MIXED[..n], 1);
            let sum: u64 = summary.status_counts.iter().map(|(_, c)| *c).sum();
            assert_eq!(sum, summary.total_requests);
        }
    }
}

#[test]
fn status_counts_are_empty_only_without_requests() {
    assert!(summary_of(false, &[], 1).status_counts.is_empty());
    for n in 1..=MIXED.len() {
        assert!(!summary_of(false, &MIXED[..n], 1).status_counts.is_empty());
    }
}

#[test]
fn labels_stand_where_they_first_occurred() {
    let summary = summary_of(false, &MIXED, 3);
    assert_eq!(
        summary.status_counts,
        vec![
            (String::from("200"), 2),
            (String::from("500"), 1),
            (String::from("REQUEST_ERROR"), 4),
        ]
    );
}

#[test]
fn timeouts_counted_apart_have_a_label_of_their_own() {
    let summary = summary_of(true, &MIXED, 3);
    assert_eq!(
        summary.status_counts,
        vec![
            (String::from("200"), 2),
            (String::from("500"), 1),
            (String::from("TIMEOUT"), 1),
            (String::from("REQUEST_ERROR"), 3),
        ]
    );
}

#[test]
fn all_timeouts_are_request_errors() {
    let outcomes = [(Classification::Timeout, 100); 9];
    let summary = summary_of(false, &outcomes, 1);
    assert_eq!(count_of(&summary, "REQUEST_ERROR"), Some(summary.total_requests));
    assert_eq!(summary.failed_requests, summary.total_requests);
    assert_eq!(summary.successful_requests, 0);
    assert_eq!(summary.status_counts.len(), 1);
    assert_eq!(summary.fastest_response_ms, 100);
    assert_eq!(summary.slowest_response_ms, 100);
    assert_eq!(summary.median_response_ms, Median { lower: 100, upper: 100 });
}

#[test]
fn mixed_codes_are_all_successful() {
    let outcomes = [
        (Classification::HttpStatus(200), 3),
        (Classification::HttpStatus(500), 4),
        (Classification::HttpStatus(200), 5),
        (Classification::HttpStatus(500), 6),
    ];
    let summary = summary_of(false, &outcomes, 2);
    assert_eq!(count_of(&summary, "200"), Some(2));
    assert_eq!(count_of(&summary, "500"), Some(2));
    assert_eq!(summary.successful_requests, summary.total_requests);
    assert_eq!(summary.failed_requests, 0);
}

#[test]
fn extremes_are_the_shortest_and_the_longest_time() {
    let summary = summary_of(false, &MIXED, 3);
    assert_eq!(summary.fastest_response_ms, 5);
    assert_eq!(summary.slowest_response_ms, 100);
}

#[test]
fn median_of_an_odd_number_is_the_middle_one() {
    // In order: 5 7 9 10 20 30 100.
    let summary = summary_of(false, &MIXED, 3);
    assert_eq!(summary.median_response_ms, Median { lower: 10, upper: 10 });
}

#[test]
fn median_of_an_even_number_is_between_the_two_middle_ones() {
    // In order: 5 7 10 20 30 100.
    let summary = summary_of(false, &MIXED[..6], 3);
    assert_eq!(summary.median_response_ms, Median { lower: 10, upper: 20 });
}

#[test]
fn median_lies_between_the_extremes() {
    for n in 1..=MIXED.len() {
        let summary = summary_of(false, &MIXED[..n], 1);
        assert!(summary.fastest_response_ms <= summary.median_response_ms.lower);
        assert!(summary.median_response_ms.lower <= summary.median_response_ms.upper);
        assert!(summary.median_response_ms.upper <= summary.slowest_response_ms);
    }
}

#[test]
fn throughput_is_requests_over_seconds() {
    assert_eq!(summary_of(false, &MIXED, 1).throughput_rps, Throughput { whole: 7, remainder: 0 });
    assert_eq!(summary_of(false, &MIXED, 3).throughput_rps, Throughput { whole: 2, remainder: 1 });
    assert_eq!(summary_of(false, &MIXED, 8).throughput_rps, Throughput { whole: 0, remainder: 7 });
}

#[test]
fn finalize_twice_gives_the_same_summary() {
    let mut metrics = Metrics::new(false);
    for (classification, elapsed_ms) in MIXED {
        metrics.record(&outcome(classification, elapsed_ms));
    }
    let first = metrics.finalize(&config(3), String::from("now"));
    let second = metrics.finalize(&config(3), String::from("now"));
    assert_eq!(first.total_requests, second.total_requests);
    assert_eq!(first.successful_requests, second.successful_requests);
    assert_eq!(first.failed_requests, second.failed_requests);
    assert_eq!(first.fastest_response_ms, second.fastest_response_ms);
    assert_eq!(first.slowest_response_ms, second.slowest_response_ms);
    assert_eq!(first.median_response_ms, second.median_response_ms);
    assert_eq!(first.throughput_rps, second.throughput_rps);
    assert_eq!(first.status_counts, second.status_counts);
    assert_eq!(first.timestamp, second.timestamp);
}

#[test]
fn recording_goes_on_after_a_summary() {
    let mut metrics = Metrics::new(false);
    metrics.record(&outcome(Classification::HttpStatus(204), 8));
    let first = metrics.finalize(&config(1), String::from("a"));
    metrics.record(&outcome(Classification::HttpStatus(204), 2));
    let second = metrics.finalize(&config(1), String::from("b"));
    assert_eq!(first.total_requests, 1);
    assert_eq!(second.total_requests, 2);
    assert_eq!(second.fastest_response_ms, 2);
    assert_eq!(second.status_counts, vec![(String::from("204"), 2)]);
}

#[test]
fn the_largest_times_do_not_overflow() {
    let outcomes = [(Classification::HttpStatus(200), u64::MAX); 4];
    let summary = summary_of(false, &outcomes, 1);
    assert_eq!(summary.fastest_response_ms, u64::MAX);
    assert_eq!(summary.slowest_response_ms, u64::MAX);
    assert_eq!(summary.median_response_ms, Median { lower: u64::MAX, upper: u64::MAX });
}

#[test]
fn calculate_median_of_nothing_is_zero() {
    assert_eq!(calculate_median(&[]), Median { lower: 0, upper: 0 });
}

#[test]
fn calculate_median_sorts_first() {
    assert_eq!(calculate_median(&[9]), Median { lower: 9, upper: 9 });
    assert_eq!(calculate_median(&[9, 1]), Median { lower: 1, upper: 9 });
    assert_eq!(calculate_median(&[9, 1, 5]), Median { lower: 5, upper: 5 });
    assert_eq!(calculate_median(&[40, 10, 30, 20]), Median { lower: 20, upper: 30 });
    assert_eq!(calculate_median(&[3, 3, 1, 3, 2]), Median { lower: 3, upper: 3 });
}

#[test]
fn calculate_median_is_the_mean_of_the_middle_ones() {
    let data: [u64; 6] = [12, 7, 3, 25, 8, 100];
    let mut floats: Vec<f64> = data.iter().map(|v| *v as f64).collect();
    floats.sort_by(|a, b| a.partial_cmp(b).unwrap());
    let expected = (floats[2] + floats[3]) / 2.0;
    let m = calculate_median(&data);
    assert_eq!((m.lower as f64 + m.upper as f64) / 2.0, expected);
}

#[test]
fn the_label_of_each_classification() {
    assert_eq!(key_of(Classification::HttpStatus(404), false), StatusKey::Http(404));
    assert_eq!(key_of(Classification::HttpStatus(404), true), StatusKey::Http(404));
    assert_eq!(key_of(Classification::Timeout, false), StatusKey::RequestError);
    assert_eq!(key_of(Classification::Timeout, true), StatusKey::Timeout);
    for apart in [false, true] {
        assert_eq!(key_of(Classification::ConnectFailure, apart), StatusKey::RequestError);
        assert_eq!(key_of(Classification::ConnectionClosed, apart), StatusKey::RequestError);
        assert_eq!(key_of(Classification::UnknownNetworkError, apart), StatusKey::RequestError);
    }
}

#[test]
fn the_text_of_each_label() {
    assert_eq!(key_text(StatusKey::Http(200)), "200");
    assert_eq!(key_text(StatusKey::Http(0)), "0");
    assert_eq!(key_text(StatusKey::Http(65535)), "65535");
    assert_eq!(key_text(StatusKey::RequestError), "REQUEST_ERROR");
    assert_eq!(key_text(StatusKey::Timeout), "TIMEOUT");
}

#[test]
fn the_running_figures_follow_each_record() {
    let mut metrics = Metrics::new(false);
    assert_eq!(metrics.total_requests(), 0);
    assert_eq!(metrics.fastest_response(), None);
    assert_eq!(metrics.slowest_response(), None);
    assert_eq!(metrics.total_duration(), 0);
    metrics.record(&outcome(Classification::HttpStatus(200), 30));
    assert_eq!(metrics.total_requests(), 1);
    assert_eq!(metrics.successful_requests(), 1);
    assert_eq!(metrics.failed_requests(), 0);
    assert_eq!(metrics.fastest_response(), Some(30));
    assert_eq!(metrics.slowest_response(), Some(30));
    assert_eq!(metrics.total_duration(), 30);
    metrics.record(&outcome(Classification::ConnectFailure, 4));
    assert_eq!(metrics.total_requests(), 2);
    assert_eq!(metrics.successful_requests(), 1);
    assert_eq!(metrics.failed_requests(), 1);
    assert_eq!(metrics.fastest_response(), Some(4));
    assert_eq!(metrics.slowest_response(), Some(30));
    assert_eq!(metrics.total_duration(), 34);
}

#[test]
fn the_sum_of_the_largest_times_does_not_overflow() {
    let mut metrics = Metrics::new(false);
    for _ in 0..3 {
        metrics.record(&outcome(Classification::HttpStatus(200), u64::MAX));
    }
    assert_eq!(metrics.total_duration(), 3 * (u64::MAX as u128));
}

#[test]
fn calculate_median_agrees_with_sorting() {
    // A run of values without order, with repeats.
    let mut data: Vec<u64> = Vec::new();
    let mut x: u64 = 12345;
    for _ in 0..1001 {
        x = x.wrapping_mul(6364136223846793005).wrapping_add(1442695040888963407);
        data.push((x >> 33) % 500);
    }
    for len in [1001usize, 1000, 17, 2, 1] {
        let mut sorted = data[..len].to_vec();
        sorted.sort();
        let expected = if len % 2 == 0 {
            Median { lower: sorted[len / 2 - 1], upper: sorted[len / 2] }
        } else {
            Median { lower: sorted[len / 2], upper: sorted[len / 2] }
        };
        assert_eq!(calculate_median(&data[..len]), expected);
    }
}
