use loadgen::models::dsl_model::{Auth, DslConfig, HttpMethod};
use loadgen::models::metrics::{Classification, RequestOutcome};
use loadgen::utils::hardware::HardwareInfo;
use loadgen::ws::capacity::MIN_FREE_RAM_KB;
use loadgen::ws::session::{
    frame_of, label_of_status, Action, Frame, Incoming, Phase, WsSession,
};

fn config(target: &str, concurrency: u64, duration: u64) -> DslConfig {
    DslConfig {
        name: String::from("session"),
        target: String::from(target),
        method: HttpMethod::GET,
        concurrency,
        duration,
        timeout_ms: Some(500),
        body: None,
        auth: None,
        query_params: None,
        headers: None,
    }
}

fn roomy() -> HardwareInfo {
    HardwareInfo { cpu_cores: 8, total_mem_kb: 16_000_000, free_mem_kb: 8_000_000 }
}

fn response(status: u16, elapsed_ms: u64) -> RequestOutcome {
    RequestOutcome { classification: Classification::HttpStatus(status), elapsed_ms, error_detail: None }
}

fn timeout(elapsed_ms: u64) -> RequestOutcome {
    RequestOutcome {
        classification: Classification::Timeout,
        elapsed_ms,
        error_detail: Some(String::from("Timeout")),
    }
}

fn opened() -> WsSession {
    let mut session = WsSession::new();
    assert_eq!(session.started(0), Some(1));
    session
}

fn running(concurrency: u64, duration: u64) -> WsSession {
    let mut session = opened();
    let actions = session.handle_with(
        Incoming::Text(Some(config("http://localhost:9/ok", concurrency, duration))),
        roomy(),
    );
    assert_eq!(actions.len(), 2);
    session
}

fn error_message(actions: &[Action]) -> &str {
    match actions {
        [Action::Send(Frame::Error { message })] => message,
        other => panic!("{:?}", other),
    }
}

#[test]
fn a_new_session_is_not_yet_opened() {
    let session = WsSession::new();
    assert_eq!(session.current_phase(), Phase::Opening);
    assert!(session.accepted_config().is_none());
    assert!(!session.cancelled());
    assert!(!session.completed());
}

#[test]
fn a_session_is_opened_where_none_is_open() {
    let mut session = WsSession::new();
    assert_eq!(session.started(0), Some(1));
    assert_eq!(session.current_phase(), Phase::AwaitingConfig);
}

#[test]
fn a_second_session_is_not_opened() {
    let mut session = WsSession::new();
    assert_eq!(session.started(1), None);
    assert_eq!(session.current_phase(), Phase::Finalizing);
    // It was never counted, so its end leaves the count as it is.
    assert_eq!(session.stopped(1), 1);
}

#[test]
fn a_session_is_opened_once() {
    let mut session = opened();
    assert_eq!(session.started(0), None);
    assert_eq!(session.current_phase(), Phase::Finalizing);
}

#[test]
fn the_end_of_a_session_frees_its_place() {
    let mut session = opened();
    assert_eq!(session.stopped(1), 0);
    assert_eq!(session.current_phase(), Phase::Finalizing);
    assert!(session.cancelled());
    // Its place is freed once.
    assert_eq!(session.stopped(1), 1);
}

#[test]
fn a_text_that_was_not_decoded_is_answered_with_an_error() {
    let mut session = opened();
    let actions = session.handle_with(Incoming::Text(None), roomy());
    assert_eq!(error_message(&actions), "Invalid config format");
    assert_eq!(session.current_phase(), Phase::AwaitingConfig);
}

#[test]
fn zero_duration_or_concurrency_is_answered_with_an_error() {
    let mut session = opened();
    let actions = session
        .handle_with(Incoming::Text(Some(config("http://localhost:9/ok", 0, 1))), roomy());
    assert_eq!(error_message(&actions), "Invalid config format");
    let actions = session
        .handle_with(Incoming::Text(Some(config("http://localhost:9/ok", 1, 0))), roomy());
    assert_eq!(error_message(&actions), "Invalid config format");
    assert_eq!(session.current_phase(), Phase::AwaitingConfig);
    assert!(session.accepted_config().is_none());
}

#[test]
fn an_invalid_target_or_key_place_is_answered_with_an_error() {
    let mut session = opened();
    let actions = session.handle_with(Incoming::Text(Some(config("ftp://h/", 1, 1))), roomy());
    assert_eq!(error_message(&actions), "Invalid config format");
    let mut c = config("http://localhost:9/ok", 1, 1);
    c.auth = Some(Auth::ApiKey {
        key_name: String::from("k"),
        key_value: String::from("v"),
        add_to: String::from("body"),
    });
    let actions = session.handle_with(Incoming::Text(Some(c)), roomy());
    assert_eq!(error_message(&actions), "Invalid config format");
}

#[test]
fn a_test_beyond_the_capacity_is_answered_with_the_reason() {
    let mut session = opened();
    let scarce =
        HardwareInfo { cpu_cores: 8, total_mem_kb: 16_000_000, free_mem_kb: MIN_FREE_RAM_KB - 1 };
    let actions = session
        .handle_with(Incoming::Text(Some(config("http://localhost:9/ok", 2, 1))), scarce);
    assert_eq!(error_message(&actions), "Insufficient free RAM: 500.00 MB");
    let actions = session
        .handle_with(Incoming::Text(Some(config("http://localhost:9/ok", 25, 1))), roomy());
    assert_eq!(error_message(&actions), "Concurrency 25 is too high for CPU cores 8");
    let tight = HardwareInfo { cpu_cores: 8, total_mem_kb: 16_000_000, free_mem_kb: 600_000 };
    let actions =
        session.handle_with(Incoming::Text(Some(config("http://localhost:9/ok", 20, 1))), tight);
    assert_eq!(
        error_message(&actions),
        "Concurrency 20 requires more RAM than available. Required: 1000.00 MB, Available: 585.94 MB"
    );
    assert_eq!(session.current_phase(), Phase::AwaitingConfig);
}

#[test]
fn the_operator_may_try_again_after_an_error() {
    let mut session = opened();
    session.handle_with(Incoming::Text(None), roomy());
    session.handle_with(Incoming::Text(Some(config("nonsense", 1, 1))), roomy());
    let actions = session
        .handle_with(Incoming::Text(Some(config("http://localhost:9/ok", 2, 1))), roomy());
    assert!(matches!(
        actions.as_slice(),
        [Action::Send(Frame::StartConfig { .. }), Action::StartPool]
    ));
    assert_eq!(session.current_phase(), Phase::Running);
}

#[test]
fn an_accepted_test_is_echoed_and_started() {
    let mut session = opened();
    let actions = session
        .handle_with(Incoming::Text(Some(config("http://localhost:9/ok", 2, 1))), roomy());
    match actions.as_slice() {
        [Action::Send(Frame::StartConfig { hardware }), Action::StartPool] => {
            assert_eq!(*hardware, roomy())
        }
        other => panic!("{:?}", other),
    }
    assert_eq!(session.current_phase(), Phase::Running);
    let kept = session.accepted_config().unwrap();
    assert_eq!(kept.target, "http://localhost:9/ok");
    assert_eq!(kept.concurrency, 2);
    assert_eq!(kept.duration, 1);
    assert_eq!(kept.timeout_ms, Some(500));
}

#[test]
fn a_session_that_was_never_opened_starts_no_test() {
    let mut session = WsSession::new();
    let actions = session
        .handle_with(Incoming::Text(Some(config("http://localhost:9/ok", 2, 1))), roomy());
    assert_eq!(error_message(&actions), "Canal interno n\u{e3}o inicializado");
    assert_eq!(session.current_phase(), Phase::Opening);
    assert!(session.accepted_config().is_none());
    let actions = session.handle_with(Incoming::Text(None), roomy());
    assert_eq!(error_message(&actions), "Invalid config format");
}

#[test]
fn a_text_during_a_test_starts_no_second_pool() {
    let mut session = running(2, 1);
    let actions = session
        .handle_with(Incoming::Text(Some(config("http://other.test/", 3, 9))), roomy());
    assert!(actions.is_empty());
    let actions = session.handle_with(Incoming::Text(None), roomy());
    assert!(actions.is_empty());
    assert_eq!(session.current_phase(), Phase::Running);
    assert_eq!(session.accepted_config().unwrap().target, "http://localhost:9/ok");
}

#[test]
fn a_ping_is_answered_with_its_payload() {
    for mut session in [WsSession::new(), opened(), running(1, 1)] {
        let phase = session.current_phase();
        let actions = session.handle_with(Incoming::Ping(vec![1, 2, 3, 255]), roomy());
        match actions.as_slice() {
            [Action::Pong(payload)] => assert_eq!(payload, &vec![1, 2, 3, 255]),
            other => panic!("{:?}", other),
        }
        assert_eq!(session.current_phase(), phase);
    }
    let mut session = opened();
    let actions = session.handle_with(Incoming::Ping(Vec::new()), roomy());
    assert!(matches!(actions.as_slice(), [Action::Pong(payload)] if payload.is_empty()));
}

#[test]
fn other_messages_are_passed_over() {
    let mut session = running(1, 1);
    assert!(session.handle_with(Incoming::Other, roomy()).is_empty());
    assert_eq!(session.current_phase(), Phase::Running);
}

#[test]
fn each_request_gives_one_progress_frame() {
    let mut session = running(2, 1);
    match session.request_finished(&response(200, 12)) {
        Some(Frame::Process { http_status, error, duration_ms }) => {
            assert_eq!(http_status, Some(200));
            assert_eq!(error, None);
            assert_eq!(duration_ms, 12);
        }
        other => panic!("{:?}", other),
    }
    match session.request_finished(&timeout(5000)) {
        Some(Frame::Process { http_status, error, duration_ms }) => {
            assert_eq!(http_status, None);
            assert_eq!(error, Some(String::from("Timeout")));
            assert_eq!(duration_ms, 5000);
        }
        other => panic!("{:?}", other),
    }
}

#[test]
fn a_progress_frame_of_a_response_has_no_text_of_failure() {
    let outcome = RequestOutcome {
        classification: Classification::HttpStatus(503),
        elapsed_ms: 4,
        error_detail: Some(String::from("ignored")),
    };
    match frame_of(&outcome) {
        Frame::Process { http_status, error, duration_ms } => {
            assert_eq!(http_status, Some(503));
            assert_eq!(error, None);
            assert_eq!(duration_ms, 4);
        }
        other => panic!("{:?}", other),
    }
}

#[test]
fn outcomes_before_a_test_are_passed_over() {
    let mut session = opened();
    assert!(session.request_finished(&response(200, 1)).is_none());
    assert!(session.workers_joined_at(String::from("now")).is_none());
    assert_eq!(session.current_phase(), Phase::AwaitingConfig);
}

#[test]
fn happy_get() {
    let mut session = running(2, 1);
    let mut progress = 0u64;
    for n in 0..120u64 {
        if session.request_finished(&response(200, 10 + n % 3)).is_some() {
            progress += 1;
        }
    }
    session.cancel();
    let summary = match session.workers_joined_at(String::from("2024/05/06 07:08:09")) {
        Some(Frame::FinalMetrics { summary }) => summary,
        other => panic!("{:?}", other),
    };
    assert!(summary.successful_requests >= 100);
    assert_eq!(summary.status_counts, vec![(String::from("200"), summary.total_requests)]);
    assert_eq!(summary.failed_requests, 0);
    assert_eq!(summary.total_requests, progress);
    assert_eq!(summary.target_url, "http://localhost:9/ok");
    assert_eq!(summary.http_method, "GET");
    assert_eq!(summary.duration_secs, 1);
    assert_eq!(summary.concurrency, 2);
    assert_eq!(summary.timestamp, "2024/05/06 07:08:09");
    assert_eq!(summary.throughput_rps.whole, 120);
    assert_eq!(session.current_phase(), Phase::Finalizing);
    assert!(session.completed());
}

#[test]
fn all_timeouts() {
    let mut session = running(4, 1);
    for _ in 0..40 {
        match session.request_finished(&timeout(100)) {
            Some(Frame::Process { http_status, error, duration_ms }) => {
                assert_eq!(http_status, None);
                assert_eq!(error, Some(String::from("Timeout")));
                assert_eq!(duration_ms, 100);
            }
            other => panic!("{:?}", other),
        }
    }
    let summary = match session.workers_joined_at(String::from("now")) {
        Some(Frame::FinalMetrics { summary }) => summary,
        other => panic!("{:?}", other),
    };
    assert_eq!(summary.status_counts, vec![(String::from("REQUEST_ERROR"), summary.total_requests)]);
    assert_eq!(summary.failed_requests, summary.total_requests);
    assert_eq!(summary.total_requests, 40);
}

#[test]
fn mixed_codes() {
    let mut session = running(1, 2);
    for n in 0..30u64 {
        let status = if n % 2 == 0 { 200 } else { 500 };
        assert!(session.request_finished(&response(status, 5)).is_some());
    }
    let summary = match session.workers_joined_at(String::from("now")) {
        Some(Frame::FinalMetrics { summary }) => summary,
        other => panic!("{:?}", other),
    };
    assert_eq!(
        summary.status_counts,
        vec![(String::from("200"), 15), (String::from("500"), 15)]
    );
    assert_eq!(summary.successful_requests, summary.total_requests);
    assert_eq!(summary.throughput_rps.whole, 15);
}

#[test]
fn early_close() {
    let mut session = running(2, 5);
    assert!(session.request_finished(&response(200, 10)).is_some());
    let actions = session.handle_with(Incoming::Close, roomy());
    assert!(matches!(actions.as_slice(), [Action::Cancel, Action::Stop]));
    assert!(session.cancelled());
    assert_eq!(session.current_phase(), Phase::Finalizing);
    // The last request of each worker may still complete; it is not reported.
    assert!(session.request_finished(&response(200, 10)).is_none());
    assert!(session.request_finished(&response(200, 10)).is_none());
    assert_eq!(session.metrics().finalize(&config("http://h/", 1, 1), String::new()).total_requests, 1);
    // No summary is sent for a test that was given up.
    assert!(session.workers_joined_at(String::from("now")).is_none());
    assert!(!session.completed());
}

#[test]
fn close_before_a_test_ends_the_session() {
    let mut session = opened();
    let actions = session.handle_with(Incoming::Close, roomy());
    assert!(matches!(actions.as_slice(), [Action::Cancel, Action::Stop]));
    assert_eq!(session.current_phase(), Phase::Finalizing);
    let actions = session
        .handle_with(Incoming::Text(Some(config("http://localhost:9/ok", 2, 1))), roomy());
    assert!(actions.is_empty());
}

#[test]
fn the_frames_of_a_session_are_in_order() {
    let mut session = opened();
    let mut kinds: Vec<&str> = Vec::new();
    let mut note = |actions: Vec<Action>, kinds: &mut Vec<&str>| {
        for action in actions {
            match action {
                Action::Send(Frame::Error { .. }) => kinds.push("error"),
                Action::Send(Frame::StartConfig { .. }) => kinds.push("start-config"),
                Action::Send(Frame::Process { .. }) => kinds.push("process"),
                Action::Send(Frame::FinalMetrics { .. }) => kinds.push("final_metrics"),
                _ => {}
            }
        }
    };
    note(session.handle_with(Incoming::Text(None), roomy()), &mut kinds);
    note(
        session.handle_with(Incoming::Text(Some(config("http://localhost:9/ok", 2, 1))), roomy()),
        &mut kinds,
    );
    note(
        session.handle_with(Incoming::Text(Some(config("http://localhost:9/ok", 2, 1))), roomy()),
        &mut kinds,
    );
    for n in 0..5u64 {
        if session.request_finished(&response(200, n)).is_some() {
            kinds.push("process");
        }
    }
    let total = match session.workers_joined_at(String::from("now")) {
        Some(Frame::FinalMetrics { summary }) => {
            kinds.push("final_metrics");
            summary.total_requests
        }
        other => panic!("{:?}", other),
    };
    if session.request_finished(&response(200, 1)).is_some() {
        kinds.push("process");
    }
    if session.workers_joined_at(String::from("later")).is_some() {
        kinds.push("final_metrics");
    }
    assert_eq!(
        kinds,
        vec![
            "error",
            "start-config",
            "process",
            "process",
            "process",
            "process",
            "process",
            "final_metrics",
        ]
    );
    assert_eq!(kinds.iter().filter(|k| **k == "process").count() as u64, total);
}

#[test]
fn the_deadline_tells_the_workers_to_stop_and_the_test_goes_on_to_its_summary() {
    let mut session = running(2, 1);
    session.cancel();
    assert!(session.cancelled());
    assert_eq!(session.current_phase(), Phase::Running);
    // A request that was under way is still reported.
    assert!(session.request_finished(&response(200, 3)).is_some());
    assert!(matches!(session.workers_joined(), Some(Frame::FinalMetrics { .. })));
}

#[test]
fn the_summary_bears_the_moment_of_its_making() {
    let mut session = running(1, 1);
    let summary = match session.workers_joined() {
        Some(Frame::FinalMetrics { summary }) => summary,
        other => panic!("{:?}", other),
    };
    // Year, month, day, hour, minute, second.
    let stamp: Vec<char> = summary.timestamp.chars().collect();
    assert_eq!(stamp.len(), 19);
    for (i, c) in stamp.iter().enumerate() {
        match i {
            4 | 7 => assert_eq!(*c, '/'),
            10 => assert_eq!(*c, ' '),
            13 | 16 => assert_eq!(*c, ':'),
            _ => assert!(c.is_ascii_digit()),
        }
    }
}

#[test]
fn a_text_is_held_against_the_machine_as_it_is() {
    let mut session = opened();
    let actions = session.handle(Incoming::Text(Some(config("http://localhost:9/ok", 1, 1))));
    match actions.as_slice() {
        [Action::Send(Frame::StartConfig { hardware }), Action::StartPool] => {
            assert!(hardware.free_mem_kb >= MIN_FREE_RAM_KB);
            assert!(hardware.total_mem_kb >= hardware.free_mem_kb);
            assert_eq!(session.current_phase(), Phase::Running);
        }
        [Action::Send(Frame::Error { message })] => {
            assert!(message.starts_with("Insufficient free RAM: "));
            assert_eq!(session.current_phase(), Phase::AwaitingConfig);
        }
        other => panic!("{:?}", other),
    }
    let actions = session.handle(Incoming::Ping(vec![7]));
    assert!(matches!(actions.as_slice(), [Action::Pong(payload)] if payload == &vec![7]));
}

#[test]
fn a_progress_frame_shows_its_status_or_request_error() {
    assert_eq!(label_of_status(Some(200)), "200");
    assert_eq!(label_of_status(Some(0)), "0");
    assert_eq!(label_of_status(Some(65535)), "65535");
    assert_eq!(label_of_status(None), "REQUEST_ERROR");
}

#[test]
fn a_progress_frame_shows_the_label_that_the_summary_counts() {
    let outcomes = [response(200, 1), timeout(100), response(404, 2), timeout(100)];
    let mut session = running(1, 1);
    let mut shown: Vec<String> = Vec::new();
    for outcome in &outcomes {
        match session.request_finished(outcome) {
            Some(Frame::Process { http_status, .. }) => shown.push(label_of_status(http_status)),
            other => panic!("{:?}", other),
        }
    }
    let summary = match session.workers_joined_at(String::from("now")) {
        Some(Frame::FinalMetrics { summary }) => summary,
        other => panic!("{:?}", other),
    };
    for (label, count) in &summary.status_counts {
        assert_eq!(shown.iter().filter(|l| *l == label).count() as u64, *count);
    }
    assert_eq!(shown, vec!["200", "REQUEST_ERROR", "404", "REQUEST_ERROR"]);
}
