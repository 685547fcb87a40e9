use beatsaver_cache::request_manager::{
    begin_attempt, execute_request, receive_reply, settle, Admission, ConcurrencyBudget, Dispatch,
    Execution, RateDecision, RateWindowState, RequestError, RequestManager, QUEUE_CAPACITY,
    RETRY_BACKOFF,
};

const SECOND: u64 = 1_000_000_000;
const WINDOW: u64 = 1_050_000_000;
const START: u64 = 1_700_000_000 * SECOND;

fn client() -> reqwest::Client {
    reqwest::Client::new()
}

fn request(url: &str) -> reqwest::Request {
    client().get(url).build().unwrap()
}

fn build_error() -> reqwest::Error {
    client().get("no url at all").build().unwrap_err()
}

fn response(status: u16) -> reqwest::Response {
    let inner = warp::http::Response::builder().status(status).body("payload").unwrap();
    reqwest::Response::from(inner)
}

fn governor(concurrent: u8, max: u8) -> RequestManager<u32> {
    RequestManager::new(client(), concurrent, max, WINDOW)
}

fn queue(manager: &mut RequestManager<u32>, reply: u32) -> Result<(), RequestError> {
    manager.queue_request(|client| client.get("https://example.com/a").build(), reply)
}

#[test]
fn first_request_opens_a_window() {
    let mut limiter = RateWindowState::new();
    assert_eq!(limiter.last_reset(), 0);
    assert_eq!(limiter.current_window_requests(), 0);
    assert_eq!(limiter.check(START, 9, WINDOW), RateDecision::Proceed);
    assert_eq!(limiter.last_reset(), START);
    assert_eq!(limiter.current_window_requests(), 1);
}

#[test]
fn window_counts_up_to_the_maximum_then_waits_for_the_rest() {
    let mut limiter = RateWindowState::new();
    assert_eq!(limiter.check(START, 3, WINDOW), RateDecision::Proceed);
    assert_eq!(limiter.check(START + 10, 3, WINDOW), RateDecision::Proceed);
    assert_eq!(limiter.check(START + 20, 3, WINDOW), RateDecision::Proceed);
    assert_eq!(limiter.current_window_requests(), 3);
    assert_eq!(limiter.check(START + 50_000_000, 3, WINDOW), RateDecision::Wait(1_000_000_000));
    assert_eq!(limiter.current_window_requests(), 3);
    assert_eq!(limiter.last_reset(), START);
    limiter.restart(START + WINDOW + 7);
    assert_eq!(limiter.current_window_requests(), 1);
    assert_eq!(limiter.last_reset(), START + WINDOW + 7);
}

#[test]
fn window_is_over_only_after_more_than_its_length() {
    let mut limiter = RateWindowState::new();
    assert_eq!(limiter.check(START, 9, WINDOW), RateDecision::Proceed);
    assert_eq!(limiter.check(START + WINDOW, 9, WINDOW), RateDecision::Proceed);
    assert_eq!(limiter.last_reset(), START);
    assert_eq!(limiter.current_window_requests(), 2);
    assert_eq!(limiter.check(START + WINDOW + 1, 9, WINDOW), RateDecision::Proceed);
    assert_eq!(limiter.last_reset(), START + WINDOW + 1);
    assert_eq!(limiter.current_window_requests(), 1);
}

#[test]
fn full_window_at_its_very_end_waits_for_nothing() {
    let mut limiter = RateWindowState::new();
    assert_eq!(limiter.check(START, 1, WINDOW), RateDecision::Proceed);
    assert_eq!(limiter.check(START + WINDOW, 1, WINDOW), RateDecision::Wait(0));
}

#[test]
fn clock_behind_the_window_waits_a_whole_window() {
    let mut limiter = RateWindowState::new();
    assert_eq!(limiter.check(START, 1, WINDOW), RateDecision::Proceed);
    assert_eq!(limiter.check(START - 5, 1, WINDOW), RateDecision::Wait(WINDOW));
    assert_eq!(limiter.last_reset(), START);
}

#[test]
fn maximum_of_zero_still_passes_the_request_that_opens_a_window() {
    let mut limiter = RateWindowState::new();
    assert_eq!(limiter.check(START, 0, WINDOW), RateDecision::Proceed);
    assert_eq!(limiter.check(START + 1, 0, WINDOW), RateDecision::Wait(WINDOW - 1));
}

#[test]
fn burst_across_the_turn_of_a_window_passes_twice_the_maximum() {
    let mut limiter = RateWindowState::new();
    assert_eq!(limiter.check(99, 2, 100), RateDecision::Proceed);
    assert_eq!(limiter.check(100, 2, 100), RateDecision::Proceed);
    assert_eq!(limiter.check(101, 2, 100), RateDecision::Proceed);
    assert_eq!(limiter.check(102, 2, 100), RateDecision::Proceed);
    assert_eq!(limiter.check(103, 2, 100), RateDecision::Wait(98));
}

#[test]
fn sustained_load_passes_the_maximum_per_window() {
    let mut limiter = RateWindowState::new();
    let mut now = START;
    let mut passed: Vec<u64> = Vec::new();
    for _ in 0..40 {
        match limiter.check(now, 9, WINDOW) {
            RateDecision::Proceed => {}
            RateDecision::Wait(rest) => {
                now += rest;
                limiter.restart(now);
            }
        }
        passed.push(now);
        now += 1_000_000;
    }
    for first in 0..passed.len() {
        let within = passed.iter().filter(|at| **at >= passed[first] && **at < passed[first] + WINDOW);
        assert!(within.count() <= 9);
    }
    for first in 0..passed.len() - 18 {
        assert!(passed[first + 18] - passed[first] >= WINDOW);
    }
}

#[test]
fn budget_grants_its_permits_and_no_more() {
    let mut budget = ConcurrencyBudget::new(2);
    assert_eq!(budget.permits(), 2);
    assert_eq!(budget.try_acquire(), Admission::Granted);
    assert_eq!(budget.try_acquire(), Admission::Granted);
    assert_eq!(budget.in_flight(), 2);
    assert_eq!(budget.try_acquire(), Admission::Exhausted);
    assert_eq!(budget.in_flight(), 2);
    budget.release();
    assert_eq!(budget.in_flight(), 1);
    assert_eq!(budget.try_acquire(), Admission::Granted);
}

#[test]
fn budget_without_permits_out_ignores_a_release() {
    let mut budget = ConcurrencyBudget::new(1);
    budget.release();
    assert_eq!(budget.in_flight(), 0);
    assert_eq!(budget.try_acquire(), Admission::Granted);
    assert_eq!(budget.try_acquire(), Admission::Exhausted);
}

#[test]
fn closed_budget_refuses_even_with_permits_left() {
    let mut budget = ConcurrencyBudget::new(3);
    assert!(!budget.is_closed());
    budget.close();
    assert!(budget.is_closed());
    assert_eq!(budget.try_acquire(), Admission::Closed);
    assert_eq!(budget.in_flight(), 0);
}

#[test]
fn empty_governor_is_idle() {
    let mut manager = governor(8, 9);
    assert!(matches!(manager.dispatch(START), Dispatch::Idle));
    assert_eq!(manager.queued(), 0);
    assert_eq!(manager.in_flight(), 0);
}

#[test]
fn submissions_are_dispatched_in_their_order() {
    let mut manager = governor(8, 9);
    for reply in 0..5u32 {
        assert!(manager.submit(Ok(request("https://example.com/a")), reply).is_ok());
    }
    assert_eq!(manager.queued(), 5);
    for reply in 0..5u32 {
        match manager.dispatch(START + reply as u64) {
            Dispatch::Execute(item) => assert_eq!(item.reply, reply),
            other => panic!("expected a request to send, got {:?}", other),
        }
    }
    assert!(matches!(manager.dispatch(START + 9), Dispatch::Idle));
    assert_eq!(manager.in_flight(), 5);
}

#[test]
fn queue_request_builds_with_the_governors_client() {
    let mut manager = governor(8, 9);
    let outcome = manager.queue_request(|client| client.get("https://example.com/maps").build(), 3);
    assert!(outcome.is_ok());
    assert_eq!(manager.queued(), 1);
    match manager.dispatch(START) {
        Dispatch::Execute(item) => {
            assert_eq!(item.reply, 3);
            assert_eq!(item.request.url().as_str(), "https://example.com/maps");
            assert_eq!(item.request.method().as_str(), "GET");
        }
        other => panic!("expected a request to send, got {:?}", other),
    }
}

#[test]
fn request_that_cannot_be_built_is_not_queued() {
    let mut manager = governor(8, 9);
    let outcome = manager.queue_request(|client| client.get("no url at all").build(), 3);
    assert!(matches!(outcome, Err(RequestError::RequestBuildError(_))));
    assert_eq!(manager.queued(), 0);
    let outcome = manager.submit(Err(build_error()), 5);
    assert!(matches!(outcome, Err(RequestError::RequestBuildError(_))));
    assert!(matches!(manager.dispatch(START), Dispatch::Idle));
}

#[test]
fn full_queue_refuses_the_next_submission() {
    let mut manager = governor(8, 9);
    for reply in 0..QUEUE_CAPACITY {
        assert!(queue(&mut manager, reply as u32).is_ok());
    }
    assert_eq!(manager.queued(), 1024);
    let outcome = queue(&mut manager, 5000);
    assert!(matches!(outcome, Err(RequestError::BufferError)));
    assert_eq!(manager.queued(), 1024);
    assert!(matches!(manager.dispatch(START), Dispatch::Execute(_)));
    assert!(queue(&mut manager, 5000).is_ok());
}

#[test]
fn governor_holds_requests_back_when_the_budget_is_out() {
    let mut manager = governor(2, 9);
    for reply in 0..4u32 {
        assert!(queue(&mut manager, reply).is_ok());
    }
    assert!(matches!(manager.dispatch(START), Dispatch::Execute(_)));
    assert!(matches!(manager.dispatch(START), Dispatch::Execute(_)));
    assert_eq!(manager.in_flight(), 2);
    assert!(matches!(manager.dispatch(START), Dispatch::AwaitPermit));
    assert!(matches!(manager.dispatch(START), Dispatch::AwaitPermit));
    assert_eq!(manager.in_flight(), 2);
    assert_eq!(manager.queued(), 1);
    manager.release();
    assert_eq!(manager.in_flight(), 1);
    match manager.dispatch(START + 1) {
        Dispatch::Execute(item) => assert_eq!(item.reply, 2),
        other => panic!("expected a request to send, got {:?}", other),
    }
    assert_eq!(manager.in_flight(), 2);
}

#[test]
fn in_flight_never_exceeds_the_budget_under_load() {
    let mut manager = governor(3, 255);
    let mut now = START;
    let mut sent = 0;
    for round in 0..200u32 {
        assert!(queue(&mut manager, round).is_ok());
        match manager.dispatch(now) {
            Dispatch::Execute(_) => sent += 1,
            Dispatch::AwaitPermit => manager.release(),
            Dispatch::Sleep(rest) => {
                now += rest;
                if let Dispatch::Execute(_) = manager.wake(now) {
                    sent += 1;
                }
            }
            Dispatch::Idle | Dispatch::Resting | Dispatch::Reject(_, _) => {
                panic!("nothing of the kind was due")
            }
        }
        assert!(manager.in_flight() <= 3);
        now += 20_000_000;
    }
    assert!(sent > 3);
}

#[test]
fn governor_sleeps_out_a_full_window_then_starts_a_new_one() {
    let mut manager = governor(8, 2);
    for reply in 0..4u32 {
        assert!(queue(&mut manager, reply).is_ok());
    }
    assert!(matches!(manager.dispatch(START), Dispatch::Execute(_)));
    assert!(matches!(manager.dispatch(START + 50_000_000), Dispatch::Execute(_)));
    match manager.dispatch(START + 250_000_000) {
        Dispatch::Sleep(rest) => assert_eq!(rest, 800_000_000),
        other => panic!("expected a rest, got {:?}", other),
    }
    assert_eq!(manager.queued(), 1);
    assert!(matches!(manager.dispatch(START + 300_000_000), Dispatch::Resting));
    assert!(matches!(manager.dispatch(START + 2 * WINDOW), Dispatch::Resting));
    assert_eq!(manager.queued(), 1);
    assert_eq!(manager.in_flight(), 2);
    match manager.wake(START + WINDOW) {
        Dispatch::Execute(item) => assert_eq!(item.reply, 2),
        other => panic!("expected a request to send, got {:?}", other),
    }
    assert!(matches!(manager.dispatch(START + WINDOW + 1), Dispatch::Execute(_)));
    assert!(matches!(manager.dispatch(START + WINDOW + 2), Dispatch::Idle));
    assert!(matches!(manager.wake(START + WINDOW + 3), Dispatch::Idle));
}

#[test]
fn woken_governor_waits_for_a_permit_like_any_other() {
    let mut manager = governor(1, 1);
    for reply in 0..2u32 {
        assert!(queue(&mut manager, reply).is_ok());
    }
    assert!(matches!(manager.dispatch(START), Dispatch::Execute(_)));
    assert!(matches!(manager.dispatch(START + 1), Dispatch::Sleep(_)));
    assert!(matches!(manager.wake(START + WINDOW), Dispatch::AwaitPermit));
    assert!(matches!(manager.dispatch(START + WINDOW + 1), Dispatch::AwaitPermit));
    manager.release();
    match manager.dispatch(START + WINDOW + 2) {
        Dispatch::Execute(item) => assert_eq!(item.reply, 1),
        other => panic!("expected a request to send, got {:?}", other),
    }
}

#[test]
fn shut_down_budget_rejects_the_submission() {
    let mut manager = governor(8, 9);
    assert!(queue(&mut manager, 11).is_ok());
    manager.shut_down();
    match manager.dispatch(START) {
        Dispatch::Reject(item, error) => {
            assert_eq!(item.reply, 11);
            assert!(matches!(error, RequestError::SemaphoreError));
        }
        other => panic!("expected a rejection, got {:?}", other),
    }
    assert_eq!(manager.in_flight(), 0);
    assert!(matches!(manager.dispatch(START), Dispatch::Idle));
}

#[test]
fn attempt_keeps_a_copy_of_a_plain_request() {
    let attempt = begin_attempt(request("https://example.com/maps/id/2a"));
    assert_eq!(attempt.request.url().as_str(), "https://example.com/maps/id/2a");
    let retry = attempt.retry.expect("a request without a body can be copied");
    assert_eq!(retry.url().as_str(), "https://example.com/maps/id/2a");
    assert_eq!(retry.method().as_str(), "GET");
}

#[test]
fn success_is_delivered_untouched() {
    for status in [200u16, 204, 299] {
        match execute_request(Ok(response(status)), Some(request("https://example.com/a"))) {
            Execution::Deliver(delivered) => assert_eq!(delivered.status().as_u16(), status),
            other => panic!("expected the response, got {:?}", other),
        }
    }
}

#[test]
fn throttled_once_then_served() {
    let attempt = begin_attempt(request("https://example.com/maps/id/2a"));
    let again = match execute_request(Ok(response(429)), attempt.retry) {
        Execution::Retry { wait, request } => {
            assert_eq!(wait, 1_500_000_000);
            assert_eq!(wait, RETRY_BACKOFF);
            request
        }
        other => panic!("expected a retry, got {:?}", other),
    };
    assert_eq!(again.url().as_str(), "https://example.com/maps/id/2a");
    let attempt = begin_attempt(again);
    match execute_request(Ok(response(200)), attempt.retry) {
        Execution::Deliver(delivered) => assert_eq!(delivered.status().as_u16(), 200),
        other => panic!("expected the response, got {:?}", other),
    }
}

#[test]
fn throttled_without_a_copy_fails_after_the_rest() {
    match execute_request(Ok(response(429)), None) {
        Execution::FailAfter { wait, error } => {
            assert_eq!(wait, 1_500_000_000);
            assert!(matches!(error, RequestError::StatusCodeError(429)));
        }
        other => panic!("expected a late failure, got {:?}", other),
    }
}

#[test]
fn unavailable_upstream_fails_at_once() {
    match execute_request(Ok(response(503)), Some(request("https://example.com/a"))) {
        Execution::Fail(RequestError::StatusCodeError(code)) => assert_eq!(code, 503),
        other => panic!("expected a failure, got {:?}", other),
    }
    for status in [199u16, 300, 404, 428, 430, 500] {
        match settle(status, response(status), Some(request("https://example.com/a"))) {
            Execution::Fail(RequestError::StatusCodeError(code)) => assert_eq!(code, status),
            other => panic!("expected a failure, got {:?}", other),
        }
    }
}

#[test]
fn failure_to_send_is_final() {
    match execute_request(Err(build_error()), Some(request("https://example.com/a"))) {
        Execution::Fail(RequestError::ReqwestError(_)) => {}
        other => panic!("expected a failure, got {:?}", other),
    }
}

#[test]
fn reply_that_never_came_is_an_error_of_its_own() {
    assert!(matches!(receive_reply(None), Err(RequestError::RecvError)));
    match receive_reply(Some(Ok(response(200)))) {
        Ok(delivered) => assert_eq!(delivered.status().as_u16(), 200),
        Err(error) => panic!("expected the response, got {:?}", error),
    }
    let failed = receive_reply(Some(Err(RequestError::StatusCodeError(404))));
    assert!(matches!(failed, Err(RequestError::StatusCodeError(404))));
}
