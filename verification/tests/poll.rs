use github_change_detector::ChangeDetector;
use github_change_detector::CycleStep;
use github_change_detector::DecodeError;
use github_change_detector::Event;
use github_change_detector::EventType;
use github_change_detector::PollResponse;
use github_change_detector::filter_events;
use github_change_detector::parse_events;
use github_change_detector::parse_u64;

fn response(status: u16, poll_interval: Option<&str>, etag: Option<&str>, body: &str) -> PollResponse {
    PollResponse {
        status,
        poll_interval: poll_interval.map(|s| s.to_string()),
        etag: etag.map(|s| s.to_string()),
        body: body.to_string(),
    }
}

fn batch_of(step: CycleStep) -> Vec<Event> {
    match step {
        CycleStep::Batch(events) => events,
        CycleStep::Retry => panic!("expected a batch, got a retry"),
    }
}

fn is_retry(step: &CycleStep) -> bool {
    matches!(step, CycleStep::Retry)
}

const MIXED_BODY: &str = "[{\"type\":\"PushEvent\",\"payload\":{\"push_id\":11}},\
{\"type\":\"ForkEvent\",\"payload\":{}},\
{\"type\":\"PushEvent\",\"payload\":{\"push_id\":22}}]";

#[test]
fn event_type_tag() {
    assert_eq!(EventType::PushEvent.as_str(), "PushEvent");
}

#[test]
fn parse_u64_reads_digits() {
    assert_eq!(parse_u64("120"), Some(120));
    assert_eq!(parse_u64("0"), Some(0));
    assert_eq!(parse_u64("007"), Some(7));
    assert_eq!(parse_u64("18446744073709551615"), Some(u64::MAX));
}

#[test]
fn parse_u64_accepts_leading_plus() {
    assert_eq!(parse_u64("+120"), Some(120));
    assert_eq!(parse_u64("+0"), Some(0));
    assert_eq!(parse_u64("+"), None);
    assert_eq!(parse_u64("++1"), None);
}

#[test]
fn parse_u64_rejects_junk() {
    assert_eq!(parse_u64(""), None);
    assert_eq!(parse_u64("-5"), None);
    assert_eq!(parse_u64("12a"), None);
    assert_eq!(parse_u64(" 12"), None);
    assert_eq!(parse_u64("18446744073709551616"), None);
}

#[test]
fn fresh_detector_state() {
    let det = ChangeDetector::new("lulf", "go-vex", "secret");
    assert_eq!(det.next_eligible_time(), 0);
    assert_eq!(det.current_interval(), 300);
    assert_eq!(det.validation_token(), None);
}

#[test]
fn request_plan_layout() {
    let mut det = ChangeDetector::new("lulf", "go-vex", "secret\n");
    let plan = det.prepare_request(1_000);
    assert_eq!(plan.url, "https://api.github.com/repos/lulf/go-vex/events");
    assert_eq!(plan.authorization, "Bearer secret");
    assert_eq!(plan.if_none_match, None);
    assert_eq!(det.next_eligible_time(), 1_300);
}

#[test]
fn filter_keeps_requested_kind_in_order() {
    let events = parse_events(MIXED_BODY).unwrap();
    assert_eq!(events.len(), 3);
    let pushes = filter_events(events, &EventType::PushEvent);
    assert_eq!(pushes.len(), 2);
    assert_eq!(pushes[0].kind, "PushEvent");
    assert_eq!(pushes[1].kind, "PushEvent");
    assert_eq!(pushes[0].payload().unwrap().push_id, 11);
    assert_eq!(pushes[1].payload().unwrap().push_id, 22);
}

#[test]
fn filter_of_foreign_kinds_is_empty() {
    let events = parse_events("[{\"type\":\"ForkEvent\",\"payload\":{}}]").unwrap();
    let pushes = filter_events(events, &EventType::PushEvent);
    assert!(pushes.is_empty());
}

#[test]
fn payload_shape_mismatch() {
    let events = parse_events("[{\"type\":\"PushEvent\",\"payload\":{\"push_id\":\"nope\"}}]").unwrap();
    assert_eq!(events[0].payload().unwrap_err(), DecodeError::Shape);
    let events = parse_events("[{\"type\":\"PushEvent\",\"payload\":{}}]").unwrap();
    assert_eq!(events[0].payload().unwrap_err(), DecodeError::Shape);
}

#[test]
fn payload_decode_is_repeatable() {
    let events = parse_events("[{\"type\":\"PushEvent\",\"payload\":{\"push_id\":5}}]").unwrap();
    assert_eq!(events[0].payload().unwrap().push_id, 5);
    assert_eq!(events[0].payload().unwrap().push_id, 5);
}

#[test]
fn parse_events_error_kinds() {
    assert_eq!(parse_events("not json").unwrap_err(), DecodeError::Syntax);
    assert_eq!(parse_events("{\"a\":1}").unwrap_err(), DecodeError::Shape);
    assert_eq!(parse_events("[1,2]").unwrap_err(), DecodeError::Shape);
    assert_eq!(parse_events("[{\"payload\":{}}]").unwrap_err(), DecodeError::Shape);
    assert_eq!(parse_events("[{\"type\":\"PushEvent\"}]").unwrap_err(), DecodeError::Shape);
    assert!(parse_events("[]").unwrap().is_empty());
}

#[test]
fn interval_hint_adopted() {
    let mut det = ChangeDetector::new("o", "r", "t");
    let step = det.process_response(100, &response(200, Some("120"), None, "[]"), &EventType::PushEvent);
    assert!(batch_of(step).is_empty());
    assert_eq!(det.current_interval(), 120);
    assert_eq!(det.next_eligible_time(), 220);
}

#[test]
fn plus_prefixed_hint_adopted() {
    let mut det = ChangeDetector::new("o", "r", "t");
    let step = det.process_response(0, &response(304, Some("+90"), None, ""), &EventType::PushEvent);
    assert!(is_retry(&step));
    assert_eq!(det.current_interval(), 90);
}

#[test]
fn payload_value_hands_out_the_raw_payload() {
    let events = parse_events("[{\"type\":\"PushEvent\",\"payload\":{\"push_id\":5}}]").unwrap();
    let raw = events[0].payload_value();
    let expected: serde_json::Value = serde_json::from_str("{\"push_id\":5}").unwrap();
    assert_eq!(raw, expected);
    assert_eq!(events[0].payload_value(), expected);
}

#[test]
fn interval_floor_holds() {
    let mut det = ChangeDetector::new("o", "r", "t");
    for bad in ["0", "-5", "abc", "", "18446744073709551616"] {
        let step = det.process_response(100, &response(304, Some(bad), None, ""), &EventType::PushEvent);
        assert!(is_retry(&step));
        assert_eq!(det.current_interval(), 300);
    }
    assert_eq!(det.next_eligible_time(), 400);
}

#[test]
fn token_overwritten_by_each_carrier() {
    let mut det = ChangeDetector::new("o", "r", "t");
    det.process_response(0, &response(304, None, Some("one"), ""), &EventType::PushEvent);
    assert_eq!(det.validation_token(), Some("one".to_string()));
    det.process_response(0, &response(500, None, Some("two"), ""), &EventType::PushEvent);
    assert_eq!(det.validation_token(), Some("two".to_string()));
    det.process_response(0, &response(304, None, None, ""), &EventType::PushEvent);
    assert_eq!(det.validation_token(), Some("two".to_string()));
}

#[test]
fn conditional_header_follows_token() {
    let mut det = ChangeDetector::new("o", "r", "t");
    det.prepare_request(0);
    det.process_response(0, &response(200, None, None, "[]"), &EventType::PushEvent);
    let plan = det.prepare_request(1);
    assert_eq!(plan.if_none_match, None);
    det.process_response(1, &response(200, None, Some("tag-a"), "[]"), &EventType::PushEvent);
    let plan = det.prepare_request(2);
    assert_eq!(plan.if_none_match, Some("tag-a".to_string()));
}

#[test]
fn not_modified_never_yields_a_batch() {
    let mut det = ChangeDetector::new("o", "r", "t");
    let step = det.process_response(50, &response(304, None, None, ""), &EventType::PushEvent);
    assert!(is_retry(&step));
    assert_eq!(det.next_eligible_time(), 350);
}

#[test]
fn other_statuses_keep_polling() {
    let mut det = ChangeDetector::new("o", "r", "t");
    for status in [201, 401, 403, 429, 500] {
        let step = det.process_response(0, &response(status, None, None, "[]"), &EventType::PushEvent);
        assert!(is_retry(&step));
    }
}

#[test]
fn malformed_success_body_keeps_polling() {
    let mut det = ChangeDetector::new("o", "r", "t");
    let step = det.process_response(
        10,
        &response(200, Some("60"), Some("tag"), "not an array"),
        &EventType::PushEvent,
    );
    assert!(is_retry(&step));
    assert_eq!(det.current_interval(), 60);
    assert_eq!(det.validation_token(), Some("tag".to_string()));
    assert_eq!(det.next_eligible_time(), 70);
    let step = det.process_response(70, &response(200, None, None, "[]"), &EventType::PushEvent);
    assert!(batch_of(step).is_empty());
}

#[test]
fn transport_failure_backs_off_by_current_interval() {
    let mut det = ChangeDetector::new("o", "r", "t");
    det.process_response(0, &response(304, Some("120"), None, ""), &EventType::PushEvent);
    assert_eq!(det.current_interval(), 120);
    det.prepare_request(500);
    det.note_failure(500);
    assert_eq!(det.next_eligible_time(), 620);
    assert_eq!(det.current_interval(), 120);
}

#[test]
fn two_cycle_cadence_scenario() {
    let mut det = ChangeDetector::new("o", "r", "t");
    det.prepare_request(0);
    let step = det.process_response(3, &response(200, Some("120"), None, MIXED_BODY), &EventType::PushEvent);
    let batch = batch_of(step);
    assert_eq!(batch.len(), 2);
    assert_eq!(det.current_interval(), 120);
    assert_eq!(det.next_eligible_time(), 123);
    let plan = det.prepare_request(123);
    assert_eq!(plan.if_none_match, None);
    assert_eq!(det.next_eligible_time(), 423);
    let step = det.process_response(124, &response(304, None, None, ""), &EventType::PushEvent);
    assert!(is_retry(&step));
    assert_eq!(det.next_eligible_time(), 244);
}

#[test]
fn schedule_saturates_instead_of_wrapping() {
    let mut det = ChangeDetector::new("o", "r", "t");
    det.prepare_request(u64::MAX - 10);
    assert_eq!(det.next_eligible_time(), u64::MAX);
    det.note_failure(u64::MAX);
    assert_eq!(det.next_eligible_time(), u64::MAX);
}
