use payment_gateway::gateway::client::{capture_default, Capture};
use payment_gateway::gateway::models::{
    PaymentProcessorRequest, PaymentRequest, ServiceHealthResponse, SummaryOrigin,
};
use payment_gateway::gateway::repository::{Repository, RetryStep, ATTEMPTS, BACKOFF};
use payment_gateway::gateway::time::{millis, stamp};
use payment_gateway::gateway::vars::{analyst, parse_flag, parse_number, slaves, socket};
use payment_gateway::umbral_socket::command::SendError;
use payment_gateway::umbral_socket::frame::Request;

#[test]
fn the_trigger_defaults_to_200() {
    assert_eq!(payment_gateway::gateway::vars::trigger(None), 200);
    assert_eq!(payment_gateway::gateway::vars::trigger(Some(b"")), 200);
    assert_eq!(payment_gateway::gateway::vars::trigger(Some(b"fast")), 200);
    assert_eq!(payment_gateway::gateway::vars::trigger(Some(b"-1")), 200);
    assert_eq!(payment_gateway::gateway::vars::trigger(Some(b" 150")), 200);
    assert_eq!(payment_gateway::gateway::vars::trigger(Some(b"150")), 150);
    assert_eq!(payment_gateway::gateway::vars::trigger(Some(b"+150")), 150);
    assert_eq!(payment_gateway::gateway::vars::trigger(Some(b"0")), 0);
    assert_eq!(payment_gateway::gateway::vars::trigger(Some(b"340282366920938463463374607431768211455")), u128::MAX);
    assert_eq!(payment_gateway::gateway::vars::trigger(Some(b"340282366920938463463374607431768211456")), 200);
}

#[test]
fn the_workers_default_to_two() {
    assert_eq!(slaves(None), 2);
    assert_eq!(slaves(Some(b"sixteen")), 2);
    assert_eq!(slaves(Some(b"16")), 16);
    assert_eq!(slaves(Some(b"0")), 0);
    assert_eq!(slaves(Some(b"340282366920938463463374607431768211455")), 2);
    assert_eq!(slaves(Some(usize::MAX.to_string().as_bytes())), usize::MAX);
}

#[test]
fn the_analyst_defaults_to_off() {
    assert!(!analyst(None));
    assert!(!analyst(Some(b"false")));
    assert!(!analyst(Some(b"yes")));
    assert!(!analyst(Some(b"TRUE")));
    assert!(!analyst(Some(b"1")));
    assert!(analyst(Some(b"true")));
}

#[test]
fn a_set_socket_path_is_returned_unchanged() {
    assert_eq!(socket(Some("/sockets/gateway.sock".to_string())), "/sockets/gateway.sock");
    assert_eq!(socket(Some(String::new())), "");
    assert_eq!(socket(Some(" /tmp/a b.sock\n".to_string())), " /tmp/a b.sock\n");
}

#[test]
fn numbers_parse_as_the_standard_library_parses_them() {
    for text in ["0", "7", "007", "+7", "+", "", "-7", "7 ", "1_000", "0x10", "++7", "12a", "99999999999999999999999999999999999999999"] {
        assert_eq!(parse_number(text.as_bytes()), text.parse::<u128>().ok(), "{:?}", text);
    }
    for text in ["true", "false", "True", "", "truee", "fals", "0"] {
        assert_eq!(parse_flag(text.as_bytes()), text.parse::<bool>().ok(), "{:?}", text);
    }
}

#[test]
fn a_capture_succeeds_only_on_a_status_from_200_to_299() {
    assert_eq!(capture_default(Some(200), 150), Capture { success: true, elapsed: 150 });
    assert_eq!(capture_default(Some(204), 0), Capture { success: true, elapsed: 0 });
    assert_eq!(capture_default(Some(299), 1), Capture { success: true, elapsed: 1 });
    assert_eq!(capture_default(Some(199), 1), Capture { success: false, elapsed: 1 });
    assert_eq!(capture_default(Some(300), 1), Capture { success: false, elapsed: 1 });
    assert_eq!(capture_default(Some(422), 1), Capture { success: false, elapsed: 1 });
    assert_eq!(capture_default(Some(500), 9_000), Capture { success: false, elapsed: 9_000 });
    assert_eq!(capture_default(None, 30_000), Capture { success: false, elapsed: 30_000 });
}

#[test]
fn a_storage_call_is_tried_three_times() {
    let mut call = Repository::new();
    assert_eq!(call.failed(SendError::Transport), RetryStep::Again);
    assert_eq!(call.failed(SendError::Transport), RetryStep::Again);
    assert_eq!(call.failed(SendError::Transport), RetryStep::StorageUnavailable);
    assert_eq!(call.failed(SendError::Transport), RetryStep::StorageUnavailable);
    assert_eq!(call.failures, 3);
    assert_eq!(ATTEMPTS, 3);
    assert_eq!(BACKOFF, 100);
}

#[test]
fn a_refused_call_is_not_tried_again() {
    let mut call = Repository::new();
    assert_eq!(call.failed(SendError::UnknownCommand), RetryStep::Surface);
    assert_eq!(call.failed(SendError::Handler(500)), RetryStep::Surface);
    assert_eq!(call.failures, 0);
    assert_eq!(call.failed(SendError::Transport), RetryStep::Again);
    assert_eq!(call.failed(SendError::Handler(500)), RetryStep::Surface);
    assert_eq!(call.failures, 1);
}

#[test]
fn storage_requests_name_their_commands() {
    let capture = b"{\"amount\":19.9,\"requestedAt\":\"2025-07-15T12:34:56.000Z\"}".to_vec();
    assert_eq!(
        Repository::insert_default(capture.clone()),
        Request { command: b"SAVE".to_vec(), payload: capture }
    );
    assert_eq!(
        Repository::purge_payments(),
        Request { command: b"PURGE".to_vec(), payload: Vec::new() }
    );
    assert_eq!(
        Repository::get_summary(b"{\"from\":null,\"to\":null}".to_vec()),
        Request { command: b"SUMMARY".to_vec(), payload: b"{\"from\":null,\"to\":null}".to_vec() }
    );
}

#[test]
fn a_failed_summary_gives_an_empty_payload() {
    assert_eq!(Repository::summary_payload(Ok(b"{}".to_vec())), b"{}".to_vec());
    assert_eq!(Repository::summary_payload(Err(SendError::Transport)), Vec::<u8>::new());
    assert_eq!(Repository::summary_payload(Err(SendError::UnknownCommand)), Vec::<u8>::new());
    assert_eq!(Repository::summary_payload(Err(SendError::Handler(500))), Vec::<u8>::new());
}

#[test]
fn a_capture_keeps_the_payment_and_takes_the_time_of_the_attempt() {
    let payment = PaymentRequest { correlation_id: 0x4a79_01b8_7d26_4d9d_aa19_4dc1_c7cf_60b3, amount: 19_900 };
    assert_eq!(
        payment.to_processor_at(1_752_582_896_000),
        PaymentProcessorRequest {
            correlation_id: 0x4a79_01b8_7d26_4d9d_aa19_4dc1_c7cf_60b3,
            amount: 19_900,
            requested_at: 1_752_582_896_000,
        }
    );
    let now = payment.to_processor().unwrap();
    assert_eq!(now.correlation_id, payment.correlation_id);
    assert_eq!(now.amount, 19_900);
    assert!(now.requested_at > 1_700_000_000_000);
    let zero = PaymentRequest { correlation_id: 0, amount: 0 }.to_processor_at(i64::MIN);
    assert_eq!(zero, PaymentProcessorRequest { correlation_id: 0, amount: 0, requested_at: i64::MIN });
}

#[test]
fn plain_values_compare_by_their_fields() {
    let health = ServiceHealthResponse { failing: false, min_response_time: 100 };
    assert_eq!(health, ServiceHealthResponse { failing: false, min_response_time: 100 });
    assert_ne!(health, ServiceHealthResponse { failing: true, min_response_time: 100 });
    let window = SummaryOrigin { total_requests: 1, total_amount: 1_990 };
    assert_eq!(window.total_requests, 1);
    assert_eq!(window.total_amount, 1_990);
}

#[test]
fn a_reading_is_written_with_milliseconds_and_a_closing_z() {
    assert_eq!(
        stamp(Some((1_752_582_896, 123_456_789))),
        Some(b"2025-07-15T12:34:56.123Z".to_vec())
    );
    assert_eq!(stamp(Some((0, 0))), Some(b"1970-01-01T00:00:00.000Z".to_vec()));
    assert_eq!(stamp(Some((0, 999_999_999))), Some(b"1970-01-01T00:00:00.999Z".to_vec()));
    assert_eq!(
        stamp(Some((253_402_300_799, 0))),
        Some(b"9999-12-31T23:59:59.000Z".to_vec())
    );
}

#[test]
fn a_reading_without_a_time_is_not_written() {
    assert_eq!(stamp(None), None);
    assert_eq!(stamp(Some((u64::MAX, 0))), None);
    assert_eq!(stamp(Some((i64::MAX as u64, 0))), None);
    assert_eq!(stamp(Some((i64::MAX as u64 + 1, 0))), None);
    assert_eq!(stamp(Some((0, 2_000_000_000))), None);
}

#[test]
fn a_reading_is_counted_in_milliseconds() {
    assert_eq!(millis(None), None);
    assert_eq!(millis(Some((0, 0))), Some(0));
    assert_eq!(millis(Some((0, 999_999))), Some(0));
    assert_eq!(millis(Some((0, 1_000_000))), Some(1));
    assert_eq!(millis(Some((1_752_582_896, 123_456_789))), Some(1_752_582_896_123));
    assert_eq!(millis(Some((9_223_372_036_854_775, 807_000_000))), Some(i64::MAX));
    assert_eq!(millis(Some((9_223_372_036_854_775, 808_000_000))), None);
    assert_eq!(millis(Some((9_223_372_036_854_776, 0))), None);
    assert_eq!(millis(Some((u64::MAX, u32::MAX))), None);
}
