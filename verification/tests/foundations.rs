use datafusion_distributed::duration::duration_nanos;
use datafusion_distributed::status::{RpcStatus, StatusCode};
use datafusion_distributed::text::{parse_decimal, push_byte_list, push_decimal, push_hex16};
use datafusion_distributed::{TaskKey, PLAN_PUBLICATION_ERROR_PREFIX};
use std::time::Duration;

fn decimal(n: u64) -> String {
    let mut out = String::new();
    push_decimal(&mut out, n);
    out
}

#[test]
fn decimals_have_no_leading_zeros() {
    assert_eq!(decimal(0), "0");
    assert_eq!(decimal(9), "9");
    assert_eq!(decimal(10), "10");
    assert_eq!(decimal(1_000_203), "1000203");
    assert_eq!(decimal(u64::MAX), "18446744073709551615");
}

#[test]
fn decimals_are_read_back() {
    for n in [0, 9, 10, 1_000_203, u64::MAX] {
        assert_eq!(parse_decimal(&decimal(n)), Some(n));
    }
    assert_eq!(parse_decimal("007"), Some(7));
    for text in ["", "-1", "+1", "1 ", "1e3", "18446744073709551616"] {
        assert_eq!(parse_decimal(text), None);
    }
}

#[test]
fn fingerprints_have_sixteen_digits() {
    let mut out = "x".to_string();
    push_hex16(&mut out, 0x1234);
    assert_eq!(out, "x0000000000001234");
    let mut out = String::new();
    push_hex16(&mut out, 0xfedc_ba98_7654_3210);
    assert_eq!(out, "fedcba9876543210");
}

#[test]
fn byte_lists_are_shown_like_vectors() {
    for bytes in [vec![], vec![7], vec![1, 2, 3], vec![0, 255, 16]] {
        let mut out = String::new();
        push_byte_list(&mut out, &bytes);
        assert_eq!(out, format!("{bytes:?}"));
    }
}

#[test]
fn task_keys_are_shown_like_their_debug_rendering() {
    let key = TaskKey {
        query_id: vec![1, 2, 3],
        stage_id: 4,
        task_number: 5,
    };
    let mut out = String::new();
    key.push_text(&mut out);
    assert_eq!(out, format!("{key:?}"));
    assert_eq!(
        out,
        "TaskKey { query_id: [1, 2, 3], stage_id: 4, task_number: 5 }"
    );
}

#[test]
fn task_keys_are_the_same_when_all_fields_are() {
    let key = |query_id: Vec<u8>, stage_id, task_number| TaskKey {
        query_id,
        stage_id,
        task_number,
    };
    assert!(key(vec![1], 2, 3).same(&key(vec![1], 2, 3)));
    assert!(!key(vec![1], 2, 3).same(&key(vec![2], 2, 3)));
    assert!(!key(vec![1], 2, 3).same(&key(vec![1, 1], 2, 3)));
    assert!(!key(vec![1], 2, 3).same(&key(vec![1], 3, 3)));
    assert!(!key(vec![1], 2, 3).same(&key(vec![1], 2, 4)));
    assert!(key(vec![1], 2, 3).clone().same(&key(vec![1], 2, 3)));
}

#[test]
fn durations_are_capped() {
    assert_eq!(duration_nanos(Duration::from_micros(7)), 7_000);
    assert_eq!(duration_nanos(Duration::from_nanos(u64::MAX)), u64::MAX);
    assert_eq!(duration_nanos(Duration::MAX), u64::MAX);
}

#[test]
fn counted_nanoseconds_make_the_duration_again() {
    for n in [0, 1, 1_000_000_000, u64::MAX] {
        assert_eq!(duration_nanos(Duration::from_nanos(n)), n);
    }
    let d = Duration::new(3, 4);
    assert_eq!(Duration::from_nanos(duration_nanos(d)), d);
    let long = Duration::from_nanos(u64::MAX) + Duration::from_nanos(1);
    assert_ne!(Duration::from_nanos(duration_nanos(long)), long);
    assert!(duration_nanos(d) <= duration_nanos(long));
}

#[test]
fn status_codes_keep_their_numbers() {
    for number in 0..17 {
        assert_eq!(StatusCode::from_number(number).number(), number);
        assert_eq!(
            tonic::Code::from(StatusCode::from_number(number).number()) as i32,
            number
        );
    }
    assert_eq!(StatusCode::from_number(17), StatusCode::Unknown);
    assert_eq!(StatusCode::from_number(-1), StatusCode::Unknown);
}

#[test]
fn statuses_are_shown_as_on_the_wire() {
    let status = RpcStatus::new(StatusCode::Cancelled, "boom".to_string());
    assert_eq!(
        status.to_text(),
        "code: 'The operation was cancelled', message: \"boom\""
    );
    assert_eq!(
        status.to_text(),
        tonic::Status::cancelled("boom").to_string()
    );
    let status = RpcStatus::new(StatusCode::Internal, String::new());
    assert_eq!(status.to_text(), "code: 'Internal error'");
}

#[test]
fn statuses_show_their_source() {
    let status = RpcStatus {
        code: StatusCode::Unavailable,
        message: "lost".to_string(),
        details: vec![1],
        metadata: vec![("retry-after".to_string(), vec![51])],
        source: Some("Error(Io)".to_string()),
    };
    assert_eq!(
        status.to_text(),
        "code: 'The service is currently unavailable', message: \"lost\", source: Error(Io)"
    );
    assert_eq!(status.clone(), status);
}

#[test]
fn publication_errors_have_a_stable_marker() {
    assert_eq!(
        PLAN_PUBLICATION_ERROR_PREFIX,
        "[datafusion-distributed:plan-publication]"
    );
}
