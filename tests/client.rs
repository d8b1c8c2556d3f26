use nexus::text::parse_u64;
use nexus::client::{
    backoff_delay_ms, classify_request_error, classify_status, classify_stream_error,
    find_delimiter, is_retryable_status, jittered_delay_ms, parse_event, parse_retry_after,
    parse_sse_events, retry_step, with_jitter, ClientConfig, RetryStep, RetryableError, SseEvent,
    DEFAULT_BASE_URL,
};
use nexus::error::NexusError;

#[test]
fn test_new_creates_client_with_defaults() {
    let client = ClientConfig::new();
    assert_eq!(client.base_url, DEFAULT_BASE_URL);
    assert_eq!(client.max_retries, 3);
}

#[test]
fn test_with_base_url_overrides_default() {
    let client = ClientConfig::new().with_base_url("https://example.com/");
    assert_eq!(client.base_url, "https://example.com");
}

#[test]
fn test_with_base_url_empty_uses_default() {
    let client = ClientConfig::new().with_base_url("");
    assert_eq!(client.base_url, DEFAULT_BASE_URL);
    let client = ClientConfig::new().with_base_url("///");
    assert_eq!(client.base_url, DEFAULT_BASE_URL);
}

#[test]
fn test_with_max_retries_sets_value() {
    let client = ClientConfig::new().with_max_retries(7);
    assert_eq!(client.max_retries, 7);
    assert_eq!(client.base_url, DEFAULT_BASE_URL);
}

#[test]
fn completions_url_joins_once() {
    let client = ClientConfig::new().with_base_url("https://example.com/v1//");
    assert_eq!(client.completions_url(), "https://example.com/v1/chat/completions");
}

#[test]
fn sse_body_with_one_chunk_then_done() {
    let body = "data: {\"id\":\"x\",\"object\":\"chat.completion.chunk\",\"created\":1,\"model\":\"m\",\"choices\":[{\"index\":0,\"delta\":{\"content\":\"hi\"}}]}\n\ndata: [DONE]\n\n";
    let mut buffer = body.as_bytes().to_vec();
    let mut pending = Vec::new();
    let done = parse_sse_events(&mut buffer, &mut pending).expect("frames");
    assert!(done);
    assert!(buffer.is_empty());
    assert_eq!(pending.len(), 1);
    let chunk: serde_json::Value = serde_json::from_str(&pending[0]).expect("chunk json");
    assert_eq!(chunk["choices"][0]["delta"]["content"], "hi");
}

#[test]
fn sse_partial_frame_stays_buffered() {
    let mut buffer = b": comment\nevent: x\n\ndata: a\ndata:b\n\ndata: par".to_vec();
    let mut pending = Vec::new();
    let done = parse_sse_events(&mut buffer, &mut pending).expect("frames");
    assert!(!done);
    assert_eq!(pending, vec!["a\nb".to_string()]);
    assert_eq!(buffer, b"data: par".to_vec());
}

#[test]
fn sse_invalid_utf8_is_an_interruption() {
    let mut buffer = vec![b'd', b'a', 0xff, b'\n', b'\n', b'x'];
    let mut pending = Vec::new();
    let r = parse_sse_events(&mut buffer, &mut pending);
    assert!(matches!(r, Err(NexusError::StreamInterrupted { .. })));
    assert_eq!(buffer, b"x".to_vec());
}

#[test]
fn sse_frames_and_events() {
    assert_eq!(find_delimiter(&b"ab\n\ncd".to_vec()), Some(2));
    assert_eq!(find_delimiter(&b"ab\ncd\n".to_vec()), None);
    assert!(matches!(parse_event("data: [DONE]"), SseEvent::Done));
    assert!(matches!(parse_event("id: 4\nevent: ping"), SseEvent::Empty));
    assert!(matches!(parse_event("data:  x\r\r"), SseEvent::Data(d) if d == " x"));
}

#[test]
fn retryable_statuses() {
    assert!(is_retryable_status(408));
    assert!(is_retryable_status(429));
    assert!(is_retryable_status(500));
    assert!(is_retryable_status(599));
    assert!(!is_retryable_status(400));
    assert!(!is_retryable_status(401));
    assert!(!is_retryable_status(600));
}

#[test]
fn retry_after_is_integer_seconds() {
    assert_eq!(parse_retry_after(Some("42")), Some(42));
    assert_eq!(parse_retry_after(Some("+7")), Some(7));
    assert_eq!(parse_retry_after(Some("Wed, 21 Oct 2015 07:28:00 GMT")), None);
    assert_eq!(parse_retry_after(None), None);
}

#[test]
fn rate_limited_on_every_attempt_gives_up_after_three_retries() {
    let max_retries = ClientConfig::new().max_retries;
    let mut attempt = 0usize;
    let outcome = loop {
        let err = classify_status(429, "429 Too Many Requests", parse_retry_after(Some("42")), "");
        match retry_step(attempt, max_retries, err) {
            RetryStep::Retry { retry } => {
                assert_eq!(retry, attempt);
                attempt += 1;
            }
            RetryStep::GiveUp(e) => break e,
        }
    };
    assert_eq!(attempt, 3);
    assert!(matches!(outcome, NexusError::RateLimited { retry_after: Some(42) }));
    assert_eq!(outcome.exit_code(), 69);
}

#[test]
fn non_retryable_status_is_fatal_at_once() {
    let err = classify_status(401, "401 Unauthorized", None, "unauthorized");
    assert!(!err.is_retryable());
    match retry_step(0, 3, err) {
        RetryStep::GiveUp(NexusError::ApiError { message, status_code }) => {
            assert_eq!(message, "unauthorized");
            assert_eq!(status_code, Some(401));
        }
        other => panic!("unexpected {other:?}"),
    }
    let err = classify_status(503, "503 Service Unavailable", None, "");
    match err {
        RetryableError::Retryable(NexusError::ApiError { message, status_code }) => {
            assert_eq!(message, "request failed with status 503 Service Unavailable");
            assert_eq!(status_code, Some(503));
        }
        other => panic!("unexpected {other:?}"),
    }
}

#[test]
fn request_and_stream_errors() {
    assert!(matches!(
        classify_request_error(true, false, "t"),
        RetryableError::Retryable(NexusError::RequestTimeout { timeout_secs: 60 })
    ));
    assert!(classify_request_error(false, true, "c").is_retryable());
    assert!(!classify_request_error(false, false, "x").is_retryable());
    assert!(matches!(
        classify_stream_error(false, "reset"),
        NexusError::StreamInterrupted { message } if message == "stream error: reset"
    ));
}

#[test]
fn backoff_doubles_up_to_the_cap() {
    assert_eq!(backoff_delay_ms(0), 100);
    assert_eq!(backoff_delay_ms(1), 200);
    assert_eq!(backoff_delay_ms(2), 400);
    assert_eq!(backoff_delay_ms(8), 25600);
    assert_eq!(backoff_delay_ms(9), 30000);
    assert_eq!(backoff_delay_ms(60), 30000);
    assert_eq!(with_jitter(200, 100), 300);
    for _ in 0..20 {
        let d = jittered_delay_ms(0);
        assert!((100..=150).contains(&d));
    }
}

#[test]
fn leftover_bytes_at_the_end_are_an_interruption() {
    assert!(nexus::client::stream_end_error(&Vec::new()).is_none());
    assert!(matches!(
        nexus::client::stream_end_error(&b"data: x".to_vec()),
        Some(NexusError::StreamInterrupted { message }) if message == "stream closed with incomplete event"
    ));
}

#[test]
fn decimal_numbers_read_as_u64_does() {
    assert_eq!(parse_u64("0"), Some(0));
    assert_eq!(parse_u64("18446744073709551615"), Some(u64::MAX));
    assert_eq!(parse_u64("18446744073709551616"), None);
    assert_eq!(parse_u64("99999999999999999999x"), None);
    assert_eq!(parse_u64("+"), None);
    assert_eq!(parse_u64(""), None);
    assert_eq!(parse_u64("-1"), None);
    assert_eq!(parse_u64("1a"), None);
    assert_eq!(parse_u64(" 1"), None);
}
