use rhermes::api::{error_preview, retry_delay_ms, retry_plan, ApiError};

#[test]
fn api_test_api_error_is_retryable() {
    assert!(ApiError::HttpStatus(500, String::new()).is_retryable());
    assert!(ApiError::HttpStatus(502, String::new()).is_retryable());
    assert!(ApiError::HttpStatus(503, String::new()).is_retryable());
    assert!(!ApiError::HttpStatus(400, String::new()).is_retryable());
    assert!(!ApiError::HttpStatus(401, String::new()).is_retryable());
    assert!(!ApiError::HttpStatus(403, String::new()).is_retryable());
    assert!(!ApiError::HttpStatus(429, String::new()).is_retryable());
    assert!(!ApiError::RetryExhausted.is_retryable());
    assert!(ApiError::Request("timeout".to_string()).is_retryable());
    assert!(!ApiError::Parse("bad json".to_string()).is_retryable());
}

#[test]
fn retry_delays_double() {
    assert_eq!(retry_delay_ms(1), 500);
    assert_eq!(retry_delay_ms(2), 1000);
    assert_eq!(retry_delay_ms(4), 4000);
    assert_eq!(retry_plan(0, 3, &ApiError::HttpStatus(503, String::new())), Some(500));
    assert_eq!(retry_plan(2, 3, &ApiError::HttpStatus(503, String::new())), Some(2000));
    assert_eq!(retry_plan(3, 3, &ApiError::HttpStatus(503, String::new())), None);
    assert_eq!(retry_plan(0, 3, &ApiError::HttpStatus(404, String::new())), None);
}

#[test]
fn preview_keeps_500_chars() {
    let body = "错".repeat(600);
    assert_eq!(error_preview(&body).chars().count(), 500);
    assert_eq!(error_preview("short"), "short");
}

#[test]
fn retry_plan_retries_rate_limit() {
    assert_eq!(retry_plan(0, 3, &ApiError::HttpStatus(429, String::new())), Some(500));
    assert_eq!(retry_plan(3, 3, &ApiError::HttpStatus(429, String::new())), None);
    assert_eq!(retry_plan(0, 3, &ApiError::HttpStatus(400, String::new())), None);
}
