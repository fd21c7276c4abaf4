use rust_web_scrapper::error::AppError;

#[test]
fn each_error_has_its_status() {
    assert_eq!(AppError::FetchError(String::new()).status_code(), 400);
    assert_eq!(AppError::ParseError(String::new()).status_code(), 422);
    assert_eq!(AppError::LlmError(String::new()).status_code(), 500);
    assert_eq!(AppError::ConfigError(String::new()).status_code(), 500);
    assert_eq!(AppError::TimeoutError(String::new()).status_code(), 408);
}

#[test]
fn each_error_is_written_with_its_category() {
    assert_eq!(AppError::FetchError("a".to_string()).to_string(), "Failed to fetch data: a");
    assert_eq!(AppError::LlmError("b".to_string()).to_string(), "LLM processing error: b");
    assert_eq!(AppError::ParseError("c".to_string()).to_string(), "Error parsing content: c");
    assert_eq!(AppError::ConfigError("d".to_string()).to_string(), "Configuration error: d");
    assert_eq!(AppError::TimeoutError("e".to_string()).to_string(), "Request timed out: e");
}

#[test]
fn message_is_what_the_error_carries() {
    assert_eq!(AppError::FetchError("a".to_string()).message(), "a");
    assert_eq!(AppError::TimeoutError("e".to_string()).message(), "e");
}

#[test]
fn error_answer_holds_status_and_message() {
    let (status, body) = AppError::ParseError("no body".to_string()).into_response();
    assert_eq!(status, 422);
    assert_eq!(body.error, "no body");
    let (status, body) = AppError::LlmError("down".to_string()).into_response();
    assert_eq!(status, 500);
    assert_eq!(body.error, "down");
}
