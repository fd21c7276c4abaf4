use rust_web_scrapper::api::models::{ScrapeRequest, ScrapeResponse};
use rust_web_scrapper::api::response::{error, success};
use rust_web_scrapper::api::routes::{
    check_cache, complete, deadline_exceeded, ensure_markdown_formatting, prepare_summary,
    respond, FetchOutcome, FETCH_TIMEOUT_SECS, REQUEST_TIMEOUT_SECS,
};
use rust_web_scrapper::cache::{Cache, CachedResponse, CACHE_TTL_MS};
use rust_web_scrapper::error::AppError;

fn request(url: &str) -> ScrapeRequest {
    ScrapeRequest { url: url.to_string() }
}

#[test]
fn heading_is_kept_where_there_is_one() {
    assert_eq!(ensure_markdown_formatting("# Title\n\ntext"), "# Title\n\ntext");
    assert_eq!(ensure_markdown_formatting("  ## Sub\n- a \n"), "## Sub\n- a");
}

#[test]
fn short_first_line_becomes_the_title() {
    assert_eq!(
        ensure_markdown_formatting("Short title\nbody text"),
        "# Short title\n\nShort title\nbody text"
    );
    assert_eq!(ensure_markdown_formatting("one line"), "# one line\n\none line");
    assert_eq!(ensure_markdown_formatting("first\r\nsecond"), "# first\n\nfirst\r\nsecond");
}

#[test]
fn long_first_line_gets_the_default_title() {
    let line = "x".repeat(51);
    assert_eq!(
        ensure_markdown_formatting(&line),
        format!("# Website Summary\n\n{}", line)
    );
    let line = "x".repeat(50);
    assert_eq!(ensure_markdown_formatting(&line), format!("# {}\n\n{}", line, line));
}

#[test]
fn title_length_is_measured_in_bytes() {
    let line = "é".repeat(26);
    assert_eq!(
        ensure_markdown_formatting(&line),
        format!("# Website Summary\n\n{}", line)
    );
    let line = "é".repeat(25);
    assert_eq!(ensure_markdown_formatting(&line), format!("# {}\n\n{}", line, line));
}

#[test]
fn empty_summary_gets_the_default_title() {
    assert_eq!(ensure_markdown_formatting(""), "# Website Summary\n\n");
    assert_eq!(ensure_markdown_formatting(" \n\t "), "# Website Summary\n\n");
}

#[test]
fn deadlines_nest() {
    assert_eq!(FETCH_TIMEOUT_SECS, 5);
    assert_eq!(REQUEST_TIMEOUT_SECS, 90);
    assert!(FETCH_TIMEOUT_SECS < REQUEST_TIMEOUT_SECS);
}

#[test]
fn miss_on_an_empty_cache() {
    let cache = Cache::new();
    assert!(check_cache(&cache, &request("https://example.com"), 0).is_none());
}

#[test]
fn repeated_request_is_served_from_the_cache() {
    let mut cache = Cache::new();
    let req = request("https://example.com/page");
    let first = complete(&mut cache, &req, 12, Ok("A summary".to_string()), 1_000).unwrap();
    assert_eq!(first.status, "success");
    assert_eq!(first.summary, "# A summary\n\nA summary");
    assert_eq!(first.word_count, 12);
    assert_eq!(first.scraped_at, 1_000);
    assert_eq!(first.url, "https://example.com/page");

    let again = check_cache(&cache, &req, 1_000 + CACHE_TTL_MS - 1).unwrap();
    assert_eq!(again.status, "success (cached)");
    assert_eq!(again.summary, first.summary);
    assert_eq!(again.word_count, first.word_count);
    assert_eq!(again.url, first.url);
    assert_eq!(again.scraped_at, 1_000 + CACHE_TTL_MS - 1);
}

#[test]
fn stale_summary_is_not_served() {
    let mut cache = Cache::new();
    let req = request("https://example.com/page");
    complete(&mut cache, &req, 12, Ok("# S".to_string()), 1_000).unwrap();
    assert!(check_cache(&cache, &req, 1_000 + CACHE_TTL_MS).is_none());
    assert!(check_cache(&cache, &req, 1_000 + CACHE_TTL_MS + 5).is_none());
}

#[test]
fn new_summary_replaces_the_old_one() {
    let mut cache = Cache::new();
    let req = request("u");
    complete(&mut cache, &req, 1, Ok("# old".to_string()), 0).unwrap();
    complete(&mut cache, &req, 2, Ok("# new".to_string()), 10).unwrap();
    let hit = check_cache(&cache, &req, 20).unwrap();
    assert_eq!(hit.summary, "# new");
    assert_eq!(hit.word_count, 2);
}

#[test]
fn failed_summarization_leaves_the_cache_alone() {
    let mut cache = Cache::new();
    let req = request("u");
    cache.put(
        "u".to_string(),
        CachedResponse { summary: "# kept".to_string(), word_count: 4, timestamp: 0 },
    );
    let failure = AppError::LlmError("Request timed out".to_string());
    match complete(&mut cache, &req, 9, Err(failure), 10) {
        Err(AppError::LlmError(message)) => {
            assert_eq!(message, "LLM API error: LLM processing error: Request timed out")
        }
        _ => panic!("a failed summarization must be an error"),
    }
    let hit = check_cache(&cache, &req, 20).unwrap();
    assert_eq!(hit.summary, "# kept");
    assert_eq!(hit.word_count, 4);

    let mut empty = Cache::new();
    let failure = AppError::LlmError("x".to_string());
    assert!(complete(&mut empty, &req, 9, Err(failure), 10).is_err());
    assert!(check_cache(&empty, &req, 10).is_none());
}

#[test]
fn fetched_page_becomes_a_prompt() {
    let html = "<html><body><article><h1>News</h1><p>two words</p></article></body></html>";
    let job = prepare_summary(FetchOutcome::Fetched(html.to_string())).unwrap();
    assert_eq!(job.word_count, 3);
    assert!(job.prompt.starts_with("The following is the content of a webpage."));
    assert!(job.prompt.ends_with("\n\nNews two words"));
}

#[test]
fn page_without_body_is_a_parse_error() {
    let html = "<html><frameset><frame src=\"a\"></frameset></html>";
    match prepare_summary(FetchOutcome::Fetched(html.to_string())) {
        Err(error) => {
            assert_eq!(error.status_code(), 422);
            match error {
                AppError::ParseError(message) => assert_eq!(message, "no body tag found"),
                other => panic!("unexpected {:?}", other),
            }
        }
        Ok(_) => panic!("a page without a body must fail"),
    }
}

#[test]
fn fetch_past_its_deadline_is_a_fetch_error() {
    match prepare_summary(FetchOutcome::TimedOut) {
        Err(AppError::FetchError(message)) => {
            assert_eq!(message, "HTML fetch timed out after 5 seconds")
        }
        _ => panic!("a fetch past its deadline must be a fetch error"),
    }
    match deadline_exceeded() {
        AppError::TimeoutError(message) => assert_eq!(message, "Request processing timed out"),
        other => panic!("unexpected {:?}", other),
    }
    let inner = prepare_summary(FetchOutcome::TimedOut).err().unwrap();
    assert_eq!(inner.status_code(), 400);
    assert_eq!(deadline_exceeded().status_code(), 408);
}

#[test]
fn failed_fetch_is_a_fetch_error() {
    let failure = AppError::FetchError("dns error".to_string());
    match prepare_summary(FetchOutcome::Failed(failure)) {
        Err(AppError::FetchError(message)) => {
            assert_eq!(message, "Failed to fetch HTML: Failed to fetch data: dns error")
        }
        _ => panic!("a failed fetch must be a fetch error"),
    }
}

#[test]
fn success_answer_carries_the_data() {
    let response = success(5u32, "2024-01-01T00:00:00+00:00".to_string());
    assert_eq!(response.data, Some(5));
    assert_eq!(response.meta.status, "success");
    assert_eq!(response.meta.status_code, 200);
    assert_eq!(response.meta.timestamp, "2024-01-01T00:00:00+00:00");
    assert_eq!(response.meta.message, None);
}

#[test]
fn error_answer_carries_the_message() {
    let response = error::<u32>(422, "no body".to_string(), "t".to_string());
    assert_eq!(response.data, None);
    assert_eq!(response.meta.status, "error");
    assert_eq!(response.meta.status_code, 422);
    assert_eq!(response.meta.timestamp, "t");
    assert_eq!(response.meta.message, Some("no body".to_string()));
}

#[test]
fn respond_reports_each_error_under_its_status() {
    let cases = vec![
        (AppError::FetchError("f".to_string()), 400, "f"),
        (AppError::ParseError("p".to_string()), 422, "p"),
        (AppError::LlmError("l".to_string()), 500, "l"),
        (AppError::ConfigError("c".to_string()), 500, "c"),
        (deadline_exceeded(), 408, "Request processing timed out"),
    ];
    for (failure, code, message) in cases {
        let response = respond(Err(failure), "now".to_string());
        assert!(response.data.is_none());
        assert_eq!(response.meta.status, "error");
        assert_eq!(response.meta.status_code, code);
        assert_eq!(response.meta.message, Some(message.to_string()));
        assert_eq!(response.meta.timestamp, "now");
    }
}

#[test]
fn respond_carries_the_summary() {
    let data = ScrapeResponse {
        url: "u".to_string(),
        summary: "# s".to_string(),
        scraped_at: 3,
        word_count: 4,
        status: "success".to_string(),
    };
    let response = respond(Ok(data), "now".to_string());
    assert_eq!(response.meta.status, "success");
    assert_eq!(response.meta.status_code, 200);
    assert_eq!(response.meta.message, None);
    let data = response.data.unwrap();
    assert_eq!(data.url, "u");
    assert_eq!(data.summary, "# s");
    assert_eq!(data.scraped_at, 3);
    assert_eq!(data.word_count, 4);
}
