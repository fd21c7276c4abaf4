use crate::api::models::{ScrapeRequest, ScrapeResponse, ScrapeResponseView};
use crate::api::response::{error, success, ApiResponse, ResponseMetaView};
use crate::cache::{lookup, Cache, CachedResponse, CachedResponseView, CACHE_TTL_MS};
use crate::error::{AppError, AppErrorView};
use crate::scraper::{
    body_selector, build_prompt, extract, extracted_text, first_match, fits, no_body_message,
    prompt_preamble,
};
use crate::text::{first_line, first_line_of, trim, trimmed, words};
use vstd::string::StrSliceExecFns;
use vstd::prelude::*;
use vstd::string::StringSliceAdditionalSpecFns;
use vstd::utf8::encode_utf8;

verus! {

/// The longest first line, in bytes, that is taken for a title.
pub const MAX_TITLE_BYTES: usize = 50;

/// The title of a summary that brings none.
pub open spec fn default_title() -> Seq<char> {
    "Website Summary"@
}

/// The title for the summary `text`, which has no whitespace at its ends:
/// its first line, unless there is none or it is longer than 50 bytes.
pub open spec fn title_of(text: Seq<char>) -> Seq<char> {
    if text.len() == 0 || encode_utf8(first_line(text)).len() > MAX_TITLE_BYTES {
        default_title()
    } else {
        first_line(text)
    }
}

/// The summary `text` as Markdown under a heading: trimmed, and, unless it
/// begins with `#` already, with a heading of the first level put before it.
pub open spec fn with_heading(text: Seq<char>) -> Seq<char> {
    let body = trimmed(text);
    if body.len() > 0 && body[0] == '#' {
        body
    } else {
        "# "@ + title_of(body) + "\n\n"@ + body
    }
}

/// Makes sure that the summary `text` is Markdown under a heading.
pub fn ensure_markdown_formatting(text: &str) -> (formatted: String)
    ensures
        formatted@ == with_heading(text@),
{
    let body = trim(text);
    let mut formatted = String::new();
    if !body.is_empty() && body.get_char(0) == '#' {
        formatted.append(body);
        return formatted;
    }
    let line = first_line_of(body);
    let title = if body.is_empty() || line.as_bytes().len() > MAX_TITLE_BYTES {
        "Website Summary"
    } else {
        line
    };
    assert(title@ == title_of(body@));
    formatted.append("# ");
    formatted.append(title);
    formatted.append("\n\n");
    formatted.append(body);
    assert(formatted@ =~= "# "@ + title_of(body@) + "\n\n"@ + body@);
    formatted
}

/// The time that a request may take as a whole, in seconds.
pub const REQUEST_TIMEOUT_SECS: u64 = 90;

/// The time that fetching the page may take, in seconds.
pub const FETCH_TIMEOUT_SECS: u64 = 5;

/// The status of an answer whose summary was just made.
pub open spec fn fresh_status() -> Seq<char> {
    "success"@
}

/// The status of an answer whose summary was kept from an earlier request.
pub open spec fn cached_status() -> Seq<char> {
    "success (cached)"@
}

/// The answer that the cache gives to a request for `url` at the time
/// `now`: the summary and the word count of the fresh entry under that URL,
/// marked as cached; `None` where the page has to be fetched.
pub open spec fn cache_hit(entries: Map<Seq<char>, CachedResponseView>, url: Seq<char>, now: i64)
    -> Option<ScrapeResponseView> {
    match lookup(entries, url, now) {
        Some(entry) => Some(
            ScrapeResponseView {
                url,
                summary: entry.summary,
                scraped_at: now,
                word_count: entry.word_count,
                status: cached_status(),
            },
        ),
        None => None,
    }
}

/// The first step of a request: answers it from the cache where the cache
/// holds a fresh summary of the page. `None` says that the page has to be
/// fetched, its text extracted and summarized.
pub fn check_cache(cache: &Cache, req: &ScrapeRequest, now: i64) -> (hit: Option<ScrapeResponse>)
    ensures
        match hit {
            Some(response) => cache_hit(cache@, req.url@, now) == Some(response@),
            None => cache_hit(cache@, req.url@, now) is None,
        },
{
    match cache.get(req.url.as_str(), now) {
        Some(entry) => Some(
            ScrapeResponse {
                url: req.url.clone(),
                summary: entry.summary,
                scraped_at: now,
                word_count: entry.word_count,
                status: "success (cached)".to_owned(),
            },
        ),
        None => None,
    }
}

/// How the fetch of a page ended.
pub enum FetchOutcome {
    /// The page came, with this text.
    Fetched(String),
    /// The fetch failed, with this error.
    Failed(AppError),
    /// The fetch took longer than it may.
    TimedOut,
}

/// A `FetchOutcome` with its texts as sequences of characters.
pub enum FetchOutcomeView {
    Fetched(Seq<char>),
    Failed(AppErrorView),
    TimedOut,
}

impl View for FetchOutcome {
    type V = FetchOutcomeView;

    open spec fn view(&self) -> FetchOutcomeView {
        match *self {
            FetchOutcome::Fetched(html) => FetchOutcomeView::Fetched(html@),
            FetchOutcome::Failed(error) => FetchOutcomeView::Failed(error@),
            FetchOutcome::TimedOut => FetchOutcomeView::TimedOut,
        }
    }
}

/// What the summarizer is asked, with the word count of the text that the
/// prompt holds.
pub struct SummaryJob {
    pub prompt: String,
    pub word_count: usize,
}

/// A `SummaryJob` with its prompt as a sequence of characters.
pub struct SummaryJobView {
    pub prompt: Seq<char>,
    pub word_count: nat,
}

impl View for SummaryJob {
    type V = SummaryJobView;

    open spec fn view(&self) -> SummaryJobView {
        SummaryJobView { prompt: self.prompt@, word_count: self.word_count as nat }
    }
}

/// The error for a fetch that took longer than it may.
pub open spec fn fetch_timeout_error() -> AppErrorView {
    AppErrorView::FetchError("HTML fetch timed out after 5 seconds"@)
}

/// The error for a request that took longer than it may as a whole.
pub open spec fn deadline_error() -> AppErrorView {
    AppErrorView::TimeoutError("Request processing timed out"@)
}

/// What follows the fetch: the prompt over the text extracted from the
/// page, with the text's word count; or the error that ends the request. A
/// failed fetch and a fetch past its deadline are fetch errors; a page
/// without a body is a parse error.
pub open spec fn prepared(outcome: FetchOutcomeView) -> Result<SummaryJobView, AppErrorView> {
    match outcome {
        FetchOutcomeView::Fetched(html) => match extracted_text(html) {
            Ok(text) => Ok(
                SummaryJobView {
                    prompt: prompt_preamble() + text,
                    word_count: words(text).len(),
                },
            ),
            Err(error) => Err(error),
        },
        FetchOutcomeView::Failed(error) => Err(
            AppErrorView::FetchError("Failed to fetch HTML: "@ + error.display()),
        ),
        FetchOutcomeView::TimedOut => Err(fetch_timeout_error()),
    }
}

/// The step after the fetch: extracts the page's text and builds the prompt
/// for its summary, or names the error that ends the request. Nothing is
/// tried again, and the cache is not touched.
pub fn prepare_summary(outcome: FetchOutcome) -> (result: Result<SummaryJob, AppError>)
    ensures
        match result {
            Ok(job) => prepared(outcome@) == Ok::<SummaryJobView, AppErrorView>(job@),
            Err(error) => prepared(outcome@) == Err::<SummaryJobView, AppErrorView>(error@),
        },
{
    match outcome {
        FetchOutcome::Fetched(html) => match extract(html.as_str()) {
            Ok(extraction) => Ok(
                SummaryJob {
                    prompt: build_prompt(extraction.text.as_str()),
                    word_count: extraction.word_count,
                },
            ),
            Err(error) => Err(error),
        },
        FetchOutcome::Failed(error) => {
            let mut message = String::new();
            message.append("Failed to fetch HTML: ");
            message.append(error.to_string().as_str());
            Err(AppError::FetchError(message))
        },
        FetchOutcome::TimedOut => Err(
            AppError::FetchError("HTML fetch timed out after 5 seconds".to_owned()),
        ),
    }
}

/// The entry that is kept for the summary `summary`, as the summarizer gave
/// it, of a text of `word_count` words, written at the time `now`.
pub open spec fn entry_for(summary: Seq<char>, word_count: usize, now: i64) -> CachedResponseView {
    CachedResponseView { summary: with_heading(summary), word_count, timestamp: now }
}

/// The answer for the summary `summary`, as the summarizer gave it, of the
/// page at `url`.
pub open spec fn fresh_response(url: Seq<char>, summary: Seq<char>, word_count: usize, now: i64)
    -> ScrapeResponseView {
    ScrapeResponseView {
        url,
        summary: with_heading(summary),
        scraped_at: now,
        word_count,
        status: fresh_status(),
    }
}

/// The error that ends a request whose summarization failed with `error`.
pub open spec fn summary_error(error: AppErrorView) -> AppErrorView {
    AppErrorView::LlmError("LLM API error: "@ + error.display())
}

/// The last step of a request, once the summarizer has answered at the time
/// `now`.
///
/// A summary is put under a heading, written to the cache under the
/// request's URL in place of what was there, and returned as a fresh
/// answer. A failure ends the request with an error and leaves the cache as
/// it was.
pub fn complete(
    cache: &mut Cache,
    req: &ScrapeRequest,
    word_count: usize,
    summary: Result<String, AppError>,
    now: i64,
) -> (result: Result<ScrapeResponse, AppError>)
    ensures
        match summary {
            Ok(text) => {
                &&& result is Ok
                &&& result->Ok_0@ == fresh_response(req.url@, text@, word_count, now)
                &&& final(cache)@ == old(cache)@.insert(
                    req.url@,
                    entry_for(text@, word_count, now),
                )
            },
            Err(error) => {
                &&& result is Err
                &&& result->Err_0@ == summary_error(error@)
                &&& final(cache)@ == old(cache)@
            },
        },
{
    match summary {
        Ok(text) => {
            let formatted = ensure_markdown_formatting(text.as_str());
            cache.put(
                req.url.clone(),
                CachedResponse { summary: formatted.clone(), word_count, timestamp: now },
            );
            Ok(
                ScrapeResponse {
                    url: req.url.clone(),
                    summary: formatted,
                    scraped_at: now,
                    word_count,
                    status: "success".to_owned(),
                },
            )
        },
        Err(error) => {
            let mut message = String::new();
            message.append("LLM API error: ");
            message.append(error.to_string().as_str());
            Err(AppError::LlmError(message))
        },
    }
}

/// The error for a request that ran past its deadline as a whole.
pub fn deadline_exceeded() -> (error: AppError)
    ensures
        error@ == deadline_error(),
{
    AppError::TimeoutError("Request processing timed out".to_owned())
}

/// What is said of the way a request went, in the answer for `result` that
/// is made at the time written in `timestamp`: status 200 for a summary;
/// for an error its own status and message.
pub open spec fn answer_meta(result: Result<ScrapeResponseView, AppErrorView>, timestamp: Seq<char>)
    -> ResponseMetaView {
    match result {
        Ok(_) => ResponseMetaView {
            status: "success"@,
            status_code: 200,
            timestamp,
            message: None,
        },
        Err(error) => ResponseMetaView {
            status: "error"@,
            status_code: error.status_code(),
            timestamp,
            message: Some(error.message()),
        },
    }
}

/// Makes the answer for a request that ended with `result`. The answer
/// carries the summary where there is one, and reports the error otherwise.
pub fn respond(result: Result<ScrapeResponse, AppError>, timestamp: String) -> (response:
    ApiResponse<ScrapeResponse>)
    ensures
        match result {
            Ok(data) => response.data == Some(data) && response.meta@ == answer_meta(
                Ok(data@),
                timestamp@,
            ),
            Err(failure) => response.data is None && response.meta@ == answer_meta(
                Err(failure@),
                timestamp@,
            ),
        },
{
    match result {
        Ok(data) => success(data, timestamp),
        Err(failure) => {
            let (status_code, body) = failure.into_response();
            error(status_code, body.error, timestamp)
        },
    }
}

/// A summary that was made is served again, with the same text and word
/// count and marked as cached, to every request for the same URL that comes
/// less than 24 hours later: the page is not fetched again.
pub proof fn law_summary_is_served_from_cache(
    entries: Map<Seq<char>, CachedResponseView>,
    url: Seq<char>,
    summary: Seq<char>,
    word_count: usize,
    made_at: i64,
    now: i64,
)
    requires
        now - made_at < CACHE_TTL_MS,
    ensures
        cache_hit(entries.insert(url, entry_for(summary, word_count, made_at)), url, now) == Some(
            ScrapeResponseView {
                scraped_at: now,
                status: cached_status(),
                ..fresh_response(url, summary, word_count, made_at)
            },
        ),
{
}

/// A summary of 24 hours or more is not served: the page is fetched again.
pub proof fn law_stale_summary_is_made_again(
    entries: Map<Seq<char>, CachedResponseView>,
    url: Seq<char>,
    now: i64,
)
    requires
        entries.contains_key(url),
        now - entries[url].timestamp >= CACHE_TTL_MS,
    ensures
        cache_hit(entries, url, now) is None,
{
}

/// A page without a body ends the request with a parse error.
pub proof fn law_page_without_body_is_parse_error(html: Seq<char>)
    requires
        fits(html),
        first_match(html, body_selector()) is None,
    ensures
        prepared(FetchOutcomeView::Fetched(html)) == Err::<SummaryJobView, AppErrorView>(
            AppErrorView::ParseError(no_body_message()),
        ),
        AppErrorView::ParseError(no_body_message()).status_code() == 422,
{
}

/// A fetch past its deadline is a fetch error of its own, reported under
/// another status than a request past its deadline as a whole.
pub proof fn law_fetch_timeout_is_not_request_timeout()
    ensures
        prepared(FetchOutcomeView::TimedOut) == Err::<SummaryJobView, AppErrorView>(
            fetch_timeout_error(),
        ),
        fetch_timeout_error() is FetchError,
        deadline_error() is TimeoutError,
        fetch_timeout_error().status_code() == 400,
        deadline_error().status_code() == 408,
{
}

/// The fetch is allowed less time than the request as a whole.
pub proof fn law_fetch_deadline_is_inner()
    ensures
        FETCH_TIMEOUT_SECS < REQUEST_TIMEOUT_SECS,
{
}

} // verus!
