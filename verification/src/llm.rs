use crate::error::{AppError, AppErrorView};
use crate::text::{option_view, result_view};
use vstd::arithmetic::power2::{
    lemma2_to64, lemma_pow2_strictly_increases, lemma_pow2_unfold, pow2,
};
use vstd::prelude::*;
use vstd::utf8::{decode_utf8, valid_utf8};

verus! {

/// Where the summaries are asked for.
pub const ENDPOINT: &'static str = "https://openrouter.ai/api/v1/chat/completions";

/// The model that writes the summaries.
pub const MODEL: &'static str = "qwen/qwen-2.5-7b-instruct:free";

/// The instruction that sets the summarizer's role and the form of its answer.
pub const SYSTEM_INSTRUCTION: &'static str =
    "You are a content summarizer that extracts the main points from web content. Identify the key information, main arguments, and important details. Ignore HTML markup and focus on the actual text content. Format your summary using clear Markdown structure with headers and bullet points.";

/// The largest number of tokens that a summary may have.
pub const MAX_TOKENS: u32 = 800;

/// The sampling temperature, in thousandths.
pub const TEMPERATURE_MILLI: u32 = 100;

/// The time that the endpoint is asked to spend on one request, in seconds.
pub const REQUESTED_TIMEOUT_SECS: u32 = 15;

/// The time that one attempt may take, in seconds.
pub const ATTEMPT_TIMEOUT_SECS: u64 = 10;

/// The time that the transport allows any one exchange, in seconds.
pub const TRANSPORT_TIMEOUT_SECS: u64 = 15;

/// The number of attempts that may follow the first.
pub const MAX_RETRIES: u32 = 2;

/// The delay from which the waits between attempts are doubled, in
/// milliseconds.
pub const BASE_DELAY_MS: u64 = 500;

/// One turn of the conversation that is sent to the endpoint.
pub struct Message {
    pub role: String,
    pub content: String,
}

/// The request that is sent to the endpoint.
pub struct ChatRequest {
    pub model: String,
    pub messages: Vec<Message>,
    pub max_tokens: Option<u32>,
    /// The sampling temperature, in thousandths.
    pub temperature_milli: Option<u32>,
    pub timeout: Option<u32>,
}

/// Builds the request for the prompt `prompt`: the system instruction, then
/// the prompt as the user's turn, with the fixed model and limits.
pub fn chat_request(prompt: &str) -> (request: ChatRequest)
    ensures
        request.model@ == MODEL@,
        request.messages@.len() == 2,
        request.messages@[0].role@ == "system"@,
        request.messages@[0].content@ == SYSTEM_INSTRUCTION@,
        request.messages@[1].role@ == "user"@,
        request.messages@[1].content@ == prompt@,
        request.max_tokens == Some(MAX_TOKENS),
        request.temperature_milli == Some(TEMPERATURE_MILLI),
        request.timeout == Some(REQUESTED_TIMEOUT_SECS),
{
    let mut messages: Vec<Message> = Vec::new();
    messages.push(Message { role: "system".to_owned(), content: SYSTEM_INSTRUCTION.to_owned() });
    messages.push(Message { role: "user".to_owned(), content: prompt.to_owned() });
    ChatRequest {
        model: MODEL.to_owned(),
        messages,
        max_tokens: Some(MAX_TOKENS),
        temperature_milli: Some(TEMPERATURE_MILLI),
        timeout: Some(REQUESTED_TIMEOUT_SECS),
    }
}

/// The headers that tell the endpoint on whose behalf the request is made:
/// the referring page where `site_url` is given, then the title where
/// `site_name` is given.
pub open spec fn attribution(site_url: Option<Seq<char>>, site_name: Option<Seq<char>>) -> Seq<
    (Seq<char>, Seq<char>),
> {
    let referer = match site_url {
        Some(url) => seq![("HTTP-Referer"@, url)],
        None => seq![],
    };
    let title = match site_name {
        Some(name) => seq![("X-Title"@, name)],
        None => seq![],
    };
    referer + title
}

/// Builds the attribution headers of a request.
pub fn attribution_headers(site_url: Option<&str>, site_name: Option<&str>) -> (headers: Vec<
    (String, String),
>)
    ensures
        headers.deep_view() == attribution(
            match site_url {
                Some(url) => Some(url@),
                None => None,
            },
            match site_name {
                Some(name) => Some(name@),
                None => None,
            },
        ),
{
    let mut headers: Vec<(String, String)> = Vec::new();
    if let Some(url) = site_url {
        headers.push(("HTTP-Referer".to_owned(), url.to_owned()));
    }
    if let Some(name) = site_name {
        headers.push(("X-Title".to_owned(), name.to_owned()));
    }
    assert(headers.deep_view() =~= attribution(
        match site_url {
            Some(url) => Some(url@),
            None => None,
        },
        match site_name {
            Some(name) => Some(name@),
            None => None,
        },
    ));
    headers
}

/// The status of an HTTP answer: a number of three digits.
#[derive(Clone, Copy, Debug)]
pub struct HttpStatus {
    code: u16,
}

impl HttpStatus {
    #[verifier::type_invariant]
    spec fn in_range(self) -> bool {
        100 <= self.code <= 999
    }

    /// The status as a number.
    pub closed spec fn value(self) -> u16 {
        self.code
    }

    /// The status with the number `code`; `None` unless the number has
    /// three digits.
    pub fn new(code: u16) -> (status: Option<HttpStatus>)
        ensures
            match status {
                Some(s) => 100 <= code <= 999 && s.value() == code,
                None => !(100 <= code <= 999),
            },
    {
        if 100 <= code && code <= 999 {
            Some(HttpStatus { code })
        } else {
            None
        }
    }

    /// The status as a number.
    pub fn code(&self) -> (code: u16)
        ensures
            code == self.value(),
            100 <= code <= 999,
    {
        proof {
            use_type_invariant(self);
        }
        self.code
    }

    /// Tells whether the status reports success.
    pub fn is_success(&self) -> (b: bool)
        ensures
            b == is_success_code(self.value()),
    {
        200 <= self.code && self.code < 300
    }

    /// Tells whether the status says that the caller's credentials were
    /// not accepted.
    pub fn is_auth_failure(&self) -> (b: bool)
        ensures
            b == is_auth_failure_code(self.value()),
    {
        self.code == 401 || self.code == 403
    }
}

/// The statuses that report success.
pub open spec fn is_success_code(code: u16) -> bool {
    200 <= code < 300
}

/// The statuses that say that the caller's credentials were not accepted.
pub open spec fn is_auth_failure_code(code: u16) -> bool {
    code == 401 || code == 403
}

/// What one attempt to reach the endpoint came back with.
pub enum AttemptOutcome {
    /// The endpoint answered. `body` is the bytes of its answer, or the
    /// reason for which they could not be read.
    Response { status: HttpStatus, body: Result<Vec<u8>, String> },
    /// No answer came. `timed_out` tells whether the attempt ran out of
    /// time.
    Transport { message: String, timed_out: bool },
}

/// An `AttemptOutcome` with its texts as sequences of characters, its bytes
/// as a sequence of bytes and its status as a number.
pub enum AttemptOutcomeView {
    Response { status: u16, body: Result<Seq<u8>, Seq<char>> },
    Transport { message: Seq<char>, timed_out: bool },
}

impl View for AttemptOutcome {
    type V = AttemptOutcomeView;

    open spec fn view(&self) -> AttemptOutcomeView {
        match *self {
            AttemptOutcome::Response { status, body } => AttemptOutcomeView::Response {
                status: status.value(),
                body: match body {
                    Ok(bytes) => Ok(bytes@),
                    Err(reason) => Err(reason@),
                },
            },
            AttemptOutcome::Transport { message, timed_out } => AttemptOutcomeView::Transport {
                message: message@,
                timed_out,
            },
        }
    }
}

/// What an attempt amounts to: the summary, a failure after which another
/// attempt is worth making, or a failure that ends the call.
#[derive(Debug)]
pub enum AttemptResult {
    Success(String),
    Retryable(String),
    Terminal(String),
}

/// An `AttemptResult` with its text as a sequence of characters.
pub enum AttemptResultView {
    Success(Seq<char>),
    Retryable(Seq<char>),
    Terminal(Seq<char>),
}

impl View for AttemptResult {
    type V = AttemptResultView;

    open spec fn view(&self) -> AttemptResultView {
        match *self {
            AttemptResult::Success(text) => AttemptResultView::Success(text@),
            AttemptResult::Retryable(reason) => AttemptResultView::Retryable(reason@),
            AttemptResult::Terminal(reason) => AttemptResultView::Terminal(reason@),
        }
    }
}

/// What `json_lookup` finds in the JSON document `body`.
pub uninterp spec fn json_text_at(
    body: Seq<u8>,
    list: Seq<char>,
    index: usize,
    item: Seq<char>,
    field: Seq<char>,
) -> Result<Option<Seq<char>>, Seq<char>>;

/// The status `code` written out, as `status_text` returns it.
pub uninterp spec fn status_display(code: u16) -> Seq<char>;

/// Parses `body` with `serde_json::from_slice` into a `serde_json::Value` and
/// reads `value[list][index][item][field]` as a string with `Value::as_str`.
///
/// `Err` carries the parser's message. `Ok(None)` stands for a document
/// without a string in that place. Nothing more is claimed of the answer
/// than that it depends on the arguments alone.
#[verifier::external_body]
fn json_lookup(body: &[u8], list: &str, index: usize, item: &str, field: &str) -> (found: Result<
    Option<String>,
    String,
>)
    ensures
        match found {
            Ok(text) => json_text_at(body@, list@, index, item@, field@) == Ok::<
                Option<Seq<char>>,
                Seq<char>,
            >(option_view(text)),
            Err(error) => json_text_at(body@, list@, index, item@, field@) == Err::<
                Option<Seq<char>>,
                Seq<char>,
            >(error@),
        },
{
    match ::serde_json::from_slice::<::serde_json::Value>(body) {
        Ok(value) => Ok(value[list][index][item][field].as_str().map(|text| text.to_string())),
        Err(error) => Err(error.to_string()),
    }
}

/// The bytes `bytes` read as text, as `lossy_text` returns it.
pub uninterp spec fn utf8_lossy(bytes: Seq<u8>) -> Seq<char>;

/// Reads `bytes` as text with `String::from_utf8_lossy`: bytes that are
/// UTF-8 give the text that they encode; of other bytes nothing is claimed
/// but that the text depends on them alone.
#[verifier::external_body]
fn lossy_text(bytes: &[u8]) -> (text: String)
    ensures
        text@ == utf8_lossy(bytes@),
        valid_utf8(bytes@) ==> text@ == decode_utf8(bytes@),
{
    String::from_utf8_lossy(bytes).into_owned()
}

/// Writes the status `code` out as `reqwest::StatusCode` displays it: the
/// number, then the status's standard name.
///
/// Nothing more is claimed of the text than that it depends on the number
/// alone.
#[verifier::external_body]
fn status_text(code: u16) -> (text: String)
    requires
        100 <= code <= 999,
    ensures
        text@ == status_display(code),
{
    match ::reqwest::StatusCode::from_u16(code) {
        Ok(status) => status.to_string(),
        Err(_) => String::new(),
    }
}

/// What the search for the summary in a successful answer amounts to.
pub open spec fn reply_result(found: Result<Option<Seq<char>>, Seq<char>>) -> AttemptResultView {
    match found {
        Ok(Some(text)) => AttemptResultView::Success(text),
        Ok(None) => AttemptResultView::Retryable("Invalid response format"@),
        Err(error) => AttemptResultView::Retryable("JSON parse error: "@ + error),
    }
}

/// What an answer with a status other than success amounts to: a failure
/// that names the status and the answer's text, final where the status
/// says that the credentials were not accepted.
pub open spec fn refusal_result(
    code: u16,
    status: Seq<char>,
    body: Result<Seq<char>, Seq<char>>,
) -> AttemptResultView {
    let reason = match body {
        Ok(text) => "API error ("@ + status + "): "@ + text,
        Err(error) => "HTTP error ("@ + status + "): "@ + error,
    };
    if is_auth_failure_code(code) {
        AttemptResultView::Terminal(reason)
    } else {
        AttemptResultView::Retryable(reason)
    }
}

/// What an attempt without an answer amounts to.
pub open spec fn transport_result(message: Seq<char>, timed_out: bool) -> AttemptResultView {
    if timed_out {
        AttemptResultView::Retryable("Request timed out"@)
    } else {
        AttemptResultView::Retryable("Request error: "@ + message)
    }
}

/// What the outcome of an attempt amounts to.
///
/// A successful answer is searched for the text of its first choice's
/// message; every other answer is a refusal, whose bytes are read as text;
/// no answer is a failure of the transport.
pub open spec fn classified(outcome: AttemptOutcomeView) -> AttemptResultView {
    match outcome {
        AttemptOutcomeView::Response { status, body } => if is_success_code(status) {
            reply_result(
                match body {
                    Ok(bytes) => json_text_at(bytes, "choices"@, 0, "message"@, "content"@),
                    Err(error) => Err(error),
                },
            )
        } else {
            refusal_result(
                status,
                status_display(status),
                match body {
                    Ok(bytes) => Ok(utf8_lossy(bytes)),
                    Err(error) => Err(error),
                },
            )
        },
        AttemptOutcomeView::Transport { message, timed_out } => transport_result(
            message,
            timed_out,
        ),
    }
}

/// Joins two texts.
fn joined(left: &str, right: &str) -> (text: String)
    ensures
        text@ == left@ + right@,
{
    let mut text = String::new();
    text.append(left);
    text.append(right);
    text
}

/// Judges the search for the summary in a successful answer: the text that
/// was found is the summary; an answer without it, or one that is no JSON,
/// is worth another attempt.
pub fn interpret_reply(found: Result<Option<String>, String>) -> (result: AttemptResult)
    ensures
        result@ == reply_result(
            match found {
                Ok(text) => Ok(option_view(text)),
                Err(error) => Err(error@),
            },
        ),
{
    match found {
        Ok(Some(text)) => AttemptResult::Success(text),
        Ok(None) => AttemptResult::Retryable("Invalid response format".to_owned()),
        Err(error) => AttemptResult::Retryable(joined("JSON parse error: ", error.as_str())),
    }
}

/// Judges an answer with a status other than success. `status_name` is the
/// status written out.
pub fn interpret_refusal(status: HttpStatus, status_name: &str, body: &Result<String, String>) -> (result:
    AttemptResult)
    ensures
        result@ == refusal_result(status.value(), status_name@, result_view(*body)),
{
    let mut reason = String::new();
    match body {
        Ok(text) => {
            reason.append("API error (");
            reason.append(status_name);
            reason.append("): ");
            reason.append(text.as_str());
        },
        Err(error) => {
            reason.append("HTTP error (");
            reason.append(status_name);
            reason.append("): ");
            reason.append(error.as_str());
        },
    }
    if status.is_auth_failure() {
        AttemptResult::Terminal(reason)
    } else {
        AttemptResult::Retryable(reason)
    }
}

/// Judges an attempt that brought no answer.
pub fn interpret_transport_failure(message: &str, timed_out: bool) -> (result: AttemptResult)
    ensures
        result@ == transport_result(message@, timed_out),
{
    if timed_out {
        AttemptResult::Retryable("Request timed out".to_owned())
    } else {
        AttemptResult::Retryable(joined("Request error: ", message))
    }
}

/// Judges the outcome of an attempt.
pub fn classify(outcome: &AttemptOutcome) -> (result: AttemptResult)
    ensures
        result@ == classified(outcome@),
{
    match outcome {
        AttemptOutcome::Response { status, body } => {
            if status.is_success() {
                match body {
                    Ok(bytes) => interpret_reply(
                        json_lookup(bytes.as_slice(), "choices", 0, "message", "content"),
                    ),
                    Err(error) => interpret_reply(Err(error.clone())),
                }
            } else {
                let name = status_text(status.code());
                let text = match body {
                    Ok(bytes) => Ok(lossy_text(bytes.as_slice())),
                    Err(error) => Err(error.clone()),
                };
                interpret_refusal(*status, name.as_str(), &text)
            }
        },
        AttemptOutcome::Transport { message, timed_out } => interpret_transport_failure(
            message.as_str(),
            *timed_out,
        ),
    }
}

/// The wait before the attempt with the number `attempt`, the first attempt
/// being number 0: the base delay, doubled `attempt` times.
pub open spec fn backoff_ms(attempt: nat) -> nat {
    BASE_DELAY_MS as nat * pow2(attempt)
}

/// Computes the wait before the attempt with the number `attempt`, in
/// milliseconds, where that wait can be counted in 64 bits.
pub fn backoff_delay_ms(attempt: u32) -> (ms: u64)
    requires
        backoff_ms(attempt as nat) <= u64::MAX,
    ensures
        ms == backoff_ms(attempt as nat),
{
    proof {
        lemma2_to64();
    }
    let mut ms: u64 = BASE_DELAY_MS;
    let mut doubled: u32 = 0;
    while doubled < attempt
        invariant
            doubled <= attempt,
            ms == backoff_ms(doubled as nat),
            backoff_ms(attempt as nat) <= u64::MAX,
        decreases attempt - doubled,
    {
        proof {
            let next = (doubled + 1) as nat;
            lemma_pow2_unfold(next);
            if next < attempt {
                lemma_pow2_strictly_increases(next, attempt as nat);
            }
            assert(BASE_DELAY_MS * pow2(next) <= BASE_DELAY_MS * pow2(attempt as nat))
                by (nonlinear_arith)
                requires
                    pow2(next) <= pow2(attempt as nat),
            ;
            assert(BASE_DELAY_MS * pow2(next) == 2 * (BASE_DELAY_MS * pow2(doubled as nat)))
                by (nonlinear_arith)
                requires
                    pow2(next) == 2 * pow2(doubled as nat),
            ;
        }
        ms = ms * 2;
        doubled = doubled + 1;
    }
    ms
}

/// How far a call to the endpoint has come: the number of the attempt that
/// is under way, the first being number 0, and the reason for which the
/// attempt before it failed.
pub struct RetryState {
    attempt: u32,
    last_error: String,
}

/// A `RetryState` with its reason as a sequence of characters.
pub struct RetryStateView {
    pub attempt: nat,
    pub last_error: Seq<char>,
}

/// What to do once an attempt is over.
pub enum Decision {
    /// Wait for `delay_ms` milliseconds, then make the next attempt.
    Retry { state: RetryState, delay_ms: u64 },
    /// The call is over: with the summary, or with the error that reports
    /// the last failure.
    Done(Result<String, AppError>),
}

/// A `Decision` with its texts as sequences of characters.
pub enum DecisionView {
    Retry { state: RetryStateView, delay_ms: nat },
    Done(Result<Seq<char>, AppErrorView>),
}

impl View for Decision {
    type V = DecisionView;

    open spec fn view(&self) -> DecisionView {
        match *self {
            Decision::Retry { state, delay_ms } => DecisionView::Retry {
                state: state@,
                delay_ms: delay_ms as nat,
            },
            Decision::Done(Ok(summary)) => DecisionView::Done(Ok(summary@)),
            Decision::Done(Err(error)) => DecisionView::Done(Err(error@)),
        }
    }
}

/// The state in which a call begins.
pub open spec fn initial_state() -> RetryStateView {
    RetryStateView { attempt: 0, last_error: "Unknown error"@ }
}

/// What follows an attempt that was made in the state `state` and amounts
/// to `result`.
///
/// A summary ends the call, and so does a failure that is final. After any
/// other failure the next attempt is made, after its wait, unless the
/// attempt that failed was the last one allowed: then the call ends with
/// that failure.
pub open spec fn decided(state: RetryStateView, result: AttemptResultView) -> DecisionView {
    match result {
        AttemptResultView::Success(summary) => DecisionView::Done(Ok(summary)),
        AttemptResultView::Terminal(reason) => DecisionView::Done(
            Err(AppErrorView::LlmError(reason)),
        ),
        AttemptResultView::Retryable(reason) => if state.attempt < MAX_RETRIES {
            DecisionView::Retry {
                state: RetryStateView { attempt: state.attempt + 1, last_error: reason },
                delay_ms: backoff_ms(state.attempt + 1),
            }
        } else {
            DecisionView::Done(Err(AppErrorView::LlmError(reason)))
        },
    }
}

impl View for RetryState {
    type V = RetryStateView;

    closed spec fn view(&self) -> RetryStateView {
        RetryStateView { attempt: self.attempt as nat, last_error: self.last_error@ }
    }
}

impl RetryState {
    #[verifier::type_invariant]
    spec fn within_limit(self) -> bool {
        self.attempt <= MAX_RETRIES
    }

    /// The state in which a call begins: the first attempt is under way.
    pub fn new() -> (state: RetryState)
        ensures
            state@ == initial_state(),
    {
        RetryState { attempt: 0, last_error: "Unknown error".to_owned() }
    }

    /// The number of the attempt that is under way, the first being number
    /// 0. It never exceeds the number of retries allowed.
    pub fn attempt(&self) -> (attempt: u32)
        ensures
            attempt == self@.attempt,
            attempt <= MAX_RETRIES,
    {
        proof {
            use_type_invariant(self);
        }
        self.attempt
    }

    /// The reason for which the attempt before this one failed.
    pub fn last_error(&self) -> (reason: &str)
        ensures
            reason@ == self@.last_error,
    {
        self.last_error.as_str()
    }

    /// Decides what follows the attempt under way, which amounts to
    /// `result`.
    pub fn advance(self, result: AttemptResult) -> (decision: Decision)
        ensures
            decision@ == decided(self@, result@),
    {
        proof {
            use_type_invariant(&self);
            lemma2_to64();
        }
        match result {
            AttemptResult::Success(summary) => Decision::Done(Ok(summary)),
            AttemptResult::Terminal(reason) => Decision::Done(Err(AppError::LlmError(reason))),
            AttemptResult::Retryable(reason) => {
                if self.attempt < MAX_RETRIES {
                    let next = self.attempt + 1;
                    Decision::Retry {
                        state: RetryState { attempt: next, last_error: reason },
                        delay_ms: backoff_delay_ms(next),
                    }
                } else {
                    Decision::Done(Err(AppError::LlmError(reason)))
                }
            },
        }
    }
}

/// A call as a whole: how it ends, how many attempts it makes, and for how
/// long it waits between them.
pub struct Run {
    pub outcome: Result<Seq<char>, AppErrorView>,
    pub attempts: nat,
    pub waited_ms: nat,
}

/// The call that continues in the state `state`, where the attempts still
/// to be made, if they are made, amount to `results`, one after the other.
/// Where `results` ends before the call does, the call ends with the
/// failure recorded last.
pub open spec fn run_from(state: RetryStateView, results: Seq<AttemptResultView>) -> Run
    decreases results.len(),
{
    if results.len() == 0 {
        Run { outcome: Err(AppErrorView::LlmError(state.last_error)), attempts: 0, waited_ms: 0 }
    } else {
        match decided(state, results[0]) {
            DecisionView::Done(outcome) => Run { outcome, attempts: 1, waited_ms: 0 },
            DecisionView::Retry { state: next, delay_ms } => {
                let rest = run_from(next, results.skip(1));
                Run {
                    outcome: rest.outcome,
                    attempts: rest.attempts + 1,
                    waited_ms: rest.waited_ms + delay_ms,
                }
            },
        }
    }
}

/// The call from its beginning.
pub open spec fn run(results: Seq<AttemptResultView>) -> Run {
    run_from(initial_state(), results)
}

/// From an attempt with the number `state.attempt` on, a call makes no more
/// attempts than are left.
pub proof fn lemma_attempts_left(state: RetryStateView, results: Seq<AttemptResultView>)
    requires
        state.attempt <= MAX_RETRIES,
    ensures
        run_from(state, results).attempts <= MAX_RETRIES + 1 - state.attempt,
    decreases results.len(),
{
    if results.len() > 0 {
        match decided(state, results[0]) {
            DecisionView::Done(_) => {},
            DecisionView::Retry { state: next, delay_ms } => {
                lemma_attempts_left(next, results.skip(1));
            },
        }
    }
}

/// A call never makes more than three attempts: the first and two retries.
pub proof fn law_attempts_are_bounded(results: Seq<AttemptResultView>)
    ensures
        run(results).attempts <= 3,
{
    lemma_attempts_left(initial_state(), results);
}

/// The longest that a call can still wait from the state `state` on: the
/// waits before the attempts that are left.
pub open spec fn waits_left(state: RetryStateView) -> nat {
    if state.attempt == 0 {
        backoff_ms(1) + backoff_ms(2)
    } else if state.attempt == 1 {
        backoff_ms(2)
    } else {
        0
    }
}

/// From any state on, a call waits no longer than the waits that are left.
pub proof fn lemma_waits_left(state: RetryStateView, results: Seq<AttemptResultView>)
    requires
        state.attempt <= MAX_RETRIES,
    ensures
        run_from(state, results).waited_ms <= waits_left(state),
    decreases results.len(),
{
    if results.len() > 0 {
        match decided(state, results[0]) {
            DecisionView::Done(_) => {},
            DecisionView::Retry { state: next, delay_ms } => {
                lemma_waits_left(next, results.skip(1));
            },
        }
    }
}

/// A call never waits longer than 3000 milliseconds in all: 1000 before the
/// second attempt and 2000 before the third.
pub proof fn law_total_wait_is_bounded(results: Seq<AttemptResultView>)
    ensures
        run(results).waited_ms <= 3000,
{
    lemma2_to64();
    lemma_waits_left(initial_state(), results);
}

/// A failure that is final ends the call at once: one attempt, no wait, and
/// the failure's reason as the error.
pub proof fn law_terminal_failure_is_not_retried(
    reason: Seq<char>,
    later: Seq<AttemptResultView>,
)
    ensures
        run(seq![AttemptResultView::Terminal(reason)] + later) == (Run {
            outcome: Err(AppErrorView::LlmError(reason)),
            attempts: 1,
            waited_ms: 0,
        }),
{
}

/// An answer that says that the credentials were not accepted is a failure
/// that is final.
pub proof fn law_auth_failure_is_terminal(code: u16, body: Result<Seq<u8>, Seq<char>>)
    requires
        code == 401 || code == 403,
    ensures
        classified(AttemptOutcomeView::Response { status: code, body }) is Terminal,
{
}

/// No failure of the transport, a timeout included, is final, and no
/// refusal is final but that of the credentials.
pub proof fn law_other_failures_are_retryable(outcome: AttemptOutcomeView)
    requires
        match outcome {
            AttemptOutcomeView::Response { status, body } => !is_auth_failure_code(status),
            AttemptOutcomeView::Transport { .. } => true,
        },
    ensures
        !(classified(outcome) is Terminal),
{
}

/// A summary that comes with the third attempt, after two failures that
/// were not final, is the call's result, and the call has waited twice:
/// 1000 and then 2000 milliseconds.
pub proof fn law_third_attempt_can_succeed(
    first: Seq<char>,
    second: Seq<char>,
    summary: Seq<char>,
    later: Seq<AttemptResultView>,
)
    ensures
        run(
            seq![
                AttemptResultView::Retryable(first),
                AttemptResultView::Retryable(second),
                AttemptResultView::Success(summary),
            ] + later,
        ) == (Run { outcome: Ok(summary), attempts: 3, waited_ms: 3000 }),
{
    lemma2_to64();
    let results = seq![
        AttemptResultView::Retryable(first),
        AttemptResultView::Retryable(second),
        AttemptResultView::Success(summary),
    ] + later;
    let after_first = RetryStateView { attempt: 1, last_error: first };
    let after_second = RetryStateView { attempt: 2, last_error: second };
    assert(decided(initial_state(), results[0]) == DecisionView::Retry {
        state: after_first,
        delay_ms: 1000,
    });
    assert(decided(after_first, results.skip(1)[0]) == DecisionView::Retry {
        state: after_second,
        delay_ms: 2000,
    });
    assert(decided(after_second, results.skip(1).skip(1)[0]) == DecisionView::Done(Ok(summary)));
    assert(run_from(after_second, results.skip(1).skip(1)).waited_ms == 0);
    assert(run_from(after_first, results.skip(1)).waited_ms == 2000);
}

/// After three failures the call ends with the reason of the third.
pub proof fn law_exhaustion_reports_last_failure(
    first: Seq<char>,
    second: Seq<char>,
    third: Seq<char>,
    later: Seq<AttemptResultView>,
)
    ensures
        run(
            seq![
                AttemptResultView::Retryable(first),
                AttemptResultView::Retryable(second),
                AttemptResultView::Retryable(third),
            ] + later,
        ).outcome == Err::<Seq<char>, AppErrorView>(AppErrorView::LlmError(third)),
        run(
            seq![
                AttemptResultView::Retryable(first),
                AttemptResultView::Retryable(second),
                AttemptResultView::Retryable(third),
            ] + later,
        ).attempts == 3,
{
    let results = seq![
        AttemptResultView::Retryable(first),
        AttemptResultView::Retryable(second),
        AttemptResultView::Retryable(third),
    ] + later;
    let after_first = RetryStateView { attempt: 1, last_error: first };
    let after_second = RetryStateView { attempt: 2, last_error: second };
    assert(decided(initial_state(), results[0]) == DecisionView::Retry {
        state: after_first,
        delay_ms: backoff_ms(1),
    });
    assert(decided(after_first, results.skip(1)[0]) == DecisionView::Retry {
        state: after_second,
        delay_ms: backoff_ms(2),
    });
    assert(decided(after_second, results.skip(1).skip(1)[0]) == DecisionView::Done(
        Err(AppErrorView::LlmError(third)),
    ));
    assert(run_from(after_second, results.skip(1).skip(1)).attempts == 1);
    assert(run_from(after_first, results.skip(1)).attempts == 2);
}

/// One attempt is allowed less time than the transport allows an exchange.
pub proof fn law_attempt_deadline_is_inner()
    ensures
        ATTEMPT_TIMEOUT_SECS < TRANSPORT_TIMEOUT_SECS,
{
}

} // verus!
