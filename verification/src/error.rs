use vstd::prelude::*;

verus! {

/// The body of an error answer: the message alone.
pub struct ErrorResponse {
    pub error: String,
}

/// What can go wrong while a request is served.
#[derive(Debug)]
pub enum AppError {
    /// The page could not be fetched, or fetching it took too long.
    FetchError(String),
    /// The summarization endpoint gave no usable summary.
    LlmError(String),
    /// The page has no body to extract text from.
    ParseError(String),
    /// The service's configuration is missing or invalid.
    ConfigError(String),
    /// The request as a whole ran past its deadline.
    TimeoutError(String),
}

/// An `AppError` with its message as a sequence of characters.
pub enum AppErrorView {
    FetchError(Seq<char>),
    LlmError(Seq<char>),
    ParseError(Seq<char>),
    ConfigError(Seq<char>),
    TimeoutError(Seq<char>),
}

impl View for AppError {
    type V = AppErrorView;

    open spec fn view(&self) -> AppErrorView {
        match *self {
            AppError::FetchError(m) => AppErrorView::FetchError(m@),
            AppError::LlmError(m) => AppErrorView::LlmError(m@),
            AppError::ParseError(m) => AppErrorView::ParseError(m@),
            AppError::ConfigError(m) => AppErrorView::ConfigError(m@),
            AppError::TimeoutError(m) => AppErrorView::TimeoutError(m@),
        }
    }
}

impl AppErrorView {
    /// The message that the error carries.
    pub open spec fn message(self) -> Seq<char> {
        match self {
            AppErrorView::FetchError(m) => m,
            AppErrorView::LlmError(m) => m,
            AppErrorView::ParseError(m) => m,
            AppErrorView::ConfigError(m) => m,
            AppErrorView::TimeoutError(m) => m,
        }
    }

    /// The HTTP status under which the error is reported: 400 for a failed
    /// fetch, 422 for a page without a body, 408 for a request past its
    /// deadline, 500 for a failed summarization or a bad configuration.
    pub open spec fn status_code(self) -> u16 {
        match self {
            AppErrorView::FetchError(_) => 400,
            AppErrorView::LlmError(_) => 500,
            AppErrorView::ParseError(_) => 422,
            AppErrorView::ConfigError(_) => 500,
            AppErrorView::TimeoutError(_) => 408,
        }
    }

    /// The words that introduce the message when the error is written out.
    pub open spec fn prefix(self) -> Seq<char> {
        match self {
            AppErrorView::FetchError(_) => "Failed to fetch data: "@,
            AppErrorView::LlmError(_) => "LLM processing error: "@,
            AppErrorView::ParseError(_) => "Error parsing content: "@,
            AppErrorView::ConfigError(_) => "Configuration error: "@,
            AppErrorView::TimeoutError(_) => "Request timed out: "@,
        }
    }

    /// The error written out: its category in words, then its message.
    pub open spec fn display(self) -> Seq<char> {
        self.prefix() + self.message()
    }
}

impl AppError {
    /// The message that the error carries.
    pub fn message(&self) -> (m: &str)
        ensures
            m@ == self@.message(),
    {
        match self {
            AppError::FetchError(m) => m.as_str(),
            AppError::LlmError(m) => m.as_str(),
            AppError::ParseError(m) => m.as_str(),
            AppError::ConfigError(m) => m.as_str(),
            AppError::TimeoutError(m) => m.as_str(),
        }
    }

    /// The HTTP status under which the error is reported.
    pub fn status_code(&self) -> (code: u16)
        ensures
            code == self@.status_code(),
    {
        match self {
            AppError::FetchError(_) => 400,
            AppError::LlmError(_) => 500,
            AppError::ParseError(_) => 422,
            AppError::ConfigError(_) => 500,
            AppError::TimeoutError(_) => 408,
        }
    }

    /// Writes the error out: its category in words, then its message.
    pub fn to_string(&self) -> (text: String)
        ensures
            text@ == self@.display(),
    {
        let prefix = match self {
            AppError::FetchError(_) => "Failed to fetch data: ",
            AppError::LlmError(_) => "LLM processing error: ",
            AppError::ParseError(_) => "Error parsing content: ",
            AppError::ConfigError(_) => "Configuration error: ",
            AppError::TimeoutError(_) => "Request timed out: ",
        };
        let mut text = String::new();
        text.append(prefix);
        text.append(self.message());
        text
    }

    /// Turns the error into the answer that reports it: the status, and a
    /// body that holds the message.
    pub fn into_response(self) -> (answer: (u16, ErrorResponse))
        ensures
            answer.0 == self@.status_code(),
            answer.1.error@ == self@.message(),
    {
        let status = self.status_code();
        let error = match self {
            AppError::FetchError(m) => m,
            AppError::LlmError(m) => m,
            AppError::ParseError(m) => m,
            AppError::ConfigError(m) => m,
            AppError::TimeoutError(m) => m,
        };
        (status, ErrorResponse { error })
    }
}

} // verus!
