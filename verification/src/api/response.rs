use crate::text::option_view;
use vstd::prelude::*;

verus! {

/// An answer of the service: the data, where there is any, and a note on
/// how the request went.
pub struct ApiResponse<T> {
    pub data: Option<T>,
    pub meta: ResponseMeta,
}

/// How a request went.
pub struct ResponseMeta {
    /// `"success"` or `"error"`.
    pub status: String,
    /// The HTTP status of the answer.
    pub status_code: u16,
    /// When the answer was made.
    pub timestamp: String,
    /// What went wrong, in an answer that reports an error.
    pub message: Option<String>,
}

/// A `ResponseMeta` with its texts as sequences of characters.
pub struct ResponseMetaView {
    pub status: Seq<char>,
    pub status_code: u16,
    pub timestamp: Seq<char>,
    pub message: Option<Seq<char>>,
}

impl View for ResponseMeta {
    type V = ResponseMetaView;

    open spec fn view(&self) -> ResponseMetaView {
        ResponseMetaView {
            status: self.status@,
            status_code: self.status_code,
            timestamp: self.timestamp@,
            message: option_view(self.message),
        }
    }
}

/// The answer that carries `data`, made at the time written in `timestamp`:
/// status 200, no message.
pub fn success<T>(data: T, timestamp: String) -> (response: ApiResponse<T>)
    ensures
        response.data == Some(data),
        response.meta@ == (ResponseMetaView {
            status: "success"@,
            status_code: 200,
            timestamp: timestamp@,
            message: None,
        }),
{
    let meta = ResponseMeta {
        status: "success".to_owned(),
        status_code: 200,
        timestamp,
        message: None,
    };
    ApiResponse { data: Some(data), meta }
}

/// The answer that reports an error under the status `status_code`, made at
/// the time written in `timestamp`: no data, and `message` as its message.
pub fn error<T>(status_code: u16, message: String, timestamp: String) -> (response: ApiResponse<T>)
    ensures
        response.data is None,
        response.meta@ == (ResponseMetaView {
            status: "error"@,
            status_code,
            timestamp: timestamp@,
            message: Some(message@),
        }),
{
    let meta = ResponseMeta {
        status: "error".to_owned(),
        status_code,
        timestamp,
        message: Some(message),
    };
    ApiResponse { data: None, meta }
}

} // verus!
