use vstd::prelude::*;

verus! {

/// A request for the summary of the page at `url`.
pub struct ScrapeRequest {
    pub url: String,
}

/// The summary of a page.
pub struct ScrapeResponse {
    /// The URL that was asked for.
    pub url: String,
    /// The summary, in Markdown.
    pub summary: String,
    /// When the answer was made, in milliseconds since the Unix epoch.
    pub scraped_at: i64,
    /// The number of words of the text that was summarized.
    pub word_count: usize,
    /// `"success"` for a summary that was just made, `"success (cached)"`
    /// for one that was kept.
    pub status: String,
}

/// A `ScrapeResponse` with its texts as sequences of characters.
pub struct ScrapeResponseView {
    pub url: Seq<char>,
    pub summary: Seq<char>,
    pub scraped_at: i64,
    pub word_count: usize,
    pub status: Seq<char>,
}

impl View for ScrapeResponse {
    type V = ScrapeResponseView;

    open spec fn view(&self) -> ScrapeResponseView {
        ScrapeResponseView {
            url: self.url@,
            summary: self.summary@,
            scraped_at: self.scraped_at,
            word_count: self.word_count,
            status: self.status@,
        }
    }
}

} // verus!
