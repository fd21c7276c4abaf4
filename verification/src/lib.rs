pub mod api;
pub mod cache;
pub mod config;
pub mod error;
pub mod llm;
pub mod scraper;
pub mod text;

pub use cache::CachedResponse;
