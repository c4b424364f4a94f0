//! The Cambridge dictionary side: entries, page reading, audio file names.
pub mod downloader;
pub mod model;
pub mod scraper;
pub mod util;
