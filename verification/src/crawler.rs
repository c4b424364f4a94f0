//! Turning input words into crawl jobs and keeping the pipeline's tally.
pub mod job;
pub mod pipeline;
