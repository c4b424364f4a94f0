//! The rows of the Study4 vocabulary database.
use vstd::prelude::*;

verus! {

/// A vocabulary term.
#[derive(Debug)]
pub struct Study4Term {
    pub id: i64,
    pub source_url: String,
    pub word: String,
    pub part_of_speech: Option<String>,
    pub phonetic: Option<String>,
    pub definition_vi: Option<String>,
    pub definition_en: Option<String>,
    pub image_paths: Option<String>,
    pub audio_uk_path: Option<String>,
    pub audio_us_path: Option<String>,
    pub topic: Option<String>,
    pub topic_no: Option<i64>,
}

/// An example sentence of a term.
#[derive(Debug)]
pub struct Study4Example {
    pub term_id: i64,
    pub example_order: i64,
    pub text: String,
    pub translation: Option<String>,
    pub audio_path: Option<String>,
}

/// A crawled source page.
#[derive(Debug)]
pub struct Study4Source {
    pub id: i64,
    pub source_url: String,
    pub page_count: i64,
}

} // verus!
