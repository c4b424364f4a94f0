//! Dictionary entries as read from a Cambridge page.
use vstd::prelude::*;

verus! {

/// The phonetic spellings of a headword.
#[derive(Debug)]
pub struct Phonetic {
    pub uk: Option<String>,
    pub us: Option<String>,
}

/// The pronunciation audio URLs of a headword.
#[derive(Debug)]
pub struct Audio {
    pub uk: Option<String>,
    pub us: Option<String>,
}

/// One sense of a headword with its example sentences.
#[derive(Debug)]
pub struct Definition {
    pub meaning: String,
    pub examples: Vec<String>,
}

/// A dictionary entry.
#[derive(Debug)]
pub struct Entry {
    pub word: String,
    pub part_of_speech: Option<String>,
    pub phonetic: Phonetic,
    pub definitions: Vec<Definition>,
    pub audio: Audio,
}

/// One word (or URL) to crawl, with the page URL it leads to.
#[derive(Debug)]
pub struct CrawlJob {
    pub original_input: String,
    pub url: String,
}

/// The views of a sequence of strings.
pub open spec fn views(v: Seq<String>) -> Seq<Seq<char>> {
    v.map_values(|s: String| s@)
}

/// The view of an optional string.
pub open spec fn opt_view(o: Option<String>) -> Option<Seq<char>> {
    match o {
        Some(s) => Some(s@),
        None => None,
    }
}

/// A copy of an optional string.
pub fn clone_opt(o: &Option<String>) -> (r: Option<String>)
    ensures
        opt_view(r) == opt_view(*o),
{
    match o {
        Some(s) => Some(s.clone()),
        None => None,
    }
}

} // verus!
