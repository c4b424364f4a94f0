//! Where pronunciation audio is stored and which files a page asks for.
use vstd::prelude::*;
use crate::cam::model::Entry;
use crate::text::{chars_of, lower_case, push_str, string_of, to_lowercase};

verus! {

/// A character that would not belong in a file name becomes `_`.
pub open spec fn safe_char(c: char) -> char {
    if c == ' ' || c == '/' || c == '-' {
        '_'
    } else {
        c
    }
}

/// The lower-cased word with spaces, slashes and hyphens made underscores.
pub open spec fn safe_word(word: Seq<char>) -> Seq<char> {
    Seq::new(lower_case(word).len(), |i: int| safe_char(lower_case(word)[i]))
}

/// `<safe word>_<region>.mp3`.
pub open spec fn spec_audio_basename(word: Seq<char>, region: Seq<char>) -> Seq<char> {
    safe_word(word) + "_"@ + region + ".mp3"@
}

/// `audio_out/<safe word>_<region>.mp3`.
pub open spec fn spec_audio_output_path(word: Seq<char>, region: Seq<char>) -> Seq<char> {
    "audio_out/"@ + spec_audio_basename(word, region)
}

fn build_audio_basename(word: &str, region: &str) -> (r: String)
    ensures
        r@ == spec_audio_basename(word@, region@),
{
    let lower = chars_of(to_lowercase(word).as_str());
    let mut safe: Vec<char> = Vec::new();
    let n = lower.len();
    for i in 0..n
        invariant
            n == lower@.len(),
            lower@ == lower_case(word@),
            safe@ == Seq::new(i as nat, |k: int| safe_char(lower@[k])),
    {
        let c = lower[i];
        if c == ' ' || c == '/' || c == '-' {
            safe.push('_');
        } else {
            safe.push(c);
        }
    }
    push_str(&mut safe, "_");
    push_str(&mut safe, region);
    push_str(&mut safe, ".mp3");
    string_of(&safe)
}

/// The local file an entry's pronunciation for `region` is saved to.
pub fn build_audio_output_path(word: &str, region: &str) -> (r: String)
    ensures
        r@ == spec_audio_output_path(word@, region@),
{
    let base = build_audio_basename(word, region);
    let mut out: Vec<char> = Vec::new();
    push_str(&mut out, "audio_out/");
    push_str(&mut out, base.as_str());
    string_of(&out)
}

/// The media file name Anki stores an entry's pronunciation under.
pub fn build_audio_filename(word: &str, region: &str) -> (r: String)
    ensures
        r@ == spec_audio_basename(word@, region@),
{
    build_audio_basename(word, region)
}

/// One audio file to fetch: where from and where to.
#[derive(Debug)]
pub struct AudioDownload {
    pub url: String,
    pub path: String,
}

/// The audio files an entry names, UK first then US, each with the local
/// path it is saved to. A file that is already on disk is not fetched again.
pub fn audio_downloads(entry: &Entry) -> (r: Vec<AudioDownload>)
    ensures
        r@.len() == (if entry.audio.uk is Some { 1int } else { 0 }) + (if entry.audio.us is Some {
            1int
        } else {
            0
        }),
        entry.audio.uk matches Some(u) ==> r@[0].url@ == u@ && r@[0].path@
            == spec_audio_output_path(entry.word@, "uk"@),
        entry.audio.us matches Some(u) ==> ({
            let k = r@.len() - 1;
            r@[k].url@ == u@ && r@[k].path@ == spec_audio_output_path(entry.word@, "us"@)
        }),
{
    let mut out: Vec<AudioDownload> = Vec::new();
    match &entry.audio.uk {
        Some(u) => {
            out.push(
                AudioDownload {
                    url: u.clone(),
                    path: build_audio_output_path(entry.word.as_str(), "uk"),
                },
            );
        },
        None => {},
    }
    match &entry.audio.us {
        Some(u) => {
            out.push(
                AudioDownload {
                    url: u.clone(),
                    path: build_audio_output_path(entry.word.as_str(), "us"),
                },
            );
        },
        None => {},
    }
    out
}

} // verus!
