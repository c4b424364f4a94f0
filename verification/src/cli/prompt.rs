//! Reading the list of words line by line.
use vstd::prelude::*;
use crate::cam::model::views;
use crate::text::{chars_of, string_of, trim, trim_ws};

verus! {

/// The AnkiConnect address offered when the user types nothing.
pub const DEFAULT_ANKI_CONNECT_URL: &'static str = "http://127.0.0.1:8765";

/// Takes one line typed at the word prompt: a blank line ends the list
/// (`false`); any other line is added, trimmed, and the prompt goes on.
pub fn accept_word_line(words: &mut Vec<String>, line: &str) -> (more: bool)
    ensures
        more == (trim_ws(line@).len() > 0),
        more ==> views(final(words)@) == views(old(words)@).push(trim_ws(line@)),
        !more ==> final(words)@ == old(words)@,
{
    let t = trim(&chars_of(line));
    if t.len() == 0 {
        return false;
    }
    let ghost before = words@;
    words.push(string_of(&t));
    assert(views(words@) =~= views(before).push(trim_ws(line@)));
    true
}

} // verus!
