//! The AnkiConnect `addNote` request built from a dictionary entry, and the
//! cloze logic that picks and marks the example sentence.
use vstd::prelude::*;
use crate::anki::util::{
    convert_html_definition, convert_html_example, convert_html_phoetic,
    spec_convert_html_definition, spec_convert_html_example, spec_convert_html_phoetic,
};
use crate::cam::downloader::{build_audio_filename, spec_audio_basename};
use crate::cam::model::{clone_opt, opt_view, Definition, Entry, views};
use crate::text::{
    chars_of, char_is_alphanumeric, is_alphanumeric, lower_case, push_str, string_of, to_lowercase,
    trim, trim_ws, all_ascii, ascii_lower, occurs_at, next_occurrence, next_occurrence_exec,
    lemma_next_occurrence, is_lower_rendering, lemma_lower_rendering_single, lowers_to, single_lower,
};

verus! {

/// The character before index `i` is absent or not alphanumeric.
pub open spec fn boundary_before(t: Seq<char>, i: int) -> bool {
    i <= 0 || !char_is_alphanumeric(t[i - 1])
}

/// The character at index `j` is absent or not alphanumeric.
pub open spec fn boundary_after(t: Seq<char>, j: int) -> bool {
    j >= t.len() || !char_is_alphanumeric(t[j])
}

/// Scanning `t` from `from` for `w` as the search does it: take the next
/// occurrence; if it stands between word boundaries it is the match,
/// otherwise go on after its end (overlapping occurrences are passed over).
pub open spec fn scan_match(t: Seq<char>, w: Seq<char>, from: int) -> Option<int>
    decreases t.len() - from,
{
    if w.len() == 0 || from < 0 || from > t.len() {
        None
    } else {
        let i = next_occurrence(t, w, from);
        if i < from {
            None
        } else if boundary_before(t, i) && boundary_after(t, i + w.len()) {
            Some(i)
        } else {
            proof {
                lemma_next_occurrence(t, w, from);
            }
            scan_match(t, w, i + w.len())
        }
    }
}

/// Where `word` is found as a whole word in `text`, compared in lower case:
/// the index in the lower-cased text, or `None` (always `None` for a blank
/// word).
pub open spec fn spec_word_match(text: Seq<char>, word: Seq<char>) -> Option<int> {
    if trim_ws(word).len() == 0 {
        None
    } else {
        scan_match(lower_case(text), lower_case(word), 0)
    }
}

/// The cloze marking of `t` around `t[i..e]`.
pub open spec fn cloze_around(t: Seq<char>, i: int, e: int) -> Seq<char> {
    t.subrange(0, i) + "{{c1::"@ + t.subrange(i, e) + "}}"@ + t.subrange(e, t.len() as int)
}

/// The sentence with its first whole-word match of `word` marked as cloze
/// deletion `c1`, or `None` when there is no match.
pub open spec fn spec_wrap_cloze(text: Seq<char>, word: Seq<char>) -> Option<Seq<char>> {
    match spec_word_match(text, word) {
        None => None,
        Some(i) => {
            let e = i + lower_case(word).len();
            if e <= text.len() {
                Some(cloze_around(text, i, e))
            } else {
                None
            }
        },
    }
}

/// A cloze text is the sentence itself with one stretch of it put between
/// `{{c1::` and `}}`: taking the markers out gives the sentence back, and
/// the stretch starts where the whole-word match was found.
pub proof fn lemma_cloze_keeps_sentence(text: Seq<char>, word: Seq<char>)
    ensures
        spec_wrap_cloze(text, word) matches Some(c) ==> ({
            let i = spec_word_match(text, word)->0;
            let e = i + lower_case(word).len();
            &&& 0 <= i <= e <= text.len()
            &&& c == text.subrange(0, i) + "{{c1::"@ + text.subrange(i, e) + "}}"@ + text.subrange(
                e,
                text.len() as int,
            )
            &&& text == text.subrange(0, i) + text.subrange(i, e) + text.subrange(e, text.len() as int)
        }),
        spec_wrap_cloze(text, word) is Some ==> spec_word_match(text, word) is Some,
{
    if let Some(c) = spec_wrap_cloze(text, word) {
        lemma_scan_match_occurs(lower_case(text), lower_case(word), 0);
        let i = spec_word_match(text, word)->0;
        let e = i + lower_case(word).len();
        assert(text =~= text.subrange(0, i) + text.subrange(i, e) + text.subrange(e, text.len() as int));
    }
}

/// The search and the marking agree: on a text whose characters each
/// lower-case to one character, the word is found as a whole word exactly
/// when the sentence can be marked; a blank word gives neither.
pub proof fn lemma_search_agrees_with_marking(text: Seq<char>, word: Seq<char>)
    requires
        single_lower(text),
        is_lower_rendering(text, lower_case(text)),
    ensures
        (spec_word_match(text, word) is Some) == (spec_wrap_cloze(text, word) is Some),
        trim_ws(word).len() == 0 ==> spec_word_match(text, word) is None && spec_wrap_cloze(
            text,
            word,
        ) is None,
{
    lemma_lower_rendering_single(text, lower_case(text));
    lemma_scan_match_occurs(lower_case(text), lower_case(word), 0);
}

/// Whether an optional neighbouring character leaves a word boundary: it is
/// absent or not alphanumeric.
pub fn is_word_boundary(ch: Option<char>) -> (b: bool)
    ensures
        b == match ch {
            None => true,
            Some(c) => !char_is_alphanumeric(c),
        },
{
    match ch {
        None => true,
        Some(c) => !is_alphanumeric(c),
    }
}

/// The word-boundary scan on character sequences.
fn scan_match_exec(t: &Vec<char>, w: &Vec<char>) -> (r: Option<usize>)
    ensures
        match r {
            Some(i) => scan_match(t@, w@, 0) == Some(i as int),
            None => scan_match(t@, w@, 0) is None,
        },
{
    if w.len() == 0 || w.len() > t.len() {
        return None;
    }
    let mut from: usize = 0;
    loop
        invariant
            from <= t@.len(),
            t@.len() <= usize::MAX,
            w@.len() > 0,
            scan_match(t@, w@, from as int) == scan_match(t@, w@, 0),
        decreases t@.len() - from,
    {
        proof {
            lemma_next_occurrence(t@, w@, from as int);
        }
        match next_occurrence_exec(t, w, from) {
            None => {
                return None;
            },
            Some(i) => {
                let e = i + w.len();
                let before = if i == 0 { None } else { Some(t[i - 1]) };
                let after = if e < t.len() { Some(t[e]) } else { None };
                if is_word_boundary(before) && is_word_boundary(after) {
                    return Some(i);
                }
                from = e;
            },
        }
    }
}

/// The position of the first whole-word, case-insensitive match of `word` in
/// `text`, counted in characters of the lower-cased text.
fn word_match(text: &str, word: &str) -> (r: Option<usize>)
    ensures
        match r {
            Some(i) => spec_word_match(text@, word@) == Some(i as int),
            None => spec_word_match(text@, word@) is None,
        },
        all_ascii(text@) ==> lower_case(text@) == ascii_lower(text@),
        all_ascii(word@) ==> lower_case(word@) == ascii_lower(word@),
        is_lower_rendering(text@, lower_case(text@)),
        is_lower_rendering(word@, lower_case(word@)),
{
    let lower_text = chars_of(to_lowercase(text).as_str());
    let lower_word = chars_of(to_lowercase(word).as_str());
    let wc = chars_of(word);
    let tw = trim(&wc);
    if tw.len() == 0 {
        return None;
    }
    scan_match_exec(&lower_text, &lower_word)
}

/// A match found by the scan is an occurrence.
pub proof fn lemma_scan_match_occurs(t: Seq<char>, w: Seq<char>, from: int)
    ensures
        scan_match(t, w, from) matches Some(i) ==> from <= i && occurs_at(t, w, i),
    decreases t.len() + 1 - from,
{
    if w.len() > 0 && 0 <= from <= t.len() {
        lemma_next_occurrence(t, w, from);
        let i = next_occurrence(t, w, from);
        if i >= from && !(boundary_before(t, i) && boundary_after(t, i + w.len())) {
            lemma_scan_match_occurs(t, w, i + w.len());
        }
    }
}

/// `w` occurs in `t` at `i` between word boundaries.
pub open spec fn whole_word_at(t: Seq<char>, w: Seq<char>, i: int) -> bool {
    occurs_at(t, w, i) && boundary_before(t, i) && boundary_after(t, i + w.len())
}

/// Some occurrence of `w` in `t` starts before `j` and runs over it.
pub open spec fn overlapped(t: Seq<char>, w: Seq<char>, j: int) -> bool {
    exists|k: int| k < j < k + w.len() && #[trigger] occurs_at(t, w, k)
}

/// No occurrence starts between `from` and the next occurrence found.
proof fn lemma_next_occurrence_is_first(t: Seq<char>, w: Seq<char>, from: int)
    requires
        0 <= from,
    ensures
        forall|k: int|
            from <= k && (next_occurrence(t, w, from) == -1 || k < next_occurrence(t, w, from))
                ==> !#[trigger] occurs_at(t, w, k),
    decreases t.len() + 1 - from,
{
    if from + w.len() <= t.len() && !occurs_at(t, w, from) {
        lemma_next_occurrence_is_first(t, w, from + 1);
    }
}

/// The scan from `from` stops at a whole-word occurrence, and every
/// whole-word occurrence it passes (all of them, when it finds none) lies
/// inside an earlier occurrence.
proof fn lemma_scan_match_first_from(t: Seq<char>, w: Seq<char>, from: int)
    requires
        w.len() > 0,
        0 <= from,
    ensures
        scan_match(t, w, from) matches Some(i) ==> from <= i && whole_word_at(t, w, i),
        forall|j: int|
            from <= j && #[trigger] whole_word_at(t, w, j) && (scan_match(t, w, from) is None || j
                < scan_match(t, w, from)->0) ==> overlapped(t, w, j),
    decreases t.len() + 1 - from,
{
    if from <= t.len() {
        lemma_next_occurrence(t, w, from);
        lemma_next_occurrence_is_first(t, w, from);
        let o = next_occurrence(t, w, from);
        if o >= from && !(boundary_before(t, o) && boundary_after(t, o + w.len())) {
            lemma_scan_match_first_from(t, w, o + w.len());
            assert forall|j: int|
                from <= j && #[trigger] whole_word_at(t, w, j) && (scan_match(t, w, from) is None
                    || j < scan_match(t, w, from)->0) implies overlapped(t, w, j) by {
                if j < o + w.len() {
                    assert(o < j);
                    assert(occurs_at(t, w, o));
                }
            }
        }
    }
}

/// The whole-word search finds the first whole-word occurrence: the word
/// occurs at the match, in the lower-cased text, between word boundaries;
/// a whole-word occurrence before the match (or anywhere, when there is no
/// match) is only ever one that lies inside an earlier occurrence, which the
/// search steps over.
pub proof fn lemma_word_match_is_first_whole_word(text: Seq<char>, word: Seq<char>)
    ensures
        spec_word_match(text, word) matches Some(i) ==> whole_word_at(
            lower_case(text),
            lower_case(word),
            i,
        ),
        forall|j: int|
            #[trigger] whole_word_at(lower_case(text), lower_case(word), j) && lower_case(word).len()
                > 0 && trim_ws(word).len() > 0 && (spec_word_match(text, word) is None || j
                < spec_word_match(text, word)->0) ==> overlapped(lower_case(text), lower_case(word), j),
{
    if lower_case(word).len() > 0 {
        lemma_scan_match_first_from(lower_case(text), lower_case(word), 0);
    }
}

/// Whether `word` occurs in `text` as a whole word, ignoring case. A blank
/// word never does.
pub fn contains_word_boundary(text: &str, word: &str) -> (b: bool)
    ensures
        b == spec_word_match(text@, word@) is Some,
        trim_ws(word@).len() == 0 ==> !b,
        single_lower(text@) ==> b == (spec_wrap_cloze(text@, word@) is Some),
{
    let r = word_match(text, word);
    proof {
        if single_lower(text@) {
            lemma_search_agrees_with_marking(text@, word@);
        }
    }
    r.is_some()
}

/// Marks the first whole-word, case-insensitive occurrence of `word` in
/// `text` as the cloze deletion `{{c1::...}}`, keeping the text's own
/// letters; `None` when `word` does not occur as a whole word.
pub fn wrap_first_match_in_cloze(text: &str, word: &str) -> (r: Option<String>)
    ensures
        r matches Some(s) ==> spec_wrap_cloze(text@, word@) == Some(s@),
        r is None ==> spec_wrap_cloze(text@, word@) is None,
        all_ascii(text@) ==> (r is Some <==> spec_word_match(text@, word@) is Some),
        all_ascii(text@) && all_ascii(word@) && r is Some ==> ({
            let i = spec_word_match(text@, word@)->0;
            ascii_lower(text@.subrange(i, i + word@.len())) == ascii_lower(word@)
        }),
        trim_ws(word@).len() == 0 ==> r is None,
        r is Some ==> ({
            let i = spec_word_match(text@, word@)->0;
            lower_case(text@).subrange(i, i + lower_case(word@).len()) == lower_case(word@)
        }),
        single_lower(text@) ==> (r is Some <==> spec_word_match(text@, word@) is Some),
        single_lower(text@) && r is Some ==> ({
            let i = spec_word_match(text@, word@)->0;
            forall|j: int|
                0 <= j < lower_case(word@).len() ==> lowers_to(
                    #[trigger] text@[i + j],
                    lower_case(word@)[j],
                )
        }),
{
    match word_match(text, word) {
        None => None,
        Some(i) => {
            let lw = to_lowercase(word);
            let wl = chars_of(lw.as_str());
            let tc = chars_of(text);
            proof {
                lemma_scan_match_occurs(lower_case(text@), lower_case(word@), 0);
                let lt = lower_case(text@);
                let lwv = lower_case(word@);
                assert(lt.subrange(i as int, i + lwv.len()) =~= lwv);
                if single_lower(text@) {
                    lemma_lower_rendering_single(text@, lt);
                    assert forall|j: int| 0 <= j < lwv.len() implies lowers_to(
                        #[trigger] text@[i + j],
                        lwv[j],
                    ) by {
                        assert(lt.subrange(i as int, i + lwv.len())[j] == lt[i + j]);
                        assert(lowers_to(text@[i + j], lt[i + j]));
                    }
                }
                if all_ascii(text@) && all_ascii(word@) {
                    let lt = lower_case(text@);
                    let n = word@.len() as int;
                    assert(ascii_lower(text@.subrange(i as int, i + n)) =~= lt.subrange(i as int, i + n));
                }
            }
            if wl.len() > tc.len() || i > tc.len() - wl.len() {
                return None;
            }
            let e = i + wl.len();
            let mut out: Vec<char> = Vec::new();
            let mut k: usize = 0;
            while k < i
                invariant
                    k <= i <= e <= tc@.len(),
                    out@ == tc@.subrange(0, k as int),
                decreases i - k,
            {
                out.push(tc[k]);
                k = k + 1;
            }
            push_str(&mut out, "{{c1::");
            let ghost p1 = out@;
            while k < e
                invariant
                    i <= k <= e <= tc@.len(),
                    out@ == p1 + tc@.subrange(i as int, k as int),
                decreases e - k,
            {
                out.push(tc[k]);
                k = k + 1;
            }
            push_str(&mut out, "}}");
            let ghost p2 = out@;
            let n = tc.len();
            while k < n
                invariant
                    e <= k <= n,
                    n == tc@.len(),
                    out@ == p2 + tc@.subrange(e as int, k as int),
                decreases n - k,
            {
                out.push(tc[k]);
                k = k + 1;
            }
            assert(out@ =~= cloze_around(text@, i as int, e as int));
            Some(string_of(&out))
        },
    }
}

/// How many examples the back of the card shows besides the cloze sentence.
pub const MAX_BACK_EXAMPLES: usize = 2;

/// An AnkiConnect request: an action, the protocol version and its
/// parameters.
pub struct AnkiRequest<T> {
    pub action: String,
    pub version: u8,
    pub params: Option<T>,
}

/// An AnkiConnect reply: a result, or an error message.
pub struct AnkiResponse<T> {
    pub result: Option<T>,
    pub error: Option<String>,
}

/// The fields of a note of the cloze model.
pub struct ModelField {
    pub text: String,
    pub word: String,
    pub ipa: Option<String>,
    pub part_of_speech: Option<String>,
    pub definition: Option<String>,
    pub examples: Option<String>,
    pub audio: Option<String>,
    pub source: Option<String>,
}

/// A sound file attached to a note, given by a local path or a URL.
pub struct NoteAudio {
    pub filename: String,
    pub path: Option<String>,
    pub url: Option<String>,
    pub fields: Vec<String>,
}

/// A note to add.
pub struct Note {
    pub deck_name: String,
    pub model_name: String,
    pub fields: ModelField,
    pub audio: Option<Vec<NoteAudio>>,
}

/// The parameters of `addNote`.
pub struct AddNoteParams {
    pub note: Note,
}

/// An AnkiConnect request for `action` with `params`, in protocol version 6.
pub fn anki_request<T>(action: &str, params: Option<T>) -> (r: AnkiRequest<T>)
    ensures
        r.action@ == action@,
        r.version == 6,
        r.params == params,
{
    AnkiRequest { action: action.to_owned(), version: 6, params }
}

/// The first example from index `j` on in which the word occurs as a whole
/// word.
pub open spec fn first_cloze_example(exs: Seq<Seq<char>>, word: Seq<char>, j: int) -> Option<int>
    decreases exs.len() - j,
{
    if j < 0 || j >= exs.len() {
        None
    } else if spec_word_match(exs[j], word) is Some {
        Some(j)
    } else {
        first_cloze_example(exs, word, j + 1)
    }
}

/// The example of a definition that will carry the cloze deletion.
pub open spec fn spec_cloze_example(d: Definition, word: Seq<char>) -> Option<int> {
    first_cloze_example(views(d.examples@), word, 0)
}

/// The first definition from index `i` on that has a cloze example.
pub open spec fn first_def_with_cloze(defs: Seq<Definition>, word: Seq<char>, i: int) -> Option<int>
    decreases defs.len() - i,
{
    if i < 0 || i >= defs.len() {
        None
    } else if spec_cloze_example(defs[i], word) is Some {
        Some(i)
    } else {
        first_def_with_cloze(defs, word, i + 1)
    }
}

/// The first definition from index `i` on that has any example.
pub open spec fn first_def_with_examples(defs: Seq<Definition>, i: int) -> Option<int>
    decreases defs.len() - i,
{
    if i < 0 || i >= defs.len() {
        None
    } else if defs[i].examples@.len() > 0 {
        Some(i)
    } else {
        first_def_with_examples(defs, i + 1)
    }
}

/// The definition the card is built on: the first with an example that
/// contains the word, else the first with any example, else the first one.
pub open spec fn spec_primary_definition(e: Entry) -> Option<int> {
    let defs = e.definitions@;
    match first_def_with_cloze(defs, e.word@, 0) {
        Some(i) => Some(i),
        None => match first_def_with_examples(defs, 0) {
            Some(i) => Some(i),
            None => if defs.len() > 0 {
                Some(0)
            } else {
                None
            },
        },
    }
}

/// The sentence the cloze is made from, if any.
pub open spec fn spec_cloze_source(e: Entry) -> Option<Seq<char>> {
    match spec_primary_definition(e) {
        None => None,
        Some(i) => match spec_cloze_example(e.definitions@[i], e.word@) {
            None => None,
            Some(j) => Some(e.definitions@[i].examples@[j]@),
        },
    }
}

/// Some example of the definition contains the word as a whole word.
pub open spec fn has_word_example(d: Definition, word: Seq<char>) -> bool {
    exists|j: int| 0 <= j < d.examples@.len() && #[trigger] spec_word_match(d.examples@[j]@, word) is Some
}

proof fn lemma_first_cloze_example(exs: Seq<Seq<char>>, word: Seq<char>, j: int)
    requires
        0 <= j,
    ensures
        first_cloze_example(exs, word, j) matches Some(k) ==> j <= k < exs.len()
            && spec_word_match(exs[k], word) is Some && forall|m: int|
            j <= m < k ==> #[trigger] spec_word_match(exs[m], word) is None,
        first_cloze_example(exs, word, j) is None ==> forall|m: int|
            j <= m < exs.len() ==> #[trigger] spec_word_match(exs[m], word) is None,
    decreases exs.len() - j,
{
    if j < exs.len() && spec_word_match(exs[j], word) is None {
        lemma_first_cloze_example(exs, word, j + 1);
    }
}

/// A definition has a cloze example exactly when one of its examples
/// contains the word as a whole word; it is the first such example.
proof fn lemma_cloze_example_first(d: Definition, word: Seq<char>)
    ensures
        spec_cloze_example(d, word) is Some <==> has_word_example(d, word),
        spec_cloze_example(d, word) matches Some(j) ==> 0 <= j < d.examples@.len()
            && spec_word_match(d.examples@[j]@, word) is Some && forall|m: int|
            0 <= m < j ==> #[trigger] spec_word_match(d.examples@[m]@, word) is None,
{
    let exs = views(d.examples@);
    lemma_first_cloze_example(exs, word, 0);
    assert forall|m: int| 0 <= m < d.examples@.len() implies exs[m] == d.examples@[m]@ by {}
    if has_word_example(d, word) {
        let j = choose|j: int|
            0 <= j < d.examples@.len() && #[trigger] spec_word_match(d.examples@[j]@, word) is Some;
        assert(spec_word_match(exs[j], word) is Some);
    }
    if let Some(j) = spec_cloze_example(d, word) {
        assert(spec_word_match(d.examples@[j]@, word) is Some);
        assert forall|m: int| 0 <= m < j implies #[trigger] spec_word_match(d.examples@[m]@, word)
            is None by {
            assert(exs[m] == d.examples@[m]@);
        }
    }
}

proof fn lemma_first_def_with_cloze(defs: Seq<Definition>, word: Seq<char>, i: int)
    requires
        0 <= i,
    ensures
        first_def_with_cloze(defs, word, i) matches Some(k) ==> i <= k < defs.len()
            && spec_cloze_example(defs[k], word) is Some && forall|m: int|
            i <= m < k ==> #[trigger] spec_cloze_example(defs[m], word) is None,
        first_def_with_cloze(defs, word, i) is None ==> forall|m: int|
            i <= m < defs.len() ==> #[trigger] spec_cloze_example(defs[m], word) is None,
    decreases defs.len() - i,
{
    if i < defs.len() && spec_cloze_example(defs[i], word) is None {
        lemma_first_def_with_cloze(defs, word, i + 1);
    }
}

/// The card is built on the first definition that has an example containing
/// the word as a whole word: the cloze sentence is the first such example of
/// that definition, and the card text is that sentence with the word marked.
pub proof fn lemma_primary_definition_prefers_word_examples(e: Entry, i: int)
    requires
        0 <= i < e.definitions@.len(),
        has_word_example(e.definitions@[i], e.word@),
        forall|k: int| 0 <= k < i ==> !#[trigger] has_word_example(e.definitions@[k], e.word@),
    ensures
        spec_primary_definition(e) == Some(i),
        ({
            let exs = e.definitions@[i].examples@;
            exists|j: int|
                0 <= j < exs.len() && spec_word_match(exs[j]@, e.word@) is Some && (forall|m: int|
                    0 <= m < j ==> #[trigger] spec_word_match(exs[m]@, e.word@) is None)
                    && spec_cloze_source(e) == Some(exs[j]@) && (spec_wrap_cloze(exs[j]@, e.word@) matches Some(c)
                    ==> spec_cloze_text(e.word@, spec_cloze_source(e)) == c)
        }),
{
    let defs = e.definitions@;
    lemma_first_def_with_cloze(defs, e.word@, 0);
    lemma_cloze_example_first(defs[i], e.word@);
    assert forall|k: int| 0 <= k < i implies #[trigger] spec_cloze_example(defs[k], e.word@) is None by {
        lemma_cloze_example_first(defs[k], e.word@);
    }
    let j = spec_cloze_example(defs[i], e.word@)->0;
    assert(spec_cloze_source(e) == Some(defs[i].examples@[j]@));
}

/// When no definition has an example containing the word as a whole word,
/// there is no cloze sentence and the card text is the bare `{{c1::word}}`.
pub proof fn lemma_no_word_example_gives_bare_cloze(e: Entry)
    requires
        forall|k: int| 0 <= k < e.definitions@.len() ==> !#[trigger] has_word_example(e.definitions@[k], e.word@),
    ensures
        spec_cloze_source(e) is None,
        spec_cloze_text(e.word@, spec_cloze_source(e)) == "{{c1::"@ + e.word@ + "}}"@,
{
    let defs = e.definitions@;
    lemma_first_def_with_cloze(defs, e.word@, 0);
    if let Some(k) = first_def_with_cloze(defs, e.word@, 0) {
        lemma_cloze_example_first(defs[k], e.word@);
    }
    lemma_first_def_with_examples_in_range(defs, 0);
    if let Some(i) = spec_primary_definition(e) {
        lemma_cloze_example_first(defs[i], e.word@);
    }
}

proof fn lemma_first_def_with_examples_in_range(defs: Seq<Definition>, i: int)
    requires
        0 <= i,
    ensures
        first_def_with_examples(defs, i) matches Some(k) ==> i <= k < defs.len(),
    decreases defs.len() - i,
{
    if i < defs.len() && defs[i].examples@.len() == 0 {
        lemma_first_def_with_examples_in_range(defs, i + 1);
    }
}

/// The examples shown on the back, from index `i` on: those that are not the
/// cloze sentence, at most `limit` of them.
pub open spec fn kept_examples(
    exs: Seq<Seq<char>>,
    src: Option<Seq<char>>,
    i: int,
    limit: int,
) -> Seq<Seq<char>>
    decreases exs.len() - i,
{
    if i < 0 || i >= exs.len() || limit <= 0 {
        Seq::empty()
    } else if src == Some(exs[i]) {
        kept_examples(exs, src, i + 1, limit)
    } else {
        seq![exs[i]] + kept_examples(exs, src, i + 1, limit - 1)
    }
}

/// The back of the card shows at most `limit` examples, none of them the
/// cloze sentence, each one taken from the definition's examples.
pub proof fn lemma_kept_examples(exs: Seq<Seq<char>>, src: Option<Seq<char>>, i: int, limit: int)
    requires
        0 <= limit,
    ensures
        kept_examples(exs, src, i, limit).len() <= limit,
        forall|k: int|
            0 <= k < kept_examples(exs, src, i, limit).len() ==> src != Some(
                #[trigger] kept_examples(exs, src, i, limit)[k],
            ) && exs.contains(kept_examples(exs, src, i, limit)[k]),
    decreases exs.len() - i,
{
    if 0 <= i < exs.len() && limit > 0 {
        let rest_limit = if src == Some(exs[i]) { limit } else { limit - 1 };
        lemma_kept_examples(exs, src, i + 1, rest_limit);
        let k_all = kept_examples(exs, src, i, limit);
        let rest = kept_examples(exs, src, i + 1, rest_limit);
        if src != Some(exs[i]) {
            assert forall|k: int| 0 <= k < k_all.len() implies src != Some(#[trigger] k_all[k])
                && exs.contains(k_all[k]) by {
                if k == 0 {
                    assert(k_all[0] == exs[i]);
                } else {
                    assert(k_all[k] == rest[k - 1]);
                }
            }
        }
    }
}

/// The example blocks, one after another.
pub open spec fn examples_html(ks: Seq<Seq<char>>) -> Seq<char>
    decreases ks.len(),
{
    if ks.len() == 0 {
        Seq::empty()
    } else {
        spec_convert_html_example(ks[0]) + examples_html(ks.drop_first())
    }
}

/// The Examples field: the blocks of at most two examples other than the
/// cloze sentence, or nothing when there are none.
pub open spec fn spec_examples_field(d: Definition, src: Option<Seq<char>>) -> Option<Seq<char>> {
    let html = examples_html(kept_examples(views(d.examples@), src, 0, MAX_BACK_EXAMPLES as int));
    if html.len() == 0 {
        None
    } else {
        Some(html)
    }
}

/// The cloze text: the cloze sentence with the word marked, or the bare word
/// as the cloze when there is no such sentence.
pub open spec fn spec_cloze_text(word: Seq<char>, src: Option<Seq<char>>) -> Seq<char> {
    let bare = "{{c1::"@ + word + "}}"@;
    match src {
        None => bare,
        Some(ex) => match spec_wrap_cloze(ex, word) {
            Some(t) => t,
            None => bare,
        },
    }
}

fn find_cloze_example(definition: &Definition, word: &str) -> (r: Option<usize>)
    ensures
        match r {
            Some(j) => spec_cloze_example(*definition, word@) == Some(j as int),
            None => spec_cloze_example(*definition, word@) is None,
        },
        r matches Some(j) ==> j < definition.examples@.len(),
{
    let n = definition.examples.len();
    for j in 0..n
        invariant
            n == definition.examples@.len(),
            first_cloze_example(views(definition.examples@), word@, j as int) == spec_cloze_example(
                *definition,
                word@,
            ),
    {
        if contains_word_boundary(definition.examples[j].as_str(), word) {
            return Some(j);
        }
    }
    None
}

fn pick_primary_definition(word_entry: &Entry) -> (r: Option<usize>)
    ensures
        match r {
            Some(i) => spec_primary_definition(*word_entry) == Some(i as int),
            None => spec_primary_definition(*word_entry) is None,
        },
        r matches Some(i) ==> i < word_entry.definitions@.len(),
{
    let defs = &word_entry.definitions;
    let n = defs.len();
    for i in 0..n
        invariant
            n == defs@.len(),
            defs == &word_entry.definitions,
            first_def_with_cloze(defs@, word_entry.word@, i as int) == first_def_with_cloze(
                defs@,
                word_entry.word@,
                0,
            ),
    {
        if find_cloze_example(&defs[i], word_entry.word.as_str()).is_some() {
            return Some(i);
        }
    }
    for i in 0..n
        invariant
            n == defs@.len(),
            defs == &word_entry.definitions,
            first_def_with_cloze(defs@, word_entry.word@, 0) is None,
            first_def_with_examples(defs@, i as int) == first_def_with_examples(defs@, 0),
    {
        if defs[i].examples.len() > 0 {
            return Some(i);
        }
    }
    if n > 0 {
        Some(0)
    } else {
        None
    }
}

proof fn lemma_examples_html_push(ks: Seq<Seq<char>>, x: Seq<char>)
    ensures
        examples_html(seq![x] + ks) == spec_convert_html_example(x) + examples_html(ks),
{
    assert((seq![x] + ks).drop_first() =~= ks);
}

fn build_examples_html(definition: &Definition, cloze_source: Option<&String>) -> (r: Option<String>)
    ensures
        opt_view(r) == spec_examples_field(
            *definition,
            match cloze_source {
                Some(s) => Some(s@),
                None => None,
            },
        ),
{
    let ghost src: Option<Seq<char>> = match cloze_source {
        Some(s) => Some(s@),
        None => None,
    };
    let ghost exs = views(definition.examples@);
    let n = definition.examples.len();
    let mut out: Vec<char> = Vec::new();
    let mut left: usize = MAX_BACK_EXAMPLES;
    for i in 0..n
        invariant
            n == definition.examples@.len(),
            exs == views(definition.examples@),
            src == match cloze_source {
                Some(s) => Some(s@),
                None => None,
            },
            left <= MAX_BACK_EXAMPLES,
            out@ + examples_html(kept_examples(exs, src, i as int, left as int)) == examples_html(
                kept_examples(exs, src, 0, MAX_BACK_EXAMPLES as int),
            ),
    {
        if left > 0 {
            let ex = &definition.examples[i];
            let same = match cloze_source {
                Some(s) => *ex == *s,
                None => false,
            };
            if !same {
                let html = convert_html_example(ex.as_str());
                proof {
                    lemma_examples_html_push(kept_examples(exs, src, i + 1, left - 1), exs[i as int]);
                }
                push_str(&mut out, html.as_str());
                left = left - 1;
            }
        }
    }
    if out.len() == 0 {
        None
    } else {
        Some(string_of(&out))
    }
}

fn build_cloze_text(word_entry: &Entry, cloze_source: Option<&String>) -> (r: String)
    ensures
        r@ == spec_cloze_text(
            word_entry.word@,
            match cloze_source {
                Some(s) => Some(s@),
                None => None,
            },
        ),
{
    let wrapped = match cloze_source {
        Some(ex) => wrap_first_match_in_cloze(ex.as_str(), word_entry.word.as_str()),
        None => None,
    };
    match wrapped {
        Some(t) => t,
        None => {
            let mut out: Vec<char> = Vec::new();
            push_str(&mut out, "{{c1::");
            push_str(&mut out, word_entry.word.as_str());
            push_str(&mut out, "}}");
            string_of(&out)
        },
    }
}

/// The sound attached to a note: the US recording if there is one, else the
/// UK one, fetched by AnkiConnect from its URL into the `Audio` field.
pub open spec fn spec_note_audio_region(e: Entry) -> Option<(Seq<char>, Seq<char>)> {
    match e.audio.us {
        Some(u) => Some(("us"@, u@)),
        None => match e.audio.uk {
            Some(u) => Some(("uk"@, u@)),
            None => None,
        },
    }
}

fn audio_field_list() -> (r: Vec<String>)
    ensures
        r@.len() == 1,
        r@[0]@ == "Audio"@,
{
    let mut v: Vec<String> = Vec::new();
    v.push("Audio".to_owned());
    v
}

fn build_note_audio(word_entry: &Entry) -> (r: Option<Vec<NoteAudio>>)
    ensures
        match spec_note_audio_region(*word_entry) {
            None => r is None,
            Some((region, url)) => r matches Some(v) && v@.len() == 1 && v@[0].filename@
                == spec_audio_basename(word_entry.word@, region) && v@[0].path is None
                && opt_view(v@[0].url) == Some(url) && v@[0].fields@.len() == 1
                && v@[0].fields@[0]@ == "Audio"@,
        },
{
    let (region, url) = match &word_entry.audio.us {
        Some(u) => ("us", u.clone()),
        None => match &word_entry.audio.uk {
            Some(u) => ("uk", u.clone()),
            None => {
                return None;
            },
        },
    };
    let mut v: Vec<NoteAudio> = Vec::new();
    v.push(
        NoteAudio {
            filename: build_audio_filename(word_entry.word.as_str(), region),
            path: None,
            url: Some(url),
            fields: audio_field_list(),
        },
    );
    Some(v)
}

/// Builds the `addNote` request for a dictionary entry: the cloze note of
/// `model_name` in `deck_name`, made from the entry's primary definition.
pub fn create_add_word_request(word_entry: &Entry, deck_name: &str, model_name: &str) -> (r:
    AnkiRequest<AddNoteParams>)
    ensures
        r.action@ == "addNote"@,
        r.version == 6,
        r.params matches Some(p) && {
            let f = p.note.fields;
            let primary = spec_primary_definition(*word_entry);
            let src = spec_cloze_source(*word_entry);
            &&& p.note.deck_name@ == deck_name@
            &&& p.note.model_name@ == model_name@
            &&& f.text@ == spec_cloze_text(word_entry.word@, src)
            &&& f.word@ == word_entry.word@
            &&& opt_view(f.ipa) == match word_entry.phonetic.us {
                Some(u) => Some(spec_convert_html_phoetic(u@)),
                None => None,
            }
            &&& opt_view(f.part_of_speech) == opt_view(word_entry.part_of_speech)
            &&& opt_view(f.definition) == match primary {
                Some(i) => Some(spec_convert_html_definition(word_entry.definitions@[i].meaning@)),
                None => None,
            }
            &&& opt_view(f.examples) == match primary {
                Some(i) => spec_examples_field(word_entry.definitions@[i], src),
                None => None,
            }
            &&& opt_view(f.audio) == Some(Seq::<char>::empty())
            &&& opt_view(f.source) == Some("Cambridge Dictionary"@)
            &&& match spec_note_audio_region(*word_entry) {
                None => p.note.audio is None,
                Some((region, url)) => p.note.audio matches Some(v) && v@.len() == 1
                    && v@[0].filename@ == spec_audio_basename(word_entry.word@, region)
                    && v@[0].path is None && opt_view(v@[0].url) == Some(url)
                    && v@[0].fields@.len() == 1 && v@[0].fields@[0]@ == "Audio"@,
            }
        },
{
    let primary = pick_primary_definition(word_entry);
    let cloze_source: Option<&String> = match primary {
        Some(i) => match find_cloze_example(&word_entry.definitions[i], word_entry.word.as_str()) {
            Some(j) => Some(&word_entry.definitions[i].examples[j]),
            None => None,
        },
        None => None,
    };
    let definition = match primary {
        Some(i) => Some(convert_html_definition(word_entry.definitions[i].meaning.as_str())),
        None => None,
    };
    let examples = match primary {
        Some(i) => build_examples_html(&word_entry.definitions[i], cloze_source),
        None => None,
    };
    let text = build_cloze_text(word_entry, cloze_source);
    let audio = build_note_audio(word_entry);
    let ipa = match &word_entry.phonetic.us {
        Some(p) => Some(convert_html_phoetic(p.as_str())),
        None => None,
    };
    AnkiRequest {
        action: "addNote".to_owned(),
        version: 6,
        params: Some(
            AddNoteParams {
                note: Note {
                    deck_name: deck_name.to_owned(),
                    model_name: model_name.to_owned(),
                    fields: ModelField {
                        text,
                        word: word_entry.word.clone(),
                        ipa,
                        part_of_speech: clone_opt(&word_entry.part_of_speech),
                        definition,
                        examples,
                        audio: Some(String::new()),
                        source: Some("Cambridge Dictionary".to_owned()),
                    },
                    audio,
                },
            },
        ),
    }
}

} // verus!
