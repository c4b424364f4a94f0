//! Small formatting helpers for AnkiConnect and note fields.
use vstd::prelude::*;
use crate::text::{
    chars_of, has_prefix, lemma_trim_ws_ends, lemma_trim_ws_fixed, lemma_trim_ws_idempotent, push_str,
    starts_with, string_of, trim, trim_ws, trim_char, trim_matches, concat3, lemma_trim_char_ends,
    lemma_trim_char_wrapped,
};

verus! {

/// The address AnkiConnect listens on by default.
pub open spec fn default_anki_url() -> Seq<char> {
    "http://127.0.0.1:8765"@
}

/// The normalised AnkiConnect base URL for a user's input: the trimmed input,
/// the default address when that is empty, and `http://` put in front when it
/// names no scheme.
pub open spec fn spec_norm_anki_base_url(input: Seq<char>) -> Seq<char> {
    let t = trim_ws(input);
    if t.len() == 0 {
        default_anki_url()
    } else if has_prefix(t, "http://"@) || has_prefix(t, "https://"@) {
        t
    } else {
        "http://"@ + t
    }
}

/// Normalises the AnkiConnect URL typed by the user.
pub fn norm_anki_base_url(input: &str) -> (r: String)
    ensures
        r@ == spec_norm_anki_base_url(input@),
{
    let cs = chars_of(input);
    let trimmed = trim(&cs);
    if trimmed.len() == 0 {
        return "http://127.0.0.1:8765".to_owned();
    }
    if starts_with(&trimmed, "http://") || starts_with(&trimmed, "https://") {
        string_of(&trimmed)
    } else {
        let mut out: Vec<char> = Vec::new();
        push_str(&mut out, "http://");
        let mut rest = trimmed;
        out.append(&mut rest);
        string_of(&out)
    }
}

/// Normalising an already normalised URL changes nothing.
pub proof fn lemma_norm_anki_base_url_idempotent(input: Seq<char>)
    ensures
        spec_norm_anki_base_url(spec_norm_anki_base_url(input)) == spec_norm_anki_base_url(input),
{
    reveal_strlit("http://127.0.0.1:8765");
    reveal_strlit("http://");
    reveal_strlit("https://");
    let t = trim_ws(input);
    lemma_trim_ws_ends(input);
    if t.len() == 0 {
        let d = default_anki_url();
        lemma_trim_ws_fixed(d);
        assert(d.subrange(0, 7) =~= "http://"@);
    } else if has_prefix(t, "http://"@) || has_prefix(t, "https://"@) {
        lemma_trim_ws_idempotent(input);
    } else {
        let u = "http://"@ + t;
        assert(u[u.len() - 1] == t[t.len() - 1]);
        lemma_trim_ws_fixed(u);
        assert(u.subrange(0, 7) =~= "http://"@);
    }
}

/// The IPA field: the phonetic spelling between single slashes, whatever
/// slashes it carried at its ends.
pub open spec fn spec_convert_html_phoetic(p: Seq<char>) -> Seq<char> {
    "/"@ + trim_char(p, '/') + "/"@
}

/// Formatting an already formatted IPA field changes nothing.
pub proof fn lemma_convert_html_phoetic_idempotent(p: Seq<char>)
    ensures
        spec_convert_html_phoetic(spec_convert_html_phoetic(p)) == spec_convert_html_phoetic(p),
{
    reveal_strlit("/");
    let t = trim_char(p, '/');
    lemma_trim_char_ends(p, '/');
    lemma_trim_char_wrapped(t, '/');
    assert("/"@ =~= seq!['/']);
}

/// Wraps a phonetic spelling in exactly one pair of slashes.
pub fn convert_html_phoetic(phoetic: &str) -> (r: String)
    ensures
        r@ == spec_convert_html_phoetic(phoetic@),
        spec_convert_html_phoetic(r@) == r@,
{
    proof {
        lemma_convert_html_phoetic_idempotent(phoetic@);
    }
    let cs = chars_of(phoetic);
    let inner = string_of(&trim_matches(&cs, '/'));
    concat3("/", inner.as_str(), "/")
}

/// The HTML block that shows a definition on the card.
pub open spec fn spec_convert_html_definition(def: Seq<char>) -> Seq<char> {
    "<div class=\"text-base leading-7 text-slate-700 text-pretty\">"@ + def + "</div>"@
}

/// Wraps a definition in its styled HTML block.
pub fn convert_html_definition(def: &str) -> (r: String)
    ensures
        r@ == spec_convert_html_definition(def@),
{
    concat3("<div class=\"text-base leading-7 text-slate-700 text-pretty\">", def, "</div>")
}

/// The HTML block that shows an example sentence on the card.
pub open spec fn spec_convert_html_example(exp: Seq<char>) -> Seq<char> {
    "<div class=\"border-l-2 border-slate-200 pl-4 text-base italic leading-7 text-slate-600 text-pretty\">"@
        + exp + "</div>"@
}

/// Wraps an example sentence in its styled HTML block.
pub fn convert_html_example(exp: &str) -> (r: String)
    ensures
        r@ == spec_convert_html_example(exp@),
{
    concat3(
        "<div class=\"border-l-2 border-slate-200 pl-4 text-base italic leading-7 text-slate-600 text-pretty\">",
        exp,
        "</div>",
    )
}

} // verus!
