//! Reading a dictionary entry out of a Cambridge page.
use vstd::prelude::*;
use crate::cam::model::{opt_view, views, Audio, Definition, Entry, Phonetic};
use crate::text::{
    collapse_whitespace, collapse_ws, has_prefix, is_collapsed, lemma_collapse_shape, join_space, join_with_space, push_str, starts_with,
    chars_of, string_of,
};

verus! {

/// What the page gives for a CSS selector: for each matching element, in
/// document order, its descendant text nodes; `None` when the selector does
/// not parse.
pub uninterp spec fn html_select_texts(html: Seq<char>, selector: Seq<char>) -> Option<
    Seq<Seq<Seq<char>>>,
>;

/// Parses `html` with `scraper::Html::parse_document`, parses `selector` with
/// `scraper::Selector::parse` and, for each element `Html::select` yields, in
/// order, collects the text nodes of `ElementRef::text`. The result is named,
/// not described: only that it depends on the two strings alone is claimed.
#[verifier::external_body]
fn select_texts(html: &str, selector: &str) -> (r: Option<Vec<Vec<String>>>)
    ensures
        r.deep_view() == html_select_texts(html@, selector@),
{
    let doc = scraper::Html::parse_document(html);
    let sel = scraper::Selector::parse(selector).ok()?;
    Some(doc.select(&sel).map(|e| e.text().map(|t| t.to_string()).collect()).collect())
}

/// What the page gives for an attribute: for each element matching the
/// selector, in document order, the attribute's value if it has one; `None`
/// when the selector does not parse.
pub uninterp spec fn html_select_attrs(html: Seq<char>, selector: Seq<char>, attr: Seq<char>) -> Option<
    Seq<Option<Seq<char>>>,
>;

/// Parses the page and the selector as `select_texts` does and, for each
/// matching element, reads `Element::attr(attr)`. The result is named, not
/// described.
#[verifier::external_body]
fn select_attrs(html: &str, selector: &str, attr: &str) -> (r: Option<Vec<Option<String>>>)
    ensures
        r.deep_view() == html_select_attrs(html@, selector@, attr@),
{
    let doc = scraper::Html::parse_document(html);
    let sel = scraper::Selector::parse(selector).ok()?;
    Some(doc.select(&sel).map(|e| e.value().attr(attr).map(|v| v.to_string())).collect())
}

/// What the page gives for blocks: for each element matching `outer`, in
/// document order, the text nodes of each element inside it matching `first`
/// and of each matching `second`; `None` when a selector does not parse.
pub uninterp spec fn html_block_texts(
    html: Seq<char>,
    outer: Seq<char>,
    first: Seq<char>,
    second: Seq<char>,
) -> Option<Seq<(Seq<Seq<Seq<char>>>, Seq<Seq<Seq<char>>>)>>;

/// Parses the page and the three selectors with `scraper`, and for each
/// `outer` element collects, through `ElementRef::select` and
/// `ElementRef::text`, the text nodes of its `first` and `second`
/// descendants. The result is named, not described.
#[verifier::external_body]
fn select_block_texts(html: &str, outer: &str, first: &str, second: &str) -> (r: Option<
    Vec<(Vec<Vec<String>>, Vec<Vec<String>>)>,
>)
    ensures
        r.deep_view() == html_block_texts(html@, outer@, first@, second@),
{
    let doc = scraper::Html::parse_document(html);
    let o = scraper::Selector::parse(outer).ok()?;
    let a = scraper::Selector::parse(first).ok()?;
    let b = scraper::Selector::parse(second).ok()?;
    let texts = |e: scraper::ElementRef| -> Vec<String> { e.text().map(|t| t.to_string()).collect() };
    Some(doc.select(&o).map(|k| (k.select(&a).map(texts).collect(), k.select(&b).map(texts).collect())).collect())
}

/// The text of an element: its text nodes joined by spaces, with every run of
/// white space made one space and none at the ends.
pub open spec fn spec_element_text(texts: Seq<Seq<char>>) -> Seq<char> {
    collapse_ws(join_with_space(texts))
}

/// The normalised text of an element given its text nodes.
pub fn element_text(texts: &Vec<String>) -> (r: String)
    ensures
        r@ == spec_element_text(views(texts@)),
        is_collapsed(r@),
{
    proof {
        lemma_collapse_shape(join_with_space(views(texts@)), 0);
    }
    let joined = join_space(texts);
    string_of(&collapse_whitespace(&joined))
}

/// A page-relative path made absolute on the dictionary's site.
pub open spec fn spec_to_absolute_url(path: Seq<char>) -> Seq<char> {
    if has_prefix(path, "http://"@) || has_prefix(path, "https://"@) {
        path
    } else {
        "https://dictionary.cambridge.org"@ + path
    }
}

/// Makes an audio path absolute.
pub fn to_absolute_url(path: &str) -> (r: String)
    ensures
        r@ == spec_to_absolute_url(path@),
{
    let cs = chars_of(path);
    if starts_with(&cs, "http://") || starts_with(&cs, "https://") {
        return path.to_owned();
    }
    let mut out: Vec<char> = Vec::new();
    push_str(&mut out, "https://dictionary.cambridge.org");
    out.append(&mut chars_of(path));
    string_of(&out)
}

/// The normalised text of the `k`-th element found, if there is one.
pub open spec fn nth_text(found: Option<Seq<Seq<Seq<char>>>>, k: int) -> Option<Seq<char>> {
    match found {
        Some(es) => if 0 <= k < es.len() {
            Some(spec_element_text(es[k]))
        } else {
            None
        },
        None => None,
    }
}

/// The `k`-th element's attribute, made absolute, if the element and the
/// attribute are there.
pub open spec fn nth_url(found: Option<Seq<Option<Seq<char>>>>, k: int) -> Option<Seq<char>> {
    match found {
        Some(es) => if 0 <= k < es.len() {
            match es[k] {
                Some(p) => Some(spec_to_absolute_url(p)),
                None => None,
            }
        } else {
            None
        },
        None => None,
    }
}

/// The non-empty normalised texts of elements from index `i` on.
pub open spec fn nonempty_texts(es: Seq<Seq<Seq<char>>>, i: int) -> Seq<Seq<char>>
    decreases es.len() - i,
{
    if i < 0 || i >= es.len() {
        Seq::empty()
    } else if spec_element_text(es[i]).len() == 0 {
        nonempty_texts(es, i + 1)
    } else {
        seq![spec_element_text(es[i])] + nonempty_texts(es, i + 1)
    }
}

/// The examples of a block are exactly its non-empty normalised element
/// texts, all of them and in order: the element texts with the empty ones
/// filtered out.
pub proof fn lemma_nonempty_texts_filter(es: Seq<Seq<Seq<char>>>)
    ensures
        nonempty_texts(es, 0) == es.map_values(|e: Seq<Seq<char>>| spec_element_text(e)).filter(
            |t: Seq<char>| t.len() > 0,
        ),
{
    lemma_nonempty_texts_filter_from(es, 0);
    assert(es.subrange(0, es.len() as int) =~= es);
}

proof fn lemma_nonempty_texts_filter_from(es: Seq<Seq<Seq<char>>>, i: int)
    requires
        0 <= i <= es.len(),
    ensures
        nonempty_texts(es, i) == es.subrange(i, es.len() as int).map_values(
            |e: Seq<Seq<char>>| spec_element_text(e),
        ).filter(|t: Seq<char>| t.len() > 0),
    decreases es.len() - i,
{
    let f = |e: Seq<Seq<char>>| spec_element_text(e);
    let p = |t: Seq<char>| t.len() > 0;
    if i == es.len() {
        reveal(Seq::filter);
        assert(es.subrange(i, es.len() as int).map_values(f) =~= Seq::<Seq<char>>::empty());
    } else {
        lemma_nonempty_texts_filter_from(es, i + 1);
        let rest = es.subrange(i + 1, es.len() as int).map_values(f);
        assert(es.subrange(i, es.len() as int).map_values(f) =~= seq![spec_element_text(es[i])]
            + rest);
        rest.lemma_filter_prepend(spec_element_text(es[i]), p);
        if spec_element_text(es[i]).len() == 0 {
            assert(Seq::<Seq<char>>::empty() + rest.filter(p) =~= rest.filter(p));
        }
    }
}

/// The meaning of a definition block: the text of its first `.def` element
/// (empty when there is none).
pub open spec fn block_meaning(b: (Seq<Seq<Seq<char>>>, Seq<Seq<Seq<char>>>)) -> Seq<char> {
    if b.0.len() > 0 {
        spec_element_text(b.0[0])
    } else {
        Seq::empty()
    }
}

/// The definitions read from the blocks from index `i` on: a block with an
/// empty meaning is left out; the examples are the non-empty example texts.
pub open spec fn spec_definitions(
    blocks: Seq<(Seq<Seq<Seq<char>>>, Seq<Seq<Seq<char>>>)>,
    i: int,
) -> Seq<(Seq<char>, Seq<Seq<char>>)>
    decreases blocks.len() - i,
{
    if i < 0 || i >= blocks.len() {
        Seq::empty()
    } else if block_meaning(blocks[i]).len() == 0 {
        spec_definitions(blocks, i + 1)
    } else {
        seq![(block_meaning(blocks[i]), nonempty_texts(blocks[i].1, 0))] + spec_definitions(
            blocks,
            i + 1,
        )
    }
}

/// The view of a definition: its meaning and its examples.
pub open spec fn definition_view(d: Definition) -> (Seq<char>, Seq<Seq<char>>) {
    (d.meaning@, views(d.examples@))
}

/// The definition blocks a page has.
pub open spec fn page_blocks(html: Seq<char>) -> Seq<(Seq<Seq<Seq<char>>>, Seq<Seq<Seq<char>>>)> {
    match html_block_texts(html, ".def-block"@, ".def"@, ".examp .eg"@) {
        Some(b) => b,
        None => Seq::empty(),
    }
}

fn nth_element_text(found: &Option<Vec<Vec<String>>>, k: usize) -> (r: Option<String>)
    ensures
        opt_view(r) == nth_text(found.deep_view(), k as int),
{
    match found {
        Some(es) => if k < es.len() {
            assert(views(es@[k as int]@) =~= es.deep_view()[k as int]);
            Some(element_text(&es[k]))
        } else {
            None
        },
        None => None,
    }
}

fn nth_absolute_url(found: &Option<Vec<Option<String>>>, k: usize) -> (r: Option<String>)
    ensures
        opt_view(r) == nth_url(found.deep_view(), k as int),
{
    match found {
        Some(es) => if k < es.len() {
            match &es[k] {
                Some(p) => Some(to_absolute_url(p.as_str())),
                None => None,
            }
        } else {
            None
        },
        None => None,
    }
}

fn collect_examples(es: &Vec<Vec<String>>) -> (r: Vec<String>)
    ensures
        views(r@) == nonempty_texts(es.deep_view(), 0),
        views(r@) == es.deep_view().map_values(|e: Seq<Seq<char>>| spec_element_text(e)).filter(
            |t: Seq<char>| t.len() > 0,
        ),
{
    proof {
        lemma_nonempty_texts_filter(es.deep_view());
    }
    let ghost d = es.deep_view();
    let n = es.len();
    let mut out: Vec<String> = Vec::new();
    for i in 0..n
        invariant
            n == es@.len(),
            d == es.deep_view(),
            views(out@) + nonempty_texts(d, i as int) == nonempty_texts(d, 0),
    {
        let t = element_text(&es[i]);
        proof {
            assert(views(es@[i as int]@) =~= d[i as int]);
        }
        if !t.as_str().is_empty() {
            let ghost before = out@;
            out.push(t);
            proof {
                assert(views(out@) =~= views(before) + seq![t@]);
                assert(t@.len() > 0);
            }
        }
    }
    out
}

/// The definition blocks found, none when the selection failed.
pub open spec fn found_blocks(
    found: Option<Seq<(Seq<Seq<Seq<char>>>, Seq<Seq<Seq<char>>>)>>,
) -> Seq<(Seq<Seq<Seq<char>>>, Seq<Seq<Seq<char>>>)> {
    match found {
        Some(b) => b,
        None => Seq::empty(),
    }
}

/// Builds a dictionary entry from what a page gives for its selectors: the
/// definition blocks (meanings and examples), the headword, part-of-speech
/// and phonetic elements, and the MP3 source attributes. A block with an
/// empty meaning is left out, empty examples are dropped, texts are
/// normalised, the first two phonetics are UK then US, and the first two
/// sources, made absolute, are UK then US.
pub fn entry_from_selections(
    blocks: Option<Vec<(Vec<Vec<String>>, Vec<Vec<String>>)>>,
    dhw: Option<Vec<Vec<String>>>,
    pos: Option<Vec<Vec<String>>>,
    ipa: Option<Vec<Vec<String>>>,
    srcs: Option<Vec<Option<String>>>,
) -> (r: Entry)
    ensures
        r.definitions@.map_values(|d: Definition| definition_view(d)) == spec_definitions(
            found_blocks(blocks.deep_view()),
            0,
        ),
        r.word@ == match nth_text(dhw.deep_view(), 0) {
            Some(w) => w,
            None => Seq::empty(),
        },
        opt_view(r.part_of_speech) == nth_text(pos.deep_view(), 0),
        opt_view(r.phonetic.uk) == nth_text(ipa.deep_view(), 0),
        opt_view(r.phonetic.us) == nth_text(ipa.deep_view(), 1),
        opt_view(r.audio.uk) == nth_url(srcs.deep_view(), 0),
        opt_view(r.audio.us) == nth_url(srcs.deep_view(), 1),
{
    let ghost bd = found_blocks(blocks.deep_view());
    let blocks = match blocks {
        Some(b) => b,
        None => Vec::new(),
    };
    assert(bd == blocks.deep_view());
    let n = blocks.len();
    let mut definitions: Vec<Definition> = Vec::new();
    for i in 0..n
        invariant
            n == blocks@.len(),
            bd == blocks.deep_view(),
            definitions@.map_values(|d: Definition| definition_view(d)) + spec_definitions(bd, i as int)
                == spec_definitions(bd, 0),
    {
        let block = &blocks[i];
        let meaning = if block.0.len() > 0 {
            element_text(&block.0[0])
        } else {
            String::new()
        };
        proof {
            assert(bd[i as int].0 =~= block.0.deep_view());
            if block.0@.len() > 0 {
                assert(views(block.0@[0]@) =~= bd[i as int].0[0]);
            }
        }
        if !meaning.as_str().is_empty() {
            let examples = collect_examples(&block.1);
            let ghost before = definitions@;
            let d = Definition { meaning, examples };
            proof {
                assert(d.meaning@.len() > 0);
            }
            definitions.push(d);
            proof {
                assert(definitions@.map_values(|d: Definition| definition_view(d)) =~= before.map_values(
                    |d: Definition| definition_view(d),
                ) + seq![definition_view(d)]);
            }
        }
    }
    let word = match nth_element_text(&dhw, 0) {
        Some(w) => w,
        None => String::new(),
    };
    let part_of_speech = nth_element_text(&pos, 0);
    let uk_phonetic = nth_element_text(&ipa, 0);
    let us_phonetic = nth_element_text(&ipa, 1);
    let uk_mp3 = nth_absolute_url(&srcs, 0);
    let us_mp3 = nth_absolute_url(&srcs, 1);
    Entry {
        word,
        part_of_speech,
        phonetic: Phonetic { uk: uk_phonetic, us: us_phonetic },
        definitions,
        audio: Audio { uk: uk_mp3, us: us_mp3 },
    }
}

/// Reads a dictionary entry from a Cambridge page: its definition blocks, the
/// headword, part of speech, the UK and US phonetics (first and second `.ipa`)
/// and the UK and US MP3 sources (first and second `audio source`).
pub fn parse_entry(html: &str) -> (r: Entry)
    ensures
        r.definitions@.map_values(|d: Definition| definition_view(d)) == spec_definitions(
            page_blocks(html@),
            0,
        ),
        r.word@ == match nth_text(html_select_texts(html@, ".dhw"@), 0) {
            Some(w) => w,
            None => Seq::empty(),
        },
        opt_view(r.part_of_speech) == nth_text(html_select_texts(html@, ".pos"@), 0),
        opt_view(r.phonetic.uk) == nth_text(html_select_texts(html@, ".ipa"@), 0),
        opt_view(r.phonetic.us) == nth_text(html_select_texts(html@, ".ipa"@), 1),
        opt_view(r.audio.uk) == nth_url(
            html_select_attrs(html@, "audio source[type=\"audio/mpeg\"]"@, "src"@),
            0,
        ),
        opt_view(r.audio.us) == nth_url(
            html_select_attrs(html@, "audio source[type=\"audio/mpeg\"]"@, "src"@),
            1,
        ),
{
    let blocks = select_block_texts(html, ".def-block", ".def", ".examp .eg");
    let dhw = select_texts(html, ".dhw");
    let pos = select_texts(html, ".pos");
    let ipa = select_texts(html, ".ipa");
    let srcs = select_attrs(html, "audio source[type=\"audio/mpeg\"]", "src");
    entry_from_selections(blocks, dhw, pos, ipa, srcs)
}

} // verus!
