//! What the Study4 import decides: deck names and sizes, asset paths and
//! media names, the note built from a term, and the tally of results.
use vstd::prelude::*;
use crate::anki::anki_connect::Study4Note;
use crate::anki::model::{spec_wrap_cloze, wrap_first_match_in_cloze};
use crate::cam::model::{clone_opt, opt_view};
use crate::study4::db::{Study4Example, Study4Term};
use crate::text::{
    chars_of, contains_seq, contains_str, decimal, digit_char, has_prefix, push_decimal, push_str, string_of,
    trim, trim_ws,
};

verus! {

/// How the import runs: the AnkiConnect address and the database file.
pub struct ImportConfig {
    pub anki_url: String,
    pub db_path: String,
}

/// The tally of an import.
pub struct ImportSummary {
    pub decks_created: usize,
    pub notes_added: usize,
    pub notes_skipped: usize,
    pub notes_failed: usize,
}

/// The most notes one deck receives; a larger topic is split into parts.
pub const MAX_DECK_SIZE: usize = 30;

/// How many notes are sent to AnkiConnect at the same time.
pub const IMPORT_CONCURRENCY: usize = 8;

/// `Complete TOEIC::<topic>`.
pub open spec fn spec_deck_name_from_topic(topic: Seq<char>) -> Seq<char> {
    "Complete TOEIC::"@ + topic
}

/// The deck of a topic.
pub fn deck_name_from_topic(topic: &str) -> (r: String)
    ensures
        r@ == spec_deck_name_from_topic(topic@),
{
    let mut out: Vec<char> = Vec::new();
    push_str(&mut out, "Complete TOEIC::");
    push_str(&mut out, topic);
    string_of(&out)
}

/// The deck of part `part_idx` (from 0) of a topic split into `total_parts`:
/// the topic's deck when there is one part, else the deck name followed by
/// ` (<part>/<total>)`, counting parts from 1.
pub open spec fn spec_deck_part_name(topic: Seq<char>, part_idx: nat, total_parts: nat) -> Seq<char> {
    if total_parts == 1 {
        spec_deck_name_from_topic(topic)
    } else {
        "Complete TOEIC::"@ + topic + " ("@ + decimal(part_idx + 1) + "/"@ + decimal(total_parts)
            + ")"@
    }
}

/// The digit character of `d` is the character `'0' + d`.
proof fn lemma_digit_char(d: int)
    requires
        0 <= d < 10,
    ensures
        digit_char(d) as int == 48 + d,
{
    let x: u32 = (48 + d) as u32;
    assert(x as int == 48 + d);
}

/// A decimal numeral is made of digits, at least one, and at least two from 10 on.
proof fn lemma_decimal_digits(n: nat)
    ensures
        decimal(n).len() >= 1,
        n >= 10 ==> decimal(n).len() >= 2,
        forall|k: int| 0 <= k < decimal(n).len() ==> 48 <= #[trigger] decimal(n)[k] as int <= 57,
    decreases n,
{
    if n >= 10 {
        lemma_decimal_digits(n / 10);
        lemma_digit_char((n % 10) as int);
    } else {
        lemma_digit_char(n as int);
    }
}

/// Different numbers have different decimal numerals.
proof fn lemma_decimal_injective(a: nat, b: nat)
    requires
        decimal(a) == decimal(b),
    ensures
        a == b,
    decreases a,
{
    lemma_decimal_digits(a);
    lemma_decimal_digits(b);
    let da = decimal(a);
    if a < 10 && b < 10 {
        lemma_digit_char(a as int);
        lemma_digit_char(b as int);
        assert(da[0] == digit_char(a as int));
        assert(decimal(b)[0] == digit_char(b as int));
    } else if a >= 10 && b >= 10 {
        let l = da.len() - 1;
        assert(decimal(a / 10) =~= da.subrange(0, l));
        assert(decimal(b / 10) =~= da.subrange(0, l));
        lemma_decimal_injective(a / 10, b / 10);
        let x = (a % 10) as int;
        let y = (b % 10) as int;
        assert(da[l] == digit_char(x));
        assert(da[l] == digit_char(y));
        lemma_digit_char(x);
        lemma_digit_char(y);
        assert(x == y);
        assert(a / 10 == b / 10);
        assert(a == 10 * (a / 10) + x);
        assert(b == 10 * (b / 10) + y);
    }
}

/// A topic split into several parts names every part's deck after the
/// topic's deck followed by ` (k/n)`, `k` the part counted from 1 and `n` the
/// number of parts; the topic's own deck name is used only for a topic in one
/// part.
pub proof fn lemma_deck_part_name_suffix(topic: Seq<char>, part_idx: nat, total_parts: nat)
    ensures
        total_parts == 1 ==> spec_deck_part_name(topic, part_idx, total_parts)
            == spec_deck_name_from_topic(topic),
        total_parts != 1 ==> ({
            let name = spec_deck_part_name(topic, part_idx, total_parts);
            let suffix = " ("@ + decimal(part_idx + 1) + "/"@ + decimal(total_parts) + ")"@;
            let base = spec_deck_name_from_topic(topic);
            &&& name.len() == base.len() + suffix.len()
            &&& name.subrange(0, base.len() as int) == base
            &&& name.subrange(base.len() as int, name.len() as int) == suffix
            &&& name != base
        }),
{
    if total_parts != 1 {
        let name = spec_deck_part_name(topic, part_idx, total_parts);
        let suffix = " ("@ + decimal(part_idx + 1) + "/"@ + decimal(total_parts) + ")"@;
        let base = spec_deck_name_from_topic(topic);
        assert(name =~= base + suffix);
        assert(name.subrange(0, base.len() as int) =~= base);
        assert(name.subrange(base.len() as int, name.len() as int) =~= suffix);
        reveal_strlit(" (");
        assert(suffix.len() > 0);
    }
}

/// The parts of a topic split into several parts go to different decks.
pub proof fn lemma_deck_part_names_distinct(topic: Seq<char>, i: nat, j: nat, total_parts: nat)
    requires
        total_parts != 1,
        i != j,
    ensures
        spec_deck_part_name(topic, i, total_parts) != spec_deck_part_name(topic, j, total_parts),
{
    let p = "Complete TOEIC::"@ + topic + " ("@;
    let q = "/"@ + decimal(total_parts) + ")"@;
    let di = decimal(i + 1);
    let dj = decimal(j + 1);
    let ni = spec_deck_part_name(topic, i, total_parts);
    let nj = spec_deck_part_name(topic, j, total_parts);
    assert(ni =~= p + di + q);
    assert(nj =~= p + dj + q);
    reveal_strlit("/");
    lemma_decimal_digits(i + 1);
    lemma_decimal_digits(j + 1);
    if ni == nj {
        let s = p.len() as int;
        if di.len() == dj.len() {
            assert(di =~= ni.subrange(s, s + di.len()));
            assert(dj =~= nj.subrange(s, s + dj.len()));
            lemma_decimal_injective(i + 1, j + 1);
        } else if di.len() < dj.len() {
            assert(ni[s + di.len()] == '/');
            assert(nj[s + di.len()] == dj[di.len() as int]);
        } else {
            assert(nj[s + dj.len()] == '/');
            assert(ni[s + dj.len()] == di[dj.len() as int]);
        }
    }
}

/// Names the deck of one part of a topic.
pub fn deck_part_name(topic: &str, part_idx: usize, total_parts: usize) -> (r: String)
    requires
        part_idx < usize::MAX,
    ensures
        r@ == spec_deck_part_name(topic@, part_idx as nat, total_parts as nat),
{
    if total_parts == 1 {
        return deck_name_from_topic(topic);
    }
    let mut out: Vec<char> = Vec::new();
    push_str(&mut out, "Complete TOEIC::");
    push_str(&mut out, topic);
    push_str(&mut out, " (");
    push_decimal(&mut out, part_idx + 1);
    push_str(&mut out, "/");
    push_decimal(&mut out, total_parts);
    push_str(&mut out, ")");
    string_of(&out)
}

/// The index ranges that split `n` terms into decks: consecutive runs of
/// `MAX_DECK_SIZE`, the last one holding the rest.
pub open spec fn deck_ranges_ok(n: int, r: Seq<(usize, usize)>) -> bool {
    &&& r.len() == (n + MAX_DECK_SIZE - 1) / (MAX_DECK_SIZE as int)
    &&& forall|k: int|
        #![trigger r[k]]
        0 <= k < r.len() ==> r[k].0 == k * MAX_DECK_SIZE && r[k].1 == if (k + 1) * MAX_DECK_SIZE
            <= n {
            (k + 1) * MAX_DECK_SIZE
        } else {
            n
        }
}

/// Splits `n` terms into decks of at most `MAX_DECK_SIZE`, in order.
pub fn deck_ranges(n: usize) -> (r: Vec<(usize, usize)>)
    ensures
        deck_ranges_ok(n as int, r@),
{
    let mut out: Vec<(usize, usize)> = Vec::new();
    let mut start: usize = 0;
    while start < n
        invariant
            start <= n,
            start == if out@.len() * MAX_DECK_SIZE <= n {
                out@.len() * MAX_DECK_SIZE
            } else {
                n as int
            },
            out@.len() == 0 || (out@.len() - 1) * MAX_DECK_SIZE < n,
            forall|k: int|
                #![trigger out@[k]]
                0 <= k < out@.len() ==> out@[k].0 == k * MAX_DECK_SIZE && out@[k].1 == if (k + 1)
                    * MAX_DECK_SIZE <= n {
                    (k + 1) * MAX_DECK_SIZE
                } else {
                    n as int
                },
        decreases n - start,
    {
        let end = if n - start >= MAX_DECK_SIZE {
            start + MAX_DECK_SIZE
        } else {
            n
        };
        out.push((start, end));
        start = end;
    }
    proof {
        let c = out@.len() as int;
        assert(c == (n + MAX_DECK_SIZE - 1) / (MAX_DECK_SIZE as int)) by (nonlinear_arith)
            requires
                c * 30 >= n,
                c == 0 || (c - 1) * 30 < n,
                n >= 0,
                c >= 0,
        {}
    }
    out
}

/// The first of the comma-separated image paths, trimmed.
pub open spec fn spec_first_image(paths: Seq<char>) -> Seq<char> {
    let cut = if exists|i: int| 0 <= i < paths.len() && paths[i] == ',' {
        choose|i: int| 0 <= i < paths.len() && paths[i] == ',' && forall|j: int| 0 <= j < i ==> paths[j] != ','
    } else {
        paths.len() as int
    };
    trim_ws(paths.subrange(0, cut))
}

/// The image a term shows: the first path of its list, trimmed.
pub fn image_candidate(term: &Study4Term) -> (r: Option<String>)
    ensures
        match term.image_paths {
            Some(p) => r matches Some(s) && s@ == spec_first_image(p@),
            None => r is None,
        },
{
    match &term.image_paths {
        None => None,
        Some(p) => {
            let cs = chars_of(p.as_str());
            let n = cs.len();
            let mut i: usize = 0;
            while i < n && cs[i] != ','
                invariant
                    i <= n,
                    n == cs@.len(),
                    cs@ == p@,
                    forall|j: int| 0 <= j < i ==> cs@[j] != ',',
                decreases n - i,
            {
                i = i + 1;
            }
            let mut first: Vec<char> = Vec::new();
            let mut k: usize = 0;
            while k < i
                invariant
                    k <= i <= n,
                    n == cs@.len(),
                    first@ == cs@.subrange(0, k as int),
                decreases i - k,
            {
                first.push(cs[k]);
                k = k + 1;
            }
            proof {
                if i < n {
                    let c = choose|c: int| 0 <= c < p@.len() && p@[c] == ',' && forall|j: int| 0 <= j < c ==> p@[j] != ',';
                    assert(p@[i as int] == ',');
                    if c < i {
                        assert(cs@[c] != ',');
                    }
                    if c > i {
                        assert(p@[i as int] != ',');
                    }
                }
            }
            Some(string_of(&trim(&first)))
        },
    }
}

/// The recording a term plays: the UK one if it has one, else the US one.
pub fn audio_candidate(term: &Study4Term) -> (r: Option<String>)
    ensures
        opt_view(r) == match term.audio_uk_path {
            Some(p) => Some(p@),
            None => opt_view(term.audio_us_path),
        },
{
    match &term.audio_uk_path {
        Some(p) => Some(p.clone()),
        None => clone_opt(&term.audio_us_path),
    }
}

/// `s` with every leading repetition of `p` removed, as
/// `str::trim_start_matches` does for a string pattern.
pub open spec fn strip_prefix_all(s: Seq<char>, p: Seq<char>) -> Seq<char>
    decreases s.len(),
{
    if p.len() > 0 && has_prefix(s, p) {
        strip_prefix_all(s.subrange(p.len() as int, s.len() as int), p)
    } else {
        s
    }
}

/// The database's asset path relative to the working directory: without the
/// leading `data/` parts it is stored with.
pub fn relative_asset_path(db_path_field: &str) -> (r: String)
    ensures
        r@ == strip_prefix_all(db_path_field@, "data/"@),
{
    let cs = chars_of(db_path_field);
    let pc = chars_of("data/");
    let n = cs.len();
    let m = pc.len();
    let mut i: usize = 0;
    proof {
        reveal_strlit("data/");
        assert(cs@.subrange(0, n as int) =~= cs@);
    }
    loop
        invariant
            i <= n,
            n == cs@.len(),
            m == pc@.len(),
            m == 5,
            pc@ == "data/"@,
            strip_prefix_all(cs@.subrange(i as int, n as int), pc@) == strip_prefix_all(cs@, pc@),
        ensures
            i <= n,
            n == cs@.len(),
            strip_prefix_all(cs@.subrange(i as int, n as int), pc@) == strip_prefix_all(cs@, pc@),
            strip_prefix_all(cs@.subrange(i as int, n as int), pc@) == cs@.subrange(i as int, n as int),
        decreases n - i,
    {
        let ghost rest = cs@.subrange(i as int, n as int);
        if n - i < m {
            assert(!has_prefix(rest, pc@));
            break;
        }
        let mut same = true;
        let mut k: usize = 0;
        while k < m
            invariant
                k <= m,
                i + m <= n,
                n == cs@.len(),
                m == pc@.len(),
                same == forall|j: int| 0 <= j < k ==> cs@[i + j] == pc@[j],
            decreases m - k,
        {
            if cs[i + k] != pc[k] {
                same = false;
            }
            k = k + 1;
        }
        if !same {
            proof {
                let j = choose|j: int| 0 <= j < m && cs@[i + j] != pc@[j];
                assert(rest.subrange(0, m as int)[j] != pc@[j]);
                assert(!has_prefix(rest, pc@));
            }
            break;
        }
        proof {
            assert(rest.subrange(0, m as int) =~= pc@);
            assert(rest.subrange(m as int, rest.len() as int) =~= cs@.subrange(i + m, n as int));
        }
        i = i + m;
    }
    let mut out: Vec<char> = Vec::new();
    let mut k = i;
    while k < n
        invariant
            i <= k <= n,
            n == cs@.len(),
            out@ == cs@.subrange(i as int, k as int),
        decreases n - k,
    {
        out.push(cs[k]);
        k = k + 1;
    }
    string_of(&out)
}

/// What `Path::join` gives for a base directory and a relative path, read
/// back as a string.
pub uninterp spec fn joined_path(base: Seq<char>, rel: Seq<char>) -> Seq<char>;

/// `std::path::Path::join` of two UTF-8 paths, converted back with
/// `to_string_lossy` (lossless here). The result is named, not described.
#[verifier::external_body]
fn path_join(base: &str, rel: &str) -> (r: String)
    ensures
        r@ == joined_path(base@, rel@),
{
    std::path::Path::new(base).join(rel).to_string_lossy().to_string()
}

/// The absolute path of an asset: the relative path joined onto the
/// (absolute) working directory. Without a working directory no absolute
/// path can be built, and there is none.
pub fn resolve_asset_path(db_path_field: &str, cwd: Option<&str>) -> (r: Option<String>)
    ensures
        opt_view(r) == match cwd {
            Some(c) => Some(joined_path(c@, strip_prefix_all(db_path_field@, "data/"@))),
            None => None,
        },
{
    match cwd {
        Some(c) => {
            let rel = relative_asset_path(db_path_field);
            Some(path_join(c, rel.as_str()))
        },
        None => None,
    }
}

/// What `Path::extension` gives for a path.
pub uninterp spec fn path_extension(p: Seq<char>) -> Option<Seq<char>>;

/// `std::path::Path::extension` read as a string (always valid UTF-8 here).
/// The result is named, not described.
#[verifier::external_body]
fn extension_of(p: &str) -> (r: Option<String>)
    ensures
        opt_view(r) == path_extension(p@),
{
    std::path::Path::new(p).extension().and_then(|e| e.to_str()).map(|e| e.to_string())
}

/// An audio file stored as `.bin` is an error page, not a recording.
pub fn is_placeholder_audio(abs_path: &str) -> (b: bool)
    ensures
        b == (path_extension(abs_path@) == Some("bin"@)),
{
    match extension_of(abs_path) {
        Some(e) => str_eq_bin(e.as_str()),
        None => false,
    }
}

fn str_eq_bin(e: &str) -> (b: bool)
    ensures
        b == (e@ == "bin"@),
{
    crate::text::str_eq(e, "bin")
}

/// What `Path::file_name` gives for a path.
pub uninterp spec fn path_file_name(p: Seq<char>) -> Option<Seq<char>>;

/// `std::path::Path::file_name` read as a string. The result is named, not
/// described.
#[verifier::external_body]
fn file_name_of(p: &str) -> (r: Option<String>)
    ensures
        opt_view(r) == path_file_name(p@),
{
    std::path::Path::new(p).file_name().and_then(|n| n.to_str()).map(|n| n.to_string())
}

/// What `Path::file_stem` gives for a path.
pub uninterp spec fn path_file_stem(p: Seq<char>) -> Option<Seq<char>>;

/// `std::path::Path::file_stem` read as a string. The result is named, not
/// described.
#[verifier::external_body]
fn file_stem_of(p: &str) -> (r: Option<String>)
    ensures
        opt_view(r) == path_file_stem(p@),
{
    std::path::Path::new(p).file_stem().and_then(|n| n.to_str()).map(|n| n.to_string())
}

/// The media name of an image: its file name, or `unknown`.
pub fn media_filename(abs_path: &str) -> (r: String)
    ensures
        r@ == match path_file_name(abs_path@) {
            Some(n) => n,
            None => "unknown"@,
        },
{
    match file_name_of(abs_path) {
        Some(n) => n,
        None => "unknown".to_owned(),
    }
}

/// The media name of a recording: its file stem (or `unknown`) with `.mp3`,
/// since the recordings are stored under another extension.
pub fn audio_anki_filename(abs_path: &str) -> (r: String)
    ensures
        r@ == match path_file_stem(abs_path@) {
            Some(n) => n,
            None => "unknown"@,
        } + ".mp3"@,
{
    let stem = match file_stem_of(abs_path) {
        Some(n) => n,
        None => "unknown".to_owned(),
    };
    let mut out = chars_of(stem.as_str());
    push_str(&mut out, ".mp3");
    string_of(&out)
}

/// Marks `word` as cloze in `sentence` (as the Cambridge notes do).
pub fn try_wrap_cloze(sentence: &str, word: &str) -> (r: Option<String>)
    ensures
        opt_view(r) == spec_wrap_cloze(sentence@, word@),
{
    wrap_first_match_in_cloze(sentence, word)
}

/// The texts of the examples.
pub open spec fn example_texts(examples: Seq<Study4Example>) -> Seq<Seq<char>> {
    examples.map_values(|e: Study4Example| e.text@)
}

/// The cloze of the first example, from index `i` on, that marks the word.
pub open spec fn first_cloze_from(exs: Seq<Seq<char>>, word: Seq<char>, i: int) -> Option<Seq<char>>
    decreases exs.len() - i,
{
    if i < 0 || i >= exs.len() {
        None
    } else {
        match spec_wrap_cloze(exs[i], word) {
            Some(c) => Some(c),
            None => first_cloze_from(exs, word, i + 1),
        }
    }
}

/// The cloze text of a term: the first example in which the word can be
/// marked, or the bare word as the cloze.
pub open spec fn spec_build_cloze(word: Seq<char>, examples: Seq<Study4Example>) -> Seq<char> {
    match first_cloze_from(example_texts(examples), word, 0) {
        Some(c) => c,
        None => "{{c1::"@ + word + "}}"@,
    }
}

proof fn lemma_first_cloze_from(exs: Seq<Seq<char>>, word: Seq<char>, i: int, k: int)
    requires
        0 <= i <= k < exs.len(),
        spec_wrap_cloze(exs[k], word) is Some,
        forall|m: int| i <= m < k ==> #[trigger] spec_wrap_cloze(exs[m], word) is None,
    ensures
        first_cloze_from(exs, word, i) == spec_wrap_cloze(exs[k], word),
    decreases k - i,
{
    if i < k {
        lemma_first_cloze_from(exs, word, i + 1, k);
    }
}

proof fn lemma_no_cloze_from(exs: Seq<Seq<char>>, word: Seq<char>, i: int)
    requires
        0 <= i,
        forall|m: int| i <= m < exs.len() ==> #[trigger] spec_wrap_cloze(exs[m], word) is None,
    ensures
        first_cloze_from(exs, word, i) is None,
    decreases exs.len() - i,
{
    if i < exs.len() {
        lemma_no_cloze_from(exs, word, i + 1);
    }
}

/// The cloze text of a term is the marking of the first example in which the
/// word can be marked, wherever it stands in the list.
pub proof fn lemma_build_cloze_first_marked_example(
    word: Seq<char>,
    examples: Seq<Study4Example>,
    k: int,
)
    requires
        0 <= k < examples.len(),
        spec_wrap_cloze(examples[k].text@, word) is Some,
        forall|m: int| 0 <= m < k ==> #[trigger] spec_wrap_cloze(examples[m].text@, word) is None,
    ensures
        spec_build_cloze(word, examples) == spec_wrap_cloze(examples[k].text@, word)->0,
{
    let exs = example_texts(examples);
    assert forall|m: int| 0 <= m < k implies #[trigger] spec_wrap_cloze(exs[m], word) is None by {
        assert(exs[m] == examples[m].text@);
    }
    assert(exs[k] == examples[k].text@);
    lemma_first_cloze_from(exs, word, 0, k);
}

/// When the word can be marked in none of the examples, the cloze text is
/// the bare `{{c1::word}}`.
pub proof fn lemma_build_cloze_bare(word: Seq<char>, examples: Seq<Study4Example>)
    requires
        forall|m: int| 0 <= m < examples.len() ==> #[trigger] spec_wrap_cloze(examples[m].text@, word) is None,
    ensures
        spec_build_cloze(word, examples) == "{{c1::"@ + word + "}}"@,
{
    let exs = example_texts(examples);
    assert forall|m: int| 0 <= m < exs.len() implies #[trigger] spec_wrap_cloze(exs[m], word) is None by {
        assert(exs[m] == examples[m].text@);
    }
    lemma_no_cloze_from(exs, word, 0);
}

/// Builds the cloze text of a term from its examples.
pub fn build_cloze(word: &str, examples: &[Study4Example]) -> (r: String)
    ensures
        r@ == spec_build_cloze(word@, examples@),
{
    let n = examples.len();
    for i in 0..n
        invariant
            n == examples@.len(),
            first_cloze_from(example_texts(examples@), word@, i as int) == first_cloze_from(
                example_texts(examples@),
                word@,
                0,
            ),
    {
        match try_wrap_cloze(examples[i].text.as_str(), word) {
            Some(c) => {
                return c;
            },
            None => {},
        }
    }
    let mut out: Vec<char> = Vec::new();
    push_str(&mut out, "{{c1::");
    push_str(&mut out, word);
    push_str(&mut out, "}}");
    string_of(&out)
}

/// The HTML of one example: its text and, when there is one, its translation.
pub open spec fn spec_example_item(e: Study4Example) -> Seq<char> {
    let trans = match e.translation {
        Some(t) => "<div class=\"example-trans\">"@ + t@ + "</div>"@,
        None => Seq::empty(),
    };
    "<div class=\"example-item\"><div class=\"example-text\">"@ + e.text@ + "</div>"@ + trans
        + "</div>"@
}

/// The HTML of the examples from index `i` up to `end`.
pub open spec fn example_items(examples: Seq<Study4Example>, i: int, end: int) -> Seq<char>
    decreases end - i,
{
    if i < 0 || i >= end || i >= examples.len() {
        Seq::empty()
    } else {
        spec_example_item(examples[i]) + example_items(examples, i + 1, end)
    }
}

/// The Examples field of a Study4 note: the first three examples, or
/// nothing when the term has none.
pub open spec fn spec_study4_examples_html(examples: Seq<Study4Example>) -> Option<Seq<char>> {
    let html = example_items(examples, 0, 3);
    if html.len() == 0 {
        None
    } else {
        Some(html)
    }
}

fn push_example_item(out: &mut Vec<char>, ex: &Study4Example)
    ensures
        final(out)@ == old(out)@ + spec_example_item(*ex),
{
    let ghost start = out@;
    push_str(out, "<div class=\"example-item\"><div class=\"example-text\">");
    push_str(out, ex.text.as_str());
    push_str(out, "</div>");
    let ghost mid = out@;
    match &ex.translation {
        Some(t) => {
            push_str(out, "<div class=\"example-trans\">");
            push_str(out, t.as_str());
            push_str(out, "</div>");
        },
        None => {},
    }
    push_str(out, "</div>");
    proof {
        assert(out@ =~= start + spec_example_item(*ex));
    }
}

/// Builds the HTML of a term's first three examples.
pub fn build_examples_html(examples: &[Study4Example]) -> (r: Option<String>)
    ensures
        opt_view(r) == spec_study4_examples_html(examples@),
{
    let n = examples.len();
    let end: usize = if n < 3 { n } else { 3 };
    let mut out: Vec<char> = Vec::new();
    for i in 0..end
        invariant
            end <= n,
            end <= 3,
            n == examples@.len(),
            out@ + example_items(examples@, i as int, 3) == example_items(examples@, 0, 3),
    {
        let ghost before = out@;
        push_example_item(&mut out, &examples[i]);
        proof {
            assert(example_items(examples@, i as int, 3) == spec_example_item(examples@[i as int])
                + example_items(examples@, i + 1, 3));
            assert(before + example_items(examples@, i as int, 3) =~= out@ + example_items(
                examples@,
                i + 1,
                3,
            ));
        }
    }
    proof {
        assert(example_items(examples@, end as int, 3) =~= Seq::<char>::empty());
    }
    if out.len() == 0 {
        None
    } else {
        Some(string_of(&out))
    }
}

/// Builds the note of a term for `deck`. `image_abs_path` and
/// `audio_abs_path` are the absolute paths of the term's image and recording
/// when those files exist (and the recording is a real one).
pub fn build_note(
    term: &Study4Term,
    examples: &[Study4Example],
    deck: &str,
    image_abs_path: Option<String>,
    audio_abs_path: Option<String>,
) -> (r: Study4Note)
    ensures
        r.deck@ == deck@,
        r.word@ == term.word@,
        opt_view(r.ipa) == opt_view(term.phonetic),
        opt_view(r.part_of_speech) == opt_view(term.part_of_speech),
        opt_view(r.definition_en) == opt_view(term.definition_en),
        opt_view(r.definition_vi) == opt_view(term.definition_vi),
        opt_view(r.image_abs_path) == opt_view(image_abs_path),
        opt_view(r.image_filename) == match image_abs_path {
            Some(a) => Some(
                match path_file_name(a@) {
                    Some(n) => n,
                    None => "unknown"@,
                },
            ),
            None => None,
        },
        opt_view(r.audio_abs_path) == opt_view(audio_abs_path),
        opt_view(r.audio_filename) == match audio_abs_path {
            Some(a) => Some(
                match path_file_stem(a@) {
                    Some(n) => n,
                    None => "unknown"@,
                } + ".mp3"@,
            ),
            None => None,
        },
        opt_view(r.examples_html) == spec_study4_examples_html(examples@),
        r.cloze_text@ == spec_build_cloze(term.word@, examples@),
        opt_view(r.source) == opt_view(term.topic),
{
    let cloze_text = build_cloze(term.word.as_str(), examples);
    let examples_html = build_examples_html(examples);
    let image_filename = match &image_abs_path {
        Some(a) => Some(media_filename(a.as_str())),
        None => None,
    };
    let audio_filename = match &audio_abs_path {
        Some(a) => Some(audio_anki_filename(a.as_str())),
        None => None,
    };
    Study4Note {
        deck: deck.to_owned(),
        word: term.word.clone(),
        ipa: clone_opt(&term.phonetic),
        part_of_speech: clone_opt(&term.part_of_speech),
        definition_en: clone_opt(&term.definition_en),
        definition_vi: clone_opt(&term.definition_vi),
        image_abs_path,
        image_filename,
        audio_abs_path,
        audio_filename,
        examples_html,
        cloze_text,
        source: clone_opt(&term.topic),
    }
}

/// An AnkiConnect error message that means the note was already there.
pub open spec fn is_duplicate_message(msg: Seq<char>) -> bool {
    contains_seq(msg, "duplicate"@) || contains_seq(msg, "already"@)
}

impl ImportSummary {
    /// The tally before anything is imported.
    pub fn new() -> (r: Self)
        ensures
            r.decks_created == 0 && r.notes_added == 0 && r.notes_skipped == 0 && r.notes_failed == 0,
    {
        ImportSummary { decks_created: 0, notes_added: 0, notes_skipped: 0, notes_failed: 0 }
    }

    /// A deck was created.
    pub fn record_deck(&mut self)
        requires
            old(self).decks_created < usize::MAX,
        ensures
            final(self).decks_created == old(self).decks_created + 1,
            final(self).notes_added == old(self).notes_added,
            final(self).notes_skipped == old(self).notes_skipped,
            final(self).notes_failed == old(self).notes_failed,
    {
        self.decks_created = self.decks_created + 1;
    }

    /// Counts the outcome of one note: added, skipped as a duplicate (an
    /// error that mentions `duplicate` or `already`), or failed.
    pub fn record_note(&mut self, res: &Result<i64, String>)
        requires
            old(self).notes_added < usize::MAX,
            old(self).notes_skipped < usize::MAX,
            old(self).notes_failed < usize::MAX,
        ensures
            final(self).decks_created == old(self).decks_created,
            match res {
                Ok(_) => final(self).notes_added == old(self).notes_added + 1
                    && final(self).notes_skipped == old(self).notes_skipped
                    && final(self).notes_failed == old(self).notes_failed,
                Err(msg) => final(self).notes_added == old(self).notes_added && if is_duplicate_message(
                    msg@,
                ) {
                    final(self).notes_skipped == old(self).notes_skipped + 1
                        && final(self).notes_failed == old(self).notes_failed
                } else {
                    final(self).notes_skipped == old(self).notes_skipped
                        && final(self).notes_failed == old(self).notes_failed + 1
                },
            },
    {
        match res {
            Ok(_) => {
                self.notes_added = self.notes_added + 1;
            },
            Err(msg) => {
                if contains_str(msg.as_str(), "duplicate") || contains_str(msg.as_str(), "already") {
                    self.notes_skipped = self.notes_skipped + 1;
                } else {
                    self.notes_failed = self.notes_failed + 1;
                }
            },
        }
    }
}

} // verus!
