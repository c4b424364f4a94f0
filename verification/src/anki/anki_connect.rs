//! What the library decides around AnkiConnect calls: payload pieces, the
//! media encoding, the note models and how a reply is read.
use vstd::prelude::*;
use crate::anki::model::{AnkiRequest, AnkiResponse};
use crate::anki::templates::{
    custom_back_template, custom_front_template, custom_model_css, study4_back, study4_css,
    study4_front, CUSTOM_BACK_TEMPLATE, CUSTOM_FRONT_TEMPLATE, CUSTOM_MODEL_CSS, STUDY4_BACK,
    STUDY4_CSS, STUDY4_FRONT,
};
use crate::cam::model::{opt_view, views};
use crate::text::{str_eq, string_of};

verus! {

/// The base64 alphabet (RFC 4648): the character for a 6-bit value.
pub open spec fn spec_b64_char(v: u32) -> char {
    if v < 26 {
        ((v + 65) as u32) as char
    } else if v < 52 {
        ((v - 26 + 97) as u32) as char
    } else if v < 62 {
        ((v - 52 + 48) as u32) as char
    } else if v == 62 {
        '+'
    } else {
        '/'
    }
}

/// The 24-bit group formed by up to three bytes (missing ones count as 0).
pub open spec fn spec_b64_group(d: Seq<u8>) -> u32 {
    let b0 = d[0] as u32;
    let b1 = if d.len() > 1 { d[1] as u32 } else { 0u32 };
    let b2 = if d.len() > 2 { d[2] as u32 } else { 0u32 };
    (b0 << 16u32) | (b1 << 8u32) | b2
}

/// The four output characters for the first (at most three) bytes of `d`,
/// with `=` padding when fewer than three bytes remain.
pub open spec fn spec_b64_quad(d: Seq<u8>) -> Seq<char> {
    let n = spec_b64_group(d);
    seq![
        spec_b64_char((n >> 18u32) & 0x3f),
        spec_b64_char((n >> 12u32) & 0x3f),
        if d.len() > 1 { spec_b64_char((n >> 6u32) & 0x3f) } else { '=' },
        if d.len() > 2 { spec_b64_char(n & 0x3f) } else { '=' },
    ]
}

/// Standard padded base64 of `d`: one quad per block of three bytes.
pub open spec fn spec_base64(d: Seq<u8>) -> Seq<char>
    decreases d.len(),
{
    if d.len() == 0 {
        Seq::empty()
    } else if d.len() <= 3 {
        spec_b64_quad(d)
    } else {
        spec_b64_quad(d) + spec_base64(d.skip(3))
    }
}

/// A character of padded base64 output: a letter, a digit, `+`, `/` or `=`.
pub open spec fn is_base64_output_char(c: char) -> bool {
    ('A' <= c <= 'Z') || ('a' <= c <= 'z') || ('0' <= c <= '9') || c == '+' || c == '/' || c == '='
}

proof fn lemma_b64_quad_chars(d: Seq<u8>)
    requires
        d.len() > 0,
    ensures
        forall|k: int| 0 <= k < 4 ==> is_base64_output_char(#[trigger] spec_b64_quad(d)[k]),
{
    let n = spec_b64_group(d);
    assert(((n >> 18u32) & 0x3f) < 64 && ((n >> 12u32) & 0x3f) < 64 && ((n >> 6u32) & 0x3f) < 64 && (
    n & 0x3f) < 64) by (bit_vector);
}

/// Base64 output is made of the base64 alphabet and `=` only, four
/// characters for each started block of three bytes.
pub proof fn lemma_base64_shape(d: Seq<u8>)
    ensures
        spec_base64(d).len() == 4 * ((d.len() + 2) / 3),
        forall|k: int|
            0 <= k < spec_base64(d).len() ==> is_base64_output_char(#[trigger] spec_base64(d)[k]),
    decreases d.len(),
{
    if d.len() > 0 {
        lemma_b64_quad_chars(d);
        if d.len() > 3 {
            lemma_base64_shape(d.skip(3));
            let q = spec_b64_quad(d);
            let rest = spec_base64(d.skip(3));
            assert forall|k: int| 0 <= k < spec_base64(d).len() implies is_base64_output_char(
                #[trigger] spec_base64(d)[k],
            ) by {
                if k < 4 {
                    assert(spec_base64(d)[k] == q[k]);
                } else {
                    assert(spec_base64(d)[k] == rest[k - 4]);
                }
            }
        }
    }
}

/// The 6-bit value of a character of the base64 alphabet (0 for any other
/// character, such as the padding `=`).
pub open spec fn spec_b64_value(c: char) -> u32 {
    let u = c as u32;
    if 65 <= u <= 90 {
        (u - 65) as u32
    } else if 97 <= u <= 122 {
        (u - 97 + 26) as u32
    } else if 48 <= u <= 57 {
        (u - 48 + 52) as u32
    } else if c == '+' {
        62
    } else if c == '/' {
        63
    } else {
        0
    }
}

/// RFC 4648 decoding of one padded quad: three bytes, or fewer when it ends
/// in padding.
pub open spec fn spec_b64_decode_quad(q: Seq<char>) -> Seq<u8> {
    let n: u32 = (spec_b64_value(q[0]) << 18u32) | (spec_b64_value(q[1]) << 12u32) | (spec_b64_value(
        q[2],
    ) << 6u32) | spec_b64_value(q[3]);
    let b0 = ((n >> 16u32) & 0xff) as u8;
    let b1 = ((n >> 8u32) & 0xff) as u8;
    let b2 = (n & 0xff) as u8;
    if q[2] == '=' {
        seq![b0]
    } else if q[3] == '=' {
        seq![b0, b1]
    } else {
        seq![b0, b1, b2]
    }
}

/// RFC 4648 decoding of padded base64, quad by quad.
pub open spec fn spec_base64_decode(s: Seq<char>) -> Seq<u8>
    decreases s.len(),
{
    if s.len() < 4 {
        Seq::empty()
    } else {
        spec_b64_decode_quad(s.take(4)) + spec_base64_decode(s.skip(4))
    }
}

proof fn lemma_b64_char_value(v: u32)
    requires
        v < 64,
    ensures
        spec_b64_value(spec_b64_char(v)) == v,
        spec_b64_char(v) != '=',
{
}

proof fn lemma_b64_bits(b0: u8, b1: u8, b2: u8)
    ensures
        ({
            let g = ((b0 as u32) << 16u32) | ((b1 as u32) << 8u32) | (b2 as u32);
            let n = (((g >> 18u32) & 0x3f) << 18u32) | (((g >> 12u32) & 0x3f) << 12u32) | (((g
                >> 6u32) & 0x3f) << 6u32) | (g & 0x3f);
            &&& ((n >> 16u32) & 0xff) as u8 == b0
            &&& ((n >> 8u32) & 0xff) as u8 == b1
            &&& (n & 0xff) as u8 == b2
            &&& b1 == 0 && b2 == 0 ==> (g >> 6u32) & 0x3f == 0
            &&& b2 == 0 ==> g & 0x3f == 0
        }),
{
    assert(({
        let g = ((b0 as u32) << 16u32) | ((b1 as u32) << 8u32) | (b2 as u32);
        let n = (((g >> 18u32) & 0x3f) << 18u32) | (((g >> 12u32) & 0x3f) << 12u32) | (((g >> 6u32)
            & 0x3f) << 6u32) | (g & 0x3f);
        &&& ((n >> 16u32) & 0xff) as u8 == b0
        &&& ((n >> 8u32) & 0xff) as u8 == b1
        &&& (n & 0xff) as u8 == b2
        &&& b1 == 0 && b2 == 0 ==> (g >> 6u32) & 0x3f == 0
        &&& b2 == 0 ==> g & 0x3f == 0
    })) by (bit_vector);
}

proof fn lemma_b64_quad_decodes(d: Seq<u8>)
    requires
        d.len() > 0,
    ensures
        spec_b64_decode_quad(spec_b64_quad(d)) == d.take(if d.len() < 3 { d.len() as int } else { 3 }),
{
    let b0 = d[0];
    let b1: u8 = if d.len() > 1 { d[1] } else { 0 };
    let b2: u8 = if d.len() > 2 { d[2] } else { 0 };
    lemma_b64_bits(b0, b1, b2);
    let g = spec_b64_group(d);
    assert(g == ((b0 as u32) << 16u32) | ((b1 as u32) << 8u32) | (b2 as u32));
    assert(((g >> 18u32) & 0x3f) < 64 && ((g >> 12u32) & 0x3f) < 64 && ((g >> 6u32) & 0x3f) < 64 && (g
        & 0x3f) < 64) by (bit_vector);
    lemma_b64_char_value((g >> 18u32) & 0x3f);
    lemma_b64_char_value((g >> 12u32) & 0x3f);
    lemma_b64_char_value((g >> 6u32) & 0x3f);
    lemma_b64_char_value(g & 0x3f);
    let q = spec_b64_quad(d);
    assert(spec_b64_value('=') == 0);
    if d.len() == 1 {
        assert(d.take(1) =~= seq![b0]);
    } else if d.len() == 2 {
        assert(d.take(2) =~= seq![b0, b1]);
    } else {
        assert(d.take(3) =~= seq![b0, b1, b2]);
    }
}

/// Decoding the base64 of some bytes gives those bytes back.
pub proof fn lemma_base64_roundtrip(d: Seq<u8>)
    ensures
        spec_base64_decode(spec_base64(d)) == d,
    decreases d.len(),
{
    if d.len() > 0 {
        lemma_b64_quad_decodes(d);
        let q = spec_b64_quad(d);
        if d.len() <= 3 {
            assert(q.take(4) =~= q);
            assert(spec_base64_decode(q.skip(4)) =~= Seq::<u8>::empty());
            assert(d.take(d.len() as int) =~= d);
        } else {
            lemma_base64_roundtrip(d.skip(3));
            let s = spec_base64(d);
            assert(s.take(4) =~= q);
            assert(s.skip(4) =~= spec_base64(d.skip(3)));
            assert(d =~= d.take(3) + d.skip(3));
        }
    }
}

/// How many `=` end the base64 of `n` bytes: two when one byte is left over
/// from the blocks of three, one when two are, none otherwise.
pub open spec fn b64_padding(n: nat) -> int {
    if n % 3 == 1 {
        2
    } else if n % 3 == 2 {
        1
    } else {
        0
    }
}

/// `=` stands exactly in the last `b64_padding` places of the output.
pub proof fn lemma_base64_padding(d: Seq<u8>)
    ensures
        forall|k: int|
            0 <= k < spec_base64(d).len() ==> ((#[trigger] spec_base64(d)[k] == '=') <==> k
                >= spec_base64(d).len() - b64_padding(d.len())),
    decreases d.len(),
{
    lemma_base64_shape(d);
    if d.len() > 0 {
        let g = spec_b64_group(d);
        assert(((g >> 18u32) & 0x3f) < 64 && ((g >> 12u32) & 0x3f) < 64 && ((g >> 6u32) & 0x3f) < 64
            && (g & 0x3f) < 64) by (bit_vector);
        lemma_b64_char_value((g >> 18u32) & 0x3f);
        lemma_b64_char_value((g >> 12u32) & 0x3f);
        lemma_b64_char_value((g >> 6u32) & 0x3f);
        lemma_b64_char_value(g & 0x3f);
        let q = spec_b64_quad(d);
        if d.len() > 3 {
            lemma_base64_padding(d.skip(3));
            lemma_base64_shape(d.skip(3));
            let s = spec_base64(d);
            let rest = spec_base64(d.skip(3));
            assert(b64_padding(d.len()) == b64_padding(d.skip(3).len()));
            assert forall|k: int| 0 <= k < s.len() implies ((#[trigger] s[k] == '=') <==> k >= s.len()
                - b64_padding(d.len())) by {
                if k < 4 {
                    assert(s[k] == q[k]);
                } else {
                    assert(s[k] == rest[k - 4]);
                }
            }
        }
    }
}

fn b64_char(v: u32) -> (c: char)
    requires
        v < 64,
    ensures
        c == spec_b64_char(v),
{
    if v < 26 {
        char_from_ascii((v + 65) as u8)
    } else if v < 52 {
        char_from_ascii((v - 26 + 97) as u8)
    } else if v < 62 {
        char_from_ascii((v - 52 + 48) as u8)
    } else if v == 62 {
        '+'
    } else {
        '/'
    }
}

fn char_from_ascii(b: u8) -> (c: char)
    requires
        b < 128,
    ensures
        c == (b as u32) as char,
{
    b as char
}

/// Encodes bytes as standard padded base64 (the form AnkiConnect takes for
/// media `data`).
pub fn base64_encode(data: &[u8]) -> (r: String)
    ensures
        r@ == spec_base64(data@),
        r@.len() == 4 * ((data@.len() + 2) / 3),
        spec_base64_decode(r@) == data@,
        forall|k: int| 0 <= k < r@.len() ==> is_base64_output_char(#[trigger] r@[k]),
        forall|k: int|
            0 <= k < r@.len() ==> ((#[trigger] r@[k] == '=') <==> k >= r@.len() - b64_padding(
                data@.len(),
            )),
{
    proof {
        lemma_base64_roundtrip(data@);
        lemma_base64_shape(data@);
        lemma_base64_padding(data@);
    }
    let n = data.len();
    let mut out: Vec<char> = Vec::new();
    let mut i: usize = 0;
    proof {
        assert(data@.skip(0) =~= data@);
    }
    while i < n
        invariant
            i <= n,
            n == data@.len(),
            i < n ==> out@ + spec_base64(data@.skip(i as int)) == spec_base64(data@),
            i == n ==> out@ == spec_base64(data@),
            i < n ==> i % 3 == 0,
            out@.len() == 4 * ((i + 2) / 3),
        decreases n - i,
    {
        let ghost rest = data@.skip(i as int);
        let len = n - i;
        let b0 = data[i] as u32;
        let b1 = if len > 1 { data[i + 1] as u32 } else { 0u32 };
        let b2 = if len > 2 { data[i + 2] as u32 } else { 0u32 };
        let g = (b0 << 16u32) | (b1 << 8u32) | b2;
        proof {
            assert(g == spec_b64_group(rest));
            assert(((g >> 18u32) & 0x3f) < 64 && ((g >> 12u32) & 0x3f) < 64
                && ((g >> 6u32) & 0x3f) < 64 && (g & 0x3f) < 64) by (bit_vector);
        }
        out.push(b64_char((g >> 18u32) & 0x3f));
        out.push(b64_char((g >> 12u32) & 0x3f));
        if len > 1 {
            out.push(b64_char((g >> 6u32) & 0x3f));
        } else {
            out.push('=');
        }
        if len > 2 {
            out.push(b64_char(g & 0x3f));
        } else {
            out.push('=');
        }
        proof {
            assert(out@.subrange(out@.len() - 4, out@.len() as int) =~= spec_b64_quad(rest));
        }
        if len > 3 {
            proof {
                assert(rest.skip(3) =~= data@.skip(i + 3));
            }
            i = i + 3;
        } else {
            i = n;
        }
    }
    string_of(&out)
}

/// The name of the Study4 vocabulary model.
pub const STUDY4_MODEL_NAME: &'static str = "Study4 TOEIC";

/// Why an AnkiConnect reply carries no result.
#[derive(Debug)]
pub enum AnkiReplyError {
    /// AnkiConnect reported this error.
    Returned(String),
    /// The reply had neither an error nor a result.
    NoResult,
}

/// Reads a reply that must carry a result: its error if it has one, else its
/// result, else `NoResult`.
pub fn read_result<T>(resp: AnkiResponse<T>) -> (r: Result<T, AnkiReplyError>)
    ensures
        match resp.error {
            Some(e) => r matches Err(AnkiReplyError::Returned(m)) && m@ == e@,
            None => match resp.result {
                Some(v) => r == Ok::<T, AnkiReplyError>(v),
                None => r matches Err(AnkiReplyError::NoResult),
            },
        },
{
    match resp.error {
        Some(e) => Err(AnkiReplyError::Returned(e)),
        None => match resp.result {
            Some(v) => Ok(v),
            None => Err(AnkiReplyError::NoResult),
        },
    }
}

/// Reads a reply of which only the error matters.
pub fn read_status<T>(resp: AnkiResponse<T>) -> (r: Result<(), String>)
    ensures
        match resp.error {
            Some(e) => r matches Err(m) && m@ == e@,
            None => r is Ok,
        },
{
    match resp.error {
        Some(e) => Err(e),
        None => Ok(()),
    }
}

/// One step of putting a note model in place.
#[derive(Debug, PartialEq, Eq, Clone, Copy)]
pub enum ModelStep {
    /// `createModel` with the model's fields, styling and card template.
    Create,
    /// `updateModelStyling` with the model's styling.
    UpdateStyling,
    /// `updateModelTemplates` with the model's card template.
    UpdateTemplates,
}

/// Whether `name` is among the model names Anki reported.
pub fn model_exists(models: &Vec<String>, name: &str) -> (b: bool)
    ensures
        b == views(models@).contains(name@),
{
    let n = models.len();
    for i in 0..n
        invariant
            n == models@.len(),
            forall|k: int| 0 <= k < i ==> models@[k]@ != name@,
    {
        if str_eq(models[i].as_str(), name) {
            assert(views(models@)[i as int] == name@);
            return true;
        }
    }
    assert forall|k: int| 0 <= k < views(models@).len() implies views(models@)[k] != name@ by {}
    false
}

/// The steps that put the Cambridge cloze model in place: an existing model
/// has its styling and template brought up to date; a missing one is created
/// and then brought up to date as well.
pub fn custom_model_steps(models: &Vec<String>, model_name: &str) -> (r: Vec<ModelStep>)
    ensures
        views(models@).contains(model_name@) ==> r@ == seq![ModelStep::UpdateStyling, ModelStep::UpdateTemplates],
        !views(models@).contains(model_name@) ==> r@ == seq![
            ModelStep::Create,
            ModelStep::UpdateStyling,
            ModelStep::UpdateTemplates,
        ],
{
    let mut steps: Vec<ModelStep> = Vec::new();
    if !model_exists(models, model_name) {
        steps.push(ModelStep::Create);
    }
    steps.push(ModelStep::UpdateStyling);
    steps.push(ModelStep::UpdateTemplates);
    steps
}

/// The steps that put the Study4 model in place: an existing model has its
/// styling and template brought up to date; a missing one is only created.
pub fn study4_model_steps(models: &Vec<String>) -> (r: Vec<ModelStep>)
    ensures
        views(models@).contains(STUDY4_MODEL_NAME@) ==> r@ == seq![ModelStep::UpdateStyling, ModelStep::UpdateTemplates],
        !views(models@).contains(STUDY4_MODEL_NAME@) ==> r@ == seq![ModelStep::Create],
{
    let mut steps: Vec<ModelStep> = Vec::new();
    if model_exists(models, STUDY4_MODEL_NAME) {
        steps.push(ModelStep::UpdateStyling);
        steps.push(ModelStep::UpdateTemplates);
    } else {
        steps.push(ModelStep::Create);
    }
    steps
}

fn strings_of(names: &[&str]) -> (r: Vec<String>)
    ensures
        r@.len() == names@.len(),
        forall|k: int| 0 <= k < names@.len() ==> #[trigger] r@[k]@ == names@[k]@,
{
    let mut out: Vec<String> = Vec::new();
    let n = names.len();
    for i in 0..n
        invariant
            n == names@.len(),
            out@.len() == i,
            forall|k: int| 0 <= k < i ==> #[trigger] out@[k]@ == names@[k]@,
    {
        let s: &str = names[i];
        out.push(s.to_owned());
    }
    out
}

/// The fields of the Cambridge cloze model, in order.
pub fn custom_model_fields() -> (r: Vec<String>)
    ensures
        views(r@) == seq![
            "Text"@,
            "Word"@,
            "IPA"@,
            "PartOfSpeech"@,
            "Definition"@,
            "Examples"@,
            "Audio"@,
            "Source"@,
        ],
{
    let names = ["Text", "Word", "IPA", "PartOfSpeech", "Definition", "Examples", "Audio", "Source"];
    let r = strings_of(&names);
    assert(views(r@) =~= seq![
        "Text"@,
        "Word"@,
        "IPA"@,
        "PartOfSpeech"@,
        "Definition"@,
        "Examples"@,
        "Audio"@,
        "Source"@,
    ]);
    r
}

/// The fields of the Study4 vocabulary model, in order.
pub fn study4_model_fields() -> (r: Vec<String>)
    ensures
        views(r@) == seq![
            "Text"@,
            "Word"@,
            "IPA"@,
            "PartOfSpeech"@,
            "DefinitionEN"@,
            "DefinitionVI"@,
            "Image"@,
            "Audio"@,
            "Examples"@,
            "Source"@,
        ],
{
    let names = [
        "Text",
        "Word",
        "IPA",
        "PartOfSpeech",
        "DefinitionEN",
        "DefinitionVI",
        "Image",
        "Audio",
        "Examples",
        "Source",
    ];
    let r = strings_of(&names);
    assert(views(r@) =~= seq![
        "Text"@,
        "Word"@,
        "IPA"@,
        "PartOfSpeech"@,
        "DefinitionEN"@,
        "DefinitionVI"@,
        "Image"@,
        "Audio"@,
        "Examples"@,
        "Source"@,
    ]);
    r
}

/// A note for the Study4 vocabulary model.
pub struct Study4Note {
    pub deck: String,
    pub word: String,
    pub ipa: Option<String>,
    pub part_of_speech: Option<String>,
    pub definition_en: Option<String>,
    pub definition_vi: Option<String>,
    /// Absolute path to the image file on disk
    pub image_abs_path: Option<String>,
    pub image_filename: Option<String>,
    /// Absolute path to the audio file on disk
    pub audio_abs_path: Option<String>,
    pub audio_filename: Option<String>,
    /// The HTML of the example sentences
    pub examples_html: Option<String>,
    /// The cloze text, such as "She walked down the {{c1::aisle}}."
    pub cloze_text: String,
    pub source: Option<String>,
}

/// One field of a note: its name and value.
pub struct NoteField {
    pub name: String,
    pub value: String,
}

/// An optional field's value, empty when absent.
pub open spec fn or_empty(o: Option<String>) -> Seq<char> {
    match opt_view(o) {
        Some(v) => v,
        None => Seq::empty(),
    }
}

fn value_or_empty(o: &Option<String>) -> (r: String)
    ensures
        r@ == or_empty(*o),
{
    match o {
        Some(s) => s.clone(),
        None => String::new(),
    }
}

fn field(name: &str, value: String) -> (r: NoteField)
    ensures
        r.name@ == name@,
        r.value@ == value@,
{
    NoteField { name: name.to_owned(), value }
}

/// The names of the fields of a Study4 note, in model order.
pub open spec fn study4_field_names() -> Seq<Seq<char>> {
    seq![
        "Text"@,
        "Word"@,
        "IPA"@,
        "PartOfSpeech"@,
        "DefinitionEN"@,
        "DefinitionVI"@,
        "Image"@,
        "Audio"@,
        "Examples"@,
        "Source"@,
    ]
}

/// The values of the fields of a Study4 note, in model order.
pub open spec fn study4_field_values(note: Study4Note) -> Seq<Seq<char>> {
    seq![
        note.cloze_text@,
        note.word@,
        or_empty(note.ipa),
        or_empty(note.part_of_speech),
        or_empty(note.definition_en),
        or_empty(note.definition_vi),
        Seq::<char>::empty(),
        Seq::<char>::empty(),
        or_empty(note.examples_html),
        or_empty(note.source),
    ]
}

/// The fields of a Study4 note as `addNote` sends them, in model order; a
/// missing value is sent empty, and the `Image` and `Audio` fields are left
/// empty for the attached media to fill.
pub fn study4_note_fields(note: &Study4Note) -> (r: Vec<NoteField>)
    ensures
        r@.len() == 10,
        r@.map_values(|f: NoteField| f.name@) == study4_field_names(),
        r@.map_values(|f: NoteField| f.value@) == study4_field_values(*note),
{
    let mut v: Vec<NoteField> = Vec::new();
    v.push(field("Text", note.cloze_text.clone()));
    v.push(field("Word", note.word.clone()));
    v.push(field("IPA", value_or_empty(&note.ipa)));
    v.push(field("PartOfSpeech", value_or_empty(&note.part_of_speech)));
    v.push(field("DefinitionEN", value_or_empty(&note.definition_en)));
    v.push(field("DefinitionVI", value_or_empty(&note.definition_vi)));
    v.push(field("Image", String::new()));
    v.push(field("Audio", String::new()));
    v.push(field("Examples", value_or_empty(&note.examples_html)));
    v.push(field("Source", value_or_empty(&note.source)));
    assert(v@.map_values(|f: NoteField| f.name@) =~= seq![
        "Text"@,
        "Word"@,
        "IPA"@,
        "PartOfSpeech"@,
        "DefinitionEN"@,
        "DefinitionVI"@,
        "Image"@,
        "Audio"@,
        "Examples"@,
        "Source"@,
    ]);
    assert(v@.map_values(|f: NoteField| f.value@) =~= seq![
        note.cloze_text@,
        note.word@,
        or_empty(note.ipa),
        or_empty(note.part_of_speech),
        or_empty(note.definition_en),
        or_empty(note.definition_vi),
        Seq::<char>::empty(),
        Seq::<char>::empty(),
        or_empty(note.examples_html),
        or_empty(note.source),
    ]);
    v
}

/// A media file sent inline with a note: base64 data, its name in Anki's
/// collection, and the fields it is put into.
pub struct MediaFile {
    pub data: String,
    pub filename: String,
    pub fields: Vec<String>,
}

/// The inline media entry for a file's bytes, shown in `field`.
pub fn media_file(bytes: &[u8], filename: &str, field_name: &str) -> (r: MediaFile)
    ensures
        r.data@ == spec_base64(bytes@),
        r.filename@ == filename@,
        views(r.fields@) == seq![field_name@],
{
    let mut fields: Vec<String> = Vec::new();
    fields.push(field_name.to_owned());
    assert(views(fields@) =~= seq![field_name@]);
    MediaFile { data: base64_encode(bytes), filename: filename.to_owned(), fields }
}

/// The audio file of a Study4 note, shown in its `Audio` field.
pub fn study4_audio_file(bytes: &[u8], filename: &str) -> (r: MediaFile)
    ensures
        r.data@ == spec_base64(bytes@),
        r.filename@ == filename@,
        views(r.fields@) == seq!["Audio"@],
{
    media_file(bytes, filename, "Audio")
}

/// The picture of a Study4 note, shown in its `Image` field.
pub fn study4_picture_file(bytes: &[u8], filename: &str) -> (r: MediaFile)
    ensures
        r.data@ == spec_base64(bytes@),
        r.filename@ == filename@,
        views(r.fields@) == seq!["Image"@],
{
    media_file(bytes, filename, "Image")
}

/// How `addNote` treats duplicates.
pub struct NoteOptions {
    pub allow_duplicate: bool,
    pub duplicate_scope: String,
}

/// A Study4 note as `addNote` sends it.
pub struct Study4AddNote {
    pub deck_name: String,
    pub model_name: String,
    pub fields: Vec<NoteField>,
    pub options: NoteOptions,
    pub audio: Option<Vec<MediaFile>>,
    pub picture: Option<Vec<MediaFile>>,
}

/// The parameters of `addNote` for a Study4 note.
pub struct Study4AddNoteParams {
    pub note: Study4AddNote,
}

/// The media list a note carries for an optional file: one file, or none.
pub open spec fn media_list(m: Option<MediaFile>, l: Option<Vec<MediaFile>>) -> bool {
    match m {
        None => l is None,
        Some(f) => l matches Some(v) && v@ == seq![f],
    }
}

fn one_media(m: Option<MediaFile>) -> (r: Option<Vec<MediaFile>>)
    ensures
        media_list(m, r),
{
    match m {
        None => None,
        Some(f) => {
            let mut v: Vec<MediaFile> = Vec::new();
            v.push(f);
            Some(v)
        },
    }
}

/// The `addNote` request for a Study4 note: in its deck, of the Study4 model,
/// with its fields, no duplicates within the deck, and the audio and picture
/// files when they could be read.
pub fn study4_add_note_request(
    note: &Study4Note,
    audio: Option<MediaFile>,
    picture: Option<MediaFile>,
) -> (r: AnkiRequest<Study4AddNoteParams>)
    ensures
        r.action@ == "addNote"@,
        r.version == 6,
        r.params matches Some(p) && {
            let n = p.note;
            &&& n.deck_name@ == note.deck@
            &&& n.model_name@ == STUDY4_MODEL_NAME@
            &&& n.fields@.map_values(|f: NoteField| f.name@) == study4_field_names()
            &&& n.fields@.map_values(|f: NoteField| f.value@) == study4_field_values(*note)
            &&& !n.options.allow_duplicate
            &&& n.options.duplicate_scope@ == "deck"@
            &&& media_list(audio, n.audio)
            &&& media_list(picture, n.picture)
        },
{
    let note_body = Study4AddNote {
        deck_name: note.deck.clone(),
        model_name: STUDY4_MODEL_NAME.to_owned(),
        fields: study4_note_fields(note),
        options: NoteOptions { allow_duplicate: false, duplicate_scope: "deck".to_owned() },
        audio: one_media(audio),
        picture: one_media(picture),
    };
    AnkiRequest {
        action: "addNote".to_owned(),
        version: 6,
        params: Some(Study4AddNoteParams { note: note_body }),
    }
}

/// A card template of a model: its name and its front and back.
pub struct CardTemplate {
    pub name: String,
    pub front: String,
    pub back: String,
}

/// The parameters of `createModel`.
pub struct CreateModelParams {
    pub model_name: String,
    pub in_order_fields: Vec<String>,
    pub is_cloze: bool,
    pub css: String,
    pub card_templates: Vec<CardTemplate>,
}

/// The parameters of `updateModelStyling`: the model and its new styling.
pub struct ModelStylingParams {
    pub name: String,
    pub css: String,
}

/// The parameters of `updateModelTemplates`: the model, and one template's
/// new front and back.
pub struct ModelTemplatesParams {
    pub name: String,
    pub template_name: String,
    pub front: String,
    pub back: String,
}

fn create_model_request(
    model_name: &str,
    fields: Vec<String>,
    css: &str,
    template_name: &str,
    front: &str,
    back: &str,
) -> (r: AnkiRequest<CreateModelParams>)
    ensures
        r.action@ == "createModel"@,
        r.version == 6,
        r.params matches Some(p) && {
            &&& p.model_name@ == model_name@
            &&& p.in_order_fields@ == fields@
            &&& p.is_cloze
            &&& p.css@ == css@
            &&& p.card_templates@.len() == 1
            &&& p.card_templates@[0].name@ == template_name@
            &&& p.card_templates@[0].front@ == front@
            &&& p.card_templates@[0].back@ == back@
        },
{
    let mut templates: Vec<CardTemplate> = Vec::new();
    templates.push(
        CardTemplate { name: template_name.to_owned(), front: front.to_owned(), back: back.to_owned() },
    );
    AnkiRequest {
        action: "createModel".to_owned(),
        version: 6,
        params: Some(
            CreateModelParams {
                model_name: model_name.to_owned(),
                in_order_fields: fields,
                is_cloze: true,
                css: css.to_owned(),
                card_templates: templates,
            },
        ),
    }
}

/// The `createModel` request for the Cambridge cloze model: its fields in
/// order, cloze type, its styling and its one card template `Meaning`.
pub fn custom_create_model_request(model_name: &str) -> (r: AnkiRequest<CreateModelParams>)
    ensures
        r.action@ == "createModel"@,
        r.version == 6,
        r.params matches Some(p) && {
            &&& p.model_name@ == model_name@
            &&& views(p.in_order_fields@) == seq![
                "Text"@,
                "Word"@,
                "IPA"@,
                "PartOfSpeech"@,
                "Definition"@,
                "Examples"@,
                "Audio"@,
                "Source"@,
            ]
            &&& p.is_cloze
            &&& p.css@ == CUSTOM_MODEL_CSS@
            &&& p.card_templates@.len() == 1
            &&& p.card_templates@[0].name@ == "Meaning"@
            &&& p.card_templates@[0].front@ == CUSTOM_FRONT_TEMPLATE@
            &&& p.card_templates@[0].back@ == CUSTOM_BACK_TEMPLATE@
        },
{
    create_model_request(
        model_name,
        custom_model_fields(),
        custom_model_css(),
        "Meaning",
        custom_front_template(),
        custom_back_template(),
    )
}

/// The `createModel` request for the Study4 model: its fields in order,
/// cloze type, its styling and its one card template `Vocabulary`.
pub fn study4_create_model_request() -> (r: AnkiRequest<CreateModelParams>)
    ensures
        r.action@ == "createModel"@,
        r.version == 6,
        r.params matches Some(p) && {
            &&& p.model_name@ == STUDY4_MODEL_NAME@
            &&& views(p.in_order_fields@) == study4_field_names()
            &&& p.is_cloze
            &&& p.css@ == STUDY4_CSS@
            &&& p.card_templates@.len() == 1
            &&& p.card_templates@[0].name@ == "Vocabulary"@
            &&& p.card_templates@[0].front@ == STUDY4_FRONT@
            &&& p.card_templates@[0].back@ == STUDY4_BACK@
        },
{
    create_model_request(
        STUDY4_MODEL_NAME,
        study4_model_fields(),
        study4_css(),
        "Vocabulary",
        study4_front(),
        study4_back(),
    )
}

fn styling_request(model_name: &str, css: &str) -> (r: AnkiRequest<ModelStylingParams>)
    ensures
        r.action@ == "updateModelStyling"@,
        r.version == 6,
        r.params matches Some(p) && p.name@ == model_name@ && p.css@ == css@,
{
    AnkiRequest {
        action: "updateModelStyling".to_owned(),
        version: 6,
        params: Some(ModelStylingParams { name: model_name.to_owned(), css: css.to_owned() }),
    }
}

fn templates_request(model_name: &str, template_name: &str, front: &str, back: &str) -> (r:
    AnkiRequest<ModelTemplatesParams>)
    ensures
        r.action@ == "updateModelTemplates"@,
        r.version == 6,
        r.params matches Some(p) && p.name@ == model_name@ && p.template_name@ == template_name@
            && p.front@ == front@ && p.back@ == back@,
{
    AnkiRequest {
        action: "updateModelTemplates".to_owned(),
        version: 6,
        params: Some(
            ModelTemplatesParams {
                name: model_name.to_owned(),
                template_name: template_name.to_owned(),
                front: front.to_owned(),
                back: back.to_owned(),
            },
        ),
    }
}

/// The `updateModelStyling` request that brings the Cambridge cloze model's
/// styling up to date.
pub fn custom_styling_request(model_name: &str) -> (r: AnkiRequest<ModelStylingParams>)
    ensures
        r.action@ == "updateModelStyling"@,
        r.version == 6,
        r.params matches Some(p) && p.name@ == model_name@ && p.css@ == CUSTOM_MODEL_CSS@,
{
    styling_request(model_name, custom_model_css())
}

/// The `updateModelTemplates` request that brings the Cambridge cloze
/// model's `Meaning` template up to date.
pub fn custom_templates_request(model_name: &str) -> (r: AnkiRequest<ModelTemplatesParams>)
    ensures
        r.action@ == "updateModelTemplates"@,
        r.version == 6,
        r.params matches Some(p) && p.name@ == model_name@ && p.template_name@ == "Meaning"@
            && p.front@ == CUSTOM_FRONT_TEMPLATE@ && p.back@ == CUSTOM_BACK_TEMPLATE@,
{
    templates_request(model_name, "Meaning", custom_front_template(), custom_back_template())
}

/// The `updateModelStyling` request that brings the Study4 model's styling
/// up to date.
pub fn study4_styling_request() -> (r: AnkiRequest<ModelStylingParams>)
    ensures
        r.action@ == "updateModelStyling"@,
        r.version == 6,
        r.params matches Some(p) && p.name@ == STUDY4_MODEL_NAME@ && p.css@ == STUDY4_CSS@,
{
    styling_request(STUDY4_MODEL_NAME, study4_css())
}

/// The `updateModelTemplates` request that brings the Study4 model's
/// `Vocabulary` template up to date.
pub fn study4_templates_request() -> (r: AnkiRequest<ModelTemplatesParams>)
    ensures
        r.action@ == "updateModelTemplates"@,
        r.version == 6,
        r.params matches Some(p) && p.name@ == STUDY4_MODEL_NAME@ && p.template_name@
            == "Vocabulary"@ && p.front@ == STUDY4_FRONT@ && p.back@ == STUDY4_BACK@,
{
    templates_request(STUDY4_MODEL_NAME, "Vocabulary", study4_front(), study4_back())
}

} // verus!
