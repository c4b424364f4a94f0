use cam2anki::anki::model::{
    anki_request, contains_word_boundary, create_add_word_request, is_word_boundary,
    wrap_first_match_in_cloze, AddNoteParams, AnkiRequest, ModelField, Note,
};
use cam2anki::cam::model::{Audio, Definition, Entry, Phonetic};

#[test]
fn test_request_format() {
    let req: AnkiRequest<AddNoteParams> = AnkiRequest {
        action: "addNote".to_string(),
        version: 6,
        params: Some(AddNoteParams {
            note: Note {
                deck_name: "English".to_string(),
                model_name: "Cam2Anki Cloze v2".to_string(),
                fields: ModelField {
                    text: "Say {{c1::hello}} to me.".to_string(),
                    word: "hello".to_string(),
                    ipa: Some("/h@.loU/".to_string()),
                    part_of_speech: Some("noun".to_string()),
                    definition: Some("a greeting".to_string()),
                    examples: Some("example usage".to_string()),
                    audio: Some(String::new()),
                    source: Some("Cambridge Dictionary".to_string()),
                },
                audio: None,
            },
        }),
    };

    let params = req.params.as_ref().unwrap();
    println!(
        "{} v{} deck={} model={} text={} word={}",
        req.action,
        req.version,
        params.note.deck_name,
        params.note.model_name,
        params.note.fields.text,
        params.note.fields.word
    );
}

fn entry(word: &str, defs: Vec<(&str, Vec<&str>)>) -> Entry {
    Entry {
        word: word.to_string(),
        part_of_speech: Some("noun".to_string()),
        phonetic: Phonetic { uk: Some("/uk/".to_string()), us: Some("ˈæp.əl".to_string()) },
        definitions: defs
            .into_iter()
            .map(|(m, exs)| Definition {
                meaning: m.to_string(),
                examples: exs.into_iter().map(|e| e.to_string()).collect(),
            })
            .collect(),
        audio: Audio {
            uk: Some("https://x/uk.mp3".to_string()),
            us: Some("https://x/us.mp3".to_string()),
        },
    }
}

#[test]
fn word_boundary_matching() {
    assert!(contains_word_boundary("Apple pie is nice", "apple"));
    assert!(!contains_word_boundary("I like apples", "apple"));
    assert!(!contains_word_boundary("pineapple", "apple"));
    assert!(contains_word_boundary("an apple.", "APPLE"));
    assert!(!contains_word_boundary("anything", "  "));
    assert!(!contains_word_boundary("", "a"));
}

#[test]
fn boundary_characters() {
    assert!(is_word_boundary(None));
    assert!(is_word_boundary(Some(' ')));
    assert!(is_word_boundary(Some(',')));
    assert!(!is_word_boundary(Some('a')));
    assert!(!is_word_boundary(Some('7')));
    assert!(!is_word_boundary(Some('é')));
}

#[test]
fn wraps_first_whole_word_keeping_case() {
    assert_eq!(
        wrap_first_match_in_cloze("She walked down the Aisle.", "aisle").as_deref(),
        Some("She walked down the {{c1::Aisle}}.")
    );
    assert_eq!(
        wrap_first_match_in_cloze("apples and an apple", "apple").as_deref(),
        Some("apples and an {{c1::apple}}")
    );
    assert_eq!(wrap_first_match_in_cloze("applesauce", "apple"), None);
    assert_eq!(wrap_first_match_in_cloze("text", ""), None);
}

#[test]
fn overlapping_occurrence_after_a_failed_match_is_passed_over() {
    // "a a" occurs at 1 (after 'x', no boundary) and at 3; the search goes on
    // after the end of the first occurrence and never sees the second.
    assert_eq!(wrap_first_match_in_cloze("xa a a", "a a"), None);
    assert!(!contains_word_boundary("xa a a", "a a"));
}

#[test]
fn request_for_entry_with_cloze_example() {
    let e = entry(
        "apple",
        vec![
            ("a company", vec![]),
            ("a round fruit", vec!["I ate an apple today.", "Fruit is good.", "Red ones.", "Green ones."]),
        ],
    );
    let req = create_add_word_request(&e, "English", "Cam2Anki Cloze v2");
    assert_eq!(req.action, "addNote");
    assert_eq!(req.version, 6);
    let note = req.params.unwrap().note;
    assert_eq!(note.deck_name, "English");
    assert_eq!(note.model_name, "Cam2Anki Cloze v2");
    let f = note.fields;
    assert_eq!(f.text, "I ate an {{c1::apple}} today.");
    assert_eq!(f.word, "apple");
    assert_eq!(f.ipa.as_deref(), Some("/ˈæp.əl/"));
    assert_eq!(f.part_of_speech.as_deref(), Some("noun"));
    assert_eq!(
        f.definition.as_deref(),
        Some("<div class=\"text-base leading-7 text-slate-700 text-pretty\">a round fruit</div>")
    );
    let ex = |s: &str| {
        format!(
            "<div class=\"border-l-2 border-slate-200 pl-4 text-base italic leading-7 text-slate-600 text-pretty\">{}</div>",
            s
        )
    };
    assert_eq!(f.examples, Some(format!("{}{}", ex("Fruit is good."), ex("Red ones."))));
    assert_eq!(f.audio.as_deref(), Some(""));
    assert_eq!(f.source.as_deref(), Some("Cambridge Dictionary"));
    let audio = note.audio.unwrap();
    assert_eq!(audio.len(), 1);
    assert_eq!(audio[0].filename, "apple_us.mp3");
    assert_eq!(audio[0].path, None);
    assert_eq!(audio[0].url.as_deref(), Some("https://x/us.mp3"));
    assert_eq!(audio[0].fields, vec!["Audio".to_string()]);
}

#[test]
fn request_falls_back_to_first_definition_with_examples() {
    let mut e = entry("run", vec![("no examples", vec![]), ("to move fast", vec!["Running late."])]);
    e.audio.us = None;
    e.phonetic.us = None;
    let note = create_add_word_request(&e, "D", "M").params.unwrap().note;
    assert_eq!(note.fields.text, "{{c1::run}}");
    assert_eq!(
        note.fields.definition.as_deref(),
        Some("<div class=\"text-base leading-7 text-slate-700 text-pretty\">to move fast</div>")
    );
    assert!(note.fields.examples.unwrap().contains("Running late."));
    assert_eq!(note.fields.ipa, None);
    let audio = note.audio.unwrap();
    assert_eq!(audio[0].filename, "run_uk.mp3");
    assert_eq!(audio[0].url.as_deref(), Some("https://x/uk.mp3"));
}

#[test]
fn request_for_entry_without_definitions_or_audio() {
    let mut e = entry("zzz", vec![]);
    e.audio.us = None;
    e.audio.uk = None;
    let note = create_add_word_request(&e, "D", "M").params.unwrap().note;
    assert_eq!(note.fields.text, "{{c1::zzz}}");
    assert_eq!(note.fields.definition, None);
    assert_eq!(note.fields.examples, None);
    assert!(note.audio.is_none());
}

#[test]
fn cloze_sentence_is_not_repeated_in_examples() {
    let e = entry("go", vec![("to leave", vec!["Go now.", "Go now.", "Stay."])]);
    let f = create_add_word_request(&e, "D", "M").params.unwrap().note.fields;
    assert_eq!(f.text, "{{c1::Go}} now.");
    let html = f.examples.unwrap();
    assert!(!html.contains("Go now."));
    assert!(html.contains("Stay."));
}

#[test]
fn generic_request_has_version_six() {
    let r = anki_request("deckNames", Some(3u8));
    assert_eq!(r.action, "deckNames");
    assert_eq!(r.version, 6);
    assert_eq!(r.params, Some(3));
}

#[test]
fn non_ascii_marking_is_case_insensitive() {
    assert_eq!(
        wrap_first_match_in_cloze("Der ÄRGER ist groß.", "ärger").as_deref(),
        Some("Der {{c1::ÄRGER}} ist groß.")
    );
    assert!(contains_word_boundary("Der ÄRGER ist groß.", "ärger"));
    assert_eq!(wrap_first_match_in_cloze("ÄRGERLICH", "ärger"), None);
    assert!(!contains_word_boundary("ÄRGERLICH", "ärger"));
}

#[test]
fn boundary_search_agrees_with_marking() {
    let cases = [
        ("Apple pie is nice", "apple"),
        ("I like apples", "apple"),
        ("pineapple", "apple"),
        ("an apple.", "APPLE"),
        ("anything", "  "),
        ("", "a"),
        ("xa a a", "a a"),
        ("She walked down the Aisle.", "aisle"),
        ("Ärger, ärger", "ÄRGER"),
    ];
    for (text, word) in cases {
        assert_eq!(
            contains_word_boundary(text, word),
            wrap_first_match_in_cloze(text, word).is_some(),
            "{text:?} / {word:?}"
        );
    }
}
