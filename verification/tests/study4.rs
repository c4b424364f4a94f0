use cam2anki::study4::db::{Study4Example, Study4Term};
use cam2anki::study4::importer::{
    audio_anki_filename, audio_candidate, build_cloze, build_examples_html, build_note,
    deck_name_from_topic, deck_part_name, deck_ranges, image_candidate, is_placeholder_audio,
    media_filename, relative_asset_path, resolve_asset_path, try_wrap_cloze, ImportSummary,
};

fn term() -> Study4Term {
    Study4Term {
        id: 1,
        source_url: "https://study4.com/x".to_string(),
        word: "aisle".to_string(),
        part_of_speech: Some("n".to_string()),
        phonetic: Some("/aɪl/".to_string()),
        definition_vi: Some("lối đi".to_string()),
        definition_en: Some("a passage".to_string()),
        image_paths: Some(" data/assets/images/aisle_image_1.jpg , data/b.jpg".to_string()),
        audio_uk_path: None,
        audio_us_path: Some("data/assets/audio/aisle_us.bin".to_string()),
        topic: Some("Office".to_string()),
        topic_no: Some(3),
    }
}

fn example(text: &str, translation: Option<&str>) -> Study4Example {
    Study4Example {
        term_id: 1,
        example_order: 1,
        text: text.to_string(),
        translation: translation.map(|t| t.to_string()),
        audio_path: None,
    }
}

#[test]
fn deck_names() {
    assert_eq!(deck_name_from_topic("Office"), "Complete TOEIC::Office");
    assert_eq!(deck_part_name("Office", 0, 1), "Complete TOEIC::Office");
    assert_eq!(deck_part_name("Office", 0, 3), "Complete TOEIC::Office (1/3)");
    assert_eq!(deck_part_name("Office", 9, 12), "Complete TOEIC::Office (10/12)");
}

#[test]
fn decks_hold_at_most_thirty_terms() {
    assert_eq!(deck_ranges(65), vec![(0, 30), (30, 60), (60, 65)]);
    assert_eq!(deck_ranges(60), vec![(0, 30), (30, 60)]);
    assert_eq!(deck_ranges(1), vec![(0, 1)]);
    assert!(deck_ranges(0).is_empty());
}

#[test]
fn asset_paths() {
    assert_eq!(relative_asset_path("data/data/x.png"), "x.png");
    assert_eq!(relative_asset_path("assets/data/x.png"), "assets/data/x.png");
    assert_eq!(relative_asset_path("data/"), "");
    assert_eq!(resolve_asset_path("data/a/b.png", Some("/home/u")).as_deref(), Some("/home/u/a/b.png"));
    assert_eq!(resolve_asset_path("data/a/b.png", None), None);
    assert_eq!(media_filename("assets/images/aisle_image_1.jpg"), "aisle_image_1.jpg");
    assert_eq!(media_filename("/"), "unknown");
    assert_eq!(audio_anki_filename("/x/assets/audio/aisle_us.bin"), "aisle_us.mp3");
    assert!(is_placeholder_audio("/x/a.bin"));
    assert!(!is_placeholder_audio("/x/a.mp3"));
    assert!(!is_placeholder_audio("/x/bin"));
}

#[test]
fn candidates() {
    let t = term();
    assert_eq!(image_candidate(&t).as_deref(), Some("data/assets/images/aisle_image_1.jpg"));
    assert_eq!(audio_candidate(&t).as_deref(), Some("data/assets/audio/aisle_us.bin"));
    let no_image = Study4Term { image_paths: None, audio_us_path: None, ..term() };
    assert_eq!(image_candidate(&no_image), None);
    assert_eq!(audio_candidate(&no_image), None);
}

#[test]
fn cloze_and_examples() {
    let exs = vec![
        example("Aisles are wide.", None),
        example("Walk down the aisle.", Some("Đi xuống lối đi.")),
        example("Third.", None),
        example("Fourth.", None),
    ];
    assert_eq!(build_cloze("aisle", &exs), "Walk down the {{c1::aisle}}.");
    assert_eq!(build_cloze("desk", &exs), "{{c1::desk}}");
    assert_eq!(try_wrap_cloze("An aisle seat", "Aisle").as_deref(), Some("An {{c1::aisle}} seat"));
    let html = build_examples_html(&exs).unwrap();
    assert_eq!(
        html,
        "<div class=\"example-item\"><div class=\"example-text\">Aisles are wide.</div></div>\
<div class=\"example-item\"><div class=\"example-text\">Walk down the aisle.</div><div class=\"example-trans\">Đi xuống lối đi.</div></div>\
<div class=\"example-item\"><div class=\"example-text\">Third.</div></div>"
    );
    assert_eq!(build_examples_html(&[]), None);
}

#[test]
fn note_from_term() {
    let exs = vec![example("Walk down the aisle.", None)];
    let n = build_note(
        &term(),
        &exs,
        "Complete TOEIC::Office",
        Some("/w/assets/images/aisle_image_1.jpg".to_string()),
        None,
    );
    assert_eq!(n.deck, "Complete TOEIC::Office");
    assert_eq!(n.word, "aisle");
    assert_eq!(n.ipa.as_deref(), Some("/aɪl/"));
    assert_eq!(n.image_filename.as_deref(), Some("aisle_image_1.jpg"));
    assert_eq!(n.audio_abs_path, None);
    assert_eq!(n.audio_filename, None);
    assert_eq!(n.cloze_text, "Walk down the {{c1::aisle}}.");
    assert_eq!(n.source.as_deref(), Some("Office"));
    assert!(n.examples_html.unwrap().contains("Walk down the aisle."));
}

#[test]
fn tally_of_results() {
    let mut s = ImportSummary::new();
    s.record_deck();
    s.record_note(&Ok(5));
    s.record_note(&Err("cannot create note because it is a duplicate".to_string()));
    s.record_note(&Err("note already exists".to_string()));
    s.record_note(&Err("collection is not available".to_string()));
    assert_eq!(s.decks_created, 1);
    assert_eq!(s.notes_added, 1);
    assert_eq!(s.notes_skipped, 2);
    assert_eq!(s.notes_failed, 1);
}
