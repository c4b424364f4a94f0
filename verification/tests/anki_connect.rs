use cam2anki::anki::anki_connect::{
    base64_encode, custom_create_model_request, custom_model_fields, custom_model_steps,
    custom_styling_request, custom_templates_request, media_file, model_exists, read_result,
    read_status, study4_add_note_request, study4_audio_file, study4_create_model_request,
    study4_model_fields, study4_model_steps, study4_note_fields, study4_picture_file,
    study4_styling_request, study4_templates_request, AnkiReplyError, ModelStep, Study4Note,
    STUDY4_MODEL_NAME,
};
use cam2anki::anki::templates::{
    CUSTOM_BACK_TEMPLATE, CUSTOM_FRONT_TEMPLATE, CUSTOM_MODEL_CSS, STUDY4_BACK, STUDY4_CSS,
    STUDY4_FRONT,
};
use cam2anki::anki::model::AnkiResponse;

#[test]
fn base64_known_values() {
    assert_eq!(base64_encode(b""), "");
    assert_eq!(base64_encode(b"f"), "Zg==");
    assert_eq!(base64_encode(b"fo"), "Zm8=");
    assert_eq!(base64_encode(b"foo"), "Zm9v");
    assert_eq!(base64_encode(b"foob"), "Zm9vYg==");
    assert_eq!(base64_encode(b"fooba"), "Zm9vYmE=");
    assert_eq!(base64_encode(b"foobar"), "Zm9vYmFy");
    assert_eq!(base64_encode(&[0xff, 0xfe, 0xfd]), "//79");
    assert_eq!(base64_encode(&[0xfb, 0xff]), "+/8=");
}

#[test]
fn base64_length_is_four_per_started_block() {
    for n in 0..20usize {
        let data: Vec<u8> = (0..n).map(|i| (i * 37) as u8).collect();
        assert_eq!(base64_encode(&data).len(), 4 * ((n + 2) / 3));
    }
}

fn reply<T>(result: Option<T>, error: Option<&str>) -> AnkiResponse<T> {
    AnkiResponse { result, error: error.map(|e| e.to_string()) }
}

#[test]
fn reading_replies() {
    assert_eq!(read_result(reply(Some(42i64), None)).unwrap(), 42);
    match read_result(reply(Some(1i64), Some("model was not found"))) {
        Err(AnkiReplyError::Returned(m)) => assert_eq!(m, "model was not found"),
        other => panic!("unexpected {:?}", other),
    }
    match read_result(reply::<i64>(None, None)) {
        Err(AnkiReplyError::NoResult) => {}
        other => panic!("unexpected {:?}", other),
    }
    assert_eq!(read_status(reply::<u8>(None, None)), Ok(()));
    assert_eq!(read_status(reply::<u8>(None, Some("bad"))), Err("bad".to_string()));
}

#[test]
fn model_steps() {
    let models = vec!["Basic".to_string(), "Cam2Anki Cloze v2".to_string()];
    assert!(model_exists(&models, "Basic"));
    assert!(!model_exists(&models, "basic"));
    assert_eq!(
        custom_model_steps(&models, "Cam2Anki Cloze v2"),
        vec![ModelStep::UpdateStyling, ModelStep::UpdateTemplates]
    );
    assert_eq!(
        custom_model_steps(&models, "Other"),
        vec![ModelStep::Create, ModelStep::UpdateStyling, ModelStep::UpdateTemplates]
    );
    assert_eq!(study4_model_steps(&models), vec![ModelStep::Create]);
    let with_study4 = vec![STUDY4_MODEL_NAME.to_string()];
    assert_eq!(
        study4_model_steps(&with_study4),
        vec![ModelStep::UpdateStyling, ModelStep::UpdateTemplates]
    );
}

#[test]
fn model_field_lists() {
    assert_eq!(
        custom_model_fields(),
        vec!["Text", "Word", "IPA", "PartOfSpeech", "Definition", "Examples", "Audio", "Source"]
    );
    assert_eq!(
        study4_model_fields(),
        vec![
            "Text", "Word", "IPA", "PartOfSpeech", "DefinitionEN", "DefinitionVI", "Image", "Audio",
            "Examples", "Source"
        ]
    );
}

#[test]
fn study4_fields_and_media() {
    let note = Study4Note {
        deck: "Complete TOEIC::Office".to_string(),
        word: "aisle".to_string(),
        ipa: Some("/aɪl/".to_string()),
        part_of_speech: None,
        definition_en: Some("a passage".to_string()),
        definition_vi: None,
        image_abs_path: None,
        image_filename: None,
        audio_abs_path: None,
        audio_filename: None,
        examples_html: None,
        cloze_text: "{{c1::aisle}}".to_string(),
        source: Some("Office".to_string()),
    };
    let fields = study4_note_fields(&note);
    let pairs: Vec<(String, String)> = fields.into_iter().map(|f| (f.name, f.value)).collect();
    let expected: Vec<(String, String)> = [
        ("Text", "{{c1::aisle}}"),
        ("Word", "aisle"),
        ("IPA", "/aɪl/"),
        ("PartOfSpeech", ""),
        ("DefinitionEN", "a passage"),
        ("DefinitionVI", ""),
        ("Image", ""),
        ("Audio", ""),
        ("Examples", ""),
        ("Source", "Office"),
    ]
    .iter()
    .map(|(a, b)| (a.to_string(), b.to_string()))
    .collect();
    assert_eq!(pairs, expected);

    let m = media_file(b"hello", "aisle.mp3", "Audio");
    assert_eq!(m.data, "aGVsbG8=");
    assert_eq!(m.filename, "aisle.mp3");
    assert_eq!(m.fields, vec!["Audio".to_string()]);
}

fn sample_note() -> Study4Note {
    Study4Note {
        deck: "Complete TOEIC::Office".to_string(),
        word: "aisle".to_string(),
        ipa: None,
        part_of_speech: Some("noun".to_string()),
        definition_en: None,
        definition_vi: Some("lối đi".to_string()),
        image_abs_path: Some("/tmp/aisle.jpg".to_string()),
        image_filename: Some("aisle.jpg".to_string()),
        audio_abs_path: None,
        audio_filename: None,
        examples_html: Some("<li>x</li>".to_string()),
        cloze_text: "the {{c1::aisle}}".to_string(),
        source: None,
    }
}

#[test]
fn study4_add_note_body() {
    let note = sample_note();
    let picture = study4_picture_file(b"abc", "aisle.jpg");
    let req = study4_add_note_request(&note, None, Some(picture));
    assert_eq!(req.action, "addNote");
    assert_eq!(req.version, 6);
    let n = req.params.expect("params").note;
    assert_eq!(n.deck_name, "Complete TOEIC::Office");
    assert_eq!(n.model_name, "Study4 TOEIC");
    assert!(!n.options.allow_duplicate);
    assert_eq!(n.options.duplicate_scope, "deck");
    let values: Vec<String> = n.fields.iter().map(|f| f.value.clone()).collect();
    assert_eq!(
        values,
        vec!["the {{c1::aisle}}", "aisle", "", "noun", "", "lối đi", "", "", "<li>x</li>", ""]
    );
    assert!(n.audio.is_none());
    let pics = n.picture.expect("picture");
    assert_eq!(pics.len(), 1);
    assert_eq!(pics[0].data, "YWJj");
    assert_eq!(pics[0].filename, "aisle.jpg");
    assert_eq!(pics[0].fields, vec!["Image".to_string()]);
}

#[test]
fn study4_add_note_with_audio_only() {
    let note = sample_note();
    let audio = study4_audio_file(b"hello", "aisle.mp3");
    let req = study4_add_note_request(&note, Some(audio), None);
    let n = req.params.expect("params").note;
    assert!(n.picture.is_none());
    let a = n.audio.expect("audio");
    assert_eq!(a.len(), 1);
    assert_eq!(a[0].data, "aGVsbG8=");
    assert_eq!(a[0].fields, vec!["Audio".to_string()]);
}

#[test]
fn create_model_requests() {
    let req = custom_create_model_request("Cambridge Cloze");
    assert_eq!(req.action, "createModel");
    assert_eq!(req.version, 6);
    let p = req.params.expect("params");
    assert_eq!(p.model_name, "Cambridge Cloze");
    assert_eq!(p.in_order_fields, custom_model_fields());
    assert!(p.is_cloze);
    assert_eq!(p.css, CUSTOM_MODEL_CSS);
    assert_eq!(p.card_templates.len(), 1);
    assert_eq!(p.card_templates[0].name, "Meaning");
    assert_eq!(p.card_templates[0].front, CUSTOM_FRONT_TEMPLATE);
    assert_eq!(p.card_templates[0].back, CUSTOM_BACK_TEMPLATE);

    let req = study4_create_model_request();
    let p = req.params.expect("params");
    assert_eq!(p.model_name, STUDY4_MODEL_NAME);
    assert_eq!(p.in_order_fields, study4_model_fields());
    assert!(p.is_cloze);
    assert_eq!(p.css, STUDY4_CSS);
    assert_eq!(p.card_templates[0].name, "Vocabulary");
    assert_eq!(p.card_templates[0].front, STUDY4_FRONT);
    assert_eq!(p.card_templates[0].back, STUDY4_BACK);
}

#[test]
fn update_model_requests() {
    let r = custom_styling_request("Cambridge Cloze");
    assert_eq!(r.action, "updateModelStyling");
    let p = r.params.expect("params");
    assert_eq!(p.name, "Cambridge Cloze");
    assert_eq!(p.css, CUSTOM_MODEL_CSS);

    let r = custom_templates_request("Cambridge Cloze");
    assert_eq!(r.action, "updateModelTemplates");
    let p = r.params.expect("params");
    assert_eq!(p.name, "Cambridge Cloze");
    assert_eq!(p.template_name, "Meaning");
    assert_eq!(p.front, CUSTOM_FRONT_TEMPLATE);
    assert_eq!(p.back, CUSTOM_BACK_TEMPLATE);

    let r = study4_styling_request();
    let p = r.params.expect("params");
    assert_eq!(p.name, "Study4 TOEIC");
    assert_eq!(p.css, STUDY4_CSS);

    let r = study4_templates_request();
    assert_eq!(r.version, 6);
    let p = r.params.expect("params");
    assert_eq!(p.name, "Study4 TOEIC");
    assert_eq!(p.template_name, "Vocabulary");
    assert_eq!(p.front, STUDY4_FRONT);
    assert_eq!(p.back, STUDY4_BACK);
}
