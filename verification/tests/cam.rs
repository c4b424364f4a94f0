use cam2anki::cam::downloader::{audio_downloads, build_audio_filename, build_audio_output_path};
use cam2anki::cam::model::{Audio, Entry, Phonetic};
use cam2anki::cam::scraper::{element_text, entry_from_selections, parse_entry, to_absolute_url};
use cam2anki::cam::util::input_to_url;

#[test]
fn audio_file_names() {
    assert_eq!(build_audio_filename("Ice-cream Cone/X", "us"), "ice_cream_cone_x_us.mp3");
    assert_eq!(build_audio_output_path("Hello", "uk"), "audio_out/hello_uk.mp3");
    assert_eq!(
        build_audio_output_path("a b", "us"),
        format!("audio_out/{}", build_audio_filename("a b", "us"))
    );
}

#[test]
fn downloads_listed_uk_then_us() {
    let e = Entry {
        word: "Go".to_string(),
        part_of_speech: None,
        phonetic: Phonetic { uk: None, us: None },
        definitions: vec![],
        audio: Audio { uk: Some("https://a/uk.mp3".to_string()), us: Some("https://a/us.mp3".to_string()) },
    };
    let d = audio_downloads(&e);
    assert_eq!(d.len(), 2);
    assert_eq!(d[0].url, "https://a/uk.mp3");
    assert_eq!(d[0].path, "audio_out/go_uk.mp3");
    assert_eq!(d[1].url, "https://a/us.mp3");
    assert_eq!(d[1].path, "audio_out/go_us.mp3");
    let none = Entry { audio: Audio { uk: None, us: None }, ..e };
    assert!(audio_downloads(&none).is_empty());
}

#[test]
fn urls_from_input() {
    assert_eq!(input_to_url("hello"), "https://dictionary.cambridge.org/dictionary/english/hello");
    assert_eq!(
        input_to_url("  ice cream "),
        "https://dictionary.cambridge.org/dictionary/english/ice%20cream"
    );
    assert_eq!(input_to_url("café"), "https://dictionary.cambridge.org/dictionary/english/caf%C3%A9");
    assert_eq!(input_to_url("a-b_c.d~e/f"), "https://dictionary.cambridge.org/dictionary/english/a-b_c.d~e%2Ff");
    assert_eq!(input_to_url("https://example.com/x y"), "https://example.com/x y");
    assert_eq!(input_to_url("http://e.com"), "http://e.com");
}

#[test]
fn element_text_collapses_white_space() {
    let texts = vec!["  a  ".to_string(), "b\n\t c".to_string(), "".to_string(), "d".to_string()];
    assert_eq!(element_text(&texts), "a b c d");
    assert_eq!(element_text(&vec!["foo".to_string(), "bar".to_string()]), "foo bar");
    assert_eq!(element_text(&vec![]), "");
    assert_eq!(element_text(&vec!["\u{a0} x\u{3000}".to_string()]), "x");
}

#[test]
fn absolute_urls() {
    assert_eq!(to_absolute_url("/media/a.mp3"), "https://dictionary.cambridge.org/media/a.mp3");
    assert_eq!(to_absolute_url("https://cdn/a.mp3"), "https://cdn/a.mp3");
    assert_eq!(to_absolute_url("http://cdn/a.mp3"), "http://cdn/a.mp3");
}

const PAGE: &str = r#"<html><body>
<span class="dhw">apple</span>
<span class="pos">noun</span>
<span class="ipa">ˈæp.əl</span><span class="ipa">ˈæp.<b>ə</b>l</span>
<audio><source type="audio/mpeg" src="/media/uk/apple.mp3"></audio>
<audio><source type="audio/ogg" src="/media/uk/apple.ogg"><source type="audio/mpeg" src="https://cdn/us/apple.mp3"></audio>
<div class="def-block"><div class="def">a round
  fruit</div>
  <div class="examp"><span class="eg">I ate an  apple.</span></div>
  <div class="examp"><span class="eg">  </span></div>
</div>
<div class="def-block"><div class="def"> </div><div class="examp"><span class="eg">skipped</span></div></div>
<div class="def-block"><div class="def">a company</div></div>
</body></html>"#;

#[test]
fn parses_an_entry_page() {
    let e = parse_entry(PAGE);
    assert_eq!(e.word, "apple");
    assert_eq!(e.part_of_speech.as_deref(), Some("noun"));
    assert_eq!(e.phonetic.uk.as_deref(), Some("ˈæp.əl"));
    assert_eq!(e.phonetic.us.as_deref(), Some("ˈæp. ə l"));
    assert_eq!(e.audio.uk.as_deref(), Some("https://dictionary.cambridge.org/media/uk/apple.mp3"));
    assert_eq!(e.audio.us.as_deref(), Some("https://cdn/us/apple.mp3"));
    assert_eq!(e.definitions.len(), 2);
    assert_eq!(e.definitions[0].meaning, "a round fruit");
    assert_eq!(e.definitions[0].examples, vec!["I ate an apple.".to_string()]);
    assert_eq!(e.definitions[1].meaning, "a company");
    assert!(e.definitions[1].examples.is_empty());
}

#[test]
fn parses_an_empty_page() {
    let e = parse_entry("<html></html>");
    assert_eq!(e.word, "");
    assert_eq!(e.part_of_speech, None);
    assert_eq!(e.phonetic.uk, None);
    assert_eq!(e.audio.us, None);
    assert!(e.definitions.is_empty());
}

fn texts(v: &[&[&str]]) -> Vec<Vec<String>> {
    v.iter().map(|e| e.iter().map(|t| t.to_string()).collect()).collect()
}

#[test]
fn entry_from_given_selections() {
    let blocks = vec![
        (texts(&[&["  to walk ", "\n slowly"]]), texts(&[&["He ", "strolled."], &["  "]])),
        (texts(&[&[" "]]), texts(&[&["dropped with its block"]])),
        (texts(&[]), texts(&[&["no meaning at all"]])),
        (texts(&[&["a walk"], &["second meaning element is not read"]]), texts(&[])),
    ];
    let e = entry_from_selections(
        Some(blocks),
        Some(texts(&[&["stroll"], &["other"]])),
        Some(texts(&[&["verb"]])),
        Some(texts(&[&["strəʊl"]])),
        Some(vec![None, Some("https://cdn/us.mp3".to_string())]),
    );
    assert_eq!(e.word, "stroll");
    assert_eq!(e.part_of_speech.as_deref(), Some("verb"));
    assert_eq!(e.phonetic.uk.as_deref(), Some("strəʊl"));
    assert_eq!(e.phonetic.us, None);
    assert_eq!(e.audio.uk, None);
    assert_eq!(e.audio.us.as_deref(), Some("https://cdn/us.mp3"));
    assert_eq!(e.definitions.len(), 2);
    assert_eq!(e.definitions[0].meaning, "to walk slowly");
    assert_eq!(e.definitions[0].examples, vec!["He strolled.".to_string()]);
    assert_eq!(e.definitions[1].meaning, "a walk");
    assert!(e.definitions[1].examples.is_empty());
}

#[test]
fn entry_from_missing_selections() {
    let e = entry_from_selections(None, None, None, None, None);
    assert_eq!(e.word, "");
    assert_eq!(e.part_of_speech, None);
    assert_eq!(e.phonetic.uk, None);
    assert_eq!(e.phonetic.us, None);
    assert_eq!(e.audio.uk, None);
    assert_eq!(e.audio.us, None);
    assert!(e.definitions.is_empty());
    let e = entry_from_selections(
        None,
        Some(texts(&[&["  "]])),
        None,
        None,
        Some(vec![Some("/media/uk.mp3".to_string())]),
    );
    assert_eq!(e.word, "");
    assert_eq!(e.audio.uk.as_deref(), Some("https://dictionary.cambridge.org/media/uk.mp3"));
}
