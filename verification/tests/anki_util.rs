use cam2anki::anki::util::{
    convert_html_definition, convert_html_example, convert_html_phoetic, norm_anki_base_url,
};

#[test]
fn uses_default_url_when_input_is_empty() {
    let expected = "http://127.0.0.1:8765".to_string();

    assert_eq!(norm_anki_base_url(""), expected);
}

#[test]
fn test_norm_anki_base_url() {
    let expected = "http://localhost:8765".to_string();

    assert_eq!(norm_anki_base_url("localhost:8765"), expected);
    assert_eq!(norm_anki_base_url("http://localhost:8765"), expected);
}

#[test]
fn norm_url_blank_input_gives_default() {
    assert_eq!(norm_anki_base_url("   \t\n"), "http://127.0.0.1:8765");
}

#[test]
fn norm_url_trims_and_keeps_https() {
    assert_eq!(norm_anki_base_url("  https://anki.local:8765 \n"), "https://anki.local:8765");
    assert_eq!(norm_anki_base_url(" 10.0.0.2:8765 "), "http://10.0.0.2:8765");
}

#[test]
fn norm_url_is_idempotent_on_examples() {
    for input in ["", "  ", "localhost:8765", "https://a.b", " x ", "http://"] {
        let once = norm_anki_base_url(input);
        assert_eq!(norm_anki_base_url(&once), once);
    }
}

#[test]
fn phonetic_gets_single_slashes() {
    assert_eq!(convert_html_phoetic("həˈləʊ"), "/həˈləʊ/");
    assert_eq!(convert_html_phoetic("//ab/"), "/ab/");
    assert_eq!(convert_html_phoetic("///"), "//");
}

#[test]
fn definition_and_example_blocks() {
    assert_eq!(
        convert_html_definition("a greeting"),
        "<div class=\"text-base leading-7 text-slate-700 text-pretty\">a greeting</div>"
    );
    assert_eq!(
        convert_html_example("Hi!"),
        "<div class=\"border-l-2 border-slate-200 pl-4 text-base italic leading-7 text-slate-600 text-pretty\">Hi!</div>"
    );
}

#[test]
fn phonetic_conversion_is_idempotent() {
    for p in ["h@.loU", "//h@.loU/", "/", "", "a/b", "///"] {
        let once = convert_html_phoetic(p);
        assert_eq!(convert_html_phoetic(&once), once);
    }
    assert_eq!(convert_html_phoetic("h@.loU"), "/h@.loU/");
    assert_eq!(convert_html_phoetic("//h@.loU/"), "/h@.loU/");
}
