use cam2anki::cli::prompt::accept_word_line;
use cam2anki::cli::selector::{choose_deck, select_desk, select_item, DeckChoiceError};
use cam2anki::input::collect_jobs;

#[test]
fn selecting_items() {
    let items = vec!["Default".to_string(), "English".to_string()];
    assert_eq!(select_item(&items, Some(1)).as_deref(), Some("English"));
    assert_eq!(select_item(&items, None), None);
    assert_eq!(select_item(&vec![], None), None);
    assert_eq!(select_desk(&items, Some(0)).as_deref(), Some("Default"));
}

#[test]
fn choosing_a_deck() {
    assert_eq!(choose_deck(&vec![], None), Err(DeckChoiceError::NoDecks));
    let decks = vec!["Default".to_string()];
    assert_eq!(choose_deck(&decks, None), Err(DeckChoiceError::Cancelled));
    assert_eq!(choose_deck(&decks, Some(0)), Ok("Default".to_string()));
    assert_eq!(DeckChoiceError::Cancelled.message(), "Deck selection cancelled");
    assert!(DeckChoiceError::NoDecks.message().starts_with("No decks were returned by AnkiConnect."));
}

#[test]
fn word_lines() {
    let mut words: Vec<String> = Vec::new();
    assert!(accept_word_line(&mut words, "  apple \n"));
    assert!(accept_word_line(&mut words, "https://x"));
    assert!(!accept_word_line(&mut words, "   "));
    assert_eq!(words, vec!["apple".to_string(), "https://x".to_string()]);
}

#[test]
fn jobs_from_arguments_or_lines() {
    let from_args = collect_jobs(vec![" a ".to_string()], vec!["ignored".to_string()]);
    assert_eq!(from_args.len(), 1);
    assert_eq!(from_args[0].original_input, " a ");
    let from_lines = collect_jobs(
        vec![],
        vec![" go ".to_string(), "run".to_string(), " ".to_string(), "after".to_string()],
    );
    assert_eq!(from_lines.len(), 2);
    assert_eq!(from_lines[0].original_input, "go");
    assert_eq!(from_lines[0].url, "https://dictionary.cambridge.org/dictionary/english/go");
    assert_eq!(from_lines[1].original_input, "run");
}
