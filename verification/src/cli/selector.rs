//! Choosing a deck from a list.
use vstd::prelude::*;

verus! {

/// The item a selection answers: nothing for an empty list or a cancelled
/// selection, otherwise the chosen item.
pub open spec fn spec_selected(items: Seq<String>, choice: Option<usize>) -> Option<Seq<char>> {
    if items.len() == 0 {
        None
    } else {
        match choice {
            Some(i) => Some(items[i as int]@),
            None => None,
        }
    }
}

/// The item the user picked from `items`. `choice` is the index the
/// selection prompt returned (`None` when it was cancelled); an empty list is
/// answered with `None` without asking.
pub fn select_item(items: &Vec<String>, choice: Option<usize>) -> (r: Option<String>)
    requires
        items@.len() > 0 ==> (choice matches Some(i) ==> i < items@.len()),
    ensures
        match r {
            Some(s) => spec_selected(items@, choice) == Some(s@),
            None => spec_selected(items@, choice) is None,
        },
{
    if items.len() == 0 {
        return None;
    }
    match choice {
        Some(i) => Some(items[i].clone()),
        None => None,
    }
}

/// The deck the user picked to import into.
pub fn select_desk(desks: &Vec<String>, choice: Option<usize>) -> (r: Option<String>)
    requires
        desks@.len() > 0 ==> (choice matches Some(i) ==> i < desks@.len()),
    ensures
        match r {
            Some(s) => spec_selected(desks@, choice) == Some(s@),
            None => spec_selected(desks@, choice) is None,
        },
{
    select_item(desks, choice)
}

/// Why no deck was chosen.
#[derive(Debug, PartialEq, Eq)]
pub enum DeckChoiceError {
    /// AnkiConnect listed no deck.
    NoDecks,
    /// The user cancelled the selection.
    Cancelled,
}

impl DeckChoiceError {
    /// The message shown to the user.
    pub fn message(&self) -> (r: String)
        ensures
            r@ == match self {
                DeckChoiceError::NoDecks => "No decks were returned by AnkiConnect. Check that Anki is open and that your profile has at least one deck."@,
                DeckChoiceError::Cancelled => "Deck selection cancelled"@,
            },
    {
        match self {
            DeckChoiceError::NoDecks => "No decks were returned by AnkiConnect. Check that Anki is open and that your profile has at least one deck.".to_owned(),
            DeckChoiceError::Cancelled => "Deck selection cancelled".to_owned(),
        }
    }
}

/// The deck to import into: an error when there is no deck or the selection
/// was cancelled, otherwise the chosen deck.
pub fn choose_deck(decks: &Vec<String>, choice: Option<usize>) -> (r: Result<String, DeckChoiceError>)
    requires
        decks@.len() > 0 ==> (choice matches Some(i) ==> i < decks@.len()),
    ensures
        decks@.len() == 0 ==> r == Err::<String, DeckChoiceError>(DeckChoiceError::NoDecks),
        decks@.len() > 0 ==> match choice {
            Some(i) => r matches Ok(s) && s@ == decks@[i as int]@,
            None => r == Err::<String, DeckChoiceError>(DeckChoiceError::Cancelled),
        },
{
    if decks.len() == 0 {
        return Err(DeckChoiceError::NoDecks);
    }
    match select_desk(decks, choice) {
        Some(d) => Ok(d),
        None => Err(DeckChoiceError::Cancelled),
    }
}

} // verus!
