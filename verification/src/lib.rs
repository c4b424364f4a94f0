//! Verified core of a Cambridge-dictionary to Anki flashcard importer.
pub mod anki;
pub mod cam;
pub mod cli;
pub mod crawler;
pub mod input;
pub mod study4;
pub mod text;
