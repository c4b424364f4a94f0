//! AnkiConnect requests, notes and helpers.
pub mod anki_connect;
pub mod model;
pub mod templates;
pub mod util;
