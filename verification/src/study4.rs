//! Importing the Study4 TOEIC vocabulary database into Anki.
pub mod db;
pub mod importer;
