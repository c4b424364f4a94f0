//! What the interactive prompts decide with what the user typed or picked.
pub mod prompt;
pub mod selector;
