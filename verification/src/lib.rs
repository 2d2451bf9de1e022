//! Verified core of the CoCoMiro infinite canvas.
pub mod auth;
pub mod board;
pub mod editor;
pub mod error;
pub mod formatted_text;
pub mod interaction;
pub mod markup;
pub mod note_store;
pub mod shared;
pub mod sticky_notes;
pub mod strings;
pub mod text_layout;
