//! A typing-practice engine: a text split into grapheme clusters, its word-wrapped
//! display lines with cursor movement, and practice samples sized by how earlier
//! ones went.

pub mod app;
pub mod book;
pub mod glyph_string;
pub mod handler;
pub mod sampling;
pub mod settings;
pub mod text;
pub mod text_wrapper;
pub mod ui;
