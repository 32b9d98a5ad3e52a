//! Kana conversion and the conversion-state logic of a Japanese input method.
pub mod text;
pub mod kana;
pub mod keys;
pub mod preedit;
pub mod candidate;
pub mod input_buffer;
pub mod romaji;
pub mod learning;
pub mod dictionary;
pub mod engine;
pub mod conversion;
pub mod input;
pub mod cursor;
pub mod laws;
pub mod conversion_laws;
pub mod commit_laws;
