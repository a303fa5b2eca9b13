//! The rules behind a desktop tutoring application, without its files and
//! processes.
//!
//! The application keeps learner profiles, mastery records, quick-check
//! histories, a library of generated artifacts, design packs and projects as
//! JSON files, and it looks after a local Ollama server. This crate holds
//! what those commands decide: given what a file holds now and what the
//! caller hands in, what the file holds next, or why not; given how a program
//! ended, what to tell the user. Reading, writing and running is left to the
//! caller.
//!
//! Every function states what it returns as a contract over plain values,
//! and the verifier checks the code against it. Three things are taken on
//! trust and named as such where they stand: how `serde_json` reads and
//! writes JSON text ([`codec`]), what time `chrono` reports ([`clock`]), and
//! a few string functions of the standard library ([`std_text`]).

pub mod clock;
pub mod codec;
pub mod design_pack_storage;
pub mod error;
pub mod index_file;
pub mod json;
pub mod learner_storage;
pub mod library_storage;
pub mod ollama;
pub mod project_storage;
pub mod records;
pub mod std_text;
pub mod text;
