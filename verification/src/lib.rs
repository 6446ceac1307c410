//! The logic of a local speech transcription program.
//!
//! The modules decide what the program shows, asks for, fetches, writes and
//! refuses. Reading and writing files, the network, the terminal, the
//! microphone and the recognition of speech are left to whoever uses them:
//! what was found there is handed in as plain values, and what has to be done
//! next is handed back.
pub mod app;
pub mod audio;
pub mod checksum;
pub mod cli;
pub mod error;
pub mod install;
pub mod json;
pub mod output;
pub mod path;
pub mod settings;
pub mod text;
pub mod transcriber;
pub mod transcript;
pub mod tui;
pub mod windows;
