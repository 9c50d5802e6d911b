//! Connection, session and persistence logic of an SSH client.
pub mod clock;
pub mod models;
pub mod pages;
pub mod seqs;
pub mod services;
pub mod ssh;
pub mod state;
pub mod text;
pub mod utf8_stream;
