//! Core of a dictation tool: microphone samples are normalised to mono
//! 16-bit PCM, streamed to a speech-to-text service whose transcript
//! messages are reduced to one utterance, under a session controller that
//! admits one recording at a time.
pub mod audio;
pub mod text;
pub mod transcript;
pub mod session;
pub mod config;
pub mod error;
pub mod pipeline;
pub mod post_processor;
pub mod cli;
pub mod audio_file;
pub mod recorder;
pub mod sound;
pub mod tray;
pub mod context;
pub mod stream;
