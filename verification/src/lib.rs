//! The decisions and text handling of a meeting-recording transcriber:
//! command-line configuration, naming of downloaded recordings, the audio
//! decoding loop's decisions, transcript formatting, and summarization
//! prompts, each stated by a contract and proved.
pub mod audio;
pub mod config;
pub mod input;
pub mod summarize;
pub mod text;
pub mod transcribe;

pub use config::{
    is_url, Args, LocalModel, OutputFormat, Summarizer, Transcriber,
    WhisperModel,
};
pub use summarize::summary_prompt;
pub use transcribe::{format_transcript, Segment};
