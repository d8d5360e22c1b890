//! Command-line configuration: engines, models, formats, and the choices
//! made from them.
use std::path::PathBuf;
use vstd::prelude::*;

use crate::text::{chars_of, push_str_chars, starts_with, starts_with_exec, string_from_chars};

verus! {

broadcast use vstd::string::group_string_axioms;

/// `std::path::PathBuf`, carried through the configuration unread.
#[verifier::external_type_specification]
#[verifier::external_body]
pub struct ExPathBuf(std::path::PathBuf);

/// Whisper model sizes.
#[derive(Debug, Clone, Copy, PartialEq, Eq, Structural)]
pub enum WhisperModel {
    Tiny,
    Base,
    Small,
    Medium,
    Large,
}

impl WhisperModel {
    /// The model identifier used in the model's file name.
    pub open spec fn spec_model_id(self) -> Seq<char> {
        match self {
            WhisperModel::Tiny => "tiny"@,
            WhisperModel::Base => "base"@,
            WhisperModel::Small => "small"@,
            WhisperModel::Medium => "medium"@,
            WhisperModel::Large => "large-v3"@,
        }
    }

    /// The model identifier used in the model's file name.
    pub fn model_id(&self) -> (r: &'static str)
        ensures
            r@ == self.spec_model_id(),
    {
        match self {
            WhisperModel::Tiny => "tiny",
            WhisperModel::Base => "base",
            WhisperModel::Small => "small",
            WhisperModel::Medium => "medium",
            WhisperModel::Large => "large-v3",
        }
    }
}

/// The HuggingFace repository that holds the Whisper models.
pub const WHISPER_MODEL_REPO: &'static str = "ggerganov/whisper.cpp";

/// The file name of a Whisper model in that repository.
pub open spec fn spec_whisper_model_file(model: WhisperModel) -> Seq<char> {
    "ggml-"@ + model.spec_model_id() + ".bin"@
}

/// The file name of a Whisper model in its repository.
pub fn whisper_model_file(model: WhisperModel) -> (r: String)
    ensures
        r@ == spec_whisper_model_file(model),
{
    let mut v: Vec<char> = Vec::new();
    push_str_chars(&mut v, "ggml-");
    push_str_chars(&mut v, model.model_id());
    push_str_chars(&mut v, ".bin");
    string_from_chars(v.as_slice())
}

/// Transcription engines.
#[derive(Debug, Clone, Copy, PartialEq, Eq, Structural)]
pub enum Transcriber {
    /// Whisper.cpp via whisper-rs (default)
    Whisper,
    /// Voxtral ASR (4.4B multimodal model)
    Voxtral,
}

/// Summarization engines.
#[derive(Debug, Clone, Copy, PartialEq, Eq, Structural)]
pub enum Summarizer {
    /// Local LLM via mistral.rs
    Local,
    /// A command-line assistant, run once with the prompt
    Claude,
    /// No summarization, just output transcript (`none` on the command line)
    NoSummary,
}

/// Local language models for summarization.
#[derive(Debug, Clone, Copy, PartialEq, Eq, Structural)]
pub enum LocalModel {
    /// Ministral 3 14B Instruct
    Ministral14B,
    /// Ministral 3 8B Instruct
    Ministral8B,
    /// Mistral Nemo 12B Instruct
    MistralNemo,
    /// Qwen2.5-7B Instruct
    Qwen7B,
    /// Mistral 7B Instruct v0.3
    Mistral7B,
}

impl LocalModel {
    /// The HuggingFace repository that holds the model.
    pub open spec fn spec_repo_id(self) -> Seq<char> {
        match self {
            LocalModel::Ministral14B => "bartowski/mistralai_Ministral-3-14B-Instruct-2512-GGUF"@,
            LocalModel::Ministral8B => "bartowski/mistralai_Ministral-3-8B-Instruct-2512-GGUF"@,
            LocalModel::MistralNemo => "bartowski/Mistral-Nemo-Instruct-2407-GGUF"@,
            LocalModel::Qwen7B => "bartowski/Qwen2.5-7B-Instruct-GGUF"@,
            LocalModel::Mistral7B => "bartowski/Mistral-7B-Instruct-v0.3-GGUF"@,
        }
    }

    /// The GGUF weights file inside the repository.
    pub open spec fn spec_gguf_file(self) -> Seq<char> {
        match self {
            LocalModel::Ministral14B => "mistralai_Ministral-3-14B-Instruct-2512-Q4_K_M.gguf"@,
            LocalModel::Ministral8B => "mistralai_Ministral-3-8B-Instruct-2512-Q4_K_M.gguf"@,
            LocalModel::MistralNemo => "Mistral-Nemo-Instruct-2407-Q4_K_M.gguf"@,
            LocalModel::Qwen7B => "Qwen2.5-7B-Instruct-Q4_K_M.gguf"@,
            LocalModel::Mistral7B => "Mistral-7B-Instruct-v0.3-Q4_K_M.gguf"@,
        }
    }

    /// The HuggingFace repository that holds the model.
    pub fn repo_id(&self) -> (r: &'static str)
        ensures
            r@ == self.spec_repo_id(),
    {
        match self {
            LocalModel::Ministral14B => "bartowski/mistralai_Ministral-3-14B-Instruct-2512-GGUF",
            LocalModel::Ministral8B => "bartowski/mistralai_Ministral-3-8B-Instruct-2512-GGUF",
            LocalModel::MistralNemo => "bartowski/Mistral-Nemo-Instruct-2407-GGUF",
            LocalModel::Qwen7B => "bartowski/Qwen2.5-7B-Instruct-GGUF",
            LocalModel::Mistral7B => "bartowski/Mistral-7B-Instruct-v0.3-GGUF",
        }
    }

    /// The GGUF weights file inside the repository.
    pub fn gguf_file(&self) -> (r: &'static str)
        ensures
            r@ == self.spec_gguf_file(),
    {
        match self {
            LocalModel::Ministral14B => "mistralai_Ministral-3-14B-Instruct-2512-Q4_K_M.gguf",
            LocalModel::Ministral8B => "mistralai_Ministral-3-8B-Instruct-2512-Q4_K_M.gguf",
            LocalModel::MistralNemo => "Mistral-Nemo-Instruct-2407-Q4_K_M.gguf",
            LocalModel::Qwen7B => "Qwen2.5-7B-Instruct-Q4_K_M.gguf",
            LocalModel::Mistral7B => "Mistral-7B-Instruct-v0.3-Q4_K_M.gguf",
        }
    }
}

/// Output formats for summaries.
#[derive(Debug, Clone, Copy, PartialEq, Eq, Structural)]
pub enum OutputFormat {
    /// Structured meeting notes (discussion points, decisions, action items, summary)
    Structured,
    /// Freeform prose summary
    Prose,
}

/// The parsed command line.
pub struct Args {
    /// URL (YouTube, Teams, etc.) or path to a local video/audio file
    pub input: String,
    /// Transcription engine
    pub transcriber: Transcriber,
    /// Whisper model size (only used with the Whisper transcriber)
    pub model: WhisperModel,
    /// Summarization engine; `None` selects one automatically
    pub summarizer: Option<Summarizer>,
    /// Output format for summaries
    pub format: OutputFormat,
    /// Enable speaker diarization
    pub diarize: bool,
    /// Output directory for transcripts and summaries
    pub output: Option<PathBuf>,
    /// Local model for the local summarizer
    pub local_model: LocalModel,
    /// Language hint for Whisper (e.g., "en", "fi", "de")
    pub language: Option<String>,
    /// Verbosity: the number of `-v` flags
    pub verbose: u8,
}

/// The summarizer that is chosen: the one requested; else, automatically,
/// the local one when it is built in, else the command-line assistant when
/// its executable was found on the PATH, else none.
pub open spec fn spec_resolve_summarizer(
    requested: Option<Summarizer>,
    local_built_in: bool,
    cli_found: bool,
) -> Summarizer {
    match requested {
        Some(s) => s,
        None => if local_built_in {
            Summarizer::Local
        } else if cli_found {
            Summarizer::Claude
        } else {
            Summarizer::NoSummary
        },
    }
}

impl Args {
    /// Determine the summarizer to use: the one requested, else the one
    /// found automatically, given whether the local summarizer is built in
    /// and whether the command-line assistant was found on the PATH.
    pub fn resolve_summarizer(&self, local_built_in: bool, cli_found: bool) -> (r: Summarizer)
        ensures
            r == spec_resolve_summarizer(self.summarizer, local_built_in, cli_found),
    {
        match self.summarizer {
            Some(s) => s,
            None => if local_built_in {
                Summarizer::Local
            } else if cli_found {
                Summarizer::Claude
            } else {
                Summarizer::NoSummary
            },
        }
    }

    /// The language passed to Whisper: the hint given, else English.
    pub fn whisper_language(&self) -> (r: &str)
        ensures
            r@ == match self.language {
                Some(l) => l@,
                None => "en"@,
            },
    {
        match &self.language {
            Some(l) => l.as_str(),
            None => "en",
        }
    }
}

/// The prefixes that mark an input as a URL.
pub open spec fn is_url_spec(input: Seq<char>) -> bool {
    starts_with(input, "http://"@) || starts_with(input, "https://"@) || starts_with(input, "www."@)
}

/// Check if input looks like a URL (vs a local file path).
pub fn is_url(input: &str) -> (r: bool)
    ensures
        r == is_url_spec(input@),
{
    let s = chars_of(input);
    let http = chars_of("http://");
    let https = chars_of("https://");
    let www = chars_of("www.");
    starts_with_exec(&s, &http) || starts_with_exec(&s, &https) || starts_with_exec(&s, &www)
}

/// The log filter for a verbosity level: the crate's own messages get more
/// detail with each `-v`, other crates stay quiet until the third.
pub open spec fn spec_log_filter(verbose: u8) -> Seq<char> {
    if verbose == 0 {
        "warn,teams_whisperer=warn"@
    } else if verbose == 1 {
        "warn,teams_whisperer=info"@
    } else if verbose == 2 {
        "warn,teams_whisperer=debug"@
    } else if verbose == 3 {
        "info,teams_whisperer=trace"@
    } else {
        "debug,teams_whisperer=trace,whisper_cpp=trace"@
    }
}

/// The log filter for a verbosity level.
pub fn log_filter(verbose: u8) -> (r: &'static str)
    ensures
        r@ == spec_log_filter(verbose),
{
    match verbose {
        0 => "warn,teams_whisperer=warn",
        1 => "warn,teams_whisperer=info",
        2 => "warn,teams_whisperer=debug",
        3 => "info,teams_whisperer=trace",
        _ => "debug,teams_whisperer=trace,whisper_cpp=trace",
    }
}

} // verus!
