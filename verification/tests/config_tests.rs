use teams_whisperer::config::{
    is_url, log_filter, whisper_model_file, Args, LocalModel,
    OutputFormat, Summarizer, Transcriber, WhisperModel, WHISPER_MODEL_REPO,
};

fn args_with(summarizer: Option<Summarizer>, language: Option<&str>) -> Args {
    Args {
        input: "recording.mp4".to_string(),
        transcriber: Transcriber::Whisper,
        model: WhisperModel::Small,
        summarizer,
        format: OutputFormat::Structured,
        diarize: false,
        output: None,
        local_model: LocalModel::Ministral8B,
        language: language.map(|l| l.to_string()),
        verbose: 0,
    }
}

#[test]
fn whisper_model_ids() {
    assert_eq!(WhisperModel::Tiny.model_id(), "tiny");
    assert_eq!(WhisperModel::Base.model_id(), "base");
    assert_eq!(WhisperModel::Small.model_id(), "small");
    assert_eq!(WhisperModel::Medium.model_id(), "medium");
    assert_eq!(WhisperModel::Large.model_id(), "large-v3");
}

#[test]
fn whisper_model_files() {
    assert_eq!(whisper_model_file(WhisperModel::Small), "ggml-small.bin");
    assert_eq!(whisper_model_file(WhisperModel::Large), "ggml-large-v3.bin");
    assert_eq!(WHISPER_MODEL_REPO, "ggerganov/whisper.cpp");
}

#[test]
fn local_model_repositories() {
    assert_eq!(
        LocalModel::Ministral14B.repo_id(),
        "bartowski/mistralai_Ministral-3-14B-Instruct-2512-GGUF"
    );
    assert_eq!(
        LocalModel::Ministral8B.repo_id(),
        "bartowski/mistralai_Ministral-3-8B-Instruct-2512-GGUF"
    );
    assert_eq!(LocalModel::MistralNemo.repo_id(), "bartowski/Mistral-Nemo-Instruct-2407-GGUF");
    assert_eq!(LocalModel::Qwen7B.repo_id(), "bartowski/Qwen2.5-7B-Instruct-GGUF");
    assert_eq!(LocalModel::Mistral7B.repo_id(), "bartowski/Mistral-7B-Instruct-v0.3-GGUF");
}

#[test]
fn local_model_weight_files() {
    assert_eq!(
        LocalModel::Ministral14B.gguf_file(),
        "mistralai_Ministral-3-14B-Instruct-2512-Q4_K_M.gguf"
    );
    assert_eq!(
        LocalModel::Ministral8B.gguf_file(),
        "mistralai_Ministral-3-8B-Instruct-2512-Q4_K_M.gguf"
    );
    assert_eq!(LocalModel::MistralNemo.gguf_file(), "Mistral-Nemo-Instruct-2407-Q4_K_M.gguf");
    assert_eq!(LocalModel::Qwen7B.gguf_file(), "Qwen2.5-7B-Instruct-Q4_K_M.gguf");
    assert_eq!(LocalModel::Mistral7B.gguf_file(), "Mistral-7B-Instruct-v0.3-Q4_K_M.gguf");
}

#[test]
fn requested_summarizer_wins() {
    for s in [Summarizer::Local, Summarizer::Claude, Summarizer::NoSummary] {
        for local in [false, true] {
            for cli in [false, true] {
                assert_eq!(args_with(Some(s), None).resolve_summarizer(local, cli), s);
            }
        }
    }
}

#[test]
fn automatic_summarizer_prefers_local_then_cli() {
    let args = args_with(None, None);
    assert_eq!(args.resolve_summarizer(true, true), Summarizer::Local);
    assert_eq!(args.resolve_summarizer(true, false), Summarizer::Local);
    assert_eq!(args.resolve_summarizer(false, true), Summarizer::Claude);
    assert_eq!(args.resolve_summarizer(false, false), Summarizer::NoSummary);
}

#[test]
fn whisper_language_defaults_to_english() {
    assert_eq!(args_with(None, None).whisper_language(), "en");
    assert_eq!(args_with(None, Some("fi")).whisper_language(), "fi");
}

#[test]
fn url_detection() {
    assert!(is_url("http://example.com/a.mp4"));
    assert!(is_url("https://www.youtube.com/watch?v=abc"));
    assert!(is_url("www.example.com"));
    assert!(!is_url("recording.mp4"));
    assert!(!is_url("/home/me/https://x"));
    assert!(!is_url("ftp://example.com"));
    assert!(!is_url(""));
    assert!(!is_url("HTTP://EXAMPLE.COM"));
}

#[test]
fn log_filters_by_verbosity() {
    assert_eq!(log_filter(0), "warn,teams_whisperer=warn");
    assert_eq!(log_filter(1), "warn,teams_whisperer=info");
    assert_eq!(log_filter(2), "warn,teams_whisperer=debug");
    assert_eq!(log_filter(3), "info,teams_whisperer=trace");
    assert_eq!(log_filter(4), "debug,teams_whisperer=trace,whisper_cpp=trace");
    assert_eq!(log_filter(255), "debug,teams_whisperer=trace,whisper_cpp=trace");
}
