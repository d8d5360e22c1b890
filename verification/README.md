# teams-whisperer

Transcribe and summarize meeting recordings, local-first: download or open a
recording, extract 16 kHz mono audio, transcribe it, and summarize it with a
local model or a command-line assistant.

Layout:

- `src/` — the verified library (Verus). Every function carries a contract
  stated over `Seq<char>` and the other vstd models; all but the few
  marked `external_body` (thin calls into std, whose contracts are trusted)
  are proved.
  - `config.rs` — engines, models, output formats, the parsed arguments, the
    choice of summarizer, URL detection, log filters.
  - `input.rs` — the stable caching ID of a recording's URL (YouTube IDs, or
    sixteen hexadecimal digits of a hash) and the cache file name.
  - `audio.rs` — the decisions of the decoding loop (track choice, packet and
    frame handling, stream format), the ffmpeg fallback, and the framing of
    raw `f32le` output.
  - `transcribe.rs` — transcript segments and their text form, and the
    handling of the Voxtral engine's tokens, chunk texts and spectrogram
    layout.
  - `summarize.rs` — summarization prompts and the clean-up of answers.
  - `text.rs` — character-level operations (prefixes, search, trimming,
    replacing, decimal digits) with their specifications and laws.
- `app/` — the program around the library: argument parsing, downloads,
  decoding and resampling, the transcription and summarization engines, and
  file output.
- `tests/` — tests of the library on concrete values.
