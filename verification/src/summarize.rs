//! Prompts for meeting summarization, and the clean-up of what a model
//! answers.
use vstd::prelude::*;

use crate::config::OutputFormat;
use crate::text::{
    chars_of, contains, is_trimmed, lemma_replace_leaves_no_occurrence, lemma_trim_laws,
    push_str_chars, replace_all, replace_all_chars, string_from_chars, trim, trim_chars,
};

verus! {

broadcast use vstd::string::group_string_axioms;

/// Instructions for structured meeting notes.
pub const STRUCTURED_PROMPT: &'static str = "You are a meeting notes assistant. Given a meeting transcript, produce structured \
     markdown meeting notes with the following sections:\n\n\
     ## Key Discussion Points\n\
     - Bullet points of main topics discussed\n\n\
     ## Decisions Made\n\
     - Any decisions that were agreed upon\n\n\
     ## Action Items\n\
     - [ ] Action item with owner if identifiable\n\n\
     ## Summary\n\
     A brief 2-3 sentence overall summary.\n\n\
     Be concise. Focus on substance, not filler. \
     If speakers are labeled, note who said/decided what.";

/// Instructions for a prose summary.
pub const PROSE_PROMPT: &'static str = "You are a meeting notes assistant. Given a meeting transcript, write a concise \
     prose summary covering the key points discussed, any decisions made, and action \
     items. Keep it to 2-4 paragraphs. Be direct and substantive.";

/// The line that separates the instructions from the transcript.
pub const TRANSCRIPT_HEADER: &'static str = "\n\n--- TRANSCRIPT ---\n";

/// The instructions for a summary format.
pub open spec fn spec_summary_prompt(format: OutputFormat) -> Seq<char> {
    match format {
        OutputFormat::Structured => STRUCTURED_PROMPT@,
        OutputFormat::Prose => PROSE_PROMPT@,
    }
}

/// Build the system prompt for meeting summarization.
pub fn summary_prompt(format: OutputFormat) -> (r: &'static str)
    ensures
        r@ == spec_summary_prompt(format),
{
    match format {
        OutputFormat::Structured => STRUCTURED_PROMPT,
        OutputFormat::Prose => PROSE_PROMPT,
    }
}

/// The full request sent to the local model: the instructions, a header
/// line, then the transcript.
pub open spec fn spec_request_prompt(format: OutputFormat, transcript: Seq<char>) -> Seq<char> {
    spec_summary_prompt(format) + TRANSCRIPT_HEADER@ + transcript
}

/// The request begins with the whole instructions and ends with the whole
/// transcript, however long, with the header and nothing else between.
pub proof fn lemma_request_ends_with_transcript(format: OutputFormat, t: Seq<char>)
    ensures
        spec_request_prompt(format, t).len() == spec_summary_prompt(format).len()
            + TRANSCRIPT_HEADER@.len() + t.len(),
        spec_request_prompt(format, t).subrange(0, spec_summary_prompt(format).len() as int)
            == spec_summary_prompt(format),
        spec_request_prompt(format, t).subrange(
            spec_summary_prompt(format).len() as int,
            (spec_summary_prompt(format).len() + TRANSCRIPT_HEADER@.len()) as int,
        ) == TRANSCRIPT_HEADER@,
        spec_request_prompt(format, t).subrange(
            spec_request_prompt(format, t).len() - t.len(),
            spec_request_prompt(format, t).len() as int,
        ) == t,
{
    let p = spec_summary_prompt(format);
    let h = TRANSCRIPT_HEADER@;
    let r = spec_request_prompt(format, t);
    assert(r.subrange(0, p.len() as int) =~= p);
    assert(r.subrange(p.len() as int, (p.len() + h.len()) as int) =~= h);
    assert(r.subrange(r.len() - t.len(), r.len() as int) =~= t);
}

/// The full request sent to the local model: the instructions, a header
/// line, then the transcript.
pub fn request_prompt(format: OutputFormat, transcript: &str) -> (r: String)
    ensures
        r@ == spec_request_prompt(format, transcript@),
        r@.len() == spec_summary_prompt(format).len() + TRANSCRIPT_HEADER@.len()
            + transcript@.len(),
        r@.subrange(0, spec_summary_prompt(format).len() as int) == spec_summary_prompt(format),
        r@.subrange(r@.len() - transcript@.len(), r@.len() as int) == transcript@,
{
    proof {
        lemma_request_ends_with_transcript(format, transcript@);
    }
    let mut v: Vec<char> = Vec::new();
    push_str_chars(&mut v, summary_prompt(format));
    push_str_chars(&mut v, TRANSCRIPT_HEADER);
    push_str_chars(&mut v, transcript);
    assert(v@ =~= spec_request_prompt(format, transcript@));
    string_from_chars(v.as_slice())
}

/// How the command-line assistant is run: the arguments it is given and
/// the text piped to its standard input.
pub struct CliInvocation {
    /// Arguments after the program's name
    pub args: Vec<String>,
    /// Text written to the program's standard input
    pub stdin: String,
}

/// The assistant runs once in print mode with the instructions as its
/// prompt (`-p <instructions>`), and reads the transcript on standard input.
pub fn cli_invocation(format: OutputFormat, transcript: &str) -> (r: CliInvocation)
    ensures
        r.args.deep_view() == seq!["-p"@, spec_summary_prompt(format)],
        r.stdin@ == transcript@,
{
    let mut args: Vec<String> = Vec::new();
    args.push("-p".to_string());
    args.push(summary_prompt(format).to_string());
    assert(args.deep_view() =~= seq!["-p"@, spec_summary_prompt(format)]);
    CliInvocation { args, stdin: transcript.to_string() }
}

/// The escaped newline that GGUF models may print.
pub const ESCAPED_NEWLINE: &'static str = "<0x0A>";

/// What is kept of a local model's answer: escaped newlines decoded, then
/// white space trimmed from both ends.
pub open spec fn spec_clean_model_output(content: Seq<char>) -> Seq<char> {
    trim(replace_all(content, ESCAPED_NEWLINE@, "\n"@))
}

/// Decodes the `<0x0A>` newlines of a local model's answer and trims it.
pub fn clean_model_output(content: &str) -> (r: String)
    ensures
        r@ == spec_clean_model_output(content@),
        is_trimmed(r@),
        !contains(r@, ESCAPED_NEWLINE@),
{
    let s = chars_of(content);
    let pat = chars_of(ESCAPED_NEWLINE);
    let rep = chars_of("\n");
    proof {
        reveal_strlit("<0x0A>");
        reveal_strlit("\n");
    }
    let replaced = replace_all_chars(&s, &pat, &rep);
    let t = trim_chars(&replaced);
    proof {
        lemma_trim_laws(replaced@);
        lemma_replace_leaves_no_occurrence(s@, pat@, rep@);
        lemma_no_occurrence_in_trim(replaced@, pat@);
    }
    string_from_chars(t.as_slice())
}

/// Trimming cannot create an occurrence that was not there.
proof fn lemma_no_occurrence_in_trim(s: Seq<char>, p: Seq<char>)
    requires
        !contains(s, p),
    ensures
        !contains(trim(s), p),
{
    crate::text::lemma_trim_start_at(s, 0);
    crate::text::lemma_trim_end_at(s, s.len() as int);
    let a = crate::text::trim_start_at(s, 0);
    let t = trim(s);
    assert forall|i: int| !crate::text::occurs_at(t, p, i) by {
        if crate::text::occurs_at(t, p, i) {
            assert(t.subrange(i, i + p.len()) =~= s.subrange(a + i, a + i + p.len()));
            assert(crate::text::occurs_at(s, p, a + i));
        }
    }
}

/// What is kept of the command-line assistant's answer: the text, trimmed.
pub fn clean_cli_output(stdout_text: &str) -> (r: String)
    ensures
        r@ == trim(stdout_text@),
        is_trimmed(r@),
{
    proof {
        lemma_trim_laws(stdout_text@);
    }
    crate::text::trim_str(stdout_text)
}

} // verus!
