use teams_whisperer::input::{audio_file_name, extract_video_id, hash_hex, youtube_video_id};
use teams_whisperer::summarize::{
    clean_cli_output, clean_model_output, cli_invocation, request_prompt, summary_prompt, PROSE_PROMPT,
    STRUCTURED_PROMPT,
};
use teams_whisperer::config::OutputFormat;
use teams_whisperer::text::{chars_of, trim_str};

#[test]
fn structured_prompt_has_sections() {
    let p = summary_prompt(OutputFormat::Structured);
    assert_eq!(p, STRUCTURED_PROMPT);
    assert!(p.starts_with("You are a meeting notes assistant."));
    for section in [
        "## Key Discussion Points\n",
        "## Decisions Made\n",
        "## Action Items\n- [ ] Action item with owner if identifiable\n",
        "## Summary\n",
    ] {
        assert!(p.contains(section), "missing {section}");
    }
    assert!(p.ends_with("If speakers are labeled, note who said/decided what."));
}

#[test]
fn structured_prompt_text() {
    assert_eq!(
        summary_prompt(OutputFormat::Structured),
        "You are a meeting notes assistant. Given a meeting transcript, produce structured \
         markdown meeting notes with the following sections:\n\n## Key Discussion Points\n\
         - Bullet points of main topics discussed\n\n## Decisions Made\n\
         - Any decisions that were agreed upon\n\n## Action Items\n\
         - [ ] Action item with owner if identifiable\n\n## Summary\n\
         A brief 2-3 sentence overall summary.\n\nBe concise. Focus on substance, not filler. \
         If speakers are labeled, note who said/decided what."
    );
}

#[test]
fn prose_prompt_text() {
    let p = summary_prompt(OutputFormat::Prose);
    assert_eq!(p, PROSE_PROMPT);
    assert_eq!(
        p,
        "You are a meeting notes assistant. Given a meeting transcript, write a concise prose \
         summary covering the key points discussed, any decisions made, and action items. \
         Keep it to 2-4 paragraphs. Be direct and substantive."
    );
}

#[test]
fn request_prompt_layout() {
    let r = request_prompt(OutputFormat::Prose, "[00:00 -> 00:02] Hi\n");
    assert_eq!(r, format!("{}\n\n--- TRANSCRIPT ---\n[00:00 -> 00:02] Hi\n", PROSE_PROMPT));
    let r = request_prompt(OutputFormat::Structured, "");
    assert_eq!(r, format!("{}\n\n--- TRANSCRIPT ---\n", STRUCTURED_PROMPT));
}

#[test]
fn cli_gets_instructions_and_piped_transcript() {
    let inv = cli_invocation(OutputFormat::Structured, "[00:00 -> 00:01] Hi\n");
    assert_eq!(inv.args, vec!["-p".to_string(), STRUCTURED_PROMPT.to_string()]);
    assert_eq!(inv.stdin, "[00:00 -> 00:01] Hi\n");
    let inv = cli_invocation(OutputFormat::Prose, "");
    assert_eq!(inv.args, vec!["-p".to_string(), PROSE_PROMPT.to_string()]);
    assert_eq!(inv.stdin, "");
}

#[test]
fn model_output_newlines_decoded() {
    assert_eq!(clean_model_output("  Hello<0x0A>World \n"), "Hello\nWorld");
    assert_eq!(clean_model_output("<0x0A>## Notes<0x0A><0x0A>- a<0x0A>"), "## Notes\n\n- a");
    assert_eq!(clean_model_output("<<0x0A>0x0A>"), "<\n0x0A>");
    assert_eq!(clean_model_output("<0x0a>"), "<0x0a>");
    assert_eq!(clean_model_output(""), "");
    assert_eq!(clean_model_output("\t \n"), "");
}

#[test]
fn model_output_keeps_no_escape() {
    for s in ["<0x0A<0x0A>>", "x<0x0A>0x0A>", "<0x0<0x0A>A>"] {
        let out = clean_model_output(s);
        assert!(!out.contains("<0x0A>"), "{s} gave {out}");
        assert_eq!(out, s.replace("<0x0A>", "\n").trim());
    }
}

#[test]
fn cli_output_trimmed() {
    assert_eq!(clean_cli_output("\n\n## Summary\nDone.\n"), "## Summary\nDone.");
    assert_eq!(clean_cli_output("\u{3000}\u{a0} text \u{2028}"), "text");
    assert_eq!(clean_cli_output("   "), "");
}

#[test]
fn trim_matches_std() {
    for s in ["", " a ", "\u{85}x\u{1680}", "a b", "\u{200b}z\u{200b}", "\r\n\tq\x0b\x0c", "ß "] {
        assert_eq!(trim_str(s), s.trim(), "{s:?}");
        let once = trim_str(s);
        assert_eq!(trim_str(&once), once);
    }
}

#[test]
fn chars_round_trip() {
    assert_eq!(chars_of("añb"), vec!['a', 'ñ', 'b']);
}

#[test]
fn youtube_watch_ids() {
    assert_eq!(
        extract_video_id("https://www.youtube.com/watch?v=dQw4w9WgXcQ&t=10"),
        "dQw4w9WgXcQ"
    );
    assert_eq!(
        extract_video_id("https://www.youtube.com/watch?feature=share&v=abc_DEF-1#t=5"),
        "abc_DEF-1"
    );
    assert_eq!(extract_video_id("https://youtube.com/watch?v=xyz"), "xyz");
}

#[test]
fn youtube_short_link_ids() {
    assert_eq!(extract_video_id("https://youtu.be/abc123?si=tracking"), "abc123");
    assert_eq!(extract_video_id("https://youtu.be/abc123#t=1"), "abc123");
    assert_eq!(extract_video_id("youtu.be/plain"), "plain");
}

#[test]
fn youtube_path_ids() {
    assert_eq!(extract_video_id("https://www.youtube.com/shorts/XYZ987/"), "XYZ987");
    assert_eq!(extract_video_id("https://www.youtube.com/embed/E1?start=3"), "E1");
    assert_eq!(extract_video_id("https://www.youtube.com/v/V42&x=1"), "V42");
}

#[test]
fn youtube_without_id_falls_back_to_hash() {
    assert_eq!(youtube_video_id("https://www.youtube.com/feed/trending"), None);
    let id = extract_video_id("https://www.youtube.com/feed/trending");
    assert_eq!(id.len(), 16);
}

#[test]
fn other_sites_use_hash() {
    let url = "https://teams.microsoft.com/l/meetup/123";
    assert_eq!(youtube_video_id(url), None);
    let id = extract_video_id(url);
    assert_eq!(id.len(), 16);
    assert!(id.chars().all(|c| c.is_ascii_hexdigit() && !c.is_ascii_uppercase()));
    assert_ne!(id, url);
    // Stable: the same URL always gives the same ID.
    assert_eq!(extract_video_id(url), id);
    assert_ne!(extract_video_id("https://example.com/other"), id);
}

#[test]
fn ids_are_safe_file_stems() {
    assert_eq!(extract_video_id("https://youtu.be/a/b"), "a");
    assert_eq!(extract_video_id("https://youtube.com/watch?v=a/../b"), "a");
    assert_eq!(extract_video_id("https://youtube.com/watch?v=a\\b"), "a");
    assert_eq!(youtube_video_id("https://youtu.be/"), Some(String::new()));
    for url in [
        "https://youtu.be/",
        "https://youtu.be/..",
        "https://youtu.be/.?x",
        "https://youtube.com/watch?v=&x=1",
        "https://youtube.com/watch?v=/etc",
    ] {
        let id = extract_video_id(url);
        assert_eq!(id.len(), 16, "{url} gave {id}");
        assert!(id.chars().all(|c| c.is_ascii_hexdigit()));
    }
}

#[test]
fn plain_ids_from_every_form() {
    for id in ["dQw4w9WgXcQ", "a", "A-b_9", "--", "_"] {
        assert_eq!(extract_video_id(&format!("https://www.youtube.com/watch?v={id}")), id);
        assert_eq!(extract_video_id(&format!("https://www.youtube.com/watch?v={id}&t=10s")), id);
        assert_eq!(extract_video_id(&format!("https://youtu.be/{id}")), id);
        assert_eq!(extract_video_id(&format!("https://www.youtube.com/shorts/{id}")), id);
        assert_eq!(extract_video_id(&format!("https://www.youtube.com/embed/{id}")), id);
    }
}

#[test]
fn ids_avoid_query_characters() {
    for url in [
        "https://youtube.com/watch?v=a#b",
        "https://youtu.be/a?b&c#d",
        "https://youtube.com/shorts/x?y",
        "https://vimeo.com/?a=b&c#d",
        "https://youtu.be/x/y\\z",
    ] {
        let id = extract_video_id(url);
        assert!(!id.contains(['?', '&', '#', '/', '\\']), "{url} gave {id}");
        assert!(!id.is_empty() && id != "." && id != "..");
    }
}

#[test]
fn hex_formatting_matches_std() {
    for h in [0u64, 1, 15, 16, 255, 0xdead_beef, 0x0123_4567_89ab_cdef, u64::MAX] {
        assert_eq!(hash_hex(h), format!("{h:016x}"));
    }
}

#[test]
fn cache_file_names() {
    assert_eq!(audio_file_name("dQw4w9WgXcQ"), "dQw4w9WgXcQ.m4a");
    assert_eq!(audio_file_name(""), ".m4a");
}

#[test]
fn fallback_id_is_default_hasher_digest() {
    let url = "https://teams.microsoft.com/l/meetup/123";
    let mut hasher = std::collections::hash_map::DefaultHasher::new();
    std::hash::Hash::hash(url, &mut hasher);
    let digest = std::hash::Hasher::finish(&hasher);
    assert_eq!(extract_video_id(url), format!("{digest:016x}"));
}
