use teams_whisperer::transcribe::{
    format_time, format_transcript, join_chunk_texts, text_token_ids, transpose_frames,
    LayoutError, Segment,
};

fn seg(start_cs: i64, end_cs: i64, text: &str) -> Segment {
    Segment::from_whisper(start_cs, end_cs, text.to_string())
}

#[test]
fn clock_readings() {
    assert_eq!(format_time(0), "00:00");
    assert_eq!(format_time(59), "00:59");
    assert_eq!(format_time(61), "01:01");
    assert_eq!(format_time(3599), "59:59");
    assert_eq!(format_time(3600), "01:00:00");
    assert_eq!(format_time(3725), "01:02:05");
    assert_eq!(format_time(360_000), "100:00:00");
    assert_eq!(format_time(u64::MAX), format!("{}:{:02}:{:02}", u64::MAX / 3600, (u64::MAX % 3600) / 60, u64::MAX % 60));
}

#[test]
fn transcript_lines() {
    let segs = vec![seg(0, 250, " Hello there."), seg(250, 6199, " Bye."), seg(360_000, 366_101, "x")];
    assert_eq!(
        format_transcript(&segs),
        "[00:00 -> 00:02] Hello there.\n[00:02 -> 01:01] Bye.\n[01:00:00 -> 01:01:01]x\n"
    );
    assert_eq!(format_transcript(&[]), "");
}

#[test]
fn transcript_of_concatenation() {
    let a = vec![seg(0, 100, "a")];
    let b = vec![seg(100, 200, "b"), seg(200, 300, "c")];
    let mut ab = Vec::new();
    ab.extend(a.iter().map(|s| Segment { start_ticks: s.start_ticks, end_ticks: s.end_ticks, text: s.text.clone() }));
    ab.extend(b.iter().map(|s| Segment { start_ticks: s.start_ticks, end_ticks: s.end_ticks, text: s.text.clone() }));
    assert_eq!(format_transcript(&ab), format_transcript(&a) + &format_transcript(&b));
}

#[test]
fn whisper_segments() {
    let s = Segment::from_whisper(-5, 1234, " hi".to_string());
    assert_eq!((s.start_ticks, s.end_ticks), (-800, 197_440));
    assert_eq!(s.text, " hi");
    assert_eq!(format_transcript(&[s]), "[00:00 -> 00:12] hi\n");
    let before = Segment::from_whisper(-250, -100, "x".to_string());
    assert_eq!(format_transcript(&[before]), "[00:00 -> 00:00]x\n");
}

#[test]
fn whole_recording_segment() {
    let s = Segment::whole_recording("all".to_string(), 16_000 * 75 + 15_999);
    assert_eq!(s.start_ticks, 0);
    assert_eq!(s.end_ticks, 16_000 * 75 + 15_999);
    assert_eq!(format_transcript(&[s]), "[00:00 -> 01:15]all\n");
}

#[test]
fn extreme_times_print_saturated() {
    let far = Segment { start_ticks: i128::MAX, end_ticks: i128::MIN, text: String::new() };
    let max = u64::MAX;
    assert_eq!(
        format_transcript(&[far]),
        format!("[{}:{:02}:{:02} -> 00:00]\n", max / 3600, (max % 3600) / 60, max % 60)
    );
}

#[test]
fn text_tokens_kept() {
    assert_eq!(text_token_ids(&vec![1, 999, 1000, -3, 4242, 32]), vec![1000, 4242]);
    assert_eq!(text_token_ids(&vec![]), Vec::<u32>::new());
}

#[test]
fn chunk_texts_joined() {
    let texts = vec![" Hello ".to_string(), "   ".to_string(), "\nworld\t".to_string(), "".to_string()];
    assert_eq!(join_chunk_texts(&texts), "Hello world");
    assert_eq!(join_chunk_texts(&vec![]), "");
    assert_eq!(join_chunk_texts(&vec![" a b ".to_string()]), "a b");
}

#[test]
fn spectrogram_transposed() {
    let frames = vec![vec![1, 2, 3], vec![4, 5, 6]];
    assert_eq!(transpose_frames(&frames, 0), Ok(vec![1, 4, 2, 5, 3, 6]));
    let ragged = vec![vec![1, 2], vec![3]];
    assert_eq!(transpose_frames(&ragged, -1), Ok(vec![1, 3, 2, -1]));
    let empty: Vec<Vec<i32>> = vec![];
    assert_eq!(transpose_frames(&empty, 0), Err(LayoutError::NoFrames));
    let no_bins: Vec<Vec<i32>> = vec![vec![], vec![]];
    assert_eq!(transpose_frames(&no_bins, 0), Ok(vec![]));
}

#[test]
fn spectrogram_index_rule() {
    let n_frames = 5;
    let n_mels = 4;
    let frames: Vec<Vec<u32>> =
        (0..n_frames).map(|f| (0..n_mels).map(|m| (f * 100 + m) as u32).collect()).collect();
    let flat = transpose_frames(&frames, 0).unwrap();
    for m in 0..n_mels {
        for f in 0..n_frames {
            assert_eq!(flat[m * n_frames + f], frames[f][m]);
        }
    }
}
