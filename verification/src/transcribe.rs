//! Transcript segments, and the text a transcript is printed as.
use vstd::prelude::*;

use crate::text::{
    chars_of, is_trimmed, lemma_trim_laws, push_str_chars, push_two_digits, string_from_chars,
    trim, trim_chars, two_digits,
};

verus! {

broadcast use vstd::string::group_string_axioms;

/// A transcribed segment with timestamps.
///
/// Times are counted in ticks of 1/16000 second, the sample period of the
/// pipeline's 16 kHz audio, so that both the engines' centisecond
/// timestamps and times measured in samples are held exactly.
pub struct Segment {
    /// Start time, in ticks of 1/16000 second
    pub start_ticks: i128,
    /// End time, in ticks of 1/16000 second
    pub end_ticks: i128,
    /// Transcribed text
    pub text: String,
}

/// Ticks (samples at 16 kHz) per second.
pub const TICKS_PER_SECOND: i128 = 16000;

/// Ticks per centisecond.
pub const TICKS_PER_CENTISECOND: i128 = 160;

impl Segment {
    /// A segment from Whisper's timestamps, which are in centiseconds.
    pub fn from_whisper(start_cs: i64, end_cs: i64, text: String) -> (r: Segment)
        ensures
            r.start_ticks == start_cs * 160,
            r.end_ticks == end_cs * 160,
            r.text == text,
    {
        Segment {
            start_ticks: start_cs as i128 * TICKS_PER_CENTISECOND,
            end_ticks: end_cs as i128 * TICKS_PER_CENTISECOND,
            text,
        }
    }

    /// One segment that spans a whole recording of `n_samples` samples at
    /// 16 kHz (for engines that give no timestamps): it ends exactly at
    /// `n_samples / 16000` seconds.
    pub fn whole_recording(text: String, n_samples: usize) -> (r: Segment)
        ensures
            r.start_ticks == 0,
            r.end_ticks == n_samples,
            r.text == text,
    {
        Segment { start_ticks: 0, end_ticks: n_samples as i128, text }
    }
}

/// The whole seconds a time is printed as: the time rounded down, a time
/// before the start of the recording printed as zero, and one beyond the
/// range of `u64` as its largest value.
pub open spec fn printed_seconds(ticks: i128) -> nat {
    if ticks < 0 {
        0
    } else if ticks / 16000 > u64::MAX {
        u64::MAX as nat
    } else {
        (ticks / 16000) as nat
    }
}

/// The whole seconds a time is printed as.
fn printed_seconds_exec(ticks: i128) -> (r: u64)
    ensures
        r as nat == printed_seconds(ticks),
{
    if ticks < 0 {
        0
    } else if ticks / TICKS_PER_SECOND > u64::MAX as i128 {
        u64::MAX
    } else {
        (ticks / TICKS_PER_SECOND) as u64
    }
}

/// A time of `t` whole seconds as a clock reading: `HH:MM:SS` from one hour
/// on, `MM:SS` before, each field zero-padded to two digits.
pub open spec fn clock(t: nat) -> Seq<char> {
    let h = t / 3600;
    let m = (t % 3600) / 60;
    let s = t % 60;
    if h > 0 {
        two_digits(h) + seq![':'] + two_digits(m) + seq![':'] + two_digits(s)
    } else {
        two_digits(m) + seq![':'] + two_digits(s)
    }
}

/// One transcript line: `[start -> end]text` and a newline, the times in
/// whole seconds.
pub open spec fn transcript_line(seg: Segment) -> Seq<char> {
    seq!['['] + clock(printed_seconds(seg.start_ticks)) + seq![' ', '-', '>', ' '] + clock(
        printed_seconds(seg.end_ticks),
    ) + seq![']'] + seg.text@ + seq!['\n']
}

/// The transcript of a list of segments: their lines, in order.
pub open spec fn transcript(segs: Seq<Segment>) -> Seq<char>
    decreases segs.len(),
{
    if segs.len() == 0 {
        Seq::empty()
    } else {
        transcript(segs.drop_last()) + transcript_line(segs.last())
    }
}

/// Appends the clock reading of `t` seconds.
fn push_clock(v: &mut Vec<char>, t: u64)
    ensures
        final(v)@ == old(v)@ + clock(t as nat),
{
    let h = t / 3600;
    let m = (t % 3600) / 60;
    let s = t % 60;
    if h > 0 {
        push_two_digits(v, h);
        v.push(':');
    }
    push_two_digits(v, m);
    v.push(':');
    push_two_digits(v, s);
    assert(final(v)@ =~= old(v)@ + clock(t as nat));
}

/// A time of `t` seconds as a clock reading.
pub fn format_time(t: u64) -> (r: String)
    ensures
        r@ == clock(t as nat),
{
    let mut v: Vec<char> = Vec::new();
    push_clock(&mut v, t);
    assert(v@ =~= clock(t as nat));
    string_from_chars(v.as_slice())
}

/// Format segments into a human-readable transcript.
pub fn format_transcript(segments: &[Segment]) -> (r: String)
    ensures
        r@ == transcript(segments@),
{
    let mut out: Vec<char> = Vec::new();
    let mut i: usize = 0;
    assert(segments@.take(0) =~= Seq::<Segment>::empty());
    while i < segments.len()
        invariant
            i <= segments@.len(),
            out@ == transcript(segments@.take(i as int)),
        decreases segments.len() - i,
    {
        let seg = &segments[i];
        let ghost before = out@;
        out.push('[');
        push_clock(&mut out, printed_seconds_exec(seg.start_ticks));
        out.push(' ');
        out.push('-');
        out.push('>');
        out.push(' ');
        push_clock(&mut out, printed_seconds_exec(seg.end_ticks));
        out.push(']');
        push_str_chars(&mut out, seg.text.as_str());
        out.push('\n');
        assert(out@ =~= before + transcript_line(segments@[i as int]));
        assert(segments@.take(i + 1).drop_last() =~= segments@.take(i as int));
        i = i + 1;
    }
    assert(segments@.take(i as int) =~= segments@);
    string_from_chars(out.as_slice())
}

/// The transcript of two lists of segments, one after the other, is the
/// first transcript followed by the second.
pub proof fn lemma_transcript_concat(a: Seq<Segment>, b: Seq<Segment>)
    ensures
        transcript(a + b) == transcript(a) + transcript(b),
    decreases b.len(),
{
    if b.len() == 0 {
        assert(a + b =~= a);
        assert(transcript(a) + transcript(b) =~= transcript(a));
    } else {
        lemma_transcript_concat(a, b.drop_last());
        assert((a + b).drop_last() =~= a + b.drop_last());
        assert((a + b).last() == b.last());
        assert(transcript(a) + transcript(b.drop_last()) + transcript_line(b.last()) =~= transcript(a)
            + (transcript(b.drop_last()) + transcript_line(b.last())));
    }
}

// ---------------------------------------------------------------------------
// Engine output handling
// ---------------------------------------------------------------------------

/// Token ids from this one on stand for text; lower ones are control tokens.
pub const FIRST_TEXT_TOKEN: i32 = 1000;

/// The text tokens among generated ones, in order.
pub open spec fn text_tokens(generated: Seq<i32>) -> Seq<u32>
    decreases generated.len(),
{
    if generated.len() == 0 {
        Seq::empty()
    } else if generated.last() >= FIRST_TEXT_TOKEN {
        text_tokens(generated.drop_last()).push(generated.last() as u32)
    } else {
        text_tokens(generated.drop_last())
    }
}

/// Keeps the text tokens of what a model generated.
pub fn text_token_ids(generated: &Vec<i32>) -> (r: Vec<u32>)
    ensures
        r@ == text_tokens(generated@),
{
    let mut out: Vec<u32> = Vec::new();
    let mut i: usize = 0;
    assert(generated@.take(0) =~= Seq::<i32>::empty());
    while i < generated.len()
        invariant
            i <= generated@.len(),
            out@ == text_tokens(generated@.take(i as int)),
        decreases generated.len() - i,
    {
        let t = generated[i];
        assert(generated@.take(i + 1).drop_last() =~= generated@.take(i as int));
        if t >= FIRST_TEXT_TOKEN {
            out.push(t as u32);
        }
        i = i + 1;
    }
    assert(generated@.take(i as int) =~= generated@);
    out
}

/// The texts that are kept of the chunks: each one trimmed, the empty ones
/// dropped.
pub open spec fn kept_texts(texts: Seq<Seq<char>>) -> Seq<Seq<char>>
    decreases texts.len(),
{
    if texts.len() == 0 {
        Seq::empty()
    } else if trim(texts.last()).len() > 0 {
        kept_texts(texts.drop_last()).push(trim(texts.last()))
    } else {
        kept_texts(texts.drop_last())
    }
}

/// Parts joined with single spaces between them.
pub open spec fn join_spaced(parts: Seq<Seq<char>>) -> Seq<char>
    decreases parts.len(),
{
    if parts.len() == 0 {
        Seq::empty()
    } else if parts.len() == 1 {
        parts[0]
    } else {
        join_spaced(parts.drop_last()) + seq![' '] + parts.last()
    }
}

/// The total number of characters in a list of parts.
pub open spec fn total_len(parts: Seq<Seq<char>>) -> nat
    decreases parts.len(),
{
    if parts.len() == 0 {
        0
    } else {
        total_len(parts.drop_last()) + parts.last().len()
    }
}

/// Joining two non-empty lists of parts one after the other puts exactly
/// one space between the joins of each: a space stands at every boundary.
pub proof fn lemma_join_spaced_concat(a: Seq<Seq<char>>, b: Seq<Seq<char>>)
    requires
        a.len() > 0,
        b.len() > 0,
    ensures
        join_spaced(a + b) == join_spaced(a) + seq![' '] + join_spaced(b),
    decreases b.len(),
{
    if b.len() == 1 {
        assert((a + b).drop_last() =~= a);
        assert((a + b).last() == b[0]);
    } else {
        lemma_join_spaced_concat(a, b.drop_last());
        assert((a + b).drop_last() =~= a + b.drop_last());
        assert((a + b).last() == b.last());
        assert(join_spaced(a) + seq![' '] + join_spaced(b.drop_last()) + seq![' '] + b.last()
            =~= join_spaced(a) + seq![' '] + (join_spaced(b.drop_last()) + seq![' '] + b.last()));
    }
}

/// The join of three parts is the first, a space, the second, a space, and
/// the third.
pub proof fn lemma_join_spaced_three(a: Seq<char>, b: Seq<char>, c: Seq<char>)
    ensures
        join_spaced(seq![a, b, c]) == a + seq![' '] + b + seq![' '] + c,
{
    let abc = seq![a, b, c];
    let ab = seq![a, b];
    assert(abc.drop_last() =~= ab);
    assert(ab.drop_last() =~= seq![a]);
    assert(join_spaced(seq![a]) == a);
    assert(join_spaced(ab) == join_spaced(seq![a]) + seq![' '] + b);
    assert(join_spaced(abc) == join_spaced(ab) + seq![' '] + c);
}

/// The join of non-empty parts has the parts' characters and one space for
/// each boundary between two neighbours.
pub proof fn lemma_join_spaced_len(parts: Seq<Seq<char>>)
    requires
        parts.len() > 0,
    ensures
        join_spaced(parts).len() == total_len(parts) + parts.len() - 1,
    decreases parts.len(),
{
    if parts.len() > 1 {
        lemma_join_spaced_len(parts.drop_last());
        assert(join_spaced(parts) == join_spaced(parts.drop_last()) + seq![' '] + parts.last());
        assert(total_len(parts) == total_len(parts.drop_last()) + parts.last().len());
    } else {
        assert(total_len(parts.drop_last()) == 0);
        assert(parts.last() == parts[0]);
        assert(total_len(parts) == total_len(parts.drop_last()) + parts.last().len());
    }
}

/// The text of a recording transcribed in chunks: the chunks' texts,
/// trimmed, the empty ones left out, joined with single spaces.
pub open spec fn chunk_transcript(texts: Seq<Seq<char>>) -> Seq<char> {
    join_spaced(kept_texts(texts))
}

proof fn lemma_kept_texts(texts: Seq<Seq<char>>)
    ensures
        forall|i: int|
            0 <= i < kept_texts(texts).len() ==> (#[trigger] kept_texts(texts)[i]).len() > 0
                && is_trimmed(kept_texts(texts)[i]),
    decreases texts.len(),
{
    if texts.len() > 0 {
        let prev = kept_texts(texts.drop_last());
        lemma_kept_texts(texts.drop_last());
        lemma_trim_laws(texts.last());
        let k = kept_texts(texts);
        assert forall|i: int| 0 <= i < k.len() implies (#[trigger] k[i]).len() > 0 && is_trimmed(
            k[i],
        ) by {
            if i < prev.len() {
                assert(k[i] == prev[i]);
            }
        }
    }
}

proof fn lemma_join_ends(parts: Seq<Seq<char>>)
    requires
        parts.len() > 0,
        forall|i: int| 0 <= i < parts.len() ==> (#[trigger] parts[i]).len() > 0,
    ensures
        join_spaced(parts).len() > 0,
        join_spaced(parts)[0] == parts[0][0],
        join_spaced(parts).last() == parts.last().last(),
    decreases parts.len(),
{
    if parts.len() > 1 {
        lemma_join_ends(parts.drop_last());
        assert(parts.drop_last()[0] == parts[0]);
    }
}

/// The joined chunk texts have no white space at either end.
pub proof fn lemma_chunk_transcript_trimmed(texts: Seq<Seq<char>>)
    ensures
        is_trimmed(chunk_transcript(texts)),
{
    let k = kept_texts(texts);
    lemma_kept_texts(texts);
    if k.len() > 0 {
        lemma_join_ends(k);
        assert(is_trimmed(k[0]));
        assert(is_trimmed(k[k.len() - 1]));
    }
}

/// Joins the texts of transcribed chunks.
pub fn join_chunk_texts(texts: &Vec<String>) -> (r: String)
    ensures
        r@ == chunk_transcript(texts.deep_view()),
        is_trimmed(r@),
        kept_texts(texts.deep_view()).len() > 0 ==> r@.len() == total_len(
            kept_texts(texts.deep_view()),
        ) + kept_texts(texts.deep_view()).len() - 1,
{
    let ghost tv = texts.deep_view();
    let mut out: Vec<char> = Vec::new();
    let mut count: usize = 0;
    let mut i: usize = 0;
    assert(tv.take(0) =~= Seq::<Seq<char>>::empty());
    while i < texts.len()
        invariant
            i <= texts@.len(),
            tv == texts.deep_view(),
            tv.len() == texts@.len(),
            out@ == join_spaced(kept_texts(tv.take(i as int))),
            count == kept_texts(tv.take(i as int)).len(),
            count <= i,
        decreases texts.len() - i,
    {
        let cs = chars_of(texts[i].as_str());
        let t = trim_chars(&cs);
        assert(tv.take(i + 1).drop_last() =~= tv.take(i as int));
        assert(tv.take(i + 1).last() == texts@[i as int]@);
        if t.len() > 0 {
            let ghost before = out@;
            if count > 0 {
                out.push(' ');
            }
            let mut k: usize = 0;
            let ghost mid = out@;
            while k < t.len()
                invariant
                    k <= t.len(),
                    out@ == mid + t@.take(k as int),
                decreases t.len() - k,
            {
                out.push(t[k]);
                k = k + 1;
                assert(out@ =~= mid + t@.take(k as int));
            }
            assert(t@.take(k as int) =~= t@);
            count = count + 1;
            proof {
                let kk = kept_texts(tv.take(i + 1));
                assert(kk.drop_last() =~= kept_texts(tv.take(i as int)));
                assert(out@ =~= join_spaced(kk));
            }
        }
        i = i + 1;
    }
    assert(tv.take(i as int) =~= tv);
    proof {
        lemma_chunk_transcript_trimmed(tv);
        if kept_texts(tv).len() > 0 {
            lemma_join_spaced_len(kept_texts(tv));
        }
    }
    string_from_chars(out.as_slice())
}


// ---------------------------------------------------------------------------
// Spectrogram layout
// ---------------------------------------------------------------------------

/// Why a spectrogram could not be laid out.
#[derive(Debug, Clone, Copy, PartialEq, Eq, Structural)]
pub enum LayoutError {
    /// The audio was too short to give any frame.
    NoFrames,
}

/// The value at mel bin `m` of frame `f`; a frame that is shorter than the
/// first one is read as `fill` past its end.
pub open spec fn mel_cell<T>(frames: Seq<Vec<T>>, fill: T, m: int, f: int) -> T {
    if m < frames[f]@.len() {
        frames[f]@[m]
    } else {
        fill
    }
}

/// Frames of mel bins laid out bin by bin: position `m * n_frames + f`
/// holds bin `m` of frame `f`, the width being that of the first frame.
pub open spec fn bins_major<T>(frames: Seq<Vec<T>>, fill: T) -> Seq<T> {
    let n_frames = frames.len() as int;
    let n_mels = frames[0]@.len() as int;
    Seq::new(
        (n_mels * n_frames) as nat,
        |k: int| mel_cell(frames, fill, k / n_frames, k % n_frames),
    )
}

/// Transposes a spectrogram from frames of bins (`[frames][mels]`) to one
/// flat buffer of bins of frames (`[mels][frames]`).
pub fn transpose_frames<T: Copy>(frames: &Vec<Vec<T>>, fill: T) -> (r: Result<Vec<T>, LayoutError>)
    requires
        frames@.len() > 0 ==> frames@[0]@.len() * frames@.len() <= usize::MAX,
        forall|f: int| 0 <= f < frames@.len() ==> (#[trigger] frames@[f])@.len() <= frames@[0]@.len(),
    ensures
        frames@.len() == 0 ==> r == Err::<Vec<T>, LayoutError>(LayoutError::NoFrames),
        frames@.len() > 0 ==> (r matches Ok(v) && v@ == bins_major(frames@, fill)),
{
    let n_frames = frames.len();
    if n_frames == 0 {
        return Err(LayoutError::NoFrames);
    }
    let n_mels = frames[0].len();
    let ghost target = bins_major(frames@, fill);
    let mut out: Vec<T> = Vec::new();
    let mut m: usize = 0;
    assert(0 * n_frames == 0) by (nonlinear_arith);
    while m < n_mels
        invariant
            n_frames == frames@.len(),
            n_frames > 0,
            n_mels == frames@[0]@.len(),
            n_mels * n_frames <= usize::MAX,
            target == bins_major(frames@, fill),
            m <= n_mels,
            out@.len() == m * n_frames,
            forall|k: int| 0 <= k < out@.len() ==> out@[k] == #[trigger] target[k],
        decreases n_mels - m,
    {
        let mut f: usize = 0;
        assert(m * n_frames + n_frames == (m + 1) * n_frames) by (nonlinear_arith);
        assert((m + 1) * n_frames <= n_mels * n_frames) by (nonlinear_arith)
            requires
                m + 1 <= n_mels,
                n_frames > 0,
        ;
        while f < n_frames
            invariant
                n_frames == frames@.len(),
                n_frames > 0,
                n_mels == frames@[0]@.len(),
                target == bins_major(frames@, fill),
                m < n_mels,
                f <= n_frames,
                (m + 1) * n_frames <= n_mels * n_frames,
                m * n_frames + n_frames == (m + 1) * n_frames,
                out@.len() == m * n_frames + f,
                forall|k: int| 0 <= k < out@.len() ==> out@[k] == #[trigger] target[k],
            decreases n_frames - f,
        {
            let frame = &frames[f];
            let v = if m < frame.len() {
                frame[m]
            } else {
                fill
            };
            proof {
                let k = m * n_frames + f;
                vstd::arithmetic::div_mod::lemma_fundamental_div_mod_converse(
                    k as int,
                    n_frames as int,
                    m as int,
                    f as int,
                );
                assert(target[k as int] == mel_cell(frames@, fill, m as int, f as int));
            }
            out.push(v);
            f = f + 1;
        }
        m = m + 1;
    }
    assert(out@ =~= target);
    Ok(out)
}

} // verus!
