//! Decisions of audio extraction: which track to decode, what to do with
//! each packet and each decoded frame, which stream format results, when to
//! resample, and how raw `f32le` output is framed.
use vstd::prelude::*;

use crate::text::{decimal, decimal_chars, string_from_chars};

verus! {

broadcast use vstd::string::group_string_axioms;

/// The sample rate the transcription engines take.
pub const TARGET_SAMPLE_RATE: u32 = 16000;

/// Why audio could not be extracted.
#[derive(Debug, Clone, Copy, PartialEq, Eq, Structural)]
pub enum AudioError {
    /// Neither the decoded frames nor the container said the sample rate.
    UnknownSampleRate,
    /// Raw `f32le` output whose length is not a multiple of four bytes.
    RawLengthNotMultipleOfFour,
}

/// Index of the first track that has a codec, given for each track whether
/// its codec is set.
pub fn first_decodable_track(has_codec: &Vec<bool>) -> (r: Option<usize>)
    ensures
        r matches Some(i) ==> i < has_codec.len() && has_codec@[i as int] && forall|j: int|
            0 <= j < i ==> !has_codec@[j],
        r is None ==> forall|j: int| 0 <= j < has_codec.len() ==> !has_codec@[j],
{
    let mut i: usize = 0;
    while i < has_codec.len()
        invariant
            i <= has_codec.len(),
            forall|j: int| 0 <= j < i ==> !has_codec@[j],
        decreases has_codec.len() - i,
    {
        if has_codec[i] {
            return Some(i);
        }
        i = i + 1;
    }
    None
}

/// What reading the next packet of the container gave.
#[derive(Debug, Clone, Copy, PartialEq, Eq, Structural)]
pub enum PacketRead {
    /// A packet of the given track.
    Packet { track_id: u32 },
    /// The stream ended (an unexpected end of file while reading).
    EndOfStream,
    /// The decoder must be reset before going on.
    ResetRequired,
    /// Any other error.
    Failed,
}

/// What decoding a packet gave.
#[derive(Debug, Clone, Copy, PartialEq, Eq, Structural)]
pub enum PacketDecode {
    /// Frames with the given sample rate and channel count.
    Decoded { rate: u32, channels: usize },
    /// The packet held corrupt data.
    Corrupt,
    /// Any other error.
    Failed,
}

/// What the decoding loop does next.
#[derive(Debug, Clone, Copy, PartialEq, Eq, Structural)]
pub enum DecodeStep {
    /// Decode the packet just read.
    Decode,
    /// Drop this packet and read the next one.
    SkipPacket,
    /// Reset the decoder and read the next packet.
    ResetDecoder,
    /// Set up the sample buffer for the format just seen, then keep the samples.
    StartBuffer,
    /// Keep the decoded samples.
    KeepSamples,
    /// Stop reading: the stream is done.
    Finish,
    /// Stop with the error just met.
    Abort,
}

/// The state of a decoding run: the track it decodes and the format of the
/// first frames decoded, once there are any.
pub struct DecodeProgress {
    track_id: u32,
    format: Option<(u32, usize)>,
}

/// The sample rate and channel count of a decoded stream.
#[derive(Debug, Clone, Copy, PartialEq, Eq, Structural)]
pub struct StreamFormat {
    pub sample_rate: u32,
    pub channels: usize,
}

/// The step taken after reading: decode packets of the chosen track, skip
/// those of others, reset when asked, finish at the end, abort on errors.
pub open spec fn step_after_read(track_id: u32, read: PacketRead) -> DecodeStep {
    match read {
        PacketRead::Packet { track_id: t } => if t == track_id {
            DecodeStep::Decode
        } else {
            DecodeStep::SkipPacket
        },
        PacketRead::EndOfStream => DecodeStep::Finish,
        PacketRead::ResetRequired => DecodeStep::ResetDecoder,
        PacketRead::Failed => DecodeStep::Abort,
    }
}

/// The step taken after decoding: keep the samples (setting the buffer up
/// the first time), skip corrupt packets, abort on other errors.
pub open spec fn step_after_decode(started: bool, dec: PacketDecode) -> DecodeStep {
    match dec {
        PacketDecode::Decoded { .. } => if started {
            DecodeStep::KeepSamples
        } else {
            DecodeStep::StartBuffer
        },
        PacketDecode::Corrupt => DecodeStep::SkipPacket,
        PacketDecode::Failed => DecodeStep::Abort,
    }
}

/// A corrupt packet is skipped whatever has been decoded before it; any
/// other decoding error stops the run, whatever has been decoded before it.
pub proof fn lemma_decode_errors(started: bool)
    ensures
        step_after_decode(started, PacketDecode::Corrupt) == DecodeStep::SkipPacket,
        step_after_decode(started, PacketDecode::Failed) == DecodeStep::Abort,
        step_after_decode(true, PacketDecode::Decoded { rate: 0, channels: 0 })
            == DecodeStep::KeepSamples,
{
}

/// The format that results: the decoded rate, else the container's (and
/// none is an error); the decoded channel count, else the container's,
/// else one.
pub open spec fn spec_stream_format(
    decoded: Option<(u32, usize)>,
    container_rate: Option<u32>,
    container_channels: Option<usize>,
) -> Result<StreamFormat, AudioError> {
    match decoded {
        Some((rate, channels)) => Ok(StreamFormat { sample_rate: rate, channels }),
        None => match container_rate {
            Some(rate) => Ok(
                StreamFormat {
                    sample_rate: rate,
                    channels: match container_channels {
                        Some(c) => c,
                        None => 1,
                    },
                },
            ),
            None => Err(AudioError::UnknownSampleRate),
        },
    }
}

impl DecodeProgress {
    /// The track being decoded.
    pub closed spec fn track(&self) -> u32 {
        self.track_id
    }

    /// The format of the first decoded frames, once there are any.
    pub closed spec fn first_format(&self) -> Option<(u32, usize)> {
        self.format
    }

    /// A run over the given track, nothing decoded yet.
    pub fn new(track_id: u32) -> (r: DecodeProgress)
        ensures
            r.track() == track_id,
            r.first_format() is None,
    {
        DecodeProgress { track_id, format: None }
    }

    /// What to do with what reading gave.
    pub fn after_read(&self, read: PacketRead) -> (r: DecodeStep)
        ensures
            r == step_after_read(self.track(), read),
            read == PacketRead::EndOfStream ==> r == DecodeStep::Finish,
            read == PacketRead::ResetRequired ==> r == DecodeStep::ResetDecoder,
            read == PacketRead::Failed ==> r == DecodeStep::Abort,
            read matches PacketRead::Packet { track_id } ==> (r == DecodeStep::Decode <==> track_id
                == self.track()) && (r == DecodeStep::Decode || r == DecodeStep::SkipPacket),
    {
        match read {
            PacketRead::Packet { track_id } => if track_id == self.track_id {
                DecodeStep::Decode
            } else {
                DecodeStep::SkipPacket
            },
            PacketRead::EndOfStream => DecodeStep::Finish,
            PacketRead::ResetRequired => DecodeStep::ResetDecoder,
            PacketRead::Failed => DecodeStep::Abort,
        }
    }

    /// What to do with what decoding gave. The first decoded frames fix the
    /// stream's format; later ones do not change it.
    pub fn after_decode(&mut self, dec: PacketDecode) -> (r: DecodeStep)
        ensures
            r == step_after_decode(old(self).first_format() is Some, dec),
            final(self).track() == old(self).track(),
            old(self).first_format() is Some ==> final(self).first_format() == old(
                self,
            ).first_format(),
            old(self).first_format() is None ==> final(self).first_format() == match dec {
                PacketDecode::Decoded { rate, channels } => Some((rate, channels)),
                _ => None,
            },
            dec == PacketDecode::Corrupt ==> r == DecodeStep::SkipPacket,
            dec == PacketDecode::Corrupt ==> final(self).first_format() == old(self).first_format(),
            dec == PacketDecode::Failed ==> r == DecodeStep::Abort,
            dec is Decoded ==> (r == DecodeStep::StartBuffer <==> old(self).first_format() is None)
                && (r == DecodeStep::StartBuffer || r == DecodeStep::KeepSamples),
    {
        match dec {
            PacketDecode::Decoded { rate, channels } => {
                if self.format.is_some() {
                    DecodeStep::KeepSamples
                } else {
                    self.format = Some((rate, channels));
                    DecodeStep::StartBuffer
                }
            },
            PacketDecode::Corrupt => DecodeStep::SkipPacket,
            PacketDecode::Failed => DecodeStep::Abort,
        }
    }

    /// The stream's format once decoding is done, from what was decoded and
    /// what the container declared.
    pub fn finish(&self, container_rate: Option<u32>, container_channels: Option<usize>) -> (r:
        Result<StreamFormat, AudioError>)
        ensures
            r == spec_stream_format(self.first_format(), container_rate, container_channels),
    {
        match self.format {
            Some((rate, channels)) => Ok(StreamFormat { sample_rate: rate, channels }),
            None => match container_rate {
                Some(rate) => {
                    let channels = match container_channels {
                        Some(c) => c,
                        None => 1,
                    };
                    Ok(StreamFormat { sample_rate: rate, channels })
                },
                None => Err(AudioError::UnknownSampleRate),
            },
        }
    }
}

impl StreamFormat {
    /// Whether the samples must be resampled to the target rate.
    pub fn needs_resampling(&self) -> (r: bool)
        ensures
            r == (self.sample_rate != TARGET_SAMPLE_RATE),
    {
        self.sample_rate != TARGET_SAMPLE_RATE
    }

    /// Whether the channels must be mixed down to one.
    pub fn needs_downmix(&self) -> (r: bool)
        ensures
            r == (self.channels > 1),
    {
        self.channels > 1
    }
}

/// How audio is obtained after the built-in decoder has been tried.
#[derive(Debug, Clone, Copy, PartialEq, Eq, Structural)]
pub enum AudioRoute {
    /// Use what the built-in decoder gave.
    Decoded,
    /// Decode again with ffmpeg.
    ViaFfmpeg,
    /// Report the built-in decoder's error.
    Failed,
}

/// The route taken: the decoded samples when decoding worked, else ffmpeg
/// when it was found, else the decoder's error.
pub fn audio_route(decoded_ok: bool, ffmpeg_found: bool) -> (r: AudioRoute)
    ensures
        decoded_ok ==> r == AudioRoute::Decoded,
        !decoded_ok && ffmpeg_found ==> r == AudioRoute::ViaFfmpeg,
        !decoded_ok && !ffmpeg_found ==> r == AudioRoute::Failed,
{
    if decoded_ok {
        AudioRoute::Decoded
    } else if ffmpeg_found {
        AudioRoute::ViaFfmpeg
    } else {
        AudioRoute::Failed
    }
}

/// The arguments that make ffmpeg write the input's audio to standard
/// output as 16 kHz mono raw `f32le` samples, quietly.
pub open spec fn spec_ffmpeg_args(input: Seq<char>) -> Seq<Seq<char>> {
    seq![
        "-v"@,
        "quiet"@,
        "-i"@,
        input,
        "-ar"@,
        decimal(TARGET_SAMPLE_RATE as nat),
        "-ac"@,
        "1"@,
        "-f"@,
        "f32le"@,
        "pipe:1"@,
    ]
}

/// The ffmpeg arguments for decoding `input`.
pub fn ffmpeg_args(input: &str) -> (r: Vec<String>)
    ensures
        r.deep_view() == spec_ffmpeg_args(input@),
{
    let rate = decimal_chars(TARGET_SAMPLE_RATE as u64);
    let mut r: Vec<String> = Vec::new();
    r.push("-v".to_string());
    r.push("quiet".to_string());
    r.push("-i".to_string());
    r.push(input.to_string());
    r.push("-ar".to_string());
    r.push(string_from_chars(rate.as_slice()));
    r.push("-ac".to_string());
    r.push("1".to_string());
    r.push("-f".to_string());
    r.push("f32le".to_string());
    r.push("pipe:1".to_string());
    assert(r.deep_view() =~= spec_ffmpeg_args(input@));
    r
}

/// The little-endian 32-bit word of four bytes.
pub open spec fn le_word(b0: u8, b1: u8, b2: u8, b3: u8) -> nat {
    (b0 + 256 * b1 + 65536 * b2 + 16777216 * b3) as nat
}

/// Raw `f32le` output cut into the bit patterns of its samples: each four
/// bytes, read little-endian.
pub open spec fn le_words(bytes: Seq<u8>) -> Seq<u32> {
    Seq::new(
        bytes.len() / 4,
        |i: int| le_word(bytes[4 * i], bytes[4 * i + 1], bytes[4 * i + 2], bytes[4 * i + 3]) as u32,
    )
}

/// Cuts raw `f32le` output into the bit patterns of its samples; output
/// whose length is not a multiple of four is refused.
pub fn sample_words(bytes: &Vec<u8>) -> (r: Result<Vec<u32>, AudioError>)
    ensures
        bytes.len() % 4 != 0 <==> r == Err::<Vec<u32>, AudioError>(
            AudioError::RawLengthNotMultipleOfFour,
        ),
        r is Ok <==> bytes.len() % 4 == 0,
        r matches Ok(w) ==> w@ == le_words(bytes@),
{
    if bytes.len() % 4 != 0 {
        return Err(AudioError::RawLengthNotMultipleOfFour);
    }
    let n = bytes.len() / 4;
    let ghost target = le_words(bytes@);
    let mut out: Vec<u32> = Vec::new();
    let mut i: usize = 0;
    while i < n
        invariant
            n == bytes.len() / 4,
            bytes.len() % 4 == 0,
            target == le_words(bytes@),
            i <= n,
            out@ == target.take(i as int),
        decreases n - i,
    {
        let k = 4 * i;
        let w: u32 = bytes[k] as u32 + 256 * (bytes[k + 1] as u32) + 65536 * (bytes[k + 2] as u32)
            + 16777216 * (bytes[k + 3] as u32);
        out.push(w);
        i = i + 1;
        assert(out@ =~= target.take(i as int));
    }
    assert(out@ =~= target);
    Ok(out)
}

} // verus!
