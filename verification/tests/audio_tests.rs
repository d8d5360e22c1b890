use teams_whisperer::audio::{
    audio_route, ffmpeg_args, first_decodable_track, sample_words, AudioError, AudioRoute,
    DecodeProgress, DecodeStep, PacketDecode, PacketRead, StreamFormat, TARGET_SAMPLE_RATE,
};

#[test]
fn first_track_with_codec() {
    assert_eq!(first_decodable_track(&vec![false, true, true]), Some(1));
    assert_eq!(first_decodable_track(&vec![true]), Some(0));
    assert_eq!(first_decodable_track(&vec![false, false]), None);
    assert_eq!(first_decodable_track(&vec![]), None);
}

#[test]
fn packet_steps() {
    let p = DecodeProgress::new(2);
    assert_eq!(p.after_read(PacketRead::Packet { track_id: 2 }), DecodeStep::Decode);
    assert_eq!(p.after_read(PacketRead::Packet { track_id: 1 }), DecodeStep::SkipPacket);
    assert_eq!(p.after_read(PacketRead::EndOfStream), DecodeStep::Finish);
    assert_eq!(p.after_read(PacketRead::ResetRequired), DecodeStep::ResetDecoder);
    assert_eq!(p.after_read(PacketRead::Failed), DecodeStep::Abort);
}

#[test]
fn first_decoded_format_wins() {
    let mut p = DecodeProgress::new(0);
    assert_eq!(p.after_decode(PacketDecode::Corrupt), DecodeStep::SkipPacket);
    assert_eq!(
        p.after_decode(PacketDecode::Decoded { rate: 44_100, channels: 2 }),
        DecodeStep::StartBuffer
    );
    assert_eq!(
        p.after_decode(PacketDecode::Decoded { rate: 8_000, channels: 1 }),
        DecodeStep::KeepSamples
    );
    assert_eq!(p.after_decode(PacketDecode::Failed), DecodeStep::Abort);
    assert_eq!(
        p.finish(Some(48_000), Some(6)),
        Ok(StreamFormat { sample_rate: 44_100, channels: 2 })
    );
}

#[test]
fn container_format_fallbacks() {
    let p = DecodeProgress::new(0);
    assert_eq!(p.finish(Some(48_000), Some(6)), Ok(StreamFormat { sample_rate: 48_000, channels: 6 }));
    assert_eq!(p.finish(Some(22_050), None), Ok(StreamFormat { sample_rate: 22_050, channels: 1 }));
    assert_eq!(p.finish(None, Some(2)), Err(AudioError::UnknownSampleRate));
}

#[test]
fn resampling_and_downmix_needs() {
    let f = StreamFormat { sample_rate: TARGET_SAMPLE_RATE, channels: 1 };
    assert!(!f.needs_resampling());
    assert!(!f.needs_downmix());
    let g = StreamFormat { sample_rate: 44_100, channels: 2 };
    assert!(g.needs_resampling());
    assert!(g.needs_downmix());
    assert!(!StreamFormat { sample_rate: 8_000, channels: 0 }.needs_downmix());
}

#[test]
fn ffmpeg_fallback_route() {
    assert_eq!(audio_route(true, true), AudioRoute::Decoded);
    assert_eq!(audio_route(true, false), AudioRoute::Decoded);
    assert_eq!(audio_route(false, true), AudioRoute::ViaFfmpeg);
    assert_eq!(audio_route(false, false), AudioRoute::Failed);
}

#[test]
fn ffmpeg_command_line() {
    assert_eq!(
        ffmpeg_args("in put.mp4"),
        vec!["-v", "quiet", "-i", "in put.mp4", "-ar", "16000", "-ac", "1", "-f", "f32le", "pipe:1"]
    );
}

#[test]
fn raw_sample_framing() {
    assert_eq!(sample_words(&vec![1, 2, 3]), Err(AudioError::RawLengthNotMultipleOfFour));
    assert_eq!(sample_words(&vec![]), Ok(vec![]));
    let bytes: Vec<u8> = [0.5f32, -1.25, 0.0, f32::MAX].iter().flat_map(|x| x.to_le_bytes()).collect();
    let words = sample_words(&bytes).unwrap();
    let samples: Vec<f32> = words.iter().map(|w| f32::from_bits(*w)).collect();
    assert_eq!(samples, vec![0.5f32, -1.25, 0.0, f32::MAX]);
    assert_eq!(sample_words(&vec![0x78, 0x56, 0x34, 0x12, 0xff, 0, 0, 0x80]), Ok(vec![0x1234_5678, 0x8000_00ff]));
}
