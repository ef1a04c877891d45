use radioware::codec::{Encoder, MAX_PACKET_SIZE};
use radioware::errors::Error;

#[test]
fn frame_size_of_mono_48k_20ms() {
    let enc = Encoder::new(16000, 20, 48000, 1, true).unwrap();
    assert_eq!(enc.frame_size(), 960);
    assert_eq!(enc.bitrate(), 16000);
    assert_eq!(enc.frame_duration(), 20);
    assert_eq!(enc.sample_rate(), 48000);
    assert_eq!(enc.channels(), 1);
}

#[test]
fn frame_size_truncates_samples_per_millisecond() {
    // 44100 Hz gives 44 whole samples per millisecond and channel.
    let enc = Encoder::new(64000, 10, 44100, 2, true).unwrap();
    assert_eq!(enc.frame_size(), 880);
}

#[test]
fn frame_size_zero_below_one_khz() {
    let enc = Encoder::new(8000, 20, 999, 1, true).unwrap();
    assert_eq!(enc.frame_size(), 0);
}

#[test]
fn frame_size_fits_for_largest_settings() {
    assert!(Encoder::frame_size_fits(u32::MAX, u32::MAX, u8::MAX));
    let enc = Encoder::new(1, u32::MAX, u32::MAX, u8::MAX, true).unwrap();
    assert_eq!(enc.frame_size() as u64, 4294967u64 * 4294967295u64 * 255u64);
}

#[test]
fn new_fails_without_codec_context() {
    match Encoder::new(16000, 20, 48000, 1, false) {
        Err(Error::Codec(m)) => assert_eq!(m, "opus_encoder_create failed"),
        other => panic!("unexpected {:?}", other.map(|e| e.frame_size())),
    }
}

#[test]
fn check_frame_accepts_exact_length() {
    let enc = Encoder::new(16000, 20, 8000, 1, true).unwrap();
    let pcm = vec![0i16; 160];
    assert!(enc.check_frame(&pcm).is_ok());
}

#[test]
fn check_frame_reports_both_lengths() {
    let enc = Encoder::new(16000, 20, 48000, 1, true).unwrap();
    let pcm = vec![7i16; 3];
    match enc.check_frame(&pcm) {
        Err(e @ Error::Codec(_)) => {
            assert_eq!(e.message(), "Codec error: Frame length 3 != 960");
        }
        _ => panic!("expected a codec error"),
    }
    let long = vec![0i16; 1000];
    match enc.check_frame(&long) {
        Err(Error::Codec(m)) => assert_eq!(m, "Frame length 1000 != 960"),
        _ => panic!("expected a codec error"),
    }
    let empty: Vec<i16> = Vec::new();
    match enc.check_frame(&empty) {
        Err(Error::Codec(m)) => assert_eq!(m, "Frame length 0 != 960"),
        _ => panic!("expected a codec error"),
    }
}

#[test]
fn finish_encode_keeps_written_prefix() {
    let enc = Encoder::new(16000, 20, 48000, 1, true).unwrap();
    let mut buffer = vec![0u8; MAX_PACKET_SIZE];
    buffer[0] = 0xfc;
    buffer[1] = 0x01;
    buffer[2] = 0x02;
    buffer[3] = 0x03;
    assert_eq!(enc.finish_encode(&buffer, 3), vec![0xfc, 0x01, 0x02]);
    assert_eq!(enc.finish_encode(&buffer, 0), Vec::<u8>::new());
    assert_eq!(enc.finish_encode(&buffer, 4000).len(), 4000);
}
