use radioware::input::{
    after_poll_error, after_receive_error, token_action, IoErrorKind, PollStep, ReceiveStep,
    SampleFramer, TokenAction, UDP_TOKEN, WAKER_TOKEN,
};
use radioware::listener::bind_address;
use radioware::output::FrameAssembler;

#[test]
fn assembler_hands_out_whole_frames_in_order() {
    let mut a = FrameAssembler::new(3);
    let mut frames = Vec::new();
    for s in 1..=7i16 {
        if let Some(f) = a.push(s) {
            frames.push(f);
        }
    }
    assert_eq!(frames, vec![vec![1, 2, 3], vec![4, 5, 6]]);
    assert_eq!(a.pending_len(), 1);
    assert_eq!(a.frame_size(), 3);
}

#[test]
fn assembler_with_frame_size_one_emits_every_sample() {
    let mut a = FrameAssembler::new(1);
    assert_eq!(a.push(-5), Some(vec![-5]));
    assert_eq!(a.push(i16::MAX), Some(vec![i16::MAX]));
    assert_eq!(a.pending_len(), 0);
}

#[test]
fn assembler_with_frame_size_zero_never_emits() {
    let mut a = FrameAssembler::new(0);
    for s in 0..10i16 {
        assert_eq!(a.push(s), None);
    }
    assert_eq!(a.pending_len(), 10);
}

#[test]
fn framer_decodes_little_endian_words() {
    let mut f = SampleFramer::new();
    let words = f.push(&[0x01, 0x02, 0x03, 0x04, 0x00, 0x00, 0x80, 0x3f]);
    assert_eq!(words, vec![0x04030201, 0x3f800000]);
    assert_eq!(f32::from_bits(words[1]), 1.0f32);
    assert_eq!(f.pending_len(), 0);
}

#[test]
fn framer_keeps_partial_sample_for_next_datagram() {
    let mut f = SampleFramer::new();
    assert_eq!(f.push(&[0x00, 0x00]), Vec::<u32>::new());
    assert_eq!(f.pending_len(), 2);
    let words = f.push(&[0x80, 0xbf, 0xff]);
    assert_eq!(words, vec![0xbf800000]);
    assert_eq!(f32::from_bits(words[0]), -1.0f32);
    assert_eq!(f.pending_len(), 1);
}

#[test]
fn framer_split_and_whole_agree() {
    let bytes: Vec<u8> = (0u8..23).collect();
    let mut whole = SampleFramer::new();
    let all = whole.push(&bytes);
    let mut split = SampleFramer::new();
    let mut parts = split.push(&bytes[..5]);
    parts.extend(split.push(&bytes[5..6]));
    parts.extend(split.push(&bytes[6..]));
    assert_eq!(all, parts);
    assert_eq!(all.len(), 5);
    assert_eq!(whole.pending_len(), 3);
    assert_eq!(split.pending_len(), 3);
}

#[test]
fn framer_empty_datagram() {
    let mut f = SampleFramer::new();
    assert_eq!(f.push(&[]), Vec::<u32>::new());
    assert_eq!(f.pending_len(), 0);
}

#[test]
fn token_dispatch() {
    assert_eq!(token_action(WAKER_TOKEN), TokenAction::Stop);
    assert_eq!(token_action(UDP_TOKEN), TokenAction::Receive);
    assert_eq!(token_action(42), TokenAction::Unexpected);
}

#[test]
fn poll_and_receive_errors() {
    assert_eq!(after_poll_error(IoErrorKind::Interrupted), PollStep::Retry);
    assert_eq!(after_poll_error(IoErrorKind::WouldBlock), PollStep::Fail);
    assert_eq!(after_poll_error(IoErrorKind::Other), PollStep::Fail);
    assert_eq!(after_receive_error(IoErrorKind::WouldBlock), ReceiveStep::Drained);
    assert_eq!(after_receive_error(IoErrorKind::Interrupted), ReceiveStep::Fail);
    assert_eq!(after_receive_error(IoErrorKind::Other), ReceiveStep::Fail);
}

#[test]
fn bind_address_joins_host_and_port() {
    assert_eq!(bind_address("localhost", 8080), "localhost:8080");
    assert_eq!(bind_address("[::]", 0), "[::]:0");
    assert_eq!(bind_address("", 65535), ":65535");
    assert_eq!(bind_address("10.0.0.1", 10), "10.0.0.1:10");
}

#[test]
fn assembled_frames_pass_the_encoder_check() {
    let enc = radioware::codec::Encoder::new(16000, 5, 8000, 2, true).unwrap();
    assert_eq!(enc.frame_size(), 80);
    let mut a = FrameAssembler::new(enc.frame_size());
    let mut emitted = 0;
    let mut all = Vec::new();
    for s in 0..250i16 {
        if let Some(f) = a.push(s) {
            assert!(enc.check_frame(&f).is_ok());
            all.extend(f);
            emitted += 1;
        }
    }
    assert_eq!(emitted, 3);
    assert_eq!(a.pending_len(), 10);
    assert_eq!(all, (0..240i16).collect::<Vec<i16>>());
}
