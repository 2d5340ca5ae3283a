use mp3frames::header::DecodeError;
use mp3frames::walker::{count_frames, FrameWalker, WalkError};

fn frame_417() -> Vec<u8> {
    let mut f = vec![0u8; 417];
    f[..4].copy_from_slice(&[0xFF, 0xFB, 0x90, 0x00]);
    f
}

#[test]
fn three_frames_count_three() {
    let mut data = Vec::new();
    for _ in 0..3 {
        data.extend(frame_417());
    }
    assert_eq!(data.len(), 1251);
    assert_eq!(count_frames(&data), Ok(3));
}

#[test]
fn empty_file_counts_zero() {
    assert_eq!(count_frames(&[]), Ok(0));
}

#[test]
fn trailing_bytes_fail_with_truncated_header() {
    let mut data = frame_417();
    data.extend(frame_417());
    data.extend([0xFF, 0xFB]);
    assert_eq!(
        count_frames(&data),
        Err(WalkError { offset: 834, error: DecodeError::TruncatedHeader })
    );
}

#[test]
fn last_frame_may_run_past_the_end() {
    let mut data = frame_417();
    data.extend(&frame_417()[..100]);
    assert_eq!(count_frames(&data), Ok(2));
}

#[test]
fn bad_header_stops_the_walk_at_its_offset() {
    let mut data = frame_417();
    let mut bad = frame_417();
    bad[2] = 0xF0;
    data.extend(bad);
    assert_eq!(
        count_frames(&data),
        Err(WalkError { offset: 417, error: DecodeError::ReservedBitrate })
    );
}

#[test]
fn walker_steps() {
    let mut w = FrameWalker::new(1000);
    assert_eq!(w.file_size(), 1000);
    assert!(!w.is_done());
    assert_eq!(w.advance(&[0xFF, 0xFB, 0x92, 0x00]), Ok(()));
    assert_eq!(w.cursor(), 418);
    assert_eq!(w.frames(), 1);
    assert_eq!(w.advance(&[0xFF, 0xFB, 0x92]), Err(WalkError { offset: 418, error: DecodeError::TruncatedHeader }));
    assert_eq!(w.cursor(), 418);
    assert_eq!(w.advance(&[0xFF, 0xFB, 0x90, 0x00]), Ok(()));
    assert_eq!(w.cursor(), 835);
    assert_eq!(w.advance(&[0xFF, 0xFB, 0x90, 0x00]), Ok(()));
    assert_eq!(w.cursor(), 1000);
    assert_eq!(w.frames(), 3);
    assert!(w.is_done());
}
