use mp3frames::header::{
    bitrate_kbps, decode_header, decode_header_bytes, frame_length, pack_header, sample_rate_hz,
    to_u32_be, AudioVersion, ChannelMode, DecodeError, Layer,
};

const MPEG1_L3_128K_44K: [u8; 4] = [0xFF, 0xFB, 0x90, 0x00];

#[test]
fn reads_big_endian() {
    assert_eq!(to_u32_be([0x12, 0x34, 0x56, 0x78]), 0x1234_5678);
    assert_eq!(to_u32_be([0xFF, 0x00, 0x00, 0x01]), 0xFF00_0001);
}

#[test]
fn mpeg1_layer3_128k_no_padding_is_417() {
    let h = decode_header_bytes(&MPEG1_L3_128K_44K).unwrap();
    assert!(h.frame_sync_valid);
    assert_eq!(h.version, AudioVersion::Mpeg1);
    assert_eq!(h.layer, Layer::LayerIII);
    assert!(!h.crc_protected);
    assert_eq!(h.bitrate_index, 9);
    assert_eq!(h.bitrate_kbps, 128);
    assert_eq!(h.sampling_rate_index, 0);
    assert_eq!(h.sample_rate_hz, 44100);
    assert!(!h.padding);
    assert_eq!(h.channel_mode, ChannelMode::Stereo);
    assert!(!h.copyright);
    assert_eq!(h.frame_length, 417);
}

#[test]
fn mpeg1_layer3_128k_with_padding_is_418() {
    let h = decode_header_bytes(&[0xFF, 0xFB, 0x92, 0x00]).unwrap();
    assert!(h.padding);
    assert_eq!(h.frame_length, 418);
}

#[test]
fn formula_on_other_versions() {
    // MPEG 2, 64 kbps, 48000 / 2 Hz
    let h = decode_header(pack_header(2, 1, 5, 1, false)).unwrap();
    assert_eq!(h.version, AudioVersion::Mpeg2);
    assert_eq!(h.sample_rate_hz, 24000);
    assert_eq!(h.frame_length, 384);
    // MPEG 2.5, 320 kbps, 32000 / 4 Hz
    let h = decode_header(pack_header(0, 1, 14, 2, true)).unwrap();
    assert_eq!(h.version, AudioVersion::Mpeg25);
    assert_eq!(h.sample_rate_hz, 8000);
    assert_eq!(h.frame_length, 5761);
}

#[test]
fn formula_matches_for_every_defined_index() {
    let table = [0u64, 32, 40, 48, 56, 64, 80, 96, 112, 128, 160, 192, 224, 256, 320];
    let rates = [44100u64, 48000, 32000];
    let divisors = [4u64, 0, 2, 1];
    for v in [0u32, 2, 3] {
        for b in 1u32..=14 {
            for s in 0u32..3 {
                for p in [false, true] {
                    let h = decode_header(pack_header(v, 1, b, s, p)).unwrap();
                    let rate = rates[s as usize] / divisors[v as usize];
                    let expected = 144 * table[b as usize] * 1000 / rate + p as u64;
                    assert_eq!(h.frame_length, expected);
                    assert!(h.frame_length >= 1);
                }
            }
        }
    }
}

#[test]
fn reserved_bitrate_fails() {
    assert_eq!(decode_header(pack_header(3, 1, 15, 0, false)), Err(DecodeError::ReservedBitrate));
    assert_eq!(decode_header(pack_header(1, 1, 15, 3, false)), Err(DecodeError::ReservedBitrate));
}

#[test]
fn reserved_version_fails() {
    assert_eq!(decode_header(pack_header(1, 1, 9, 0, false)), Err(DecodeError::ReservedVersion));
}

#[test]
fn reserved_sampling_rate_fails() {
    assert_eq!(
        decode_header(pack_header(3, 1, 9, 3, false)),
        Err(DecodeError::ReservedSamplingRate)
    );
}

#[test]
fn free_bitrate_fails() {
    assert_eq!(decode_header(pack_header(3, 1, 0, 0, true)), Err(DecodeError::FreeBitrate));
}

#[test]
fn short_input_fails() {
    assert_eq!(decode_header_bytes(&[]), Err(DecodeError::TruncatedHeader));
    assert_eq!(decode_header_bytes(&[0xFF, 0xFB, 0x90]), Err(DecodeError::TruncatedHeader));
}

#[test]
fn only_first_four_bytes_are_read() {
    let h = decode_header_bytes(&[0xFF, 0xFB, 0x90, 0x00, 0xFF, 0xFF]).unwrap();
    assert_eq!(h.frame_length, 417);
}

#[test]
fn missing_sync_still_decodes() {
    let h = decode_header_bytes(&[0x00, 0x1B, 0x90, 0x00]).unwrap();
    assert!(!h.frame_sync_valid);
    assert_eq!(h.frame_length, 417);
}

#[test]
fn channel_mode_copyright_and_crc_bits() {
    let h = decode_header(0xFFFA_9188).unwrap();
    assert!(h.crc_protected);
    assert_eq!(h.channel_mode, ChannelMode::SingleChannel);
    assert!(h.copyright);
    let h = decode_header(0xFFFB_9080).unwrap();
    assert_eq!(h.channel_mode, ChannelMode::JointStereo);
    let h = decode_header(0xFFFB_9100).unwrap();
    assert_eq!(h.channel_mode, ChannelMode::DualChannel);
    assert!(!h.copyright);
}

#[test]
fn layer_ids() {
    assert_eq!(decode_header(pack_header(3, 0, 9, 0, false)).unwrap().layer, Layer::Reserved);
    assert_eq!(decode_header(pack_header(3, 2, 9, 0, false)).unwrap().layer, Layer::LayerII);
    assert_eq!(decode_header(pack_header(3, 3, 9, 0, false)).unwrap().layer, Layer::LayerI);
}

#[test]
fn packed_header_round_trips() {
    let h = pack_header(3, 1, 9, 0, false);
    assert_eq!(h, 0xFFFB_9000);
    let bytes = h.to_be_bytes();
    assert_eq!(bytes, MPEG1_L3_128K_44K);
    let d = decode_header_bytes(&bytes).unwrap();
    assert_eq!(d.bitrate_kbps, 128);
    assert_eq!(d.sample_rate_hz, 44100);
    assert_eq!(d.frame_length, 417);

    let bytes = pack_header(2, 1, 3, 1, true).to_be_bytes();
    let d = decode_header_bytes(&bytes).unwrap();
    assert_eq!(d.version, AudioVersion::Mpeg2);
    assert_eq!(d.bitrate_kbps, 48);
    assert_eq!(d.sample_rate_hz, 24000);
    assert_eq!(d.frame_length, 289);
}

#[test]
fn tables() {
    assert_eq!(bitrate_kbps(0), Some(0));
    assert_eq!(bitrate_kbps(1), Some(32));
    assert_eq!(bitrate_kbps(14), Some(320));
    assert_eq!(bitrate_kbps(15), None);
    assert_eq!(sample_rate_hz(1, 3), Some(48000));
    assert_eq!(sample_rate_hz(2, 2), Some(16000));
    assert_eq!(sample_rate_hz(0, 0), Some(11025));
    assert_eq!(sample_rate_hz(0, 1), None);
    assert_eq!(sample_rate_hz(3, 3), None);
}

#[test]
fn frame_length_formula() {
    assert_eq!(frame_length(128, 44100, false), 417);
    assert_eq!(frame_length(128, 44100, true), 418);
    assert_eq!(frame_length(32, 48000, false), 96);
    assert_eq!(frame_length(0, 44100, true), 1);
}
