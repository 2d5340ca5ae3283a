use vstd::prelude::*;

verus! {

/// The big-endian value of four bytes.
pub open spec fn be_u32(b: Seq<u8>) -> int
    recommends
        b.len() == 4,
{
    b[0] as int * 0x100_0000 + b[1] as int * 0x1_0000 + b[2] as int * 0x100 + b[3] as int
}

/// The field of `h` that starts at bit `shift` (counted from the least
/// significant bit) and is selected by `mask`.
pub open spec fn field(h: u32, shift: u32, mask: u32) -> u32 {
    (h >> shift) & mask
}

/// MPEG audio version, bits 20-19 of the header.
#[derive(Clone, Copy, Debug, PartialEq, Eq, Structural)]
pub enum AudioVersion {
    Mpeg25,
    Reserved,
    Mpeg2,
    Mpeg1,
}

/// Layer description, bits 18-17 of the header.
#[derive(Clone, Copy, Debug, PartialEq, Eq, Structural)]
pub enum Layer {
    Reserved,
    LayerIII,
    LayerII,
    LayerI,
}

/// Channel mode, bits 8-7 of the header.
#[derive(Clone, Copy, Debug, PartialEq, Eq, Structural)]
pub enum ChannelMode {
    Stereo,
    JointStereo,
    DualChannel,
    SingleChannel,
}

/// Why a header gives no frame length.
#[derive(Clone, Copy, Debug, PartialEq, Eq, Structural)]
pub enum DecodeError {
    /// Fewer than four bytes were available.
    TruncatedHeader,
    /// Bitrate index 15, which the table does not define.
    ReservedBitrate,
    /// Bitrate index 0 ("free" format): the length cannot be computed and
    /// would be near zero, so a walk would stall.
    FreeBitrate,
    /// Sampling-rate index 3, which the table does not define.
    ReservedSamplingRate,
    /// Version id 1, whose sampling-rate divisor is zero.
    ReservedVersion,
}

/// Every field of one frame header, with the frame length computed from them.
#[derive(Clone, Copy, Debug, PartialEq, Eq, Structural)]
pub struct DecodedHeader {
    /// Whether bits 31-21 hold the sync pattern 0x7FF (informational only).
    pub frame_sync_valid: bool,
    pub version: AudioVersion,
    pub layer: Layer,
    /// Protection bit 0: the frame carries a CRC.
    pub crc_protected: bool,
    pub bitrate_index: u32,
    pub bitrate_kbps: u32,
    pub sampling_rate_index: u32,
    pub sample_rate_hz: u32,
    pub padding: bool,
    pub channel_mode: ChannelMode,
    pub copyright: bool,
    /// Length of the whole frame in bytes, header included.
    pub frame_length: u64,
}

pub open spec fn version_of(id: u32) -> AudioVersion {
    match id {
        0 => AudioVersion::Mpeg25,
        1 => AudioVersion::Reserved,
        2 => AudioVersion::Mpeg2,
        _ => AudioVersion::Mpeg1,
    }
}

pub open spec fn layer_of(id: u32) -> Layer {
    match id {
        0 => Layer::Reserved,
        1 => Layer::LayerIII,
        2 => Layer::LayerII,
        _ => Layer::LayerI,
    }
}

pub open spec fn channel_mode_of(id: u32) -> ChannelMode {
    match id {
        0 => ChannelMode::Stereo,
        1 => ChannelMode::JointStereo,
        2 => ChannelMode::DualChannel,
        _ => ChannelMode::SingleChannel,
    }
}

/// The MPEG-1 Layer-III bitrate table in kbps, defined on indices 0 to 14.
pub open spec fn bitrate_table(index: u32) -> u32 {
    match index {
        0 => 0,
        1 => 32,
        2 => 40,
        3 => 48,
        4 => 56,
        5 => 64,
        6 => 80,
        7 => 96,
        8 => 112,
        9 => 128,
        10 => 160,
        11 => 192,
        12 => 224,
        13 => 256,
        14 => 320,
        _ => 0,
    }
}

/// The sampling-rate table in Hz, defined on indices 0 to 2.
pub open spec fn sampling_table(index: u32) -> u32 {
    match index {
        0 => 44100,
        1 => 48000,
        2 => 32000,
        _ => 0,
    }
}

/// What the table rate is divided by for each version id.
pub open spec fn version_divisor(id: u32) -> u32 {
    match id {
        0 => 4,
        1 => 0,
        2 => 2,
        _ => 1,
    }
}

/// The Layer-III frame length: `floor(144 * bitrate * 1000 / rate) + padding`.
pub open spec fn frame_length_of(bitrate_kbps: int, sample_rate_hz: int, padding: bool) -> int {
    144 * bitrate_kbps * 1000 / sample_rate_hz + if padding {
        1int
    } else {
        0int
    }
}

/// The error that header `h` decodes to, if any. Index 15 of the bitrate
/// table is checked first, then index 3 of the sampling table, then version
/// id 1, then the free bitrate.
pub open spec fn decode_error(h: u32) -> Option<DecodeError> {
    if field(h, 12, 0xf) == 15 {
        Some(DecodeError::ReservedBitrate)
    } else if field(h, 10, 3) == 3 {
        Some(DecodeError::ReservedSamplingRate)
    } else if field(h, 19, 3) == 1 {
        Some(DecodeError::ReservedVersion)
    } else if field(h, 12, 0xf) == 0 {
        Some(DecodeError::FreeBitrate)
    } else {
        None
    }
}

/// The fields of header `h`; meaningful where `decode_error(h)` is `None`.
pub open spec fn fields_of(h: u32) -> DecodedHeader {
    let bitrate = bitrate_table(field(h, 12, 0xf));
    let rate = (sampling_table(field(h, 10, 3)) / version_divisor(field(h, 19, 3))) as u32;
    let padding = field(h, 9, 1) == 1;
    DecodedHeader {
        frame_sync_valid: field(h, 21, 0x7ff) == 0x7ff,
        version: version_of(field(h, 19, 3)),
        layer: layer_of(field(h, 17, 3)),
        crc_protected: field(h, 16, 1) == 0,
        bitrate_index: field(h, 12, 0xf),
        bitrate_kbps: bitrate,
        sampling_rate_index: field(h, 10, 3),
        sample_rate_hz: rate,
        padding: padding,
        channel_mode: channel_mode_of(field(h, 7, 3)),
        copyright: field(h, 3, 1) == 1,
        frame_length: frame_length_of(bitrate as int, rate as int, padding) as u64,
    }
}

/// What decoding the 32-bit header `h` gives.
pub open spec fn decode(h: u32) -> Result<DecodedHeader, DecodeError> {
    match decode_error(h) {
        Some(e) => Err(e),
        None => Ok(fields_of(h)),
    }
}

/// What decoding the first four bytes of `b`, read big-endian, gives.
pub open spec fn decode_prefix(b: Seq<u8>) -> Result<DecodedHeader, DecodeError> {
    if b.len() < 4 {
        Err(DecodeError::TruncatedHeader)
    } else {
        decode(be_u32(b.take(4)) as u32)
    }
}

/// Reads four bytes as a big-endian 32-bit unsigned integer.
pub fn to_u32_be(a: [u8; 4]) -> (r: u32)
    ensures
        r == be_u32(a@),
{
    let b0 = a[0];
    let b1 = a[1];
    let b2 = a[2];
    let b3 = a[3];
    let r: u32 = ((b0 as u32) << 24u32) | ((b1 as u32) << 16u32) | ((b2 as u32) << 8u32) | (b3 as u32);
    assert(r == b0 as u32 * 0x100_0000u32 + b1 as u32 * 0x1_0000u32 + b2 as u32 * 0x100u32 + b3 as u32) by (bit_vector)
        requires
            r == ((b0 as u32) << 24u32) | ((b1 as u32) << 16u32) | ((b2 as u32) << 8u32) | (b3 as u32),
    ;
    r
}

/// Looks up a bitrate index in the MPEG-1 Layer-III table; `None` for 15 and above.
pub fn bitrate_kbps(index: u32) -> (r: Option<u32>)
    ensures
        r == (if index < 15 {
            Some(bitrate_table(index))
        } else {
            None
        }),
{
    match index {
        0 => Some(0),
        1 => Some(32),
        2 => Some(40),
        3 => Some(48),
        4 => Some(56),
        5 => Some(64),
        6 => Some(80),
        7 => Some(96),
        8 => Some(112),
        9 => Some(128),
        10 => Some(160),
        11 => Some(192),
        12 => Some(224),
        13 => Some(256),
        14 => Some(320),
        _ => None,
    }
}

/// The sampling rate in Hz for a sampling-rate index and a version id;
/// `None` where the index is 3 or above, or the version's divisor is zero.
pub fn sample_rate_hz(sampling_index: u32, version_id: u32) -> (r: Option<u32>)
    ensures
        r == (if sampling_index < 3 && version_divisor(version_id) != 0 {
            Some((sampling_table(sampling_index) / version_divisor(version_id)) as u32)
        } else {
            None
        }),
{
    let base: u32 = match sampling_index {
        0 => 44100,
        1 => 48000,
        2 => 32000,
        _ => return None,
    };
    let divisor: u32 = match version_id {
        0 => 4,
        1 => 0,
        2 => 2,
        _ => 1,
    };
    if divisor == 0 {
        None
    } else {
        Some(base / divisor)
    }
}

/// The Layer-III frame length in bytes, computed with truncating division.
pub fn frame_length(bitrate_kbps: u32, sample_rate_hz: u32, padding: bool) -> (r: u64)
    requires
        sample_rate_hz > 0,
    ensures
        r == frame_length_of(bitrate_kbps as int, sample_rate_hz as int, padding),
{
    let b: u64 = bitrate_kbps as u64;
    assert(144000 * b <= 144000 * 0xffff_ffffu64) by (nonlinear_arith)
        requires
            b <= 0xffff_ffffu64,
    ;
    let num: u64 = 144000u64 * b;
    assert(144000 * b == 144 * b * 1000) by (nonlinear_arith);
    let q: u64 = num / sample_rate_hz as u64;
    assert(q <= num) by (nonlinear_arith)
        requires
            q == num / sample_rate_hz as u64,
            sample_rate_hz > 0,
    ;
    if padding {
        q + 1
    } else {
        q
    }
}

fn version_from_id(id: u32) -> (r: AudioVersion)
    ensures
        r == version_of(id),
{
    match id {
        0 => AudioVersion::Mpeg25,
        1 => AudioVersion::Reserved,
        2 => AudioVersion::Mpeg2,
        _ => AudioVersion::Mpeg1,
    }
}

fn layer_from_id(id: u32) -> (r: Layer)
    ensures
        r == layer_of(id),
{
    match id {
        0 => Layer::Reserved,
        1 => Layer::LayerIII,
        2 => Layer::LayerII,
        _ => Layer::LayerI,
    }
}

fn channel_mode_from_id(id: u32) -> (r: ChannelMode)
    ensures
        r == channel_mode_of(id),
{
    match id {
        0 => ChannelMode::Stereo,
        1 => ChannelMode::JointStereo,
        2 => ChannelMode::DualChannel,
        _ => ChannelMode::SingleChannel,
    }
}

/// Decodes a 32-bit frame header. A missing sync pattern is reported in
/// `frame_sync_valid` and does not stop decoding; an index that the tables do
/// not define, and the free bitrate, are errors.
pub fn decode_header(h: u32) -> (r: Result<DecodedHeader, DecodeError>)
    ensures
        r == decode(h),
        r is Ok ==> r->Ok_0.frame_length >= 1,
{
    let version_id = (h >> 19u32) & 3u32;
    let layer_id = (h >> 17u32) & 3u32;
    let protection = (h >> 16u32) & 1u32;
    let bitrate_index = (h >> 12u32) & 0xfu32;
    let sampling_index = (h >> 10u32) & 3u32;
    let padding = (h >> 9u32) & 1u32 == 1;
    let channel = (h >> 7u32) & 3u32;
    let copyright = (h >> 3u32) & 1u32;
    assert(bitrate_index <= 15 && sampling_index <= 3 && version_id <= 3 && h >> 21u32 == (h
        >> 21u32) & 0x7ffu32) by (bit_vector)
        requires
            bitrate_index == (h >> 12u32) & 0xfu32,
            sampling_index == (h >> 10u32) & 3u32,
            version_id == (h >> 19u32) & 3u32,
    ;
    let bitrate = match bitrate_kbps(bitrate_index) {
        Some(b) => b,
        None => return Err(DecodeError::ReservedBitrate),
    };
    let rate = match sample_rate_hz(sampling_index, version_id) {
        Some(v) => v,
        None => {
            if sampling_index >= 3 {
                return Err(DecodeError::ReservedSamplingRate);
            }
            return Err(DecodeError::ReservedVersion);
        },
    };
    proof {
        lemma_rate_range(sampling_index, version_id);
    }
    if bitrate == 0 {
        return Err(DecodeError::FreeBitrate);
    }
    let length = frame_length(bitrate, rate, padding);
    proof {
        lemma_frame_length_at_least(bitrate as int, rate as int, padding);
    }
    Ok(
        DecodedHeader {
            frame_sync_valid: h >> 21u32 == 0x7ffu32,
            version: version_from_id(version_id),
            layer: layer_from_id(layer_id),
            crc_protected: protection == 0,
            bitrate_index,
            bitrate_kbps: bitrate,
            sampling_rate_index: sampling_index,
            sample_rate_hz: rate,
            padding,
            channel_mode: channel_mode_from_id(channel),
            copyright: copyright == 1,
            frame_length: length,
        },
    )
}

/// Decodes the header held in the first four bytes of `bytes`, read
/// big-endian; fails with `TruncatedHeader` where fewer than four are given.
pub fn decode_header_bytes(bytes: &[u8]) -> (r: Result<DecodedHeader, DecodeError>)
    ensures
        r == decode_prefix(bytes@),
{
    if bytes.len() < 4 {
        return Err(DecodeError::TruncatedHeader);
    }
    let h = to_u32_be([bytes[0], bytes[1], bytes[2], bytes[3]]);
    proof {
        assert(bytes@.take(4)[0] == bytes@[0]);
        assert(bytes@.take(4)[1] == bytes@[1]);
        assert(bytes@.take(4)[2] == bytes@[2]);
        assert(bytes@.take(4)[3] == bytes@[3]);
    }
    decode_header(h)
}

/// Every defined sampling rate lies between 8 kHz and 48 kHz.
proof fn lemma_rate_range(sampling_index: u32, version_id: u32)
    requires
        sampling_index < 3,
        version_id < 4,
        version_id != 1,
    ensures
        8000 <= sampling_table(sampling_index) / version_divisor(version_id) <= 48000,
{
    if version_id == 0 {
        assert(version_divisor(version_id) == 4);
    } else if version_id == 2 {
        assert(version_divisor(version_id) == 2);
    } else {
        assert(version_divisor(version_id) == 1);
    }
}

/// A bitrate of at least 32 kbps over a rate of at most 48 kHz gives a
/// frame of at least 96 bytes.
proof fn lemma_frame_length_at_least(bitrate_kbps: int, sample_rate_hz: int, padding: bool)
    requires
        32 <= bitrate_kbps,
        0 < sample_rate_hz <= 48000,
    ensures
        frame_length_of(bitrate_kbps, sample_rate_hz, padding) >= 96,
{
    assert(144 * bitrate_kbps * 1000 / sample_rate_hz >= 96) by (nonlinear_arith)
        requires
            32 <= bitrate_kbps,
            0 < sample_rate_hz <= 48000,
    ;
}

/// The header with sync pattern 0x7FF, no CRC, private/mode/emphasis bits
/// clear, and the given version, layer, bitrate index, sampling index and
/// padding.
pub open spec fn pack(
    version_id: u32,
    layer_id: u32,
    bitrate_index: u32,
    sampling_index: u32,
    padding: bool,
) -> u32 {
    let p: u32 = if padding {
        1
    } else {
        0
    };
    0xffe0_0000u32 | (version_id << 19u32) | (layer_id << 17u32) | 0x1_0000u32 | (bitrate_index
        << 12u32) | (sampling_index << 10u32) | (p << 9u32)
}

/// The four big-endian bytes of `h`.
pub open spec fn be_bytes(h: u32) -> Seq<u8> {
    seq![(h >> 24u32) as u8, (h >> 16u32) as u8, (h >> 8u32) as u8, h as u8]
}

/// Builds a synthetic frame header from its main fields (see `pack`).
pub fn pack_header(
    version_id: u32,
    layer_id: u32,
    bitrate_index: u32,
    sampling_index: u32,
    padding: bool,
) -> (r: u32)
    requires
        version_id < 4,
        layer_id < 4,
        bitrate_index < 16,
        sampling_index < 4,
    ensures
        r == pack(version_id, layer_id, bitrate_index, sampling_index, padding),
{
    let p: u32 = if padding {
        1
    } else {
        0
    };
    0xffe0_0000u32 | (version_id << 19u32) | (layer_id << 17u32) | 0x1_0000u32 | (bitrate_index
        << 12u32) | (sampling_index << 10u32) | (p << 9u32)
}

proof fn lemma_pack_fields(v: u32, l: u32, b: u32, s: u32, p: u32)
    by (bit_vector)
    requires
        v < 4,
        l < 4,
        b < 16,
        s < 4,
        p < 2,
    ensures
        ({
            let h = 0xffe0_0000u32 | (v << 19u32) | (l << 17u32) | 0x1_0000u32 | (b << 12u32) | (s
                << 10u32) | (p << 9u32);
            &&& (h >> 21u32) & 0x7ffu32 == 0x7ffu32
            &&& (h >> 19u32) & 3u32 == v
            &&& (h >> 17u32) & 3u32 == l
            &&& (h >> 16u32) & 1u32 == 1u32
            &&& (h >> 12u32) & 0xfu32 == b
            &&& (h >> 10u32) & 3u32 == s
            &&& (h >> 9u32) & 1u32 == p
            &&& (h >> 7u32) & 3u32 == 0u32
            &&& (h >> 3u32) & 1u32 == 0u32
        }),
{
}

/// Writing a value as four big-endian bytes and reading them back gives the value.
pub proof fn lemma_be_bytes_round_trip(h: u32)
    ensures
        be_bytes(h).len() == 4,
        be_u32(be_bytes(h)) == h,
{
    let b0 = (h >> 24u32) as u8;
    let b1 = (h >> 16u32) as u8;
    let b2 = (h >> 8u32) as u8;
    let b3 = h as u8;
    assert(b0 as u32 * 0x100_0000u32 + b1 as u32 * 0x1_0000u32 + b2 as u32 * 0x100u32 + b3 as u32
        == h) by (bit_vector)
        requires
            b0 == (h >> 24u32) as u8,
            b1 == (h >> 16u32) as u8,
            b2 == (h >> 8u32) as u8,
            b3 == h as u8,
    ;
}

/// For a header with bitrate index 1 to 14, sampling index 0 to 2 and a
/// version id other than the reserved 1, decoding succeeds and the frame
/// length is `floor(144 * bitrate * 1000 / sample_rate) + padding`.
pub proof fn lemma_decode_frame_length(h: u32)
    requires
        1 <= field(h, 12, 0xf) <= 14,
        field(h, 10, 3) <= 2,
        field(h, 19, 3) != 1,
    ensures
        decode(h) is Ok,
        decode(h)->Ok_0.bitrate_kbps == bitrate_table(field(h, 12, 0xf)),
        decode(h)->Ok_0.sample_rate_hz == sampling_table(field(h, 10, 3)) / version_divisor(
            field(h, 19, 3),
        ),
        decode(h)->Ok_0.frame_length == 144 * bitrate_table(field(h, 12, 0xf)) as int * 1000 / ((
        sampling_table(field(h, 10, 3)) / version_divisor(field(h, 19, 3))) as int) + field(
            h,
            9,
            1,
        ) as int,
{
    let v = field(h, 19, 3);
    assert(v <= 3 && field(h, 9, 1) <= 1) by (bit_vector)
        requires
            v == (h >> 19u32) & 3u32,
    ;
    lemma_rate_range(field(h, 10, 3), v);
}

/// A header with bitrate index 1 to 14 never decodes to a frame length of zero.
pub proof fn lemma_frame_length_positive(h: u32)
    requires
        1 <= field(h, 12, 0xf) <= 14,
    ensures
        decode(h) is Ok ==> decode(h)->Ok_0.frame_length >= 1,
{
    if decode(h) is Ok {
        let v = field(h, 19, 3);
        let s = field(h, 10, 3);
        assert(v <= 3 && s <= 3) by (bit_vector)
            requires
                v == (h >> 19u32) & 3u32,
                s == (h >> 10u32) & 3u32,
        ;
        lemma_rate_range(field(h, 10, 3), v);
        let r = fields_of(h);
        lemma_frame_length_at_least(r.bitrate_kbps as int, r.sample_rate_hz as int, r.padding);
    }
}

/// Bitrate index 15 or version id 1 makes decoding fail.
pub proof fn lemma_reserved_fields_fail(h: u32)
    requires
        field(h, 12, 0xf) == 15 || field(h, 19, 3) == 1,
    ensures
        decode(h) is Err,
{
}

/// A header packed from chosen fields, with a defined bitrate, sampling rate
/// and version, and written as four big-endian bytes, decodes back to the
/// chosen fields, the table bitrate and sample rate, and the frame length
/// they give.
pub proof fn lemma_pack_round_trip(
    version_id: u32,
    layer_id: u32,
    bitrate_index: u32,
    sampling_index: u32,
    padding: bool,
)
    requires
        version_id < 4,
        version_id != 1,
        layer_id < 4,
        1 <= bitrate_index <= 14,
        sampling_index < 3,
    ensures
        ({
            let r = decode_prefix(be_bytes(pack(version_id, layer_id, bitrate_index, sampling_index, padding)));
            let rate = sampling_table(sampling_index) / version_divisor(version_id);
            &&& r is Ok
            &&& r->Ok_0.frame_sync_valid
            &&& r->Ok_0.version == version_of(version_id)
            &&& r->Ok_0.layer == layer_of(layer_id)
            &&& r->Ok_0.bitrate_index == bitrate_index
            &&& r->Ok_0.bitrate_kbps == bitrate_table(bitrate_index)
            &&& r->Ok_0.sampling_rate_index == sampling_index
            &&& r->Ok_0.sample_rate_hz == rate
            &&& r->Ok_0.padding == padding
            &&& r->Ok_0.frame_length == frame_length_of(bitrate_table(bitrate_index) as int, rate as int, padding)
        }),
{
    let h = pack(version_id, layer_id, bitrate_index, sampling_index, padding);
    let p: u32 = if padding {
        1
    } else {
        0
    };
    lemma_pack_fields(version_id, layer_id, bitrate_index, sampling_index, p);
    lemma_be_bytes_round_trip(h);
    assert(be_bytes(h).take(4) =~= be_bytes(h));
    lemma_rate_range(sampling_index, version_id);
}

} // verus!
