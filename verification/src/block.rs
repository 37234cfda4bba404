//! Metadata block headers and the STREAMINFO payload.
//!
//! A block header is exactly 4 bytes. Bit 0 (the least significant bit) of
//! byte 0 is the last-block flag; the remaining 7 bits of byte 0 are the
//! block type code, an index in 0..=127. Bytes 1..=3, big-endian, give the
//! payload length in bytes.
//!
//! A STREAMINFO payload is exactly 34 bytes, packing fields of irregular bit
//! widths; the layout is documented field by field on [`stream_info_of`].

use vstd::prelude::*;
use vstd::slice::{slice_subrange, slice_to_vec};
use crate::util::{be16, be24, bits_to_uint_16, bits_to_uint_24, hex_of, to_hex};

verus! {

/// The kind of a metadata block.
///
/// Type codes 0..=6 are the seven defined kinds. Codes 7..=126 are reserved
/// by the format and 127 is invalid; both decode to their own marker variant
/// so that no out-of-range code can ever index out of bounds.
#[derive(Clone, Copy, Debug, PartialEq, Eq, Structural)]
pub enum BlockType {
    StreamInfo,
    Padding,
    Application,
    SeekTable,
    VorbisComment,
    Cuesheet,
    Picture,
    Reserved,
    Invalid,
}

/// How the decode of a byte span can fail.
#[derive(Clone, Copy, Debug, PartialEq, Eq, Structural)]
pub enum FlacError {
    /// The leading 4-byte magic marker is not the FLAC one.
    NotAContainer,
    /// Fewer bytes were available than a fixed-size field or a declared
    /// payload length requires.
    TruncatedRead,
    /// A header carries a type code outside 0..=6.
    ReservedOrInvalidBlockType,
    /// A STREAMINFO header declares a payload length other than 34.
    PayloadLengthMismatch,
}

/// The type code that encodes a block type; the representative for the
/// marker variants is the smallest reserved code and the invalid code.
pub open spec fn type_index(t: BlockType) -> int {
    match t {
        BlockType::StreamInfo => 0,
        BlockType::Padding => 1,
        BlockType::Application => 2,
        BlockType::SeekTable => 3,
        BlockType::VorbisComment => 4,
        BlockType::Cuesheet => 5,
        BlockType::Picture => 6,
        BlockType::Reserved => 7,
        BlockType::Invalid => 127,
    }
}

/// The block type a 7-bit type code decodes to.
pub open spec fn type_of_index(i: int) -> BlockType
    recommends
        0 <= i < 128,
{
    if i == 0 {
        BlockType::StreamInfo
    } else if i == 1 {
        BlockType::Padding
    } else if i == 2 {
        BlockType::Application
    } else if i == 3 {
        BlockType::SeekTable
    } else if i == 4 {
        BlockType::VorbisComment
    } else if i == 5 {
        BlockType::Cuesheet
    } else if i == 6 {
        BlockType::Picture
    } else if i == 127 {
        BlockType::Invalid
    } else {
        BlockType::Reserved
    }
}

/// Whether a block type is one of the seven defined kinds, rather than a
/// reserved or invalid marker.
pub open spec fn is_known_type(t: BlockType) -> bool {
    t != BlockType::Reserved && t != BlockType::Invalid
}

/// Map a 7-bit type code to its block type. Codes 7..=126 give
/// `BlockType::Reserved` and 127 gives `BlockType::Invalid`; no code panics.
pub fn get_block_type_by_index(index: u8) -> (t: BlockType)
    requires
        index < 128,
    ensures
        t == type_of_index(index as int),
{
    if index == 0 {
        BlockType::StreamInfo
    } else if index == 1 {
        BlockType::Padding
    } else if index == 2 {
        BlockType::Application
    } else if index == 3 {
        BlockType::SeekTable
    } else if index == 4 {
        BlockType::VorbisComment
    } else if index == 5 {
        BlockType::Cuesheet
    } else if index == 6 {
        BlockType::Picture
    } else if index == 127 {
        BlockType::Invalid
    } else {
        BlockType::Reserved
    }
}

/// The type code of a block type, as an 8-bit value.
pub fn block_type_index(t: BlockType) -> (i: u8)
    ensures
        i as int == type_index(t),
        i < 128,
{
    match t {
        BlockType::StreamInfo => 0,
        BlockType::Padding => 1,
        BlockType::Application => 2,
        BlockType::SeekTable => 3,
        BlockType::VorbisComment => 4,
        BlockType::Cuesheet => 5,
        BlockType::Picture => 6,
        BlockType::Reserved => 7,
        BlockType::Invalid => 127,
    }
}

/// A decoded 4-byte block header.
#[derive(Clone, Copy, Debug, PartialEq, Eq, Structural)]
pub struct BlockHeader {
    /// Whether this block is the last one of the metadata chain.
    pub is_last_block: bool,
    /// The kind of block the payload belongs to.
    pub block_type: BlockType,
    /// Payload length in bytes, excluding the 4 header bytes; a 24-bit value.
    pub block_length: u32,
}

/// The header a 4-byte span decodes to: bit 0 of byte 0 is the last-block
/// flag, bits 1..=7 of byte 0 are the type code, bytes 1..=3 are the
/// big-endian payload length.
pub open spec fn header_of(bytes: Seq<u8>) -> BlockHeader
    recommends
        bytes.len() == 4,
{
    BlockHeader {
        is_last_block: (bytes[0] as int) % 2 == 1,
        block_type: type_of_index((bytes[0] as int) / 2),
        block_length: be24(bytes, 1) as u32,
    }
}

/// The 4-byte span a header encodes to; inverse of [`header_of`] on the
/// decoded fields.
pub open spec fn encoding_of(h: BlockHeader) -> Seq<u8>
    recommends
        h.wf(),
{
    seq![
        (type_index(h.block_type) * 2 + (if h.is_last_block {
            1int
        } else {
            0int
        })) as u8,
        ((h.block_length as int) / 65536) as u8,
        (((h.block_length as int) / 256) % 256) as u8,
        ((h.block_length as int) % 256) as u8,
    ]
}

impl BlockHeader {
    /// A header's payload length fits the 24 bits of its wire encoding.
    pub open spec fn wf(self) -> bool {
        self.block_length < 0x1000000
    }

    /// Decode a 4-byte header span.
    pub fn new(header_bytes: &Vec<u8>) -> (h: BlockHeader)
        requires
            header_bytes@.len() == 4,
        ensures
            h == header_of(header_bytes@),
            h.block_length as int == be24(header_bytes@, 1),
            h.wf(),
    {
        let b0 = header_bytes[0];
        let first_bit = b0 & 0x1;
        assert(b0 & 0x1 == b0 % 2 && b0 >> 1 == b0 / 2 && b0 >> 1 < 128) by (bit_vector);
        let is_last_block = first_bit == 1;
        let block_type = get_block_type_by_index(b0 >> 1);
        let block_length = bits_to_uint_24(slice_subrange(header_bytes.as_slice(), 1, 4));
        BlockHeader { is_last_block, block_type, block_length }
    }

    /// Encode the header's fields back into their 4-byte wire form.
    pub fn encode(&self) -> (bytes: Vec<u8>)
        requires
            self.wf(),
        ensures
            bytes@ == encoding_of(*self),
            bytes@.len() == 4,
    {
        let idx = block_type_index(self.block_type);
        let flag: u8 = if self.is_last_block {
            1
        } else {
            0
        };
        let len = self.block_length;
        let mut bytes: Vec<u8> = Vec::new();
        bytes.push(idx * 2 + flag);
        bytes.push((len / 65536) as u8);
        bytes.push(((len / 256) % 256) as u8);
        bytes.push((len % 256) as u8);
        assert(bytes@ =~= encoding_of(*self));
        bytes
    }

    /// The block type, for callers that abort on a reserved or invalid type
    /// code rather than skipping the block.
    pub fn known_block_type(&self) -> (r: Result<BlockType, FlacError>)
        ensures
            is_known_type(self.block_type) ==> r == Ok::<BlockType, FlacError>(self.block_type),
            !is_known_type(self.block_type) ==> r == Err::<BlockType, FlacError>(
                FlacError::ReservedOrInvalidBlockType,
            ),
    {
        match self.block_type {
            BlockType::Reserved => Err(FlacError::ReservedOrInvalidBlockType),
            BlockType::Invalid => Err(FlacError::ReservedOrInvalidBlockType),
            t => Ok(t),
        }
    }
}

/// Re-encoding a header and decoding the result reproduces its fields
/// exactly, for every payload length in the 24-bit range and both values of
/// the last-block flag.
pub proof fn lemma_header_round_trip(h: BlockHeader)
    requires
        h.wf(),
    ensures
        header_of(encoding_of(h)) == h,
{
    let bytes = encoding_of(h);
    let idx = type_index(h.block_type);
    let flag: int = if h.is_last_block {
        1
    } else {
        0
    };
    assert(0 <= idx < 128);
    assert(bytes[0] as int == idx * 2 + flag);
    assert((idx * 2 + flag) % 2 == flag);
    assert((idx * 2 + flag) / 2 == idx);
    assert(type_of_index(type_index(h.block_type)) == h.block_type);
    let len = h.block_length as int;
    assert(bytes[1] as int == len / 65536);
    assert(bytes[2] as int == (len / 256) % 256);
    assert(bytes[3] as int == len % 256);
    let lu = h.block_length;
    assert((lu / 65536) * 65536 + ((lu / 256) % 256) * 256 + lu % 256 == lu) by (bit_vector)
        requires
            lu < 0x1000000u32,
    ;
    assert(be24(bytes, 1) == len);
}

/// A decoded STREAMINFO payload, together with the header that declared it.
#[derive(Debug)]
pub struct StreamInfoBlock {
    /// The header whose payload this block decodes.
    pub header: BlockHeader,
    /// Minimum block size in samples, 16 bits.
    pub minimum_block_size: u16,
    /// Maximum block size in samples, 16 bits.
    pub maximum_block_size: u16,
    /// Minimum frame size in bytes, 24 bits; 0 means unknown.
    pub minimum_frame_size: u32,
    /// Maximum frame size in bytes, 24 bits; 0 means unknown.
    pub maximum_frame_size: u32,
    /// Sample rate in Hz, 20 bits.
    pub sample_rate: u32,
    /// Channel count, from a 3-bit 0-based raw value plus one.
    pub number_of_channels: u8,
    /// Bits per sample, from a 5-bit 0-based raw value plus one.
    pub bits_per_sample: u8,
    /// Total samples in the stream, 36 bits; 0 means unknown.
    pub total_samples: u64,
    /// MD5 digest of the audio data, 16 bytes; all zero means unset.
    pub audio_data_md5_signature: Vec<u8>,
}

/// The mathematical content of a [`StreamInfoBlock`].
pub struct StreamInfoView {
    pub header: BlockHeader,
    pub minimum_block_size: int,
    pub maximum_block_size: int,
    pub minimum_frame_size: int,
    pub maximum_frame_size: int,
    pub sample_rate: int,
    pub number_of_channels: int,
    pub bits_per_sample: int,
    pub total_samples: int,
    pub audio_data_md5_signature: Seq<u8>,
}

impl View for StreamInfoBlock {
    type V = StreamInfoView;

    open spec fn view(&self) -> StreamInfoView {
        StreamInfoView {
            header: self.header,
            minimum_block_size: self.minimum_block_size as int,
            maximum_block_size: self.maximum_block_size as int,
            minimum_frame_size: self.minimum_frame_size as int,
            maximum_frame_size: self.maximum_frame_size as int,
            sample_rate: self.sample_rate as int,
            number_of_channels: self.number_of_channels as int,
            bits_per_sample: self.bits_per_sample as int,
            total_samples: self.total_samples as int,
            audio_data_md5_signature: self.audio_data_md5_signature@,
        }
    }
}

/// The 0-based channel count packed into bits 3..=1 of payload byte 12.
pub open spec fn channels_raw(bytes: Seq<u8>) -> int
    recommends
        bytes.len() == 34,
{
    ((bytes[12] as int) / 2) % 8
}

/// The 0-based bit depth whose high bit is bit 0 of payload byte 12 and
/// whose low four bits are bits 7..=4 of payload byte 13.
pub open spec fn depth_raw(bytes: Seq<u8>) -> int
    recommends
        bytes.len() == 34,
{
    ((bytes[12] as int) % 2) * 16 + (bytes[13] as int) / 16
}

/// The 36-bit total sample count: the low nibble of payload byte 13
/// followed by bytes 14..=17, most significant first.
pub open spec fn total_samples_of(bytes: Seq<u8>) -> int
    recommends
        bytes.len() == 34,
{
    ((bytes[13] as int) % 16) * 0x100000000 + (bytes[14] as int) * 0x1000000 + (bytes[15] as int)
        * 0x10000 + (bytes[16] as int) * 0x100 + (bytes[17] as int)
}

/// The block a 34-byte STREAMINFO payload decodes to, field by field:
/// bytes 0..=1 minimum block size, bytes 2..=3 maximum block size,
/// bytes 4..=6 minimum frame size, bytes 7..=9 maximum frame size,
/// the top 20 bits of bytes 10..=12 the sample rate, then a 3-bit channel
/// count and a 5-bit bit depth (both stored 0-based), a 36-bit total sample
/// count ending at byte 17, and bytes 18..=33 the MD5 digest verbatim.
pub open spec fn stream_info_of(bytes: Seq<u8>, header: BlockHeader) -> StreamInfoView
    recommends
        bytes.len() == 34,
{
    StreamInfoView {
        header,
        minimum_block_size: be16(bytes, 0),
        maximum_block_size: be16(bytes, 2),
        minimum_frame_size: be24(bytes, 4),
        maximum_frame_size: be24(bytes, 7),
        sample_rate: be24(bytes, 10) / 16,
        number_of_channels: channels_raw(bytes) + 1,
        bits_per_sample: depth_raw(bytes) + 1,
        total_samples: total_samples_of(bytes),
        audio_data_md5_signature: bytes.subrange(18, 34),
    }
}

/// A block that can be decoded from a payload span and the header that
/// declared it.
pub trait Block: Sized + View {
    /// Whether the payload span and header are acceptable input.
    spec fn payload_ok(bytes: Seq<u8>, header: BlockHeader) -> bool;

    /// What the payload decodes to.
    spec fn block_of(bytes: Seq<u8>, header: BlockHeader) -> Self::V;

    /// Decode the payload.
    fn new(bytes: &Vec<u8>, header: BlockHeader) -> (r: Self)
        requires
            Self::payload_ok(bytes@, header),
        ensures
            r@ == Self::block_of(bytes@, header),
    ;
}

impl Block for StreamInfoBlock {
    /// A STREAMINFO payload is exactly 34 bytes, as its header must declare.
    open spec fn payload_ok(bytes: Seq<u8>, header: BlockHeader) -> bool {
        &&& bytes.len() == 34
        &&& header.block_length == 34
        &&& header.block_type == BlockType::StreamInfo
    }

    open spec fn block_of(bytes: Seq<u8>, header: BlockHeader) -> StreamInfoView {
        stream_info_of(bytes, header)
    }

    fn new(block_bytes: &Vec<u8>, header: BlockHeader) -> (r: StreamInfoBlock) {
        let minimum_block_size = bits_to_uint_16(slice_subrange(block_bytes.as_slice(), 0, 2));
        let maximum_block_size = bits_to_uint_16(slice_subrange(block_bytes.as_slice(), 2, 4));
        let minimum_frame_size = bits_to_uint_24(slice_subrange(block_bytes.as_slice(), 4, 7));
        let maximum_frame_size = bits_to_uint_24(slice_subrange(block_bytes.as_slice(), 7, 10));
        // Top 20 of the 24 bits at bytes 10..=12.
        let rate24 = bits_to_uint_24(slice_subrange(block_bytes.as_slice(), 10, 13));
        assert(rate24 >> 4 == rate24 / 16) by (bit_vector);
        let sample_rate = rate24 >> 4;
        let b12 = block_bytes[12];
        let b13 = block_bytes[13];
        // Bits 3..=1 of byte 12, 0-based; add one for the channel count.
        assert((b12 >> 1) & 0x7 == (b12 / 2) % 8 && (b12 >> 1) & 0x7 < 8) by (bit_vector);
        let number_of_channels = ((b12 >> 1) & 0x7) + 1;
        // Bit 0 of byte 12 above bits 7..=4 of byte 13, 0-based; add one.
        assert(((b12 & 0x1) << 4) | (b13 >> 4) == (b12 % 2) * 16 + b13 / 16 && ((b12 & 0x1) << 4)
            | (b13 >> 4) < 32) by (bit_vector);
        let bits_per_sample = (((b12 & 0x1) << 4) | (b13 >> 4)) + 1;
        // The low nibble of byte 13 leads the 36-bit sample count.
        assert(b13 & 0xf == b13 % 16 && b13 & 0xf < 16) by (bit_vector);
        let total_samples = ((b13 & 0xf) as u64) * 0x100000000 + (block_bytes[14] as u64)
            * 0x1000000 + (block_bytes[15] as u64) * 0x10000 + (block_bytes[16] as u64) * 0x100 + (
        block_bytes[17] as u64);
        let audio_data_md5_signature = slice_to_vec(
            slice_subrange(block_bytes.as_slice(), 18, 34),
        );
        let r = StreamInfoBlock {
            header,
            minimum_block_size,
            maximum_block_size,
            minimum_frame_size,
            maximum_frame_size,
            sample_rate,
            number_of_channels,
            bits_per_sample,
            total_samples,
            audio_data_md5_signature,
        };
        r
    }
}

impl StreamInfoBlock {
    /// The MD5 digest as 32 lowercase hex characters.
    pub fn md5_hex(&self) -> (r: String)
        ensures
            r@ == hex_of(self@.audio_data_md5_signature),
    {
        to_hex(self.audio_data_md5_signature.as_slice())
    }
}

/// The channel count and bit depth a payload decodes to are the packed
/// 0-based raw values plus one, for every raw value the 3 and 5 bits can
/// carry.
pub proof fn lemma_channel_depth_offset(bytes: Seq<u8>, header: BlockHeader)
    requires
        bytes.len() == 34,
    ensures
        stream_info_of(bytes, header).number_of_channels == channels_raw(bytes) + 1,
        0 <= channels_raw(bytes) < 8,
        stream_info_of(bytes, header).bits_per_sample == depth_raw(bytes) + 1,
        0 <= depth_raw(bytes) < 32,
{
}

} // verus!
