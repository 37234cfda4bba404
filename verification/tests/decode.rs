use flac_metadata::block::{
    get_block_type_by_index, Block, BlockHeader, BlockType, FlacError, StreamInfoBlock,
};
use flac_metadata::util::{bits_to_uint_16, bits_to_uint_24, to_hex};

#[test]
fn test_block_length() {
    let block_bytes = vec![0x00, 0x00, 0x00, 0x14];
    let header = BlockHeader::new(&block_bytes);
    assert_eq!(20, header.block_length);
    assert_eq!(false, header.is_last_block);
    assert_eq!(BlockType::StreamInfo, header.block_type);
}

#[test]
fn test_stream_info_parse() {
    let header_bytes = vec![0x00, 0x00, 0x00, 0x22];
    let header = BlockHeader::new(&header_bytes);
    let block_bytes = vec![
        16, 0, 16, 0, 0, 0, 16, 0, 55, 204, 10, 196, 66, 240, 0, 161, 235, 180, 134, 228, 11, 72,
        80, 182, 87, 11, 41, 90, 91, 38, 134, 143, 114, 67,
    ];
    let block: &StreamInfoBlock = &Block::new(&block_bytes, header);
    assert_eq!(block.minimum_block_size, 4096);
    assert_eq!(block.maximum_block_size, 4096);
    assert_eq!(block.minimum_frame_size, 16);
    assert_eq!(block.maximum_frame_size, 14284);
    assert_eq!(block.sample_rate, 44100);
    assert_eq!(block.bits_per_sample, 16);
    assert_eq!(block.number_of_channels, 2);
    assert_eq!(block.total_samples, 10611636);
    assert_eq!(
        block.md5_hex(),
        "86e40b4850b6570b295a5b26868f7243".to_string()
    );
    // The digest is the trailing 16 payload bytes, byte for byte.
    assert_eq!(block.audio_data_md5_signature, block_bytes[18..34].to_vec());
}

#[test]
fn test_get_block_type_by_index() {
    assert_eq!(get_block_type_by_index(1), BlockType::Padding);
}

#[test]
fn bit_field_extractors_are_big_endian() {
    assert_eq!(bits_to_uint_16(&[0x12, 0x34]), 0x1234);
    assert_eq!(bits_to_uint_16(&[0xff, 0xff]), 0xffff);
    assert_eq!(bits_to_uint_24(&[0x12, 0x34, 0x56]), 0x123456);
    assert_eq!(bits_to_uint_24(&[0xff, 0xff, 0xff]), 0xffffff);
    assert_eq!(bits_to_uint_24(&[0x00, 0x00, 0x01]), 1);
}

#[test]
fn header_decodes_flag_type_and_length() {
    // Flag set, type Padding (code 1), length 0x000102.
    let header = BlockHeader::new(&vec![0x03, 0x00, 0x01, 0x02]);
    assert_eq!(header.is_last_block, true);
    assert_eq!(header.block_type, BlockType::Padding);
    assert_eq!(header.block_length, 0x000102);
}

#[test]
fn header_round_trip_reproduces_fields() {
    let cases = vec![
        BlockHeader {
            is_last_block: false,
            block_type: BlockType::StreamInfo,
            block_length: 0,
        },
        BlockHeader {
            is_last_block: true,
            block_type: BlockType::Picture,
            block_length: 16_777_215,
        },
        BlockHeader {
            is_last_block: true,
            block_type: BlockType::Reserved,
            block_length: 34,
        },
        BlockHeader {
            is_last_block: false,
            block_type: BlockType::Invalid,
            block_length: 511,
        },
        BlockHeader {
            is_last_block: true,
            block_type: BlockType::VorbisComment,
            block_length: 0x00abcd,
        },
    ];
    for original in cases {
        let bytes = original.encode();
        assert_eq!(bytes.len(), 4);
        let decoded = BlockHeader::new(&bytes);
        assert_eq!(decoded, original);
    }
}

#[test]
fn boundary_type_codes_decode_without_panicking() {
    assert_eq!(get_block_type_by_index(6), BlockType::Picture);
    assert_eq!(get_block_type_by_index(7), BlockType::Reserved);
    assert_eq!(get_block_type_by_index(126), BlockType::Reserved);
    assert_eq!(get_block_type_by_index(127), BlockType::Invalid);
    // The same codes inside a full header: the type bits are bits 1..=7 of
    // byte 0.
    let picture = BlockHeader::new(&vec![6 << 1, 0, 0, 0]);
    assert_eq!(picture.block_type, BlockType::Picture);
    let reserved = BlockHeader::new(&vec![7 << 1, 0, 0, 0]);
    assert_eq!(reserved.block_type, BlockType::Reserved);
    let invalid = BlockHeader::new(&vec![(127 << 1) | 1, 0, 0, 0]);
    assert_eq!(invalid.block_type, BlockType::Invalid);
    assert_eq!(invalid.is_last_block, true);
}

#[test]
fn reserved_or_invalid_is_reported_to_aborting_callers() {
    let reserved = BlockHeader::new(&vec![7 << 1, 0, 0, 0]);
    assert_eq!(
        reserved.known_block_type(),
        Err(FlacError::ReservedOrInvalidBlockType)
    );
    let invalid = BlockHeader::new(&vec![127 << 1, 0, 0, 0]);
    assert_eq!(
        invalid.known_block_type(),
        Err(FlacError::ReservedOrInvalidBlockType)
    );
    let known = BlockHeader::new(&vec![4 << 1, 0, 0, 0]);
    assert_eq!(known.known_block_type(), Ok(BlockType::VorbisComment));
}

#[test]
fn channel_and_depth_raw_values_map_to_plus_one() {
    // Byte 12 packs: 4 low sample-rate bits, 3 channel bits, 1 high depth
    // bit; byte 13 packs: 4 low depth bits, 4 high total-sample bits.
    for raw_channels in 0u8..8 {
        for raw_depth in 0u8..32 {
            let mut payload = vec![0u8; 34];
            payload[12] = (raw_channels << 1) | (raw_depth >> 4);
            payload[13] = (raw_depth & 0x0f) << 4;
            let header = BlockHeader {
                is_last_block: false,
                block_type: BlockType::StreamInfo,
                block_length: 34,
            };
            let block: StreamInfoBlock = Block::new(&payload, header);
            assert_eq!(block.number_of_channels, raw_channels + 1);
            assert_eq!(block.bits_per_sample, raw_depth + 1);
        }
    }
}

#[test]
fn stream_info_depth_straddles_byte_boundary() {
    // Bit 0 of byte 12 is the highest of the five depth bits: on its own it
    // contributes 16 to the raw value.
    let mut payload = vec![0u8; 34];
    payload[12] = 0x01;
    payload[13] = 0x00;
    let header = BlockHeader {
        is_last_block: false,
        block_type: BlockType::StreamInfo,
        block_length: 34,
    };
    let block: StreamInfoBlock = Block::new(&payload, header);
    assert_eq!(block.bits_per_sample, 17);
}

#[test]
fn to_hex_renders_two_lowercase_digits_per_byte() {
    assert_eq!(to_hex(&[]), String::new());
    assert_eq!(to_hex(&[0x00]), "00".to_string());
    assert_eq!(to_hex(&[0xab, 0xcd, 0xef]), "abcdef".to_string());
    assert_eq!(to_hex(&[0x01, 0x23, 0x45, 0x67, 0x89]), "0123456789".to_string());
    assert_eq!(to_hex(&[0xff, 0x00, 0x1a]), "ff001a".to_string());
}
