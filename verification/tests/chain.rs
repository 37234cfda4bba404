use flac_metadata::block::{BlockType, FlacError};
use flac_metadata::parser::{decode_all, BlockItem, Parser};

/// A 4-byte header: flag in bit 0 of byte 0, type code in bits 1..=7,
/// big-endian payload length in bytes 1..=3.
fn header_bytes(last: bool, type_code: u8, length: u32) -> Vec<u8> {
    vec![
        (type_code << 1) | (last as u8),
        (length >> 16) as u8,
        (length >> 8) as u8,
        length as u8,
    ]
}

fn magic() -> Vec<u8> {
    vec![102, 76, 97, 67]
}

fn stream_info_payload() -> Vec<u8> {
    vec![
        16, 0, 16, 0, 0, 0, 16, 0, 55, 204, 10, 196, 66, 240, 0, 161, 235, 180, 134, 228, 11, 72,
        80, 182, 87, 11, 41, 90, 91, 38, 134, 143, 114, 67,
    ]
}

#[test]
fn parser_rejects_wrong_magic() {
    let mut data = magic();
    data[0] = 103;
    data.extend(header_bytes(true, 1, 0));
    match Parser::new(data) {
        Err(e) => assert_eq!(e, FlacError::NotAContainer),
        Ok(_) => panic!("accepted a buffer that is not a FLAC container"),
    }
}

#[test]
fn parser_rejects_short_marker() {
    assert!(matches!(Parser::new(vec![102, 76]), Err(FlacError::TruncatedRead)));
}

#[test]
fn parser_walks_blocks_and_stops_on_flag() {
    let mut data = magic();
    data.extend(header_bytes(false, 0, 34));
    data.extend(stream_info_payload());
    data.extend(header_bytes(false, 4, 3));
    data.extend(vec![9, 9, 9]);
    data.extend(header_bytes(true, 1, 2));
    data.extend(vec![0, 0]);
    let mut parser = Parser::new(data).unwrap();
    assert!(!parser.done);

    let first = parser.next_block().unwrap();
    match &first {
        BlockItem::StreamInfo(block) => {
            assert_eq!(block.sample_rate, 44100);
            assert_eq!(block.header.block_type, BlockType::StreamInfo);
        }
        BlockItem::Opaque(_) => panic!("first block should decode as STREAMINFO"),
    }
    assert!(!parser.done);

    let second = parser.next_block().unwrap();
    let second_header = second.header();
    assert_eq!(second_header.block_type, BlockType::VorbisComment);
    assert_eq!(second_header.block_length, 3);
    assert!(!parser.done);

    let third = parser.next_block().unwrap();
    assert_eq!(third.header().block_type, BlockType::Padding);
    assert!(third.header().is_last_block);
    assert!(parser.done);
}

#[test]
fn chain_of_three_yields_exactly_three() {
    let mut data = magic();
    data.extend(header_bytes(false, 1, 1));
    data.push(0);
    data.extend(header_bytes(false, 2, 2));
    data.extend(vec![1, 2]);
    data.extend(header_bytes(true, 3, 0));
    // Trailing bytes past the flagged block are not metadata and must be
    // left unread.
    data.extend(vec![0xde, 0xad]);
    let items = decode_all(data).unwrap();
    assert_eq!(items.len(), 3);
    assert_eq!(items[0].header().block_type, BlockType::Padding);
    assert_eq!(items[1].header().block_type, BlockType::Application);
    assert_eq!(items[2].header().block_type, BlockType::SeekTable);
    assert!(items[2].header().is_last_block);
    assert!(!items[0].header().is_last_block);
    assert!(!items[1].header().is_last_block);
}

#[test]
fn decode_all_yields_decoded_stream_info() {
    let mut data = magic();
    data.extend(header_bytes(false, 0, 34));
    data.extend(stream_info_payload());
    data.extend(header_bytes(true, 1, 0));
    let items = decode_all(data).unwrap();
    assert_eq!(items.len(), 2);
    match &items[0] {
        BlockItem::StreamInfo(block) => {
            assert_eq!(block.minimum_block_size, 4096);
            assert_eq!(block.sample_rate, 44100);
            assert_eq!(block.number_of_channels, 2);
            assert_eq!(block.bits_per_sample, 16);
            assert_eq!(block.total_samples, 10611636);
            assert_eq!(block.md5_hex(), "86e40b4850b6570b295a5b26868f7243");
        }
        BlockItem::Opaque(_) => panic!("first block should decode as STREAMINFO"),
    }
    assert!(items[1].header().is_last_block);
}

#[test]
fn unterminated_chain_surfaces_truncated_read() {
    // No block ever sets the last-block flag: the source exhausts instead
    // of looping.
    let mut data = magic();
    data.extend(header_bytes(false, 1, 1));
    data.push(0);
    data.extend(header_bytes(false, 1, 2));
    data.extend(vec![0, 0]);
    assert!(matches!(decode_all(data), Err(FlacError::TruncatedRead)));
}

#[test]
fn truncated_payload_surfaces_truncated_read() {
    let mut data = magic();
    data.extend(header_bytes(true, 1, 8));
    data.extend(vec![0, 0, 0]);
    assert!(matches!(decode_all(data), Err(FlacError::TruncatedRead)));
}

#[test]
fn stream_info_with_wrong_length_is_a_mismatch() {
    let mut data = magic();
    data.extend(header_bytes(true, 0, 20));
    data.extend(vec![0u8; 20]);
    assert!(matches!(
        decode_all(data),
        Err(FlacError::PayloadLengthMismatch)
    ));
}

#[test]
fn reserved_blocks_are_skipped_as_opaque() {
    let mut data = magic();
    data.extend(header_bytes(false, 9, 1));
    data.push(0xaa);
    data.extend(header_bytes(true, 1, 0));
    let items = decode_all(data).unwrap();
    assert_eq!(items.len(), 2);
    assert_eq!(items[0].header().block_type, BlockType::Reserved);
    assert_eq!(
        items[0].header().known_block_type(),
        Err(FlacError::ReservedOrInvalidBlockType)
    );
}

#[test]
fn next_block_header_reads_and_advances() {
    let mut data = magic();
    data.extend(header_bytes(false, 5, 7));
    let mut parser = Parser::new(data).unwrap();
    let header = parser.next_block_header().unwrap();
    assert_eq!(header.block_type, BlockType::Cuesheet);
    assert_eq!(header.block_length, 7);
    assert!(!parser.done);
    // The cursor now stands at the payload, where the buffer ends.
    assert!(matches!(
        parser.next_block_header(),
        Err(FlacError::TruncatedRead)
    ));
}
