use lotus_lib::compression::{
    assemble_blocks, decompress_lz, decompress_post_ensmallening, decompress_pre_ensmallening,
    get_block_lengths, get_real_cache_image_offset, is_oodle_block, plan_blocks, Block, BlockKind,
};
use lotus_lib::LotusError;

fn header(comp: u32, decomp: u32) -> Vec<u8> {
    let n1 = 0x8000_0000u32 | (comp << 2);
    let n2 = (decomp << 5) | 1;
    let mut v = n1.to_be_bytes().to_vec();
    v.extend_from_slice(&n2.to_be_bytes());
    v
}

#[test]
fn block_header_detection() {
    assert_eq!(get_block_lengths(&[0x80, 0, 0, 0x04, 0, 0, 0, 0x21, 9, 9]), Some((1, 1)));
    assert_eq!(get_block_lengths(&[0; 8]), None);
    assert_eq!(get_block_lengths(&[0x80, 0, 0, 0x04, 0, 0, 0, 0x20]), None);
}

#[test]
fn header_lengths_use_all_bits() {
    assert_eq!(get_block_lengths(&header(0x40000, 0x123456)), Some((0x40000, 0x123456)));
}

#[test]
fn oodle_marker() {
    assert!(is_oodle_block(&[0x8C, 1], 0));
    assert!(!is_oodle_block(&[0x8C, 1], 1));
    assert!(!is_oodle_block(&[0x8C], 1));
}

#[test]
fn raw_blocks_are_copied() {
    let mut data = header(4, 4);
    data.extend_from_slice(b"abcd");
    data.extend_from_slice(&header(2, 2));
    data.extend_from_slice(b"ef");
    let blocks = plan_blocks(&data, data.len(), 6).unwrap();
    assert_eq!(blocks.len(), 2);
    assert_eq!(blocks[0], Block { kind: BlockKind::Raw, src: 8, src_len: 4, dst: 0, dst_len: 4 });
    assert_eq!(blocks[1], Block { kind: BlockKind::Raw, src: 20, src_len: 2, dst: 4, dst_len: 2 });
    let out = decompress_post_ensmallening(&data, data.len(), 6, &Vec::new()).unwrap();
    assert_eq!(out, b"abcdef".to_vec());
}

#[test]
fn headerless_entry_is_one_block() {
    let packed = lz4_flex::compress_prepend_size(b"xyzxyzxyzxyzxyzxyzxyzxyz");
    let blocks = plan_blocks(&packed, packed.len(), 24).unwrap();
    assert_eq!(blocks.len(), 1);
    assert_eq!(blocks[0].kind, BlockKind::Lz4);
    let out = decompress_post_ensmallening(&packed, packed.len(), 24, &Vec::new()).unwrap();
    assert_eq!(out, b"xyzxyzxyzxyzxyzxyzxyzxyz".to_vec());
}

#[test]
fn lz4_block_after_header() {
    let text = b"hello hello hello hello hello!".to_vec();
    let packed = lz4_flex::compress_prepend_size(&text);
    let mut data = header(packed.len() as u32, text.len() as u32);
    data.extend_from_slice(&packed);
    let out = decompress_post_ensmallening(&data, data.len(), text.len(), &Vec::new()).unwrap();
    assert_eq!(out.len(), text.len());
    assert_eq!(out, text);
}

#[test]
fn oodle_block_takes_decoder_output() {
    let mut data = header(3, 5);
    data.extend_from_slice(&[0x8C, 7, 7]);
    let blocks = plan_blocks(&data, data.len(), 5).unwrap();
    assert_eq!(blocks[0].kind, BlockKind::Oodle);
    let outputs = vec![Some(b"12345".to_vec())];
    assert_eq!(assemble_blocks(&data, &blocks, &outputs).unwrap(), b"12345".to_vec());
    assert_eq!(
        decompress_post_ensmallening(&data, data.len(), 5, &vec![None]).err(),
        Some(LotusError::BadCompression)
    );
    assert_eq!(
        decompress_post_ensmallening(&data, data.len(), 5, &vec![Some(b"1234".to_vec())]).err(),
        Some(LotusError::BadCompression)
    );
}

#[test]
fn block_past_the_output_is_rejected() {
    let mut data = header(4, 4);
    data.extend_from_slice(b"abcd");
    assert_eq!(plan_blocks(&data, data.len(), 3).err(), Some(LotusError::BadCompression));
}

#[test]
fn block_past_the_stream_is_rejected() {
    let mut data = header(10, 10);
    data.extend_from_slice(b"abcd");
    assert_eq!(plan_blocks(&data, data.len(), 10).err(), Some(LotusError::BadCompression));
}

#[test]
fn block_over_the_limit_is_rejected() {
    let mut data = header(0x40001, 0x40001);
    data.extend(std::iter::repeat(0u8).take(0x40001));
    assert_eq!(plan_blocks(&data, data.len(), 0x40001).err(), Some(LotusError::BadCompression));
}

#[test]
fn largest_block_is_accepted() {
    let mut data = header(0x40000, 0x40000);
    data.extend(std::iter::repeat(3u8).take(0x40000));
    let out = decompress_post_ensmallening(&data, data.len(), 0x40000, &Vec::new()).unwrap();
    assert_eq!(out.len(), 0x40000);
}

#[test]
fn empty_entry_has_no_blocks() {
    assert_eq!(plan_blocks(&[], 0, 0).unwrap().len(), 0);
    assert_eq!(decompress_post_ensmallening(&[], 0, 0, &Vec::new()).unwrap().len(), 0);
}

#[test]
fn pre_ensmallening_entry() {
    let text = b"some text, some text, some text".to_vec();
    let packed = lz4_flex::compress_prepend_size(&text);
    assert_ne!(packed, text);
    assert_eq!(decompress_pre_ensmallening(&packed, text.len()).unwrap(), text);
    assert_eq!(decompress_pre_ensmallening(&packed, text.len() + 1).err(), Some(LotusError::BadCompression));
    assert_eq!(decompress_lz(&[1, 2], 0).err(), Some(LotusError::BadCompression));
    assert_eq!(decompress_lz(&packed, text.len()).unwrap(), text);
}

#[test]
fn sub_offset_snaps_to_nearest_boundary() {
    let mut data = header(92, 92);
    data.extend(std::iter::repeat(1u8).take(92));
    data.extend_from_slice(&header(92, 92));
    data.extend(std::iter::repeat(2u8).take(92));
    assert_eq!(get_real_cache_image_offset(&data, 100).unwrap(), 100);
    assert_eq!(get_real_cache_image_offset(&data, 120).unwrap(), 100);
    assert_eq!(get_real_cache_image_offset(&data, 160).unwrap(), 200);
    assert_eq!(get_real_cache_image_offset(&data, 150).unwrap(), 200);
    assert_eq!(get_real_cache_image_offset(&data, 40).unwrap(), 0);
    assert_eq!(get_real_cache_image_offset(&data, 300).err(), Some(LotusError::BadCompression));
}

#[test]
fn sub_offset_without_header_counts_in_place() {
    let data = [0u8; 8];
    assert_eq!(get_real_cache_image_offset(&data, 20).unwrap(), 24);
    assert_eq!(get_real_cache_image_offset(&data, 19).unwrap(), 16);
}
