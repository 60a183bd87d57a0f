use lotus_lib::extract_texture::{
    decompress_texture_parts, get_texture_file_name, is_texture_header, mip_stream_start,
    texture_pixels, texture_source, TexturePixels, TextureSource,
};
use lotus_lib::texture::{DDSFormat, RawTextureHeader, TextureHeader, TextureKind};
use lotus_lib::LotusError;

fn texture_header(format: u8, f_count: u8, offsets: &[u32], ratios: (u16, u16), msl: u32) -> Vec<u8> {
    let mut v = vec![0u8; 16];
    v.extend_from_slice(&0u32.to_le_bytes());
    v.extend_from_slice(&0u32.to_le_bytes());
    v.extend_from_slice(&0xA3u32.to_le_bytes());
    v.extend_from_slice(&[0, f_count, 0, format]);
    v.extend_from_slice(&(offsets.len() as u32).to_le_bytes());
    for o in offsets {
        v.extend_from_slice(&o.to_le_bytes());
    }
    v.extend_from_slice(&ratios.0.to_le_bytes());
    v.extend_from_slice(&ratios.1.to_le_bytes());
    v.extend_from_slice(&0u16.to_le_bytes());
    v.extend_from_slice(&0u16.to_le_bytes());
    v.extend_from_slice(&msl.to_le_bytes());
    v
}

fn block_header(comp: u32, decomp: u32) -> Vec<u8> {
    let n1 = 0x8000_0000u32 | (comp << 2);
    let n2 = (decomp << 5) | 1;
    let mut v = n1.to_be_bytes().to_vec();
    v.extend_from_slice(&n2.to_be_bytes());
    v
}

fn le32(b: &[u8], at: usize) -> u32 {
    u32::from_le_bytes([b[at], b[at + 1], b[at + 2], b[at + 3]])
}

#[test]
fn texture_uncompressed() {
    let bytes = texture_header(0x0A, 0, &[], (1, 1), 256);
    let t = TextureHeader::try_from_bytes(&bytes).unwrap();
    assert_eq!((t.width(), t.height()), (256, 256));
    assert_eq!(t.dds_format(), DDSFormat::Uncompressed);
    assert_eq!(t.dds_format().bits_per_pixel(), 64);
    assert_eq!(t.size(), 262144);
    let dds = t.dds_header().unwrap();
    assert_eq!(dds.len(), 128);
    assert_eq!(&dds[0..4], b"DDS ");
    assert_eq!(le32(&dds, 4), 124);
    assert_eq!(le32(&dds, 12), 256);
    assert_eq!(le32(&dds, 16), 256);
    assert_eq!(le32(&dds, 20), 2048);
    assert_eq!(le32(&dds, 88), 32);
    assert_eq!(le32(&dds, 92), 0x00FF_0000);
    assert_eq!(le32(&dds, 104), 0xFF00_0000);
    assert_eq!(texture_source(&t), TextureSource::BCacheWhole);
}

#[test]
fn texture_bc7_with_mip_offsets() {
    let bytes = texture_header(0x22, 4, &[100, 300, 700, 1500], (1, 1), 8);
    let t = TextureHeader::try_from_bytes(&bytes).unwrap();
    assert_eq!(t.size(), 64);
    assert_eq!(texture_source(&t), TextureSource::FCacheMips);
    let mut raw = block_header(1492, 1492);
    raw.extend(std::iter::repeat(1u8).take(1492));
    raw.extend(block_header(64, 64));
    let pixels: Vec<u8> = (0..64u8).collect();
    raw.extend_from_slice(&pixels);
    assert_eq!(mip_stream_start(&t, &raw).unwrap(), 1500);
    let comp_len = raw.len();
    let px = TexturePixels::MipStream { raw, comp_len, oodle: Vec::new() };
    let (out, name) = decompress_texture_parts(&bytes, b"tex/stone.png", &px).unwrap();
    assert_eq!(name, "tex/stone.dds");
    assert_eq!(out.len(), 4 + 124 + 20 + 64);
    assert_eq!(&out[84..88], b"DX10");
    assert_eq!(le32(&out, 128), 98);
    assert_eq!(le32(&out, 132), 3);
    assert_eq!(le32(&out, 140), 1);
    assert_eq!(&out[148..], &pixels[..]);
}

#[test]
fn texture_fourcc_formats() {
    let bytes = texture_header(0x01, 0, &[], (2, 1), 64);
    let t = TextureHeader::try_from_bytes(&bytes).unwrap();
    assert_eq!((t.width(), t.height()), (64, 32));
    assert_eq!(t.dds_format(), DDSFormat::BC1_UNORM);
    assert_eq!(t.size(), 16 * 8 * 8);
    let dds = t.dds_header().unwrap();
    assert_eq!(dds.len(), 128);
    assert_eq!(&dds[84..88], b"DXT1");
    let t = TextureHeader::try_from_bytes(&texture_header(0x07, 0, &[], (1, 4), 64)).unwrap();
    assert_eq!((t.width(), t.height()), (16, 64));
    assert_eq!(&t.dds_header().unwrap()[84..88], b"ATI2");
}

#[test]
fn texture_whole_entry_takes_tail() {
    let bytes = texture_header(0x03, 0, &[], (1, 1), 4);
    let t = TextureHeader::try_from_bytes(&bytes).unwrap();
    assert_eq!(t.size(), 16);
    let mut entry = vec![0xEEu8; 5];
    entry.extend(0..16u8);
    let px = TexturePixels::Entry(entry);
    assert_eq!(texture_pixels(&t, &px).unwrap(), (0..16u8).collect::<Vec<u8>>());
    let short = TexturePixels::Entry(vec![1, 2, 3]);
    assert_eq!(texture_pixels(&t, &short).err(), Some(LotusError::BadFormat));
    let t = TextureHeader::try_from_bytes(&texture_header(0x03, 2, &[], (1, 1), 4)).unwrap();
    assert_eq!(texture_source(&t), TextureSource::FCacheWhole);
}

#[test]
fn texture_header_errors() {
    assert_eq!(TextureHeader::try_from_bytes(&texture_header(0x04, 0, &[], (1, 1), 4)).err(), Some(LotusError::BadFormat));
    assert_eq!(TextureHeader::try_from_bytes(&texture_header(0x0A, 0, &[], (0, 0), 4)).err(), Some(LotusError::BadFormat));
    let bytes = texture_header(0x0A, 0, &[1, 2], (1, 1), 4);
    assert!(RawTextureHeader::try_from_bytes(&bytes[..bytes.len() - 1]).is_err());
    let raw = RawTextureHeader::try_from_bytes(&bytes).unwrap();
    assert_eq!(raw.f_cache_image_offsets, vec![1, 2]);
    assert_eq!(raw.offset, bytes.len());
    assert_eq!(DDSFormat::try_from_u8(0x23).unwrap(), DDSFormat::BC6H_UF16);
    assert_eq!(DDSFormat::try_from_u8(0x00).unwrap(), DDSFormat::BC1_UNORM);
    assert!(DDSFormat::Uncompressed.fourcc().is_err());
    assert_eq!(TextureKind::try_from_file_type(0xC3).unwrap(), TextureKind::DetailsPack);
    assert!(TextureKind::try_from_file_type(0xA6).is_err());
}

#[test]
fn texture_names_and_classification() {
    assert_eq!(get_texture_file_name(b"a.png").unwrap(), "a.dds");
    assert_eq!(get_texture_file_name(b"a.tga").unwrap(), "a.tga.dds");
    let bytes = texture_header(0x0A, 0, &[], (1, 1), 4);
    assert!(is_texture_header(b"a.png", &bytes));
    assert!(!is_texture_header(b"a.wav", &bytes));
}

#[test]
fn oversized_dx10_texture_is_rejected() {
    let bytes = texture_header(0x22, 0, &[], (1, 1), 0xFFFF_FFFF);
    assert_eq!(TextureHeader::try_from_bytes(&bytes).err(), Some(LotusError::BadFormat));
}
