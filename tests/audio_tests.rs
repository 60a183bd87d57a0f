use lotus_lib::audio::{AudioHeader, AudioKind, CompressionFormat, RawAudioHeader};
use lotus_lib::extract_audio::{decompress_audio_parts, is_audio_header, opus_needs_b};
use lotus_lib::ogg::{crc32, get_segment_table, ogg_page_bytes};
use lotus_lib::opus::opus_data_pages;
use lotus_lib::LotusError;

struct Fields {
    format: u32,
    sps: u32,
    bps: u8,
    channels: u8,
    avg: u32,
    block_align: u16,
    spb: u16,
    size: u32,
}

fn audio_header(f: &Fields, args: &[u8], paths: &[&[u8]]) -> Vec<u8> {
    let mut v = vec![0xAAu8; 16];
    v.extend_from_slice(&(paths.len() as u32).to_le_bytes());
    for p in paths {
        v.extend_from_slice(&(p.len() as u32).to_le_bytes());
        v.extend_from_slice(p);
    }
    v.extend_from_slice(&(args.len() as u32).to_le_bytes());
    v.extend_from_slice(args);
    if !args.is_empty() {
        v.push(0);
    }
    v.extend_from_slice(&0x8Bu32.to_le_bytes());
    v.extend_from_slice(&f.format.to_le_bytes());
    v.extend_from_slice(&0u32.to_le_bytes());
    v.extend_from_slice(&[0u8; 24]);
    v.extend_from_slice(&f.sps.to_le_bytes());
    v.push(f.bps);
    v.push(f.channels);
    v.extend_from_slice(&0u32.to_le_bytes());
    v.extend_from_slice(&f.avg.to_le_bytes());
    v.extend_from_slice(&f.block_align.to_le_bytes());
    v.extend_from_slice(&f.spb.to_le_bytes());
    v.extend_from_slice(&[0u8; 12]);
    v.extend_from_slice(&f.size.to_le_bytes());
    v
}

fn pcm(size: u32) -> Fields {
    Fields { format: 0, sps: 48000, bps: 16, channels: 2, avg: 0, block_align: 0, spb: 0, size }
}

fn opus(size: u32) -> Fields {
    Fields { format: 7, sps: 48000, bps: 16, channels: 2, avg: 0, block_align: 960, spb: 0, size }
}

fn le32(b: &[u8], at: usize) -> u32 {
    u32::from_le_bytes([b[at], b[at + 1], b[at + 2], b[at + 3]])
}

fn reference_crc(data: &[u8]) -> u32 {
    let mut crc = 0u32;
    for &b in data {
        crc ^= (b as u32) << 24;
        for _ in 0..8 {
            crc = if crc & 0x8000_0000 != 0 { (crc << 1) ^ 0x04C1_1DB7 } else { crc << 1 };
        }
    }
    crc
}

struct Page {
    header_type: u8,
    granule: u64,
    serial: u32,
    sequence: u32,
    body: Vec<u8>,
}

fn pages(stream: &[u8]) -> Vec<Page> {
    let mut out = Vec::new();
    let mut at = 0;
    while at < stream.len() {
        assert_eq!(&stream[at..at + 4], b"OggS");
        let segments = stream[at + 26] as usize;
        let table = &stream[at + 27..at + 27 + segments];
        let body_len: usize = table.iter().map(|&s| s as usize).sum();
        let len = 27 + segments + body_len;
        let page = &stream[at..at + len];
        let mut zeroed = page.to_vec();
        zeroed[22..26].copy_from_slice(&[0, 0, 0, 0]);
        assert_eq!(le32(page, 22), reference_crc(&zeroed));
        out.push(Page {
            header_type: page[5],
            granule: u64::from_le_bytes(page[6..14].try_into().unwrap()),
            serial: le32(page, 14),
            sequence: le32(page, 18),
            body: page[27 + segments..].to_vec(),
        });
        at += len;
    }
    out
}

#[test]
fn pcm_wav_emission() {
    let n = 8u32;
    let payload: Vec<u8> = b"AB".iter().cycle().take(n as usize).cloned().collect();
    let h = audio_header(&pcm(n), b"", &[]);
    let (out, name) = decompress_audio_parts(&h, b"sound.wav", None, Some(payload.clone()), 1).unwrap();
    assert_eq!(out.len(), 44 + n as usize);
    assert_eq!(&out[0..4], b"RIFF");
    assert_eq!(&out[8..12], b"WAVE");
    assert_eq!(&out[20..22], &1u16.to_le_bytes());
    assert_eq!(&out[22..24], &2u16.to_le_bytes());
    assert_eq!(&out[24..28], &48000u32.to_le_bytes());
    assert_eq!(&out[28..32], &192000u32.to_le_bytes());
    assert_eq!(&out[32..34], &4u16.to_le_bytes());
    assert_eq!(&out[34..36], &16u16.to_le_bytes());
    assert_eq!(&out[40..44], &n.to_le_bytes());
    assert_eq!(&out[44..], &payload[..]);
    assert_eq!(name, "sound.wav");
}

#[test]
fn pcm_riff_size_field() {
    let header = AudioHeader::try_from_bytes_with_serial(&audio_header(&pcm(100), b"", &[]), 0).unwrap();
    let wav = header.to_wav_pcm().unwrap();
    assert_eq!(le32(&wav, 4), 136);
    assert_eq!(le32(&wav, 4) as usize, wav.len() + 100 - 8);
}

#[test]
fn pcm_keeps_last_bytes_of_b_then_f() {
    let h = audio_header(&pcm(4), b"", &[]);
    let (out, _) = decompress_audio_parts(&h, b"s.wav", Some(b"fg".to_vec()), Some(b"xxbc".to_vec()), 0).unwrap();
    assert_eq!(&out[44..], b"bcfg");
}

#[test]
fn short_payload_is_rejected() {
    let h = audio_header(&pcm(10), b"", &[]);
    assert_eq!(decompress_audio_parts(&h, b"s.wav", None, Some(vec![1, 2]), 0).err(), Some(LotusError::BadFormat));
}

#[test]
fn adpcm_wav_emission() {
    let f = Fields { format: 5, sps: 22050, bps: 4, channels: 1, avg: 11155, block_align: 512, spb: 1012, size: 6 };
    let h = audio_header(&f, b"", &[]);
    let (out, name) = decompress_audio_parts(&h, b"voice.a.wav", Some(vec![9; 6]), None, 0).unwrap();
    assert_eq!(out.len(), 78 + 6);
    assert_eq!(le32(&out, 4), 76);
    assert_eq!(le32(&out, 4) as usize, out.len() - 8);
    assert_eq!(le32(&out, 16), 50);
    assert_eq!(&out[20..22], &2u16.to_le_bytes());
    assert_eq!(le32(&out, 28), 11155);
    assert_eq!(&out[32..34], &512u16.to_le_bytes());
    assert_eq!(&out[36..38], &32u16.to_le_bytes());
    assert_eq!(&out[38..40], &1012u16.to_le_bytes());
    assert_eq!(&out[40..42], &7u16.to_le_bytes());
    let coefficients: [i16; 14] = [256, 0, 512, -256, 0, 0, 192, 64, 240, 0, 460, -208, 392, -232];
    for (k, c) in coefficients.iter().enumerate() {
        assert_eq!(&out[42 + 2 * k..44 + 2 * k], &c.to_le_bytes());
    }
    assert_eq!(&out[70..74], b"data");
    assert_eq!(le32(&out, 74), 6);
    assert_eq!(name, "voice.a.wav");
}

#[test]
fn opus_page_sequence() {
    let h = audio_header(&opus(3000), b"", &[]);
    let (out, name) = decompress_audio_parts(&h, b"music.wav", Some(vec![5; 3000]), None, 77).unwrap();
    assert_eq!(name, "music.opus");
    let ps = pages(&out);
    assert_eq!(ps.len(), 3);
    assert_eq!((ps[0].header_type, ps[0].sequence, ps[0].granule), (0x02, 0, 0));
    assert_eq!((ps[1].header_type, ps[1].sequence, ps[1].granule), (0x00, 1, 0));
    assert_eq!((ps[2].header_type, ps[2].sequence, ps[2].granule), (0x04, 2, 48000));
    assert!(ps.iter().all(|p| p.serial == 77));
    assert_eq!(ps[2].body.len(), 3000);
    assert_eq!(&ps[0].body[0..8], b"OpusHead");
    assert_eq!(ps[0].body[9], 2);
    assert_eq!(&ps[0].body[10..12], &312u16.to_le_bytes());
    assert_eq!(&ps[1].body[0..8], b"OpusTags");
    assert_eq!(&ps[1].body[12..20], b"Warframe");
    assert_eq!(&ps[1].body[28..], b"ARTIST=Warframe");

    let h = audio_header(&opus(96000), b"", &[]);
    let (out, _) = decompress_audio_parts(&h, b"music.wav", Some(vec![5; 96000]), None, 77).unwrap();
    let ps = pages(&out);
    assert_eq!(ps.len(), 5);
    let data: Vec<(u8, u64, u32)> = ps[2..].iter().map(|p| (p.header_type, p.granule, p.sequence)).collect();
    assert_eq!(data, vec![(0x00, 48000, 2), (0x00, 96000, 3), (0x04, 144000, 4)]);
}

#[test]
fn opus_takes_b_when_f_is_short() {
    let h = audio_header(&opus(6), b"", &[]);
    let (out, _) = decompress_audio_parts(&h, b"m.wav", Some(b"abc".to_vec()), Some(b"defgh".to_vec()), 1).unwrap();
    let ps = pages(&out);
    assert_eq!(ps[2].body, b"abcdef".to_vec());
    let header = AudioHeader::try_from_bytes_with_serial(&h, 1).unwrap();
    assert!(opus_needs_b(&header, Some(3)));
    assert!(opus_needs_b(&header, None));
    assert!(!opus_needs_b(&header, Some(6)));
}

#[test]
fn opus_with_zero_block_align_is_rejected() {
    let mut f = opus(10);
    f.block_align = 0;
    let h = audio_header(&f, b"", &[]);
    assert_eq!(decompress_audio_parts(&h, b"m.wav", Some(vec![0; 10]), None, 1).err(), Some(LotusError::BadFormat));
}

#[test]
fn opus_data_pages_use_clamped_lacing() {
    let header = AudioHeader::try_from_bytes_with_serial(&audio_header(&opus(600), b"", &[]), 3).unwrap();
    let out = opus_data_pages(&header, &vec![1u8; 600]).unwrap();
    assert_eq!(out[26], 3);
    assert_eq!(&out[27..30], &[255, 255, 90]);
}

#[test]
fn segment_tables() {
    assert_eq!(get_segment_table(19, 255), vec![19]);
    assert_eq!(get_segment_table(255, 255), vec![255, 0]);
    assert_eq!(get_segment_table(600, 255), vec![255, 255, 90]);
    assert_eq!(get_segment_table(10, 4), vec![4, 4, 2]);
    assert_eq!(get_segment_table(0, 960), vec![0]);
}

#[test]
fn page_crc_matches() {
    let page = ogg_page_bytes(0x02, 7, 9, 1, &[3], b"abc").unwrap();
    let mut zeroed = page.clone();
    zeroed[22..26].copy_from_slice(&[0, 0, 0, 0]);
    assert_eq!(le32(&page, 22), reference_crc(&zeroed));
    assert_eq!(crc32(b"OggS"), reference_crc(b"OggS"));
    assert_eq!(crc32(&[]), 0);
    assert_eq!(ogg_page_bytes(0, 0, 0, 0, &[0u8; 256], b"").err(), Some(LotusError::BadFormat));
}

#[test]
fn audio_header_fields() {
    let f = Fields { format: 5, sps: 44100, bps: 4, channels: 2, avg: 44359, block_align: 1024, spb: 2036, size: 77 };
    let bytes = audio_header(&f, b"key=value", &[b"/a/b.wav", b"/c"]);
    let raw = RawAudioHeader::try_from_bytes(&bytes).unwrap();
    assert_eq!(raw.merged_file_count, 2);
    assert_eq!(raw.file_paths, vec!["/a/b.wav".to_string(), "/c".to_string()]);
    assert_eq!(raw.arguments, "key=value");
    assert_eq!(raw.file_type, 0x8B);
    let h = AudioHeader::try_from_bytes(&bytes).unwrap();
    assert_eq!(h.format_tag, CompressionFormat::ADPCM);
    assert_eq!(h.samples_per_second, 44100);
    assert_eq!(h.channels, 2);
    assert_eq!(h.block_align, 1024);
    assert_eq!(h.samples_per_block, 2036);
    assert_eq!(h.size, 77);
}

#[test]
fn audio_header_errors() {
    let bytes = audio_header(&pcm(4), b"", &[]);
    assert!(RawAudioHeader::try_from_bytes(&bytes[..bytes.len() - 1]).is_err());
    let mut f = pcm(4);
    f.format = 3;
    assert_eq!(AudioHeader::try_from_bytes(&audio_header(&f, b"", &[])).err(), Some(LotusError::BadFormat));
    assert_eq!(RawAudioHeader::try_from_bytes(&audio_header(&pcm(4), b"", &[&[0xFF]])).err(), Some(LotusError::BadFormat));
    assert_eq!(CompressionFormat::try_from_tag(7).unwrap(), CompressionFormat::Opus);
    assert!(CompressionFormat::try_from_tag(1).is_err());
    assert_eq!(AudioKind::try_from_file_type(0x8B).unwrap(), AudioKind::Audio139);
    assert!(AudioKind::try_from_file_type(0x8C).is_err());
}

#[test]
fn audio_classification() {
    let bytes = audio_header(&pcm(4), b"", &[]);
    assert!(is_audio_header(b"x.wav", &bytes));
    assert!(!is_audio_header(b"x.png", &bytes));
    assert!(!is_audio_header(b"x.wav", &bytes[..20]));
}
