use vstd::prelude::*;

use crate::bytes::{
    copy_bytes, le16, le16_bytes, le32, le32_bytes, lemma_le32_bytes, le_u16, le_u32, push_le16,
    push_le32,
};
use crate::error::LotusError;
use crate::preamble::{arguments_text, path_record, path_text, preamble_end, read_preamble};

verus! {

/// How the samples of an audio asset are encoded.
#[derive(Clone, Copy, Debug, PartialEq, Eq, Structural)]
pub enum CompressionFormat {
    /// Tag 0x00.
    PCM,
    /// Tag 0x05.
    ADPCM,
    /// Tag 0x07.
    Opus,
}

/// The encoding that a format tag names, if any.
pub open spec fn format_of_tag(tag: u32) -> Option<CompressionFormat> {
    if tag == 0x00 {
        Some(CompressionFormat::PCM)
    } else if tag == 0x05 {
        Some(CompressionFormat::ADPCM)
    } else if tag == 0x07 {
        Some(CompressionFormat::Opus)
    } else {
        None
    }
}

impl CompressionFormat {
    /// The encoding that a format tag names.
    pub fn try_from_tag(tag: u32) -> (r: Result<CompressionFormat, LotusError>)
        ensures
            r matches Ok(f) ==> format_of_tag(tag) == Some(f),
            r is Err ==> format_of_tag(tag) is None && r == Err::<CompressionFormat, LotusError>(
                LotusError::BadFormat,
            ),
    {
        match tag {
            0x00 => Ok(CompressionFormat::PCM),
            0x05 => Ok(CompressionFormat::ADPCM),
            0x07 => Ok(CompressionFormat::Opus),
            _ => Err(LotusError::BadFormat),
        }
    }
}

/// The file type of the audio assets this library rebuilds.
pub const AUDIO_FILE_TYPE: u32 = 0x8B;

/// The kinds of audio asset.
#[derive(Clone, Copy, Debug, PartialEq, Eq, Structural)]
pub enum AudioKind {
    /// File type 0x8B.
    Audio139,
}

impl AudioKind {
    /// The kind of audio asset that a file type names.
    pub fn try_from_file_type(file_type: u32) -> (r: Result<AudioKind, LotusError>)
        ensures
            r is Ok <==> file_type == AUDIO_FILE_TYPE,
            r matches Err(e) ==> e == LotusError::BadFormat,
    {
        if file_type == AUDIO_FILE_TYPE {
            Ok(AudioKind::Audio139)
        } else {
            Err(LotusError::BadFormat)
        }
    }
}

/// The number of bytes that follow the preamble of an audio header.
pub const AUDIO_FIELDS_LEN: usize = 70;

/// An audio header as stored.
pub struct RawAudioHeader {
    pub hash: Vec<u8>,
    pub merged_file_count: u32,
    pub file_paths: Vec<String>,
    pub arguments_length: u32,
    pub arguments: String,
    pub file_type: u32,
    pub format_tag: u32,
    pub unknown1: u32,
    pub unknown2: Vec<u8>,
    pub samples_per_second: u32,
    pub bits_per_sample: u8,
    pub channels: u8,
    pub unknown3: u32,
    pub average_bytes_per_second: u32,
    pub block_align: u16,
    pub samples_per_block: u16,
    pub unknown4: Vec<u8>,
    pub size: u32,
}

/// Whether `data` holds a whole audio header.
pub open spec fn audio_header_ok(data: Seq<u8>) -> bool {
    preamble_end(data) matches Some(p) && p + AUDIO_FIELDS_LEN <= data.len()
}

impl RawAudioHeader {
    /// Reads an audio header: the preamble, then its fixed fields.
    pub fn try_from_bytes(data: &[u8]) -> (r: Result<RawAudioHeader, LotusError>)
        ensures
            r is Ok <==> audio_header_ok(data@),
            r matches Err(e) ==> e == LotusError::BadFormat,
            r matches Ok(h) ==> {
                let p = preamble_end(data@)->Some_0;
                &&& h.file_type == le32(data@, p)
                &&& h.format_tag == le32(data@, p + 4)
                &&& h.unknown1 == le32(data@, p + 8)
                &&& h.unknown2@ == data@.subrange(p + 12, p + 36)
                &&& h.samples_per_second == le32(data@, p + 36)
                &&& h.bits_per_sample == data@[p + 40]
                &&& h.channels == data@[p + 41]
                &&& h.unknown3 == le32(data@, p + 42)
                &&& h.average_bytes_per_second == le32(data@, p + 46)
                &&& h.block_align == le16(data@, p + 50)
                &&& h.samples_per_block == le16(data@, p + 52)
                &&& h.unknown4@ == data@.subrange(p + 54, p + 66)
                &&& h.size == le32(data@, p + 66)
                &&& h.hash@ == data@.subrange(0, 16)
                &&& h.merged_file_count == le32(data@, 16)
                &&& h.file_paths@.len() == le32(data@, 16)
                &&& forall|k: int|
                    0 <= k < le32(data@, 16) ==> (#[trigger] h.file_paths@[k])@ == path_text(
                        data@,
                        k as nat,
                    )
                &&& h.arguments_length == le32(data@, path_record(data@, le32(data@, 16) as nat))
                &&& h.arguments@ == arguments_text(data@)
            },
    {
        let pre = read_preamble(data)?;
        let p = pre.end;
        let n = data.len();
        if p > n || n - p < AUDIO_FIELDS_LEN {
            return Err(LotusError::BadFormat);
        }
        Ok(RawAudioHeader {
            hash: pre.hash,
            merged_file_count: pre.merged_file_count,
            file_paths: pre.file_paths,
            arguments_length: pre.arguments_length,
            arguments: pre.arguments,
            file_type: le_u32(data, p),
            format_tag: le_u32(data, p + 4),
            unknown1: le_u32(data, p + 8),
            unknown2: copy_bytes(&data[p + 12..p + 36]),
            samples_per_second: le_u32(data, p + 36),
            bits_per_sample: data[p + 40],
            channels: data[p + 41],
            unknown3: le_u32(data, p + 42),
            average_bytes_per_second: le_u32(data, p + 46),
            block_align: le_u16(data, p + 50),
            samples_per_block: le_u16(data, p + 52),
            unknown4: copy_bytes(&data[p + 54..p + 66]),
            size: le_u32(data, p + 66),
        })
    }
}

/// The parsed header of an audio asset.
#[derive(Clone, Copy, Debug)]
pub struct AudioHeader {
    pub format_tag: CompressionFormat,
    /// The serial number of the Ogg stream that a decode writes.
    pub stream_serial_number: u32,
    pub samples_per_second: u32,
    pub bits_per_sample: u8,
    pub channels: u8,
    pub average_bytes_per_second: u32,
    pub block_align: u16,
    pub samples_per_block: u16,
    /// The number of payload bytes.
    pub size: u32,
}

/// Relies on `rand::random`: any `u32` may come back.
#[verifier::external_body]
fn random_serial() -> u32 {
    rand::random::<u32>()
}

/// The audio header stored in `data`, its stream given the serial number
/// `serial`; `None` where the header is incomplete or its format tag unknown.
pub open spec fn parse_audio_header(data: Seq<u8>, serial: u32) -> Option<AudioHeader> {
    if !audio_header_ok(data) {
        None
    } else {
        let p = preamble_end(data)->Some_0;
        match format_of_tag(le32(data, p + 4) as u32) {
            None => None,
            Some(f) => Some(
                AudioHeader {
                    format_tag: f,
                    stream_serial_number: serial,
                    samples_per_second: le32(data, p + 36) as u32,
                    bits_per_sample: data[p + 40],
                    channels: data[p + 41],
                    average_bytes_per_second: le32(data, p + 46) as u32,
                    block_align: le16(data, p + 50) as u16,
                    samples_per_block: le16(data, p + 52) as u16,
                    size: le32(data, p + 66) as u32,
                },
            ),
        }
    }
}

impl AudioHeader {
    /// Reads an audio header and gives its stream the serial number `serial`.
    pub fn try_from_bytes_with_serial(data: &[u8], serial: u32) -> (r: Result<AudioHeader, LotusError>)
        ensures
            r is Ok <==> parse_audio_header(data@, serial) is Some,
            r matches Ok(h) ==> parse_audio_header(data@, serial) == Some(h),
            r matches Err(e) ==> e == LotusError::BadFormat,
    {
        let raw = RawAudioHeader::try_from_bytes(data)?;
        let format_tag = CompressionFormat::try_from_tag(raw.format_tag)?;
        Ok(AudioHeader {
            format_tag,
            stream_serial_number: serial,
            samples_per_second: raw.samples_per_second,
            bits_per_sample: raw.bits_per_sample,
            channels: raw.channels,
            average_bytes_per_second: raw.average_bytes_per_second,
            block_align: raw.block_align,
            samples_per_block: raw.samples_per_block,
            size: raw.size,
        })
    }

    /// Reads an audio header and gives its stream a fresh random serial number.
    pub fn try_from_bytes(data: &[u8]) -> (r: Result<AudioHeader, LotusError>)
        ensures
            r is Ok <==> parse_audio_header(data@, 0) is Some,
            r matches Ok(h) ==> parse_audio_header(data@, h.stream_serial_number) == Some(h),
            r matches Err(e) ==> e == LotusError::BadFormat,
    {
        let serial = random_serial();
        AudioHeader::try_from_bytes_with_serial(data, serial)
    }
}

} // verus!

verus! {

/// "RIFF".
pub open spec fn riff_tag() -> Seq<u8> {
    seq![0x52u8, 0x49, 0x46, 0x46]
}

/// "WAVE".
pub open spec fn wave_tag() -> Seq<u8> {
    seq![0x57u8, 0x41, 0x56, 0x45]
}

/// "fmt ".
pub open spec fn fmt_tag() -> Seq<u8> {
    seq![0x66u8, 0x6D, 0x74, 0x20]
}

/// "data".
pub open spec fn data_tag() -> Seq<u8> {
    seq![0x64u8, 0x61, 0x74, 0x61]
}

/// Appends four bytes.
fn push4(out: &mut Vec<u8>, a: u8, b: u8, c: u8, d: u8)
    ensures
        final(out)@ == old(out)@ + seq![a, b, c, d],
{
    out.push(a);
    out.push(b);
    out.push(c);
    out.push(d);
    proof {
        assert(final(out)@ =~= old(out)@ + seq![a, b, c, d]);
    }
}

/// The block alignment of a PCM stream: whole bytes per sample frame.
pub open spec fn pcm_block_align(h: AudioHeader) -> int {
    (h.channels * h.bits_per_sample) / 8
}

/// The 44-byte header of a PCM WAV file for `h`, whose RIFF size is the size
/// of the whole file less 8. Sizes that do not fit in 32 bits wrap.
pub open spec fn pcm_wav_header(h: AudioHeader) -> Seq<u8> {
    riff_tag() + le32_bytes((h.size + 36) % 0x1_0000_0000) + wave_tag() + fmt_tag() + le32_bytes(16)
        + le16_bytes(1) + le16_bytes(h.channels as int) + le32_bytes(h.samples_per_second as int)
        + le32_bytes((h.samples_per_second * pcm_block_align(h)) % 0x1_0000_0000) + le16_bytes(
        pcm_block_align(h),
    ) + le16_bytes(h.bits_per_sample as int) + data_tag() + le32_bytes(h.size as int)
}

/// The MS-ADPCM coefficient pairs, as the 16-bit two's complement values they
/// are stored as: (256, 0), (512, -256), (0, 0), (192, 64), (240, 0),
/// (460, -208), (392, -232).
pub open spec fn adpcm_coefficient_bytes() -> Seq<u8> {
    le16_bytes(256) + le16_bytes(0) + le16_bytes(512) + le16_bytes(0xFF00) + le16_bytes(0)
        + le16_bytes(0) + le16_bytes(192) + le16_bytes(64) + le16_bytes(240) + le16_bytes(0)
        + le16_bytes(460) + le16_bytes(0xFF30) + le16_bytes(392) + le16_bytes(0xFF18)
}

/// The 78-byte header of an MS-ADPCM WAV file for `h`, whose RIFF size is the
/// size of the whole file less 8. Sizes that do not fit in 32 bits wrap.
pub open spec fn adpcm_wav_header(h: AudioHeader) -> Seq<u8> {
    riff_tag() + le32_bytes((h.size + 70) % 0x1_0000_0000) + wave_tag() + fmt_tag() + le32_bytes(50)
        + le16_bytes(2) + le16_bytes(h.channels as int) + le32_bytes(h.samples_per_second as int)
        + le32_bytes(h.average_bytes_per_second as int) + le16_bytes(h.block_align as int)
        + le16_bytes(h.bits_per_sample as int) + le16_bytes(32) + le16_bytes(
        h.samples_per_block as int,
    ) + le16_bytes(7) + adpcm_coefficient_bytes() + data_tag() + le32_bytes(h.size as int)
}

/// The block alignment and byte rate of a PCM stream for `h`.
fn pcm_rates(h: &AudioHeader) -> (r: (u16, u32))
    ensures
        r.0 == pcm_block_align(*h),
        r.1 == (h.samples_per_second * pcm_block_align(*h)) % 0x1_0000_0000,
{
    let c = h.channels as u16;
    let b = h.bits_per_sample as u16;
    proof {
        assert(c * b <= 255 * 255) by (nonlinear_arith)
            requires
                c <= 255,
                b <= 255,
        ;
    }
    let block_align: u16 = (c * b) / 8;
    let s = h.samples_per_second as u64;
    proof {
        assert(s * block_align <= 0xFFFF_FFFF * 0xFFFF) by (nonlinear_arith)
            requires
                s <= 0xFFFF_FFFF,
                block_align <= 0xFFFF,
        ;
    }
    let avg: u32 = ((s * block_align as u64) % 0x1_0000_0000) as u32;
    (block_align, avg)
}

impl AudioHeader {
    /// The header of a PCM WAV file that holds this audio's payload.
    #[verifier::rlimit(40)]
    pub fn to_wav_pcm(&self) -> (r: Result<Vec<u8>, LotusError>)
        ensures
            r matches Ok(v) ==> v@ == pcm_wav_header(*self) && v@.len() == 44,
            r is Ok,
    {
        let (block_align, avg) = pcm_rates(self);
        let riff_size: u32 = ((self.size as u64 + 36) % 0x1_0000_0000) as u32;
        let mut data: Vec<u8> = Vec::new();
        push4(&mut data, 0x52, 0x49, 0x46, 0x46);
        push_le32(&mut data, riff_size);
        push4(&mut data, 0x57, 0x41, 0x56, 0x45);
        push4(&mut data, 0x66, 0x6D, 0x74, 0x20);
        push_le32(&mut data, 16);
        push_le16(&mut data, 1);
        push_le16(&mut data, self.channels as u16);
        push_le32(&mut data, self.samples_per_second);
        push_le32(&mut data, avg);
        push_le16(&mut data, block_align);
        push_le16(&mut data, self.bits_per_sample as u16);
        push4(&mut data, 0x64, 0x61, 0x74, 0x61);
        push_le32(&mut data, self.size);
        proof {
            assert(data@ =~= pcm_wav_header(*self));
        }
        Ok(data)
    }

    /// The header of an MS-ADPCM WAV file that holds this audio's payload.
    #[verifier::rlimit(40)]
    pub fn to_wav_adpcm(&self) -> (r: Result<Vec<u8>, LotusError>)
        ensures
            r matches Ok(v) ==> v@ == adpcm_wav_header(*self) && v@.len() == 78,
            r is Ok,
    {
        let riff_size: u32 = ((self.size as u64 + 70) % 0x1_0000_0000) as u32;
        let mut data: Vec<u8> = Vec::new();
        push4(&mut data, 0x52, 0x49, 0x46, 0x46);
        push_le32(&mut data, riff_size);
        push4(&mut data, 0x57, 0x41, 0x56, 0x45);
        push4(&mut data, 0x66, 0x6D, 0x74, 0x20);
        push_le32(&mut data, 50);
        push_le16(&mut data, 2);
        push_le16(&mut data, self.channels as u16);
        push_le32(&mut data, self.samples_per_second);
        push_le32(&mut data, self.average_bytes_per_second);
        push_le16(&mut data, self.block_align);
        push_le16(&mut data, self.bits_per_sample as u16);
        push_le16(&mut data, 32);
        push_le16(&mut data, self.samples_per_block);
        push_le16(&mut data, 7);
        let ghost before = data@;
        push_le16(&mut data, 256);
        push_le16(&mut data, 0);
        push_le16(&mut data, 512);
        push_le16(&mut data, 0xFF00);
        push_le16(&mut data, 0);
        push_le16(&mut data, 0);
        push_le16(&mut data, 192);
        push_le16(&mut data, 64);
        push_le16(&mut data, 240);
        push_le16(&mut data, 0);
        push_le16(&mut data, 460);
        push_le16(&mut data, 0xFF30);
        push_le16(&mut data, 392);
        push_le16(&mut data, 0xFF18);
        proof {
            assert(data@ =~= before + adpcm_coefficient_bytes());
        }
        push4(&mut data, 0x64, 0x61, 0x74, 0x61);
        push_le32(&mut data, self.size);
        proof {
            assert(data@ =~= adpcm_wav_header(*self));
        }
        Ok(data)
    }
}

} // verus!

verus! {

proof fn lemma_field_4(x: Seq<u8>, head: Seq<u8>, field: Seq<u8>, rest: Seq<u8>)
    requires
        x == head + field + rest,
        head.len() == 4,
        field.len() == 4,
    ensures
        le32(x, 4) == le32(field, 0),
{
    assert(x[4] == field[0]);
    assert(x[5] == field[1]);
    assert(x[6] == field[2]);
    assert(x[7] == field[3]);
}

/// A PCM WAV file rebuilt from a header and its `size`-byte payload records,
/// in its RIFF size field, its own length less 8.
pub proof fn lemma_pcm_riff_size(h: AudioHeader, payload: Seq<u8>)
    requires
        payload.len() == h.size,
        h.size + 36 < 0x1_0000_0000,
    ensures
        le32(pcm_wav_header(h) + payload, 4) == (pcm_wav_header(h) + payload).len() - 8,
{
    let v = (h.size + 36) % 0x1_0000_0000;
    let l = le32_bytes(v);
    let x = pcm_wav_header(h) + payload;
    let rest = x.skip(8);
    assert(x.len() == 44 + h.size);
    assert(x =~= riff_tag() + l + rest);
    lemma_field_4(x, riff_tag(), l, rest);
    lemma_le32_bytes(v);
}

/// An MS-ADPCM WAV file rebuilt from a header and its `size`-byte payload
/// records, in its RIFF size field, its own length less 8.
pub proof fn lemma_adpcm_riff_size(h: AudioHeader, payload: Seq<u8>)
    requires
        payload.len() == h.size,
        h.size + 70 < 0x1_0000_0000,
    ensures
        le32(adpcm_wav_header(h) + payload, 4) == (adpcm_wav_header(h) + payload).len() - 8,
{
    let v = (h.size + 70) % 0x1_0000_0000;
    let l = le32_bytes(v);
    let x = adpcm_wav_header(h) + payload;
    let rest = x.skip(8);
    assert(x.len() == 78 + h.size);
    assert(x =~= riff_tag() + l + rest);
    lemma_field_4(x, riff_tag(), l, rest);
    lemma_le32_bytes(v);
}

} // verus!
