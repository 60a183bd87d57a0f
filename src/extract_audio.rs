use vstd::prelude::*;

use crate::audio::{
    adpcm_wav_header, audio_header_ok, pcm_wav_header, parse_audio_header, AudioHeader, AudioKind,
    CompressionFormat, RawAudioHeader, AUDIO_FILE_TYPE,
};
use crate::buffer::{buffer_bytes, buffer_into_vec, buffer_new, buffer_write, byte_buffer_data};
use crate::bytes::{copy_bytes, le32};
use crate::error::LotusError;
use crate::names::{ends_with, has_suffix, name_stem, stem, with_extension};
use crate::opus::{opus_data_pages, opus_stream};
use crate::preamble::preamble_end;
use crate::text::utf8_text;

verus! {

/// ".wav".
pub open spec fn wav_ext() -> Seq<u8> {
    seq![0x2Eu8, 0x77, 0x61, 0x76]
}

/// ".opus".
pub open spec fn opus_ext() -> Seq<u8> {
    seq![0x2Eu8, 0x6F, 0x70, 0x75, 0x73]
}

/// The bytes an optional part holds; none where it is absent.
pub open spec fn or_empty(o: Option<Vec<u8>>) -> Seq<u8> {
    match o {
        Some(v) => v@,
        None => seq![],
    }
}

/// The payload of an audio asset from its F-cache and B-cache parts. For PCM
/// and ADPCM, the B part then the F part, of which the last `size` bytes count.
/// For Opus, the F part, followed by the B part where the F part is absent or
/// not `size` bytes long, of which the first `size` bytes count.
pub open spec fn audio_payload(h: AudioHeader, f: Option<Vec<u8>>, b: Option<Vec<u8>>) -> Result<
    Seq<u8>,
    LotusError,
> {
    let size = h.size as int;
    match h.format_tag {
        CompressionFormat::Opus => {
            let first = or_empty(f);
            let all = if f is None || first.len() != size {
                first + or_empty(b)
            } else {
                first
            };
            if all.len() < size {
                Err(LotusError::BadFormat)
            } else {
                Ok(all.take(size))
            }
        },
        _ => {
            let all = or_empty(b) + or_empty(f);
            if all.len() < size {
                Err(LotusError::BadFormat)
            } else {
                Ok(all.skip(all.len() - size))
            }
        },
    }
}

/// The file rebuilt from an audio header and its payload: a WAV file for PCM
/// and ADPCM, an Ogg/Opus stream for Opus.
pub open spec fn audio_file(h: AudioHeader, payload: Seq<u8>) -> Result<Seq<u8>, LotusError> {
    match h.format_tag {
        CompressionFormat::PCM => Ok(pcm_wav_header(h) + payload),
        CompressionFormat::ADPCM => Ok(adpcm_wav_header(h) + payload),
        CompressionFormat::Opus => opus_stream(h, payload),
    }
}

/// The file rebuilt from an audio asset named `name`, whose header is
/// `header_data` and whose payload parts are `f` and `b`, with its name: the
/// asset's name with ".wav" or ".opus" in place of its extension.
pub open spec fn audio_output(
    header_data: Seq<u8>,
    name: Seq<u8>,
    f: Option<Vec<u8>>,
    b: Option<Vec<u8>>,
    serial: u32,
) -> Result<(Seq<u8>, Seq<char>), LotusError> {
    match parse_audio_header(header_data, serial) {
        None => Err(LotusError::BadFormat),
        Some(h) => match audio_payload(h, f, b) {
            Err(e) => Err(e),
            Ok(p) => match audio_file(h, p) {
                Err(e) => Err(e),
                Ok(bytes) => {
                    let ext = if h.format_tag == CompressionFormat::Opus {
                        opus_ext()
                    } else {
                        wav_ext()
                    };
                    match utf8_text(stem(name) + ext) {
                        None => Err(LotusError::BadFormat),
                        Some(s) => Ok((bytes, s)),
                    }
                },
            },
        },
    }
}

/// Whether an Opus asset needs its B-cache part, given the length of its
/// F-cache part where there is one.
pub fn opus_needs_b(h: &AudioHeader, f_len: Option<usize>) -> (r: bool)
    ensures
        r == (f_len is None || f_len->Some_0 != h.size),
{
    match f_len {
        None => true,
        Some(l) => l != h.size as usize,
    }
}

fn select_payload(h: &AudioHeader, f: Option<Vec<u8>>, b: Option<Vec<u8>>) -> (r: Result<
    Vec<u8>,
    LotusError,
>)
    ensures
        r matches Ok(v) ==> audio_payload(*h, f, b) == Ok::<Seq<u8>, LotusError>(v@),
        r matches Err(e) ==> audio_payload(*h, f, b) == Err::<Seq<u8>, LotusError>(e),
{
    let size = h.size as usize;
    let mut buffer = buffer_new();
    match h.format_tag {
        CompressionFormat::Opus => {
            let f_absent = f.is_none();
            match &f {
                Some(v) => buffer_write(&mut buffer, v.as_slice()),
                None => {},
            }
            proof {
                assert(Seq::<u8>::empty() + or_empty(f) =~= or_empty(f));
            }
            if f_absent || buffer_bytes(&buffer).len() != size {
                match &b {
                    Some(v) => buffer_write(&mut buffer, v.as_slice()),
                    None => {},
                }
                proof {
                    if b is None {
                        assert(or_empty(f) + or_empty(b) =~= or_empty(f));
                    }
                }
            }
            let all = buffer_bytes(&buffer);
            if all.len() < size {
                return Err(LotusError::BadFormat);
            }
            let r = copy_bytes(&all[0..size]);
            proof {
                assert(all@.subrange(0, size as int) =~= all@.take(size as int));
            }
            Ok(r)
        },
        _ => {
            match &b {
                Some(v) => buffer_write(&mut buffer, v.as_slice()),
                None => {},
            }
            match &f {
                Some(v) => buffer_write(&mut buffer, v.as_slice()),
                None => {},
            }
            proof {
                assert(Seq::<u8>::empty() + or_empty(b) =~= or_empty(b));
                if f is None {
                    assert(or_empty(b) + or_empty(f) =~= or_empty(b));
                }
            }
            let all = buffer_bytes(&buffer);
            if all.len() < size {
                return Err(LotusError::BadFormat);
            }
            let start = all.len() - size;
            let r = copy_bytes(&all[start..all.len()]);
            proof {
                assert(all@.subrange(start as int, all@.len() as int) =~= all@.skip(start as int));
            }
            Ok(r)
        },
    }
}

/// Rebuilds an audio file from the decompressed header of an asset named
/// `name` and the decompressed F-cache and B-cache parts of its payload,
/// giving an Opus stream the serial number `serial`.
pub fn decompress_audio_parts(
    header_data: &[u8],
    name: &[u8],
    f: Option<Vec<u8>>,
    b: Option<Vec<u8>>,
    serial: u32,
) -> (r: Result<(Vec<u8>, String), LotusError>)
    ensures
        r matches Ok((v, s)) ==> audio_output(header_data@, name@, f, b, serial) == Ok::<
            (Seq<u8>, Seq<char>),
            LotusError,
        >((v@, s@)),
        r matches Err(e) ==> audio_output(header_data@, name@, f, b, serial) == Err::<
            (Seq<u8>, Seq<char>),
            LotusError,
        >(e),
{
    let header = AudioHeader::try_from_bytes_with_serial(header_data, serial)?;
    let payload = select_payload(&header, f, b)?;
    let mut buffer = buffer_new();
    let ext = match header.format_tag {
        CompressionFormat::PCM => {
            let wav = match header.to_wav_pcm() {
                Ok(v) => v,
                Err(e) => {
                    return Err(e);
                },
            };
            buffer_write(&mut buffer, wav.as_slice());
            buffer_write(&mut buffer, payload.as_slice());
            vec![0x2Eu8, 0x77, 0x61, 0x76]
        },
        CompressionFormat::ADPCM => {
            let wav = match header.to_wav_adpcm() {
                Ok(v) => v,
                Err(e) => {
                    return Err(e);
                },
            };
            buffer_write(&mut buffer, wav.as_slice());
            buffer_write(&mut buffer, payload.as_slice());
            vec![0x2Eu8, 0x77, 0x61, 0x76]
        },
        CompressionFormat::Opus => {
            let head = match header.to_opus() {
                Ok(v) => v,
                Err(e) => {
                    return Err(e);
                },
            };
            let pages = opus_data_pages(&header, payload.as_slice())?;
            buffer_write(&mut buffer, head.as_slice());
            buffer_write(&mut buffer, pages.as_slice());
            vec![0x2Eu8, 0x6F, 0x70, 0x75, 0x73]
        },
    };
    proof {
        assert(Seq::<u8>::empty() + byte_buffer_data(buffer) == byte_buffer_data(buffer));
    }
    let bytes = buffer_into_vec(buffer);
    proof {
        let d = bytes@;
        match header.format_tag {
            CompressionFormat::PCM => {
                assert(d =~= pcm_wav_header(header) + payload@);
            },
            CompressionFormat::ADPCM => {
                assert(d =~= adpcm_wav_header(header) + payload@);
            },
            CompressionFormat::Opus => {},
        }
    }
    let stem_bytes = name_stem(name);
    let file_name = with_extension(stem_bytes.as_slice(), ext.as_slice())?;
    proof {
        assert(ext@ == if header.format_tag == CompressionFormat::Opus {
            opus_ext()
        } else {
            wav_ext()
        });
    }
    Ok((bytes, file_name))
}

/// Whether an asset named `name` whose decompressed header is `header_data`
/// is audio: a ".wav" name, a whole audio header, and the audio file type.
pub open spec fn is_audio_spec(name: Seq<u8>, header_data: Seq<u8>) -> bool {
    &&& ends_with(name, wav_ext())
    &&& audio_header_ok(header_data)
    &&& le32(header_data, preamble_end(header_data)->Some_0) == AUDIO_FILE_TYPE
}

/// Whether an asset named `name` whose decompressed header is `header_data`
/// is audio.
pub fn is_audio_header(name: &[u8], header_data: &[u8]) -> (r: bool)
    ensures
        r == is_audio_spec(name@, header_data@),
{
    let ext: Vec<u8> = vec![0x2E, 0x77, 0x61, 0x76];
    if !has_suffix(name, ext.as_slice()) {
        return false;
    }
    match RawAudioHeader::try_from_bytes(header_data) {
        Ok(h) => AudioKind::try_from_file_type(h.file_type).is_ok(),
        Err(_) => false,
    }
}

} // verus!
