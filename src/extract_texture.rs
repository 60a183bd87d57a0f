use vstd::prelude::*;

use crate::buffer::{buffer_into_vec, buffer_new, buffer_write};
use crate::bytes::{copy_bytes, le32};
use crate::compression::{
    decompress_post_ensmallening, get_real_cache_image_offset, nearest_boundary, post_decompressed,
    sub_offset_scan,
};
use crate::error::LotusError;
use crate::names::{ends_with, has_suffix, with_extension};
use crate::preamble::preamble_end;
use crate::text::utf8_text;
use crate::texture::{
    dds_header_of, dds_magic, dx10_fits, needs_dx10, parse_texture_header, texture_header_ok,
    texture_kind_of, RawTextureHeader, TextureHeader, TextureKind, TextureView,
};

verus! {

/// Where the pixels of a texture come from.
#[derive(Clone, Copy, Debug, PartialEq, Eq, Structural)]
pub enum TextureSource {
    /// The F cache, from the block boundary nearest the last mip offset.
    FCacheMips,
    /// The whole F-cache entry, whose last `size` bytes are the image.
    FCacheWhole,
    /// The whole B-cache entry, whose last `size` bytes are the image.
    BCacheWhole,
}

/// Where the pixels of the texture `t` come from: the F cache where it holds
/// images (from the last mip offset where there are offsets), else the B cache.
pub open spec fn source_of(t: TextureView) -> TextureSource {
    if t.f_cache_image_count > 0 {
        if t.offsets.len() > 0 {
            TextureSource::FCacheMips
        } else {
            TextureSource::FCacheWhole
        }
    } else {
        TextureSource::BCacheWhole
    }
}

/// Where the pixels of `t` come from.
pub fn texture_source(t: &TextureHeader) -> (r: TextureSource)
    ensures
        r == source_of(t@),
{
    if t.f_cache_image_count() > 0 {
        if t.f_cache_image_offsets().len() > 0 {
            TextureSource::FCacheMips
        } else {
            TextureSource::FCacheWhole
        }
    } else {
        TextureSource::BCacheWhole
    }
}

/// The pixels of a texture as handed to the rebuilder.
pub enum TexturePixels {
    /// The raw F-cache entry (its compressed bytes from its cache offset), its
    /// compressed length, and what the Oodle decoder made of each Oodle block
    /// of the stream that starts at `mip_stream_start`.
    MipStream { raw: Vec<u8>, comp_len: usize, oodle: Vec<Option<Vec<u8>>> },
    /// A whole decompressed entry.
    Entry(Vec<u8>),
}

/// Where, in the raw F-cache entry `raw`, the stream of the last mip level of
/// `t` starts: the block boundary nearest its nominal offset.
pub open spec fn mip_start(t: TextureView, raw: Seq<u8>) -> Result<int, LotusError> {
    if t.offsets.len() == 0 {
        Err(LotusError::BadFormat)
    } else {
        let sub = t.offsets.last() as int;
        match sub_offset_scan(raw, sub, 0, 0) {
            Err(e) => Err(e),
            Ok((b, top)) => {
                let o = nearest_boundary(sub, b, top);
                if o > raw.len() {
                    Err(LotusError::BadCompression)
                } else {
                    Ok(o)
                }
            },
        }
    }
}

/// Where, in the raw F-cache entry `raw`, the stream of the last mip level of
/// `t` starts.
pub fn mip_stream_start(t: &TextureHeader, raw: &[u8]) -> (r: Result<usize, LotusError>)
    ensures
        r matches Ok(o) ==> mip_start(t@, raw@) == Ok::<int, LotusError>(o as int),
        r matches Err(e) ==> mip_start(t@, raw@) == Err::<int, LotusError>(e),
{
    let offsets = t.f_cache_image_offsets();
    if offsets.len() == 0 {
        return Err(LotusError::BadFormat);
    }
    let sub = offsets[offsets.len() - 1];
    let o = get_real_cache_image_offset(raw, sub)?;
    if o > raw.len() as u64 {
        return Err(LotusError::BadCompression);
    }
    Ok(o as usize)
}

/// The image bytes of `t` from `px`: from a mip stream, `size` bytes
/// decompressed from the mip start on; from a whole entry, its last `size`
/// bytes.
pub open spec fn pixels_of(t: TextureView, px: TexturePixels) -> Result<Seq<u8>, LotusError> {
    match px {
        TexturePixels::MipStream { raw, comp_len, oodle } => match mip_start(t, raw@) {
            Err(e) => Err(e),
            Ok(o) => post_decompressed(raw@.skip(o), comp_len as nat, t.size, oodle@),
        },
        TexturePixels::Entry(e) => if e@.len() < t.size {
            Err(LotusError::BadFormat)
        } else {
            Ok(e@.skip(e@.len() - t.size))
        },
    }
}

/// ".png".
pub open spec fn png_ext() -> Seq<u8> {
    seq![0x2Eu8, 0x70, 0x6E, 0x67]
}

/// ".dds".
pub open spec fn dds_ext() -> Seq<u8> {
    seq![0x2Eu8, 0x64, 0x64, 0x73]
}

/// The name of the file rebuilt from a texture named `name`: ".png" dropped
/// from its end, then ".dds" added.
pub open spec fn texture_name_bytes(name: Seq<u8>) -> Seq<u8> {
    (if ends_with(name, png_ext()) {
        name.take(name.len() - 4)
    } else {
        name
    }) + dds_ext()
}

/// The name of the file rebuilt from a texture named `name`.
pub fn get_texture_file_name(name: &[u8]) -> (r: Result<String, LotusError>)
    ensures
        r is Ok <==> utf8_text(texture_name_bytes(name@)) is Some,
        r matches Ok(s) ==> Some(s@) == utf8_text(texture_name_bytes(name@)),
        r matches Err(e) ==> e == LotusError::BadFormat,
{
    let png: Vec<u8> = vec![0x2E, 0x70, 0x6E, 0x67];
    let dds: Vec<u8> = vec![0x2E, 0x64, 0x64, 0x73];
    let stem = if has_suffix(name, png.as_slice()) {
        copy_bytes(&name[0..name.len() - 4])
    } else {
        copy_bytes(name)
    };
    proof {
        if ends_with(name@, png_ext()) {
            assert(name@.subrange(0, name@.len() - 4) =~= name@.take(name@.len() - 4));
        }
    }
    with_extension(stem.as_slice(), dds.as_slice())
}

/// The image bytes of `t` from `px`.
pub fn texture_pixels(t: &TextureHeader, px: &TexturePixels) -> (r: Result<Vec<u8>, LotusError>)
    ensures
        r matches Ok(v) ==> pixels_of(t@, *px) == Ok::<Seq<u8>, LotusError>(v@),
        r matches Err(e) ==> pixels_of(t@, *px) == Err::<Seq<u8>, LotusError>(e),
{
    match px {
        TexturePixels::MipStream { raw, comp_len, oodle } => {
            let o = mip_stream_start(t, raw.as_slice())?;
            let stream = &raw.as_slice()[o..raw.len()];
            proof {
                assert(stream@ =~= raw@.skip(o as int));
            }
            decompress_post_ensmallening(stream, *comp_len, t.size(), oodle)
        },
        TexturePixels::Entry(e) => {
            let size = t.size();
            if e.len() < size {
                return Err(LotusError::BadFormat);
            }
            let start = e.len() - size;
            let v = copy_bytes(&e.as_slice()[start..e.len()]);
            proof {
                assert(e@.subrange(start as int, e@.len() as int) =~= e@.skip(start as int));
            }
            Ok(v)
        },
    }
}

/// The DDS file rebuilt from a texture named `name` whose decompressed header
/// is `header_data` and whose image bytes come from `px`, with its name.
pub open spec fn texture_output(header_data: Seq<u8>, name: Seq<u8>, px: TexturePixels) -> Result<
    (Seq<u8>, Seq<char>),
    LotusError,
> {
    match parse_texture_header(header_data) {
        None => Err(LotusError::BadFormat),
        Some(t) => if needs_dx10(t.format) && !dx10_fits(t.width, t.height) {
            Err(LotusError::BadFormat)
        } else {
            match pixels_of(t, px) {
                Err(e) => Err(e),
                Ok(p) => match utf8_text(texture_name_bytes(name)) {
                    None => Err(LotusError::BadFormat),
                    Some(s) => Ok((dds_magic() + dds_header_of(t) + p, s)),
                },
            }
        },
    }
}

/// Rebuilds the DDS file of a texture named `name` from its decompressed
/// header and its image bytes.
pub fn decompress_texture_parts(header_data: &[u8], name: &[u8], px: &TexturePixels) -> (r: Result<
    (Vec<u8>, String),
    LotusError,
>)
    ensures
        r matches Ok((v, s)) ==> texture_output(header_data@, name@, *px) == Ok::<
            (Seq<u8>, Seq<char>),
            LotusError,
        >((v@, s@)),
        r matches Err(e) ==> texture_output(header_data@, name@, *px) == Err::<
            (Seq<u8>, Seq<char>),
            LotusError,
        >(e),
{
    let t = TextureHeader::try_from_bytes(header_data)?;
    let mut buffer = buffer_new();
    let head = t.dds_header()?;
    buffer_write(&mut buffer, head.as_slice());
    let pixels = texture_pixels(&t, px)?;
    buffer_write(&mut buffer, pixels.as_slice());
    let out = buffer_into_vec(buffer);
    proof {
        assert(out@ =~= head@ + pixels@);
    }
    let file_name = get_texture_file_name(name)?;
    Ok((out, file_name))
}

/// Whether an asset named `name` whose decompressed header is `header_data`
/// is a texture: a ".png" name, a whole texture header, and a texture file type.
pub open spec fn is_texture_spec(name: Seq<u8>, header_data: Seq<u8>) -> bool {
    &&& ends_with(name, png_ext())
    &&& texture_header_ok(header_data)
    &&& texture_kind_of(le32(header_data, preamble_end(header_data)->Some_0) as u32) is Some
}

/// Whether an asset named `name` whose decompressed header is `header_data`
/// is a texture.
pub fn is_texture_header(name: &[u8], header_data: &[u8]) -> (r: bool)
    ensures
        r == is_texture_spec(name@, header_data@),
{
    let png: Vec<u8> = vec![0x2E, 0x70, 0x6E, 0x67];
    if !has_suffix(name, png.as_slice()) {
        return false;
    }
    match RawTextureHeader::try_from_bytes(header_data) {
        Ok(h) => TextureKind::try_from_file_type(h.file_type).is_ok(),
        Err(_) => false,
    }
}

} // verus!
