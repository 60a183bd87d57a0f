use vstd::prelude::*;

use crate::bytes::{le16, le32, le32_bytes, le_u16, le_u32, push_all};
use crate::error::LotusError;
use crate::preamble::{arguments_text, path_record, path_text, preamble_end, read_preamble};

use ddsfile::{AlphaMode as A, D3D10ResourceDimension as D};

verus! {

/// The pixel formats of the textures this library rebuilds.
#[allow(non_camel_case_types)]
#[derive(Clone, Copy, Debug, PartialEq, Eq, Structural)]
pub enum DDSFormat {
    BC1_UNORM,
    BC2_UNORM,
    BC3_UNORM,
    BC4_UNORM,
    BC5_UNORM,
    BC6H_UF16,
    BC7_UNORM,
    Uncompressed,
}

/// The pixel format that a stored format byte names, if any.
pub open spec fn dds_format_of(v: u8) -> Option<DDSFormat> {
    if v == 0x00 || v == 0x01 {
        Some(DDSFormat::BC1_UNORM)
    } else if v == 0x02 {
        Some(DDSFormat::BC2_UNORM)
    } else if v == 0x03 {
        Some(DDSFormat::BC3_UNORM)
    } else if v == 0x06 {
        Some(DDSFormat::BC4_UNORM)
    } else if v == 0x07 {
        Some(DDSFormat::BC5_UNORM)
    } else if v == 0x23 {
        Some(DDSFormat::BC6H_UF16)
    } else if v == 0x22 {
        Some(DDSFormat::BC7_UNORM)
    } else if v == 0x0A {
        Some(DDSFormat::Uncompressed)
    } else {
        None
    }
}

/// The bits per pixel that the size of a texture is counted with.
pub open spec fn bpp_of(f: DDSFormat) -> u32 {
    match f {
        DDSFormat::BC1_UNORM | DDSFormat::BC4_UNORM => 8,
        DDSFormat::Uncompressed => 64,
        _ => 16,
    }
}

/// The four-character code of a block-compressed format, as a little-endian
/// `u32`; "DX10" for the formats that need the extended header.
pub open spec fn fourcc_of(f: DDSFormat) -> Option<u32> {
    match f {
        DDSFormat::BC1_UNORM => Some(0x3154_5844u32),
        DDSFormat::BC2_UNORM => Some(0x3354_5844u32),
        DDSFormat::BC3_UNORM => Some(0x3554_5844u32),
        DDSFormat::BC4_UNORM => Some(0x3149_5441u32),
        DDSFormat::BC5_UNORM => Some(0x3249_5441u32),
        DDSFormat::BC6H_UF16 => Some(0x3031_5844u32),
        DDSFormat::BC7_UNORM => Some(0x3031_5844u32),
        DDSFormat::Uncompressed => None,
    }
}

impl DDSFormat {
    /// The pixel format that a stored format byte names.
    pub fn try_from_u8(v: u8) -> (r: Result<DDSFormat, LotusError>)
        ensures
            r matches Ok(f) ==> dds_format_of(v) == Some(f),
            r is Err ==> dds_format_of(v) is None && r == Err::<DDSFormat, LotusError>(
                LotusError::BadFormat,
            ),
    {
        match v {
            0x00 | 0x01 => Ok(DDSFormat::BC1_UNORM),
            0x02 => Ok(DDSFormat::BC2_UNORM),
            0x03 => Ok(DDSFormat::BC3_UNORM),
            0x06 => Ok(DDSFormat::BC4_UNORM),
            0x07 => Ok(DDSFormat::BC5_UNORM),
            0x23 => Ok(DDSFormat::BC6H_UF16),
            0x22 => Ok(DDSFormat::BC7_UNORM),
            0x0A => Ok(DDSFormat::Uncompressed),
            _ => Err(LotusError::BadFormat),
        }
    }

    /// The bits per pixel of the format.
    pub fn bits_per_pixel(self) -> (r: u32)
        ensures
            r == bpp_of(self),
    {
        match self {
            DDSFormat::BC1_UNORM | DDSFormat::BC4_UNORM => 8,
            DDSFormat::Uncompressed => 64,
            _ => 16,
        }
    }

    /// The four-character code of the format; an error for uncompressed pixels.
    pub fn fourcc(self) -> (r: Result<u32, LotusError>)
        ensures
            r matches Ok(c) ==> fourcc_of(self) == Some(c),
            r is Err ==> fourcc_of(self) is None && r == Err::<u32, LotusError>(LotusError::BadFormat),
    {
        match self {
            DDSFormat::BC1_UNORM => Ok(0x3154_5844),
            DDSFormat::BC2_UNORM => Ok(0x3354_5844),
            DDSFormat::BC3_UNORM => Ok(0x3554_5844),
            DDSFormat::BC4_UNORM => Ok(0x3149_5441),
            DDSFormat::BC5_UNORM => Ok(0x3249_5441),
            DDSFormat::BC6H_UF16 => Ok(0x3031_5844),
            DDSFormat::BC7_UNORM => Ok(0x3031_5844),
            DDSFormat::Uncompressed => Err(LotusError::BadFormat),
        }
    }
}

/// The kinds of texture asset.
#[derive(Clone, Copy, Debug, PartialEq, Eq, Structural)]
pub enum TextureKind {
    DiffuseEmissionTint,
    BillboardSpritemapDiffuse,
    BillboardSpritemapNormal,
    Roughness,
    Skybox,
    Texture174,
    Texture176,
    Cubemap,
    NormalMap,
    Packmap,
    Texture194,
    DetailsPack,
}

/// The kind of texture that a file type names, if any.
pub open spec fn texture_kind_of(v: u32) -> Option<TextureKind> {
    if v == 0xA3 {
        Some(TextureKind::DiffuseEmissionTint)
    } else if v == 0xA4 {
        Some(TextureKind::BillboardSpritemapDiffuse)
    } else if v == 0xA5 {
        Some(TextureKind::BillboardSpritemapNormal)
    } else if v == 0xA7 {
        Some(TextureKind::Roughness)
    } else if v == 0xAB {
        Some(TextureKind::Skybox)
    } else if v == 0xAE {
        Some(TextureKind::Texture174)
    } else if v == 0xB0 {
        Some(TextureKind::Texture176)
    } else if v == 0xB1 {
        Some(TextureKind::Cubemap)
    } else if v == 0xB8 {
        Some(TextureKind::NormalMap)
    } else if v == 0xBC {
        Some(TextureKind::Packmap)
    } else if v == 0xC2 {
        Some(TextureKind::Texture194)
    } else if v == 0xC3 {
        Some(TextureKind::DetailsPack)
    } else {
        None
    }
}

impl TextureKind {
    /// The kind of texture that a file type names.
    pub fn try_from_file_type(v: u32) -> (r: Result<TextureKind, LotusError>)
        ensures
            r matches Ok(k) ==> texture_kind_of(v) == Some(k),
            r is Err ==> texture_kind_of(v) is None && r == Err::<TextureKind, LotusError>(
                LotusError::BadFormat,
            ),
    {
        match v {
            0xA3 => Ok(TextureKind::DiffuseEmissionTint),
            0xA4 => Ok(TextureKind::BillboardSpritemapDiffuse),
            0xA5 => Ok(TextureKind::BillboardSpritemapNormal),
            0xA7 => Ok(TextureKind::Roughness),
            0xAB => Ok(TextureKind::Skybox),
            0xAE => Ok(TextureKind::Texture174),
            0xB0 => Ok(TextureKind::Texture176),
            0xB1 => Ok(TextureKind::Cubemap),
            0xB8 => Ok(TextureKind::NormalMap),
            0xBC => Ok(TextureKind::Packmap),
            0xC2 => Ok(TextureKind::Texture194),
            0xC3 => Ok(TextureKind::DetailsPack),
            _ => Err(LotusError::BadFormat),
        }
    }
}

/// Where the fields after the mip offsets of a texture header start, for a
/// preamble that ends at `p`.
pub open spec fn texture_tail_start(data: Seq<u8>, p: int) -> int {
    p + 12 + 4 * le32(data, p + 8)
}

/// Whether `data` holds a whole texture header.
pub open spec fn texture_header_ok(data: Seq<u8>) -> bool {
    preamble_end(data) matches Some(p) && p + 12 <= data.len() && texture_tail_start(data, p) + 12
        <= data.len()
}

/// A texture header as stored.
pub struct RawTextureHeader {
    pub hash: Vec<u8>,
    pub merged_file_count: u32,
    pub file_paths: Vec<String>,
    pub arguments_length: u32,
    pub arguments: String,
    pub file_type: u32,
    pub unknown1: u8,
    pub f_cache_image_count: u8,
    pub unknown2: u8,
    pub dds_format: u8,
    pub mip_map_count: u32,
    pub f_cache_image_offsets: Vec<u32>,
    pub width_ratio: u16,
    pub height_ratio: u16,
    pub b_cache_max_width: u16,
    pub b_cache_max_height: u16,
    pub max_side_length: u32,
    /// Where the header ends.
    pub offset: usize,
}

impl RawTextureHeader {
    /// Reads a texture header: the preamble, its fixed fields, one sub-offset
    /// per mip level, then the size fields.
    pub fn try_from_bytes(data: &[u8]) -> (r: Result<RawTextureHeader, LotusError>)
        ensures
            r is Ok <==> texture_header_ok(data@),
            r matches Err(e) ==> e == LotusError::BadFormat,
            r matches Ok(h) ==> {
                let p = preamble_end(data@)->Some_0;
                let q = texture_tail_start(data@, p);
                &&& h.file_type == le32(data@, p)
                &&& h.unknown1 == data@[p + 4]
                &&& h.f_cache_image_count == data@[p + 5]
                &&& h.unknown2 == data@[p + 6]
                &&& h.dds_format == data@[p + 7]
                &&& h.mip_map_count == le32(data@, p + 8)
                &&& h.f_cache_image_offsets@.len() == h.mip_map_count
                &&& forall|k: int|
                    0 <= k < h.mip_map_count ==> #[trigger] h.f_cache_image_offsets@[k] == le32(
                        data@,
                        p + 12 + 4 * k,
                    )
                &&& h.width_ratio == le16(data@, q)
                &&& h.height_ratio == le16(data@, q + 2)
                &&& h.b_cache_max_width == le16(data@, q + 4)
                &&& h.b_cache_max_height == le16(data@, q + 6)
                &&& h.max_side_length == le32(data@, q + 8)
                &&& h.offset == q + 12
                &&& h.file_paths@.len() == le32(data@, 16)
                &&& forall|k: int|
                    0 <= k < le32(data@, 16) ==> (#[trigger] h.file_paths@[k])@ == path_text(
                        data@,
                        k as nat,
                    )
                &&& h.arguments_length == le32(data@, path_record(data@, le32(data@, 16) as nat))
                &&& h.arguments@ == arguments_text(data@)
                &&& h.hash@ == data@.subrange(0, 16)
                &&& h.merged_file_count == le32(data@, 16)
            },
    {
        let pre = read_preamble(data)?;
        let p = pre.end;
        let n = data.len();
        if p > n || n - p < 12 {
            return Err(LotusError::BadFormat);
        }
        let file_type = le_u32(data, p);
        let unknown1 = data[p + 4];
        let f_cache_image_count = data[p + 5];
        let unknown2 = data[p + 6];
        let dds_format = data[p + 7];
        let mip_map_count = le_u32(data, p + 8);
        let start = p + 12;
        let mips = mip_map_count as usize;
        if (n - start) / 4 < mips || n - start - 4 * mips < 12 {
            return Err(LotusError::BadFormat);
        }
        let mut offsets: Vec<u32> = Vec::new();
        let mut k: usize = 0;
        while k < mips
            invariant
                n == data@.len(),
                start + 4 * mip_map_count <= n,
                mips == mip_map_count,
                k <= mip_map_count,
                offsets@.len() == k,
                forall|j: int| 0 <= j < k ==> #[trigger] offsets@[j] == le32(data@, start + 4 * j),
            decreases mip_map_count - k,
        {
            offsets.push(le_u32(data, start + 4 * k));
            k += 1;
        }
        let q = start + 4 * mips;
        Ok(RawTextureHeader {
            hash: pre.hash,
            merged_file_count: pre.merged_file_count,
            file_paths: pre.file_paths,
            arguments_length: pre.arguments_length,
            arguments: pre.arguments,
            file_type,
            unknown1,
            f_cache_image_count,
            unknown2,
            dds_format,
            mip_map_count,
            f_cache_image_offsets: offsets,
            width_ratio: le_u16(data, q),
            height_ratio: le_u16(data, q + 2),
            b_cache_max_width: le_u16(data, q + 4),
            b_cache_max_height: le_u16(data, q + 6),
            max_side_length: le_u32(data, q + 8),
            offset: q + 12,
        })
    }
}

} // verus!

verus! {

/// What a parsed texture header says.
pub struct TextureView {
    pub width: u32,
    pub height: u32,
    pub format: DDSFormat,
    pub f_cache_image_count: u8,
    pub offsets: Seq<u32>,
    pub size: nat,
}

/// The width and height of a texture whose longer side is `msl` and whose
/// sides stand in the ratio `wr : hr`; `None` where both ratios are zero.
pub open spec fn texture_dims(msl: u32, wr: u16, hr: u16) -> Option<(u32, u32)> {
    if wr > hr {
        Some((msl, ((msl as int) * (hr as int) / (wr as int)) as u32))
    } else if hr == 0 {
        None
    } else {
        Some((((msl as int) * (wr as int) / (hr as int)) as u32, msl))
    }
}

/// The larger of 1 and `x`.
pub open spec fn at_least_one(x: int) -> int {
    if x < 1 {
        1
    } else {
        x
    }
}

/// The number of bytes of the top image of a texture.
pub open spec fn texture_size(w: u32, h: u32, f: DDSFormat) -> int {
    at_least_one(w as int / 4) * at_least_one(h as int / 4) * bpp_of(f)
}

/// The row pitch of an uncompressed texture.
pub open spec fn pitch_of(w: u32, f: DDSFormat) -> int {
    (w as int) * (bpp_of(f) as int) / 8
}

/// Whether the DX10 header of a `w` by `h` block-compressed texture has sizes
/// that fit in 32 bits.
pub open spec fn dx10_fits(w: u32, h: u32) -> bool {
    &&& w + 3 <= u32::MAX
    &&& h + 3 <= u32::MAX
    &&& at_least_one((w as int + 3) / 4) * 16 <= u32::MAX
    &&& at_least_one((w as int + 3) / 4) * 16 * ((h as int + 3) / 4) <= u32::MAX
}

/// Whether the format needs the DX10 extended header.
pub open spec fn needs_dx10(f: DDSFormat) -> bool {
    f == DDSFormat::BC6H_UF16 || f == DDSFormat::BC7_UNORM
}

/// The texture header stored in `data`; `None` where it is incomplete, its
/// ratios are both zero, its format is unknown, or its sizes overflow 32 bits.
pub open spec fn parse_texture_header(data: Seq<u8>) -> Option<TextureView> {
    if !texture_header_ok(data) {
        None
    } else {
        let p = preamble_end(data)->Some_0;
        let q = texture_tail_start(data, p);
        let msl = le32(data, q + 8) as u32;
        match texture_dims(msl, le16(data, q) as u16, le16(data, q + 2) as u16) {
            None => None,
            Some((w, h)) => match dds_format_of(data[p + 7]) {
                None => None,
                Some(f) => if texture_size(w, h, f) > u32::MAX {
                    None
                } else if f == DDSFormat::Uncompressed && pitch_of(w, f) > u32::MAX {
                    None
                } else if needs_dx10(f) && !dx10_fits(w, h) {
                    None
                } else {
                    Some(
                        TextureView {
                            width: w,
                            height: h,
                            format: f,
                            f_cache_image_count: data[p + 5],
                            offsets: Seq::new(
                                le32(data, p + 8) as nat,
                                |k: int| le32(data, p + 12 + 4 * k) as u32,
                            ),
                            size: texture_size(w, h, f) as nat,
                        },
                    )
                },
            },
        }
    }
}

/// The pixel-format flags that `ddsfile::PixelFormatFlags` knows.
pub const KNOWN_PIXEL_FORMAT_FLAGS: u32 = 0x0002_0247;

/// Pixel-format flag: the pixels carry alpha.
pub const PF_ALPHA_PIXELS: u32 = 0x1;

/// Pixel-format flag: the format is given by a four-character code.
pub const PF_FOURCC: u32 = 0x4;

/// Pixel-format flag: the pixels are uncompressed RGB.
pub const PF_RGB: u32 = 0x40;

/// The resource dimension of a 2D texture in the DX10 header.
pub const DIMENSION_TEXTURE2D: u32 = 3;

/// The unknown alpha mode in the DX10 header.
pub const ALPHA_MODE_UNKNOWN: u32 = 0;

/// The DXGI format of BC6H (unsigned half floats).
pub const DXGI_BC6H_UF16: u32 = 95;

/// The DXGI format of BC7.
pub const DXGI_BC7_UNORM: u32 = 98;

/// The 124 bytes of a DDS header with these fields, in the order of the
/// format: size, flags, height, width, pitch or linear size, depth, mip count,
/// eleven reserved words, the 32-byte pixel format, then the capabilities.
pub open spec fn dds_header_layout(
    flags: u32,
    height: u32,
    width: u32,
    pitch: u32,
    pf_flags: u32,
    fourcc: u32,
    bit_count: u32,
    masks: (u32, u32, u32, u32),
    caps: u32,
) -> Seq<u8> {
    le32_bytes(124) + le32_bytes(flags as int) + le32_bytes(height as int) + le32_bytes(width as int)
        + le32_bytes(pitch as int) + le32_bytes(0) + le32_bytes(0) + Seq::new(44, |_i: int| 0u8)
        + le32_bytes(32) + le32_bytes(pf_flags as int) + le32_bytes(fourcc as int) + le32_bytes(
        bit_count as int,
    ) + le32_bytes(masks.0 as int) + le32_bytes(masks.1 as int) + le32_bytes(masks.2 as int)
        + le32_bytes(masks.3 as int) + le32_bytes(caps as int) + le32_bytes(0) + le32_bytes(0)
        + le32_bytes(0) + le32_bytes(0)
}

/// The 20 bytes of a DX10 extension header with these fields.
pub open spec fn dx10_layout(dxgi: u32, dimension: u32, misc: u32, array_size: u32, alpha_mode: u32) -> Seq<u8> {
    le32_bytes(dxgi as int) + le32_bytes(dimension as int) + le32_bytes(misc as int) + le32_bytes(
        array_size as int,
    ) + le32_bytes(alpha_mode as int)
}

/// The flags of `ddsfile::Header::default`: caps, height, width, pixel format.
pub open spec fn default_header_flags() -> u32 {
    0x1007
}

/// The capabilities of `ddsfile::Header::default`: a texture.
pub open spec fn default_caps() -> u32 {
    0x1000
}

/// The value of an optional field as `ddsfile` writes it: zero where absent.
pub open spec fn or_zero(v: Option<u32>) -> u32 {
    match v {
        Some(x) => x,
        None => 0,
    }
}

/// Relies on `ddsfile::Header` (its `Default`, with these fields set) and
/// `Header::write`, which writes the fields in order as little-endian words
/// into a `Vec`, which cannot fail; unknown pixel-format flags are dropped.
#[verifier::external_body]
fn write_header(
    width: u32,
    height: u32,
    pitch: Option<u32>,
    pf_flags: u32,
    fourcc: Option<u32>,
    bit_count: Option<u32>,
    masks: Option<(u32, u32, u32, u32)>,
) -> (r: Option<Vec<u8>>)
    ensures
        r.is_some(),
        r.unwrap()@ == dds_header_layout(
            default_header_flags(),
            height,
            width,
            or_zero(pitch),
            pf_flags & KNOWN_PIXEL_FORMAT_FLAGS,
            or_zero(fourcc),
            or_zero(bit_count),
            match masks {
                Some(m) => m,
                None => (0, 0, 0, 0),
            },
            default_caps(),
        ),
{
    let mut h = ddsfile::Header::default();
    h.width = width;
    h.height = height;
    h.pitch = pitch;
    h.spf.flags = ddsfile::PixelFormatFlags::from_bits_truncate(pf_flags);
    h.spf.fourcc = fourcc.map(ddsfile::FourCC);
    h.spf.rgb_bit_count = bit_count;
    (h.spf.r_bit_mask, h.spf.g_bit_mask) = (masks.map(|m| m.0), masks.map(|m| m.1));
    (h.spf.b_bit_mask, h.spf.a_bit_mask) = (masks.map(|m| m.2), masks.map(|m| m.3));
    let mut v = Vec::new();
    h.write(&mut v).ok().map(|_| v)
}

/// Relies on `ddsfile::Header::new_dxgi` for a BC6H or BC7 texture with no
/// depth, mips or layers, and `Header::write`. For these formats `new_dxgi`
/// sets the linear-size flag, a linear size of one 16-byte block per 4x4
/// pixels, and a pixel format of FourCC "DX10" only; `requires` keeps that
/// 32-bit arithmetic from overflowing.
#[verifier::external_body]
fn write_dxgi_header(width: u32, height: u32, dxgi: u32) -> (r: Option<Vec<u8>>)
    requires
        dxgi == DXGI_BC6H_UF16 || dxgi == DXGI_BC7_UNORM,
        dx10_fits(width, height),
    ensures
        r.is_some(),
        r.unwrap()@ == dds_header_layout(
            default_header_flags() | 0x80000,
            height,
            width,
            (at_least_one((width as int + 3) / 4) * 16 * ((height as int + 3) / 4)) as u32,
            PF_FOURCC,
            0x3031_5844,
            0,
            (0, 0, 0, 0),
            default_caps(),
        ),
{
    let format = if dxgi == 95 { ddsfile::DxgiFormat::BC6H_UF16 } else { ddsfile::DxgiFormat::BC7_UNorm };
    let header = ddsfile::Header::new_dxgi(height, width, None, format, None, None, None).ok()?;
    let mut v = Vec::new();
    header.write(&mut v).ok().map(|_| v)
}

/// Relies on `ddsfile::Header10::new` and `Header10::write`, which writes the
/// DXGI format, the resource dimension, the cube-map flag (0x4), the array
/// size and the alpha mode as little-endian words.
#[verifier::external_body]
fn write_dx10_extension(dxgi: u32, dimension: u32, is_cubemap: bool, array_size: u32, alpha_mode: u32) -> (r: Option<Vec<u8>>)
    requires
        dxgi == DXGI_BC6H_UF16 || dxgi == DXGI_BC7_UNORM,
        dimension <= 4,
        alpha_mode <= 4,
    ensures
        r.is_some(),
        r.unwrap()@ == dx10_layout(dxgi, dimension, if is_cubemap { 4 } else { 0 }, array_size, alpha_mode),
{
    let format = if dxgi == 95 { ddsfile::DxgiFormat::BC6H_UF16 } else { ddsfile::DxgiFormat::BC7_UNorm };
    let dim = match dimension { 0 => D::Unknown, 1 => D::Buffer, 2 => D::Texture1D, 3 => D::Texture2D, _ => D::Texture3D };
    let alpha = match alpha_mode { 0 => A::Unknown, 1 => A::Straight, 2 => A::PreMultiplied, 3 => A::Opaque, _ => A::Custom };
    let mut v = Vec::new();
    ddsfile::Header10::new(format, is_cubemap, dim, array_size, alpha).write(&mut v).ok().map(|_| v)
}

/// The DXGI format of a format that needs the extended header.
pub open spec fn dxgi_of(f: DDSFormat) -> u32 {
    if f == DDSFormat::BC7_UNORM {
        DXGI_BC7_UNORM
    } else {
        DXGI_BC6H_UF16
    }
}

/// The bytes that follow "DDS " in the file rebuilt from a texture header:
/// for uncompressed pixels, an RGB-with-alpha header with 32-bit pixels, the
/// masks R=0x00FF0000, G=0x0000FF00, B=0x000000FF, A=0xFF000000, and the row
/// pitch; for BC6H and BC7, a FourCC "DX10" header followed by a DX10 header
/// for a 2D texture, not a cube map, of one layer, with unknown alpha mode;
/// for the other formats, a header with the format's four-character code.
pub open spec fn dds_header_of(t: TextureView) -> Seq<u8> {
    if t.format == DDSFormat::Uncompressed {
        dds_header_layout(
            default_header_flags(),
            t.height,
            t.width,
            pitch_of(t.width, t.format) as u32,
            PF_ALPHA_PIXELS | PF_RGB,
            0,
            32,
            (0x00FF_0000, 0x0000_FF00, 0x0000_00FF, 0xFF00_0000),
            default_caps(),
        )
    } else if needs_dx10(t.format) {
        dds_header_layout(
            default_header_flags() | 0x80000,
            t.height,
            t.width,
            (at_least_one((t.width as int + 3) / 4) * 16 * ((t.height as int + 3) / 4)) as u32,
            PF_FOURCC,
            0x3031_5844,
            0,
            (0, 0, 0, 0),
            default_caps(),
        ) + dx10_layout(dxgi_of(t.format), DIMENSION_TEXTURE2D, 0, 1, ALPHA_MODE_UNKNOWN)
    } else {
        dds_header_layout(
            default_header_flags(),
            t.height,
            t.width,
            0,
            PF_FOURCC,
            fourcc_of(t.format)->Some_0,
            0,
            (0, 0, 0, 0),
            default_caps(),
        )
    }
}

/// "DDS ".
pub open spec fn dds_magic() -> Seq<u8> {
    seq![0x44u8, 0x44, 0x53, 0x20]
}

} // verus!

verus! {

/// A parsed texture header: the sizes and format of the image, and where its
/// pixels lie in the F cache.
pub struct TextureHeader {
    width: u32,
    height: u32,
    dds_format: DDSFormat,
    f_cache_image_count: u8,
    f_cache_image_offsets: Vec<u32>,
    size: usize,
}

impl View for TextureHeader {
    type V = TextureView;

    closed spec fn view(&self) -> TextureView {
        TextureView {
            width: self.width,
            height: self.height,
            format: self.dds_format,
            f_cache_image_count: self.f_cache_image_count,
            offsets: self.f_cache_image_offsets@,
            size: self.size as nat,
        }
    }
}

fn dims(msl: u32, wr: u16, hr: u16) -> (r: Option<(u32, u32)>)
    ensures
        r == texture_dims(msl, wr, hr),
{
    proof {
        assert((msl as int) * (hr as int) <= 0xFFFF_FFFF * 0xFFFF) by (nonlinear_arith)
            requires
                msl <= 0xFFFF_FFFF,
                hr <= 0xFFFF,
        ;
        assert((msl as int) * (wr as int) <= 0xFFFF_FFFF * 0xFFFF) by (nonlinear_arith)
            requires
                msl <= 0xFFFF_FFFF,
                wr <= 0xFFFF,
        ;
    }
    if wr > hr {
        Some((msl, ((msl as u64 * hr as u64) / wr as u64) as u32))
    } else if hr == 0 {
        None
    } else {
        Some((((msl as u64 * wr as u64) / hr as u64) as u32, msl))
    }
}

fn size_of(w: u32, h: u32, f: DDSFormat) -> (r: u128)
    ensures
        r == texture_size(w, h, f),
{
    let a: u128 = if w / 4 < 1 {
        1
    } else {
        (w / 4) as u128
    };
    let b: u128 = if h / 4 < 1 {
        1
    } else {
        (h / 4) as u128
    };
    let bpp = f.bits_per_pixel() as u128;
    proof {
        assert(a * b <= 0x4000_0000 * 0x4000_0000) by (nonlinear_arith)
            requires
                a <= 0x4000_0000,
                b <= 0x4000_0000,
        ;
        assert(a * b * bpp <= 0x4000_0000 * 0x4000_0000 * 64) by (nonlinear_arith)
            requires
                a * b <= 0x4000_0000 * 0x4000_0000,
                bpp <= 64,
        ;
    }
    a * b * bpp
}

fn fits_dx10(w: u32, h: u32) -> (r: bool)
    ensures
        r == dx10_fits(w, h),
{
    if w > u32::MAX - 3 || h > u32::MAX - 3 {
        return false;
    }
    let a: u128 = if (w + 3) / 4 < 1 {
        1
    } else {
        ((w + 3) / 4) as u128
    };
    let b: u128 = ((h + 3) / 4) as u128;
    proof {
        assert(a * 16 * b <= 0x4000_0000 * 16 * 0x4000_0000) by (nonlinear_arith)
            requires
                a <= 0x4000_0000,
                b <= 0x4000_0000,
        ;
    }
    a * 16 <= u32::MAX as u128 && a * 16 * b <= u32::MAX as u128
}

impl TextureHeader {
    /// The number of bytes of the top image.
    pub fn size(&self) -> (r: usize)
        ensures
            r == self@.size,
    {
        self.size
    }

    /// The width in pixels.
    pub fn width(&self) -> (r: u32)
        ensures
            r == self@.width,
    {
        self.width
    }

    /// The height in pixels.
    pub fn height(&self) -> (r: u32)
        ensures
            r == self@.height,
    {
        self.height
    }

    /// The pixel format.
    pub fn dds_format(&self) -> (r: DDSFormat)
        ensures
            r == self@.format,
    {
        self.dds_format
    }

    /// How many images of the texture the F cache holds.
    pub fn f_cache_image_count(&self) -> (r: u8)
        ensures
            r == self@.f_cache_image_count,
    {
        self.f_cache_image_count
    }

    /// The nominal offsets of the mip levels in the F cache's stream.
    pub fn f_cache_image_offsets(&self) -> (r: &Vec<u32>)
        ensures
            r@ == self@.offsets,
    {
        &self.f_cache_image_offsets
    }

    /// Reads a texture header.
    pub fn try_from_bytes(data: &[u8]) -> (r: Result<TextureHeader, LotusError>)
        ensures
            r is Ok <==> parse_texture_header(data@) is Some,
            r matches Ok(t) ==> parse_texture_header(data@) == Some(t@),
            r matches Err(e) ==> e == LotusError::BadFormat,
    {
        let raw = RawTextureHeader::try_from_bytes(data)?;
        let (w, h) = match dims(raw.max_side_length, raw.width_ratio, raw.height_ratio) {
            Some(d) => d,
            None => {
                return Err(LotusError::BadFormat);
            },
        };
        let f = DDSFormat::try_from_u8(raw.dds_format)?;
        let size = size_of(w, h, f);
        if size > u32::MAX as u128 {
            return Err(LotusError::BadFormat);
        }
        if f == DDSFormat::Uncompressed && (w as u64 * 64) / 8 > u32::MAX as u64 {
            return Err(LotusError::BadFormat);
        }
        if (f == DDSFormat::BC6H_UF16 || f == DDSFormat::BC7_UNORM) && !fits_dx10(w, h) {
            return Err(LotusError::BadFormat);
        }
        let t = TextureHeader {
            width: w,
            height: h,
            dds_format: f,
            f_cache_image_count: raw.f_cache_image_count,
            f_cache_image_offsets: raw.f_cache_image_offsets,
            size: size as usize,
        };
        proof {
            let p = preamble_end(data@)->Some_0;
            assert(t@.offsets =~= Seq::new(
                le32(data@, p + 8) as nat,
                |k: int| le32(data@, p + 12 + 4 * k) as u32,
            ));
        }
        Ok(t)
    }

    /// "DDS " and the DDS header (with its DX10 extension where the format
    /// needs one) of the file rebuilt from this texture.
    pub fn dds_header(&self) -> (r: Result<Vec<u8>, LotusError>)
        ensures
            r is Ok <==> (needs_dx10(self@.format) ==> dx10_fits(self@.width, self@.height)) && (
            self@.format == DDSFormat::Uncompressed ==> pitch_of(self@.width, self@.format)
                <= u32::MAX),
            r matches Ok(v) ==> v@ == dds_magic() + dds_header_of(self@),
            r matches Err(e) ==> e == LotusError::BadFormat,
    {
        let mut out: Vec<u8> = vec![0x44, 0x44, 0x53, 0x20];
        let header = if self.dds_format == DDSFormat::Uncompressed {
            if (self.width as u64 * 64) / 8 > u32::MAX as u64 {
                return Err(LotusError::BadFormat);
            }
            let pitch = ((self.width as u64 * 64) / 8) as u32;
            let masks = (0x00FF_0000u32, 0x0000_FF00u32, 0x0000_00FFu32, 0xFF00_0000u32);
            let flags: u32 = 0x41;
            proof {
                assert((PF_ALPHA_PIXELS | PF_RGB) == 0x41u32) by (bit_vector);
                assert(flags & KNOWN_PIXEL_FORMAT_FLAGS == flags) by (bit_vector)
                    requires
                        flags == 0x41u32,
                ;
            }
            write_header(self.width, self.height, Some(pitch), flags, None, Some(32), Some(masks))
        } else if self.dds_format == DDSFormat::BC6H_UF16 || self.dds_format == DDSFormat::BC7_UNORM {
            if !fits_dx10(self.width, self.height) {
                return Err(LotusError::BadFormat);
            }
            let dxgi = if self.dds_format == DDSFormat::BC7_UNORM {
                DXGI_BC7_UNORM
            } else {
                DXGI_BC6H_UF16
            };
            let head = write_dxgi_header(self.width, self.height, dxgi);
            let ext = write_dx10_extension(dxgi, DIMENSION_TEXTURE2D, false, 1, ALPHA_MODE_UNKNOWN);
            match (head, ext) {
                (Some(mut h), Some(e)) => {
                    push_all(&mut h, e.as_slice());
                    Some(h)
                },
                _ => None,
            }
        } else {
            let code = self.dds_format.fourcc()?;
            proof {
                assert(PF_FOURCC & KNOWN_PIXEL_FORMAT_FLAGS == PF_FOURCC) by (bit_vector);
            }
            write_header(self.width, self.height, None, PF_FOURCC, Some(code), None, None)
        };
        match header {
            Some(h) => {
                push_all(&mut out, h.as_slice());
                proof {
                    assert(out@ =~= dds_magic() + dds_header_of(self@));
                }
                Ok(out)
            },
            None => Err(LotusError::BadFormat),
        }
    }
}

} // verus!
