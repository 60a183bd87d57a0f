use vstd::prelude::*;

use crate::bytes::{le32_bytes, le64_bytes, push_all, push_le32, push_le64};
use crate::error::LotusError;

verus! {

/// The generator polynomial of the Ogg CRC-32.
pub const CRC_POLYNOMIAL: u32 = 0x04C1_1DB7;

/// One bit of the Ogg CRC-32: shift left, folding in the polynomial when the
/// top bit falls out.
pub open spec fn crc_shift_spec(c: u32) -> u32 {
    if c & 0x8000_0000 != 0 {
        (c << 1u32) ^ CRC_POLYNOMIAL
    } else {
        c << 1u32
    }
}

/// The Ogg CRC-32 register after taking in byte `b` (most significant bit
/// first, no reflection).
pub open spec fn crc_byte_spec(c: u32, b: u8) -> u32 {
    let x = c ^ ((b as u32) << 24u32);
    crc_shift_spec(
        crc_shift_spec(
            crc_shift_spec(
                crc_shift_spec(crc_shift_spec(crc_shift_spec(crc_shift_spec(crc_shift_spec(x))))),
            ),
        ),
    )
}

/// The Ogg CRC-32 register after taking in the bytes of `s`, starting from `c`.
pub open spec fn crc_from(c: u32, s: Seq<u8>) -> u32
    decreases s.len(),
{
    if s.len() == 0 {
        c
    } else {
        crc_from(crc_byte_spec(c, s[0]), s.skip(1))
    }
}

/// The Ogg CRC-32 of `s`: initial value 0, no final XOR.
pub open spec fn ogg_crc(s: Seq<u8>) -> u32 {
    crc_from(0, s)
}

fn crc_shift(c: u32) -> (r: u32)
    ensures
        r == crc_shift_spec(c),
{
    if c & 0x8000_0000 != 0 {
        (c << 1u32) ^ CRC_POLYNOMIAL
    } else {
        c << 1u32
    }
}

fn crc_byte(c: u32, b: u8) -> (r: u32)
    ensures
        r == crc_byte_spec(c, b),
{
    let x = c ^ ((b as u32) << 24u32);
    crc_shift(crc_shift(crc_shift(crc_shift(crc_shift(crc_shift(crc_shift(crc_shift(x))))))))
}

/// The Ogg CRC-32 of `s`.
pub fn crc32(s: &[u8]) -> (r: u32)
    ensures
        r == ogg_crc(s@),
{
    let mut c: u32 = 0;
    let mut i: usize = 0;
    proof {
        assert(s@.skip(0) =~= s@);
    }
    while i < s.len()
        invariant
            i <= s@.len(),
            ogg_crc(s@) == crc_from(c, s@.skip(i as int)),
        decreases s@.len() - i,
    {
        proof {
            let t = s@.skip(i as int);
            assert(t[0] == s@[i as int]);
            assert(t.skip(1) =~= s@.skip(i + 1));
        }
        c = crc_byte(c, s[i]);
        i += 1;
    }
    c
}

/// The size of the lacing segments for a largest segment of `max`: `max`
/// itself where it fits a lacing value, else 255.
pub open spec fn lacing_unit(max: int) -> int {
    if 0 < max <= 255 {
        max
    } else {
        255
    }
}

/// The lacing of a packet of `len` bytes in segments of `unit` bytes: full
/// segments, then the rest (which may be zero).
pub open spec fn lacing(len: nat, unit: nat) -> Seq<u8> {
    Seq::new(len / unit, |_i: int| unit as u8).push((len % unit) as u8)
}

/// The segment table of a packet of `len` bytes, with segments of at most
/// `max_segment` bytes (at most 255).
pub fn get_segment_table(len: usize, max_segment: usize) -> (r: Vec<u8>)
    ensures
        r@ == lacing(len as nat, lacing_unit(max_segment as int) as nat),
{
    let unit: usize = if 0 < max_segment && max_segment <= 255 {
        max_segment
    } else {
        255
    };
    let full = len / unit;
    let mut r: Vec<u8> = Vec::new();
    let mut i: usize = 0;
    while i < full
        invariant
            i <= full,
            0 < unit <= 255,
            r@ =~= Seq::new(i as nat, |_j: int| unit as u8),
        decreases full - i,
    {
        r.push(unit as u8);
        i += 1;
    }
    r.push((len % unit) as u8);
    proof {
        assert(r@ =~= lacing(len as nat, unit as nat));
    }
    r
}

/// "OggS".
pub open spec fn capture_pattern() -> Seq<u8> {
    seq![0x4Fu8, 0x67, 0x67, 0x53]
}

/// An Ogg page with its CRC field zeroed.
pub open spec fn page_zeroed(
    header_type: u8,
    granule: u64,
    serial: u32,
    sequence: u32,
    table: Seq<u8>,
    body: Seq<u8>,
) -> Seq<u8> {
    capture_pattern() + seq![0u8, header_type] + le64_bytes(granule as int) + le32_bytes(
        serial as int,
    ) + le32_bytes(sequence as int) + le32_bytes(0) + seq![table.len() as u8] + table + body
}

/// An Ogg page: the zeroed page with the CRC of it stored at bytes 22..26.
pub open spec fn ogg_page(
    header_type: u8,
    granule: u64,
    serial: u32,
    sequence: u32,
    table: Seq<u8>,
    body: Seq<u8>,
) -> Seq<u8> {
    let z = page_zeroed(header_type, granule, serial, sequence, table, body);
    z.take(22) + le32_bytes(ogg_crc(z) as int) + z.skip(26)
}

/// Every page carries the CRC of itself with its CRC field zeroed.
pub proof fn lemma_page_crc(
    header_type: u8,
    granule: u64,
    serial: u32,
    sequence: u32,
    table: Seq<u8>,
    body: Seq<u8>,
)
    ensures
        ({
            let p = ogg_page(header_type, granule, serial, sequence, table, body);
            let zeroed = p.take(22) + le32_bytes(0) + p.skip(26);
            &&& p.len() == 27 + table.len() + body.len()
            &&& p.subrange(22, 26) == le32_bytes(ogg_crc(zeroed) as int)
        }),
{
    let z = page_zeroed(header_type, granule, serial, sequence, table, body);
    let p = ogg_page(header_type, granule, serial, sequence, table, body);
    assert(z.len() == 27 + table.len() + body.len());
    assert(z.subrange(22, 26) =~= le32_bytes(0));
    assert(p.take(22) + le32_bytes(0) + p.skip(26) =~= z);
    assert(p.subrange(22, 26) =~= le32_bytes(ogg_crc(z) as int));
}

/// An Ogg page around `body` with its CRC field zeroed.
#[verifier::rlimit(40)]
fn zeroed_page_bytes(
    header_type: u8,
    granule: u64,
    serial: u32,
    sequence: u32,
    table: &[u8],
    body: &[u8],
) -> (r: Vec<u8>)
    requires
        table@.len() <= 255,
    ensures
        r@ == page_zeroed(header_type, granule, serial, sequence, table@, body@),
{
    let mut z: Vec<u8> = Vec::new();
    z.push(0x4F);
    z.push(0x67);
    z.push(0x67);
    z.push(0x53);
    z.push(0);
    z.push(header_type);
    let ghost head = z@;
    push_le64(&mut z, granule);
    push_le32(&mut z, serial);
    push_le32(&mut z, sequence);
    push_le32(&mut z, 0);
    z.push(table.len() as u8);
    let ghost fixed = z@;
    push_all(&mut z, table);
    push_all(&mut z, body);
    proof {
        assert(head =~= capture_pattern() + seq![0u8, header_type]);
        assert(fixed =~= capture_pattern() + seq![0u8, header_type] + le64_bytes(granule as int)
            + le32_bytes(serial as int) + le32_bytes(sequence as int) + le32_bytes(0) + seq![
            table@.len() as u8,
        ]);
        assert(z@ =~= page_zeroed(header_type, granule, serial, sequence, table@, body@));
    }
    z
}

/// Builds an Ogg page around `body`, whose lacing is `table`; an error where
/// the table has more than 255 entries.
pub fn ogg_page_bytes(
    header_type: u8,
    granule: u64,
    serial: u32,
    sequence: u32,
    table: &[u8],
    body: &[u8],
) -> (r: Result<Vec<u8>, LotusError>)
    ensures
        r is Ok <==> table@.len() <= 255,
        r matches Ok(v) ==> v@ == ogg_page(header_type, granule, serial, sequence, table@, body@),
        r matches Err(e) ==> e == LotusError::BadFormat,
{
    if table.len() > 255 {
        return Err(LotusError::BadFormat);
    }
    let z = zeroed_page_bytes(header_type, granule, serial, sequence, table, body);
    let crc = crc32(z.as_slice());
    let mut page: Vec<u8> = Vec::new();
    push_all(&mut page, &z.as_slice()[0..22]);
    push_le32(&mut page, crc);
    push_all(&mut page, &z.as_slice()[26..z.len()]);
    proof {
        assert(z@.subrange(0, 22) =~= z@.take(22));
        assert(z@.subrange(26, z@.len() as int) =~= z@.skip(26));
        assert(page@ =~= ogg_page(header_type, granule, serial, sequence, table@, body@));
    }
    Ok(page)
}

} // verus!
