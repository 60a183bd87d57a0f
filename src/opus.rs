use vstd::prelude::*;

use crate::audio::AudioHeader;
use crate::bytes::{le16_bytes, le32_bytes, push_all, push_le16, push_le32};
use crate::error::LotusError;
use crate::ogg::{
    get_segment_table, lacing, lacing_unit, lemma_page_crc, ogg_crc, ogg_page, ogg_page_bytes,
};

verus! {

/// The samples that an Opus decoder drops at the start of the stream.
pub const PRE_SKIP: u16 = 312;

/// The number of Opus blocks that one data page carries.
pub const BLOCKS_PER_PAGE: usize = 50;

/// The body of the OpusHead packet: version 1, the channel count, the
/// pre-skip, the input sample rate, no output gain, channel mapping family 0.
pub open spec fn opus_head(channels: u8, sample_rate: u32) -> Seq<u8> {
    seq![0x4Fu8, 0x70, 0x75, 0x73, 0x48, 0x65, 0x61, 0x64, 1u8, channels] + le16_bytes(
        PRE_SKIP as int,
    ) + le32_bytes(sample_rate as int) + le16_bytes(0) + seq![0u8]
}

/// "Warframe", the vendor of the stream.
pub open spec fn vendor() -> Seq<u8> {
    seq![0x57u8, 0x61, 0x72, 0x66, 0x72, 0x61, 0x6D, 0x65]
}

/// "ARTIST=Warframe", the one comment of the stream.
pub open spec fn artist_comment() -> Seq<u8> {
    seq![0x41u8, 0x52, 0x54, 0x49, 0x53, 0x54, 0x3D] + vendor()
}

/// The body of the OpusTags packet: the vendor and one comment, each after
/// its length.
pub open spec fn opus_tags() -> Seq<u8> {
    seq![0x4Fu8, 0x70, 0x75, 0x73, 0x54, 0x61, 0x67, 0x73] + le32_bytes(8) + vendor() + le32_bytes(
        1,
    ) + le32_bytes(15) + artist_comment()
}

/// The two header pages of an Opus stream for `h`: OpusHead on a page that
/// begins the stream, then OpusTags.
pub open spec fn opus_header_pages(h: AudioHeader) -> Seq<u8> {
    let head = opus_head(h.channels, h.samples_per_second);
    let tags = opus_tags();
    ogg_page(0x02, 0, h.stream_serial_number, 0, lacing(head.len(), 255), head) + ogg_page(
        0x00,
        0,
        h.stream_serial_number,
        1,
        lacing(tags.len(), 255),
        tags,
    )
}

/// The number of payload bytes on each data page but the last.
pub open spec fn chunk_size(h: AudioHeader) -> int {
    h.block_align * BLOCKS_PER_PAGE
}

/// Data page `k` of the Opus stream for `h` and `payload`: the `k`-th chunk of
/// the payload, the last one (possibly empty) ending the stream. Granule
/// positions count one second per page from one second on.
#[verifier::opaque]
pub open spec fn opus_data_page(h: AudioHeader, payload: Seq<u8>, k: int) -> Seq<u8> {
    let c = chunk_size(h);
    let n = payload.len() as int;
    let end = if (k + 1) * c < n {
        (k + 1) * c
    } else {
        n
    };
    let chunk = payload.subrange(k * c, end);
    ogg_page(
        if k == n / c {
            0x04u8
        } else {
            0x00u8
        },
        ((h.samples_per_second * (k + 1)) % 0x1_0000_0000_0000_0000) as u64,
        h.stream_serial_number,
        ((k + 2) % 0x1_0000_0000) as u32,
        lacing(chunk.len(), lacing_unit(h.block_align as int) as nat),
        chunk,
    )
}

/// The lacing of data page `k` has no more than 255 entries.
#[verifier::opaque]
pub open spec fn data_page_fits(h: AudioHeader, payload: Seq<u8>, k: int) -> bool {
    let c = chunk_size(h);
    let n = payload.len() as int;
    let len = if (k + 1) * c < n {
        c
    } else {
        n - k * c
    };
    lacing(len as nat, lacing_unit(h.block_align as int) as nat).len() <= 255
}

/// The data pages of the Opus stream from page `k` on.
pub open spec fn opus_pages_from(h: AudioHeader, payload: Seq<u8>, k: int) -> Result<
    Seq<u8>,
    LotusError,
>
    decreases payload.len() + 1 - k,
{
    let c = chunk_size(h);
    if c <= 0 {
        Err(LotusError::BadFormat)
    } else if k < 0 || k > (payload.len() as int) / c {
        Ok(seq![])
    } else if !data_page_fits(h, payload, k) {
        Err(LotusError::BadFormat)
    } else {
        match opus_pages_from(h, payload, k + 1) {
            Ok(rest) => Ok(opus_data_page(h, payload, k) + rest),
            Err(e) => Err(e),
        }
    }
}

/// The whole Opus stream for `h` and `payload`.
pub open spec fn opus_stream(h: AudioHeader, payload: Seq<u8>) -> Result<Seq<u8>, LotusError> {
    match opus_pages_from(h, payload, 0) {
        Ok(pages) => Ok(opus_header_pages(h) + pages),
        Err(e) => Err(e),
    }
}

fn opus_head_bytes(channels: u8, sample_rate: u32) -> (r: Vec<u8>)
    ensures
        r@ == opus_head(channels, sample_rate),
{
    let mut v: Vec<u8> = vec![0x4F, 0x70, 0x75, 0x73, 0x48, 0x65, 0x61, 0x64, 1, channels];
    push_le16(&mut v, PRE_SKIP);
    push_le32(&mut v, sample_rate);
    push_le16(&mut v, 0);
    v.push(0);
    proof {
        assert(v@ =~= opus_head(channels, sample_rate));
    }
    v
}

fn opus_tags_bytes() -> (r: Vec<u8>)
    ensures
        r@ == opus_tags(),
{
    let vendor_name: Vec<u8> = vec![0x57, 0x61, 0x72, 0x66, 0x72, 0x61, 0x6D, 0x65];
    let mut v: Vec<u8> = vec![0x4F, 0x70, 0x75, 0x73, 0x54, 0x61, 0x67, 0x73];
    push_le32(&mut v, 8);
    push_all(&mut v, vendor_name.as_slice());
    push_le32(&mut v, 1);
    push_le32(&mut v, 15);
    let key: Vec<u8> = vec![0x41, 0x52, 0x54, 0x49, 0x53, 0x54, 0x3D];
    push_all(&mut v, key.as_slice());
    push_all(&mut v, vendor_name.as_slice());
    proof {
        assert(v@ =~= opus_tags());
    }
    v
}

impl AudioHeader {
    /// The two header pages of the Opus stream for this audio.
    pub fn to_opus(self) -> (r: Result<Vec<u8>, LotusError>)
        ensures
            r matches Ok(v) ==> v@ == opus_header_pages(self),
            r is Ok,
    {
        let head = opus_head_bytes(self.channels, self.samples_per_second);
        let table = get_segment_table(head.len(), 255);
        proof {
            assert(lacing_unit(255) == 255);
            assert(head@.len() == 19);
            assert(19nat / 255nat == 0);
            assert(lacing(19, 255).len() == 1);
        }
        let mut data = ogg_page_bytes(0x02, 0, self.stream_serial_number, 0, table.as_slice(), head.as_slice())?;
        let tags = opus_tags_bytes();
        let table = get_segment_table(tags.len(), 255);
        proof {
            assert(tags@.len() == 43);
            assert(43nat / 255nat == 0);
            assert(lacing(43, 255).len() == 1);
        }
        let tags_page = ogg_page_bytes(0x00, 0, self.stream_serial_number, 1, table.as_slice(), tags.as_slice())?;
        push_all(&mut data, tags_page.as_slice());
        Ok(data)
    }
}

} // verus!

verus! {

/// Data page `k` of the Opus stream for `h` and `payload`.
#[verifier::rlimit(40)]
fn data_page(h: &AudioHeader, payload: &[u8], k: usize, c: usize) -> (r: Result<Vec<u8>, LotusError>)
    requires
        c == chunk_size(*h),
        c > 0,
        k <= (payload@.len() as int) / (c as int),
    ensures
        r is Ok <==> data_page_fits(*h, payload@, k as int),
        r matches Ok(v) ==> v@ == opus_data_page(*h, payload@, k as int),
        r matches Err(e) ==> e == LotusError::BadFormat,
{
    let n = payload.len();
    let last = n / c;
    proof {
        vstd::arithmetic::div_mod::lemma_fundamental_div_mod(n as int, c as int);
        assert(k * c <= last * c) by (nonlinear_arith)
            requires
                k <= last,
                c > 0,
        ;
        assert((k + 1) * c == k * c + c) by (nonlinear_arith);
        assert(k * c <= n) by (nonlinear_arith)
            requires
                k <= last,
                c > 0,
                n as int == c * last + (n as int) % (c as int),
                (n as int) % (c as int) >= 0,
        ;
        reveal(opus_data_page);
        reveal(data_page_fits);
    }
    let start: usize = k * c;
    let end: usize = if n - start > c {
        start + c
    } else {
        n
    };
    let chunk = &payload[start..end];
    let table = get_segment_table(end - start, h.block_align as usize);
    let header_type: u8 = if k == last {
        0x04
    } else {
        0x00
    };
    proof {
        assert(h.samples_per_second * (k + 1) <= 0xFFFF_FFFFu128 * 0x1_0000_0000_0000_0000u128)
            by (nonlinear_arith)
            requires
                h.samples_per_second <= 0xFFFF_FFFF,
                k + 1 <= 0x1_0000_0000_0000_0000,
        ;
    }
    let granule: u64 = ((h.samples_per_second as u128 * (k as u128 + 1)) % 0x1_0000_0000_0000_0000u128) as u64;
    let sequence: u32 = ((k as u128 + 2) % 0x1_0000_0000) as u32;
    proof {
        assert(chunk@ == payload@.subrange(k * c, end as int));
    }
    ogg_page_bytes(header_type, granule, h.stream_serial_number, sequence, table.as_slice(), chunk)
}

/// The data pages of the Opus stream for `h` and `payload`: the payload cut
/// into chunks of `block_align * 50` bytes, one page each, the last chunk
/// (possibly empty) ending the stream.
pub fn opus_data_pages(h: &AudioHeader, payload: &[u8]) -> (r: Result<Vec<u8>, LotusError>)
    ensures
        r matches Ok(v) ==> opus_pages_from(*h, payload@, 0) == Ok::<Seq<u8>, LotusError>(v@),
        r matches Err(e) ==> opus_pages_from(*h, payload@, 0) == Err::<Seq<u8>, LotusError>(e),
{
    let c: usize = h.block_align as usize * BLOCKS_PER_PAGE;
    if c == 0 {
        return Err(LotusError::BadFormat);
    }
    let n = payload.len();
    let last = n / c;
    let mut out: Vec<u8> = Vec::new();
    let mut k: usize = 0;
    proof {
        vstd::arithmetic::div_mod::lemma_fundamental_div_mod(n as int, c as int);
        assert(last * 2 <= n) by (nonlinear_arith)
            requires
                c >= 2,
                n as int == c * last + (n as int) % (c as int),
                (n as int) % (c as int) >= 0,
                last >= 0,
        ;
        assert(out@ + Seq::<u8>::empty() =~= out@);
    }
    while k <= last
        invariant
            c == chunk_size(*h),
            c > 0,
            n == payload@.len(),
            last == n / c,
            last < usize::MAX,
            k <= last + 1,
            opus_pages_from(*h, payload@, 0) == match opus_pages_from(*h, payload@, k as int) {
                Ok(rest) => Ok::<Seq<u8>, LotusError>(out@ + rest),
                Err(e) => Err(e),
            },
        decreases last + 1 - k,
    {
        let ghost before = out@;
        let page = match data_page(h, payload, k, c) {
            Ok(p) => p,
            Err(e) => {
                return Err(e);
            },
        };
        push_all(&mut out, page.as_slice());
        proof {
            match opus_pages_from(*h, payload@, k + 1) {
                Ok(rest) => {
                    assert(before + (page@ + rest) =~= out@ + rest);
                },
                Err(_) => {},
            }
        }
        k += 1;
    }
    proof {
        assert(out@ + Seq::<u8>::empty() =~= out@);
    }
    Ok(out)
}

} // verus!

verus! {

/// Pages laid one after another.
pub open spec fn concat_pages(pages: Seq<Seq<u8>>) -> Seq<u8>
    decreases pages.len(),
{
    if pages.len() == 0 {
        seq![]
    } else {
        pages[0] + concat_pages(pages.skip(1))
    }
}

/// The data pages of the Opus stream from page `k` on, one by one.
pub open spec fn data_page_list(h: AudioHeader, payload: Seq<u8>, k: int) -> Seq<Seq<u8>>
    decreases payload.len() + 1 - k,
{
    let c = chunk_size(h);
    if c <= 0 || k < 0 || k > (payload.len() as int) / c {
        seq![]
    } else {
        seq![opus_data_page(h, payload, k)] + data_page_list(h, payload, k + 1)
    }
}

/// All pages of the Opus stream for `h` and `payload`, one by one.
pub open spec fn opus_page_list(h: AudioHeader, payload: Seq<u8>) -> Seq<Seq<u8>> {
    let head = opus_head(h.channels, h.samples_per_second);
    let tags = opus_tags();
    seq![
        ogg_page(0x02, 0, h.stream_serial_number, 0, lacing(head.len(), 255), head),
        ogg_page(0x00, 0, h.stream_serial_number, 1, lacing(tags.len(), 255), tags),
    ] + data_page_list(h, payload, 0)
}

/// The page stores, at bytes 22..26, the CRC of itself with those bytes zeroed.
pub open spec fn page_crc_ok(p: Seq<u8>) -> bool {
    p.len() >= 27 && p.subrange(22, 26) == le32_bytes(
        ogg_crc(p.take(22) + le32_bytes(0) + p.skip(26)) as int,
    )
}

proof fn lemma_data_pages(h: AudioHeader, payload: Seq<u8>, k: int)
    requires
        opus_pages_from(h, payload, k) is Ok,
    ensures
        opus_pages_from(h, payload, k)->Ok_0 == concat_pages(data_page_list(h, payload, k)),
        forall|i: int|
            0 <= i < data_page_list(h, payload, k).len() ==> page_crc_ok(
                #[trigger] data_page_list(h, payload, k)[i],
            ),
    decreases payload.len() + 1 - k,
{
    let c = chunk_size(h);
    if !(c <= 0 || k < 0 || k > (payload.len() as int) / c) {
        lemma_data_pages(h, payload, k + 1);
        let l = data_page_list(h, payload, k);
        let rest = data_page_list(h, payload, k + 1);
        assert(l.skip(1) =~= rest);
        reveal(opus_data_page);
        let n = payload.len() as int;
        let end = if (k + 1) * c < n {
            (k + 1) * c
        } else {
            n
        };
        let chunk = payload.subrange(k * c, end);
        lemma_page_crc(
            if k == n / c {
                0x04u8
            } else {
                0x00u8
            },
            ((h.samples_per_second * (k + 1)) % 0x1_0000_0000_0000_0000) as u64,
            h.stream_serial_number,
            ((k + 2) % 0x1_0000_0000) as u32,
            lacing(chunk.len(), lacing_unit(h.block_align as int) as nat),
            chunk,
        );
        assert forall|i: int| 0 <= i < l.len() implies page_crc_ok(#[trigger] l[i]) by {
            if i > 0 {
                assert(l[i] == rest[i - 1]);
            }
        }
    }
}

/// Every Ogg/Opus stream that the library emits is its pages one after
/// another, and every page carries the CRC of itself with its CRC field zeroed.
pub proof fn lemma_opus_stream_crc(h: AudioHeader, payload: Seq<u8>)
    requires
        opus_stream(h, payload) is Ok,
    ensures
        opus_stream(h, payload)->Ok_0 == concat_pages(opus_page_list(h, payload)),
        forall|i: int|
            0 <= i < opus_page_list(h, payload).len() ==> page_crc_ok(
                #[trigger] opus_page_list(h, payload)[i],
            ),
{
    lemma_data_pages(h, payload, 0);
    let head = opus_head(h.channels, h.samples_per_second);
    let tags = opus_tags();
    let p0 = ogg_page(0x02, 0, h.stream_serial_number, 0, lacing(head.len(), 255), head);
    let p1 = ogg_page(0x00, 0, h.stream_serial_number, 1, lacing(tags.len(), 255), tags);
    lemma_page_crc(0x02, 0, h.stream_serial_number, 0, lacing(head.len(), 255), head);
    lemma_page_crc(0x00, 0, h.stream_serial_number, 1, lacing(tags.len(), 255), tags);
    let all = opus_page_list(h, payload);
    let data = data_page_list(h, payload, 0);
    assert(all.skip(1) =~= seq![p1] + data);
    assert(all.skip(1).skip(1) =~= data);
    assert(concat_pages(all) == p0 + concat_pages(all.skip(1)));
    assert(concat_pages(all.skip(1)) == p1 + concat_pages(data));
    assert(opus_header_pages(h) + concat_pages(data) =~= p0 + (p1 + concat_pages(data)));
    assert forall|i: int| 0 <= i < all.len() implies page_crc_ok(#[trigger] all[i]) by {
        if i >= 2 {
            assert(all[i] == data[i - 2]);
        }
    }
}

} // verus!
