use vstd::prelude::*;

use crate::bytes::{be32, be_u32, copy_bytes, push_all};
use crate::error::LotusError;

verus! {

/// The largest compressed length that one block may declare.
pub const MAX_BLOCK_LEN: usize = 0x40000;

/// How the bytes of one block are turned into output.
#[derive(Clone, Copy, Debug, PartialEq, Eq, Structural)]
pub enum BlockKind {
    /// The block is stored as it is.
    Raw,
    /// The block is an LZ4 frame whose first four bytes give the decoded size.
    Lz4,
    /// The block is Oodle Kraken data; its first byte is 0x8C.
    Oodle,
}

/// One block of a framed stream: where its compressed bytes lie in the
/// stream and where its output goes.
#[derive(Clone, Copy, Debug, PartialEq, Eq, Structural)]
pub struct Block {
    pub kind: BlockKind,
    /// Offset of the compressed bytes in the stream (after any block header).
    pub src: usize,
    /// Number of compressed bytes.
    pub src_len: usize,
    /// Offset of the output in the decompressed entry.
    pub dst: usize,
    /// Number of output bytes.
    pub dst_len: usize,
}

/// Whether the eight bytes at `at` form a block header.
pub open spec fn is_block_header(b: Seq<u8>, at: int) -> bool {
    &&& 0 <= at
    &&& at + 8 <= b.len()
    &&& b[at] == 0x80
    &&& b[at + 7] % 16 == 1
}

/// The compressed length that the block header at `at` declares.
pub open spec fn header_comp_len(b: Seq<u8>, at: int) -> int {
    (be32(b, at) / 4) % 0x100_0000
}

/// The decompressed length that the block header at `at` declares.
pub open spec fn header_decomp_len(b: Seq<u8>, at: int) -> int {
    (be32(b, at + 4) / 32) % 0x100_0000
}

/// Whether the block starting at `at` is Oodle data.
pub open spec fn oodle_marker(b: Seq<u8>, at: int) -> bool {
    0 <= at < b.len() && b[at] == 0x8C
}

/// The next block of a framed stream at stream offset `pos`, once `out` bytes
/// of output have been accounted for. An entry of `comp_len` compressed and
/// `len` decompressed bytes that has no block header is one block.
pub open spec fn next_block(data: Seq<u8>, comp_len: nat, len: nat, pos: nat, out: nat) -> Result<
    Block,
    LotusError,
> {
    let has = is_block_header(data, pos as int);
    let c: int = if has { header_comp_len(data, pos as int) } else { comp_len as int };
    let d: int = if has { header_decomp_len(data, pos as int) } else { len as int };
    let start: int = if has { pos as int + 8 } else { pos as int };
    if pos > data.len() || data.len() > usize::MAX || len > usize::MAX || out + d > len {
        Err(LotusError::BadCompression)
    } else if c > data.len() - start || c > MAX_BLOCK_LEN {
        Err(LotusError::BadCompression)
    } else {
        let kind = if oodle_marker(data, start) {
            BlockKind::Oodle
        } else if c == d {
            BlockKind::Raw
        } else {
            BlockKind::Lz4
        };
        Ok(Block { kind, src: start as usize, src_len: c as usize, dst: out as usize, dst_len: d as usize })
    }
}

/// The blocks of a framed stream from stream offset `pos` on, once `out`
/// bytes of output have been accounted for.
pub open spec fn frame_from(data: Seq<u8>, comp_len: nat, len: nat, pos: nat, out: nat) -> Result<
    Seq<Block>,
    LotusError,
>
    decreases (len - out) + (data.len() - pos) + 8,
{
    if out >= len {
        Ok(seq![])
    } else {
        match next_block(data, comp_len, len, pos, out) {
            Err(e) => Err(e),
            Ok(b) => match frame_from(
                data,
                comp_len,
                len,
                (b.src + b.src_len) as nat,
                (b.dst + b.dst_len) as nat,
            ) {
                Ok(rest) => Ok(seq![b] + rest),
                Err(e) => Err(e),
            },
        }
    }
}

/// The blocks of the framed stream of a whole entry.
pub open spec fn frames(data: Seq<u8>, comp_len: nat, len: nat) -> Result<Seq<Block>, LotusError> {
    frame_from(data, comp_len, len, 0, 0)
}

/// Reads the block header at the start of `header`: the compressed and
/// decompressed lengths it declares, or `None` where the bytes are no header.
pub fn get_block_lengths(header: &[u8]) -> (r: Option<(usize, usize)>)
    requires
        header@.len() >= 8,
    ensures
        r.is_some() == is_block_header(header@, 0),
        r.is_some() ==> r.unwrap().0 == header_comp_len(header@, 0) && r.unwrap().1
            == header_decomp_len(header@, 0),
{
    if header[0] != 0x80 || (header[7] & 0x0F) != 0x01 {
        proof {
            let b7 = header@[7];
            assert((b7 & 0x0F) == b7 % 16) by (bit_vector);
        }
        return None;
    }
    proof {
        let b7 = header@[7];
        assert((b7 & 0x0F) == b7 % 16) by (bit_vector);
    }
    let n1 = be_u32(header, 0);
    let n2 = be_u32(header, 4);
    let c = (n1 >> 2) & 0xFF_FFFF;
    let d = (n2 >> 5) & 0xFF_FFFF;
    proof {
        assert((n1 >> 2) & 0xFF_FFFF == (n1 / 4) % 0x100_0000) by (bit_vector);
        assert((n2 >> 5) & 0xFF_FFFF == (n2 / 32) % 0x100_0000) by (bit_vector);
    }
    Some((c as usize, d as usize))
}

/// Whether the block whose compressed bytes start at `at` is Oodle data.
pub fn is_oodle_block(data: &[u8], at: usize) -> (r: bool)
    ensures
        r == oodle_marker(data@, at as int),
{
    at < data.len() && data[at] == 0x8C
}

/// Reads the next block of a framed stream at stream offset `pos`.
fn read_block(data: &[u8], comp_len: usize, len: usize, pos: usize, out: usize) -> (r: Result<
    Block,
    LotusError,
>)
    requires
        pos <= data@.len(),
        out < len,
    ensures
        r == next_block(data@, comp_len as nat, len as nat, pos as nat, out as nat),
{
    let n = data.len();
    let mut c = comp_len;
    let mut d = len;
    let mut start = pos;
    if n - pos >= 8 {
        let h = &data[pos..pos + 8];
        proof {
            assert(h@ =~= data@.subrange(pos as int, pos as int + 8));
            assert(is_block_header(h@, 0) == is_block_header(data@, pos as int));
            assert(be32(h@, 0) == be32(data@, pos as int));
            assert(be32(h@, 4) == be32(data@, pos as int + 4));
        }
        match get_block_lengths(h) {
            Some((hc, hd)) => {
                c = hc;
                d = hd;
                start = pos + 8;
            },
            None => {},
        }
    }
    if d > len - out {
        return Err(LotusError::BadCompression);
    }
    if c > n - start || c > MAX_BLOCK_LEN {
        return Err(LotusError::BadCompression);
    }
    let kind = if is_oodle_block(data, start) {
        BlockKind::Oodle
    } else if c == d {
        BlockKind::Raw
    } else {
        BlockKind::Lz4
    };
    Ok(Block { kind, src: start, src_len: c, dst: out, dst_len: d })
}

/// Splits the framed stream of one entry into its blocks.
///
/// `data` holds the entry's compressed bytes; the entry decompresses to `len`
/// bytes and, where it has no block header, is one block of `comp_len` bytes.
pub fn plan_blocks(data: &[u8], comp_len: usize, len: usize) -> (r: Result<Vec<Block>, LotusError>)
    ensures
        r matches Ok(v) ==> frames(data@, comp_len as nat, len as nat) == Ok::<
            Seq<Block>,
            LotusError,
        >(v@),
        r matches Err(e) ==> frames(data@, comp_len as nat, len as nat) == Err::<
            Seq<Block>,
            LotusError,
        >(e),
{
    let mut blocks: Vec<Block> = Vec::new();
    let mut pos: usize = 0;
    let mut out: usize = 0;
    let n = data.len();
    while out < len
        invariant
            n == data@.len(),
            pos <= n,
            out <= len,
            frames(data@, comp_len as nat, len as nat) == match frame_from(
                data@,
                comp_len as nat,
                len as nat,
                pos as nat,
                out as nat,
            ) {
                Ok(rest) => Ok::<Seq<Block>, LotusError>(blocks@ + rest),
                Err(e) => Err(e),
            },
        decreases (len - out) + (n - pos),
    {
        let ghost old_blocks = blocks@;
        let b = match read_block(data, comp_len, len, pos, out) {
            Ok(b) => b,
            Err(e) => return Err(e),
        };
        blocks.push(b);
        proof {
            assert(blocks@ == old_blocks + seq![blocks@.last()]);
        }
        pos = b.src + b.src_len;
        out = b.dst + b.dst_len;
        proof {
            match frame_from(data@, comp_len as nat, len as nat, pos as nat, out as nat) {
                Ok(rest) => {
                    assert(old_blocks + (seq![blocks@.last()] + rest) == blocks@ + rest);
                },
                Err(_) => {},
            }
        }
    }
    proof {
        assert(blocks@ + Seq::<Block>::empty() == blocks@);
    }
    Ok(blocks)
}

} // verus!

verus! {

/// The output of `lz4_flex::decompress_size_prepended` on `input`, or `None`
/// where it reports an error.
pub uninterp spec fn lz4_size_prepended(input: Seq<u8>) -> Option<Seq<u8>>;

/// Relies on `lz4_flex::decompress_size_prepended`, which decodes an LZ4 block
/// whose first four bytes give the decoded size, and which fails on fewer
/// than four bytes.
#[verifier::external_body]
fn lz4_decode(input: &[u8]) -> (r: Option<Vec<u8>>)
    ensures
        r.is_some() == lz4_size_prepended(input@).is_some(),
        r.is_some() ==> r.unwrap()@ == lz4_size_prepended(input@).unwrap(),
        input@.len() < 4 ==> r.is_none(),
{
    lz4_flex::decompress_size_prepended(input).ok()
}

/// The output of one block, given what the Oodle decoder made of it (for an
/// Oodle block): `None` where the block lies outside the stream, its decoder
/// fails, or its output has another length than the block declares.
pub open spec fn block_bytes(data: Seq<u8>, b: Block, oodle: Option<Seq<u8>>) -> Option<Seq<u8>> {
    if b.src + b.src_len > data.len() {
        None
    } else {
        let src = data.subrange(b.src as int, b.src + b.src_len);
        let r = match b.kind {
            BlockKind::Raw => Some(src),
            BlockKind::Lz4 => lz4_size_prepended(src),
            BlockKind::Oodle => oodle,
        };
        match r {
            Some(x) => if x.len() == b.dst_len {
                Some(x)
            } else {
                None
            },
            None => None,
        }
    }
}

/// What the Oodle decoder made of block `i`, as handed to the assembler.
pub open spec fn oodle_output(o: Seq<Option<Vec<u8>>>, i: int) -> Option<Seq<u8>> {
    if 0 <= i < o.len() {
        match o[i] {
            Some(v) => Some(v@),
            None => None,
        }
    } else {
        None
    }
}

/// The decompressed bytes of `blocks`, one after the other, or `None` where
/// one of them fails.
pub open spec fn assembled(data: Seq<u8>, blocks: Seq<Block>, oodle: Seq<Option<Vec<u8>>>) -> Option<
    Seq<u8>,
>
    decreases blocks.len(),
{
    if blocks.len() == 0 {
        Some(seq![])
    } else {
        let k = blocks.len() - 1;
        match assembled(data, blocks.take(k), oodle) {
            None => None,
            Some(prefix) => match block_bytes(data, blocks[k], oodle_output(oodle, k)) {
                None => None,
                Some(x) => Some(prefix + x),
            },
        }
    }
}

/// The number of output bytes that `blocks` declare.
pub open spec fn dst_total(blocks: Seq<Block>) -> int
    decreases blocks.len(),
{
    if blocks.len() == 0 {
        0
    } else {
        dst_total(blocks.take(blocks.len() - 1)) + blocks.last().dst_len
    }
}

proof fn lemma_assembled_none_stays(
    data: Seq<u8>,
    blocks: Seq<Block>,
    oodle: Seq<Option<Vec<u8>>>,
    i: int,
    j: int,
)
    requires
        0 <= i <= j <= blocks.len(),
        assembled(data, blocks.take(i), oodle).is_none(),
    ensures
        assembled(data, blocks.take(j), oodle).is_none(),
    decreases j - i,
{
    if i < j {
        lemma_assembled_none_stays(data, blocks, oodle, i, j - 1);
        assert(blocks.take(j).take(j - 1) =~= blocks.take(j - 1));
    }
}

proof fn lemma_assembled_len(data: Seq<u8>, blocks: Seq<Block>, oodle: Seq<Option<Vec<u8>>>)
    requires
        assembled(data, blocks, oodle).is_some(),
    ensures
        assembled(data, blocks, oodle).unwrap().len() == dst_total(blocks),
    decreases blocks.len(),
{
    if blocks.len() > 0 {
        lemma_assembled_len(data, blocks.take(blocks.len() - 1), oodle);
    }
}

proof fn lemma_dst_total_prepend(b: Block, rest: Seq<Block>)
    ensures
        dst_total(seq![b] + rest) == b.dst_len + dst_total(rest),
    decreases rest.len(),
{
    if rest.len() > 0 {
        let k = rest.len() - 1;
        let all = seq![b] + rest;
        assert(all.len() == k + 2);
        assert(all.take(k + 1) =~= seq![b] + rest.take(k));
        assert(all.last() == rest.last());
        lemma_dst_total_prepend(b, rest.take(k));
        assert(dst_total(all) == dst_total(all.take(k + 1)) + all.last().dst_len);
        assert(dst_total(rest) == dst_total(rest.take(k)) + rest.last().dst_len);
    } else {
        let all = seq![b] + rest;
        assert(all.take(0) =~= Seq::<Block>::empty());
        assert(all.last() == b);
        assert(dst_total(all) == dst_total(all.take(0)) + all.last().dst_len);
    }
}

/// The blocks of a framed stream declare, together, exactly the entry's
/// output length; each declares at most `MAX_BLOCK_LEN` compressed bytes, which
/// lie inside the stream; and each either follows a block header that declares
/// its lengths, or is the whole entry.
pub proof fn lemma_frames_sound(data: Seq<u8>, comp_len: nat, len: nat, pos: nat, out: nat)
    requires
        out <= len,
        frame_from(data, comp_len, len, pos, out) is Ok,
    ensures
        ({
            let bs = frame_from(data, comp_len, len, pos, out)->Ok_0;
            &&& dst_total(bs) == len - out
            &&& forall|k: int|
                0 <= k < bs.len() ==> {
                    &&& (#[trigger] bs[k]).src_len <= MAX_BLOCK_LEN
                    &&& bs[k].src + bs[k].src_len <= data.len()
                    &&& (is_block_header(data, bs[k].src - 8) && bs[k].src_len == header_comp_len(
                        data,
                        bs[k].src - 8,
                    ) && bs[k].dst_len == header_decomp_len(data, bs[k].src - 8)) || (
                    bs[k].src_len == comp_len && bs[k].dst_len == len)
                }
        }),
    decreases (len - out) + (data.len() - pos) + 8,
{
    if out < len {
        let b = next_block(data, comp_len, len, pos, out)->Ok_0;
        let np = (b.src + b.src_len) as nat;
        let no = (b.dst + b.dst_len) as nat;
        lemma_frames_sound(data, comp_len, len, np, no);
        let rest = frame_from(data, comp_len, len, np, no)->Ok_0;
        let bs = seq![b] + rest;
        lemma_dst_total_prepend(b, rest);
        assert forall|k: int| 0 <= k < bs.len() implies {
            &&& (#[trigger] bs[k]).src_len <= MAX_BLOCK_LEN
            &&& bs[k].src + bs[k].src_len <= data.len()
            &&& (is_block_header(data, bs[k].src - 8) && bs[k].src_len == header_comp_len(
                data,
                bs[k].src - 8,
            ) && bs[k].dst_len == header_decomp_len(data, bs[k].src - 8)) || (bs[k].src_len
                == comp_len && bs[k].dst_len == len)
        } by {
            if k > 0 {
                assert(bs[k] == rest[k - 1]);
            }
        }
    }
}

/// Decompresses the blocks of a framed stream into one buffer. `oodle` holds,
/// at the index of each Oodle block, what the Oodle decoder made of it.
pub fn assemble_blocks(data: &[u8], blocks: &Vec<Block>, oodle: &Vec<Option<Vec<u8>>>) -> (r: Result<
    Vec<u8>,
    LotusError,
>)
    ensures
        r is Ok == assembled(data@, blocks@, oodle@).is_some(),
        r matches Ok(v) ==> v@ == assembled(data@, blocks@, oodle@).unwrap(),
        r matches Err(e) ==> e == LotusError::BadCompression,
{
    let mut out: Vec<u8> = Vec::new();
    let mut i: usize = 0;
    let n = data.len();
    while i < blocks.len()
        invariant
            n == data@.len(),
            i <= blocks@.len(),
            assembled(data@, blocks@.take(i as int), oodle@) == Some(out@),
        decreases blocks@.len() - i,
    {
        let b = blocks[i];
        proof {
            assert(blocks@.take(i + 1).take(i as int) =~= blocks@.take(i as int));
            assert(blocks@.take(i + 1)[i as int] == b);
        }
        if b.src_len > n || b.src > n - b.src_len {
            proof {
                lemma_assembled_none_stays(data@, blocks@, oodle@, i + 1, blocks@.len() as int);
                assert(blocks@.take(blocks@.len() as int) =~= blocks@);
            }
            return Err(LotusError::BadCompression);
        }
        let src = &data[b.src..b.src + b.src_len];
        let produced: Option<Vec<u8>> = match b.kind {
            BlockKind::Raw => Some(copy_bytes(src)),
            BlockKind::Lz4 => lz4_decode(src),
            BlockKind::Oodle => if i < oodle.len() {
                oodle[i].clone()
            } else {
                None
            },
        };
        let ok = match &produced {
            Some(x) => x.len() == b.dst_len,
            None => false,
        };
        if !ok {
            proof {
                lemma_assembled_none_stays(data@, blocks@, oodle@, i + 1, blocks@.len() as int);
                assert(blocks@.take(blocks@.len() as int) =~= blocks@);
            }
            return Err(LotusError::BadCompression);
        }
        let x = produced.unwrap();
        push_all(&mut out, x.as_slice());
        i += 1;
    }
    proof {
        assert(blocks@.take(blocks@.len() as int) =~= blocks@);
    }
    Ok(out)
}

/// The decompressed bytes of an entry of a post-ensmallening archive whose
/// framed stream is `data`, given what the Oodle decoder made of each Oodle block.
pub open spec fn post_decompressed(
    data: Seq<u8>,
    comp_len: nat,
    len: nat,
    oodle: Seq<Option<Vec<u8>>>,
) -> Result<Seq<u8>, LotusError> {
    match frames(data, comp_len, len) {
        Err(e) => Err(e),
        Ok(bs) => match assembled(data, bs, oodle) {
            None => Err(LotusError::BadCompression),
            Some(x) => Ok(x),
        },
    }
}

/// The decompressed bytes of an entry of a pre-ensmallening archive whose
/// compressed bytes are `data`: one LZ4 frame that must decode to `len` bytes.
pub open spec fn pre_decompressed(data: Seq<u8>, len: nat) -> Result<Seq<u8>, LotusError> {
    match lz4_size_prepended(data) {
        Some(v) => if v.len() == len {
            Ok(v)
        } else {
            Err(LotusError::BadCompression)
        },
        None => Err(LotusError::BadCompression),
    }
}

/// Decompresses one entry of a post-ensmallening archive: `data` holds its
/// framed stream, which declares `comp_len` compressed and `len` decompressed
/// bytes where it has no block header. `oodle` holds, at the index of each
/// Oodle block of `plan_blocks`, what the Oodle decoder made of it.
pub fn decompress_post_ensmallening(
    data: &[u8],
    comp_len: usize,
    len: usize,
    oodle: &Vec<Option<Vec<u8>>>,
) -> (r: Result<Vec<u8>, LotusError>)
    ensures
        r matches Ok(v) ==> v@.len() == len && post_decompressed(
            data@,
            comp_len as nat,
            len as nat,
            oodle@,
        ) == Ok::<Seq<u8>, LotusError>(v@),
        r matches Err(e) ==> post_decompressed(data@, comp_len as nat, len as nat, oodle@) == Err::<
            Seq<u8>,
            LotusError,
        >(e),
{
    let blocks = plan_blocks(data, comp_len, len)?;
    let r = assemble_blocks(data, &blocks, oodle);
    proof {
        if r is Ok {
            lemma_frames_sound(data@, comp_len as nat, len as nat, 0, 0);
            lemma_assembled_len(data@, blocks@, oodle@);
        }
    }
    r
}

/// Decompresses one entry of a pre-ensmallening archive: `data` holds its
/// compressed bytes, one LZ4 frame that must decode to `len` bytes.
pub fn decompress_pre_ensmallening(data: &[u8], len: usize) -> (r: Result<Vec<u8>, LotusError>)
    ensures
        r matches Ok(v) ==> v@.len() == len && pre_decompressed(data@, len as nat) == Ok::<
            Seq<u8>,
            LotusError,
        >(v@),
        r matches Err(e) ==> pre_decompressed(data@, len as nat) == Err::<Seq<u8>, LotusError>(e),
{
    decompress_lz(data, len)
}

/// Decodes an LZ4 frame whose first four bytes give its decoded size, which
/// must be `len`.
pub fn decompress_lz(data: &[u8], len: usize) -> (r: Result<Vec<u8>, LotusError>)
    ensures
        r matches Ok(v) ==> v@.len() == len && pre_decompressed(data@, len as nat) == Ok::<
            Seq<u8>,
            LotusError,
        >(v@),
        r matches Err(e) ==> pre_decompressed(data@, len as nat) == Err::<Seq<u8>, LotusError>(e),
{
    match lz4_decode(data) {
        Some(v) => if v.len() == len {
            Ok(v)
        } else {
            Err(LotusError::BadCompression)
        },
        None => Err(LotusError::BadCompression),
    }
}

} // verus!

verus! {

/// Walks the block headers of a framed stream from stream offset `pos`, where
/// the blocks before it span `acc` bytes (headers included), until the blocks
/// reach `sub` bytes. Gives the span before and after the block that reaches
/// it. Where no header stands at `pos`, the walk counts eight bytes and stays.
pub open spec fn sub_offset_scan(data: Seq<u8>, sub: int, pos: int, acc: int) -> Result<
    (int, int),
    LotusError,
>
    decreases sub - acc,
{
    if pos < 0 || pos + 8 > data.len() {
        Err(LotusError::BadCompression)
    } else {
        let has = is_block_header(data, pos);
        let c = if has { header_comp_len(data, pos) } else { 0 };
        let next = acc + c + 8;
        if next >= sub {
            Ok((acc, next))
        } else {
            sub_offset_scan(data, sub, if has { pos + 8 + c } else { pos }, next)
        }
    }
}

/// Of two block boundaries around `sub`, the nearer one; the later one on a tie.
pub open spec fn nearest_boundary(sub: int, bottom: int, top: int) -> int {
    if top - sub > sub - bottom {
        bottom
    } else {
        top
    }
}

/// Resolves a nominal offset `sub` inside the framed stream `data` to the block
/// boundary nearest to it, counted from the start of the stream.
pub fn get_real_cache_image_offset(data: &[u8], sub: u32) -> (r: Result<u64, LotusError>)
    ensures
        r matches Ok(o) ==> sub_offset_scan(data@, sub as int, 0, 0) matches Ok((b, t)) && o
            == nearest_boundary(sub as int, b, t),
        r matches Err(e) ==> sub_offset_scan(data@, sub as int, 0, 0) == Err::<(int, int), LotusError>(e),
{
    let n = data.len();
    let mut pos: usize = 0;
    let mut acc: u64 = 0;
    loop
        invariant
            n == data@.len(),
            acc < sub || (acc == 0 && pos == 0),
            sub_offset_scan(data@, sub as int, 0, 0) == sub_offset_scan(
                data@,
                sub as int,
                pos as int,
                acc as int,
            ),
        decreases sub - acc,
    {
        if pos > n || n - pos < 8 {
            return Err(LotusError::BadCompression);
        }
        let h = &data[pos..pos + 8];
        proof {
            assert(h@ =~= data@.subrange(pos as int, pos as int + 8));
            assert(is_block_header(h@, 0) == is_block_header(data@, pos as int));
            assert(be32(h@, 0) == be32(data@, pos as int));
        }
        let (has, c) = match get_block_lengths(h) {
            Some((c, _)) => (true, c),
            None => (false, 0),
        };
        let next: u64 = acc + c as u64 + 8;
        if next >= sub as u64 {
            let up = next - sub as u64;
            let down = sub as u64 - acc;
            if up > down {
                return Ok(acc);
            } else {
                return Ok(next);
            }
        }
        if has {
            if c > n - pos - 8 {
                proof {
                    let np = pos + 8 + c;
                    assert(sub_offset_scan(data@, sub as int, np, next as int) == Err::<
                        (int, int),
                        LotusError,
                    >(LotusError::BadCompression));
                }
                return Err(LotusError::BadCompression);
            }
            pos = pos + 8 + c;
        }
        acc = next;
    }
}

} // verus!
