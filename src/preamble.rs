use vstd::prelude::*;

use crate::bytes::{copy_bytes, le32, le_u32};
use crate::error::LotusError;
use crate::text::{decode_utf8, utf8_text};

verus! {

/// The end of `count` length-prefixed UTF-8 paths stored from `off`, or `None`
/// where one runs past the data or is not UTF-8.
pub open spec fn paths_end(data: Seq<u8>, off: int, count: int) -> Option<int>
    decreases count,
{
    if count <= 0 {
        Some(off)
    } else if off < 0 || off + 4 > data.len() {
        None
    } else {
        let l = le32(data, off);
        if off + 4 + l > data.len() || utf8_text(data.subrange(off + 4, off + 4 + l)) is None {
            None
        } else {
            paths_end(data, off + 4 + l, count - 1)
        }
    }
}

/// Where the arguments text of a header whose merged-file list ends at `o` lies.
pub open spec fn arguments_range(data: Seq<u8>, o: int) -> (int, int) {
    (o + 4, o + 4 + le32(data, o))
}

/// The end of the preamble that every asset header starts with: a 16-byte
/// hash, a count of merged files and their paths, then a length-prefixed
/// UTF-8 arguments text, followed by one zero byte where it is not empty.
/// `None` where the data is too short or a text is not UTF-8.
pub open spec fn preamble_end(data: Seq<u8>) -> Option<int> {
    if data.len() < 20 {
        None
    } else {
        match paths_end(data, 20, le32(data, 16)) {
            None => None,
            Some(o) => if o + 4 > data.len() {
                None
            } else {
                let (a, b) = arguments_range(data, o);
                if b > data.len() || utf8_text(data.subrange(a, b)) is None {
                    None
                } else if b > a {
                    if b + 1 > data.len() {
                        None
                    } else {
                        Some(b + 1)
                    }
                } else {
                    Some(b)
                }
            },
        }
    }
}

/// Where the record of merged path `k` (its length, then its bytes) starts.
pub open spec fn path_record(data: Seq<u8>, k: nat) -> int
    decreases k,
{
    if k == 0 {
        20
    } else {
        let p = path_record(data, (k - 1) as nat);
        p + 4 + le32(data, p)
    }
}

/// The text of merged path `k`.
pub open spec fn path_text(data: Seq<u8>, k: nat) -> Seq<char> {
    let p = path_record(data, k);
    utf8_text(data.subrange(p + 4, p + 4 + le32(data, p)))->Some_0
}

/// The arguments text, which follows the merged paths.
pub open spec fn arguments_text(data: Seq<u8>) -> Seq<char> {
    let (a, b) = arguments_range(data, path_record(data, le32(data, 16) as nat));
    utf8_text(data.subrange(a, b))->Some_0
}

/// The preamble of an asset header.
pub struct Preamble {
    pub hash: Vec<u8>,
    pub merged_file_count: u32,
    pub file_paths: Vec<String>,
    pub arguments_length: u32,
    pub arguments: String,
    /// Where the preamble ends.
    pub end: usize,
}

/// Reads the preamble of an asset header.
pub fn read_preamble(data: &[u8]) -> (r: Result<Preamble, LotusError>)
    ensures
        r is Ok <==> preamble_end(data@) is Some,
        r matches Err(e) ==> e == LotusError::BadFormat,
        r matches Ok(p) ==> {
            &&& p.end == preamble_end(data@)->Some_0
            &&& p.hash@ == data@.subrange(0, 16)
            &&& p.merged_file_count == le32(data@, 16)
            &&& p.file_paths@.len() == p.merged_file_count
            &&& forall|k: int|
                0 <= k < p.merged_file_count ==> (#[trigger] p.file_paths@[k])@ == path_text(
                    data@,
                    k as nat,
                )
            &&& p.arguments@ == arguments_text(data@)
            &&& paths_end(data@, 20, le32(data@, 16)) == Some(
                path_record(data@, le32(data@, 16) as nat),
            )
            &&& paths_end(data@, 20, le32(data@, 16)) matches Some(o) && p.arguments_length
                == le32(data@, o) && Some(p.arguments@) == utf8_text(
                data@.subrange(arguments_range(data@, o).0, arguments_range(data@, o).1),
            )
        },
{
    let n = data.len();
    if n < 20 {
        return Err(LotusError::BadFormat);
    }
    let hash = copy_bytes(&data[0..16]);
    let count = le_u32(data, 16);
    let mut file_paths: Vec<String> = Vec::new();
    let mut off: usize = 20;
    let mut k: u32 = 0;
    while k < count
        invariant
            n == data@.len(),
            n >= 20,
            count as int == le32(data@, 16),
            hash@ == data@.subrange(0, 16),
            k <= count,
            off <= n,
            file_paths@.len() == k,
            off == path_record(data@, k as nat),
            forall|j: int| 0 <= j < k ==> (#[trigger] file_paths@[j])@ == path_text(data@, j as nat),
            paths_end(data@, 20, count as int) == paths_end(data@, off as int, count - k),
        decreases count - k,
    {
        if n - off < 4 {
            proof {
                assert(paths_end(data@, off as int, count - k) is None);
            }
            return Err(LotusError::BadFormat);
        }
        let l = le_u32(data, off) as usize;
        if l > n - off - 4 {
            proof {
                assert(paths_end(data@, off as int, count - k) is None);
            }
            return Err(LotusError::BadFormat);
        }
        let path = match decode_utf8(&data[off + 4..off + 4 + l]) {
            Some(s) => s,
            None => {
                proof {
                    assert(data@.subrange(off + 4, off + 4 + l) == data@.subrange(
                        off + 4,
                        off + 4 + l,
                    ));
                }
                return Err(LotusError::BadFormat);
            },
        };
        file_paths.push(path);
        off = off + 4 + l;
        k += 1;
    }
    if n - off < 4 {
        return Err(LotusError::BadFormat);
    }
    let al = le_u32(data, off);
    let a = off + 4;
    if al as usize > n - a {
        return Err(LotusError::BadFormat);
    }
    let b = a + al as usize;
    let arguments = match decode_utf8(&data[a..b]) {
        Some(s) => s,
        None => {
            return Err(LotusError::BadFormat);
        },
    };
    if al > 0 && b == n {
        return Err(LotusError::BadFormat);
    }
    let end = if al > 0 {
        b + 1
    } else {
        b
    };
    Ok(Preamble { hash, merged_file_count: count, file_paths, arguments_length: al, arguments, end })
}

} // verus!
