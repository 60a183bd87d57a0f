use vstd::prelude::*;
use vstd::utf8::valid_utf8;

verus! {

/// The text that the bytes `b` encode in UTF-8, or `None` where they are not
/// valid UTF-8.
pub open spec fn utf8_text(b: Seq<u8>) -> Option<Seq<char>> {
    if valid_utf8(b) {
        Some(vstd::utf8::decode_utf8(b))
    } else {
        None
    }
}

/// Relies on `std::str::from_utf8`, which accepts exactly the valid UTF-8
/// byte strings and reads the characters they encode.
#[verifier::external_body]
pub fn decode_utf8(b: &[u8]) -> (r: Option<String>)
    ensures
        r.is_some() == utf8_text(b@).is_some(),
        r.is_some() ==> r.unwrap()@ == utf8_text(b@).unwrap(),
        b@.len() == 0 ==> r.is_some() && r.unwrap()@.len() == 0,
{
    std::str::from_utf8(b).ok().map(|s| s.to_string())
}

/// The bytes of `b` before its first zero byte (all of them where it has none).
pub open spec fn before_nul(b: Seq<u8>) -> Seq<u8> {
    b.take(first_nul_from(b, 0))
}

/// The index of the first zero byte of `b` at or after `i`, or `b.len()`.
pub open spec fn first_nul_from(b: Seq<u8>, i: int) -> int
    decreases b.len() - i,
{
    if i < 0 || i >= b.len() {
        b.len() as int
    } else if b[i] == 0 {
        i
    } else {
        first_nul_from(b, i + 1)
    }
}

/// The index of the first zero byte of `b`, or its length where it has none.
pub fn first_nul(b: &[u8]) -> (r: usize)
    ensures
        r == first_nul_from(b@, 0),
        r <= b@.len(),
{
    let mut i: usize = 0;
    while i < b.len()
        invariant
            i <= b@.len(),
            first_nul_from(b@, 0) == first_nul_from(b@, i as int),
        decreases b@.len() - i,
    {
        if b[i] == 0 {
            return i;
        }
        i += 1;
    }
    i
}

} // verus!
