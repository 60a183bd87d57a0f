use vstd::prelude::*;

use crate::bytes::{copy_bytes, push_all};
use crate::error::LotusError;
use crate::text::{decode_utf8, utf8_text};

verus! {

/// The byte of ".".
pub const PERIOD: u8 = 0x2E;

/// The place of the last "." in `s`, if any.
pub open spec fn last_period(s: Seq<u8>) -> Option<int>
    decreases s.len(),
{
    if s.len() == 0 {
        None
    } else if s.last() == PERIOD {
        Some(s.len() - 1)
    } else {
        last_period(s.drop_last())
    }
}

/// `s` without its last "." and what follows it.
pub open spec fn stem(s: Seq<u8>) -> Seq<u8> {
    match last_period(s) {
        Some(i) => s.take(i),
        None => s,
    }
}

/// Whether `s` ends with `suffix`.
pub open spec fn ends_with(s: Seq<u8>, suffix: Seq<u8>) -> bool {
    s.len() >= suffix.len() && s.skip(s.len() - suffix.len()) == suffix
}

/// The bytes of `name` before its last ".".
pub fn name_stem(name: &[u8]) -> (r: Vec<u8>)
    ensures
        r@ == stem(name@),
{
    let mut i: usize = name.len();
    proof {
        assert(name@.take(i as int) =~= name@);
    }
    while i > 0
        invariant
            i <= name@.len(),
            last_period(name@) == last_period(name@.take(i as int)),
        decreases i,
    {
        if name[i - 1] == PERIOD {
            proof {
                assert(name@.take(i as int).last() == PERIOD);
            }
            return copy_bytes(&name[0..i - 1]);
        }
        proof {
            assert(name@.take(i as int).drop_last() =~= name@.take(i - 1));
        }
        i -= 1;
    }
    copy_bytes(name)
}

/// Whether `name` ends with `suffix`.
pub fn has_suffix(name: &[u8], suffix: &[u8]) -> (r: bool)
    ensures
        r == ends_with(name@, suffix@),
{
    if name.len() < suffix.len() {
        return false;
    }
    let n = name.len();
    let k = n - suffix.len();
    let mut i: usize = 0;
    while i < suffix.len()
        invariant
            n == name@.len(),
            k + suffix@.len() == name@.len(),
            i <= suffix@.len(),
            forall|j: int| 0 <= j < i ==> name@[k + j] == suffix@[j],
        decreases suffix@.len() - i,
    {
        if name[k + i] != suffix[i] {
            proof {
                assert(name@.skip(k as int)[i as int] != suffix@[i as int]);
            }
            return false;
        }
        i += 1;
    }
    proof {
        assert(name@.skip(k as int) =~= suffix@);
    }
    true
}

/// The text of `stem` followed by `ext`.
pub fn with_extension(stem: &[u8], ext: &[u8]) -> (r: Result<String, LotusError>)
    ensures
        r is Ok <==> utf8_text(stem@ + ext@) is Some,
        r matches Ok(s) ==> Some(s@) == utf8_text(stem@ + ext@),
        r matches Err(e) ==> e == LotusError::BadFormat,
{
    let mut v = copy_bytes(stem);
    push_all(&mut v, ext);
    match decode_utf8(v.as_slice()) {
        Some(s) => Ok(s),
        None => Err(LotusError::BadFormat),
    }
}

} // verus!
