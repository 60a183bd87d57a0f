use vstd::prelude::*;

verus! {

/// The kinds of failure that the library reports.
#[derive(Clone, Copy, Debug, PartialEq, Eq, Structural)]
pub enum LotusError {
    /// A table of contents, a cache file or a referenced entry is absent.
    NotFound,
    /// A table of contents or an asset header is malformed.
    BadFormat,
    /// A compressed stream is malformed or a decoder rejected it.
    BadCompression,
    /// A path is relative or leaves the root.
    BadPath,
}

} // verus!
