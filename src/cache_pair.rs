use vstd::prelude::*;

use crate::bytes::copy_bytes;
use crate::compression::{
    decompress_post_ensmallening, decompress_pre_ensmallening, post_decompressed, pre_decompressed,
};
use crate::error::LotusError;
use crate::toc::{found_of_kind, kind_ids, toc_nodes, Node, NodeKind, NodeView, Toc};
use vstd::string::StringSliceAdditionalSpecFns;

verus! {

/// The magic number that opens a table of contents.
pub const MAGIC_NUMBER: u64 = 0x1867C64E;

/// The archive version this library reads.
pub const ARCHIVE_VERSION: u64 = 20;

/// A table of contents together with the cache file whose data it indexes.
pub trait CachePair: Sized {
    /// The path of the table of contents.
    spec fn spec_toc_path(&self) -> Seq<char>;

    /// The path of the cache file.
    spec fn spec_cache_path(&self) -> Seq<char>;

    /// Whether the cache uses the framed block format.
    spec fn spec_post(&self) -> bool;

    /// The nodes of the loaded table of contents, in load order; none while
    /// no table is loaded.
    spec fn spec_toc_nodes(&self) -> Seq<NodeView>;

    /// A pair of the given files whose table is not loaded yet.
    fn new(toc_path: String, cache_path: String, is_post_ensmallening: bool) -> (r: Self)
        ensures
            r.spec_toc_path() == toc_path@,
            r.spec_cache_path() == cache_path@,
            r.spec_post() == is_post_ensmallening,
            r.spec_toc_nodes().len() == 0,
    ;

    /// Whether the cache uses the framed block format that "The Great
    /// Ensmallening" introduced.
    fn is_post_ensmallening(&self) -> (r: bool)
        ensures
            r == self.spec_post(),
    ;

    /// The path of the table of contents.
    fn toc_path(&self) -> (r: String)
        ensures
            r@ == self.spec_toc_path(),
    ;

    /// The path of the cache file.
    fn cache_path(&self) -> (r: String)
        ensures
            r@ == self.spec_cache_path(),
    ;

    /// Loads the table of contents from its stored bytes, unless one is
    /// loaded already.
    fn read_toc(&mut self, toc_bytes: &[u8]) -> (r: Result<(), LotusError>)
        ensures
            final(self).spec_toc_path() == old(self).spec_toc_path(),
            final(self).spec_cache_path() == old(self).spec_cache_path(),
            final(self).spec_post() == old(self).spec_post(),
            old(self).spec_toc_nodes().len() > 0 ==> r is Ok && final(self).spec_toc_nodes()
                == old(self).spec_toc_nodes(),
            old(self).spec_toc_nodes().len() == 0 ==> (r is Ok <==> toc_nodes(toc_bytes@) is Ok),
            old(self).spec_toc_nodes().len() == 0 && r is Ok ==> Ok::<Seq<NodeView>, LotusError>(
                final(self).spec_toc_nodes(),
            ) == toc_nodes(toc_bytes@),
            old(self).spec_toc_nodes().len() == 0 ==> (r matches Err(e) ==> toc_nodes(toc_bytes@)
                == Err::<Seq<NodeView>, LotusError>(e) && final(self).spec_toc_nodes().len() == 0),
    ;

    /// Forgets the loaded table.
    fn unread_toc(&mut self)
        ensures
            final(self).spec_toc_path() == old(self).spec_toc_path(),
            final(self).spec_cache_path() == old(self).spec_cache_path(),
            final(self).spec_post() == old(self).spec_post(),
            final(self).spec_toc_nodes().len() == 0,
    ;
}

/// The decompressed bytes of a file entry whose `comp_len` bytes in the cache
/// are `raw`. A stored entry (equal lengths) is `raw` itself; an entry with a
/// negative length is malformed, and `raw` of another length than `comp_len`
/// is not the entry.
pub open spec fn entry_data(
    is_post: bool,
    comp_len: int,
    len: int,
    raw: Seq<u8>,
    oodle: Seq<Option<Vec<u8>>>,
) -> Result<Seq<u8>, LotusError> {
    if comp_len < 0 || len < 0 {
        Err(LotusError::BadFormat)
    } else if raw.len() != comp_len {
        Err(LotusError::BadCompression)
    } else if comp_len == len {
        Ok(raw)
    } else if is_post {
        post_decompressed(raw, comp_len as nat, len as nat, oodle)
    } else {
        pre_decompressed(raw, len as nat)
    }
}

/// A cache pair that reads its table from bytes handed to it.
pub struct CachePairReader {
    is_post_ensmallening: bool,
    toc_path: String,
    cache_path: String,
    toc: Toc,
}

impl CachePairReader {
    /// Whether the cache uses the framed block format.
    pub closed spec fn spec_is_post(&self) -> bool {
        self.is_post_ensmallening
    }

    /// The loaded table.
    pub closed spec fn spec_toc(&self) -> Toc {
        self.toc
    }

    /// The loaded table of contents.
    pub fn toc(&self) -> (r: &Toc)
        ensures
            *r == self.spec_toc(),
    {
        &self.toc
    }

    /// The directories of the table, in load order, the root first.
    pub fn directories(&self) -> (r: Vec<&Node>)
        ensures
            r@.len() == kind_ids(self.spec_toc().spec_nodes(), NodeKind::Directory).len(),
            forall|k: int|
                0 <= k < r@.len() ==> (#[trigger] r@[k])@ == self.spec_toc().spec_nodes()[kind_ids(
                    self.spec_toc().spec_nodes(),
                    NodeKind::Directory,
                )[k] as int],
    {
        self.toc.directories()
    }

    /// The files of the table, in load order.
    pub fn files(&self) -> (r: Vec<&Node>)
        ensures
            r@.len() == kind_ids(self.spec_toc().spec_nodes(), NodeKind::File).len(),
            forall|k: int|
                0 <= k < r@.len() ==> (#[trigger] r@[k])@ == self.spec_toc().spec_nodes()[kind_ids(
                    self.spec_toc().spec_nodes(),
                    NodeKind::File,
                )[k] as int],
    {
        self.toc.files()
    }

    /// The file that the absolute path `p` names.
    pub fn get_file_node(&self, p: &str) -> (r: Result<Option<&Node>, LotusError>)
        ensures
            r matches Ok(Some(n)) ==> found_of_kind(
                self.spec_toc().spec_nodes(),
                p.spec_bytes(),
                NodeKind::File,
            ) == Ok::<Option<nat>, LotusError>(Some(n@.id)) && n@ == self.spec_toc().spec_nodes()[n@.id as int],
            r matches Ok(None) ==> found_of_kind(
                self.spec_toc().spec_nodes(),
                p.spec_bytes(),
                NodeKind::File,
            ) == Ok::<Option<nat>, LotusError>(None),
            r matches Err(e) ==> found_of_kind(
                self.spec_toc().spec_nodes(),
                p.spec_bytes(),
                NodeKind::File,
            ) == Err::<Option<nat>, LotusError>(e),
    {
        self.toc.get_file_node(p)
    }

    /// The directory that the absolute path `p` names.
    pub fn get_directory_node(&self, p: &str) -> (r: Result<Option<&Node>, LotusError>)
        ensures
            r matches Ok(Some(n)) ==> found_of_kind(
                self.spec_toc().spec_nodes(),
                p.spec_bytes(),
                NodeKind::Directory,
            ) == Ok::<Option<nat>, LotusError>(Some(n@.id)) && n@ == self.spec_toc().spec_nodes()[n@.id as int],
            r matches Ok(None) ==> found_of_kind(
                self.spec_toc().spec_nodes(),
                p.spec_bytes(),
                NodeKind::Directory,
            ) == Ok::<Option<nat>, LotusError>(None),
            r matches Err(e) ==> found_of_kind(
                self.spec_toc().spec_nodes(),
                p.spec_bytes(),
                NodeKind::Directory,
            ) == Err::<Option<nat>, LotusError>(e),
    {
        self.toc.get_directory_node(p)
    }

    /// Decompresses the file `node`, whose `comp_len` bytes at its cache offset
    /// are `raw`. `oodle` holds, at the index of each Oodle block of the
    /// entry's framed stream, what the Oodle decoder made of it.
    pub fn decompress_data(&self, node: &Node, raw: &[u8], oodle: &Vec<Option<Vec<u8>>>) -> (r: Result<
        Vec<u8>,
        LotusError,
    >)
        ensures
            node@.kind == NodeKind::Directory ==> r == Err::<Vec<u8>, LotusError>(
                LotusError::NotFound,
            ),
            node@.kind == NodeKind::File ==> (r matches Ok(v) ==> entry_data(
                self.spec_is_post(),
                node@.comp_len,
                node@.len,
                raw@,
                oodle@,
            ) == Ok::<Seq<u8>, LotusError>(v@)),
            node@.kind == NodeKind::File ==> (r matches Err(e) ==> entry_data(
                self.spec_is_post(),
                node@.comp_len,
                node@.len,
                raw@,
                oodle@,
            ) == Err::<Seq<u8>, LotusError>(e)),
            node@.kind == NodeKind::File ==> (r matches Ok(v) ==> v@.len() == node@.len),
            node@.kind == NodeKind::File && node@.comp_len == node@.len && node@.len >= 0
                && raw@.len() == node@.len ==> (r matches Ok(v) && v@ == raw@),
    {
        let (comp_len, len) = match (node.comp_len(), node.len()) {
            (Some(c), Some(l)) => (c, l),
            _ => {
                return Err(LotusError::NotFound);
            },
        };
        if comp_len < 0 || len < 0 {
            return Err(LotusError::BadFormat);
        }
        if raw.len() != comp_len as usize {
            return Err(LotusError::BadCompression);
        }
        if comp_len == len {
            return Ok(copy_bytes(raw));
        }
        if self.is_post_ensmallening {
            decompress_post_ensmallening(raw, comp_len as usize, len as usize, oodle)
        } else {
            decompress_pre_ensmallening(raw, len as usize)
        }
    }
}

impl CachePair for CachePairReader {
    closed spec fn spec_toc_path(&self) -> Seq<char> {
        self.toc_path@
    }

    closed spec fn spec_cache_path(&self) -> Seq<char> {
        self.cache_path@
    }

    closed spec fn spec_post(&self) -> bool {
        self.is_post_ensmallening
    }

    closed spec fn spec_toc_nodes(&self) -> Seq<NodeView> {
        self.toc.spec_nodes()
    }

    fn new(toc_path: String, cache_path: String, is_post_ensmallening: bool) -> (r: Self) {
        let toc = Toc::new();
        proof {
            assert(!toc.loaded());
        }
        CachePairReader { is_post_ensmallening, toc_path, cache_path, toc }
    }

    fn is_post_ensmallening(&self) -> (r: bool) {
        self.is_post_ensmallening
    }

    fn toc_path(&self) -> (r: String) {
        self.toc_path.clone()
    }

    fn cache_path(&self) -> (r: String) {
        self.cache_path.clone()
    }

    fn read_toc(&mut self, toc_bytes: &[u8]) -> (r: Result<(), LotusError>) {
        self.toc.read_toc(toc_bytes)
    }

    fn unread_toc(&mut self) {
        self.toc.unread_toc()
    }
}

} // verus!
