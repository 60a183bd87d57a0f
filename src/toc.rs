use vstd::prelude::*;
use vstd::string::StringSliceAdditionalSpecFns;

use crate::bytes::{copy_bytes, le32, le_i32, le_i64, le_u32, push_all, sle32, sle64};
use crate::error::LotusError;
use crate::text::{before_nul, decode_utf8, first_nul, utf8_text};

verus! {

/// The size of one record of a table of contents.
pub const TOC_ENTRY_SIZE: usize = 96;

/// The size of the header that precedes the records.
pub const TOC_HEADER_SIZE: usize = 8;

/// The cache offset that marks a record as a directory.
pub const DIRECTORY_OFFSET: i64 = -1;

/// One record of a table of contents, as stored.
pub struct RawTocEntry {
    pub cache_offset: i64,
    pub timestamp: i64,
    pub comp_len: i32,
    pub len: i32,
    pub reserved: i32,
    pub parent_dir_index: i32,
    /// The name, padded with zero bytes to 64 bytes.
    pub name: Vec<u8>,
}

impl RawTocEntry {
    /// Reads the record that starts at `at`.
    pub fn read(b: &[u8], at: usize) -> (r: RawTocEntry)
        requires
            at + TOC_ENTRY_SIZE <= b@.len(),
        ensures
            r.cache_offset == sle64(b@, at as int),
            r.timestamp == sle64(b@, at + 8),
            r.comp_len == sle32(b@, at + 16),
            r.len == sle32(b@, at + 20),
            r.reserved == sle32(b@, at + 24),
            r.parent_dir_index == sle32(b@, at + 28),
            r.name@ == b@.subrange(at + 32, at + 96),
    {
        let _n = b.len();
        RawTocEntry {
            cache_offset: le_i64(b, at),
            timestamp: le_i64(b, at + 8),
            comp_len: le_i32(b, at + 16),
            len: le_i32(b, at + 20),
            reserved: le_i32(b, at + 24),
            parent_dir_index: le_i32(b, at + 28),
            name: copy_bytes(&b[at + 32..at + 96]),
        }
    }
}

/// Whether a node is a directory or a file.
#[derive(Clone, Copy, Debug, PartialEq, Eq, Structural)]
pub enum NodeKind {
    Directory,
    File,
}

/// What a node is, for contracts.
pub struct NodeView {
    pub id: nat,
    pub name: Seq<u8>,
    pub kind: NodeKind,
    pub parent: Option<nat>,
    pub cache_offset: int,
    pub timestamp: int,
    pub comp_len: int,
    pub len: int,
}

/// A directory or file of a table of contents. Its `id` is its place in the
/// table, in load order; the root is 0.
pub struct Node {
    id: usize,
    name: String,
    name_bytes: Vec<u8>,
    kind: NodeKind,
    parent: Option<usize>,
    cache_offset: i64,
    timestamp: i64,
    comp_len: i32,
    len: i32,
}

impl View for Node {
    type V = NodeView;

    closed spec fn view(&self) -> NodeView {
        NodeView {
            id: self.id as nat,
            name: self.name_bytes@,
            kind: self.kind,
            parent: match self.parent {
                Some(p) => Some(p as nat),
                None => None,
            },
            cache_offset: self.cache_offset as int,
            timestamp: self.timestamp as int,
            comp_len: self.comp_len as int,
            len: self.len as int,
        }
    }
}

impl Node {
    /// The node's name is the UTF-8 reading of its name bytes.
    pub closed spec fn inv(&self) -> bool {
        utf8_text(self.name_bytes@) == Some(self.name@)
    }

    /// The text of the name.
    pub closed spec fn name_text(&self) -> Seq<char> {
        self.name@
    }

    /// The node's place in its table.
    pub fn id(&self) -> (r: usize)
        ensures
            r == self@.id,
    {
        self.id
    }

    /// The node's name.
    pub fn name(&self) -> (r: String)
        ensures
            r@ == self.name_text(),
            self.inv() ==> utf8_text(self@.name) == Some(r@),
    {
        self.name.clone()
    }

    /// The bytes of the node's name.
    pub fn name_bytes(&self) -> (r: &Vec<u8>)
        ensures
            r@ == self@.name,
    {
        &self.name_bytes
    }

    /// Whether the node is a directory or a file.
    pub fn kind(&self) -> (r: NodeKind)
        ensures
            r == self@.kind,
    {
        self.kind
    }

    /// The place of the parent directory; `None` for the root.
    pub fn parent(&self) -> (r: Option<usize>)
        ensures
            r matches Some(p) ==> self@.parent == Some(p as nat),
            r is None ==> self@.parent is None,
    {
        self.parent
    }

    /// Where the file's data starts in its cache; `None` for a directory.
    pub fn cache_offset(&self) -> (r: Option<i64>)
        ensures
            r is Some == (self@.kind == NodeKind::File),
            r matches Some(x) ==> x as int == self@.cache_offset,
    {
        match self.kind {
            NodeKind::File => Some(self.cache_offset),
            NodeKind::Directory => None,
        }
    }

    /// When the file was written; `None` for a directory.
    pub fn timestamp(&self) -> (r: Option<i64>)
        ensures
            r is Some == (self@.kind == NodeKind::File),
            r matches Some(x) ==> x as int == self@.timestamp,
    {
        match self.kind {
            NodeKind::File => Some(self.timestamp),
            NodeKind::Directory => None,
        }
    }

    /// The number of bytes the file takes in its cache; `None` for a directory.
    pub fn comp_len(&self) -> (r: Option<i32>)
        ensures
            r is Some == (self@.kind == NodeKind::File),
            r matches Some(x) ==> x as int == self@.comp_len,
    {
        match self.kind {
            NodeKind::File => Some(self.comp_len),
            NodeKind::Directory => None,
        }
    }

    /// The number of bytes of the decompressed file; `None` for a directory.
    pub fn len(&self) -> (r: Option<i32>)
        ensures
            r is Some == (self@.kind == NodeKind::File),
            r matches Some(x) ==> x as int == self@.len,
    {
        match self.kind {
            NodeKind::File => Some(self.len),
            NodeKind::Directory => None,
        }
    }
}

} // verus!

verus! {

/// The node that stands for the root directory.
pub open spec fn root_view() -> NodeView {
    NodeView {
        id: 0,
        name: seq![],
        kind: NodeKind::Directory,
        parent: None,
        cache_offset: -1,
        timestamp: 0,
        comp_len: 0,
        len: 0,
    }
}

/// The places of the nodes of one kind, in order.
pub open spec fn kind_ids(nodes: Seq<NodeView>, kind: NodeKind) -> Seq<nat>
    decreases nodes.len(),
{
    if nodes.len() == 0 {
        seq![]
    } else {
        let rest = kind_ids(nodes.drop_last(), kind);
        if nodes.last().kind == kind {
            rest.push(nodes.last().id)
        } else {
            rest
        }
    }
}

/// The number of records in a table of contents of these bytes.
pub open spec fn entry_count(b: Seq<u8>) -> int {
    (b.len() - TOC_HEADER_SIZE) / (TOC_ENTRY_SIZE as int)
}

/// The node that the record at `at` adds, as node `id` under directory `parent`.
pub open spec fn entry_node(b: Seq<u8>, at: int, id: nat, parent: nat) -> NodeView {
    let co = sle64(b, at);
    NodeView {
        id,
        name: before_nul(b.subrange(at + 32, at + 96)),
        kind: if co == -1 {
            NodeKind::Directory
        } else {
            NodeKind::File
        },
        parent: Some(parent),
        cache_offset: co,
        timestamp: sle64(b, at + 8),
        comp_len: sle32(b, at + 16),
        len: sle32(b, at + 20),
    }
}

/// The nodes after loading records `k` onwards on top of `nodes`. A record
/// with a zero timestamp has been replaced by a later one and adds nothing; a
/// record's parent is the directory of its `parent_dir_index`, counting
/// directories in load order.
pub open spec fn load_from(b: Seq<u8>, k: int, nodes: Seq<NodeView>) -> Result<
    Seq<NodeView>,
    LotusError,
>
    decreases entry_count(b) - k,
{
    if k < 0 || k >= entry_count(b) {
        Ok(nodes)
    } else {
        let at = TOC_HEADER_SIZE + TOC_ENTRY_SIZE * k;
        if sle64(b, at + 8) == 0 {
            load_from(b, k + 1, nodes)
        } else {
            let name = before_nul(b.subrange(at + 32, at + 96));
            let pdi = sle32(b, at + 28);
            let dirs = kind_ids(nodes, NodeKind::Directory);
            if utf8_text(name) is None {
                Err(LotusError::BadFormat)
            } else if pdi < 0 || pdi >= dirs.len() {
                Err(LotusError::BadFormat)
            } else {
                load_from(b, k + 1, nodes.push(entry_node(b, at, nodes.len(), dirs[pdi])))
            }
        }
    }
}

/// The magic number that opens a table of contents, as a little-endian `u32`.
pub const TOC_MAGIC: u32 = 0x1867C64E;

/// The nodes of the table of contents stored in `b`: an eight-byte header
/// that starts with the magic number, then whole records.
pub open spec fn toc_nodes(b: Seq<u8>) -> Result<Seq<NodeView>, LotusError> {
    if b.len() < TOC_HEADER_SIZE || (b.len() - TOC_HEADER_SIZE) % (TOC_ENTRY_SIZE as int) != 0
        || le32(b, 0) != TOC_MAGIC {
        Err(LotusError::BadFormat)
    } else {
        load_from(b, 0, seq![root_view()])
    }
}

/// A loaded table of contents: its nodes in load order, the root first, with
/// the places of its directories and of its files.
pub struct Toc {
    nodes: Vec<Node>,
    dir_ids: Vec<usize>,
    file_ids: Vec<usize>,
}

/// The views of some nodes.
pub open spec fn views(nodes: Seq<Node>) -> Seq<NodeView> {
    nodes.map_values(|n: Node| n@)
}

/// Some places, as natural numbers.
pub open spec fn places(ids: Seq<usize>) -> Seq<nat> {
    ids.map_values(|i: usize| i as nat)
}

/// The node at place `i`, `n`, has an earlier directory as its parent.
pub open spec fn parent_ok(v: Seq<NodeView>, i: int, n: NodeView) -> bool {
    &&& n.parent is Some
    &&& n.parent->Some_0 < i
    &&& v[n.parent->Some_0 as int].kind == NodeKind::Directory
}

/// A tree of nodes: each node knows its place, the root comes first, and
/// every other node's parent is an earlier directory.
pub open spec fn tree_wf(v: Seq<NodeView>) -> bool {
    &&& v.len() >= 1
    &&& v[0] == root_view()
    &&& forall|i: int| 0 <= i < v.len() ==> (#[trigger] v[i]).id == i
    &&& forall|i: int|
        0 < i < v.len() ==> parent_ok(v, i, #[trigger] v[i])
}

impl Toc {
    #[verifier::type_invariant]
    closed spec fn type_inv(&self) -> bool {
        self.wf()
    }

    /// The nodes, in load order.
    pub closed spec fn spec_nodes(&self) -> Seq<NodeView> {
        views(self.nodes@)
    }

    /// Whether the table holds nodes.
    pub open spec fn loaded(&self) -> bool {
        self.spec_nodes().len() > 0
    }

    /// The table is empty, or a tree whose place lists match its nodes.
    pub closed spec fn wf(&self) -> bool {
        &&& self.nodes@.len() < usize::MAX
        &&& forall|i: int| 0 <= i < self.nodes@.len() ==> (#[trigger] self.nodes@[i]).inv()
        &&& self.loaded() ==> tree_wf(self.spec_nodes())
        &&& places(self.dir_ids@) == kind_ids(self.spec_nodes(), NodeKind::Directory)
        &&& places(self.file_ids@) == kind_ids(self.spec_nodes(), NodeKind::File)
    }

    /// A table that holds nothing yet.
    pub fn new() -> (r: Toc)
        ensures
            !r.loaded(),
    {
        let nodes: Vec<Node> = Vec::new();
        let dir_ids: Vec<usize> = Vec::new();
        let file_ids: Vec<usize> = Vec::new();
        proof {
            assert(views(nodes@) =~= Seq::<NodeView>::empty());
            assert(places(dir_ids@) =~= Seq::<nat>::empty());
            assert(places(file_ids@) =~= Seq::<nat>::empty());
        }
        Toc { nodes, dir_ids, file_ids }
    }

    /// Whether the table holds nodes.
    pub fn is_loaded(&self) -> (r: bool)
        ensures
            r == self.loaded(),
    {
        self.nodes.len() > 0
    }

    /// Forgets the nodes.
    pub fn unread_toc(&mut self)
        ensures
            !final(self).loaded(),
    {
        *self = Toc::new();
    }

    /// Loads the table stored in `b`, unless one is loaded already.
    pub fn read_toc(&mut self, b: &[u8]) -> (r: Result<(), LotusError>)
        ensures
            old(self).loaded() ==> r is Ok && final(self).spec_nodes() == old(self).spec_nodes(),
            !old(self).loaded() ==> (r is Ok <==> toc_nodes(b@) is Ok),
            !old(self).loaded() ==> (r matches Err(e) ==> toc_nodes(b@) == Err::<
                Seq<NodeView>,
                LotusError,
            >(e) && !final(self).loaded()),
            final(self).loaded() ==> tree_wf(final(self).spec_nodes()),
            !old(self).loaded() && r is Ok ==> Ok::<Seq<NodeView>, LotusError>(
                final(self).spec_nodes(),
            ) == toc_nodes(b@),
    {
        proof {
            use_type_invariant(&*self);
        }
        if self.is_loaded() {
            return Ok(());
        }
        match Toc::load(b) {
            Ok(t) => {
                *self = t;
                Ok(())
            },
            Err(e) => {
                *self = Toc::new();
                Err(e)
            },
        }
    }

    /// The table stored in `b`.
    pub fn load(b: &[u8]) -> (r: Result<Toc, LotusError>)
        ensures
            r is Ok <==> toc_nodes(b@) is Ok,
            r matches Err(e) ==> toc_nodes(b@) == Err::<Seq<NodeView>, LotusError>(e),
            r matches Ok(t) ==> t.loaded() && tree_wf(t.spec_nodes()) && Ok::<Seq<NodeView>, LotusError>(
                t.spec_nodes(),
            ) == toc_nodes(b@),
    {
        let n = b.len();
        if n < TOC_HEADER_SIZE || (n - TOC_HEADER_SIZE) % TOC_ENTRY_SIZE != 0 {
            return Err(LotusError::BadFormat);
        }
        if le_u32(b, 0) != TOC_MAGIC {
            return Err(LotusError::BadFormat);
        }
        let count = (n - TOC_HEADER_SIZE) / TOC_ENTRY_SIZE;
        let root_bytes: Vec<u8> = Vec::new();
        let root_name = match decode_utf8(root_bytes.as_slice()) {
            Some(s) => s,
            None => String::new(),
        };
        let root = Node {
            id: 0,
            name: root_name,
            name_bytes: root_bytes,
            kind: NodeKind::Directory,
            parent: None,
            cache_offset: DIRECTORY_OFFSET,
            timestamp: 0,
            comp_len: 0,
            len: 0,
        };
        let mut nodes: Vec<Node> = Vec::new();
        nodes.push(root);
        let mut dir_ids: Vec<usize> = Vec::new();
        dir_ids.push(0);
        let mut file_ids: Vec<usize> = Vec::new();
        proof {
            assert(root@ =~= root_view());
            assert(views(nodes@) =~= seq![root_view()]);
            let v = views(nodes@);
            assert(v.drop_last() =~= Seq::<NodeView>::empty());
            assert(kind_ids(v.drop_last(), NodeKind::Directory) =~= Seq::<nat>::empty());
            assert(kind_ids(v.drop_last(), NodeKind::File) =~= Seq::<nat>::empty());
            assert(kind_ids(v, NodeKind::Directory) =~= seq![0nat]);
            assert(kind_ids(v, NodeKind::File) =~= Seq::<nat>::empty());
            assert(places(dir_ids@) =~= seq![0nat]);
            assert(places(file_ids@) =~= Seq::<nat>::empty());
        }
        let mut k: usize = 0;
        while k < count
            invariant
                n == b@.len(),
                count == entry_count(b@),
                n >= TOC_HEADER_SIZE,
                k <= count,
                nodes@.len() <= k + 1,
                forall|i: int| 0 <= i < nodes@.len() ==> (#[trigger] nodes@[i]).inv(),
                tree_wf(views(nodes@)),
                places(dir_ids@) == kind_ids(views(nodes@), NodeKind::Directory),
                places(file_ids@) == kind_ids(views(nodes@), NodeKind::File),
                load_from(b@, 0, seq![root_view()]) == load_from(b@, k as int, views(nodes@)),
            decreases count - k,
        {
            let at = TOC_HEADER_SIZE + TOC_ENTRY_SIZE * k;
            let entry = RawTocEntry::read(b, at);
            if entry.timestamp != 0 {
                let cut = first_nul(entry.name.as_slice());
                let name_bytes = copy_bytes(&entry.name.as_slice()[0..cut]);
                proof {
                    assert(name_bytes@ =~= before_nul(b@.subrange(at + 32, at + 96)));
                }
                let name = match decode_utf8(name_bytes.as_slice()) {
                    Some(s) => s,
                    None => {
                        return Err(LotusError::BadFormat);
                    },
                };
                let pdi = entry.parent_dir_index;
                if pdi < 0 || pdi as usize >= dir_ids.len() {
                    return Err(LotusError::BadFormat);
                }
                let parent = dir_ids[pdi as usize];
                let id = nodes.len();
                let kind = if entry.cache_offset == DIRECTORY_OFFSET {
                    NodeKind::Directory
                } else {
                    NodeKind::File
                };
                let node = Node {
                    id,
                    name,
                    name_bytes,
                    kind,
                    parent: Some(parent),
                    cache_offset: entry.cache_offset,
                    timestamp: entry.timestamp,
                    comp_len: entry.comp_len,
                    len: entry.len,
                };
                let ghost old_views = views(nodes@);
                let ghost old_dirs = dir_ids@;
                let ghost old_files = file_ids@;
                proof {
                    assert(places(dir_ids@)[pdi as int] == dir_ids@[pdi as int]);
                    assert(node@ == entry_node(b@, at as int, old_views.len(), parent as nat));
                    lemma_kind_ids_bound(old_views, NodeKind::Directory);
                    assert(old_views[parent as int].kind == NodeKind::Directory);
                }
                nodes.push(node);
                if kind == NodeKind::Directory {
                    dir_ids.push(id);
                } else {
                    file_ids.push(id);
                }
                proof {
                    let v = views(nodes@);
                    assert(v =~= old_views.push(node@));
                    assert(v.drop_last() =~= old_views);
                    if kind == NodeKind::Directory {
                        assert(places(dir_ids@) =~= places(old_dirs).push(id as nat));
                        assert(file_ids@ == old_files);
                    } else {
                        assert(places(file_ids@) =~= places(old_files).push(id as nat));
                        assert(dir_ids@ == old_dirs);
                    }
                    assert forall|i: int| 0 < i < v.len() implies parent_ok(v, i, #[trigger] v[i]) by {
                        if i < old_views.len() {
                            assert(v[i] == old_views[i]);
                        }
                    }
                    assert forall|i: int| 0 <= i < v.len() implies (#[trigger] v[i]).id == i by {
                        if i < old_views.len() {
                            assert(v[i] == old_views[i]);
                        }
                    }
                }
            }
            k += 1;
        }
        proof {
            lemma_load_done(b@, k as int, views(nodes@));
        }
        let t = Toc { nodes, dir_ids, file_ids };
        Ok(t)
    }
}

proof fn lemma_load_done(b: Seq<u8>, k: int, nodes: Seq<NodeView>)
    requires
        k >= entry_count(b),
    ensures
        load_from(b, k, nodes) == Ok::<Seq<NodeView>, LotusError>(nodes),
{
}

/// Every place in the list of one kind is the place of a node of that kind.
proof fn lemma_kind_ids_bound(nodes: Seq<NodeView>, kind: NodeKind)
    requires
        forall|i: int| 0 <= i < nodes.len() ==> (#[trigger] nodes[i]).id == i,
    ensures
        forall|j: int|
            0 <= j < kind_ids(nodes, kind).len() ==> (#[trigger] kind_ids(nodes, kind)[j])
                < nodes.len() && nodes[kind_ids(nodes, kind)[j] as int].kind == kind,
    decreases nodes.len(),
{
    if nodes.len() > 0 {
        let rest = nodes.drop_last();
        assert forall|i: int| 0 <= i < rest.len() implies (#[trigger] rest[i]).id == i by {
            assert(rest[i] == nodes[i]);
        }
        lemma_kind_ids_bound(rest, kind);
        let ks = kind_ids(nodes, kind);
        assert forall|j: int| 0 <= j < ks.len() implies (#[trigger] ks[j]) < nodes.len()
            && nodes[ks[j] as int].kind == kind by {
            if j < kind_ids(rest, kind).len() {
                assert(ks[j] == kind_ids(rest, kind)[j]);
                assert(nodes[ks[j] as int] == rest[ks[j] as int]);
            } else {
                assert(nodes.last().id == nodes.len() - 1);
            }
        }
    }
}

} // verus!

verus! {

/// The byte that separates the parts of a path.
pub const SEPARATOR: u8 = 0x2F;

/// The byte of "." and "..".
pub const DOT: u8 = 0x2E;

/// The end of the part of `s` that runs from `i`: the next separator at or
/// after `i`, or the end of `s`.
pub open spec fn seg_end_from(s: Seq<u8>, i: int) -> int
    decreases s.len() - i,
{
    if i < 0 || i >= s.len() {
        s.len() as int
    } else if s[i] == SEPARATOR {
        i
    } else {
        seg_end_from(s, i + 1)
    }
}

proof fn lemma_seg_end_bounds(s: Seq<u8>, i: int)
    requires
        0 <= i <= s.len(),
    ensures
        i <= seg_end_from(s, i) <= s.len(),
    decreases s.len() - i,
{
    if i < s.len() && s[i] != SEPARATOR {
        lemma_seg_end_bounds(s, i + 1);
    }
}

#[via_fn]
proof fn path_components_decreases(s: Seq<u8>) {
    if s.len() > 0 && s[0] != SEPARATOR {
        lemma_seg_end_bounds(s, 1);
    }
}

/// The parts of a path between its separators, empty ones left out.
pub open spec fn path_components(s: Seq<u8>) -> Seq<Seq<u8>>
    decreases s.len(),
    via path_components_decreases
{
    if s.len() == 0 {
        seq![]
    } else if s[0] == SEPARATOR {
        path_components(s.skip(1))
    } else {
        let e = seg_end_from(s, 0);
        seq![s.take(e)] + path_components(s.skip(e))
    }
}

/// The first node, in load order from place `j`, that is a child of `d` named `name`.
pub open spec fn first_child_from(v: Seq<NodeView>, d: nat, name: Seq<u8>, j: int) -> Option<nat>
    decreases v.len() - j,
{
    if j < 0 || j >= v.len() {
        None
    } else if v[j].parent == Some(d) && v[j].name == name {
        Some(j as nat)
    } else {
        first_child_from(v, d, name, j + 1)
    }
}

/// Whether a path part is ".".
pub open spec fn is_dot(c: Seq<u8>) -> bool {
    c == seq![DOT]
}

/// Whether a path part is "..".
pub open spec fn is_dot_dot(c: Seq<u8>) -> bool {
    c == seq![DOT, DOT]
}

/// Follows the path parts `cs` from node `cur`: "." stays, ".." goes to the
/// parent (an error at the root), a name goes to the first child of that name.
/// `Ok(None)` where a name is not found.
pub open spec fn resolve(v: Seq<NodeView>, cur: nat, cs: Seq<Seq<u8>>) -> Result<
    Option<nat>,
    LotusError,
>
    decreases cs.len(),
{
    if cs.len() == 0 {
        Ok(Some(cur))
    } else {
        let c = cs[0];
        let rest = cs.skip(1);
        if is_dot(c) {
            resolve(v, cur, rest)
        } else if is_dot_dot(c) {
            if cur < v.len() && v[cur as int].parent is Some {
                resolve(v, v[cur as int].parent->Some_0, rest)
            } else {
                Err(LotusError::BadPath)
            }
        } else {
            match first_child_from(v, cur, c, 0) {
                None => Ok(None),
                Some(j) => resolve(v, j, rest),
            }
        }
    }
}

/// The node that an absolute path names: an error for a relative path, and
/// nothing in a table that holds no nodes.
pub open spec fn lookup(v: Seq<NodeView>, p: Seq<u8>) -> Result<Option<nat>, LotusError> {
    if v.len() == 0 {
        Ok(None)
    } else if p.len() == 0 || p[0] != SEPARATOR {
        Err(LotusError::BadPath)
    } else {
        resolve(v, 0, path_components(p))
    }
}

/// Whether two byte strings are equal.
pub fn bytes_eq(a: &[u8], b: &[u8]) -> (r: bool)
    ensures
        r == (a@ == b@),
{
    if a.len() != b.len() {
        return false;
    }
    let mut i: usize = 0;
    while i < a.len()
        invariant
            a@.len() == b@.len(),
            i <= a@.len(),
            a@.take(i as int) == b@.take(i as int),
        decreases a@.len() - i,
    {
        if a[i] != b[i] {
            proof {
                assert(a@[i as int] != b@[i as int]);
            }
            return false;
        }
        proof {
            assert(a@.take(i + 1) =~= a@.take(i as int).push(a@[i as int]));
            assert(b@.take(i + 1) =~= b@.take(i as int).push(b@[i as int]));
        }
        i += 1;
    }
    proof {
        assert(a@.take(a@.len() as int) =~= a@);
        assert(b@.take(b@.len() as int) =~= b@);
    }
    true
}

impl Toc {
    /// The first child of directory `d` named `name`, in load order.
    fn child_named(&self, d: usize, name: &[u8]) -> (r: Option<usize>)
        ensures
            r matches Some(j) ==> first_child_from(self.spec_nodes(), d as nat, name@, 0) == Some(
                j as nat,
            ) && j < self.spec_nodes().len(),
            r is None ==> first_child_from(self.spec_nodes(), d as nat, name@, 0) is None,
    {
        proof {
            use_type_invariant(self);
        }
        let mut j: usize = 0;
        while j < self.nodes.len()
            invariant
                self.wf(),
                j <= self.nodes@.len(),
                first_child_from(self.spec_nodes(), d as nat, name@, 0) == first_child_from(
                    self.spec_nodes(),
                    d as nat,
                    name@,
                    j as int,
                ),
            decreases self.nodes@.len() - j,
        {
            let n = &self.nodes[j];
            proof {
                assert(self.spec_nodes()[j as int] == n@);
            }
            if n.parent == Some(d) && bytes_eq(n.name_bytes.as_slice(), name) {
                return Some(j);
            }
            j += 1;
        }
        None
    }

    /// The place of the node that the absolute path `p` names.
    pub fn find_id(&self, p: &[u8]) -> (r: Result<Option<usize>, LotusError>)
        ensures
            r matches Ok(Some(i)) ==> lookup(self.spec_nodes(), p@) == Ok::<
                Option<nat>,
                LotusError,
            >(Some(i as nat)) && i < self.spec_nodes().len(),
            r matches Ok(None) ==> lookup(self.spec_nodes(), p@) == Ok::<
                Option<nat>,
                LotusError,
            >(None),
            r matches Err(e) ==> lookup(self.spec_nodes(), p@) == Err::<Option<nat>, LotusError>(e),
    {
        proof {
            use_type_invariant(self);
        }
        if self.nodes.len() == 0 {
            return Ok(None);
        }
        let n = p.len();
        if n == 0 || p[0] != SEPARATOR {
            return Err(LotusError::BadPath);
        }
        let ghost v = self.spec_nodes();
        let mut cur: usize = 0;
        let mut pos: usize = 0;
        proof {
            assert(p@.skip(0) =~= p@);
        }
        while pos < n
            invariant
                self.wf(),
                self.loaded(),
                n == p@.len(),
                pos <= n,
                cur < v.len(),
                v == self.spec_nodes(),
                lookup(v, p@) == resolve(v, cur as nat, path_components(p@.skip(pos as int))),
            decreases n - pos,
        {
            let ghost q = p@.skip(pos as int);
            if p[pos] == SEPARATOR {
                proof {
                    assert(q.skip(1) =~= p@.skip(pos + 1));
                }
                pos += 1;
            } else {
                let mut j: usize = pos;
                while j < n && p[j] != SEPARATOR
                    invariant
                        n == p@.len(),
                        pos <= j <= n,
                        q == p@.skip(pos as int),
                        q.len() > 0 && q[0] != SEPARATOR,
                        seg_end_from(q, 0) == seg_end_from(q, j - pos),
                    decreases n - j,
                {
                    proof {
                        assert(q[j - pos] == p@[j as int]);
                    }
                    j += 1;
                }
                proof {
                    if j < n {
                        assert(q[j - pos] == p@[j as int]);
                    }
                    assert(seg_end_from(q, j - pos) == j - pos);
                    assert(q.take(j - pos) =~= p@.subrange(pos as int, j as int));
                    assert(q.skip(j - pos) =~= p@.skip(j as int));
                    let cs = path_components(q);
                    assert(cs[0] == p@.subrange(pos as int, j as int));
                    assert(cs.skip(1) =~= path_components(p@.skip(j as int)));
                }
                let part = &p[pos..j];
                let plen = j - pos;
                if plen == 1 && part[0] == DOT {
                    proof {
                        assert(part@ =~= seq![DOT]);
                    }
                } else if plen == 2 && part[0] == DOT && part[1] == DOT {
                    proof {
                        assert(part@ =~= seq![DOT, DOT]);
                    }
                    let node = &self.nodes[cur];
                    proof {
                        assert(v[cur as int] == node@);
                    }
                    match node.parent {
                        Some(par) => {
                            proof {
                                assert(v[cur as int].parent == Some(par as nat));
                                assert(cur > 0);
                                assert(parent_ok(v, cur as int, v[cur as int]));
                            }
                            cur = par;
                        },
                        None => {
                            return Err(LotusError::BadPath);
                        },
                    }
                } else {
                    proof {
                        if plen == 1 {
                            assert(!is_dot(part@)) by {
                                if is_dot(part@) {
                                    assert(part@[0] == DOT);
                                }
                            }
                            assert(!is_dot_dot(part@));
                        } else if plen == 2 {
                            assert(!is_dot_dot(part@)) by {
                                if is_dot_dot(part@) {
                                    assert(part@[0] == DOT && part@[1] == DOT);
                                }
                            }
                            assert(!is_dot(part@));
                        } else {
                            assert(!is_dot(part@));
                            assert(!is_dot_dot(part@));
                        }
                    }
                    match self.child_named(cur, part) {
                        Some(c) => {
                            cur = c;
                        },
                        None => {
                            return Ok(None);
                        },
                    }
                }
                pos = j;
            }
        }
        proof {
            assert(p@.skip(pos as int).len() == 0);
        }
        Ok(Some(cur))
    }
}

} // verus!

verus! {

/// What `find_file` or `find_directory` gives for a path: the node it names,
/// where that node is of `kind`.
pub open spec fn found_of_kind(v: Seq<NodeView>, p: Seq<u8>, kind: NodeKind) -> Result<
    Option<nat>,
    LotusError,
> {
    match lookup(v, p) {
        Ok(Some(i)) => if v[i as int].kind == kind {
            Ok(Some(i))
        } else {
            Ok(None)
        },
        other => other,
    }
}

impl Toc {
    /// The node at place `id`.
    pub fn node(&self, id: usize) -> (r: &Node)
        requires
            id < self.spec_nodes().len(),
        ensures
            r@ == self.spec_nodes()[id as int],
    {
        &self.nodes[id]
    }

    /// The root directory, where the table is loaded.
    pub fn root(&self) -> (r: Option<&Node>)
        ensures
            r matches Some(n) ==> self.loaded() && n@ == self.spec_nodes()[0],
            r is None ==> !self.loaded(),
    {
        if self.nodes.len() == 0 {
            None
        } else {
            Some(&self.nodes[0])
        }
    }

    /// The nodes of one kind, in load order.
    fn nodes_of_kind(&self, ids: &Vec<usize>, kind: NodeKind) -> (r: Vec<&Node>)
        requires
            places(ids@) == kind_ids(self.spec_nodes(), kind),
        ensures
            r@.len() == kind_ids(self.spec_nodes(), kind).len(),
            forall|k: int|
                0 <= k < r@.len() ==> (#[trigger] r@[k])@ == self.spec_nodes()[kind_ids(
                    self.spec_nodes(),
                    kind,
                )[k] as int],
    {
        proof {
            use_type_invariant(self);
            lemma_kind_ids_bound(self.spec_nodes(), kind);
        }
        let mut r: Vec<&Node> = Vec::new();
        let mut k: usize = 0;
        while k < ids.len()
            invariant
                places(ids@) == kind_ids(self.spec_nodes(), kind),
                forall|j: int|
                    0 <= j < kind_ids(self.spec_nodes(), kind).len() ==> (#[trigger] kind_ids(
                        self.spec_nodes(),
                        kind,
                    )[j]) < self.spec_nodes().len(),
                k <= ids@.len(),
                r@.len() == k,
                forall|j: int|
                    0 <= j < k ==> (#[trigger] r@[j])@ == self.spec_nodes()[kind_ids(
                        self.spec_nodes(),
                        kind,
                    )[j] as int],
            decreases ids@.len() - k,
        {
            let id = ids[k];
            proof {
                assert(places(ids@)[k as int] == id as nat);
                assert(kind_ids(self.spec_nodes(), kind)[k as int] == id as nat);
            }
            let n = &self.nodes[id];
            proof {
                assert(self.spec_nodes()[id as int] == n@);
            }
            r.push(n);
            k += 1;
        }
        r
    }

    /// The directories, in load order, the root first.
    pub fn directories(&self) -> (r: Vec<&Node>)
        ensures
            r@.len() == kind_ids(self.spec_nodes(), NodeKind::Directory).len(),
            forall|k: int|
                0 <= k < r@.len() ==> (#[trigger] r@[k])@ == self.spec_nodes()[kind_ids(
                    self.spec_nodes(),
                    NodeKind::Directory,
                )[k] as int],
    {
        proof {
            use_type_invariant(self);
        }
        self.nodes_of_kind(&self.dir_ids, NodeKind::Directory)
    }

    /// The files, in load order.
    pub fn files(&self) -> (r: Vec<&Node>)
        ensures
            r@.len() == kind_ids(self.spec_nodes(), NodeKind::File).len(),
            forall|k: int|
                0 <= k < r@.len() ==> (#[trigger] r@[k])@ == self.spec_nodes()[kind_ids(
                    self.spec_nodes(),
                    NodeKind::File,
                )[k] as int],
    {
        proof {
            use_type_invariant(self);
        }
        self.nodes_of_kind(&self.file_ids, NodeKind::File)
    }

    /// The places of the directories, in load order, the root first.
    pub fn directory_ids(&self) -> (r: &Vec<usize>)
        ensures
            places(r@) == kind_ids(self.spec_nodes(), NodeKind::Directory),
    {
        proof {
            use_type_invariant(self);
        }
        &self.dir_ids
    }

    /// The places of the files, in load order.
    pub fn file_ids(&self) -> (r: &Vec<usize>)
        ensures
            places(r@) == kind_ids(self.spec_nodes(), NodeKind::File),
    {
        proof {
            use_type_invariant(self);
        }
        &self.file_ids
    }

    /// The node of kind `kind` that the absolute path `p` names.
    fn find_of_kind(&self, p: &[u8], kind: NodeKind) -> (r: Result<Option<&Node>, LotusError>)
        ensures
            r matches Ok(Some(n)) ==> found_of_kind(self.spec_nodes(), p@, kind) == Ok::<
                Option<nat>,
                LotusError,
            >(Some(n@.id)) && n@ == self.spec_nodes()[n@.id as int],
            r matches Ok(None) ==> found_of_kind(self.spec_nodes(), p@, kind) == Ok::<
                Option<nat>,
                LotusError,
            >(None),
            r matches Err(e) ==> found_of_kind(self.spec_nodes(), p@, kind) == Err::<
                Option<nat>,
                LotusError,
            >(e),
    {
        proof {
            use_type_invariant(self);
        }
        match self.find_id(p) {
            Ok(Some(i)) => {
                let n = &self.nodes[i];
                proof {
                    assert(self.spec_nodes()[i as int] == n@);
                    assert(tree_wf(self.spec_nodes()));
                }
                if n.kind == kind {
                    Ok(Some(n))
                } else {
                    Ok(None)
                }
            },
            Ok(None) => Ok(None),
            Err(e) => Err(e),
        }
    }

    /// The file that the absolute path `p` names.
    pub fn find_file_bytes(&self, p: &[u8]) -> (r: Result<Option<&Node>, LotusError>)
        ensures
            r matches Ok(Some(n)) ==> found_of_kind(self.spec_nodes(), p@, NodeKind::File) == Ok::<
                Option<nat>,
                LotusError,
            >(Some(n@.id)) && n@ == self.spec_nodes()[n@.id as int],
            r matches Ok(None) ==> found_of_kind(self.spec_nodes(), p@, NodeKind::File) == Ok::<
                Option<nat>,
                LotusError,
            >(None),
            r matches Err(e) ==> found_of_kind(self.spec_nodes(), p@, NodeKind::File) == Err::<
                Option<nat>,
                LotusError,
            >(e),
    {
        proof {
            use_type_invariant(self);
        }
        self.find_of_kind(p, NodeKind::File)
    }

    /// The file that the absolute path `p` names.
    pub fn get_file_node(&self, p: &str) -> (r: Result<Option<&Node>, LotusError>)
        ensures
            r matches Ok(Some(n)) ==> found_of_kind(
                self.spec_nodes(),
                p.spec_bytes(),
                NodeKind::File,
            ) == Ok::<Option<nat>, LotusError>(Some(n@.id)) && n@ == self.spec_nodes()[n@.id as int],
            r matches Ok(None) ==> found_of_kind(self.spec_nodes(), p.spec_bytes(), NodeKind::File)
                == Ok::<Option<nat>, LotusError>(None),
            r matches Err(e) ==> found_of_kind(self.spec_nodes(), p.spec_bytes(), NodeKind::File)
                == Err::<Option<nat>, LotusError>(e),
    {
        proof {
            use_type_invariant(self);
        }
        self.find_of_kind(p.as_bytes(), NodeKind::File)
    }

    /// The directory that the absolute path `p` names.
    pub fn get_directory_node(&self, p: &str) -> (r: Result<Option<&Node>, LotusError>)
        ensures
            r matches Ok(Some(n)) ==> found_of_kind(
                self.spec_nodes(),
                p.spec_bytes(),
                NodeKind::Directory,
            ) == Ok::<Option<nat>, LotusError>(Some(n@.id)) && n@ == self.spec_nodes()[n@.id as int],
            r matches Ok(None) ==> found_of_kind(
                self.spec_nodes(),
                p.spec_bytes(),
                NodeKind::Directory,
            ) == Ok::<Option<nat>, LotusError>(None),
            r matches Err(e) ==> found_of_kind(
                self.spec_nodes(),
                p.spec_bytes(),
                NodeKind::Directory,
            ) == Err::<Option<nat>, LotusError>(e),
    {
        proof {
            use_type_invariant(self);
        }
        self.find_of_kind(p.as_bytes(), NodeKind::Directory)
    }
}

} // verus!

verus! {

/// The names from the root down to node `i`, the root's own (empty) name left
/// out.
pub open spec fn names_to(v: Seq<NodeView>, i: int) -> Seq<Seq<u8>>
    decreases i,
{
    if i <= 0 || i >= v.len() {
        seq![]
    } else {
        match v[i].parent {
            Some(p) => if p < i {
                names_to(v, p as int).push(v[i].name)
            } else {
                seq![]
            },
            None => seq![],
        }
    }
}

/// Names joined into a path, each after a separator.
pub open spec fn join_path(ns: Seq<Seq<u8>>) -> Seq<u8>
    decreases ns.len(),
{
    if ns.len() == 0 {
        seq![]
    } else {
        join_path(ns.drop_last()) + seq![SEPARATOR] + ns.last()
    }
}

/// The absolute path of node `i`: "/" for the root.
pub open spec fn path_of(v: Seq<NodeView>, i: int) -> Seq<u8> {
    if names_to(v, i).len() == 0 {
        seq![SEPARATOR]
    } else {
        join_path(names_to(v, i))
    }
}

/// A name that a path can carry as one part: not empty, not "." or "..", and
/// without a separator.
pub open spec fn name_plain(n: Seq<u8>) -> bool {
    &&& n.len() > 0
    &&& !is_dot(n)
    &&& !is_dot_dot(n)
    &&& forall|k: int| 0 <= k < n.len() ==> n[k] != SEPARATOR
}

/// Every node but the root has a plain name that no earlier sibling has.
pub open spec fn plain_names(v: Seq<NodeView>) -> bool {
    forall|i: int|
        0 < i < v.len() ==> name_plain((#[trigger] v[i]).name) && first_child_from(
            v,
            v[i].parent->Some_0,
            v[i].name,
            0,
        ) == Some(i as nat)
}

impl Toc {
    fn path_rec(&self, i: usize) -> (r: Vec<u8>)
        requires
            self.loaded(),
            i < self.spec_nodes().len(),
        ensures
            r@ == join_path(names_to(self.spec_nodes(), i as int)),
        decreases i,
    {
        proof {
            use_type_invariant(self);
        }
        if i == 0 {
            return Vec::new();
        }
        let n = &self.nodes[i];
        proof {
            assert(self.spec_nodes()[i as int] == n@);
            assert(parent_ok(self.spec_nodes(), i as int, self.spec_nodes()[i as int]));
        }
        match n.parent {
            Some(p) => {
                let mut r = self.path_rec(p);
                r.push(SEPARATOR);
                push_all(&mut r, n.name_bytes.as_slice());
                proof {
                    let ns = names_to(self.spec_nodes(), i as int);
                    assert(ns.drop_last() =~= names_to(self.spec_nodes(), p as int));
                }
                r
            },
            None => Vec::new(),
        }
    }

    /// The absolute path of node `id`, "/" for the root.
    pub fn path(&self, id: usize) -> (r: Vec<u8>)
        requires
            id < self.spec_nodes().len(),
        ensures
            r@ == path_of(self.spec_nodes(), id as int),
    {
        proof {
            use_type_invariant(self);
        }
        let r = self.path_rec(id);
        if r.len() == 0 {
            proof {
                lemma_join_path_start(names_to(self.spec_nodes(), id as int));
            }
            let mut root: Vec<u8> = Vec::new();
            root.push(SEPARATOR);
            proof {
                assert(root@ =~= seq![SEPARATOR]);
            }
            root
        } else {
            proof {
                if names_to(self.spec_nodes(), id as int).len() == 0 {
                    assert(join_path(names_to(self.spec_nodes(), id as int)).len() == 0);
                }
            }
            r
        }
    }
}

proof fn lemma_join_path_start(ns: Seq<Seq<u8>>)
    ensures
        ns.len() > 0 ==> join_path(ns).len() > 0 && join_path(ns)[0] == SEPARATOR,
        ns.len() == 0 ==> join_path(ns).len() == 0,
    decreases ns.len(),
{
    if ns.len() > 0 {
        lemma_join_path_start(ns.drop_last());
    }
}

proof fn lemma_seg_end_concat(a: Seq<u8>, t: Seq<u8>, i: int)
    requires
        0 <= i <= a.len(),
        t.len() == 0 || t[0] == SEPARATOR,
    ensures
        seg_end_from(a + t, i) == seg_end_from(a, i),
    decreases a.len() - i,
{
    if i < a.len() {
        assert((a + t)[i] == a[i]);
        if a[i] != SEPARATOR {
            lemma_seg_end_concat(a, t, i + 1);
        }
    } else if t.len() > 0 {
        assert((a + t)[i] == t[0]);
    }
}

proof fn lemma_components_concat(a: Seq<u8>, t: Seq<u8>)
    requires
        t.len() == 0 || t[0] == SEPARATOR,
    ensures
        path_components(a + t) == path_components(a) + path_components(t),
    decreases a.len(),
{
    if a.len() == 0 {
        assert(a + t =~= t);
        assert(path_components(a) =~= Seq::<Seq<u8>>::empty());
        assert(Seq::<Seq<u8>>::empty() + path_components(t) =~= path_components(t));
    } else if a[0] == SEPARATOR {
        assert((a + t)[0] == a[0]);
        assert((a + t).skip(1) =~= a.skip(1) + t);
        lemma_components_concat(a.skip(1), t);
    } else {
        assert((a + t)[0] == a[0]);
        lemma_seg_end_concat(a, t, 0);
        lemma_seg_end_bounds(a, 1);
        let e = seg_end_from(a, 0);
        assert((a + t).take(e) =~= a.take(e));
        assert((a + t).skip(e) =~= a.skip(e) + t);
        lemma_components_concat(a.skip(e), t);
        assert(seq![a.take(e)] + (path_components(a.skip(e)) + path_components(t)) =~= (seq![
            a.take(e),
        ] + path_components(a.skip(e))) + path_components(t));
    }
}

proof fn lemma_seg_end_plain(n: Seq<u8>, i: int)
    requires
        0 <= i <= n.len(),
        forall|k: int| 0 <= k < n.len() ==> n[k] != SEPARATOR,
    ensures
        seg_end_from(n, i) == n.len(),
    decreases n.len() - i,
{
    if i < n.len() {
        lemma_seg_end_plain(n, i + 1);
    }
}

proof fn lemma_components_join(ns: Seq<Seq<u8>>)
    requires
        forall|k: int| 0 <= k < ns.len() ==> name_plain(#[trigger] ns[k]),
    ensures
        path_components(join_path(ns)) == ns,
    decreases ns.len(),
{
    if ns.len() == 0 {
        assert(path_components(join_path(ns)) =~= ns);
    } else {
        let dl = ns.drop_last();
        let n = ns.last();
        assert(name_plain(ns[ns.len() - 1]));
        lemma_components_join(dl);
        let t = seq![SEPARATOR] + n;
        assert(join_path(ns) =~= join_path(dl) + t);
        lemma_components_concat(join_path(dl), t);
        assert(t.skip(1) =~= n);
        lemma_seg_end_plain(n, 0);
        assert(n.take(n.len() as int) =~= n);
        assert(n.skip(n.len() as int) =~= Seq::<u8>::empty());
        assert(n[0] != SEPARATOR);
        let empty = Seq::<u8>::empty();
        assert(path_components(empty) == Seq::<Seq<u8>>::empty());
        assert(path_components(n) == seq![n.take(n.len() as int)] + path_components(
            n.skip(n.len() as int),
        ));
        assert(path_components(n) =~= seq![n]);
        assert(path_components(t) =~= seq![n]);
        assert(dl + seq![n] =~= ns);
    }
}

proof fn lemma_resolve_append(v: Seq<NodeView>, cur: nat, a: Seq<Seq<u8>>, b: Seq<Seq<u8>>)
    ensures
        resolve(v, cur, a + b) == match resolve(v, cur, a) {
            Ok(Some(m)) => resolve(v, m, b),
            other => other,
        },
    decreases a.len(),
{
    if a.len() == 0 {
        assert(a + b =~= b);
    } else {
        assert((a + b)[0] == a[0]);
        assert((a + b).skip(1) =~= a.skip(1) + b);
        let c = a[0];
        if is_dot(c) {
            lemma_resolve_append(v, cur, a.skip(1), b);
        } else if is_dot_dot(c) {
            if cur < v.len() && v[cur as int].parent is Some {
                lemma_resolve_append(v, v[cur as int].parent->Some_0, a.skip(1), b);
            }
        } else {
            match first_child_from(v, cur, c, 0) {
                None => {},
                Some(j) => {
                    lemma_resolve_append(v, j, a.skip(1), b);
                },
            }
        }
    }
}

proof fn lemma_names_to(v: Seq<NodeView>, i: int)
    requires
        tree_wf(v),
        plain_names(v),
        0 <= i < v.len(),
    ensures
        forall|k: int| 0 <= k < names_to(v, i).len() ==> name_plain(#[trigger] names_to(v, i)[k]),
        resolve(v, 0, names_to(v, i)) == Ok::<Option<nat>, LotusError>(Some(i as nat)),
        i > 0 ==> names_to(v, i).len() > 0,
    decreases i,
{
    if i > 0 {
        assert(parent_ok(v, i, v[i]));
        let p = v[i].parent->Some_0;
        lemma_names_to(v, p as int);
        let ns = names_to(v, i);
        let n = v[i].name;
        assert(ns == names_to(v, p as int).push(n));
        assert(name_plain(n));
        assert forall|k: int| 0 <= k < ns.len() implies name_plain(#[trigger] ns[k]) by {
            if k < ns.len() - 1 {
                assert(ns[k] == names_to(v, p as int)[k]);
            }
        }
        lemma_resolve_append(v, 0, names_to(v, p as int), seq![n]);
        assert(names_to(v, p as int) + seq![n] =~= ns);
        assert(seq![n].skip(1) =~= Seq::<Seq<u8>>::empty());
        assert(first_child_from(v, p, n, 0) == Some(i as nat));
        let none = Seq::<Seq<u8>>::empty();
        assert(resolve(v, i as nat, none) == Ok::<Option<nat>, LotusError>(Some(i as nat)));
        assert(!is_dot(n) && !is_dot_dot(n));
        assert(resolve(v, p, seq![n]) == resolve(v, i as nat, seq![n].skip(1)));
    } else {
        assert(v[0] == root_view());
    }
}

/// In a tree whose names are plain, looking up the path of a node finds that
/// node.
pub proof fn lemma_find_path(v: Seq<NodeView>, i: int)
    requires
        tree_wf(v),
        plain_names(v),
        0 <= i < v.len(),
    ensures
        lookup(v, path_of(v, i)) == Ok::<Option<nat>, LotusError>(Some(i as nat)),
        found_of_kind(v, path_of(v, i), v[i].kind) == Ok::<Option<nat>, LotusError>(
            Some(i as nat),
        ),
{
    lemma_names_to(v, i);
    let ns = names_to(v, i);
    if ns.len() == 0 {
        let p = seq![SEPARATOR];
        let empty = Seq::<u8>::empty();
        assert(p.skip(1) =~= empty);
        assert(path_components(empty) == Seq::<Seq<u8>>::empty());
        assert(path_components(p) == path_components(p.skip(1)));
        let none = Seq::<Seq<u8>>::empty();
        assert(resolve(v, 0, none) == Ok::<Option<nat>, LotusError>(Some(0)));
    } else {
        lemma_join_path_start(ns);
        lemma_components_join(ns);
    }
}

} // verus!
