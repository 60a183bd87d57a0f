use lotus_lib::cache_pair::{CachePair, CachePairReader};
use lotus_lib::toc::{NodeKind, RawTocEntry, Toc};
use lotus_lib::LotusError;

fn entry(cache_offset: i64, timestamp: i64, comp_len: i32, len: i32, parent: i32, name: &[u8]) -> Vec<u8> {
    let mut v = Vec::new();
    v.extend_from_slice(&cache_offset.to_le_bytes());
    v.extend_from_slice(&timestamp.to_le_bytes());
    v.extend_from_slice(&comp_len.to_le_bytes());
    v.extend_from_slice(&len.to_le_bytes());
    v.extend_from_slice(&0i32.to_le_bytes());
    v.extend_from_slice(&parent.to_le_bytes());
    let mut n = [0u8; 64];
    n[..name.len()].copy_from_slice(name);
    v.extend_from_slice(&n);
    v
}

fn toc_bytes(entries: &[Vec<u8>]) -> Vec<u8> {
    let mut v = Vec::new();
    v.extend_from_slice(&0x1867C64Eu32.to_le_bytes());
    v.extend_from_slice(&20u32.to_le_bytes());
    for e in entries {
        v.extend_from_slice(e);
    }
    v
}

fn xyz_toc() -> Toc {
    let bytes = toc_bytes(&[
        entry(-1, 5, 0, 0, 0, b"x"),
        entry(-1, 5, 0, 0, 1, b"y"),
        entry(100, 7, 10, 20, 2, b"z"),
    ]);
    Toc::load(&bytes).unwrap()
}

#[test]
fn toc_tombstone() {
    let bytes = toc_bytes(&[entry(0, 0, 4, 4, 0, b"a"), entry(0, 1, 4, 4, 0, b"a")]);
    let toc = Toc::load(&bytes).unwrap();
    assert_eq!(toc.file_ids().len(), 1);
    let a = toc.get_file_node("/a").unwrap().unwrap();
    assert_eq!(a.timestamp(), Some(1));
    assert_eq!(a.comp_len(), Some(4));
    assert_eq!(a.len(), Some(4));
    assert_eq!(a.cache_offset(), Some(0));
}

#[test]
fn path_traversal() {
    let toc = xyz_toc();
    let z = toc.get_file_node("/x/y/./../y/z").unwrap().unwrap();
    assert_eq!(z.name(), "z");
    assert_eq!(z.kind(), NodeKind::File);
    assert!(toc.get_file_node("/x/y/../..").unwrap().is_none());
    assert_eq!(toc.get_file_node("z").err(), Some(LotusError::BadPath));
}

#[test]
fn path_above_root_is_rejected() {
    let toc = xyz_toc();
    assert_eq!(toc.get_directory_node("/..").err(), Some(LotusError::BadPath));
    assert_eq!(toc.get_file_node("/x/../../z").err(), Some(LotusError::BadPath));
}

#[test]
fn directory_lookup_and_kinds() {
    let toc = xyz_toc();
    let y = toc.get_directory_node("/x/y").unwrap().unwrap();
    assert_eq!(y.kind(), NodeKind::Directory);
    assert_eq!(y.cache_offset(), None);
    assert!(toc.get_directory_node("/x/y/z").unwrap().is_none());
    assert!(toc.get_file_node("/x/missing").unwrap().is_none());
    let root = toc.get_directory_node("/").unwrap().unwrap();
    assert_eq!(root.id(), 0);
    assert_eq!(toc.get_directory_node("//x///y/").unwrap().unwrap().id(), y.id());
}

#[test]
fn find_of_path_gives_node() {
    let toc = xyz_toc();
    for id in 0..4usize {
        let path = String::from_utf8(toc.path(id)).unwrap();
        let node = toc.node(id);
        let found = match node.kind() {
            NodeKind::File => toc.get_file_node(&path).unwrap().unwrap(),
            NodeKind::Directory => toc.get_directory_node(&path).unwrap().unwrap(),
        };
        assert_eq!(found.id(), id);
    }
    assert_eq!(toc.path(0), b"/".to_vec());
    assert_eq!(toc.path(3), b"/x/y/z".to_vec());
}

#[test]
fn load_order_lists() {
    let toc = xyz_toc();
    assert_eq!(toc.directory_ids(), &vec![0usize, 1, 2]);
    assert_eq!(toc.file_ids(), &vec![3usize]);
    assert_eq!(toc.node(3).parent(), Some(2));
    assert_eq!(toc.node(0).parent(), None);
}

#[test]
fn misaligned_toc_is_rejected() {
    let mut bytes = toc_bytes(&[entry(0, 1, 4, 4, 0, b"a")]);
    bytes.push(0);
    assert_eq!(Toc::load(&bytes).err(), Some(LotusError::BadFormat));
    assert_eq!(Toc::load(&[0u8; 3]).err(), Some(LotusError::BadFormat));
}

#[test]
fn unknown_parent_is_rejected() {
    let bytes = toc_bytes(&[entry(0, 1, 4, 4, 1, b"a")]);
    assert_eq!(Toc::load(&bytes).err(), Some(LotusError::BadFormat));
    let bytes = toc_bytes(&[entry(0, 1, 4, 4, -1, b"a")]);
    assert_eq!(Toc::load(&bytes).err(), Some(LotusError::BadFormat));
}

#[test]
fn invalid_utf8_name_is_rejected() {
    let bytes = toc_bytes(&[entry(0, 1, 4, 4, 0, &[0xFF, 0xFE])]);
    assert_eq!(Toc::load(&bytes).err(), Some(LotusError::BadFormat));
    let bytes = toc_bytes(&[entry(0, 1, 4, 4, 0, "é.txt".as_bytes())]);
    let toc = Toc::load(&bytes).unwrap();
    assert_eq!(toc.node(1).name(), "é.txt");
}

#[test]
fn full_length_name_has_no_terminator() {
    let name = [b'n'; 64];
    let bytes = toc_bytes(&[entry(0, 1, 4, 4, 0, &name)]);
    let toc = Toc::load(&bytes).unwrap();
    assert_eq!(toc.node(1).name_bytes().len(), 64);
}

#[test]
fn empty_table_has_only_root() {
    let toc = Toc::load(&toc_bytes(&[])).unwrap();
    assert!(toc.is_loaded());
    assert_eq!(toc.file_ids().len(), 0);
    assert_eq!(toc.directory_ids(), &vec![0usize]);
}

#[test]
fn unloaded_table_finds_nothing() {
    let mut toc = Toc::new();
    assert!(!toc.is_loaded());
    assert!(toc.get_file_node("/a").unwrap().is_none());
    assert!(toc.root().is_none());
    toc.read_toc(&toc_bytes(&[entry(0, 1, 4, 4, 0, b"a")])).unwrap();
    assert!(toc.get_file_node("/a").unwrap().is_some());
    toc.unread_toc();
    assert!(!toc.is_loaded());
}

#[test]
fn raw_entry_fields() {
    let bytes = entry(-1, 9, 3, 4, 2, b"dir");
    let e = RawTocEntry::read(&bytes, 0);
    assert_eq!(e.cache_offset, -1);
    assert_eq!(e.timestamp, 9);
    assert_eq!(e.comp_len, 3);
    assert_eq!(e.len, 4);
    assert_eq!(e.parent_dir_index, 2);
    assert_eq!(&e.name[..3], b"dir");
    assert_eq!(e.name.len(), 64);
}

#[test]
fn stored_entry_is_returned_raw() {
    let mut pair = <CachePairReader as CachePair>::new("a.toc".to_string(), "a.cache".to_string(), true);
    pair.read_toc(&toc_bytes(&[entry(0, 1, 4, 4, 0, b"a")])).unwrap();
    let node = pair.get_file_node("/a").unwrap().unwrap();
    let raw = [1u8, 2, 3, 4];
    assert_eq!(pair.decompress_data(node, &raw, &Vec::new()).unwrap(), raw.to_vec());
    let dir = pair.get_directory_node("/").unwrap().unwrap();
    assert_eq!(pair.decompress_data(dir, &raw, &Vec::new()).err(), Some(LotusError::NotFound));
    assert!(pair.is_post_ensmallening());
    assert_eq!(pair.cache_path(), "a.cache");
}

#[test]
fn compressed_entry_is_decompressed() {
    let text = b"abcabcabcabcabcabcabcabc".to_vec();
    let packed = lz4_flex::compress_prepend_size(&text);
    let mut pair = <CachePairReader as CachePair>::new("a.toc".to_string(), "a.cache".to_string(), false);
    pair.read_toc(&toc_bytes(&[entry(0, 1, packed.len() as i32, text.len() as i32, 0, b"a")])).unwrap();
    let node = pair.get_file_node("/a").unwrap().unwrap();
    assert_eq!(pair.decompress_data(node, &packed, &Vec::new()).unwrap(), text);
}

#[test]
fn raw_of_wrong_length_is_rejected() {
    let mut pair = <CachePairReader as CachePair>::new("a.toc".to_string(), "a.cache".to_string(), true);
    pair.read_toc(&toc_bytes(&[entry(0, 1, 4, 4, 0, b"a")])).unwrap();
    let node = pair.get_file_node("/a").unwrap().unwrap();
    assert_eq!(pair.decompress_data(node, &[1, 2, 3], &Vec::new()).err(), Some(LotusError::BadCompression));
}

#[test]
fn node_lists_in_load_order() {
    let mut pair = <CachePairReader as CachePair>::new("a.toc".to_string(), "a.cache".to_string(), true);
    pair.read_toc(&toc_bytes(&[
        entry(-1, 5, 0, 0, 0, b"x"),
        entry(1, 5, 2, 2, 1, b"f1"),
        entry(2, 5, 2, 2, 0, b"f2"),
    ]))
    .unwrap();
    let dirs: Vec<String> = pair.directories().iter().map(|n| n.name()).collect();
    let files: Vec<String> = pair.files().iter().map(|n| n.name()).collect();
    assert_eq!(dirs, vec!["".to_string(), "x".to_string()]);
    assert_eq!(files, vec!["f1".to_string(), "f2".to_string()]);
}

#[test]
fn wrong_magic_is_rejected() {
    let mut bytes = toc_bytes(&[entry(0, 1, 4, 4, 0, b"a")]);
    bytes[0] ^= 1;
    assert_eq!(Toc::load(&bytes).err(), Some(LotusError::BadFormat));
}
