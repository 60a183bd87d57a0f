use lotus_lib::cache_pair::{CachePair, CachePairReader};
use lotus_lib::package::{get_pair_path, Package, PackageCollection, PackageType};

fn listing(names: &[&str]) -> Vec<String> {
    names.iter().map(|s| s.to_string()).collect()
}

#[test]
fn package_type_letters() {
    assert_eq!(PackageType::try_from_char('h').unwrap(), PackageType::H);
    assert_eq!(PackageType::try_from_char('F').unwrap(), PackageType::F);
    assert!(PackageType::try_from_char('x').is_err());
    assert_eq!(PackageType::try_from_str("b").unwrap(), PackageType::B);
    assert!(PackageType::try_from_str("BB").is_err());
    assert!(PackageType::try_from_str("").is_err());
    assert_eq!(PackageType::B.to_char(), 'B');
}

#[test]
fn pair_paths() {
    let (toc, cache) = get_pair_path("/cache", "Misc", PackageType::H).unwrap();
    assert_eq!(toc, "/cache/H.Misc.toc");
    assert_eq!(cache, "/cache/H.Misc.cache");
    let (toc, _) = get_pair_path("/cache/", "Misc", PackageType::F).unwrap();
    assert_eq!(toc, "/cache/F.Misc.toc");
    let (toc, _) = get_pair_path("", "Misc", PackageType::B).unwrap();
    assert_eq!(toc, "B.Misc.toc");
}

#[test]
fn package_members_follow_listing() {
    let files = listing(&["H.Misc.toc", "H.Misc.cache", "B.Misc.cache", "F.Other.toc"]);
    let mut p: Package<CachePairReader> = Package::new("/c".to_string(), "Misc".to_string(), true, &files);
    assert_eq!(p.name(), "Misc");
    assert_eq!(p.directory(), "/c");
    assert!(p.is_post_ensmallening());
    let h = p.borrow(PackageType::H).unwrap();
    assert_eq!(h.toc_path(), "/c/H.Misc.toc");
    assert_eq!(h.cache_path(), "/c/H.Misc.cache");
    assert!(p.borrow(PackageType::F).is_none());
    assert!(p.borrow(PackageType::B).is_some());
    assert!(p.borrow_mut(PackageType::B).is_some());
    assert!(p.take(PackageType::B).is_some());
    assert!(p.borrow(PackageType::B).is_none());
}

#[test]
fn collection_from_listing() {
    let files = listing(&["H.Misc.toc", "F.Misc.cache", "H.toc", "B.Misc.toc", "H.Sounds.toc", "readme.txt"]);
    let mut c: PackageCollection<CachePairReader> = PackageCollection::new("/c".to_string(), false, &files);
    assert_eq!(c.packages().len(), 2);
    assert_eq!(c.packages()[0].name(), "Misc");
    assert_eq!(c.packages()[1].name(), "Sounds");
    assert!(!c.is_post_ensmallening());
    assert_eq!(c.directory(), "/c");
    assert!(c.borrow("Sounds").is_some());
    assert!(c.borrow("Nope").is_none());
    assert!(c.borrow_mut("Misc").is_some());
    let misc = c.take("Misc").unwrap();
    assert!(misc.borrow(PackageType::F).is_some());
    assert_eq!(c.packages().len(), 1);
}
