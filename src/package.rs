use vstd::prelude::*;
use vstd::string::StringSliceAdditionalSpecFns;
use vstd::utf8::encode_utf8;

use crate::bytes::{copy_bytes, push_all};
use crate::cache_pair::CachePair;
use crate::error::LotusError;
use crate::names::{ends_with, has_suffix};
use crate::text::{decode_utf8, utf8_text};
use crate::toc::bytes_eq;

verus! {

/// The member of a package trio.
#[derive(Clone, Copy, Debug, PartialEq, Eq, Structural)]
pub enum PackageType {
    /// Headers and metadata.
    H,
    /// Compressed sound and texture assets.
    F,
    /// Compiled binary data.
    B,
}

/// The member of a package trio in the older layout.
#[derive(Clone, Copy, Debug, PartialEq, Eq, Structural)]
pub enum PackageTrioType {
    H,
    F,
    B,
}

/// The member that a letter names, in either case.
pub open spec fn package_type_of(c: char) -> Option<PackageType> {
    if c == 'H' || c == 'h' {
        Some(PackageType::H)
    } else if c == 'F' || c == 'f' {
        Some(PackageType::F)
    } else if c == 'B' || c == 'b' {
        Some(PackageType::B)
    } else {
        None
    }
}

/// The upper-case letter of a member, as a byte.
pub open spec fn letter_of(t: PackageType) -> u8 {
    match t {
        PackageType::H => 0x48,
        PackageType::F => 0x46,
        PackageType::B => 0x42,
    }
}

impl PackageType {
    /// The member that a letter names.
    pub fn try_from_char(c: char) -> (r: Result<PackageType, LotusError>)
        ensures
            r matches Ok(t) ==> package_type_of(c) == Some(t),
            r is Err ==> package_type_of(c) is None && r == Err::<PackageType, LotusError>(
                LotusError::BadFormat,
            ),
    {
        match c {
            'H' | 'h' => Ok(PackageType::H),
            'F' | 'f' => Ok(PackageType::F),
            'B' | 'b' => Ok(PackageType::B),
            _ => Err(LotusError::BadFormat),
        }
    }

    /// The member that a one-letter text names.
    pub fn try_from_str(s: &str) -> (r: Result<PackageType, LotusError>)
        ensures
            r is Ok <==> s.spec_bytes().len() == 1 && package_type_of(s.spec_bytes()[0] as char) is Some,
            r matches Ok(t) ==> package_type_of(s.spec_bytes()[0] as char) == Some(t),
            r matches Err(e) ==> e == LotusError::BadFormat,
    {
        let b = s.as_bytes();
        if b.len() != 1 {
            return Err(LotusError::BadFormat);
        }
        PackageType::try_from_char(b[0] as char)
    }

    /// The upper-case letter of the member.
    pub fn to_char(self) -> (r: char)
        ensures
            r as u8 == letter_of(self),
            package_type_of(r) == Some(self),
    {
        match self {
            PackageType::H => 'H',
            PackageType::F => 'F',
            PackageType::B => 'B',
        }
    }
}

/// ".toc".
pub open spec fn toc_ext() -> Seq<u8> {
    seq![0x2Eu8, 0x74, 0x6F, 0x63]
}

/// ".cache".
pub open spec fn cache_ext() -> Seq<u8> {
    seq![0x2Eu8, 0x63, 0x61, 0x63, 0x68, 0x65]
}

/// The file name of a member of the package `name`: its letter, ".", the
/// name, then the extension.
pub open spec fn member_file(t: PackageType, name: Seq<u8>, ext: Seq<u8>) -> Seq<u8> {
    seq![letter_of(t), 0x2Eu8] + name + ext
}

/// The path of `file` in directory `dir`.
pub open spec fn joined(dir: Seq<u8>, file: Seq<u8>) -> Seq<u8> {
    if dir.len() == 0 || dir.last() == 0x2Fu8 {
        dir + file
    } else {
        dir + seq![0x2Fu8] + file
    }
}

/// Whether a directory listing holds a file of this name.
pub open spec fn listed(listing: Seq<String>, file: Seq<u8>) -> bool {
    exists|i: int| 0 <= i < listing.len() && encode_utf8(#[trigger] listing[i]@) == file
}

fn member_file_bytes(t: PackageType, name: &[u8], ext: &[u8]) -> (r: Vec<u8>)
    ensures
        r@ == member_file(t, name@, ext@),
{
    let mut v: Vec<u8> = Vec::new();
    v.push(t.to_char() as u8);
    v.push(0x2E);
    push_all(&mut v, name);
    push_all(&mut v, ext);
    proof {
        assert(v@ =~= member_file(t, name@, ext@));
    }
    v
}

fn joined_bytes(dir: &[u8], file: &[u8]) -> (r: Vec<u8>)
    ensures
        r@ == joined(dir@, file@),
{
    let mut v = copy_bytes(dir);
    if dir.len() > 0 && dir[dir.len() - 1] != 0x2F {
        v.push(0x2F);
    }
    push_all(&mut v, file);
    proof {
        assert(v@ =~= joined(dir@, file@));
    }
    v
}

/// Whether `listing` holds a file named `file`.
fn is_listed(listing: &Vec<String>, file: &[u8]) -> (r: bool)
    ensures
        r == listed(listing@, file@),
{
    let mut i: usize = 0;
    while i < listing.len()
        invariant
            i <= listing@.len(),
            forall|j: int| 0 <= j < i ==> encode_utf8(#[trigger] listing@[j]@) != file@,
        decreases listing@.len() - i,
    {
        let entry = listing[i].as_str().as_bytes();
        if bytes_eq(entry, file) {
            return true;
        }
        i += 1;
    }
    false
}

/// The paths of the table of contents and of the cache of member `t` of the
/// package `name` in `directory`.
pub fn get_pair_path(directory: &str, name: &str, t: PackageType) -> (r: Result<
    (String, String),
    LotusError,
>)
    ensures
        r is Ok <==> utf8_text(joined(directory.spec_bytes(), member_file(t, name.spec_bytes(), toc_ext())))
            is Some && utf8_text(
            joined(directory.spec_bytes(), member_file(t, name.spec_bytes(), cache_ext())),
        ) is Some,
        r matches Ok((a, b)) ==> Some(a@) == utf8_text(
            joined(directory.spec_bytes(), member_file(t, name.spec_bytes(), toc_ext())),
        ) && Some(b@) == utf8_text(
            joined(directory.spec_bytes(), member_file(t, name.spec_bytes(), cache_ext())),
        ),
        r matches Err(e) ==> e == LotusError::BadFormat,
{
    let toc_ext_bytes: Vec<u8> = vec![0x2E, 0x74, 0x6F, 0x63];
    let cache_ext_bytes: Vec<u8> = vec![0x2E, 0x63, 0x61, 0x63, 0x68, 0x65];
    let toc_file = member_file_bytes(t, name.as_bytes(), toc_ext_bytes.as_slice());
    let cache_file = member_file_bytes(t, name.as_bytes(), cache_ext_bytes.as_slice());
    let toc_path = joined_bytes(directory.as_bytes(), toc_file.as_slice());
    let cache_path = joined_bytes(directory.as_bytes(), cache_file.as_slice());
    match (decode_utf8(toc_path.as_slice()), decode_utf8(cache_path.as_slice())) {
        (Some(a), Some(b)) => Ok((a, b)),
        _ => Err(LotusError::BadFormat),
    }
}

/// Whether member `t` of the package `name` is present in a directory whose
/// listing is `listing`: its table of contents or its cache is there.
pub open spec fn member_present(listing: Seq<String>, name: Seq<u8>, t: PackageType) -> bool {
    listed(listing, member_file(t, name, toc_ext())) || listed(listing, member_file(t, name, cache_ext()))
}

/// A package: up to three cache pairs that share a name.
pub struct Package<T: CachePair> {
    directory: String,
    name: String,
    is_post_ensmallening: bool,
    h_package: Option<T>,
    f_package: Option<T>,
    b_package: Option<T>,
}

impl<T: CachePair> Package<T> {
    /// The cache pair of member `t`, if present.
    pub closed spec fn member(&self, t: PackageType) -> Option<T> {
        match t {
            PackageType::H => self.h_package,
            PackageType::F => self.f_package,
            PackageType::B => self.b_package,
        }
    }

    /// The directory.
    pub closed spec fn spec_directory(&self) -> Seq<char> {
        self.directory@
    }

    /// The members are those that a directory of `directory` whose files are
    /// `listing` provides for this package's name, as `new` makes them.
    pub open spec fn members_from(&self, listing: Seq<String>, directory: Seq<char>, is_post: bool) -> bool {
        forall|t: PackageType|
            {
                &&& (#[trigger] self.member(t)) is Some <==> member_present(
                    listing,
                    encode_utf8(self.spec_name()),
                    t,
                ) && get_pair_path_ok(encode_utf8(directory), encode_utf8(self.spec_name()), t)
                &&& self.member(t) matches Some(p) ==> member_paths(
                    p,
                    encode_utf8(directory),
                    encode_utf8(self.spec_name()),
                    t,
                    is_post,
                )
            }
    }

    /// The name.
    pub closed spec fn spec_name(&self) -> Seq<char> {
        self.name@
    }

    /// Whether the caches use the framed block format.
    pub closed spec fn spec_is_post(&self) -> bool {
        self.is_post_ensmallening
    }

    /// The cache pair of member `t` of the package `name` in `directory`,
    /// where its files are in `listing`.
    fn new_package(directory: &str, name: &str, is_post_ensmallening: bool, t: PackageType, listing: &Vec<String>) -> (r: Option<T>)
        ensures
            r is Some <==> member_present(listing@, name.spec_bytes(), t) && get_pair_path_ok(
                directory.spec_bytes(),
                name.spec_bytes(),
                t,
            ),
            r matches Some(p) ==> member_paths(p, directory.spec_bytes(), name.spec_bytes(), t, is_post_ensmallening),
    {
        let toc_ext_bytes: Vec<u8> = vec![0x2E, 0x74, 0x6F, 0x63];
        let cache_ext_bytes: Vec<u8> = vec![0x2E, 0x63, 0x61, 0x63, 0x68, 0x65];
        let toc_file = member_file_bytes(t, name.as_bytes(), toc_ext_bytes.as_slice());
        let cache_file = member_file_bytes(t, name.as_bytes(), cache_ext_bytes.as_slice());
        if !is_listed(listing, toc_file.as_slice()) && !is_listed(listing, cache_file.as_slice()) {
            return None;
        }
        match get_pair_path(directory, name, t) {
            Ok((toc_path, cache_path)) => Some(T::new(toc_path, cache_path, is_post_ensmallening)),
            Err(_) => None,
        }
    }

    /// The package `name` in `directory`, with the members whose table of
    /// contents or cache `listing` (the names of the directory's files) holds.
    pub fn new(directory: String, name: String, is_post_ensmallening: bool, listing: &Vec<String>) -> (r: Self)
        ensures
            r.spec_directory() == directory@,
            r.spec_name() == name@,
            r.spec_is_post() == is_post_ensmallening,
            forall|t: PackageType| (#[trigger] r.member(t)) is Some <==> member_present(
                listing@,
                encode_utf8(name@),
                t,
            ) && get_pair_path_ok(encode_utf8(directory@), encode_utf8(name@), t),
            forall|t: PackageType| (#[trigger] r.member(t)) matches Some(p) ==> member_paths(
                p,
                encode_utf8(directory@),
                encode_utf8(name@),
                t,
                is_post_ensmallening,
            ),
    {
        let h_package = Self::new_package(directory.as_str(), name.as_str(), is_post_ensmallening, PackageType::H, listing);
        let f_package = Self::new_package(directory.as_str(), name.as_str(), is_post_ensmallening, PackageType::F, listing);
        let b_package = Self::new_package(directory.as_str(), name.as_str(), is_post_ensmallening, PackageType::B, listing);
        let r = Package { directory, name, is_post_ensmallening, h_package, f_package, b_package };
        proof {
            assert forall|t: PackageType| #[trigger] r.member(t) == match t {
                PackageType::H => h_package,
                PackageType::F => f_package,
                PackageType::B => b_package,
            } by {}
        }
        r
    }

    /// The directory of the package.
    pub fn directory(&self) -> (r: &String)
        ensures
            r@ == self.spec_directory(),
    {
        &self.directory
    }

    /// The name of the package.
    pub fn name(&self) -> (r: &String)
        ensures
            r@ == self.spec_name(),
    {
        &self.name
    }

    /// Whether the caches use the framed block format.
    pub fn is_post_ensmallening(&self) -> (r: bool)
        ensures
            r == self.spec_is_post(),
    {
        self.is_post_ensmallening
    }

    /// The cache pair of member `t`, if present.
    pub fn borrow(&self, t: PackageType) -> (r: Option<&T>)
        ensures
            r is Some <==> self.member(t) is Some,
            r matches Some(p) ==> *p == self.member(t)->Some_0,
    {
        match t {
            PackageType::H => self.h_package.as_ref(),
            PackageType::F => self.f_package.as_ref(),
            PackageType::B => self.b_package.as_ref(),
        }
    }

    /// The cache pair of member `t`, if present, to change.
    pub fn borrow_mut(&mut self, t: PackageType) -> (r: Option<&mut T>)
        ensures
            r is Some <==> old(self).member(t) is Some,
            r matches Some(p) ==> *p == old(self).member(t)->Some_0,
    {
        match t {
            PackageType::H => self.h_package.as_mut(),
            PackageType::F => self.f_package.as_mut(),
            PackageType::B => self.b_package.as_mut(),
        }
    }

    /// Takes the cache pair of member `t` out of the package.
    pub fn take(&mut self, t: PackageType) -> (r: Option<T>)
        ensures
            r == old(self).member(t),
            final(self).member(t) is None,
            forall|u: PackageType| u != t ==> #[trigger] final(self).member(u) == old(self).member(u),
            final(self).spec_name() == old(self).spec_name(),
            final(self).spec_directory() == old(self).spec_directory(),
            final(self).spec_is_post() == old(self).spec_is_post(),
    {
        match t {
            PackageType::H => self.h_package.take(),
            PackageType::F => self.f_package.take(),
            PackageType::B => self.b_package.take(),
        }
    }
}

/// The cache pair `p` is member `t` of the package `name` in `dir`: its table
/// of contents and cache are that member's files there.
pub open spec fn member_paths<T: CachePair>(p: T, dir: Seq<u8>, name: Seq<u8>, t: PackageType, is_post: bool) -> bool {
    &&& Some(p.spec_toc_path()) == utf8_text(joined(dir, member_file(t, name, toc_ext())))
    &&& Some(p.spec_cache_path()) == utf8_text(joined(dir, member_file(t, name, cache_ext())))
    &&& p.spec_post() == is_post
}

/// Whether both paths of member `t` of the package `name` in `dir` are text.
pub open spec fn get_pair_path_ok(dir: Seq<u8>, name: Seq<u8>, t: PackageType) -> bool {
    utf8_text(joined(dir, member_file(t, name, toc_ext()))) is Some && utf8_text(
        joined(dir, member_file(t, name, cache_ext())),
    ) is Some
}

/// "H.".
pub open spec fn header_prefix() -> Seq<u8> {
    seq![0x48u8, 0x2E]
}

/// The package name that a file name of a directory announces: the middle of
/// "H.<name>.toc", for names of at least seven bytes.
pub open spec fn announced_name(file: Seq<u8>) -> Option<Seq<u8>> {
    if file.len() >= 7 && file.take(2) == header_prefix() && ends_with(file, toc_ext()) {
        Some(file.subrange(2, file.len() - 4))
    } else {
        None
    }
}

/// The names of the packages that a directory listing announces, in order;
/// names that are not text are left out.
pub open spec fn package_names(listing: Seq<String>) -> Seq<Seq<char>>
    decreases listing.len(),
{
    if listing.len() == 0 {
        seq![]
    } else {
        let rest = package_names(listing.drop_last());
        match announced_name(encode_utf8(listing.last()@)) {
            Some(n) => match utf8_text(n) {
                Some(t) => rest.push(t),
                None => rest,
            },
            None => rest,
        }
    }
}

/// The packages of one directory.
pub struct PackageCollection<T: CachePair> {
    directory: String,
    is_post_ensmallening: bool,
    packages: Vec<Package<T>>,
}

impl<T: CachePair> PackageCollection<T> {
    /// The packages, in order.
    pub closed spec fn spec_packages(&self) -> Seq<Package<T>> {
        self.packages@
    }

    /// The directory.
    pub closed spec fn spec_directory(&self) -> Seq<char> {
        self.directory@
    }

    /// Whether the caches use the framed block format.
    pub closed spec fn spec_is_post(&self) -> bool {
        self.is_post_ensmallening
    }

    fn announced(file: &[u8]) -> (r: Option<String>)
        ensures
            r is Some <==> (announced_name(file@) is Some && utf8_text(announced_name(file@)->Some_0) is Some),
            r matches Some(s) ==> Some(s@) == utf8_text(announced_name(file@)->Some_0),
    {
        let n = file.len();
        if n < 7 || file[0] != 0x48 || file[1] != 0x2E {
            proof {
                if n >= 7 {
                    assert(file@.take(2) != header_prefix()) by {
                        if file@.take(2) == header_prefix() {
                            assert(file@.take(2)[0] == file@[0]);
                            assert(file@.take(2)[1] == file@[1]);
                        }
                    }
                }
            }
            return None;
        }
        proof {
            assert(file@.take(2) =~= header_prefix());
        }
        let toc: Vec<u8> = vec![0x2E, 0x74, 0x6F, 0x63];
        if !has_suffix(file, toc.as_slice()) {
            return None;
        }
        decode_utf8(&file[2..n - 4])
    }

    /// The packages of `directory`, one for each "H.<name>.toc" in `listing`
    /// (the names of its files), in the order of the listing.
    pub fn new(directory: String, is_post_ensmallening: bool, listing: &Vec<String>) -> (r: Self)
        ensures
            r.spec_directory() == directory@,
            r.spec_is_post() == is_post_ensmallening,
            r.spec_packages().len() == package_names(listing@).len(),
            forall|k: int|
                0 <= k < r.spec_packages().len() ==> (#[trigger] r.spec_packages()[k]).spec_name()
                    == package_names(listing@)[k] && r.spec_packages()[k].spec_directory() == directory@
                    && r.spec_packages()[k].spec_is_post() == is_post_ensmallening,
            forall|k: int|
                0 <= k < r.spec_packages().len() ==> (#[trigger] r.spec_packages()[k]).members_from(
                    listing@,
                    directory@,
                    is_post_ensmallening,
                ),
    {
        let mut packages: Vec<Package<T>> = Vec::new();
        let mut i: usize = 0;
        while i < listing.len()
            invariant
                i <= listing@.len(),
                packages@.len() == package_names(listing@.take(i as int)).len(),
                forall|k: int|
                    0 <= k < packages@.len() ==> (#[trigger] packages@[k]).spec_name()
                        == package_names(listing@.take(i as int))[k] && packages@[k].spec_directory()
                        == directory@ && packages@[k].spec_is_post() == is_post_ensmallening,
                forall|k: int|
                    0 <= k < packages@.len() ==> (#[trigger] packages@[k]).members_from(
                        listing@,
                        directory@,
                        is_post_ensmallening,
                    ),
            decreases listing@.len() - i,
        {
            let ghost before = packages@;
            let entry = listing[i].as_str().as_bytes();
            proof {
                assert(listing@.take(i + 1).drop_last() =~= listing@.take(i as int));
                assert(listing@.take(i + 1).last() == listing@[i as int]);
            }
            match Self::announced(entry) {
                Some(name) => {
                    let p = Package::new(directory.clone(), name, is_post_ensmallening, listing);
                    packages.push(p);
                    proof {
                        assert forall|k: int| 0 <= k < packages@.len() implies (#[trigger] packages@[k]).spec_name()
                            == package_names(listing@.take(i + 1))[k] && packages@[k].spec_directory()
                            == directory@ && packages@[k].spec_is_post() == is_post_ensmallening by {
                            if k < before.len() {
                                assert(packages@[k] == before[k]);
                            }
                        }
                        assert forall|k: int| 0 <= k < packages@.len() implies (#[trigger] packages@[k]).members_from(
                            listing@,
                            directory@,
                            is_post_ensmallening,
                        ) by {
                            if k < before.len() {
                                assert(packages@[k] == before[k]);
                            }
                        }
                    }
                },
                None => {},
            }
            i += 1;
        }
        proof {
            assert(listing@.take(listing@.len() as int) =~= listing@);
        }
        PackageCollection { directory, is_post_ensmallening, packages }
    }

    /// Whether the caches use the framed block format.
    pub fn is_post_ensmallening(&self) -> (r: bool)
        ensures
            r == self.spec_is_post(),
    {
        self.is_post_ensmallening
    }

    /// The directory of the collection.
    pub fn directory(&self) -> (r: &String)
        ensures
            r@ == self.spec_directory(),
    {
        &self.directory
    }

    /// The packages of the collection.
    pub fn packages(&self) -> (r: &Vec<Package<T>>)
        ensures
            r@ == self.spec_packages(),
    {
        &self.packages
    }

    /// Package `k` is the first one whose name has the bytes `name`.
    pub open spec fn first_named(&self, k: int, name: Seq<u8>) -> bool {
        &&& encode_utf8(self.spec_packages()[k].spec_name()) == name
        &&& forall|j: int|
            0 <= j < k ==> encode_utf8((#[trigger] self.spec_packages()[j]).spec_name()) != name
    }

    /// The place of the first package named `name`.
    fn position(&self, name: &str) -> (r: Option<usize>)
        ensures
            r matches Some(k) ==> k < self.spec_packages().len() && encode_utf8(
                self.spec_packages()[k as int].spec_name(),
            ) == name.spec_bytes() && forall|j: int|
                0 <= j < k ==> encode_utf8((#[trigger] self.spec_packages()[j]).spec_name())
                    != name.spec_bytes(),
            r is None ==> forall|j: int|
                0 <= j < self.spec_packages().len() ==> encode_utf8(
                    (#[trigger] self.spec_packages()[j]).spec_name(),
                ) != name.spec_bytes(),
    {
        let mut i: usize = 0;
        while i < self.packages.len()
            invariant
                i <= self.packages@.len(),
                forall|j: int|
                    0 <= j < i ==> encode_utf8((#[trigger] self.packages@[j]).spec_name())
                        != name.spec_bytes(),
            decreases self.packages@.len() - i,
        {
            if bytes_eq(self.packages[i].name().as_str().as_bytes(), name.as_bytes()) {
                return Some(i);
            }
            i += 1;
        }
        None
    }

    /// The first package named `name`.
    pub fn borrow(&self, name: &str) -> (r: Option<&Package<T>>)
        ensures
            r matches Some(p) ==> exists|k: int|
                0 <= k < self.spec_packages().len() && self.first_named(k, name.spec_bytes())
                    && self.spec_packages()[k] == *p,
            r is None ==> forall|j: int|
                0 <= j < self.spec_packages().len() ==> encode_utf8(
                    (#[trigger] self.spec_packages()[j]).spec_name(),
                ) != name.spec_bytes(),
    {
        match self.position(name) {
            Some(k) => Some(&self.packages[k]),
            None => None,
        }
    }

    /// The first package named `name`, to change.
    pub fn borrow_mut(&mut self, name: &str) -> (r: Option<&mut Package<T>>)
        ensures
            r matches Some(p) ==> encode_utf8(p.spec_name()) == name.spec_bytes(),
            r is None ==> forall|j: int|
                0 <= j < old(self).spec_packages().len() ==> encode_utf8(
                    (#[trigger] old(self).spec_packages()[j]).spec_name(),
                ) != name.spec_bytes(),
    {
        match self.position(name) {
            Some(k) => Some(&mut self.packages[k]),
            None => None,
        }
    }

    /// Takes the first package named `name` out of the collection.
    pub fn take(&mut self, name: &str) -> (r: Option<Package<T>>)
        ensures
            r matches Some(p) ==> exists|k: int|
                0 <= k < old(self).spec_packages().len() && old(self).first_named(k, name.spec_bytes())
                    && old(self).spec_packages()[k] == p && final(self).spec_packages()
                    == old(self).spec_packages().remove(k),
            r is None ==> final(self).spec_packages() == old(self).spec_packages() && forall|j: int|
                0 <= j < old(self).spec_packages().len() ==> encode_utf8(
                    (#[trigger] old(self).spec_packages()[j]).spec_name(),
                ) != name.spec_bytes(),
            final(self).spec_directory() == old(self).spec_directory(),
    {
        match self.position(name) {
            Some(k) => Some(self.packages.remove(k)),
            None => None,
        }
    }
}

} // verus!
