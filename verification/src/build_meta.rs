//! The package manifest: the catalog mapping each package name to its
//! version, source URL and declared checksum, and the build-order list.
//! The manifest's well-formedness — unique names over a safe character
//! set, values free of quotes and line breaks — is what the text codec's
//! lossless round trip rests on.

use vstd::prelude::*;

verus! {

/// One catalog entry: the version, the URL the source archive is fetched
/// from, and the checksum its content must hash to.
pub struct Package {
    pub version: String,
    pub download: String,
    pub md5: String,
}

/// The specification-level value of one catalog entry.
#[verifier::ext_equal]
pub ghost struct PackageView {
    pub version: Seq<char>,
    pub download: Seq<char>,
    pub md5: Seq<char>,
}

impl View for Package {
    type V = PackageView;

    open spec fn view(&self) -> PackageView {
        PackageView { version: self.version@, download: self.download@, md5: self.md5@ }
    }
}

/// The package catalog: each entry under its unique name.
pub struct PackageList {
    pub package: Vec<(String, Package)>,
}

/// The specification-level value of a sequence of named entries.
pub open spec fn pairs_view(v: Seq<(String, Package)>) -> Seq<(Seq<char>, PackageView)> {
    v.map_values(|p: (String, Package)| (p.0@, p.1@))
}

impl View for PackageList {
    type V = Seq<(Seq<char>, PackageView)>;

    open spec fn view(&self) -> Seq<(Seq<char>, PackageView)> {
        pairs_view(self.package@)
    }
}

/// A character a package name may hold: letters, digits, hyphen or
/// underscore.
pub open spec fn name_char(c: char) -> bool {
    (97 <= c as u32 && c as u32 <= 122)  // a-z
        || (65 <= c as u32 && c as u32 <= 90)  // A-Z
        || (48 <= c as u32 && c as u32 <= 57)  // 0-9
        || c == '-' || c == '_'
}

/// A valid package name: non-empty, over the name character set.
pub open spec fn valid_name(s: Seq<char>) -> bool {
    s.len() > 0 && forall|i: int| 0 <= i < s.len() ==> name_char(#[trigger] s[i])
}

/// A character a manifest value may hold: anything but a double quote or
/// a line break.
pub open spec fn value_char(c: char) -> bool {
    c != '"' && c != '\n'
}

/// A valid manifest value: every character admissible.
pub open spec fn valid_value(s: Seq<char>) -> bool {
    forall|i: int| 0 <= i < s.len() ==> value_char(#[trigger] s[i])
}

/// A valid catalog entry: a valid name and three valid values.
pub open spec fn entry_valid(name: Seq<char>, p: PackageView) -> bool {
    valid_name(name) && valid_value(p.version) && valid_value(p.download) && valid_value(p.md5)
}

/// Pairwise distinct package names: the catalog behaves as a map.
pub open spec fn names_unique(m: Seq<(Seq<char>, PackageView)>) -> bool {
    forall|i: int, j: int| 0 <= i < j < m.len() ==> #[trigger] m[i].0 != #[trigger] m[j].0
}

/// A well-formed manifest: every entry valid, every name unique.
pub open spec fn manifest_wf(m: Seq<(Seq<char>, PackageView)>) -> bool {
    (forall|i: int| 0 <= i < m.len() ==> entry_valid(#[trigger] m[i].0, m[i].1))
        && names_unique(m)
}

/// The build order: which package configurations to build, in order, and
/// the directory that holds their build instructions.
pub struct PackageOrder {
    pub packages: Vec<String>,
    pub prefix: String,
}

} // verus!
