use alfa::build_meta::{Package, PackageList};
use alfa::codec::ManifestError;

fn entry(name: &str, version: &str, download: &str, md5: &str) -> (String, Package) {
    (
        name.to_string(),
        Package {
            version: version.to_string(),
            download: download.to_string(),
            md5: md5.to_string(),
        },
    )
}

#[test]
fn serialize_one_entry_exact_text() {
    let list = PackageList {
        package: vec![entry(
            "linux-headers",
            "6.1.0",
            "https://example.org/pool/linux-headers-6.1.0.tar.xz",
            "0123456789abcdef0123456789abcdef",
        )],
    };
    let text = list.serialize();
    assert_eq!(
        text,
        "[package.linux-headers]\n\
         version = \"6.1.0\"\n\
         download = \"https://example.org/pool/linux-headers-6.1.0.tar.xz\"\n\
         md5 = \"0123456789abcdef0123456789abcdef\"\n"
    );
}

#[test]
fn round_trip_two_entries() {
    let list = PackageList {
        package: vec![
            entry("binutils", "2.41", "https://example.org/binutils-2.41.tar.xz", "aa11"),
            entry("gcc", "13.2.0", "https://example.org/gcc-13.2.0.tar.xz", "bb22"),
        ],
    };
    let text = list.serialize();
    let loaded = PackageList::load(&text).expect("round trip must load");
    assert_eq!(loaded.package.len(), 2);
    for i in 0..2 {
        assert_eq!(loaded.package[i].0, list.package[i].0);
        assert_eq!(loaded.package[i].1.version, list.package[i].1.version);
        assert_eq!(loaded.package[i].1.download, list.package[i].1.download);
        assert_eq!(loaded.package[i].1.md5, list.package[i].1.md5);
    }
}

#[test]
fn round_trip_empty_manifest() {
    let list = PackageList { package: vec![] };
    let text = list.serialize();
    assert_eq!(text, "");
    let loaded = PackageList::load(&text).expect("empty manifest loads");
    assert_eq!(loaded.package.len(), 0);
}

#[test]
fn load_handwritten_document() {
    let text = "[package.musl]\nversion = \"1.2.4\"\ndownload = \"https://example.org/musl-1.2.4.tar.gz\"\nmd5 = \"cc33\"\n";
    let loaded = PackageList::load(text).expect("well-formed document loads");
    assert_eq!(loaded.package.len(), 1);
    assert_eq!(loaded.package[0].0, "musl");
    assert_eq!(loaded.package[0].1.version, "1.2.4");
    assert_eq!(
        loaded.package[0].1.download,
        "https://example.org/musl-1.2.4.tar.gz"
    );
    assert_eq!(loaded.package[0].1.md5, "cc33");
}

#[test]
fn well_formedness_check_agrees_with_loading() {
    let good = PackageList {
        package: vec![entry("a", "1", "u", "m"), entry("b", "2", "v", "n")],
    };
    assert!(good.is_well_formed());
    assert!(PackageList::load(&good.serialize()).is_ok());

    let duplicate = PackageList {
        package: vec![entry("a", "1", "u", "m"), entry("a", "2", "v", "n")],
    };
    assert!(!duplicate.is_well_formed());

    let bad_name = PackageList {
        package: vec![entry("a b", "1", "u", "m")],
    };
    assert!(!bad_name.is_well_formed());
}

#[test]
fn load_rejects_garbage() {
    assert!(matches!(PackageList::load("garbage\n"), Err(ManifestError::Syntax)));
}

#[test]
fn load_rejects_unterminated_line() {
    assert!(matches!(PackageList::load("[package.a]\nversion = \"1\""), Err(ManifestError::Syntax)));
}

#[test]
fn load_rejects_truncated_entry_as_missing_field() {
    assert!(matches!(PackageList::load("[package.a]\n"), Err(ManifestError::MissingField)));
    assert!(matches!(PackageList::load("[package.a]\nversion = \"1\"\ndownload = \"u\"\n"), Err(ManifestError::MissingField)));
}

#[test]
fn load_rejects_wrong_key_as_syntax() {
    let text = "[package.a]\ndownload = \"u\"\nmd5 = \"m\"\n";
    assert!(matches!(PackageList::load(text), Err(ManifestError::Syntax)));
}

#[test]
fn load_rejects_entry_cut_short_by_next_block() {
    let block_a = "[package.a]\n";
    let block_b = "[package.b]\nversion = \"1\"\ndownload = \"u\"\nmd5 = \"m\"\n";
    let text = format!("{}{}", block_a, block_b);
    assert!(matches!(PackageList::load(&text), Err(ManifestError::MissingField)));
}

#[test]
fn load_rejects_duplicate_names() {
    let block = "[package.a]\nversion = \"1\"\ndownload = \"u\"\nmd5 = \"m\"\n";
    let text = format!("{}{}", block, block);
    assert!(matches!(PackageList::load(&text), Err(ManifestError::DuplicateName)));
}

#[test]
fn load_rejects_bad_name_character() {
    let text = "[package.a b]\nversion = \"1\"\ndownload = \"u\"\nmd5 = \"m\"\n";
    assert!(matches!(PackageList::load(text), Err(ManifestError::Syntax)));
}

#[test]
fn load_rejects_quote_inside_value() {
    let text = "[package.a]\nversion = \"1\"x\"\ndownload = \"u\"\nmd5 = \"m\"\n";
    assert!(matches!(PackageList::load(text), Err(ManifestError::Syntax)));
}
