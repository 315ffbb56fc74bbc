use alfa::integrity::{bytes_to_hex, check_md5, verify_bytes};

const EMPTY_MD5: &str = "d41d8cd98f00b204e9800998ecf8427e";
const ABC_MD5: &str = "900150983cd24fb0d6963f7d28e17f72";

#[test]
fn hex_encoding_is_exact() {
    assert_eq!(bytes_to_hex(&vec![]), "");
    assert_eq!(bytes_to_hex(&vec![0x00, 0xff, 0x1a]), "00ff1a");
    assert_eq!(bytes_to_hex(&vec![0x0f, 0xf0]), "0ff0");
}

#[test]
fn digest_of_known_content_matches() {
    let outcome = verify_bytes(&vec![], EMPTY_MD5);
    assert!(outcome.matched);
    assert_eq!(outcome.actual_hex, EMPTY_MD5);

    let outcome = verify_bytes(&b"abc".to_vec(), ABC_MD5);
    assert!(outcome.matched);
    assert_eq!(outcome.actual_hex, ABC_MD5);
}

#[test]
fn differing_digest_is_a_mismatch_not_an_error() {
    let outcome = verify_bytes(&b"abc".to_vec(), EMPTY_MD5);
    assert!(!outcome.matched);
    assert_eq!(outcome.actual_hex, ABC_MD5);
}

#[test]
fn comparison_is_case_sensitive_exact_text() {
    let upper = ABC_MD5.to_uppercase();
    let outcome = verify_bytes(&b"abc".to_vec(), &upper);
    assert!(!outcome.matched);
}

#[test]
fn hashing_twice_yields_the_same_digest() {
    let data = b"the same content".to_vec();
    let first = verify_bytes(&data, "").actual_hex;
    let second = verify_bytes(&data, "").actual_hex;
    assert_eq!(first, second);
}

#[test]
fn one_byte_mutation_changes_the_digest() {
    let corpus: Vec<Vec<u8>> = vec![
        b"".to_vec(),
        b"a".to_vec(),
        b"hello world".to_vec(),
        vec![0u8; 64],
        (0u8..=255).collect(),
    ];
    for original in corpus {
        let base = verify_bytes(&original, "").actual_hex;
        let mut mutated = original.clone();
        if mutated.is_empty() {
            mutated.push(0);
        } else {
            mutated[0] ^= 1;
        }
        let changed = verify_bytes(&mutated, "").actual_hex;
        assert_ne!(base, changed);
    }
}

#[test]
fn check_md5_agrees_with_verify() {
    assert!(check_md5(&b"abc".to_vec(), ABC_MD5));
    assert!(!check_md5(&b"abc".to_vec(), EMPTY_MD5));
}
