use hashcrack::hasher::{digest_string, hash_all, resolve, HashFunction};
use hashcrack::errors::CrackError;

fn md5_hex(data: &str) -> String {
    format!("{:x}", md5::compute(data.as_bytes()))
}

#[test]
fn hash_all_preserves_count_and_order() {
    let dict = vec![
        "password".to_string(),
        "letmein".to_string(),
        "qwerty".to_string(),
    ];
    let records = hash_all(&dict, HashFunction::MD5);
    assert_eq!(records.len(), dict.len());
    for (i, record) in records.iter().enumerate() {
        assert_eq!(record.candidate, dict[i]);
    }
}

#[test]
fn hash_all_empty_dictionary_yields_empty_output() {
    let dict: Vec<String> = Vec::new();
    let records = hash_all(&dict, HashFunction::SHA256);
    assert!(records.is_empty());
}

#[test]
fn hash_all_is_deterministic() {
    let dict = vec!["secret".to_string()];
    let first = hash_all(&dict, HashFunction::SHA1);
    let second = hash_all(&dict, HashFunction::SHA1);
    assert_eq!(first.len(), 1);
    assert_eq!(second.len(), 1);
    assert_eq!(first[0].digest, second[0].digest);
    assert_eq!(first[0].candidate, second[0].candidate);
}

#[test]
fn md5_digest_matches_known_vector() {
    assert_eq!(
        digest_string(HashFunction::MD5, "password"),
        "5f4dcc3b5aa765d61d8327deb882cf99"
    );
    assert_eq!(digest_string(HashFunction::MD5, "password"), md5_hex("password"));
}

#[test]
fn sha1_digest_matches_known_vector() {
    assert_eq!(
        digest_string(HashFunction::SHA1, "abc"),
        "a9993e364706816aba3e25717850c26c9cd0d89d"
    );
}

#[test]
fn sha256_digest_matches_known_vector() {
    assert_eq!(
        digest_string(HashFunction::SHA256, "abc"),
        "ba7816bf8f01cfea414140de5dae2223b00361a396177a9cb410ff61f20015ad"
    );
}

#[test]
fn digest_lengths_are_fixed_by_kind() {
    assert_eq!(digest_string(HashFunction::MD5, "").len(), 32);
    assert_eq!(digest_string(HashFunction::SHA1, "").len(), 40);
    assert_eq!(digest_string(HashFunction::SHA256, "").len(), 64);
}

#[test]
fn resolve_knows_the_supported_selectors() {
    assert_eq!(resolve("md5"), Ok(HashFunction::MD5));
    assert_eq!(resolve("sha1"), Ok(HashFunction::SHA1));
    assert_eq!(resolve("sha256"), Ok(HashFunction::SHA256));
}

#[test]
fn resolve_rejects_unsupported_selector() {
    let r = resolve("rot13");
    assert_eq!(
        r,
        Err(CrackError::UnsupportedHashFunction("rot13".to_string()))
    );
}

#[test]
fn from_str_rejects_case_variants() {
    assert_eq!(HashFunction::from_str("MD5"), None);
    assert_eq!(HashFunction::from_str(""), None);
    assert_eq!(HashFunction::from_str("sha1"), Some(HashFunction::SHA1));
}
