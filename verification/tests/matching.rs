use hashcrack::errors::CrackError;
use hashcrack::hasher::{hash_all, DigestRecord, HashFunction};
use hashcrack::passwords::Passwords;
use hashcrack::retriever::match_all;

fn sha256_hex(data: &str) -> String {
    let digest = <sha2::Sha256 as sha2::Digest>::digest(data.as_bytes());
    let mut out = String::new();
    for byte in digest.iter() {
        out.push_str(&format!("{:02x}", byte));
    }
    out
}

fn credentials(pairs: &[(&str, String)]) -> Passwords {
    Passwords {
        path: String::new(),
        content: String::new(),
        logins: pairs.iter().map(|(login, _)| login.to_string()).collect(),
        passwords: pairs.iter().map(|(_, digest)| digest.clone()).collect(),
    }
}

#[test]
fn equal_counts_never_raise_mismatch() {
    let records = hash_all(&vec!["a".to_string(), "b".to_string()], HashFunction::MD5);
    let creds = credentials(&[
        ("alice", "0cc175b9c0f1b6a831c399e269772661".to_string()),
        ("bob", "nonsense".to_string()),
    ]);
    assert!(match_all(&records, &creds).is_ok());
}

#[test]
fn unequal_counts_raise_mismatch_and_no_partial_result() {
    let records = hash_all(&vec!["a".to_string()], HashFunction::MD5);
    let creds = Passwords {
        path: String::new(),
        content: String::new(),
        logins: vec!["alice".to_string(), "bob".to_string()],
        passwords: vec!["0cc175b9c0f1b6a831c399e269772661".to_string()],
    };
    let r = match_all(&records, &creds);
    assert_eq!(r.unwrap_err(), CrackError::CredentialCountMismatch(2, 1));
}

#[test]
fn absent_digest_resolves_to_not_found() {
    let records = hash_all(&vec!["password".to_string()], HashFunction::SHA256);
    let creds = credentials(&[("carol", "deadbeef".to_string())]);
    let result = match_all(&records, &creds).unwrap();
    assert_eq!(result.len(), 1);
    assert_eq!(result[0].login, "carol");
    assert_eq!(result[0].plaintext, None);
}

#[test]
fn collision_resolves_to_last_writer() {
    let records = vec![
        DigestRecord { candidate: "abc".to_string(), digest: "d".to_string() },
        DigestRecord { candidate: "xyz".to_string(), digest: "d".to_string() },
    ];
    let creds = credentials(&[("victim", "d".to_string())]);
    for _ in 0..3 {
        let result = match_all(&records, &creds).unwrap();
        assert_eq!(result[0].plaintext, Some("xyz".to_string()));
    }
}

#[test]
fn end_to_end_sha256_scenario() {
    let dict = vec!["password".to_string(), "letmein".to_string()];
    let records = hash_all(&dict, HashFunction::SHA256);
    let creds = credentials(&[
        ("alice", sha256_hex("password")),
        ("bob", sha256_hex("qwerty")),
    ]);
    let result = match_all(&records, &creds).unwrap();
    assert_eq!(result.len(), 2);
    assert_eq!(result[0].login, "alice");
    assert_eq!(result[0].plaintext, Some("password".to_string()));
    assert_eq!(result[1].login, "bob");
    assert_eq!(result[1].plaintext, None);
}

#[test]
fn empty_dictionary_yields_not_found() {
    let records = hash_all(&Vec::new(), HashFunction::SHA256);
    let creds = credentials(&[("dave", sha256_hex("password"))]);
    let result = match_all(&records, &creds).unwrap();
    assert_eq!(result.len(), 1);
    assert_eq!(result[0].plaintext, None);
}

#[test]
fn empty_credentials_yield_empty_result() {
    let records = hash_all(&vec!["password".to_string()], HashFunction::MD5);
    let creds = credentials(&[]);
    let result = match_all(&records, &creds).unwrap();
    assert!(result.is_empty());
}

#[test]
fn stored_digest_is_normalized_to_lowercase() {
    let records = hash_all(&vec!["password".to_string()], HashFunction::MD5);
    let creds = credentials(&[("erin", "5F4DCC3B5AA765D61D8327DEB882CF99".to_string())]);
    let result = match_all(&records, &creds).unwrap();
    assert_eq!(result[0].plaintext, Some("password".to_string()));
}

#[test]
fn duplicate_logins_keep_separate_entries() {
    let records = hash_all(&vec!["a".to_string(), "b".to_string()], HashFunction::MD5);
    let creds = credentials(&[
        ("same", "0cc175b9c0f1b6a831c399e269772661".to_string()),
        ("same", "92eb5ffee6ae2fec3ad71c777531578f".to_string()),
    ]);
    let result = match_all(&records, &creds).unwrap();
    assert_eq!(result.len(), 2);
    assert_eq!(result[0].plaintext, Some("a".to_string()));
    assert_eq!(result[1].plaintext, Some("b".to_string()));
}
