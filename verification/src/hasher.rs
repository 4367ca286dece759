//! The hash-function registry and the hasher: a closed set of digest
//! algorithms, selected by name, applied to every candidate of a wordlist.
//! Digests are rendered as lowercase hexadecimal strings of a fixed length
//! determined by the algorithm; that string is the comparison key against
//! stored digests.

use vstd::prelude::*;
use vstd::string::StringExecFns;
use crate::errors::CrackError;
use crate::text::{lower_char, lower_seq, str_eq};

verus! {

/// A hexadecimal digit as a lowercase character: `0..=9` map to `'0'..='9'`,
/// `10..=15` map to `'a'..='f'`.
pub open spec fn hex_digit(n: u8) -> char
    recommends
        n < 16,
{
    if n < 10 {
        ((48 + n) as u8) as char
    } else {
        ((87 + n) as u8) as char
    }
}

/// Lowercase hexadecimal rendering of a byte sequence: two digits per byte,
/// high nibble first.
pub open spec fn hex_of(bytes: Seq<u8>) -> Seq<char>
    decreases bytes.len(),
{
    if bytes.len() == 0 {
        Seq::empty()
    } else {
        hex_of(bytes.drop_last()) + seq![
            hex_digit(bytes.last() / 16),
            hex_digit(bytes.last() % 16),
        ]
    }
}

/// A hex rendering holds two digits for each byte.
pub proof fn lemma_hex_of_len(bytes: Seq<u8>)
    ensures
        hex_of(bytes).len() == 2 * bytes.len(),
    decreases bytes.len(),
{
    if bytes.len() > 0 {
        lemma_hex_of_len(bytes.drop_last());
    }
}

/// A hex rendering is already normalized: lowercasing it changes nothing,
/// since its characters are drawn from `'0'..='9'` and `'a'..='f'`.
pub proof fn lemma_hex_lowercase(bytes: Seq<u8>)
    ensures
        lower_seq(hex_of(bytes)) == hex_of(bytes),
    decreases bytes.len(),
{
    if bytes.len() == 0 {
        assert(lower_seq(hex_of(bytes)) =~= hex_of(bytes));
    } else {
        lemma_hex_lowercase(bytes.drop_last());
        assert(lower_char(hex_digit(bytes.last() / 16)) == hex_digit(bytes.last() / 16));
        assert(lower_char(hex_digit(bytes.last() % 16)) == hex_digit(bytes.last() % 16));
        assert(lower_seq(hex_of(bytes)) =~= hex_of(bytes));
    }
}

/// The one-digit string for a nibble.
fn nibble_str(n: u8) -> (r: &'static str)
    requires
        n < 16,
    ensures
        r@.len() == 1,
        r@[0] == hex_digit(n),
{
    proof {
        reveal_strlit("0");
        reveal_strlit("1");
        reveal_strlit("2");
        reveal_strlit("3");
        reveal_strlit("4");
        reveal_strlit("5");
        reveal_strlit("6");
        reveal_strlit("7");
        reveal_strlit("8");
        reveal_strlit("9");
        reveal_strlit("a");
        reveal_strlit("b");
        reveal_strlit("c");
        reveal_strlit("d");
        reveal_strlit("e");
        reveal_strlit("f");
    }
    match n {
        0 => "0",
        1 => "1",
        2 => "2",
        3 => "3",
        4 => "4",
        5 => "5",
        6 => "6",
        7 => "7",
        8 => "8",
        9 => "9",
        10 => "a",
        11 => "b",
        12 => "c",
        13 => "d",
        14 => "e",
        _ => "f",
    }
}

/// Renders a byte sequence as its lowercase hexadecimal string.
pub fn to_hex(bytes: &Vec<u8>) -> (r: String)
    ensures
        r@ == hex_of(bytes@),
{
    let mut r = String::new();
    let mut i: usize = 0;
    while i < bytes.len()
        invariant
            i <= bytes@.len(),
            r@ == hex_of(bytes@.take(i as int)),
        decreases bytes@.len() - i,
    {
        let b = bytes[i];
        let hi = nibble_str(b / 16);
        let lo = nibble_str(b % 16);
        r.append(hi);
        r.append(lo);
        proof {
            let taken = bytes@.take(i + 1 as int);
            assert(taken.drop_last() =~= bytes@.take(i as int));
            assert(taken.last() == bytes@[i as int]);
            assert(r@ =~= hex_of(taken));
        }
        i += 1;
    }
    proof {
        assert(bytes@.take(bytes@.len() as int) =~= bytes@);
    }
    r
}

/// The bytes of the MD5 digest of a string's UTF-8 encoding.
pub uninterp spec fn md5_of(s: Seq<char>) -> Seq<u8>;

/// The bytes of the SHA-1 digest of a string's UTF-8 encoding.
pub uninterp spec fn sha1_of(s: Seq<char>) -> Seq<u8>;

/// The bytes of the SHA-256 digest of a string's UTF-8 encoding.
pub uninterp spec fn sha256_of(s: Seq<char>) -> Seq<u8>;

/// Relies on md5::compute: the 16-byte MD5 digest of the input bytes,
/// a function of the input alone.
#[verifier::external_body]
fn md5_bytes(s: &str) -> (r: Vec<u8>)
    ensures
        r@ == md5_of(s@),
        r@.len() == 16,
{
    md5::compute(s.as_bytes()).0.to_vec()
}

/// Relies on sha1::Sha1 through the digest::Digest trait: the 20-byte SHA-1
/// digest of the input bytes, a function of the input alone.
#[verifier::external_body]
fn sha1_bytes(s: &str) -> (r: Vec<u8>)
    ensures
        r@ == sha1_of(s@),
        r@.len() == 20,
{
    <sha1::Sha1 as sha1::Digest>::digest(s.as_bytes()).to_vec()
}

/// Relies on sha2::Sha256 through the digest::Digest trait: the 32-byte
/// SHA-256 digest of the input bytes, a function of the input alone.
#[verifier::external_body]
fn sha256_bytes(s: &str) -> (r: Vec<u8>)
    ensures
        r@ == sha256_of(s@),
        r@.len() == 32,
{
    <sha2::Sha256 as sha2::Digest>::digest(s.as_bytes()).to_vec()
}

/// The supported one-way digest algorithms. Selection is immutable for the
/// lifetime of one run; an unknown selector is a distinct error, never a
/// silent default. Adding an algorithm means one new variant and one new arm
/// in the dispatch of `digest_string`.
#[derive(Clone, Copy, Debug, PartialEq, Eq, Structural)]
pub enum HashFunction {
    MD5,
    SHA1,
    SHA256,
}

/// The raw digest bytes an algorithm produces for a string.
pub open spec fn raw_digest_of(kind: HashFunction, s: Seq<char>) -> Seq<u8> {
    match kind {
        HashFunction::MD5 => md5_of(s),
        HashFunction::SHA1 => sha1_of(s),
        HashFunction::SHA256 => sha256_of(s),
    }
}

/// The number of bytes in a digest of the given kind.
pub open spec fn digest_len(kind: HashFunction) -> nat {
    match kind {
        HashFunction::MD5 => 16,
        HashFunction::SHA1 => 20,
        HashFunction::SHA256 => 32,
    }
}

/// The digest string an algorithm produces for a candidate: the lowercase
/// hexadecimal rendering of its raw digest bytes.
pub open spec fn digest_of(kind: HashFunction, s: Seq<char>) -> Seq<char> {
    hex_of(raw_digest_of(kind, s))
}

/// The hash-function kind a case-sensitive textual selector names, if any.
pub open spec fn resolve_spec(name: Seq<char>) -> Option<HashFunction> {
    if name == "md5"@ {
        Some(HashFunction::MD5)
    } else if name == "sha1"@ {
        Some(HashFunction::SHA1)
    } else if name == "sha256"@ {
        Some(HashFunction::SHA256)
    } else {
        None
    }
}

impl HashFunction {
    /// Looks a selector up in the registry: `"md5"`, `"sha1"` and `"sha256"`
    /// name the three supported algorithms; anything else is unknown.
    pub fn from_str(name: &str) -> (r: Option<HashFunction>)
        ensures
            r == resolve_spec(name@),
    {
        if str_eq(name, "md5") {
            Some(HashFunction::MD5)
        } else if str_eq(name, "sha1") {
            Some(HashFunction::SHA1)
        } else if str_eq(name, "sha256") {
            Some(HashFunction::SHA256)
        } else {
            None
        }
    }
}

/// Resolves a selector to a hash-function kind, or reports exactly which
/// selector was unsupported. Fails fast: callers resolve before any hashing
/// work begins.
pub fn resolve(name: &str) -> (r: Result<HashFunction, CrackError>)
    ensures
        resolve_spec(name@) is Some ==> r == Ok::<HashFunction, CrackError>(
            resolve_spec(name@)->0,
        ),
        resolve_spec(name@) is None ==> (r matches Err(e) && (e matches CrackError::UnsupportedHashFunction(n)
            && n@ == name@)),
{
    match HashFunction::from_str(name) {
        Some(kind) => Ok(kind),
        None => Err(CrackError::UnsupportedHashFunction(name.to_owned())),
    }
}

/// One candidate of the wordlist paired with its digest string. Produced once
/// per candidate and immutable after creation.
#[derive(Debug)]
pub struct DigestRecord {
    /// The plaintext candidate the digest was computed from.
    pub candidate: String,
    /// The lowercase hexadecimal digest of the candidate.
    pub digest: String,
}

/// Computes the digest string of one candidate under the selected algorithm.
pub fn digest_string(kind: HashFunction, s: &str) -> (r: String)
    ensures
        r@ == digest_of(kind, s@),
        r@.len() == 2 * digest_len(kind),
{
    let raw = match kind {
        HashFunction::MD5 => md5_bytes(s),
        HashFunction::SHA1 => sha1_bytes(s),
        HashFunction::SHA256 => sha256_bytes(s),
    };
    proof {
        lemma_hex_of_len(raw@);
    }
    to_hex(&raw)
}

/// Whether a digest-record sequence is exactly the hashing of a candidate
/// sequence under one algorithm: same length, same candidates in the same
/// order, each paired with its digest string.
pub open spec fn hashes(records: Seq<DigestRecord>, candidates: Seq<Seq<char>>, kind: HashFunction) -> bool {
    &&& records.len() == candidates.len()
    &&& forall|i: int|
        0 <= i < records.len() ==> (#[trigger] records[i]).candidate@ == candidates[i]
            && records[i].digest@ == digest_of(kind, candidates[i])
}

/// Hashes every candidate exactly once, preserving input order. An empty
/// wordlist yields an empty record sequence, not an error.
pub fn hash_all(candidates: &Vec<String>, kind: HashFunction) -> (r: Vec<DigestRecord>)
    ensures
        hashes(r@, candidates.deep_view(), kind),
{
    let mut r: Vec<DigestRecord> = Vec::new();
    let mut i: usize = 0;
    while i < candidates.len()
        invariant
            i <= candidates@.len(),
            hashes(r@, candidates.deep_view().take(i as int), kind),
        decreases candidates@.len() - i,
    {
        let digest = digest_string(kind, candidates[i].as_str());
        let candidate = candidates[i].clone();
        r.push(DigestRecord { candidate, digest });
        proof {
            assert(candidates.deep_view().take(i + 1 as int) =~= candidates.deep_view().take(
                i as int,
            ).push(candidates@[i as int]@));
        }
        i += 1;
    }
    proof {
        assert(candidates.deep_view().take(candidates@.len() as int) =~= candidates.deep_view());
    }
    r
}

/// Hashing is deterministic: two record sequences obtained by hashing the
/// same candidates under the same algorithm agree entry by entry, in both
/// the candidate and the digest string.
pub proof fn lemma_hash_all_deterministic(
    r1: Seq<DigestRecord>,
    r2: Seq<DigestRecord>,
    candidates: Seq<Seq<char>>,
    kind: HashFunction,
)
    requires
        hashes(r1, candidates, kind),
        hashes(r2, candidates, kind),
    ensures
        r1.len() == r2.len(),
        forall|i: int|
            0 <= i < r1.len() ==> (#[trigger] r1[i]).candidate@ == r2[i].candidate@
                && r1[i].digest@ == r2[i].digest@,
{
}

} // verus!
