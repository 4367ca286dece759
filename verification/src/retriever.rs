//! The retriever: correlates the hasher's digest records with the stored
//! credentials. A stored digest is normalized to the hasher's lowercase
//! format and looked up among the records; when two candidates share a
//! digest, the later one in scan order wins — a defined, deterministic
//! tie-break, not an error.

use vstd::prelude::*;
use crate::errors::CrackError;
use crate::hasher::{
    digest_of, hashes, lemma_hex_lowercase, raw_digest_of, DigestRecord, HashFunction,
};
use crate::passwords::Passwords;
use crate::text::{eq_lower, lower_seq};

verus! {

/// The candidate recovered for a digest key: that of the last record in scan
/// order whose normalized digest equals the key, if any. The key is expected
/// already normalized (lowercased).
pub open spec fn lookup(records: Seq<DigestRecord>, key: Seq<char>) -> Option<Seq<char>>
    decreases records.len(),
{
    if records.len() == 0 {
        None
    } else if lower_seq(records.last().digest@) == key {
        Some(records.last().candidate@)
    } else {
        lookup(records.drop_last(), key)
    }
}

/// A key that no record's normalized digest equals is never recovered.
pub proof fn lemma_lookup_absent(records: Seq<DigestRecord>, key: Seq<char>)
    requires
        forall|i: int| 0 <= i < records.len() ==> lower_seq((#[trigger] records[i]).digest@) != key,
    ensures
        lookup(records, key) is None,
    decreases records.len(),
{
    if records.len() > 0 {
        assert(records.last() == records[records.len() - 1]);
        lemma_lookup_absent(records.drop_last(), key);
    }
}

/// A key that some record's normalized digest equals is always recovered.
pub proof fn lemma_lookup_present(records: Seq<DigestRecord>, key: Seq<char>)
    requires
        exists|i: int|
            0 <= i < records.len() && lower_seq((#[trigger] records[i]).digest@) == key,
    ensures
        lookup(records, key) is Some,
    decreases records.len(),
{
    if lower_seq(records.last().digest@) != key {
        let i = choose|i: int|
            0 <= i < records.len() && lower_seq((#[trigger] records[i]).digest@) == key;
        assert(records.last() == records[records.len() - 1]);
        assert(records.drop_last()[i] == records[i]);
        lemma_lookup_present(records.drop_last(), key);
    }
}

/// Every digest the hasher produced is found again: a stored digest equal to
/// the digest of some candidate of the hashed wordlist never resolves to
/// not-found, since the hasher's rendering is already normalized.
pub proof fn lemma_hashed_digest_found(
    records: Seq<DigestRecord>,
    candidates: Seq<Seq<char>>,
    kind: HashFunction,
    i: int,
)
    requires
        hashes(records, candidates, kind),
        0 <= i < records.len(),
    ensures
        lookup(records, lower_seq(digest_of(kind, candidates[i]))) is Some,
{
    lemma_hex_lowercase(raw_digest_of(kind, candidates[i]));
    assert(lower_seq(records[i].digest@) == lower_seq(digest_of(kind, candidates[i])));
    lemma_lookup_present(records, lower_seq(digest_of(kind, candidates[i])));
}

/// Last writer wins: when the last record in scan order carries the key, its
/// candidate is the one recovered, whatever came before.
pub proof fn lemma_lookup_last_wins(records: Seq<DigestRecord>, key: Seq<char>)
    requires
        records.len() > 0,
        lower_seq(records.last().digest@) == key,
    ensures
        lookup(records, key) == Some(records.last().candidate@),
{
}

/// One resolved credential: the login and the recovered plaintext, or an
/// explicit not-found marker.
#[derive(Debug)]
pub struct MatchEntry {
    /// The login of the credential, as the source gave it.
    pub login: String,
    /// The recovered candidate, or `None` where no dictionary entry hashes
    /// to the stored digest.
    pub plaintext: Option<String>,
}

/// The character-level value of an optional recovered candidate.
pub open spec fn plaintext_view(o: Option<String>) -> Option<Seq<char>> {
    match o {
        Option::None => None,
        Option::Some(s) => Some(s@),
    }
}

/// Whether an entry sequence is exactly the resolution of the credentials
/// (parallel logins and stored digests) against the digest records: one
/// entry per credential in source order, each holding the login and the
/// candidate recovered for the normalized stored digest, or a not-found
/// marker.
pub open spec fn resolves(
    entries: Seq<MatchEntry>,
    records: Seq<DigestRecord>,
    logins: Seq<Seq<char>>,
    stored: Seq<Seq<char>>,
) -> bool {
    &&& entries.len() == logins.len()
    &&& forall|j: int|
        0 <= j < entries.len() ==> (#[trigger] entries[j]).login@ == logins[j]
            && plaintext_view(entries[j].plaintext) == lookup(records, lower_seq(stored[j]))
}

/// Matching is deterministic: two entry sequences that both resolve the same
/// credentials against the same records agree entry by entry, in both the
/// login and the recovered plaintext.
pub proof fn lemma_match_all_deterministic(
    e1: Seq<MatchEntry>,
    e2: Seq<MatchEntry>,
    records: Seq<DigestRecord>,
    logins: Seq<Seq<char>>,
    stored: Seq<Seq<char>>,
)
    requires
        resolves(e1, records, logins, stored),
        resolves(e2, records, logins, stored),
    ensures
        e1.len() == e2.len(),
        forall|j: int|
            0 <= j < e1.len() ==> (#[trigger] e1[j]).login@ == e2[j].login@ && plaintext_view(
                e1[j].plaintext,
            ) == plaintext_view(e2[j].plaintext),
{
}

/// Scans the records from the end and returns the candidate of the first one
/// whose digest equals the stored digest once both are lowercased — that is,
/// the last writer in scan order.
pub fn find_candidate(records: &Vec<DigestRecord>, stored: &str) -> (r: Option<String>)
    ensures
        plaintext_view(r) == lookup(records@, lower_seq(stored@)),
{
    let mut i: usize = records.len();
    proof {
        assert(records@.take(records@.len() as int) =~= records@);
    }
    while i > 0
        invariant
            i <= records@.len(),
            lookup(records@, lower_seq(stored@)) == lookup(
                records@.take(i as int),
                lower_seq(stored@),
            ),
        decreases i,
    {
        i -= 1;
        let ghost taken = records@.take(i + 1 as int);
        proof {
            assert(taken.drop_last() =~= records@.take(i as int));
            assert(taken.last() == records@[i as int]);
        }
        if eq_lower(records[i].digest.as_str(), stored) {
            return Some(records[i].candidate.clone());
        }
    }
    proof {
        assert(records@.take(0) =~= Seq::<DigestRecord>::empty());
    }
    None
}

/// Resolves every credential of the source against the digest records,
/// producing one entry per credential in source order. Refuses to run when
/// the source holds a different number of logins than stored digests, and
/// then produces no partial result; an empty credential list yields an empty
/// result, not an error.
pub fn match_all(records: &Vec<DigestRecord>, creds: &Passwords) -> (r: Result<
    Vec<MatchEntry>,
    CrackError,
>)
    ensures
        r is Ok <==> creds.logins@.len() == creds.passwords@.len(),
        r matches Err(e) ==> e == CrackError::CredentialCountMismatch(
            creds.logins@.len() as usize,
            creds.passwords@.len() as usize,
        ),
        r matches Ok(entries) ==> resolves(
            entries@,
            records@,
            creds.logins.deep_view(),
            creds.passwords.deep_view(),
        ),
{
    if creds.logins.len() != creds.passwords.len() {
        return Err(CrackError::CredentialCountMismatch(creds.logins.len(), creds.passwords.len()));
    }
    let mut entries: Vec<MatchEntry> = Vec::new();
    let mut j: usize = 0;
    while j < creds.logins.len()
        invariant
            creds.logins@.len() == creds.passwords@.len(),
            j <= creds.logins@.len(),
            entries@.len() == j,
            forall|k: int|
                0 <= k < j ==> (#[trigger] entries@[k]).login@ == creds.logins@[k]@
                    && plaintext_view(entries@[k].plaintext) == lookup(
                    records@,
                    lower_seq(creds.passwords@[k]@),
                ),
        decreases creds.logins@.len() - j,
    {
        let plaintext = find_candidate(records, creds.passwords[j].as_str());
        let login = creds.logins[j].clone();
        entries.push(MatchEntry { login, plaintext });
        j += 1;
    }
    Ok(entries)
}

} // verus!
