//! The credential source: (login, stored-digest) pairs parsed out of a CSV
//! document with a header row. Only two-column records contribute a pair;
//! the validity invariant is that the number of logins equals the number of
//! stored digests.

use vstd::prelude::*;
use crate::errors::CrackError;

verus! {

/// The parse of a CSV document with a header row: `None` where the document
/// is malformed (a data record whose field count differs from the header's,
/// or invalid text), otherwise, for each data record in document order, the
/// sequence of its fields.
pub uninterp spec fn csv_records_of(content: Seq<char>) -> Option<Seq<Seq<Seq<char>>>>;

#[verifier::external_type_specification]
#[verifier::external_body]
pub struct ExCsvError(csv::Error);

/// Relies on csv::ReaderBuilder and csv::Reader::records: parsing an
/// in-memory CSV document with a header row is a function of the document
/// alone — whether it succeeds, and on success which data records come back,
/// in document order, each as the sequence of its fields.
#[verifier::external_body]
fn parse_csv(content: &str) -> (r: Result<Vec<Vec<String>>, csv::Error>)
    ensures
        r is Ok <==> csv_records_of(content@) is Some,
        r matches Ok(records) ==> Some(records.deep_view()) == csv_records_of(content@),
{
    let mut rdr = csv::ReaderBuilder::new().has_headers(true).from_reader(content.as_bytes());
    let mut out: Vec<Vec<String>> = Vec::new();
    for result in rdr.records() {
        let record = result?;
        out.push(record.iter().map(|field| field.to_string()).collect());
    }
    Ok(out)
}

/// The logins contributed by a record sequence: the first field of each
/// two-field record, in order.
pub open spec fn rec_logins(records: Seq<Seq<Seq<char>>>) -> Seq<Seq<char>>
    decreases records.len(),
{
    if records.len() == 0 {
        Seq::empty()
    } else {
        rec_logins(records.drop_last()) + if records.last().len() == 2 {
            seq![records.last()[0]]
        } else {
            Seq::empty()
        }
    }
}

/// The stored digests contributed by a record sequence: the second field of
/// each two-field record, in order.
pub open spec fn rec_digests(records: Seq<Seq<Seq<char>>>) -> Seq<Seq<char>>
    decreases records.len(),
{
    if records.len() == 0 {
        Seq::empty()
    } else {
        rec_digests(records.drop_last()) + if records.last().len() == 2 {
            seq![records.last()[1]]
        } else {
            Seq::empty()
        }
    }
}

/// A record sequence contributes as many logins as stored digests.
pub proof fn lemma_rec_counts_agree(records: Seq<Seq<Seq<char>>>)
    ensures
        rec_logins(records).len() == rec_digests(records).len(),
    decreases records.len(),
{
    if records.len() > 0 {
        lemma_rec_counts_agree(records.drop_last());
    }
}

/// The credential source: parallel sequences of logins and stored digests,
/// read from the CSV document held in `content`.
#[derive(Debug)]
pub struct Passwords {
    /// Where the document came from; carried along for reporting.
    pub path: String,
    /// The raw CSV document.
    pub content: String,
    /// The login of each two-column record, in document order.
    pub logins: Vec<String>,
    /// The stored digest of each two-column record, in document order.
    pub passwords: Vec<String>,
}

impl Passwords {
    /// Builds a credential source from a CSV document: parses the document
    /// and keeps the two-column records as (login, stored-digest) pairs.
    /// Succeeds exactly on well-formed documents; where the document cannot
    /// be parsed, no partial work is kept.
    pub fn new(path: String, content: String) -> (r: Result<Passwords, CrackError>)
        ensures
            r is Ok <==> csv_records_of(content@) is Some,
            r matches Ok(p) ==> p.path@ == path@ && p.content@ == content@
                && p.logins.deep_view() == rec_logins(csv_records_of(content@)->0)
                && p.passwords.deep_view() == rec_digests(csv_records_of(content@)->0)
                && p.logins@.len() == p.passwords@.len(),
            r matches Err(e) ==> e == CrackError::SourceUnavailable,
    {
        let mut p = Passwords { path, content, logins: Vec::new(), passwords: Vec::new() };
        match p.load_content() {
            Ok(()) => {
                proof {
                    lemma_rec_counts_agree(csv_records_of(p.content@)->0);
                    assert(Seq::<Seq<char>>::empty() + rec_logins(csv_records_of(p.content@)->0)
                        =~= rec_logins(csv_records_of(p.content@)->0));
                    assert(Seq::<Seq<char>>::empty() + rec_digests(csv_records_of(p.content@)->0)
                        =~= rec_digests(csv_records_of(p.content@)->0));
                }
                Ok(p)
            },
            Err(e) => Err(e),
        }
    }

    /// Parses `self.content` as a CSV document with a header row and appends
    /// the (login, stored-digest) pair of every two-column record, in
    /// document order. Succeeds exactly on well-formed documents; on failure
    /// nothing changes and the source is reported unavailable.
    pub fn load_content(&mut self) -> (r: Result<(), CrackError>)
        ensures
            final(self).path == old(self).path,
            final(self).content == old(self).content,
            r is Ok <==> csv_records_of(old(self).content@) is Some,
            r is Ok ==> final(self).logins.deep_view() == old(self).logins.deep_view()
                + rec_logins(csv_records_of(old(self).content@)->0),
            r is Ok ==> final(self).passwords.deep_view() == old(self).passwords.deep_view()
                + rec_digests(csv_records_of(old(self).content@)->0),
            r matches Err(e) ==> e == CrackError::SourceUnavailable && *final(self) == *old(self),
    {
        let records = match parse_csv(self.content.as_str()) {
            Ok(records) => records,
            Err(_) => {
                return Err(CrackError::SourceUnavailable);
            },
        };
        self.add_records(records);
        Ok(())
    }

    /// Appends the (login, stored-digest) pair of every two-column record,
    /// in order; records with any other number of fields contribute nothing.
    pub fn add_records(&mut self, records: Vec<Vec<String>>)
        ensures
            final(self).path == old(self).path,
            final(self).content == old(self).content,
            final(self).logins.deep_view() == old(self).logins.deep_view() + rec_logins(
                records.deep_view(),
            ),
            final(self).passwords.deep_view() == old(self).passwords.deep_view() + rec_digests(
                records.deep_view(),
            ),
    {
        proof {
            assert(self.logins.deep_view() =~= old(self).logins.deep_view() + rec_logins(
                records.deep_view().take(0),
            ));
            assert(self.passwords.deep_view() =~= old(self).passwords.deep_view() + rec_digests(
                records.deep_view().take(0),
            ));
        }
        let mut i: usize = 0;
        while i < records.len()
            invariant
                i <= records@.len(),
                self.path == old(self).path,
                self.content == old(self).content,
                self.logins.deep_view() == old(self).logins.deep_view() + rec_logins(
                    records.deep_view().take(i as int),
                ),
                self.passwords.deep_view() == old(self).passwords.deep_view() + rec_digests(
                    records.deep_view().take(i as int),
                ),
            decreases records@.len() - i,
        {
            let ghost prev_logins = self.logins.deep_view();
            let ghost prev_passwords = self.passwords.deep_view();
            if records[i].len() == 2 {
                let login = records[i][0].clone();
                let digest = records[i][1].clone();
                self.logins.push(login);
                self.passwords.push(digest);
                proof {
                    assert(self.logins.deep_view() =~= prev_logins.push(
                        records@[i as int]@[0]@,
                    ));
                    assert(self.passwords.deep_view() =~= prev_passwords.push(
                        records@[i as int]@[1]@,
                    ));
                }
            }
            proof {
                let rv = records.deep_view();
                let taken = rv.take(i + 1 as int);
                assert(taken.drop_last() =~= rv.take(i as int));
                assert(taken.last() =~= rv[i as int]);
                assert(rv[i as int].len() == records@[i as int]@.len());
                assert(self.logins.deep_view() =~= old(self).logins.deep_view() + rec_logins(
                    taken,
                ));
                assert(self.passwords.deep_view() =~= old(self).passwords.deep_view()
                    + rec_digests(taken));
            }
            i += 1;
        }
        proof {
            assert(records.deep_view().take(records@.len() as int) =~= records.deep_view());
        }
    }

    /// Whether the source upholds the credential invariant: as many logins
    /// as stored digests. An empty-but-balanced source is valid — matching
    /// it yields an empty result, not an error.
    pub fn validate(&self) -> (r: bool)
        ensures
            r == (self.logins@.len() == self.passwords@.len()),
    {
        self.logins.len() == self.passwords.len()
    }
}

} // verus!
