//! The corpus of failing cases: how its records are named, what a new
//! record holds, and how the records are read back.

use vstd::prelude::*;
use crate::case::CaseView;
use crate::case::TestCase;
use crate::codec::case_in;
use crate::codec::case_layout;
use crate::codec::decode_case;
use crate::codec::encode_case;
use crate::codec::lemma_case_round_trip;
use crate::text::decimal;
use crate::text::lemma_decimal_injective;
use crate::text::push_decimal;

verus! {

/// Why the corpus did not take or give a case.
#[derive(Clone, Copy, Debug, PartialEq, Eq, Structural)]
pub enum StoreError {
    /// The name that the new record would get is that of entry `index` of
    /// the directory.
    NameTaken { index: usize },
    /// Record `index` of the listing holds no test case.
    Corrupt { index: usize },
}

/// A record that is ready to be written: its file name and its bytes.
#[derive(Clone, Debug, PartialEq, Eq)]
pub struct Record {
    pub name: String,
    pub bytes: Vec<u8>,
}

/// The name of the directory that holds the corpus.
pub fn corpus_dir() -> (dir: &'static str)
    ensures
        dir@ == "testdata"@,
{
    "testdata"
}

/// The file name of the record with identifier `id`.
pub open spec fn case_name(id: nat) -> Seq<char> {
    "case_"@ + decimal(id) + ".bin"@
}

/// Two identifiers with the same file name are the same.
pub proof fn lemma_case_name_injective(a: nat, b: nat)
    requires
        case_name(a) == case_name(b),
    ensures
        a == b,
{
    reveal_strlit("case_");
    reveal_strlit(".bin");
    let head = "case_"@;
    let tail = ".bin"@;
    let name_a = case_name(a);
    let name_b = case_name(b);
    assert(name_a.subrange(5, name_a.len() - 4) =~= decimal(a));
    assert(name_b.subrange(5, name_b.len() - 4) =~= decimal(b));
    lemma_decimal_injective(a, b);
}

/// The names that a directory listing holds.
pub open spec fn names_of(listing: Seq<String>) -> Seq<Seq<char>> {
    Seq::new(listing.len(), |k: int| listing[k]@)
}

/// The name of the next record of a directory with the given entries: the
/// number of entries is its identifier. There is none when an entry has
/// that name already.
pub open spec fn next_name(names: Seq<Seq<char>>) -> Option<Seq<char>> {
    if names.contains(case_name(names.len())) {
        None
    } else {
        Some(case_name(names.len()))
    }
}

/// The entries of the directory after one more case was persisted.
pub open spec fn persisted(names: Seq<Seq<char>>) -> Seq<Seq<char>> {
    match next_name(names) {
        Some(name) => names.push(name),
        None => names,
    }
}

/// The entries of a directory that was empty, after `count` cases were
/// persisted one after the other.
pub open spec fn grown(count: nat) -> Seq<Seq<char>>
    decreases count,
{
    if count == 0 {
        Seq::empty()
    } else {
        persisted(grown((count - 1) as nat))
    }
}

/// Persisting `count` cases into an empty corpus gives the records the
/// identifiers from zero to `count - 1`, each once and none left out, and
/// the next name is free again.
pub proof fn lemma_monotonic_naming(count: nat)
    ensures
        grown(count).len() == count,
        forall|k: int| 0 <= k < count ==> #[trigger] grown(count)[k] == case_name(k as nat),
        forall|a: int, b: int|
            0 <= a < b < count ==> #[trigger] grown(count)[a] != #[trigger] grown(count)[b],
        next_name(grown(count)) == Some(case_name(count)),
    decreases count,
{
    if count > 0 {
        lemma_monotonic_naming((count - 1) as nat);
    }
    let names = grown(count);
    assert forall|a: int, b: int| 0 <= a < b < count implies #[trigger] names[a]
        != #[trigger] names[b] by {
        if names[a] == names[b] {
            lemma_case_name_injective(a as nat, b as nat);
        }
    }
    if names.contains(case_name(count)) {
        let k = choose|k: int| 0 <= k < names.len() && names[k] == case_name(count);
        lemma_case_name_injective(k as nat, count);
    }
}

/// The file name of the record with identifier `id`.
pub fn case_file_name(id: usize) -> (name: String)
    ensures
        name@ == case_name(id as nat),
{
    let mut name = String::from_str("case_");
    push_decimal(&mut name, id);
    name.append(".bin");
    name
}

/// The name for the next record of a directory with the given entries, or
/// the entry that has the name already.
pub fn next_case_name(listing: &Vec<String>) -> (r: Result<String, StoreError>)
    ensures
        r matches Ok(name) ==> next_name(names_of(listing@)) == Some(name@),
        r matches Err(e) ==> {
            &&& next_name(names_of(listing@)) is None
            &&& e matches StoreError::NameTaken { index }
            &&& index < listing.len()
            &&& listing[index as int]@ == case_name(listing.len() as nat)
            &&& forall|k: int| 0 <= k < index ==> listing[k]@ != case_name(listing.len() as nat)
        },
{
    let name = case_file_name(listing.len());
    let ghost names = names_of(listing@);
    let mut k: usize = 0;
    while k < listing.len()
        invariant
            k <= listing.len(),
            name@ == case_name(listing.len() as nat),
            names == names_of(listing@),
            forall|a: int| 0 <= a < k ==> listing[a]@ != name@,
        decreases listing.len() - k,
    {
        if listing[k] == name {
            assert(names[k as int] == name@);
            return Err(StoreError::NameTaken { index: k });
        }
        k += 1;
    }
    assert forall|a: int| 0 <= a < names.len() implies names[a] != name@ by {
        assert(names[a] == listing[a]@);
    }
    Ok(name)
}

/// The record that persists a case into a directory with the given
/// entries: named after the number of entries, holding the bytes of the
/// case. No record is planned over an entry that exists.
pub fn plan_record(listing: &Vec<String>, case: &TestCase) -> (r: Result<Record, StoreError>)
    ensures
        r is Ok <==> next_name(names_of(listing@)) is Some,
        r matches Ok(record) ==> {
            &&& Some(record.name@) == next_name(names_of(listing@))
            &&& record.bytes@ == case_layout(case@)
            &&& case_in(record.bytes@) == Some(case@)
        },
        r matches Err(e) ==> {
            &&& e matches StoreError::NameTaken { index }
            &&& index < listing.len()
            &&& listing[index as int]@ == case_name(listing.len() as nat)
            &&& forall|k: int| 0 <= k < index ==> listing[k]@ != case_name(listing.len() as nat)
        },
{
    let bytes = encode_case(case);
    let name = next_case_name(listing)?;
    Ok(Record { name, bytes })
}

/// The contents of the records, each as a sequence of bytes.
pub open spec fn contents_of(blobs: Seq<Vec<u8>>) -> Seq<Seq<u8>> {
    Seq::new(blobs.len(), |k: int| blobs[k]@)
}

/// The test cases as mathematical values.
pub open spec fn views_of(cases: Seq<TestCase>) -> Seq<CaseView> {
    Seq::new(cases.len(), |k: int| cases[k]@)
}

/// The test cases that the records hold, in the order of the records; none
/// when one record holds no test case.
pub open spec fn cases_in(contents: Seq<Seq<u8>>) -> Option<Seq<CaseView>> {
    if forall|k: int| 0 <= k < contents.len() ==> case_in(#[trigger] contents[k]) is Some {
        Some(Seq::new(contents.len(), |k: int| case_in(contents[k])->0))
    } else {
        None
    }
}

/// Reads every record, in the order given. One record without a test case
/// fails the whole reading; the first such record is reported.
pub fn decode_cases(blobs: &Vec<Vec<u8>>) -> (r: Result<Vec<TestCase>, StoreError>)
    ensures
        r matches Ok(cases) ==> cases_in(contents_of(blobs@)) == Some(views_of(cases@)),
        r matches Err(e) ==> {
            &&& cases_in(contents_of(blobs@)) is None
            &&& e matches StoreError::Corrupt { index }
            &&& index < blobs.len()
            &&& case_in(blobs[index as int]@) is None
            &&& forall|k: int| 0 <= k < index ==> case_in(#[trigger] blobs[k]@) is Some
        },
{
    let ghost contents = contents_of(blobs@);
    let mut cases: Vec<TestCase> = Vec::new();
    let mut k: usize = 0;
    while k < blobs.len()
        invariant
            k <= blobs.len(),
            contents == contents_of(blobs@),
            cases.len() == k,
            forall|a: int| 0 <= a < k ==> case_in(#[trigger] blobs[a]@) == Some(cases[a]@),
        decreases blobs.len() - k,
    {
        match decode_case(&blobs[k]) {
            Ok(case) => {
                cases.push(case);
            },
            Err(_) => {
                assert(case_in(contents[k as int]) is None);
                return Err(StoreError::Corrupt { index: k });
            },
        }
        k += 1;
    }
    assert forall|a: int| 0 <= a < contents.len() implies case_in(#[trigger] contents[a])
        is Some by {
        assert(case_in(blobs[a]@) == Some(cases[a]@));
    }
    assert(Seq::new(contents.len(), |k: int| case_in(contents[k])->0) =~= views_of(cases@)) by {
        assert forall|a: int| 0 <= a < contents.len() implies case_in(contents[a])->0
            == views_of(cases@)[a] by {
            assert(case_in(blobs[a]@) == Some(cases[a]@));
        }
    }
    Ok(cases)
}

/// Persisting a case and reading the corpus again gives the cases that
/// were there, and after them the persisted case, exactly as it was.
pub proof fn lemma_persist_then_reload(contents: Seq<Seq<u8>>, case: CaseView)
    requires
        case.primary.len() <= u64::MAX,
        case.secondary.len() <= u64::MAX,
    ensures
        cases_in(contents.push(case_layout(case))) == match cases_in(contents) {
            Some(cases) => Some(cases.push(case)),
            None => None,
        },
{
    let bytes = case_layout(case);
    let after = contents.push(bytes);
    lemma_case_round_trip(case, Seq::empty());
    assert(bytes + Seq::<u8>::empty() =~= bytes);
    match cases_in(contents) {
        Some(cases) => {
            assert forall|k: int| 0 <= k < after.len() implies case_in(#[trigger] after[k])
                is Some by {
                if k < contents.len() {
                    assert(case_in(contents[k]) is Some);
                }
            }
            assert(cases_in(after)->0 =~= cases.push(case));
        },
        None => {
            let k = choose|k: int| 0 <= k < contents.len() && !(case_in(contents[k]) is Some);
            assert(after[k] == contents[k]);
        },
    }
}

} // verus!
