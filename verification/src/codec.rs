//! The binary record of a test case: its layout in bytes, and the calls
//! that write and read it.

use vstd::prelude::*;
use vstd::bytes::spec_u64_to_le_bytes;
use vstd::bytes::spec_u64_from_le_bytes;
use vstd::bytes::lemma_auto_spec_u64_to_from_le_bytes;
use crate::case::TestCase;
use crate::case::CaseView;
use crate::case::pairs_of;
use crate::case::points_of;
use crate::case::to_pairs;
use crate::case::to_points;
use crate::case::lemma_points_of_pairs;
use crate::scalar::Scalar;

verus! {

/// The eight bytes of a word, least significant first.
pub open spec fn word(v: u64) -> Seq<u8> {
    spec_u64_to_le_bytes(v)
}

/// The word whose eight bytes start at `at`.
pub open spec fn word_at(bytes: Seq<u8>, at: int) -> u64 {
    spec_u64_from_le_bytes(bytes.subrange(at, at + 8))
}

/// The bytes of a sequence of pairs: for each pair in turn its first word,
/// then its second.
pub open spec fn pairs_layout(pairs: Seq<(u64, u64)>) -> Seq<u8>
    decreases pairs.len(),
{
    if pairs.len() == 0 {
        Seq::empty()
    } else {
        pairs_layout(pairs.drop_last()) + word(pairs.last().0) + word(pairs.last().1)
    }
}

/// The bytes of a curve: the number of its points as a word, then the
/// points.
pub open spec fn curve_layout(pairs: Seq<(u64, u64)>) -> Seq<u8> {
    word(pairs.len() as u64) + pairs_layout(pairs)
}

/// The bytes of a record: the primary curve, the secondary curve, then the
/// match distance as a word.
pub open spec fn record_layout(
    primary: Seq<(u64, u64)>,
    secondary: Seq<(u64, u64)>,
    epsilon: u64,
) -> Seq<u8> {
    curve_layout(primary) + curve_layout(secondary) + word(epsilon)
}

/// The `count` pairs whose bytes start at `at`.
pub open spec fn pairs_at(bytes: Seq<u8>, at: int, count: nat) -> Seq<(u64, u64)> {
    Seq::new(count, |k: int| (word_at(bytes, at + 16 * k), word_at(bytes, at + 16 * k + 8)))
}

/// The curve whose bytes start at `at`, with the place where it ends; none
/// when the bytes end before the curve does.
pub open spec fn curve_at(bytes: Seq<u8>, at: int) -> Option<(Seq<(u64, u64)>, int)> {
    if at + 8 > bytes.len() {
        None
    } else {
        let count = word_at(bytes, at);
        if at + 8 + 16 * count > bytes.len() {
            None
        } else {
            Some((pairs_at(bytes, at + 8, count as nat), at + 8 + 16 * count))
        }
    }
}

/// The record at the start of the bytes; none when the bytes end before the
/// record does. Bytes after the record are not looked at.
pub open spec fn record_in(bytes: Seq<u8>) -> Option<(Seq<(u64, u64)>, Seq<(u64, u64)>, u64)> {
    match curve_at(bytes, 0) {
        None => None,
        Some((primary, after_primary)) => match curve_at(bytes, after_primary) {
            None => None,
            Some((secondary, after_secondary)) => if after_secondary + 8 > bytes.len() {
                None
            } else {
                Some((primary, secondary, word_at(bytes, after_secondary)))
            },
        },
    }
}

/// The bytes of a test case.
pub open spec fn case_layout(case: CaseView) -> Seq<u8> {
    record_layout(pairs_of(case.primary), pairs_of(case.secondary), case.epsilon.bits)
}

/// The test case at the start of the bytes, if there is one.
pub open spec fn case_in(bytes: Seq<u8>) -> Option<CaseView> {
    match record_in(bytes) {
        None => None,
        Some((primary, secondary, epsilon)) => Some(
            CaseView {
                primary: points_of(primary),
                secondary: points_of(secondary),
                epsilon: Scalar { bits: epsilon },
            },
        ),
    }
}

/// Each pair takes sixteen bytes.
pub proof fn lemma_pairs_layout_len(pairs: Seq<(u64, u64)>)
    ensures
        pairs_layout(pairs).len() == 16 * pairs.len(),
    decreases pairs.len(),
{
    lemma_auto_spec_u64_to_from_le_bytes();
    if pairs.len() > 0 {
        lemma_pairs_layout_len(pairs.drop_last());
    }
}

/// Pairs that were laid out between other bytes are read back as they
/// were.
pub proof fn lemma_pairs_read_back(pre: Seq<u8>, pairs: Seq<(u64, u64)>, post: Seq<u8>)
    ensures
        pairs_at(pre + pairs_layout(pairs) + post, pre.len() as int, pairs.len()) == pairs,
    decreases pairs.len(),
{
    lemma_auto_spec_u64_to_from_le_bytes();
    let bytes = pre + pairs_layout(pairs) + post;
    let at = pre.len() as int;
    let got = pairs_at(bytes, at, pairs.len());
    if pairs.len() > 0 {
        let init = pairs.drop_last();
        let last = pairs.last();
        let rest = word(last.0) + word(last.1) + post;
        lemma_pairs_read_back(pre, init, rest);
        lemma_pairs_layout_len(init);
        assert(bytes =~= pre + pairs_layout(init) + rest);
        let from = at + 16 * init.len();
        assert(bytes.subrange(from, from + 8) =~= word(last.0));
        assert(bytes.subrange(from + 8, from + 16) =~= word(last.1));
        assert forall|k: int| 0 <= k < pairs.len() implies got[k] == pairs[k] by {
            if k < init.len() {
                assert(pairs_at(bytes, at, init.len())[k] == init[k]);
            }
        }
    }
    assert(got =~= pairs);
}

/// A curve that was laid out between other bytes is read back as it was,
/// and the reading ends where its bytes end.
pub proof fn lemma_curve_read_back(pre: Seq<u8>, pairs: Seq<(u64, u64)>, post: Seq<u8>)
    requires
        pairs.len() <= u64::MAX,
    ensures
        curve_at(pre + curve_layout(pairs) + post, pre.len() as int) == Some(
            (pairs, (pre.len() + curve_layout(pairs).len()) as int),
        ),
        curve_layout(pairs).len() == 8 + 16 * pairs.len(),
{
    lemma_auto_spec_u64_to_from_le_bytes();
    lemma_pairs_layout_len(pairs);
    let count = pairs.len() as u64;
    let bytes = pre + curve_layout(pairs) + post;
    let at = pre.len() as int;
    assert(bytes.subrange(at, at + 8) =~= word(count));
    lemma_pairs_read_back(pre + word(count), pairs, post);
    assert(bytes =~= (pre + word(count)) + pairs_layout(pairs) + post);
}

/// A record is read back as it was laid out, whatever bytes follow it.
pub proof fn lemma_record_read_back(
    primary: Seq<(u64, u64)>,
    secondary: Seq<(u64, u64)>,
    epsilon: u64,
    tail: Seq<u8>,
)
    requires
        primary.len() <= u64::MAX,
        secondary.len() <= u64::MAX,
    ensures
        record_in(record_layout(primary, secondary, epsilon) + tail) == Some(
            (primary, secondary, epsilon),
        ),
{
    lemma_auto_spec_u64_to_from_le_bytes();
    let bytes = record_layout(primary, secondary, epsilon) + tail;
    let first = curve_layout(primary);
    let second = curve_layout(secondary);
    lemma_curve_read_back(Seq::empty(), primary, second + word(epsilon) + tail);
    assert(bytes =~= Seq::<u8>::empty() + first + (second + word(epsilon) + tail));
    lemma_curve_read_back(first, secondary, word(epsilon) + tail);
    assert(bytes =~= first + second + (word(epsilon) + tail));
    let at = (first.len() + second.len()) as int;
    assert(bytes.subrange(at, at + 8) =~= word(epsilon));
}

/// A test case is read back from its bytes exactly: the same points, bit
/// for bit, and the same match distance, whatever bytes follow.
pub proof fn lemma_case_round_trip(case: CaseView, tail: Seq<u8>)
    requires
        case.primary.len() <= u64::MAX,
        case.secondary.len() <= u64::MAX,
    ensures
        case_in(case_layout(case) + tail) == Some(case),
{
    lemma_record_read_back(
        pairs_of(case.primary),
        pairs_of(case.secondary),
        case.epsilon.bits,
        tail,
    );
    lemma_points_of_pairs(case.primary);
    lemma_points_of_pairs(case.secondary);
}

/// The error of the `bincode` crate, which this library only hands on.
#[verifier::external_type_specification]
#[verifier::external_body]
pub struct ExErrorKind(bincode::ErrorKind);

/// Why no test case came out of some bytes.
#[derive(Clone, Copy, Debug, PartialEq, Eq, Structural)]
pub enum CodecError {
    /// The bytes end before the record does.
    Truncated,
}

/// `bincode::serialize` on the two curves and the match distance, as one
/// tuple of integers. With the fixed-width little-endian encoding that the
/// function uses, a tuple is its fields in turn, a sequence is its length as
/// a 64-bit word and then its items, and a `u64` is a word. Nothing limits
/// the size and the writer is a vector, so the call does not fail.
#[verifier::external_body]
fn serialize_record(primary: &Vec<(u64, u64)>, secondary: &Vec<(u64, u64)>, epsilon: u64) -> (r:
    Result<Vec<u8>, Box<bincode::ErrorKind>>)
    ensures
        r is Ok,
        r matches Ok(bytes) ==> bytes@ == record_layout(primary@, secondary@, epsilon),
{
    bincode::serialize(&(primary, secondary, epsilon))
}

/// `bincode::deserialize` of the same tuple. It reads the fields in turn,
/// fails when the bytes end before the last field does, and does not look
/// at bytes that follow it.
#[verifier::external_body]
fn deserialize_record(bytes: &Vec<u8>) -> (r: Result<
    (Vec<(u64, u64)>, Vec<(u64, u64)>, u64),
    Box<bincode::ErrorKind>,
>)
    ensures
        r matches Ok(record) ==> record_in(bytes@) == Some((record.0@, record.1@, record.2)),
        r is Err ==> record_in(bytes@) is None,
{
    bincode::deserialize(bytes.as_slice())
}

/// The bytes of a test case, as a record of the corpus holds them.
/// Decoding them gives the test case back.
pub fn encode_case(case: &TestCase) -> (bytes: Vec<u8>)
    ensures
        bytes@ == case_layout(case@),
        case_in(bytes@) == Some(case@),
{
    proof {
        assert(case.primary.len() <= usize::MAX && case.secondary.len() <= usize::MAX);
        lemma_case_round_trip(case@, Seq::empty());
        assert(case_layout(case@) + Seq::<u8>::empty() =~= case_layout(case@));
    }
    let primary = to_pairs(&case.primary);
    let secondary = to_pairs(&case.secondary);
    match serialize_record(&primary, &secondary, case.epsilon.to_bits()) {
        Ok(bytes) => bytes,
        Err(_) => unreached(),
    }
}

/// The test case at the start of the bytes.
pub fn decode_case(bytes: &Vec<u8>) -> (r: Result<TestCase, CodecError>)
    ensures
        r matches Ok(case) ==> case_in(bytes@) == Some(case@),
        r matches Err(e) ==> e == CodecError::Truncated && case_in(bytes@) is None,
{
    match deserialize_record(bytes) {
        Ok(record) => {
            let primary = to_points(&record.0);
            let secondary = to_points(&record.1);
            Ok(TestCase { primary, secondary, epsilon: Scalar::from_bits(record.2) })
        },
        Err(_) => Err(CodecError::Truncated),
    }
}

} // verus!
