use pcm_vis::case::{Point, TestCase};
use pcm_vis::codec::{decode_case, encode_case, CodecError};
use pcm_vis::scalar::Scalar;

fn s(x: f64) -> Scalar {
    Scalar::from_bits(x.to_bits())
}

fn p(x: f64, y: f64) -> Point {
    Point { x: s(x), y: s(y) }
}

fn line() -> TestCase {
    TestCase {
        primary: vec![p(0.0, 0.0), p(1.0, 0.0), p(2.0, 0.0)],
        secondary: vec![p(0.5, -1.5)],
        epsilon: s(1.0),
    }
}

#[test]
fn record_is_lengths_and_words_least_significant_byte_first() {
    let case = TestCase { primary: vec![p(1.0, 2.0)], secondary: vec![], epsilon: s(0.5) };
    let bytes = encode_case(&case);
    let mut expected: Vec<u8> = Vec::new();
    expected.extend_from_slice(&1u64.to_le_bytes());
    expected.extend_from_slice(&1.0f64.to_le_bytes());
    expected.extend_from_slice(&2.0f64.to_le_bytes());
    expected.extend_from_slice(&0u64.to_le_bytes());
    expected.extend_from_slice(&0.5f64.to_le_bytes());
    assert_eq!(bytes, expected);
    assert_eq!(bytes.len(), 8 + 16 + 8 + 8);
}

#[test]
fn record_is_what_the_serializer_writes_for_the_numbers_themselves() {
    let primary: Vec<(f64, f64)> = vec![(0.0, 0.0), (1.0, 0.0), (2.0, 0.0)];
    let secondary: Vec<(f64, f64)> = vec![(0.5, -1.5)];
    let direct = bincode::serialize(&(primary, secondary, 1.0f64)).unwrap();
    assert_eq!(encode_case(&line()), direct);
}

#[test]
fn decoding_gives_back_what_was_encoded() {
    let case = line();
    let bytes = encode_case(&case);
    assert_eq!(decode_case(&bytes), Ok(case));
}

#[test]
fn decoding_keeps_every_bit() {
    let odd = TestCase {
        primary: vec![p(-0.0, f64::NAN), p(f64::INFINITY, 5e-324)],
        secondary: vec![Point {
            x: Scalar::from_bits(0x7FF0_0000_0000_0001),
            y: Scalar::from_bits(0xFFFF_FFFF_FFFF_FFFF),
        }],
        epsilon: s(f64::NEG_INFINITY),
    };
    let bytes = encode_case(&odd);
    assert_eq!(decode_case(&bytes), Ok(odd));
}

#[test]
fn decoding_does_not_look_past_the_record() {
    let case = line();
    let mut bytes = encode_case(&case);
    bytes.extend_from_slice(&[7, 7, 7]);
    assert_eq!(decode_case(&bytes), Ok(case));
}

#[test]
fn every_proper_prefix_of_a_record_is_truncated() {
    let bytes = encode_case(&line());
    for cut in 0..bytes.len() {
        let short = bytes[..cut].to_vec();
        assert_eq!(decode_case(&short), Err(CodecError::Truncated), "cut at {cut}");
    }
}

#[test]
fn a_length_beyond_the_bytes_is_truncated() {
    let mut bytes: Vec<u8> = Vec::new();
    bytes.extend_from_slice(&u64::MAX.to_le_bytes());
    bytes.extend_from_slice(&[0u8; 64]);
    assert_eq!(decode_case(&bytes), Err(CodecError::Truncated));
}

#[test]
fn empty_curves_take_two_lengths_and_a_word() {
    let case = TestCase { primary: vec![], secondary: vec![], epsilon: s(1.0) };
    let bytes = encode_case(&case);
    assert_eq!(bytes.len(), 24);
    assert_eq!(decode_case(&bytes), Ok(case));
}
