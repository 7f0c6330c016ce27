use diesel_pg_hstore::container::Hstore;
use diesel_pg_hstore::wire::{decode, decode_nullable, encode, DecodeError, Entries};

fn store(pairs: &[(&str, &str)]) -> Hstore {
    let mut h = Hstore::new();
    for (k, v) in pairs {
        h.insert(k.to_string(), v.to_string());
    }
    h
}

fn word(n: i32) -> Vec<u8> {
    n.to_be_bytes().to_vec()
}

fn field(s: &str) -> Vec<u8> {
    let mut out = word(s.len() as i32);
    out.extend_from_slice(s.as_bytes());
    out
}

fn buffer(count: i32, parts: &[Vec<u8>]) -> Vec<u8> {
    let mut out = word(count);
    for p in parts {
        out.extend_from_slice(p);
    }
    out
}

#[test]
fn encode_two_pairs_bit_exact() {
    let h = store(&[("a", "1"), ("b", "2")]);
    let bytes = encode(&h).unwrap();
    assert_eq!(
        bytes,
        vec![
            0, 0, 0, 2, 0, 0, 0, 1, b'a', 0, 0, 0, 1, b'1', 0, 0, 0, 1, b'b', 0, 0, 0, 1, b'2'
        ]
    );
}

#[test]
fn encode_empty_is_a_zero_count() {
    assert_eq!(encode(&Hstore::new()).unwrap(), vec![0, 0, 0, 0]);
}

#[test]
fn encode_writes_byte_lengths_not_char_counts() {
    let h = store(&[("é", "日本")]);
    let bytes = encode(&h).unwrap();
    let mut expected = vec![0, 0, 0, 1, 0, 0, 0, 2];
    expected.extend_from_slice("é".as_bytes());
    expected.extend_from_slice(&[0, 0, 0, 6]);
    expected.extend_from_slice("日本".as_bytes());
    assert_eq!(bytes, expected);
}

#[test]
fn encode_writes_lengths_big_endian() {
    let long = "x".repeat(258);
    let h = store(&[("k", &long)]);
    let bytes = encode(&h).unwrap();
    assert_eq!(&bytes[9..13], &[0, 0, 1, 2]);
    assert_eq!(bytes.len(), 4 + 4 + 1 + 4 + 258);
}

#[test]
fn round_trip_keeps_the_map() {
    let h = store(&[("a", "1"), ("b", "2"), ("", ""), ("ключ", "значение"), ("x y", "=>,'\"")]);
    let back = decode(&encode(&h).unwrap()).unwrap();
    assert_eq!(back, h);
    assert_eq!(back.len(), 5);
    assert_eq!(back.get("ключ").map(|s| s.as_str()), Some("значение"));
}

#[test]
fn round_trip_of_the_empty_map() {
    let back = decode(&encode(&Hstore::new()).unwrap()).unwrap();
    assert!(back.is_empty());
}

#[test]
fn decode_is_independent_of_pair_order() {
    let ab = buffer(2, &[field("a"), field("1"), field("b"), field("2")]);
    let ba = buffer(2, &[field("b"), field("2"), field("a"), field("1")]);
    let expected = store(&[("a", "1"), ("b", "2")]);
    assert_eq!(decode(&ab).unwrap(), expected);
    assert_eq!(decode(&ba).unwrap(), expected);
}

#[test]
fn decode_reads_the_count_big_endian() {
    let mut parts = Vec::new();
    for i in 0..256 {
        parts.push(field(&format!("k{}", i)));
        parts.push(field("v"));
    }
    let bytes = buffer(256, &parts);
    assert_eq!(&bytes[0..4], &[0, 0, 1, 0]);
    assert_eq!(decode(&bytes).unwrap().len(), 256);
}

#[test]
fn decode_drops_null_entries() {
    let bytes = buffer(2, &[field("a"), word(-1), field("b"), field("2")]);
    let h = decode(&bytes).unwrap();
    assert!(!h.contains_key("a"));
    assert_eq!(h.len(), 1);
    assert_eq!(h, store(&[("b", "2")]));
}

#[test]
fn decode_null_does_not_remove_an_earlier_value() {
    let bytes = buffer(2, &[field("a"), field("1"), field("a"), word(-1)]);
    assert_eq!(decode(&bytes).unwrap(), store(&[("a", "1")]));
}

#[test]
fn decode_later_duplicate_wins() {
    let bytes = buffer(2, &[field("a"), field("1"), field("a"), field("2")]);
    assert_eq!(decode(&bytes).unwrap(), store(&[("a", "2")]));
}

#[test]
fn decode_count_mismatch_is_rejected() {
    let bytes = buffer(2, &[field("a"), field("1")]);
    assert_eq!(decode(&bytes), Err(DecodeError::Truncated));
}

#[test]
fn decode_negative_key_length() {
    let bytes = buffer(1, &[word(-5)]);
    assert_eq!(decode(&bytes), Err(DecodeError::MalformedKeyLength));
    let followed = buffer(1, &[word(-5), b"abcdefgh".to_vec()]);
    assert_eq!(decode(&followed), Err(DecodeError::MalformedKeyLength));
}

#[test]
fn decode_negative_count() {
    assert_eq!(decode(&word(-1)), Err(DecodeError::MalformedCount));
    assert_eq!(decode(&word(i32::MIN)), Err(DecodeError::MalformedCount));
}

#[test]
fn decode_negative_value_length() {
    let bytes = buffer(1, &[field("a"), word(-2)]);
    assert_eq!(decode(&bytes), Err(DecodeError::MalformedValueLength));
}

#[test]
fn decode_invalid_utf8() {
    let key = buffer(1, &[word(1), vec![0xff], field("v")]);
    assert_eq!(decode(&key), Err(DecodeError::InvalidUtf8));
    let value = buffer(1, &[field("k"), word(2), vec![0xc3, 0x28]]);
    assert_eq!(decode(&value), Err(DecodeError::InvalidUtf8));
}

#[test]
fn decode_trailing_data() {
    let bytes = buffer(1, &[field("a"), field("1"), vec![0]]);
    assert_eq!(decode(&bytes), Err(DecodeError::TrailingData));
    assert_eq!(decode(&[0, 0, 0, 0, 7]), Err(DecodeError::TrailingData));
}

#[test]
fn decode_truncated_buffers() {
    assert_eq!(decode(&[]), Err(DecodeError::Truncated));
    assert_eq!(decode(&[0, 0, 0]), Err(DecodeError::Truncated));
    assert_eq!(decode(&buffer(1, &[vec![0, 0]])), Err(DecodeError::Truncated));
    assert_eq!(decode(&buffer(1, &[word(4), b"ab".to_vec()])), Err(DecodeError::Truncated));
    assert_eq!(decode(&buffer(1, &[field("a")])), Err(DecodeError::Truncated));
    assert_eq!(decode(&buffer(1, &[field("a"), word(3), b"x".to_vec()])), Err(DecodeError::Truncated));
    assert_eq!(decode(&buffer(1, &[word(i32::MAX)])), Err(DecodeError::Truncated));
}

#[test]
fn decode_reports_the_first_error() {
    let bytes = buffer(2, &[word(-5), field("v"), word(1), vec![0xff]]);
    assert_eq!(decode(&bytes), Err(DecodeError::MalformedKeyLength));
}

#[test]
fn decode_absent_column() {
    assert_eq!(decode_nullable(None), Err(DecodeError::UnexpectedNull));
}

#[test]
fn decode_present_column() {
    let bytes = buffer(1, &[field("a"), field("1")]);
    assert_eq!(decode_nullable(Some(&bytes)).unwrap(), store(&[("a", "1")]));
    assert_eq!(decode_nullable(Some(&[])), Err(DecodeError::Truncated));
}

#[test]
fn cursor_hands_out_entries_in_wire_order() {
    let bytes = buffer(2, &[field("a"), field("1"), field("b"), word(-1)]);
    let mut cursor = Entries::new(&bytes).unwrap();
    assert_eq!(cursor.next(), Ok(Some(("a".to_string(), Some("1".to_string())))));
    assert_eq!(cursor.next(), Ok(Some(("b".to_string(), None))));
    assert_eq!(cursor.next(), Ok(None));
    assert_eq!(cursor.next(), Ok(None));
}

#[test]
fn cursor_rejects_a_bad_count() {
    assert!(matches!(Entries::new(&[0, 0]), Err(DecodeError::Truncated)));
    assert!(matches!(Entries::new(&word(-3)), Err(DecodeError::MalformedCount)));
}

#[test]
fn cursor_stays_in_place_after_an_error() {
    let bytes = buffer(1, &[field("a"), word(-2)]);
    let mut cursor = Entries::new(&bytes).unwrap();
    assert_eq!(cursor.next(), Err(DecodeError::MalformedValueLength));
    assert_eq!(cursor.next(), Err(DecodeError::MalformedValueLength));
}

#[test]
fn cursor_reports_trailing_data_at_the_end() {
    let bytes = buffer(0, &[vec![1, 2, 3]]);
    let mut cursor = Entries::new(&bytes).unwrap();
    assert_eq!(cursor.next(), Err(DecodeError::TrailingData));
}
