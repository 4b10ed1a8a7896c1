//! TXT record decoding: splitting, case-insensitive keys, deduplication.

use mdns::txt::decode_txt;
use mdns::txt::eq_ignore_ascii_case;
use mdns::txt::split_txt_entry;
use mdns::txt::txt_lookup;
use mdns::TxtEntry;
use mdns::TxtRecordKey;
use mdns::TxtRecordValue;

#[test]
fn attribute_without_equals_has_no_value() {
    let entries = vec![b"passreq".to_vec()];
    let decoded = decode_txt(&entries);
    assert_eq!(decoded.len(), 1);
    assert_eq!(decoded[0].key.0, "passreq");
    assert_eq!(decoded[0].value, TxtRecordValue::Absent);
}

#[test]
fn attribute_with_bare_equals_has_empty_value() {
    let entries = vec![b"PlugIns=".to_vec()];
    let decoded = decode_txt(&entries);
    assert_eq!(decoded.len(), 1);
    assert_eq!(decoded[0].key.0, "PlugIns");
    assert_eq!(decoded[0].value, TxtRecordValue::Empty);
}

#[test]
fn attribute_with_value_keeps_raw_bytes() {
    let entries = vec![b"PlugIns=JPEG".to_vec()];
    let decoded = decode_txt(&entries);
    assert_eq!(decoded.len(), 1);
    assert_eq!(decoded[0].key.0, "PlugIns");
    assert_eq!(decoded[0].value, TxtRecordValue::Value(b"JPEG".to_vec()));
}

#[test]
fn split_takes_first_equals_only() {
    let (key, value) = split_txt_entry(&b"a=b=c".to_vec());
    assert_eq!(key, b"a".to_vec());
    assert_eq!(value, TxtRecordValue::Value(b"b=c".to_vec()));
}

#[test]
fn duplicate_key_first_occurrence_wins() {
    let entries = vec![b"Foo=1".to_vec(), b"foo=2".to_vec()];
    let decoded = decode_txt(&entries);
    let matching: Vec<&TxtEntry> = decoded
        .iter()
        .filter(|e| eq_ignore_ascii_case(e.key.0.as_str(), "foo"))
        .collect();
    assert_eq!(matching.len(), 1);
    assert_eq!(matching[0].key.0, "Foo");
    assert_eq!(matching[0].value, TxtRecordValue::Value(b"1".to_vec()));
    match txt_lookup(&decoded, "foo") {
        Some(v) => assert_eq!(*v, TxtRecordValue::Value(b"1".to_vec())),
        None => panic!("case-folded lookup found nothing"),
    }
}

#[test]
fn distinct_keys_all_kept_in_order() {
    let entries = vec![b"a=1".to_vec(), b"b".to_vec(), b"c=".to_vec()];
    let decoded = decode_txt(&entries);
    assert_eq!(decoded.len(), 3);
    assert_eq!(decoded[0].key.0, "a");
    assert_eq!(decoded[0].value, TxtRecordValue::Value(b"1".to_vec()));
    assert_eq!(decoded[1].key.0, "b");
    assert_eq!(decoded[1].value, TxtRecordValue::Absent);
    assert_eq!(decoded[2].key.0, "c");
    assert_eq!(decoded[2].value, TxtRecordValue::Empty);
}

#[test]
fn invalid_utf8_key_is_decoded_lossily() {
    let entries = vec![vec![0xFF, b'=', b'1']];
    let decoded = decode_txt(&entries);
    assert_eq!(decoded.len(), 1);
    assert_eq!(decoded[0].key.0, "\u{FFFD}");
    assert_eq!(decoded[0].value, TxtRecordValue::Value(b"1".to_vec()));
}

#[test]
fn case_insensitive_comparison() {
    assert!(eq_ignore_ascii_case("PAPERSIZE", "papersize"));
    assert!(eq_ignore_ascii_case("Papersize", "papersize"));
    assert!(!eq_ignore_ascii_case("papersize", "papersize2"));
    assert!(!eq_ignore_ascii_case("paper", "pager"));
    assert!(TxtRecordKey(String::from("A4")).equals_ignore_case(&TxtRecordKey(String::from("a4"))));
}

#[test]
fn lookup_misses_unknown_key() {
    let entries = vec![b"color=red".to_vec()];
    let decoded = decode_txt(&entries);
    assert!(txt_lookup(&decoded, "size").is_none());
    assert!(txt_lookup(&decoded, "COLOR").is_some());
}
