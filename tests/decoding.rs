use stream_worker::entry_id::{parse_entry_id, parse_u64, EntryId};
use stream_worker::keys::{
    completed_key, cursor_key, job_key, legacy_completed_key, processing_key, try_string_from_bytes,
};
use stream_worker::trim::trim_watermark;
use stream_worker::value::{decode_response, encode_response, BrokerValue, StreamEntry};
use stream_worker::worker::cursor_from_reply;

fn bytes(s: &str) -> BrokerValue {
    BrokerValue::Bytes(s.as_bytes().to_vec())
}

fn entry(id: &str, kv: Vec<BrokerValue>) -> BrokerValue {
    BrokerValue::Array(vec![bytes(id), BrokerValue::Array(kv)])
}

fn reply(entries: Vec<BrokerValue>) -> BrokerValue {
    BrokerValue::Array(vec![BrokerValue::Array(vec![
        bytes("videogen:jobs"),
        BrokerValue::Array(entries),
    ])])
}

fn same(a: &[StreamEntry], b: &[StreamEntry]) -> bool {
    a.len() == b.len() && a.iter().zip(b.iter()).all(|(x, y)| x.id == y.id && x.fields == y.fields)
}

#[test]
fn decodes_entries_in_order() {
    let v = reply(vec![
        entry("1700000000000-0", vec![bytes("id"), bytes("jobA")]),
        entry("1700000000000-1", vec![bytes("id"), bytes("jobB")]),
    ]);
    let es = decode_response(&v);
    assert_eq!(es.len(), 2);
    assert_eq!(es[0].id, b"1700000000000-0".to_vec());
    assert_eq!(es[0].fields, vec![(b"id".to_vec(), b"jobA".to_vec())]);
    assert_eq!(es[1].id, b"1700000000000-1".to_vec());
}

#[test]
fn read_timeout_reply_decodes_to_nothing() {
    assert!(decode_response(&BrokerValue::Nil).is_empty());
    assert!(decode_response(&BrokerValue::Array(vec![])).is_empty());
}

#[test]
fn entry_without_id_is_dropped() {
    let v = reply(vec![
        entry("", vec![bytes("id"), bytes("jobA")]),
        BrokerValue::Array(vec![BrokerValue::Nil, BrokerValue::Array(vec![])]),
        BrokerValue::Integer(3),
        entry("5-0", vec![]),
    ]);
    let es = decode_response(&v);
    assert_eq!(es.len(), 1);
    assert_eq!(es[0].id, b"5-0".to_vec());
    assert!(es[0].fields.is_empty());
}

#[test]
fn odd_and_non_string_fields_are_skipped() {
    let v = reply(vec![entry(
        "5-0",
        vec![bytes("a"), BrokerValue::Integer(1), bytes("b"), bytes("c"), bytes("dangling")],
    )]);
    let es = decode_response(&v);
    assert_eq!(es[0].fields, vec![(b"b".to_vec(), b"c".to_vec())]);
}

#[test]
fn malformed_stream_layers_are_tolerated() {
    let v = BrokerValue::Array(vec![
        BrokerValue::Array(vec![bytes("only-one-part")]),
        BrokerValue::Array(vec![bytes("s"), bytes("not an array")]),
        BrokerValue::Okay,
    ]);
    assert!(decode_response(&v).is_empty());
}

#[test]
fn status_strings_count_as_data() {
    let v = reply(vec![BrokerValue::Array(vec![
        BrokerValue::Status(b"7-1".to_vec()),
        BrokerValue::Array(vec![BrokerValue::Status(b"id".to_vec()), bytes("jobS")]),
    ])]);
    let es = decode_response(&v);
    assert_eq!(es[0].id, b"7-1".to_vec());
    assert_eq!(es[0].fields, vec![(b"id".to_vec(), b"jobS".to_vec())]);
}

#[test]
fn decode_encode_decode_is_stable() {
    let v = BrokerValue::Array(vec![
        BrokerValue::Array(vec![
            bytes("s1"),
            BrokerValue::Array(vec![
                entry("1-0", vec![bytes("id"), bytes("a"), bytes("x"), BrokerValue::Nil]),
                entry("", vec![]),
            ]),
        ]),
        BrokerValue::Array(vec![
            bytes("s2"),
            BrokerValue::Array(vec![entry("2-5", vec![bytes("k"), bytes("v"), bytes("id"), bytes("b")])]),
        ]),
    ]);
    let first = decode_response(&v);
    let again = decode_response(&encode_response(b"videogen:jobs", &first));
    assert!(same(&first, &again));
    assert_eq!(again.len(), 2);
}

#[test]
fn lossy_decoding_replaces_invalid_bytes() {
    assert_eq!(try_string_from_bytes(b"jobA"), "jobA");
    assert_eq!(try_string_from_bytes(&[0x6a, 0xff, 0x62]), "j\u{FFFD}b");
    assert_eq!(try_string_from_bytes(b""), "");
}

#[test]
fn key_layout() {
    assert_eq!(processing_key(b"1-0"), b"videogen:processing:1-0".to_vec());
    assert_eq!(completed_key(b"1-0"), b"videogen:completed:1-0".to_vec());
    assert_eq!(legacy_completed_key(), b"videogen:completed".to_vec());
    assert_eq!(cursor_key(), b"videogen:last_id".to_vec());
    assert_eq!(job_key("jobA"), "job:jobA");
}

#[test]
fn entry_ids_parse() {
    assert_eq!(parse_entry_id(b"1700000000000-3"), Some(EntryId { ms: 1700000000000, seq: 3 }));
    assert_eq!(parse_entry_id(b"0-0"), Some(EntryId { ms: 0, seq: 0 }));
    assert_eq!(parse_entry_id(b"$"), None);
    assert_eq!(parse_entry_id(b"12"), None);
    assert_eq!(parse_entry_id(b"12-"), None);
    assert_eq!(parse_entry_id(b"-1"), None);
    assert_eq!(parse_entry_id(b"1-2-3"), None);
    assert_eq!(parse_entry_id(b"18446744073709551616-0"), None);
    assert_eq!(
        parse_entry_id(b"18446744073709551615-1"),
        Some(EntryId { ms: u64::MAX, seq: 1 })
    );
}

#[test]
fn u64_parse_follows_from_str() {
    let s = b"+42";
    assert_eq!(parse_u64(s, 0, 3), Some(42));
    assert_eq!(parse_u64(b"+", 0, 1), None);
    assert_eq!(parse_u64(b"", 0, 0), None);
    assert_eq!(parse_u64(b"4a", 0, 2), None);
    assert_eq!(parse_u64(b"18446744073709551615", 0, 20), Some(u64::MAX));
    assert_eq!(parse_u64(b"18446744073709551616", 0, 20), None);
}

#[test]
fn trim_horizon_uses_cutoff() {
    let now = 1700000000000u64 + 60 * 60 * 1000;
    let w = trim_watermark(b"1700000000000-0", now, 120);
    assert_eq!(w, Some(b"1699996400000-0".to_vec()));
}

#[test]
fn trim_never_passes_cursor() {
    let now = 1700000000000u64 + 10 * 60 * 60 * 1000;
    let w = trim_watermark(b"1700000000000-7", now, 120);
    assert_eq!(w, Some(b"1700000000000-7".to_vec()));
}

#[test]
fn trim_skips_sentinels_and_zero() {
    assert_eq!(trim_watermark(b"", 1700000000000, 120), None);
    assert_eq!(trim_watermark(b"0-0", 1700000000000, 120), None);
    assert_eq!(trim_watermark(b"$", 1700000000000, 120), None);
    assert_eq!(trim_watermark(b"0-5", 1700000000000, 120), None);
    assert_eq!(trim_watermark(b"1700000000000-0", 1000, 120), None);
    assert_eq!(trim_watermark(b"1700000000000-0", 1700000000000, u64::MAX), None);
}

#[test]
fn cursor_reply_values() {
    assert_eq!(cursor_from_reply(&bytes("5-1")), Some(b"5-1".to_vec()));
    assert_eq!(cursor_from_reply(&BrokerValue::Status(b"5-2".to_vec())), Some(b"5-2".to_vec()));
    assert_eq!(cursor_from_reply(&BrokerValue::Okay), Some(b"OK".to_vec()));
    assert_eq!(cursor_from_reply(&BrokerValue::Nil), None);
    assert_eq!(cursor_from_reply(&BrokerValue::Integer(4)), None);
}

#[test]
fn encoding_names_the_stream() {
    let es = decode_response(&reply(vec![entry("1-0", vec![bytes("id"), bytes("a")])]));
    let r = encode_response(b"jobs", &es);
    match r {
        BrokerValue::Array(ss) => match &ss[0] {
            BrokerValue::Array(parts) => {
                assert!(matches!(&parts[0], BrokerValue::Bytes(b) if b == b"jobs"));
            }
            _ => panic!("stream part is not an array"),
        },
        _ => panic!("reply is not an array"),
    }
}
