use ingest_core::codec::{
    decode_chunk_result, decode_entry, encode_chunk_result, encode_entry, Entry, EntryType,
};

fn sample_entry() -> Entry {
    Entry {
        id: "e1".to_string(),
        name: "Notes".to_string(),
        url: "http://x/doc.md".to_string(),
        etype: EntryType::Markdown,
        content: None,
    }
}

#[test]
fn entry_round_trip_without_content() {
    let e = sample_entry();
    let bytes = encode_entry(&e).unwrap();
    let d = decode_entry(&bytes).unwrap();
    assert_eq!(d.id, "e1");
    assert_eq!(d.name, "Notes");
    assert_eq!(d.url, "http://x/doc.md");
    assert!(matches!(d.etype, EntryType::Markdown));
    assert_eq!(d.content, None);
}

#[test]
fn entry_round_trip_with_content() {
    let mut e = sample_entry();
    e.etype = EntryType::PlainText;
    e.content = Some("hello world".to_string());
    let bytes = encode_entry(&e).unwrap();
    let d = decode_entry(&bytes).unwrap();
    assert_eq!(d.id, "e1");
    assert!(matches!(d.etype, EntryType::PlainText));
    assert_eq!(d.content, Some("hello world".to_string()));
}

#[test]
fn entry_round_trip_with_unicode_fields() {
    let mut e = sample_entry();
    e.name = "héllo — ✓".to_string();
    e.content = Some("日本語".to_string());
    let bytes = encode_entry(&e).unwrap();
    let d = decode_entry(&bytes).unwrap();
    assert_eq!(d.name, "héllo — ✓");
    assert_eq!(d.content, Some("日本語".to_string()));
}

#[test]
fn decode_rejects_empty_buffer() {
    assert!(decode_entry(&[]).is_none());
}

#[test]
fn decode_rejects_unknown_tag() {
    let e = sample_entry();
    let mut bytes = encode_entry(&e).unwrap();
    bytes[0] = 99;
    assert!(decode_entry(&bytes).is_none());
}

#[test]
fn decode_rejects_truncated_envelope() {
    let e = sample_entry();
    let bytes = encode_entry(&e).unwrap();
    assert!(decode_entry(&bytes[..bytes.len() - 1]).is_none());
}

#[test]
fn decode_rejects_trailing_bytes() {
    let e = sample_entry();
    let mut bytes = encode_entry(&e).unwrap();
    bytes.push(0);
    assert!(decode_entry(&bytes).is_none());
}

#[test]
fn decode_rejects_invalid_utf8_field() {
    let e = sample_entry();
    let mut bytes = encode_entry(&e).unwrap();
    // the first byte of the id field follows the tag byte and the
    // four-byte length prefix; 0xFF is never valid UTF-8
    bytes[5] = 0xFF;
    assert!(decode_entry(&bytes).is_none());
}

#[test]
fn chunk_result_round_trip() {
    let chunks = vec!["first".to_string(), "second chunk".to_string(), "".to_string()];
    let bytes = encode_chunk_result(&chunks).unwrap();
    assert_eq!(decode_chunk_result(&bytes), Some(chunks));
}

#[test]
fn empty_chunk_result_round_trip() {
    let chunks: Vec<String> = vec![];
    let bytes = encode_chunk_result(&chunks).unwrap();
    assert_eq!(decode_chunk_result(&bytes), Some(vec![]));
}

#[test]
fn chunk_result_rejects_short_buffer() {
    assert!(decode_chunk_result(&[1, 0]).is_none());
}

#[test]
fn chunk_result_rejects_count_mismatch() {
    let chunks = vec!["a".to_string()];
    let mut bytes = encode_chunk_result(&chunks).unwrap();
    // claim two chunks while only one field follows
    bytes[0] = 2;
    assert!(decode_chunk_result(&bytes).is_none());
}
