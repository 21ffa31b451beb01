use ingest_core::abi::unpack_ptr_len;
use ingest_core::arena::Arena;
use ingest_core::errors::kind_tag;
use ingest_core::checksum::checksum_of;
use ingest_core::codec::{encode_chunk_result, encode_entry, Entry, EntryType};
use ingest_core::errors::ErrorKind;
use ingest_core::lang::detect_language;
use ingest_core::pipeline::{
    completion_value, on_create_begin, Action, ErrorPolicy, Pipeline, PipelineConfig,
};
use ingest_core::text::NameRule;

fn markdown_entry() -> Entry {
    Entry {
        id: "e1".to_string(),
        name: "".to_string(),
        url: "http://x/doc.md".to_string(),
        etype: EntryType::Markdown,
        content: None,
    }
}

#[test]
fn markdown_entry_runs_to_success() {
    // fetch: the entry carries no inline content, so its URL is fetched
    let (m, a) = Pipeline::start(markdown_entry(), PipelineConfig::standard());
    let url = match a {
        Action::Fetch(u) => u,
        _ => panic!("expected a fetch"),
    };
    assert_eq!(url, "http://x/doc.md");

    // extraction: markup is stripped; the display name falls back to the
    // URL because the entry's name is empty
    let (m, a) = m.on_fetch_response(200, b"# Hi\nworld".to_vec());
    let chunk_text = match a {
        Action::Chunk(_, t) => t,
        _ => panic!("expected a chunk request"),
    };
    assert_eq!(chunk_text, "http://x/doc.md\nHi\nworld");
    let content = m.content.as_ref().unwrap();
    assert_eq!(content.markdown, "# Hi\nworld");
    assert_eq!(content.plain_text, "Hi\nworld");

    // the host chunker replies with one chunk
    let reply = encode_chunk_result(&vec![chunk_text.clone()]).unwrap();
    let (m, a) = m.on_chunk_reply(Some(reply));
    let update = match a {
        Action::PersistUpdate(u) => u,
        _ => panic!("expected an entry update"),
    };
    assert_eq!(update.id, "e1");
    assert_eq!(update.name, Some("http://x/doc.md".to_string()));
    // the checksum is computed over the markdown text, not the chunks
    assert_eq!(update.checksum, Some(checksum_of("# Hi\nworld")));
    assert_eq!(update.content.as_ref().unwrap().plain_text, "Hi\nworld");

    // chunk records: dense indices, tagged with the detected language
    let (m, a) = m.on_update_ack(true);
    let records = match a {
        Action::PersistChunks(rs) => rs,
        _ => panic!("expected chunk creation"),
    };
    assert_eq!(records.len(), 1);
    assert_eq!(records[0].index, 0);
    assert_eq!(records[0].entry_id, "e1");
    assert_eq!(records[0].minimum_version, 1);
    assert_eq!(records[0].content, chunk_text);
    assert_eq!(records[0].language, detect_language("Hi\nworld").pg_name());

    let (_m, a) = m.on_chunks_ack(true);
    assert!(matches!(a, Action::Succeed));
    let mut arena = Arena::new();
    assert_eq!(completion_value(&mut arena, &a, ErrorPolicy::Propagate), Some(0));
}

#[test]
fn fetch_failure_short_circuits() {
    let (m, _a) = Pipeline::start(markdown_entry(), PipelineConfig::standard());
    let (_m, a) = m.on_fetch_response(404, vec![]);
    match a {
        Action::Fail(e) => assert_eq!(e.kind, ErrorKind::Network),
        _ => panic!("expected a failure, no persistence call"),
    }
}

#[test]
fn fetch_failure_reports_nonzero_value() {
    let (m, _a) = Pipeline::start(markdown_entry(), PipelineConfig::standard());
    let (_m, a) = m.on_fetch_response(500, vec![]);
    let mut arena = Arena::new();
    let v = completion_value(&mut arena, &a, ErrorPolicy::Propagate).unwrap();
    assert_ne!(v, 0);
}

#[test]
fn propagated_failure_value_points_at_the_packet() {
    let (m, _a) = Pipeline::start(markdown_entry(), PipelineConfig::standard());
    let (_m, a) = m.on_fetch_response(404, vec![]);
    let mut arena = Arena::new();
    let v = completion_value(&mut arena, &a, ErrorPolicy::Propagate).unwrap();
    let (ptr, len) = unpack_ptr_len(v);
    assert!(ptr != 0 && len != 0);
    let packet = arena.read(ptr, len);
    assert_eq!(packet[0], kind_tag(ErrorKind::Network));
}

#[test]
fn plain_text_passes_through_unchanged() {
    let e = Entry {
        id: "e2".to_string(),
        name: "n".to_string(),
        url: "http://x/f.txt".to_string(),
        etype: EntryType::PlainText,
        content: Some("hello".to_string()),
    };
    let (m, a) = Pipeline::start(e, PipelineConfig::standard());
    match a {
        Action::Chunk(_, t) => assert_eq!(t, "n\nhello"),
        _ => panic!("expected a chunk request"),
    }
    let content = m.content.as_ref().unwrap();
    assert_eq!(content.plain_text, "hello");
    assert_eq!(content.markdown, "hello");
}

#[test]
fn named_entry_sends_no_name_update() {
    let e = Entry {
        id: "e3".to_string(),
        name: "Kept".to_string(),
        url: "http://x".to_string(),
        etype: EntryType::PlainText,
        content: Some("body".to_string()),
    };
    let (m, _a) = Pipeline::start(e, PipelineConfig::standard());
    let reply = encode_chunk_result(&vec!["body".to_string()]).unwrap();
    let (_m, a) = m.on_chunk_reply(Some(reply));
    match a {
        Action::PersistUpdate(u) => assert_eq!(u.name, None),
        _ => panic!("expected an entry update"),
    }
}

#[test]
fn html_goes_through_host_conversion() {
    let e = Entry {
        id: "e4".to_string(),
        name: "Page".to_string(),
        url: "http://x".to_string(),
        etype: EntryType::Html,
        content: Some("<h1>Hi</h1>".to_string()),
    };
    let (m, a) = Pipeline::start(e, PipelineConfig::standard());
    match a {
        Action::ConvertHtml(b) => assert_eq!(b, "<h1>Hi</h1>"),
        _ => panic!("expected a conversion request"),
    }
    let (m, a) = m.on_html_converted(Some("# Hi".to_string()));
    match a {
        Action::Chunk(_, t) => assert_eq!(t, "Page\nHi"),
        _ => panic!("expected a chunk request"),
    }
    assert_eq!(m.content.as_ref().unwrap().plain_text, "Hi");
}

#[test]
fn failed_html_conversion_is_extraction_error() {
    let e = Entry {
        id: "e5".to_string(),
        name: "Page".to_string(),
        url: "http://x".to_string(),
        etype: EntryType::Html,
        content: Some("<p></p>".to_string()),
    };
    let (m, _a) = Pipeline::start(e, PipelineConfig::standard());
    let (_m, a) = m.on_html_converted(None);
    match a {
        Action::Fail(e) => assert_eq!(e.kind, ErrorKind::Extraction),
        _ => panic!("expected a failure"),
    }
}

#[test]
fn unsupported_type_is_refused() {
    let e = Entry {
        id: "e6".to_string(),
        name: "clip".to_string(),
        url: "http://x".to_string(),
        etype: EntryType::Audio,
        content: Some("data".to_string()),
    };
    let (_m, a) = Pipeline::start(e, PipelineConfig::standard());
    match a {
        Action::Fail(e) => assert_eq!(e.kind, ErrorKind::Unsupported),
        _ => panic!("expected a failure"),
    }
}

#[test]
fn empty_markdown_body_extracts_empty_content() {
    let e = Entry {
        id: "e7".to_string(),
        name: "d".to_string(),
        url: "http://x".to_string(),
        etype: EntryType::Markdown,
        content: Some("".to_string()),
    };
    let (m, a) = Pipeline::start(e, PipelineConfig::standard());
    match a {
        Action::Chunk(_, t) => assert_eq!(t, "d\n"),
        _ => panic!("expected a chunk request"),
    }
    let content = m.content.as_ref().unwrap();
    assert_eq!(content.markdown, "");
    assert_eq!(content.plain_text, "");
}

#[test]
fn empty_converted_document_goes_on_to_chunking() {
    let e = Entry {
        id: "e7b".to_string(),
        name: "Page".to_string(),
        url: "http://x".to_string(),
        etype: EntryType::Html,
        content: Some("<p></p>".to_string()),
    };
    let (m, _a) = Pipeline::start(e, PipelineConfig::standard());
    let (_m, a) = m.on_html_converted(Some("".to_string()));
    match a {
        Action::Chunk(_, t) => assert_eq!(t, "Page\n"),
        _ => panic!("expected a chunk request"),
    }
}

#[test]
fn non_utf8_body_is_plugin_error() {
    let (m, _a) = Pipeline::start(markdown_entry(), PipelineConfig::standard());
    let (_m, a) = m.on_fetch_response(200, vec![0xFF, 0xFE]);
    match a {
        Action::Fail(e) => assert_eq!(e.kind, ErrorKind::Plugin),
        _ => panic!("expected a failure"),
    }
}

#[test]
fn missing_chunk_reply_is_plugin_error() {
    let e = Entry {
        id: "e8".to_string(),
        name: "n".to_string(),
        url: "u".to_string(),
        etype: EntryType::PlainText,
        content: Some("body".to_string()),
    };
    let (m, _a) = Pipeline::start(e, PipelineConfig::standard());
    let (_m, a) = m.on_chunk_reply(None);
    match a {
        Action::Fail(e) => assert_eq!(e.kind, ErrorKind::Plugin),
        _ => panic!("expected a failure"),
    }
}

#[test]
fn malformed_chunk_reply_is_decode_error() {
    let e = Entry {
        id: "e9".to_string(),
        name: "n".to_string(),
        url: "u".to_string(),
        etype: EntryType::PlainText,
        content: Some("body".to_string()),
    };
    let (m, _a) = Pipeline::start(e, PipelineConfig::standard());
    let (_m, a) = m.on_chunk_reply(Some(vec![9, 9]));
    match a {
        Action::Fail(e) => assert_eq!(e.kind, ErrorKind::Decode),
        _ => panic!("expected a failure"),
    }
}

#[test]
fn failed_update_is_persistence_error() {
    let e = Entry {
        id: "ea".to_string(),
        name: "n".to_string(),
        url: "u".to_string(),
        etype: EntryType::PlainText,
        content: Some("body".to_string()),
    };
    let (m, _a) = Pipeline::start(e, PipelineConfig::standard());
    let reply = encode_chunk_result(&vec!["body".to_string()]).unwrap();
    let (m, _a) = m.on_chunk_reply(Some(reply));
    let (_m, a) = m.on_update_ack(false);
    match a {
        Action::Fail(e) => assert_eq!(e.kind, ErrorKind::Persistence),
        _ => panic!("expected a failure"),
    }
}

#[test]
fn failed_chunk_creation_is_persistence_error() {
    let e = Entry {
        id: "eb".to_string(),
        name: "n".to_string(),
        url: "u".to_string(),
        etype: EntryType::PlainText,
        content: Some("body".to_string()),
    };
    let (m, _a) = Pipeline::start(e, PipelineConfig::standard());
    let reply = encode_chunk_result(&vec!["body".to_string()]).unwrap();
    let (m, _a) = m.on_chunk_reply(Some(reply));
    let (m, _a) = m.on_update_ack(true);
    let (_m, a) = m.on_chunks_ack(false);
    match a {
        Action::Fail(e) => assert_eq!(e.kind, ErrorKind::Persistence),
        _ => panic!("expected a failure"),
    }
}

#[test]
fn empty_chunk_set_is_valid() {
    let e = Entry {
        id: "ec".to_string(),
        name: "n".to_string(),
        url: "u".to_string(),
        etype: EntryType::PlainText,
        content: Some("body".to_string()),
    };
    let (m, _a) = Pipeline::start(e, PipelineConfig::standard());
    let reply = encode_chunk_result(&vec![]).unwrap();
    let (m, _a) = m.on_chunk_reply(Some(reply));
    let (m, a) = m.on_update_ack(true);
    match a {
        Action::PersistChunks(rs) => assert_eq!(rs.len(), 0),
        _ => panic!("expected chunk creation"),
    }
    let (_m, a) = m.on_chunks_ack(true);
    assert!(matches!(a, Action::Succeed));
}

#[test]
fn chunk_indices_are_dense() {
    let e = Entry {
        id: "ed".to_string(),
        name: "n".to_string(),
        url: "u".to_string(),
        etype: EntryType::PlainText,
        content: Some("body".to_string()),
    };
    let (m, _a) = Pipeline::start(e, PipelineConfig::standard());
    let chunks = vec!["a".to_string(), "b".to_string(), "c".to_string(), "d".to_string()];
    let reply = encode_chunk_result(&chunks).unwrap();
    let (m, _a) = m.on_chunk_reply(Some(reply));
    let (_m, a) = m.on_update_ack(true);
    let records = match a {
        Action::PersistChunks(rs) => rs,
        _ => panic!("expected chunk creation"),
    };
    assert_eq!(records.len(), 4);
    for (i, r) in records.iter().enumerate() {
        assert_eq!(r.index, i as i32);
        assert_eq!(r.content, chunks[i]);
        assert_eq!(r.entry_id, "ed");
    }
}

#[test]
fn rerun_derives_identical_results() {
    let run = || {
        let (m, _a) = Pipeline::start(markdown_entry(), PipelineConfig::standard());
        let (m, a) = m.on_fetch_response(200, b"# Hi\nworld".to_vec());
        let text = match a {
            Action::Chunk(_, t) => t,
            _ => panic!("expected a chunk request"),
        };
        let reply = encode_chunk_result(&vec![text]).unwrap();
        let (m, a) = m.on_chunk_reply(Some(reply));
        let checksum = match a {
            Action::PersistUpdate(u) => u.checksum.unwrap(),
            _ => panic!("expected an entry update"),
        };
        let (_m, a) = m.on_update_ack(true);
        let contents: Vec<String> = match a {
            Action::PersistChunks(rs) => rs.into_iter().map(|r| r.content).collect(),
            _ => panic!("expected chunk creation"),
        };
        (checksum, contents)
    };
    let first = run();
    let second = run();
    assert_eq!(first, second);
}

#[test]
fn entry_point_decodes_and_starts() {
    let bytes = encode_entry(&markdown_entry()).unwrap();
    let (_m, a) = on_create_begin(&bytes, PipelineConfig::standard()).unwrap();
    match a {
        Action::Fetch(u) => assert_eq!(u, "http://x/doc.md"),
        _ => panic!("expected a fetch"),
    }
}

#[test]
fn log_only_policy_reports_success_value() {
    let (m, _a) = Pipeline::start(markdown_entry(), PipelineConfig::standard());
    let (_m, a) = m.on_fetch_response(404, vec![]);
    let mut arena = ingest_core::arena::Arena::new();
    assert_eq!(completion_value(&mut arena, &a, ErrorPolicy::LogOnly), Some(0));
}

#[test]
fn by_sentence_chunker_is_carried_in_the_action() {
    let e = Entry {
        id: "ee".to_string(),
        name: "n".to_string(),
        url: "u".to_string(),
        etype: EntryType::PlainText,
        content: Some("body".to_string()),
    };
    let cfg = PipelineConfig {
        chunker: ingest_core::pipeline::ChunkerKind::BySentence,
        ..PipelineConfig::standard()
    };
    let (_m, a) = Pipeline::start(e, cfg);
    match a {
        Action::Chunk(k, _) => {
            assert_eq!(k, ingest_core::pipeline::ChunkerKind::BySentence)
        }
        _ => panic!("expected a chunk request"),
    }
}

#[test]
fn name_rules_shape_the_display_name() {
    let base = |name: &str| Entry {
        id: "ef".to_string(),
        name: name.to_string(),
        url: "http://x".to_string(),
        etype: EntryType::PlainText,
        content: Some("body".to_string()),
    };
    let with_rule = |rule| PipelineConfig {
        name_rule: rule,
        ..PipelineConfig::standard()
    };
    let (_m, a) = Pipeline::start(base("notes.backup.md"), with_rule(NameRule::TrimAfterFirstDot));
    match a {
        Action::Chunk(_, t) => assert_eq!(t, "notes\nbody"),
        _ => panic!("expected a chunk request"),
    }
    let (_m, a) = Pipeline::start(base("notes.backup.md"), with_rule(NameRule::DropLastExtension));
    match a {
        Action::Chunk(_, t) => assert_eq!(t, "notes.backup\nbody"),
        _ => panic!("expected a chunk request"),
    }
    // a name that is nothing but an extension falls back to the URL
    let (_m, a) = Pipeline::start(base(".md"), with_rule(NameRule::TrimAfterFirstDot));
    match a {
        Action::Chunk(_, t) => assert_eq!(t, "http://x\nbody"),
        _ => panic!("expected a chunk request"),
    }
}

#[test]
fn entry_point_refuses_malformed_envelope() {
    let e = on_create_begin(&[1, 2, 3], PipelineConfig::standard()).unwrap_err();
    assert_eq!(e.kind, ErrorKind::Decode);
}

#[test]
fn status_boundaries_decide_success() {
    let ok_status = |status: u16| {
        let (m, _a) = Pipeline::start(markdown_entry(), PipelineConfig::standard());
        let (_m, a) = m.on_fetch_response(status, b"# t\nbody".to_vec());
        matches!(a, Action::Chunk(_, _))
    };
    assert!(ok_status(200));
    assert!(ok_status(299));
    assert!(!ok_status(199));
    assert!(!ok_status(300));
    assert!(!ok_status(404));
}

#[test]
fn inline_content_skips_the_fetch() {
    let e = Entry {
        id: "eg".to_string(),
        name: "n".to_string(),
        url: "http://x".to_string(),
        etype: EntryType::PlainText,
        content: Some("inline".to_string()),
    };
    let bytes = encode_entry(&e).unwrap();
    let (_m, a) = on_create_begin(&bytes, PipelineConfig::standard()).unwrap();
    match a {
        Action::Chunk(_, t) => assert_eq!(t, "n\ninline"),
        _ => panic!("expected a chunk request, not a fetch"),
    }
}
