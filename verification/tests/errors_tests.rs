use ingest_core::abi::unpack_ptr_len;
use ingest_core::arena::Arena;
use ingest_core::errors::{encode_error, kind_tag, ErrorKind, PipelineError};

#[test]
fn error_packet_is_staged_in_the_arena() {
    let mut a = Arena::new();
    let e = PipelineError {
        kind: ErrorKind::Network,
        message: "boom".to_string(),
    };
    let v = encode_error(&mut a, &e);
    assert_ne!(v, 0);
    let (ptr, len) = unpack_ptr_len(v);
    assert!(ptr != 0 && len != 0);
    let bytes = a.read(ptr, len);
    assert_eq!(bytes[0], kind_tag(ErrorKind::Network));
    assert_eq!(&bytes[1..], b"boom");
}

#[test]
fn each_error_kind_has_a_distinct_tag() {
    let kinds = [
        ErrorKind::Decode,
        ErrorKind::Network,
        ErrorKind::Unsupported,
        ErrorKind::Extraction,
        ErrorKind::ChunkAssembly,
        ErrorKind::Persistence,
        ErrorKind::Plugin,
    ];
    for i in 0..kinds.len() {
        assert_ne!(kind_tag(kinds[i]), 0);
        for j in 0..kinds.len() {
            if i != j {
                assert_ne!(kind_tag(kinds[i]), kind_tag(kinds[j]));
            }
        }
    }
}

#[test]
fn empty_message_packet_is_just_the_tag() {
    let mut a = Arena::new();
    let e = PipelineError {
        kind: ErrorKind::Decode,
        message: "".to_string(),
    };
    let v = encode_error(&mut a, &e);
    let (ptr, len) = unpack_ptr_len(v);
    assert_eq!(len, 1);
    assert_eq!(a.read(ptr, 1), vec![kind_tag(ErrorKind::Decode)]);
}
