use image_proc::accumulator::{BodyItem, DecodeProto, DecodeProtoError, Progress};
use image_proc::content_type::content_type_ok;

fn body() -> Vec<u8> {
    vec![0x0a, 0x10, b'h', b't', b't', b'p', b':', b'/', b'/', b'x', b'/', b'i', b'm', b'g', 0x12, 0x04, 0x0a, 0x02, 0x08, 0x64]
}

fn feed_all(chunks: Vec<Vec<u8>>, last: BodyItem) -> Progress {
    let mut d = DecodeProto::from_request(Some("application/octet-stream"));
    assert!(matches!(d.poll(), Progress::Pull));
    for c in chunks {
        assert!(matches!(d.feed(BodyItem::Chunk(c)), Progress::Pull));
    }
    d.feed(last)
}

fn decoded_bytes(p: Progress) -> Vec<u8> {
    match p {
        Progress::Decode(b) => b,
        other => panic!("expected a decode request, got {:?}", other),
    }
}

#[test]
fn octet_stream_is_accepted() {
    assert!(content_type_ok(Some("application/octet-stream")));
    assert!(content_type_ok(Some("APPLICATION/OCTET-STREAM")));
}

#[test]
fn other_content_types_are_refused() {
    assert!(!content_type_ok(None));
    assert!(!content_type_ok(Some("")));
    assert!(!content_type_ok(Some("text/plain")));
    assert!(!content_type_ok(Some("application/json")));
    assert!(!content_type_ok(Some("not a media type")));
}

#[test]
fn single_chunk_is_decoded_whole() {
    assert_eq!(decoded_bytes(feed_all(vec![body()], BodyItem::End)), body());
}

#[test]
fn chunk_boundaries_do_not_change_the_body() {
    let whole = decoded_bytes(feed_all(vec![body()], BodyItem::End));
    let halves = decoded_bytes(feed_all(
        vec![body()[..10].to_vec(), body()[10..].to_vec()],
        BodyItem::End,
    ));
    let quarters = decoded_bytes(feed_all(body().chunks(5).map(|c| c.to_vec()).collect(), BodyItem::End));
    let bytes = decoded_bytes(feed_all(body().into_iter().map(|b| vec![b]).collect(), BodyItem::End));
    assert_eq!(whole, halves);
    assert_eq!(whole, quarters);
    assert_eq!(whole, bytes);
}

#[test]
fn empty_chunks_and_empty_body() {
    let b = decoded_bytes(feed_all(vec![vec![], body(), vec![]], BodyItem::End));
    assert_eq!(b, body());
    assert_eq!(decoded_bytes(feed_all(vec![], BodyItem::End)), Vec::<u8>::new());
}

#[test]
fn transport_fault_fails_whatever_the_chunking() {
    for chunks in [vec![], vec![body()], body().into_iter().map(|b| vec![b]).collect()] {
        assert!(matches!(
            feed_all(chunks, BodyItem::Fault),
            Progress::Ready(DecodeProtoError::Transport)
        ));
    }
}

#[test]
fn wrong_content_type_fails_before_reading() {
    let mut d = DecodeProto::from_request(Some("text/plain"));
    assert!(d.is_pending());
    assert!(matches!(d.poll(), Progress::Ready(DecodeProtoError::ContentType)));
    assert!(!d.is_pending());
    let mut missing = DecodeProto::from_request(None);
    assert!(matches!(missing.poll(), Progress::Ready(DecodeProtoError::ContentType)));
}

#[test]
fn decode_is_requested_once_then_finished() {
    let mut d = DecodeProto::from_request(Some("application/octet-stream"));
    assert!(matches!(d.poll(), Progress::Pull));
    assert!(matches!(d.feed(BodyItem::Chunk(vec![1, 2])), Progress::Pull));
    assert!(d.is_pending());
    assert_eq!(decoded_bytes(d.feed(BodyItem::End)), vec![1, 2]);
    assert!(!d.is_pending());
    assert_eq!(d.finish(Some(7u32)), Ok(7));
    assert!(!d.is_pending());
}

#[test]
fn malformed_body_is_a_decode_error_whatever_the_chunking() {
    let truncated = body()[..7].to_vec();
    for chunks in [vec![truncated.clone()], truncated.iter().map(|b| vec![*b]).collect()] {
        let mut d = DecodeProto::from_request(Some("application/octet-stream"));
        assert!(matches!(d.poll(), Progress::Pull));
        for c in chunks {
            assert!(matches!(d.feed(BodyItem::Chunk(c)), Progress::Pull));
        }
        assert_eq!(decoded_bytes(d.feed(BodyItem::End)), truncated);
        assert_eq!(d.finish::<u32>(None), Err(DecodeProtoError::Decode));
    }
}

#[test]
fn errors_have_messages() {
    assert_eq!(DecodeProtoError::ContentType.message(), "content type mismatched!");
    assert_eq!(DecodeProtoError::Transport.message(), "failed to read the request body");
    assert_eq!(DecodeProtoError::Decode.message(), "malformed request body");
}

#[test]
fn parameters_make_another_media_type() {
    assert!(!content_type_ok(Some("application/octet-stream; charset=utf-8")));
    assert!(!content_type_ok(Some("application/octet-streams")));
    let mut d = DecodeProto::from_request(Some(""));
    assert!(matches!(d.poll(), Progress::Ready(DecodeProtoError::ContentType)));
}
