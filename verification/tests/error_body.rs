use omnihook::error_body::{status_failure, ErrorBodyCollector, MAX_ERROR_BODY};
use omnihook::OmnihookError;

fn collect(chunks: &[&[u8]]) -> ErrorBodyCollector {
    let mut collector = ErrorBodyCollector::new();
    for chunk in chunks {
        if !collector.wants_more() {
            break;
        }
        collector.absorb_chunk(chunk);
    }
    collector
}

fn message(error: OmnihookError) -> String {
    match error {
        OmnihookError::NotifyFailed(m) => m,
        other => panic!("unexpected: {:?}", other),
    }
}

#[test]
fn body_is_reported() {
    let collector = collect(&[b"Invalid payload format"]);
    let msg = message(collector.into_error("400 Bad Request"));
    assert_eq!(
        msg,
        "Webhook request failed with status: 400 Bad Request. Body: Invalid payload format"
    );
}

#[test]
fn body_exactly_at_limit_is_not_truncated() {
    let body = vec![b'A'; MAX_ERROR_BODY];
    let collector = collect(&[&body]);
    let text = collector.body_text();
    assert!(!text.contains("[truncated]"));
    assert!(text.contains("AAAA"));
    assert_eq!(text.len(), MAX_ERROR_BODY);
}

#[test]
fn body_one_past_limit_is_truncated() {
    let body = vec![b'A'; MAX_ERROR_BODY + 1];
    let collector = collect(&[&body]);
    let text = collector.body_text();
    assert!(text.ends_with(" [truncated]"));
    assert_eq!(text.len(), MAX_ERROR_BODY + " [truncated]".len());
}

#[test]
fn large_body_in_chunks_stops_early() {
    let chunk = vec![b'A'; 1000];
    let chunks: Vec<&[u8]> = (0..6).map(|_| chunk.as_slice()).collect();
    let mut collector = ErrorBodyCollector::new();
    let mut read = 0;
    for c in &chunks {
        if !collector.wants_more() {
            break;
        }
        collector.absorb_chunk(c);
        read += 1;
    }
    assert_eq!(read, 5);
    let msg = message(collector.into_error("500 Internal Server Error"));
    assert!(msg.contains("500 Internal Server Error"));
    assert!(msg.contains("[truncated]"));
    assert!(msg.len() < 5000);
}

#[test]
fn empty_body_is_named() {
    let collector = ErrorBodyCollector::new();
    assert_eq!(collector.body_text(), "No error body");
}

#[test]
fn read_errors_are_reported() {
    let mut collector = ErrorBodyCollector::new();
    collector.record_read_error("connection reset".to_string());
    assert!(!collector.wants_more());
    assert_eq!(collector.body_text(), "<failed to read response body: connection reset>");

    let mut collector = collect(&[b"partial"]);
    collector.record_read_error("connection reset".to_string());
    assert_eq!(collector.body_text(), "partial <read error: connection reset>");
}

#[test]
fn invalid_utf8_is_replaced() {
    let collector = collect(&[&[0x66, 0xff, 0x6f]]);
    assert_eq!(collector.body_text(), "f\u{fffd}o");
}

#[test]
fn status_without_body() {
    let msg = message(status_failure("400 Bad Request"));
    assert_eq!(msg, "Webhook request failed with status: 400 Bad Request");
    assert!(!msg.contains("Body"));
}

#[test]
fn chunked_body_collects_like_whole_body() {
    let body: Vec<u8> = (0..6000u32).map(|i| b'a' + (i % 26) as u8).collect();
    let whole = collect(&[&body]);
    let pieces: Vec<&[u8]> = body.chunks(777).collect();
    let chunked = collect(&pieces);
    assert_eq!(whole.body_text(), chunked.body_text());
    assert!(whole.body_text().ends_with(" [truncated]"));
}
