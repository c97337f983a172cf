use whisp::stream::{auth_header_value, decimal_string, listen_url};
use whisp::transcript::{
    interpret_message, MessageFields, MetadataFields, ParsedMessage, SttEvent,
    TranscriptAggregate, TranscriptChunk,
};

fn msg(text: &str, is_final: bool) -> ParsedMessage {
    ParsedMessage {
        chunk: TranscriptChunk { text: text.to_string(), is_final },
        duration_ms: 0,
        request_id: None,
    }
}

#[test]
fn reduction_of_partials_and_finals() {
    let mut agg = TranscriptAggregate::new();
    agg.apply(msg("he", false));
    agg.apply(msg("hello", false));
    agg.apply(msg("hello world", true));
    agg.apply(msg("bye", false));
    assert_eq!(agg.reduce().transcript, "hello world bye");
}

#[test]
fn finals_joined_with_single_spaces_and_trimmed() {
    let mut agg = TranscriptAggregate::new();
    agg.apply(msg(" one", true));
    agg.apply(msg("two ", true));
    agg.apply(msg("   ", false));
    let r = agg.reduce();
    assert_eq!(r.transcript, "one two");
    assert!(r.usage.is_none());
}

#[test]
fn final_clears_partial_and_fires_event() {
    let mut agg = TranscriptAggregate::new();
    assert!(agg.apply(msg("draft", false)).is_none());
    match agg.apply(msg("done", true)) {
        Some(SttEvent::FinalTranscript(t)) => assert_eq!(t, "done"),
        _ => panic!("expected a final-segment event"),
    }
    assert!(agg.apply(msg("  ", true)).is_none());
    assert_eq!(agg.reduce().transcript, "done");
}

#[test]
fn empty_stream_reduces_to_empty() {
    let agg = TranscriptAggregate::new();
    let r = agg.reduce();
    assert_eq!(r.transcript, "");
    assert!(r.usage.is_none());
}

#[test]
fn last_non_zero_duration_is_kept_not_summed() {
    let mut agg = TranscriptAggregate::new();
    let mut m = msg("a", true);
    m.duration_ms = 2000;
    m.request_id = Some("r1".to_string());
    agg.apply(m);
    let mut m = msg("b", true);
    m.duration_ms = 3500;
    agg.apply(m);
    let mut m = msg("", false);
    m.duration_ms = 0;
    agg.apply(m);
    let usage = agg.reduce().usage.unwrap();
    assert_eq!(usage.duration_ms, 3500);
    assert_eq!(usage.request_id.as_deref(), Some("r1"));
}

#[test]
fn metadata_duration_overrides_top_level() {
    let parsed = interpret_message(MessageFields {
        transcript: "hello".to_string(),
        is_final: true,
        duration_ms: 5250,
        metadata: Some(MetadataFields { duration_ms: 3500, request_id: "abc123".to_string() }),
    });
    assert_eq!(parsed.duration_ms, 3500);
    assert_eq!(parsed.request_id.as_deref(), Some("abc123"));
    assert!(parsed.chunk.is_final);
    assert_eq!(parsed.chunk.text, "hello");
    let mut agg = TranscriptAggregate::new();
    agg.apply(parsed);
    assert_eq!(agg.reduce().usage.unwrap().duration_ms, 3500);
}

#[test]
fn top_level_duration_used_without_metadata_duration() {
    let parsed = interpret_message(MessageFields {
        transcript: "hello".to_string(),
        is_final: false,
        duration_ms: 5250,
        metadata: Some(MetadataFields { duration_ms: 0, request_id: String::new() }),
    });
    assert_eq!(parsed.duration_ms, 5250);
    assert_eq!(parsed.request_id, None);
    let parsed = interpret_message(MessageFields {
        transcript: "test".to_string(),
        is_final: false,
        duration_ms: 0,
        metadata: None,
    });
    assert_eq!(parsed.duration_ms, 0);
    assert_eq!(parsed.request_id, None);
}

#[test]
fn stream_url_and_header() {
    assert_eq!(
        listen_url(16000, None),
        "wss://api.deepgram.com/v1/listen?encoding=linear16&sample_rate=16000&channels=1&punctuate=false"
    );
    assert_eq!(
        listen_url(48000, Some("ja".to_string())),
        "wss://api.deepgram.com/v1/listen?encoding=linear16&sample_rate=48000&channels=1&punctuate=false&language=ja"
    );
    assert_eq!(auth_header_value("k1"), "Token k1");
    assert_eq!(decimal_string(0), "0");
    assert_eq!(decimal_string(4294967295), "4294967295");
}
