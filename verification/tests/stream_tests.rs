use codex_web::stream::DeltaTarget;
use codex_web::stream::LiveEventHub;
use codex_web::stream::Scope;
use codex_web::stream::StreamCursor;
use codex_web::stream::StreamOp;
use codex_web::stream::append_entry;
use codex_web::stream::completed_turn_status;
use codex_web::stream::keepalive_frame;
use codex_web::stream::notice_message;
use codex_web::stream::stream_op;
use codex_web::stream::truncated_append;

#[test]
fn streamed_output_has_a_hard_cap() {
    let existing = "a".repeat(256 * 1024);
    let combined = truncated_append(&existing, "tail");

    assert!(combined.len() < existing.len() + 64);
    assert!(combined.ends_with("tail"));
    assert!(combined.starts_with("… output truncated …"));
}

#[test]
fn streamed_text_below_the_cap_is_appended_whole() {
    assert_eq!(truncated_append("abc", "def"), "abcdef");
    assert_eq!(truncated_append("", ""), "");
}

#[test]
fn streamed_text_is_cut_at_a_character_boundary() {
    // 'é' takes two bytes; the cut must not split it.
    let existing = "é".repeat(131_072);
    let combined = truncated_append(&existing, "x");
    let kept = combined
        .strip_prefix("… output truncated …\n")
        .expect("marker");
    assert!(kept.len() <= 256 * 1024);
    assert!(kept.ends_with("éx"));
    assert_eq!(kept.len(), 256 * 1024 - 1);
}

#[test]
fn replay_returns_only_events_after_the_client_watermark() {
    let mut hub = LiveEventHub::new();
    hub.publish(r#"{"op":"first"}"#);
    hub.publish(r#"{"op":"second"}"#);

    let replay = hub.replay_after(Some(1));

    assert!(!replay.gap);
    assert_eq!(
        replay
            .events
            .iter()
            .map(|event| event.seq)
            .collect::<Vec<_>>(),
        vec![2]
    );
}

#[test]
fn published_events_are_numbered_and_framed() {
    let mut hub = LiveEventHub::new();
    assert_eq!(hub.watermark(), 0);
    let event = hub.publish(r#"{"op":"skillsChanged"}"#);
    assert_eq!(event.seq, 1);
    assert_eq!(
        String::from_utf8(event.encoded).expect("utf8"),
        "id: 1\ndata: {\"op\":\"skillsChanged\",\"seq\":1}\n\n"
    );
    assert_eq!(hub.watermark(), 1);
    assert_eq!(hub.next_seq(), 2);
    let replay = hub.replay_after(None);
    assert!(!replay.gap);
    assert!(replay.events.is_empty());
    let replay = hub.replay_after(Some(0));
    assert_eq!(replay.events.len(), 1);
}

#[test]
fn replay_reports_a_gap_once_events_were_evicted() {
    let mut hub = LiveEventHub::new();
    for _ in 0..4100 {
        hub.publish("{}");
    }
    let replay = hub.replay_after(Some(0));
    assert!(replay.gap);
    assert_eq!(replay.events.len(), 4096);
    assert_eq!(replay.events[0].seq, 5);
    let replay = hub.replay_after(Some(4));
    assert!(!replay.gap);
    assert_eq!(replay.events.len(), 4096);
}

#[test]
fn oversized_event_empties_the_replay_buffer() {
    let mut hub = LiveEventHub::new();
    hub.publish("{}");
    let huge = "x".repeat(4 * 1024 * 1024 + 1);
    hub.publish(&huge);
    let replay = hub.replay_after(Some(0));
    assert!(!replay.gap);
    assert!(replay.events.is_empty());
}

#[test]
fn cursor_delivers_each_event_once() {
    let mut hub = LiveEventHub::new();
    let first = hub.publish("{}");
    let second = hub.publish("{}");
    let batch = hub.replay_after(Some(0));
    let mut cursor = StreamCursor::new(Some(0));
    let frames = cursor.open_frames(&batch, hub.watermark());
    assert_eq!(frames.len(), 2);
    assert_eq!(cursor.delivered, 2);
    assert!(cursor.deliver(&first).is_none());
    assert!(cursor.deliver(&second).is_none());
    let third = hub.publish("{}");
    assert_eq!(cursor.deliver(&third), Some(third.encoded.clone()));
    assert!(cursor.deliver(&third).is_none());
}

#[test]
fn gaps_and_lag_resynchronise_at_the_watermark() {
    let batch = codex_web::stream::ReplayBatch {
        events: Vec::new(),
        gap: true,
    };
    let mut cursor = StreamCursor::new(None);
    let frames = cursor.open_frames(&batch, 7);
    assert_eq!(
        String::from_utf8(frames[0].clone()).expect("utf8"),
        "id: 7\ndata: {\"op\":\"resync\",\"reason\":\"replayExpired\",\"seq\":7}\n\n"
    );
    assert_eq!(cursor.delivered, 7);
    let frame = cursor.resync_after_lag(9);
    assert_eq!(
        String::from_utf8(frame).expect("utf8"),
        "id: 9\ndata: {\"op\":\"resync\",\"reason\":\"clientLagged\",\"seq\":9}\n\n"
    );
    assert_eq!(
        String::from_utf8(keepalive_frame()).expect("utf8"),
        ": keepalive\n\n"
    );
}

#[test]
fn item_keys_are_scoped_by_thread_and_turn() {
    let scope = Scope::from_fields(Some("thread-a"), None, Some("turn-a"));
    assert_eq!(scope.turn_id, "turn-a");
    let key = scope.item_key("same");
    assert_eq!(key.thread_id, "thread-a");
    assert_eq!(key.turn_id, "turn-a");
    assert_eq!(key.item_id, "same");
    let other = Scope::from_fields(Some("thread-b"), Some("turn-b"), Some("ignored"));
    assert_eq!(other.turn_id, "turn-b");
    let empty = Scope::from_fields(None, None, None);
    assert_eq!(empty.thread_id, "");
    assert_eq!(empty.turn_id, "");
}

#[test]
fn notifications_map_to_stream_operations() {
    assert_eq!(stream_op("item/started", false), StreamOp::ItemStarted);
    assert_eq!(
        stream_op("item/reasoning/summaryTextDelta", false),
        StreamOp::Delta(DeltaTarget::ReasoningSummary)
    );
    assert_eq!(stream_op("skills/changed", false), StreamOp::SkillsChanged);
    assert_eq!(stream_op("error", false), StreamOp::Notice(true));
    assert_eq!(stream_op("configWarning", false), StreamOp::Notice(false));
    assert_eq!(stream_op("item/tool/requestUserInput", true), StreamOp::ServerRequest);
    assert_eq!(stream_op("unknown", false), StreamOp::Ignored);
    assert_eq!(DeltaTarget::CommandOutput.field(), "aggregatedOutput");
    assert_eq!(DeltaTarget::ReasoningContent.index_field(), Some("contentIndex"));
    assert_eq!(DeltaTarget::FileChangeOutput.item_type(), "fileChange");
}

#[test]
fn notice_and_turn_texts_have_defaults() {
    assert_eq!(completed_turn_status(None), "completed");
    assert_eq!(completed_turn_status(Some("failed")), "failed");
    assert_eq!(notice_message(true, Some("boom"), Some("other")), "boom");
    assert_eq!(notice_message(true, None, Some("other")), "Codex reported a problem");
    assert_eq!(notice_message(false, None, Some("other")), "other");
    assert_eq!(notice_message(false, None, None), "Codex reported a problem");
}

#[test]
fn indexed_deltas_resize_the_entries() {
    let entries = vec!["a".to_string(), "b".to_string(), "c".to_string()];
    assert_eq!(append_entry(&entries, 0, "x"), vec!["ax".to_string()]);
    assert_eq!(
        append_entry(&entries, 4, "y"),
        vec![
            "a".to_string(),
            "b".to_string(),
            "c".to_string(),
            String::new(),
            "y".to_string()
        ]
    );
}

#[test]
fn published_objects_carry_their_sequence_number() {
    let mut hub = LiveEventHub::new();
    hub.publish("{}");
    let second = hub.publish(r#"{"seq":99,"op":"remove"}"#);
    assert_eq!(
        String::from_utf8(second.encoded).expect("utf8"),
        "id: 2\ndata: {\"op\":\"remove\",\"seq\":2}\n\n"
    );
    let third = hub.publish("[1,2]");
    assert_eq!(String::from_utf8(third.encoded).expect("utf8"), "id: 3\ndata: [1,2]\n\n");
}

