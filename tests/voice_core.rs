use va_voice::capture::{negotiate, CaptureError, ConfigRange, DeviceConfig, NativeFormat, StreamConfig};
use va_voice::clock::ms_from_elapsed;
use va_voice::event::{EventKind, RecognitionEvent};
use va_voice::forward::{ForwardError, ForwardQueue, WorkerStep, DEFAULT_QUEUE_CAPACITY};
use va_voice::hub::{Hub, Received};
use va_voice::normalize::{first_channel, normalize_signed16, normalize_unsigned16, recenter, SampleEncoding};
use va_voice::recognizer::{complete_text, Hypothesis, RecognizerAdapter, RecognizerResponse, SessionState};
use va_voice::relay::dispatch;
use va_voice::sse::encode;

fn event(ts: u64, kind: EventKind, text: &str) -> RecognitionEvent {
    RecognitionEvent::new(ts, kind, text.to_string())
}

fn text_of(e: &Option<RecognitionEvent>) -> Option<(EventKind, String)> {
    e.as_ref().map(|e| (e.kind, e.text.clone()))
}

#[test]
fn normalize_keeps_first_channel_of_each_frame() {
    let stereo: Vec<i16> = vec![1, -1, 2, -2, 3, -3];
    assert_eq!(normalize_signed16(&stereo, 2), vec![1, 2, 3]);
    let three: Vec<i16> = vec![10, 11, 12, 20, 21, 22];
    assert_eq!(normalize_signed16(&three, 3), vec![10, 20]);
}

#[test]
fn normalize_signed16_mono_is_identity() {
    let mono: Vec<i16> = vec![i16::MIN, -5, 0, 7, i16::MAX];
    assert_eq!(normalize_signed16(&mono, 1), mono);
}

#[test]
fn normalize_output_length_is_input_over_channels() {
    let batch: Vec<i16> = (0..12).collect();
    for channels in 1..=6usize {
        assert_eq!(normalize_signed16(&batch, channels).len(), 12 / channels);
    }
    let unsigned: Vec<u16> = (0..12).collect();
    assert_eq!(normalize_unsigned16(&unsigned, 4).len(), 3);
    let floats: Vec<f32> = vec![0.5, 0.1, -0.5, 0.2];
    assert_eq!(first_channel(&floats, 2), vec![0.5, -0.5]);
}

#[test]
fn normalize_drops_incomplete_trailing_frame() {
    let batch: Vec<i16> = vec![1, 2, 3, 4, 5];
    assert_eq!(normalize_signed16(&batch, 2), vec![1, 3]);
    assert_eq!(normalize_signed16(&[], 2), Vec::<i16>::new());
}

#[test]
fn unsigned_samples_are_recentred() {
    assert_eq!(recenter(32768), 0);
    assert_eq!(recenter(0), i16::MIN);
    assert_eq!(recenter(65535), i16::MAX);
    let batch: Vec<u16> = vec![32768, 1, 40000, 2, 0, 3];
    assert_eq!(normalize_unsigned16(&batch, 2), vec![0, 7232, -32768]);
}

#[test]
fn scripted_partials_then_final() {
    let mut adapter = RecognizerAdapter::new();
    assert_eq!(adapter.state(), SessionState::Idle);
    let a = adapter.on_response(RecognizerResponse::Running("h".to_string()), 1);
    let b = adapter.on_response(RecognizerResponse::Running("he".to_string()), 2);
    let c = adapter.on_response(
        RecognizerResponse::Finalized(Hypothesis::Single("hello".to_string())),
        3,
    );
    assert_eq!(text_of(&a), Some((EventKind::Partial, "h".to_string())));
    assert_eq!(text_of(&b), Some((EventKind::Partial, "he".to_string())));
    assert_eq!(text_of(&c), Some((EventKind::Final, "hello".to_string())));
    assert_eq!(c.unwrap().ts_ms, 3);
    assert_eq!(adapter.state(), SessionState::Listening);
}

#[test]
fn repeated_or_empty_partial_is_not_emitted() {
    let mut adapter = RecognizerAdapter::new();
    assert!(adapter.on_response(RecognizerResponse::Running("he".to_string()), 1).is_some());
    assert!(adapter.on_response(RecognizerResponse::Running("he".to_string()), 2).is_none());
    assert!(adapter.on_response(RecognizerResponse::Running(String::new()), 3).is_none());
    assert!(adapter
        .on_response(RecognizerResponse::Finalized(Hypothesis::Single(String::new())), 4)
        .is_none());
    // a new utterance may repeat the last partial of the previous one
    assert!(adapter.on_response(RecognizerResponse::Running("he".to_string()), 5).is_some());
}

#[test]
fn decode_failure_emits_nothing_and_session_continues() {
    let mut adapter = RecognizerAdapter::new();
    assert!(adapter.on_response(RecognizerResponse::Failed, 1).is_none());
    assert_eq!(adapter.state(), SessionState::Listening);
    let f = adapter.on_response(
        RecognizerResponse::Finalized(Hypothesis::Single("ok".to_string())),
        2,
    );
    assert_eq!(text_of(&f), Some((EventKind::Final, "ok".to_string())));
}

#[test]
fn finalized_takes_first_ranked_alternative() {
    let h = Hypothesis::Alternatives(vec!["best".to_string(), "second".to_string()]);
    assert_eq!(complete_text(&h), Some("best".to_string()));
    assert_eq!(complete_text(&Hypothesis::Alternatives(vec![])), None);
    let mut adapter = RecognizerAdapter::new();
    let e = adapter.on_response(RecognizerResponse::Finalized(h), 9);
    assert_eq!(text_of(&e), Some((EventKind::Final, "best".to_string())));
}

#[test]
fn fatal_fault_emits_one_error_then_nothing() {
    let mut adapter = RecognizerAdapter::new();
    let e = adapter.fail("recognizer lock poisoned".to_string(), 5);
    assert_eq!(text_of(&e), Some((EventKind::Error, "recognizer lock poisoned".to_string())));
    assert_eq!(adapter.state(), SessionState::Terminated);
    assert!(adapter.fail("again".to_string(), 6).is_none());
    assert!(adapter
        .on_response(RecognizerResponse::Finalized(Hypothesis::Single("x".to_string())), 7)
        .is_none());
}

#[test]
fn two_subscribers_receive_same_event_late_one_does_not() {
    let mut hub = Hub::new(4);
    let a = hub.subscribe().unwrap();
    let b = hub.subscribe().unwrap();
    hub.publish(event(1, EventKind::Final, "hello"));
    let late = hub.subscribe().unwrap();
    for id in [a, b] {
        match hub.receive(id) {
            Received::Event(e) => {
                assert_eq!(e.ts_ms, 1);
                assert_eq!(e.kind, EventKind::Final);
                assert_eq!(e.text, "hello");
            }
            other => panic!("unexpected {:?}", other),
        }
    }
    assert!(matches!(hub.receive(late), Received::Empty));
    hub.publish(event(2, EventKind::Partial, "next"));
    match hub.receive(late) {
        Received::Event(e) => assert_eq!(e.text, "next"),
        other => panic!("unexpected {:?}", other),
    }
}

#[test]
fn overrun_subscriber_sees_lag_others_continue() {
    let mut hub = Hub::new(2);
    let slow = hub.subscribe().unwrap();
    let fast = hub.subscribe().unwrap();
    for i in 0..5u64 {
        hub.publish(event(i, EventKind::Partial, "p"));
        match hub.receive(fast) {
            Received::Event(e) => assert_eq!(e.ts_ms, i),
            other => panic!("unexpected {:?}", other),
        }
    }
    assert!(matches!(hub.receive(slow), Received::Lagged(3)));
    match hub.receive(slow) {
        Received::Event(e) => assert_eq!(e.ts_ms, 3),
        other => panic!("unexpected {:?}", other),
    }
    match hub.receive(slow) {
        Received::Event(e) => assert_eq!(e.ts_ms, 4),
        other => panic!("unexpected {:?}", other),
    }
    assert!(matches!(hub.receive(slow), Received::Empty));
}

#[test]
fn unsubscribe_leaves_others_untouched() {
    let mut hub = Hub::new(3);
    let a = hub.subscribe().unwrap();
    let b = hub.subscribe().unwrap();
    assert!(hub.unsubscribe(a));
    assert!(!hub.unsubscribe(a));
    assert_eq!(hub.subscriber_count(), 1);
    hub.publish(event(1, EventKind::Final, "x"));
    assert!(matches!(hub.receive(a), Received::Unknown));
    assert!(matches!(hub.receive(b), Received::Event(_)));
}

#[test]
fn encode_multiline_final_uses_continuation() {
    let bytes = encode(&event(42, EventKind::Final, "line1\nline2"));
    let text = String::from_utf8(bytes).unwrap();
    assert_eq!(
        text,
        "event: final\ndata: {\"ts_ms\":42,\"text\":\"line1\ndata: line2\",\"kind\":\"final\"}\n\n"
    );
    let data_lines: Vec<&str> = text.lines().filter(|l| l.starts_with("data: ")).collect();
    assert_eq!(data_lines.len(), 2);
    assert!(data_lines[1].starts_with("data: line2"));
    assert!(text.ends_with("\n\n"));
}

#[test]
fn encode_kinds_and_escapes() {
    let p = String::from_utf8(encode(&event(0, EventKind::Partial, "say \"hi\" \\ ok"))).unwrap();
    assert_eq!(
        p,
        "event: partial\ndata: {\"ts_ms\":0,\"text\":\"say \\\"hi\\\" \\\\ ok\",\"kind\":\"partial\"}\n\n"
    );
    let e = String::from_utf8(encode(&event(1234567890123, EventKind::Error, "audio error"))).unwrap();
    assert_eq!(
        e,
        "event: error\ndata: {\"ts_ms\":1234567890123,\"text\":\"audio error\",\"kind\":\"error\"}\n\n"
    );
    assert_eq!(EventKind::Partial.as_str(), "partial");
    assert_eq!(EventKind::Final.as_str(), "final");
    assert_eq!(EventKind::Error.as_str(), "error");
}

#[test]
fn queue_refuses_entry_beyond_capacity() {
    let mut q = ForwardQueue::new(2);
    assert_eq!(q.enqueue("a".to_string()), Ok(()));
    assert_eq!(q.enqueue("b".to_string()), Ok(()));
    assert_eq!(q.enqueue("c".to_string()), Err(ForwardError::QueueFull));
    assert_eq!(q.len(), 2);
    let mut seen = Vec::new();
    loop {
        match q.next_step() {
            WorkerStep::Deliver(t) => seen.push(t),
            WorkerStep::Wait => break,
            WorkerStep::Stop => panic!("queue is open"),
        }
    }
    assert_eq!(seen, vec!["a".to_string(), "b".to_string()]);
}

#[test]
fn closed_queue_drains_then_stops() {
    let mut q = ForwardQueue::new(DEFAULT_QUEUE_CAPACITY);
    assert_eq!(q.capacity(), 128);
    q.enqueue("x".to_string()).unwrap();
    q.close();
    assert!(q.is_closed());
    assert_eq!(q.enqueue("y".to_string()), Err(ForwardError::Closed));
    assert!(matches!(q.next_step(), WorkerStep::Deliver(t) if t == "x"));
    assert!(matches!(q.next_step(), WorkerStep::Stop));
}

#[test]
fn dispatch_forwards_only_final_text() {
    let mut hub = Hub::new(4);
    let id = hub.subscribe().unwrap();
    let mut q = ForwardQueue::new(1);
    assert_eq!(dispatch(event(1, EventKind::Partial, "he"), &mut hub, &mut q), None);
    assert_eq!(q.len(), 0);
    assert_eq!(dispatch(event(2, EventKind::Final, "hello"), &mut hub, &mut q), None);
    assert_eq!(
        dispatch(event(3, EventKind::Final, "again"), &mut hub, &mut q),
        Some(ForwardError::QueueFull)
    );
    let mut got = Vec::new();
    while let Received::Event(e) = hub.receive(id) {
        got.push(e.text);
    }
    assert_eq!(got, vec!["he", "hello", "again"]);
    assert!(matches!(q.next_step(), WorkerStep::Deliver(t) if t == "hello"));
}

#[test]
fn negotiate_default_and_forced_rate() {
    let dflt = DeviceConfig { sample_rate: 48000, channel_count: 2, format: NativeFormat::F32 };
    let ranges = vec![
        ConfigRange { channel_count: 2, min_rate: 8000, max_rate: 16000, format: NativeFormat::I32 },
        ConfigRange { channel_count: 1, min_rate: 8000, max_rate: 48000, format: NativeFormat::I16 },
    ];
    assert_eq!(
        negotiate(Some(dflt), &ranges, None),
        Ok(StreamConfig { sample_rate: 48000, channel_count: 2, encoding: SampleEncoding::Float32 })
    );
    assert_eq!(
        negotiate(Some(dflt), &ranges, Some(16000)),
        Ok(StreamConfig { sample_rate: 16000, channel_count: 1, encoding: SampleEncoding::Signed16 })
    );
}

#[test]
fn negotiate_errors() {
    let ranges = vec![ConfigRange { channel_count: 1, min_rate: 8000, max_rate: 16000, format: NativeFormat::U16 }];
    assert_eq!(negotiate(None, &ranges, None), Err(CaptureError::DeviceUnavailable));
    let odd = DeviceConfig { sample_rate: 44100, channel_count: 1, format: NativeFormat::F64 };
    assert_eq!(negotiate(Some(odd), &ranges, None), Err(CaptureError::UnsupportedEncoding));
    assert_eq!(negotiate(Some(odd), &ranges, Some(44100)), Err(CaptureError::NoMatchingConfig));
    assert_eq!(
        negotiate(Some(odd), &ranges, Some(8000)),
        Ok(StreamConfig { sample_rate: 8000, channel_count: 1, encoding: SampleEncoding::Unsigned16 })
    );
}

#[test]
fn wall_clock_is_after_2020() {
    let t = va_voice::clock::now_ms();
    assert!(t > 1_577_836_800_000);
    assert!(va_voice::clock::now_ms() >= t);
}

#[test]
fn timestamp_from_clock_reading() {
    assert_eq!(ms_from_elapsed(None), 0);
    assert_eq!(ms_from_elapsed(Some(1_700_000_000_123)), 1_700_000_000_123);
    assert_eq!(ms_from_elapsed(Some(u64::MAX as u128 + 5)), u64::MAX);
}

#[test]
fn encode_escapes_control_bytes() {
    let out = String::from_utf8(encode(&event(7, EventKind::Final, "a\tb\u{8}c\u{c}d\u{1}e\u{1f}f\rg"))).unwrap();
    assert_eq!(
        out,
        "event: final\ndata: {\"ts_ms\":7,\"text\":\"a\\tb\\bc\\fd\\u0001e\\u001ff\\rg\",\"kind\":\"final\"}\n\n"
    );
}

#[test]
fn dispatch_reports_closed_queue() {
    let mut hub = Hub::new(1);
    let mut q = ForwardQueue::new(2);
    q.close();
    assert_eq!(
        dispatch(event(1, EventKind::Final, "late"), &mut hub, &mut q),
        Some(ForwardError::Closed)
    );
}
