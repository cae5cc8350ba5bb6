use base64::Engine;
use xiaoo_shared::backend_path::{ExecutionState, OperationError};
use xiaoo_shared::e2b_error::{E2bFailure, E2bFailureKind};
use xiaoo_shared::e2b_exec::E2bExecFailure;
use xiaoo_shared::e2b_stream::{
    connect_envelope, parse_status_exit_code, ConnectStartStreamDecoder, DataEvent, E2bExecOutput, EndEvent,
    StartEvent, StartStreamCollector, StreamFrame, StreamMode,
};

fn framed_payloads(payloads: &[&[u8]]) -> Vec<u8> {
    let mut bytes = Vec::new();
    for payload in payloads {
        bytes.push(0);
        bytes.extend_from_slice(&(payload.len() as u32).to_be_bytes());
        bytes.extend_from_slice(payload);
    }
    bytes
}

fn text_field(value: &serde_json::Value, key: &str) -> Option<String> {
    value.get(key).and_then(|v| v.as_str()).map(|s| s.to_string())
}

/// Decode one event frame of a process-start stream into the library's event.
fn decode_event(payload: &[u8]) -> Option<StartEvent> {
    let value: serde_json::Value = serde_json::from_slice(payload).expect("event json");
    let event = value.get("event")?;
    let data = event.get("data").map(|d| DataEvent {
        stdout: text_field(d, "stdout"),
        stderr: text_field(d, "stderr"),
        pty: text_field(d, "pty"),
    });
    let end = event.get("end").map(|e| EndEvent {
        exit_code: e.get("exitCode").and_then(|c| c.as_i64()).map(|c| c as i32),
        status: text_field(e, "status"),
        error: text_field(e, "error"),
    });
    Some(StartEvent { data, end })
}

struct StreamReader {
    decoder: ConnectStartStreamDecoder,
    collector: StartStreamCollector,
}

impl StreamReader {
    fn new() -> Self {
        StreamReader { decoder: ConnectStartStreamDecoder::new(), collector: StartStreamCollector::new() }
    }

    fn push(&mut self, bytes: &[u8]) -> Result<(), E2bFailure> {
        let batch = self.decoder.push(bytes);
        for frame in batch.frames {
            if let StreamFrame::Data(payload) = frame {
                if let Some(event) = decode_event(payload.as_slice()) {
                    self.collector.apply(event)?;
                }
            }
        }
        Ok(())
    }

    fn finish(self) -> (Result<E2bExecOutput, E2bFailure>, StartStreamCollector) {
        match self.decoder.finish() {
            Ok(_) => (Ok(self.collector.into_output()), StartStreamCollector::new()),
            Err(failure) => (Err(failure), self.collector),
        }
    }
}

#[test]
fn parses_connect_start_stream() {
    let stdout = base64::engine::general_purpose::STANDARD.encode("hello\n");
    let event = format!(r#"{{"event":{{"data":{{"stdout":"{stdout}"}}}}}}"#);
    let end = r#"{"event":{"end":{"status":"exit status 0","exited":true}}}"#;
    let bytes = framed_payloads(&[event.as_bytes(), end.as_bytes()]);

    let mut reader = StreamReader::new();
    reader.push(bytes.as_slice()).expect("parse stream");
    let parsed = reader.finish().0.expect("parse stream");

    assert_eq!(parsed.stdout, b"hello\n");
    assert_eq!(parsed.exit_code, Some(0));
}

#[test]
fn parses_frames_split_at_every_chunk_boundary() {
    let stdout = base64::engine::general_purpose::STANDARD.encode("split output");
    let event = format!(r#"{{"event":{{"data":{{"stdout":"{stdout}"}}}}}}"#);
    let end = r#"{"event":{"end":{"exitCode":0}}}"#;
    let bytes = framed_payloads(&[event.as_bytes(), end.as_bytes()]);

    for split in 1..bytes.len() {
        let mut reader = StreamReader::new();
        reader.push(&bytes[..split]).expect("first chunk");
        reader.push(&bytes[split..]).expect("second chunk");
        let output = reader.finish().0.expect("complete stream");
        assert_eq!(output.stdout, b"split output", "split at {split}");
        assert_eq!(output.exit_code, Some(0), "split at {split}");
    }
}

#[test]
fn preserves_partial_output_on_truncated_frame() {
    let stdout = base64::engine::general_purpose::STANDARD.encode("partial");
    let event = format!(r#"{{"event":{{"data":{{"stdout":"{stdout}"}}}}}}"#);
    let mut bytes = framed_payloads(&[event.as_bytes()]);
    bytes.extend_from_slice(&[0, 0, 0, 0, 8, b'{']);

    let mut reader = StreamReader::new();
    reader.push(bytes.as_slice()).expect("first event parses");
    let (result, collector) = reader.finish();
    let failure = result.expect_err("truncated frame fails");
    assert_eq!(failure.kind, E2bFailureKind::BodyInterrupted);
    assert_eq!(collector.stdout, b"partial");
}

#[test]
fn interrupted_operation_error_carries_partial_output_and_state() {
    let stdout = base64::engine::general_purpose::STANDARD.encode("partial");
    let event = format!(r#"{{"event":{{"data":{{"stdout":"{stdout}"}}}}}}"#);
    let bytes = framed_payloads(&[event.as_bytes()]);
    let mut reader = StreamReader::new();
    reader.push(bytes.as_slice()).expect("event parses");

    let collected = reader.collector;
    let error = E2bExecFailure::interrupted(
        E2bFailure::body_interrupted("connection reset".to_string()),
        collected.stdout,
        collected.stderr,
    )
    .into_operation_error();

    match error {
        OperationError::ExecutionInterrupted { stdout, stderr, state, .. } => {
            assert_eq!(stdout, b"partial");
            assert!(stderr.is_empty());
            assert_eq!(state, ExecutionState::RunningOrCompleted);
        }
        other => panic!("unexpected error: {other:?}"),
    }
}

#[test]
fn parses_status_exit_code() {
    assert_eq!(parse_status_exit_code("exit status 124"), Some(124));
}

#[test]
fn status_exit_code_falls_back_to_the_last_word() {
    assert_eq!(parse_status_exit_code("  signal: killed 9 "), Some(9));
    assert_eq!(parse_status_exit_code("exit status x7"), None);
    assert_eq!(parse_status_exit_code("finished"), None);
    assert_eq!(parse_status_exit_code("exit status -1"), Some(-1));
}

#[test]
fn envelope_is_read_back_as_one_data_frame() {
    let framed = connect_envelope(b"{\"a\":1}");
    assert_eq!(&framed[..5], &[0, 0, 0, 0, 7]);
    let mut decoder = ConnectStartStreamDecoder::new();
    let batch = decoder.push(framed.as_slice());
    assert!(!batch.compressed);
    assert_eq!(batch.frames.len(), 1);
    match &batch.frames[0] {
        StreamFrame::Data(p) => assert_eq!(p.as_slice(), b"{\"a\":1}"),
        other => panic!("unexpected frame {other:?}"),
    }
    assert!(matches!(decoder.finish(), Ok(None)));
}

#[test]
fn plain_json_reply_is_kept_whole_and_empty_stream_fails() {
    let mut decoder = ConnectStartStreamDecoder::new();
    let batch = decoder.push(b"  {\"event\":{}}");
    assert!(batch.frames.is_empty());
    match decoder.finish() {
        Ok(Some(reply)) => assert_eq!(reply.as_slice(), b"  {\"event\":{}}"),
        other => panic!("unexpected outcome {other:?}"),
    }
    let empty = ConnectStartStreamDecoder::new();
    let failure = empty.finish().expect_err("empty stream");
    assert_eq!(failure.message, "empty e2b process stream");
    assert_eq!(StreamMode::Framed, StreamMode::Framed);
}

#[test]
fn end_frames_and_compressed_frames_are_reported() {
    let mut bytes = vec![2, 0, 0, 0, 2, b'{', b'}'];
    bytes.extend_from_slice(&[1, 0, 0, 0, 1, b'x']);
    let mut decoder = ConnectStartStreamDecoder::new();
    let batch = decoder.push(bytes.as_slice());
    assert_eq!(batch.frames.len(), 1);
    assert!(matches!(&batch.frames[0], StreamFrame::End(p) if p.as_slice() == b"{}"));
    assert!(batch.compressed);
}

#[test]
fn invalid_base64_chunk_is_a_protocol_error() {
    let mut collector = StartStreamCollector::new();
    let event = StartEvent {
        data: Some(DataEvent { stdout: Some("!!!".to_string()), stderr: None, pty: None }),
        end: None,
    };
    let failure = collector.apply(event).expect_err("bad chunk");
    assert_eq!(failure.kind, E2bFailureKind::Protocol);
    assert!(failure.message.starts_with("failed to decode e2b process stdout chunk: "));
}

#[test]
fn end_event_records_status_and_error_text() {
    let mut collector = StartStreamCollector::new();
    let event = StartEvent {
        data: None,
        end: Some(EndEvent { exit_code: None, status: Some("exit status 3".to_string()), error: Some("boom".to_string()) }),
    };
    collector.apply(event).expect("end event");
    assert!(collector.completed);
    assert_eq!(collector.exit_code, Some(3));
    assert_eq!(collector.stderr, b"boom");
}

#[test]
fn stream_failure_texts() {
    let f = xiaoo_shared::e2b_stream::compressed_frame_failure();
    assert_eq!(f.message, "compressed e2b process stream frames are not supported");
    assert!(!f.retryable);
    let f = xiaoo_shared::e2b_stream::event_decode_failure(true, "eof");
    assert_eq!(f.message, "failed to decode e2b process stream event: eof");
    let f = xiaoo_shared::e2b_stream::event_decode_failure(false, "eof");
    assert_eq!(f.message, "failed to decode e2b process response: eof");
}

#[test]
fn end_stream_error_is_retryable() {
    assert!(xiaoo_shared::e2b_stream::end_stream_outcome(None).is_ok());
    let f = xiaoo_shared::e2b_stream::end_stream_outcome(Some("{\"code\":\"x\"}".to_string())).unwrap_err();
    assert!(f.retryable);
    assert_eq!(f.message, "e2b process stream ended with error: {\"code\":\"x\"}");
}

#[test]
fn split_chunks_read_the_same_frames_as_one_chunk() {
    let mut stream = connect_envelope(b"{\"a\":1}");
    stream.extend(connect_envelope(b"{\"b\":2}"));
    let mut whole = ConnectStartStreamDecoder::new();
    let once = whole.push(stream.as_slice());
    for cut in 0..=stream.len() {
        let mut split = ConnectStartStreamDecoder::new();
        let mut frames = split.push(&stream[..cut]).frames;
        frames.extend(split.push(&stream[cut..]).frames);
        assert_eq!(format!("{:?}", frames), format!("{:?}", once.frames), "cut at {cut}");
    }
    assert_eq!(once.frames.len(), 2);
}

#[test]
fn failed_chunk_keeps_the_chunks_before_it() {
    let mut collector = StartStreamCollector::new();
    let event = StartEvent {
        data: Some(DataEvent { stdout: Some("b3V0".to_string()), stderr: Some("!!!".to_string()), pty: Some("cHR5".to_string()) }),
        end: None,
    };
    let failure = collector.apply(event).expect_err("bad stderr chunk");
    assert!(failure.message.starts_with("failed to decode e2b process stderr chunk: "));
    assert_eq!(collector.stdout, b"out".to_vec());
    assert!(collector.stderr.is_empty());

    let event = StartEvent {
        data: Some(DataEvent { stdout: Some("b3V0".to_string()), stderr: Some("ZXJy".to_string()), pty: Some("cHR5".to_string()) }),
        end: None,
    };
    assert!(collector.apply(event).is_ok());
    assert_eq!(collector.stdout, b"outoutpty".to_vec());
    assert_eq!(collector.stderr, b"err".to_vec());
}
