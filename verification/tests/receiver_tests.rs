use p2pool_core::receiver::{decode_frame, ingest_once, process_frame, IngestError, RecvError, ShareSocket};
use std::cell::Cell;

struct MockSocket {
    messages: Vec<Result<Result<String, Vec<u8>>, RecvError>>,
    current: Cell<usize>,
}

impl MockSocket {
    fn new(messages: Vec<Result<Result<String, Vec<u8>>, RecvError>>) -> Self {
        Self { messages, current: Cell::new(0) }
    }
}

impl ShareSocket for MockSocket {
    fn recv_string(&self) -> Result<Result<String, Vec<u8>>, RecvError> {
        let i = self.current.get();
        if i >= self.messages.len() {
            panic!("No more mock messages");
        }
        self.current.set(i + 1);
        self.messages[i].clone()
    }
}

fn run_ingestion(
    socket: &MockSocket,
    tx: tokio::sync::mpsc::Sender<serde_json::Value>,
) -> Result<(), IngestError> {
    loop {
        let step = ingest_once(socket, &tx);
        if step.is_err() {
            return step;
        }
    }
}

#[test]
fn test_receive_valid_json() {
    let (tx, mut rx) = tokio::sync::mpsc::channel(100);

    let mock_messages = vec![
        Ok(Ok(r#"{"share": "test", "value": 123}"#.to_string())),
        Err(RecvError),
    ];
    let mock_socket = MockSocket::new(mock_messages);

    let result = run_ingestion(&mock_socket, tx);
    assert_eq!(result, Err(IngestError::TransportFailure));

    if let Some(value) = rx.blocking_recv() {
        assert_eq!(value["share"], "test");
        assert_eq!(value["value"], 123);
    } else {
        panic!("no value reached the queue");
    }
}

#[test]
fn test_receive_invalid_json() {
    let (tx, _rx) = tokio::sync::mpsc::channel(100);

    let mock_messages = vec![Ok(Ok("invalid json".to_string()))];
    let mock_socket = MockSocket::new(mock_messages);

    let result = run_ingestion(&mock_socket, tx);
    assert!(result.is_err());
}

#[test]
fn test_receive_decode_error() {
    let (tx, _rx) = tokio::sync::mpsc::channel(100);

    let mock_messages = vec![Ok(Err(vec![1, 2, 3]))];
    let mock_socket = MockSocket::new(mock_messages);

    let result = run_ingestion(&mock_socket, tx);
    assert!(result.is_err());
}

#[test]
fn test_malformed_frame_stops_with_malformed_error() {
    let (tx, _rx) = tokio::sync::mpsc::channel(100);
    let result = process_frame(Ok(Ok("invalid json".to_string())), &tx);
    assert_eq!(result, Err(IngestError::MalformedFrame));
}

#[test]
fn test_decode_failure_stops_with_decode_error() {
    let (tx, _rx) = tokio::sync::mpsc::channel(100);
    let result = process_frame(Ok(Err(vec![0xff, 0xfe])), &tx);
    assert_eq!(result, Err(IngestError::DecodeFailure));
}

#[test]
fn test_transport_failure_stops_with_transport_error() {
    let (tx, _rx) = tokio::sync::mpsc::channel(100);
    let result = process_frame(Err(RecvError), &tx);
    assert_eq!(result, Err(IngestError::TransportFailure));
}

#[test]
fn test_decode_frame_parses_structured_value() {
    let decoded = decode_frame(Ok(Ok(r#"{"share": "test", "value": 123}"#.to_string())));
    let value = decoded.unwrap();
    assert_eq!(value["share"], "test");
    assert_eq!(value["value"], 123);
}

#[test]
fn test_decode_frame_rejects_malformed_text() {
    let decoded = decode_frame(Ok(Ok("invalid json".to_string())));
    assert_eq!(decoded, Err(IngestError::MalformedFrame));
}

#[test]
fn test_closed_queue_stops_with_queue_error() {
    let (tx, rx) = tokio::sync::mpsc::channel(100);
    drop(rx);
    let result = process_frame(Ok(Ok(r#"{"share": "test", "value": 123}"#.to_string())), &tx);
    assert_eq!(result, Err(IngestError::QueueClosed));
}
