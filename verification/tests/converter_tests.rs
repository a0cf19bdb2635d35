use b_stb::process::process_stream;
use b_stb::util::bytes_to_string;
use b_stb::{ChunkPull, ChunkStream, ReadPull, ReaderSource, StreamConverter, StreamConverterError};
use bytes::Bytes;

fn chunk_stream_from(parts: Vec<Bytes>) -> ChunkStream {
    let pulls = parts.into_iter().map(ChunkPull::Chunk).collect();
    ChunkStream { pulls }
}

#[test]
fn test_body_to_string() {
    let converter = StreamConverter::new();
    let body = chunk_stream_from(vec![Bytes::from("stream is string!")]);

    let result = converter.body_to_string(body).unwrap();
    assert_eq!(result, "stream is string!");
}

#[test]
fn test_body_to_bytes() {
    let converter = StreamConverter::new();
    let expected = b"steam is byte!".to_vec();
    let body = chunk_stream_from(vec![Bytes::from(expected.clone())]);

    let result = converter.body_to_bytes(body).unwrap();
    assert_eq!(result, expected);
}

#[test]
fn test_process_stream() {
    let body = chunk_stream_from(vec![Bytes::from("Test Stream")]);
    let bytes = process_stream(body).unwrap();
    let result = bytes_to_string(&bytes).unwrap();

    assert_eq!(result, "Test Stream");
}

#[test]
fn test_large_body() {
    let converter = StreamConverter::new();
    let large_string = "a".repeat(16384);
    let body = chunk_stream_from(vec![Bytes::from(large_string.clone())]);

    let result = converter.body_to_string(body).unwrap();
    assert_eq!(result, large_string);
}

#[test]
fn test_chunked_body() {
    let converter = StreamConverter::new();
    let chunks = vec![
        Bytes::from("Hello"),
        Bytes::from(", "),
        Bytes::from("World!"),
    ];

    let body = chunk_stream_from(chunks);

    let result = converter.body_to_string(body).unwrap();
    assert_eq!(result, "Hello, World!");
}

#[test]
fn test_chunked_body_bytes() {
    let converter = StreamConverter::new();
    let chunks = vec![
        Bytes::from("Hello"),
        Bytes::from(", "),
        Bytes::from("World!"),
    ];

    let result = converter.body_to_bytes(chunk_stream_from(chunks)).unwrap();
    assert_eq!(result.len(), 13);
    assert_eq!(result, b"Hello, World!".to_vec());
}

#[test]
fn test_split_code_point_chunks() {
    // A chunk boundary inside the three-byte encoding of the euro sign is
    // no error on the chunked path: only the assembled buffer is validated.
    let converter = StreamConverter::new();
    let chunks = vec![Bytes::from(vec![0xE2, 0x82]), Bytes::from(vec![0xAC])];

    let result = converter.body_to_string(chunk_stream_from(chunks)).unwrap();
    assert_eq!(result, "\u{20ac}");
}

#[test]
fn test_body_invalid_utf8() {
    let converter = StreamConverter::new();
    let chunks = vec![Bytes::from(vec![0xFF, 0xFF]), Bytes::from(vec![0xFF])];

    let result = converter.body_to_string(chunk_stream_from(chunks));
    assert!(matches!(result, Err(StreamConverterError::EncodingError(_))));
}

#[test]
fn test_transport_failure() {
    let converter = StreamConverter::new();
    let pulls = vec![
        ChunkPull::Chunk(Bytes::from("Hello")),
        ChunkPull::Chunk(Bytes::from(", ")),
        ChunkPull::TransportFailure(String::from("connection reset")),
    ];

    let result = converter.body_to_bytes(ChunkStream { pulls });
    match result {
        Err(StreamConverterError::HyperError(message)) => {
            assert_eq!(message, "connection reset");
        }
        other => panic!("expected a transport error, got {:?}", other),
    }
}

#[test]
fn test_transport_failure_string_path() {
    let pulls = vec![
        ChunkPull::TransportFailure(String::from("peer closed")),
        ChunkPull::Chunk(Bytes::from("late")),
    ];
    let converter = StreamConverter::new();

    let result = converter.body_to_string(ChunkStream { pulls });
    match result {
        Err(StreamConverterError::HyperError(message)) => {
            assert_eq!(message, "peer closed");
        }
        other => panic!("expected a transport error, got {:?}", other),
    }
}

#[test]
fn test_reader_to_bytes() {
    let converter = StreamConverter::new();
    let reads = vec![
        ReadPull::Data(b"Hello, ".to_vec()),
        ReadPull::Data(b"World!".to_vec()),
        ReadPull::Data(Vec::new()),
    ];

    let result = converter.to_bytes(ReaderSource { reads }).unwrap();
    assert_eq!(result, b"Hello, World!".to_vec());
}

#[test]
fn test_reader_stops_at_empty_read() {
    let converter = StreamConverter::new();
    let reads = vec![
        ReadPull::Data(b"ab".to_vec()),
        ReadPull::Data(Vec::new()),
        ReadPull::Data(b"cd".to_vec()),
    ];

    let result = converter.to_string(ReaderSource { reads }).unwrap();
    assert_eq!(result, "ab");
}

#[test]
fn test_reader_io_failure() {
    let converter = StreamConverter::new();
    let reads = vec![
        ReadPull::Data(b"xy".to_vec()),
        ReadPull::IoFailure(String::from("unexpected end of file")),
    ];

    let result = converter.to_bytes(ReaderSource { reads });
    match result {
        Err(StreamConverterError::IoError(message)) => {
            assert_eq!(message, "unexpected end of file");
        }
        other => panic!("expected an I/O error, got {:?}", other),
    }
}

#[test]
fn test_split_code_point_reads() {
    // The reader path validates each read by itself, so the same split euro
    // sign that the chunked path accepts fails here.
    let converter = StreamConverter::new();
    let reads = vec![
        ReadPull::Data(vec![0xE2, 0x82]),
        ReadPull::Data(vec![0xAC]),
    ];

    let result = converter.to_string(ReaderSource { reads });
    assert!(matches!(result, Err(StreamConverterError::EncodingError(_))));
}

#[test]
fn test_reader_large_payload() {
    // A 16384-byte payload delivered through the default 8192-byte working
    // buffer: two full reads, then end of source.
    let converter = StreamConverter::new();
    let payload = "a".repeat(16384);
    let half = payload.as_bytes()[..8192].to_vec();
    let reads = vec![
        ReadPull::Data(half.clone()),
        ReadPull::Data(half),
        ReadPull::Data(Vec::new()),
    ];

    let result = converter.to_string(ReaderSource { reads }).unwrap();
    assert_eq!(result.len(), 16384);
    assert_eq!(result, payload);
}

#[test]
fn test_buffer_sizes() {
    assert_eq!(StreamConverter::new().buffer_size(), 8192);
    assert_eq!(StreamConverter::default().buffer_size(), 8192);
    assert_eq!(StreamConverter::with_buffer_size(16384).buffer_size(), 16384);
}

#[test]
fn test_error_message() {
    let error = StreamConverterError::IoError(String::from("broken pipe"));
    assert_eq!(error.message(), "broken pipe");
    let error = StreamConverterError::HyperError(String::from("timed out"));
    assert_eq!(error.message(), "timed out");
}
