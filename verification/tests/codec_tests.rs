use neogrok::compress::{decompress_checked, maybe_compress, DecompressError, ZStdParams};
use neogrok::frame::{NFrame, TransportProtocol};
use neogrok::reader::CodecReader;
use neogrok::wire::{pack_type, DECOMPRESS_ERR, FORWARD, TOO_LONG, UNKNOWN_PKT};
use neogrok::writer::CodecWriter;

fn writer_without_compression() -> CodecWriter {
    // A threshold beyond any test payload: every forward goes uncompressed.
    CodecWriter::new(3, 50, usize::MAX)
}

fn assert_round_trip(bytes: Vec<u8>, reader: &CodecReader, expected: &NFrame) {
    let (frame, end) = reader.read_frame(&bytes, 0).expect("whole frame expected");
    assert!(frame == *expected, "decoded {:?}, expected {:?}", frame, expected);
    assert_eq!(end, bytes.len());
}

#[test]
fn round_trip_ping_and_pong() {
    let w = writer_without_compression();
    let server = CodecReader::server(4096);
    let client = CodecReader::client();
    assert_round_trip(w.write_ping_request(), &server, &NFrame::Ping);
    let name = b"relay-1".to_vec();
    assert_round_trip(
        w.write_ping_response(&name),
        &client,
        &NFrame::PingResponse { name: b"relay-1".to_vec() },
    );
}

#[test]
fn round_trip_authorize() {
    let w = writer_without_compression();
    let server = CodecReader::server(4096);
    let magic = b"open-sesame".to_vec();
    assert_round_trip(
        w.write_authorize(&magic),
        &server,
        &NFrame::Authorize { magic: b"open-sesame".to_vec() },
    );
}

#[test]
fn round_trip_sync_frames() {
    let w = writer_without_compression();
    let server = CodecReader::server(4096);
    let client = CodecReader::client();
    assert_round_trip(w.write_sync_request(), &server, &NFrame::Sync);
    assert_round_trip(
        w.write_sync_response(10, 50, 4096),
        &client,
        &NFrame::SyncResponse { threshold: 4096, level: 10, profit: 50 },
    );
}

#[test]
fn round_trip_connect_disconnect_boundary_widths() {
    let w = writer_without_compression();
    let server = CodecReader::server(4096);
    for id in [0u16, 1, 255, 256, 65535] {
        let bytes = w.write_connect(id);
        // A connection id of exactly 255 encodes short; 256 encodes wide.
        assert_eq!(bytes.len(), if id <= 255 { 2 } else { 3 });
        assert_round_trip(bytes, &server, &NFrame::Connect { id });
        assert_round_trip(w.write_disconnect(id), &server, &NFrame::Disconnect { id });
    }
}

#[test]
fn round_trip_error_and_rights() {
    let w = writer_without_compression();
    let client = CodecReader::client();
    assert_round_trip(w.write_error(TOO_LONG), &client, &NFrame::Error { code: TOO_LONG });
    assert_round_trip(
        w.write_update_rights(0b0100_0010),
        &client,
        &NFrame::RightsUpdate { rights: 0b0100_0010 },
    );
}

#[test]
fn round_trip_server_request_forms() {
    let w = writer_without_compression();
    let server = CodecReader::server(4096);
    let cases = [
        (TransportProtocol::Tcp, 0u16, 1usize),
        (TransportProtocol::Tcp, 8080, 3),
        (TransportProtocol::Udp, 0, 2),
        (TransportProtocol::Http, 8080, 4),
    ];
    for (protocol, port, expected_len) in cases {
        let bytes = w.write_request_server(protocol, port);
        assert_eq!(bytes.len(), expected_len);
        assert_round_trip(bytes, &server, &NFrame::Server { protocol, port });
    }
}

#[test]
fn round_trip_server_response() {
    let w = writer_without_compression();
    let client = CodecReader::client();
    let host = b"0.0.0.0".to_vec();
    assert_round_trip(
        w.write_server_response(&host, 41234),
        &client,
        &NFrame::ServerResponse { host: b"0.0.0.0".to_vec(), port: 41234 },
    );
    assert_round_trip(
        w.write_port(41234),
        &client,
        &NFrame::ServerResponse { host: Vec::new(), port: 41234 },
    );
}

#[test]
fn round_trip_forward_uncompressed_boundary_lengths() {
    let w = writer_without_compression();
    let server = CodecReader::server(70000);
    for len in [0usize, 1, 255, 256, 4096] {
        let payload: Vec<u8> = (0..len).map(|i| (i % 251) as u8).collect();
        let bytes = w.write_forward(7, payload.clone());
        // A payload length of exactly 255 encodes short; 256 wide.
        let id_width = 1;
        let len_width = if len <= 255 { 1 } else { 2 };
        assert_eq!(bytes.len(), 1 + id_width + len_width + len);
        assert_round_trip(bytes, &server, &NFrame::Forward { id: 7, buffer: payload });
    }
}

#[test]
fn round_trip_forward_compressed() {
    let w = CodecWriter::new(3, 50, 16);
    let server = CodecReader::server(4096);
    let payload = vec![0x41u8; 2048];
    let bytes = w.write_forward(300, payload.clone());
    // Highly repetitive data compresses, so the frame is much shorter than
    // the payload.
    assert!(bytes.len() < payload.len() / 2);
    assert_round_trip(bytes, &server, &NFrame::Forward { id: 300, buffer: payload });
}

#[test]
fn forward_below_threshold_stays_raw() {
    let w = CodecWriter::new(3, 50, 1000);
    let payload = vec![0x41u8; 100];
    let bytes = w.write_forward(1, payload.clone());
    assert_eq!(bytes.len(), 1 + 1 + 1 + 100);
}

#[test]
fn oversized_forward_becomes_too_long_error() {
    let w = writer_without_compression();
    let small = CodecReader::server(10);
    let payload = vec![1u8; 100];
    let bytes = w.write_forward(1, payload);
    let (frame, end) = small.read_frame(&bytes, 0).unwrap();
    assert!(frame == NFrame::Error { code: TOO_LONG });
    // The whole frame is consumed, so the stream stays aligned.
    assert_eq!(end, bytes.len());
}

#[test]
fn oversized_declared_size_becomes_too_long_error() {
    // The compressed frame itself is small, but it declares 2048 bytes of
    // content: a reader with a smaller limit must reject it before
    // decompressing.
    let w = CodecWriter::new(3, 50, 16);
    let small = CodecReader::server(100);
    let bytes = w.write_forward(1, vec![0u8; 2048]);
    let (frame, end) = small.read_frame(&bytes, 0).unwrap();
    assert!(frame == NFrame::Error { code: TOO_LONG });
    assert_eq!(end, bytes.len());
}

#[test]
fn corrupt_compressed_payload_becomes_decompress_error() {
    let w = CodecWriter::new(3, 50, 16);
    let server = CodecReader::server(4096);
    let payload: Vec<u8> = (0..2048).map(|i| (i % 64) as u8).collect();
    let mut bytes = w.write_forward(1, payload);
    // Cut the compressed payload short but fix up the declared length, so
    // the envelope still reads as a zstd frame with a known content size.
    let cut = 6;
    let old_len = bytes.len();
    bytes.truncate(old_len - cut);
    // header[0], id (short), then the one-byte length field.
    bytes[2] -= cut as u8;
    let (frame, _) = server.read_frame(&bytes, 0).unwrap();
    assert!(frame == NFrame::Error { code: DECOMPRESS_ERR });
}

#[test]
fn unknown_ordinal_becomes_unknown_packet_error() {
    let client = CodecReader::client();
    let bytes = vec![pack_type(20, 0)];
    let (frame, end) = client.read_frame(&bytes, 0).unwrap();
    assert!(frame == NFrame::Error { code: UNKNOWN_PKT });
    assert_eq!(end, 1);
}

#[test]
fn truncated_frames_ask_for_more_bytes() {
    let w = writer_without_compression();
    let server = CodecReader::server(4096);
    let full = w.write_forward(300, vec![9u8; 600]);
    for cut in 1..full.len() {
        let partial = full[..cut].to_vec();
        assert!(server.read_frame(&partial, 0).is_none(), "cut at {} decoded", cut);
    }
    assert!(server.read_frame(&Vec::new(), 0).is_none());
}

#[test]
fn frames_parse_in_sequence() {
    let w = writer_without_compression();
    let server = CodecReader::server(4096);
    let mut stream = w.write_ping_request();
    stream.extend_from_slice(&w.write_connect(1));
    stream.extend_from_slice(&w.write_forward(1, b"GET / ".to_vec()));
    let (f1, p1) = server.read_frame(&stream, 0).unwrap();
    assert!(f1 == NFrame::Ping);
    let (f2, p2) = server.read_frame(&stream, p1).unwrap();
    assert!(f2 == NFrame::Connect { id: 1 });
    let (f3, p3) = server.read_frame(&stream, p2).unwrap();
    assert!(f3 == NFrame::Forward { id: 1, buffer: b"GET / ".to_vec() });
    assert_eq!(p3, stream.len());
}

#[test]
fn forward_ordinal_is_canonical() {
    let w = writer_without_compression();
    let bytes = w.write_forward(1, Vec::new());
    assert_eq!(bytes[0] >> 3, FORWARD);
}

#[test]
fn profit_thresholds_decide_compression() {
    // A five-percent profit requirement: a four-percent reduction is not
    // worth sending compressed, a ten-percent reduction is.
    let params = ZStdParams { threshold: 0, level: 3, profit: 50 };
    assert!(!params.enough_profit(1000, 960));
    assert!(params.enough_profit(1000, 900));
    assert!(!params.enough_profit(1000, 1000));
    assert!(!params.enough_profit(0, 0));
    // Exactly five percent is enough.
    assert!(params.enough_profit(1000, 950));
}

#[test]
fn maybe_compress_honors_threshold_and_shrinks() {
    let params = ZStdParams { threshold: 64, level: 3, profit: 50 };
    let short = vec![7u8; 63];
    assert!(maybe_compress(&short, &params).is_none());

    let long = vec![7u8; 4096];
    let compressed = maybe_compress(&long, &params).expect("repetitive data must compress");
    assert!(compressed.len() < long.len());
    // It must really be the compressed form, not the payload handed back.
    assert_ne!(compressed, long);
    let back = decompress_checked(&compressed, 4096).unwrap();
    assert_eq!(back, long);
}

#[test]
fn maybe_compress_rejects_incompressible_data() {
    // A pseudo-random buffer does not shrink by five percent.
    let params = ZStdParams { threshold: 0, level: 3, profit: 50 };
    let mut noise: Vec<u8> = Vec::with_capacity(4096);
    let mut x: u32 = 0x12345678;
    for _ in 0..4096 {
        x = x.wrapping_mul(1664525).wrapping_add(1013904223);
        noise.push((x >> 24) as u8);
    }
    assert!(maybe_compress(&noise, &params).is_none());
}

#[test]
fn decompress_checked_rejects_oversized_declared_size() {
    let params = ZStdParams { threshold: 0, level: 3, profit: 1 };
    let payload = vec![3u8; 2048];
    let compressed = maybe_compress(&payload, &params).unwrap();
    // The declared size is 2048: any smaller limit rejects the payload,
    // even though the bytes themselves are a valid frame.
    assert_eq!(decompress_checked(&compressed, 2047), Err(DecompressError::TooLong));
    assert_eq!(decompress_checked(&compressed, 100), Err(DecompressError::TooLong));
    assert_eq!(decompress_checked(&compressed, 2048).unwrap(), payload);
}

#[test]
fn decompress_checked_rejects_garbage() {
    let garbage = vec![0xAAu8; 64];
    assert!(decompress_checked(&garbage, 4096).is_err());
}
