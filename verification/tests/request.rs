//! Key logs, request headers, chunks and errors of the ICAP request.

use ftp_audit::adaptation::{
    new_adaptation_run_state, FtpAdaptationEndState, FtpAdaptationError, FtpAdaptationErrorKind,
    IcapReqmodParseError,
};
use ftp_audit::body::{
    icap_chunk, icap_last_chunk, BodyWriter, Framing, WriterAction, WriterEvent,
};
use ftp_audit::header::{
    add_client_addr, add_client_username, add_connection_tuple, add_keylog_headers, add_shared,
    add_username_and_token,
};
use ftp_audit::keylog::{TlsKeyLogBuffer, TlsKeyLogEntry, TlsVersion};
use ftp_audit::net::{IpAddr, Ipv4Addr, Ipv6Addr, SocketAddr};
use ftp_audit::reqmod::{
    ConnectionProtocol, ConnectionTuple, IcapReqmodClient, IcapServiceClient, IcapServiceConfig,
};
use std::sync::Arc;

fn entry(n: usize) -> TlsKeyLogEntry {
    TlsKeyLogEntry::new("CLIENT_RANDOM".to_string(), format!("r{}", n), format!("s{}", n))
}

fn v4(a: u8, b: u8, c: u8, d: u8, port: u16) -> SocketAddr {
    SocketAddr::new(IpAddr::V4(Ipv4Addr::new(a, b, c, d)), port)
}

fn client() -> IcapReqmodClient {
    IcapReqmodClient::new(Arc::new(IcapServiceClient {
        config: IcapServiceConfig { bypass: true },
        partial_request_header: b"REQMOD icap://a/b ICAP/1.0\r\n".to_vec(),
    }))
}

#[test]
fn keylog_line_is_read_back() {
    let e = TlsKeyLogEntry::parse("  CLIENT_RANDOM\t00ff \u{2003} abcd  trailing\n").unwrap();
    assert_eq!(e.label, "CLIENT_RANDOM");
    assert_eq!(e.client_random, "00ff");
    assert_eq!(e.secret, "abcd");
    assert_eq!(e.to_keylog_line(), "CLIENT_RANDOM 00ff abcd");
    let again = TlsKeyLogEntry::parse(&e.to_keylog_line()).unwrap();
    assert_eq!(again.to_keylog_line(), e.to_keylog_line());
}

#[test]
fn keylog_lines_that_are_too_short() {
    assert!(TlsKeyLogEntry::parse("").is_none());
    assert!(TlsKeyLogEntry::parse("CLIENT_RANDOM").is_none());
    assert!(TlsKeyLogEntry::parse("CLIENT_RANDOM 00ff ").is_none());
}

#[test]
fn keylog_keeps_the_first_entries() {
    let mut buffer = TlsKeyLogBuffer::new_with_max(2);
    assert!(buffer.is_empty());
    assert!(buffer.add_entry(entry(0)));
    assert!(buffer.add("L".to_string(), "r1".to_string(), "s1".to_string()));
    assert!(!buffer.add_entry(entry(2)));
    assert_eq!(buffer.len(), 2);
    assert_eq!(buffer.client_random(), "r0");
    let lines: Vec<String> = buffer.entries().iter().map(|e| e.to_keylog_line()).collect();
    assert_eq!(lines, ["CLIENT_RANDOM r0 s0", "L r1 s1"]);
    assert_eq!(
        buffer.to_icap_headers(),
        [
            ("X-TLS-CLIENT_RANDOM".to_string(), "r0 s0".to_string()),
            ("X-TLS-L".to_string(), "r1 s1".to_string())
        ]
    );
    buffer.clear();
    assert_eq!(buffer.len(), 0);
    assert!(buffer.add_entry(entry(3)));
}

#[test]
fn keylog_limits() {
    let mut buffer = TlsKeyLogBuffer::new_empty();
    for n in 0..128 {
        assert!(buffer.add_entry(entry(n)));
    }
    assert!(!buffer.add_entry(entry(128)));
    let mut large = TlsKeyLogBuffer::with_max_entries("ignored".to_string(), 1000);
    for n in 0..128 {
        assert!(large.add_entry(entry(n)));
    }
    assert!(!large.add_entry(entry(128)));
    assert_eq!(TlsKeyLogBuffer::new("ignored".to_string()).client_random(), "");
}

#[test]
fn keylog_of_a_connection() {
    let mut buffer = TlsKeyLogBuffer::new_empty();
    assert!(buffer.tls_version().is_none());
    assert_eq!(buffer.cipher_suite(), None);
    assert_eq!(buffer.server_random(), None);
    buffer.set_tls_version(TlsVersion { name: "TLSv1.3" });
    buffer.set_cipher_suite(4865);
    buffer.set_server_random("beef".to_string());
    assert_eq!(buffer.tls_version().unwrap().as_str(), "TLSv1.3");
    assert_eq!(buffer.cipher_suite(), Some(4865));
    assert_eq!(buffer.server_random(), Some("beef".to_string()));

    // Without entries there are no headers.
    let mut out = Vec::new();
    add_keylog_headers(&mut out, &buffer);
    assert!(out.is_empty());

    buffer.add_entry(entry(1));
    add_keylog_headers(&mut out, &buffer);
    assert_eq!(
        String::from_utf8(out).unwrap(),
        "X-TLS-VERSION: TLSv1.3\r\nX-TLS-CIPHER: 4865\r\nX-TLS-SERVER_RANDOM: beef\r\n\
         X-TLS-KeyLog: CLIENT_RANDOM r1 s1\r\n"
    );
}

#[test]
fn headers_of_a_connection() {
    let tuple = ConnectionTuple {
        server_addr: v4(10, 0, 0, 1, 40000),
        remote_addr: SocketAddr::new(
            IpAddr::V6(Ipv6Addr { s0: 0x2001, s1: 0xdb8, s2: 0, s3: 0, s4: 0, s5: 0, s6: 0, s7: 1 }),
            2121,
        ),
        protocol: ConnectionProtocol::Tcp,
    };
    let mut out = b"before\r\n".to_vec();
    add_connection_tuple(&mut out, &tuple);
    assert_eq!(
        String::from_utf8(out).unwrap(),
        "before\r\nX-Proxy-IP: 10.0.0.1\r\nX-Proxy-PORT: 40000\r\nX-Remote-IP: 2001:db8::1\r\n\
         X-Remote-PORT: 2121\r\nX-Proto-P: 6\r\n"
    );
    assert_eq!(ConnectionProtocol::Udp.number(), 17);
}

#[test]
fn headers_of_a_client() {
    let mut out = Vec::new();
    add_client_addr(&mut out, v4(192, 0, 2, 7, 65535));
    assert_eq!(out, b"X-Client-IP: 192.0.2.7\r\nX-Client-Port: 65535\r\n");

    let mut out = Vec::new();
    add_client_username(&mut out, "alice");
    assert_eq!(
        String::from_utf8(out).unwrap(),
        "X-Client-Username: alice\r\nX-Authenticated-User: TG9jYWw6Ly9hbGljZQ==\r\n"
    );

    let mut out = Vec::new();
    add_username_and_token(&mut out, "bob", "dG9rZW4=");
    assert_eq!(out, b"X-Client-Username: bob\r\nX-Authenticated-User: dG9rZW4=\r\n");
}

#[test]
fn shared_headers_keep_their_order() {
    let mut out = Vec::new();
    add_shared(
        &mut out,
        &vec![("X-B".to_string(), b"2".to_vec()), ("X-A".to_string(), b"\xff".to_vec())],
    );
    assert_eq!(out, b"X-B: 2\r\nX-A: \xff\r\n");
    add_shared(&mut out, &Vec::new());
    assert_eq!(out.len(), 16);
}

#[test]
fn client_of_a_service() {
    let c = client();
    assert!(c.bypass());
    assert_eq!(c.service_client().partial_request_header, b"REQMOD icap://a/b ICAP/1.0\r\n");
    assert!(Arc::ptr_eq(c.service_client(), c.ftp_service_client()));
}

#[test]
fn request_headers() {
    let mut adapter = client().ftp_upload_audit_adapter(1024);
    assert_eq!(adapter.read_buffer_size(), 16384);
    let http = adapter.build_http_header("STOR", "/a b.txt");
    let expected = "PUT /a b.txt FTP/1.0\r\nContent-Type: application/octet-stream\r\n\
                    X-FTP-Command: STOR\r\nTransfer-Encoding: chunked\r\n\r\n";
    assert_eq!(String::from_utf8(http.clone()).unwrap(), expected);
    let icap = adapter.build_icap_header(http.len());
    assert_eq!(
        String::from_utf8(icap).unwrap(),
        format!(
            "REQMOD icap://a/b ICAP/1.0\r\nX-Transformed-From: FTP\r\n\
             Encapsulated: req-hdr=0, req-body={}\r\n\r\n",
            expected.len()
        )
    );

    let mut keylog = TlsKeyLogBuffer::new_empty();
    keylog.add_entry(entry(5));
    adapter.set_client_addr(v4(192, 0, 2, 7, 1025));
    adapter.set_connection_tuple(ConnectionTuple {
        server_addr: v4(10, 0, 0, 1, 1),
        remote_addr: v4(10, 0, 0, 2, 2),
        protocol: ConnectionProtocol::Udp,
    });
    adapter.set_keylog_buffer(Arc::new(keylog));
    let mut out = Vec::new();
    adapter.push_extended_headers(&mut out);
    assert_eq!(
        String::from_utf8(out).unwrap(),
        "X-Transformed-From: FTP\r\nX-Client-IP: 192.0.2.7\r\nX-Client-Port: 1025\r\n\
         X-Proxy-IP: 10.0.0.1\r\nX-Proxy-PORT: 1\r\nX-Remote-IP: 10.0.0.2\r\nX-Remote-PORT: 2\r\n\
         X-Proto-P: 17\r\nX-TLS-KeyLog: CLIENT_RANDOM r5 s5\r\n"
    );
    assert_eq!(client().ftp_upload_audit_adapter(65536).read_buffer_size(), 65536);
}

#[test]
fn chunk_sizes_are_hexadecimal() {
    assert_eq!(icap_chunk(b"hello"), b"5\r\nhello\r\n");
    let data = vec![7u8; 100];
    let chunk = icap_chunk(&data);
    assert!(chunk.starts_with(b"64\r\n"));
    assert_eq!(chunk.len(), 4 + 100 + 2);
    assert!(icap_chunk(&vec![0u8; 0xabc]).starts_with(b"abc\r\n"));
    assert_eq!(icap_last_chunk(), b"0\r\n\r\n");
}

/// Reads a body in chunks back.
fn dechunk(mut body: &[u8]) -> Vec<u8> {
    let mut out = Vec::new();
    loop {
        let end = body.windows(2).position(|w| w == b"\r\n").unwrap();
        let size = usize::from_str_radix(std::str::from_utf8(&body[..end]).unwrap(), 16).unwrap();
        body = &body[end + 2..];
        if size == 0 {
            assert_eq!(body, b"\r\n");
            return out;
        }
        out.extend_from_slice(&body[..size]);
        assert_eq!(&body[size..size + 2], b"\r\n");
        body = &body[size + 2..];
    }
}

#[test]
fn writer_of_chunks() {
    let mut writer = BodyWriter::new(Framing::Chunked);
    let mut wire = Vec::new();
    let pieces: [&[u8]; 3] = [b"one", b"\r\n0\r\n\r\n", &[9u8; 300]];
    for piece in pieces {
        match writer.step(WriterEvent::Piece(piece.to_vec())) {
            WriterAction::Write(bytes) => wire.extend(bytes),
            other => panic!("{:?}", other),
        }
        assert!(matches!(writer.step(WriterEvent::Written(true)), WriterAction::Receive));
    }
    match writer.step(WriterEvent::Closed) {
        WriterAction::Close(bytes) => wire.extend(bytes),
        other => panic!("{:?}", other),
    }
    assert!(matches!(writer.step(WriterEvent::Written(true)), WriterAction::Finish(true)));
    assert_eq!(dechunk(&wire), pieces.concat());
}

#[test]
fn writer_that_fails() {
    let mut writer = BodyWriter::new(Framing::Chunked);
    writer.step(WriterEvent::Piece(b"x".to_vec()));
    match writer.step(WriterEvent::Written(false)) {
        WriterAction::Close(bytes) => assert_eq!(bytes, b"0\r\n\r\n"),
        other => panic!("{:?}", other),
    }
    assert!(matches!(writer.step(WriterEvent::Written(true)), WriterAction::Finish(false)));

    let mut writer = BodyWriter::new(Framing::Raw);
    assert!(writer.awaits(&WriterEvent::Piece(vec![1])) && writer.awaits(&WriterEvent::Closed));
    assert!(!writer.awaits(&WriterEvent::Written(true)));
    match writer.step(WriterEvent::Piece(b"raw".to_vec())) {
        WriterAction::Write(bytes) => assert_eq!(bytes, b"raw"),
        other => panic!("{:?}", other),
    }
    writer.step(WriterEvent::Written(true));
    match writer.step(WriterEvent::Closed) {
        WriterAction::Close(bytes) => assert!(bytes.is_empty()),
        other => panic!("{:?}", other),
    }
    assert!(matches!(writer.step(WriterEvent::Written(false)), WriterAction::Finish(false)));
}

#[test]
fn errors_have_classes_and_texts() {
    let cases = [
        (
            FtpAdaptationError::IcapServerWriteFailed("e".to_string()),
            FtpAdaptationErrorKind::IcapWrite,
            "write to icap server failed: e",
        ),
        (
            FtpAdaptationError::IcapServerReadFailed("e".to_string()),
            FtpAdaptationErrorKind::IcapRead,
            "read from icap server failed: e",
        ),
        (
            FtpAdaptationError::IcapServerConnectionClosed,
            FtpAdaptationErrorKind::IcapRead,
            "icap server connection closed",
        ),
        (
            FtpAdaptationError::from(IcapReqmodParseError { text: "p".to_string() }),
            FtpAdaptationErrorKind::IcapRead,
            "invalid response from icap server: p",
        ),
        (
            FtpAdaptationError::FtpClientReadFailed("e".to_string()),
            FtpAdaptationErrorKind::ClientRead,
            "read from ftp client failed: e",
        ),
        (
            FtpAdaptationError::FtpUpstreamWriteFailed("e".to_string()),
            FtpAdaptationErrorKind::UpstreamWrite,
            "write to ftp upstream failed: e",
        ),
        (
            FtpAdaptationError::InternalServerError("s"),
            FtpAdaptationErrorKind::Internal,
            "internal server error: s",
        ),
        (
            FtpAdaptationError::IdleForceQuit,
            FtpAdaptationErrorKind::ForceQuit,
            "force quit from idle checker",
        ),
        (
            FtpAdaptationError::FtpClientReadIdle,
            FtpAdaptationErrorKind::ClientRead,
            "idle while reading from ftp client",
        ),
        (
            FtpAdaptationError::FtpUpstreamWriteIdle,
            FtpAdaptationErrorKind::UpstreamWrite,
            "idle while writing to ftp upstream",
        ),
        (
            FtpAdaptationError::IcapServerReadIdle,
            FtpAdaptationErrorKind::IcapRead,
            "idle while reading from icap server",
        ),
        (
            FtpAdaptationError::IcapServerWriteIdle,
            FtpAdaptationErrorKind::IcapWrite,
            "idle while writing to icap server",
        ),
        (
            FtpAdaptationError::NotImplemented("f"),
            FtpAdaptationErrorKind::Internal,
            "not implemented feature: f",
        ),
    ];
    for (error, kind, text) in cases {
        assert_eq!(error.kind(), kind);
        assert_eq!(error.message(), text);
    }
}

#[test]
fn end_states_tell_their_bytes() {
    let end = FtpAdaptationEndState::AuditOnly {
        icap_status_code: 0,
        icap_reason: String::new(),
        bytes: 5,
    };
    assert_eq!(end.bytes(), 5);
    let end = FtpAdaptationEndState::OriginalTransferredAfterFallback {
        bytes: 6,
        icap_error: "e".to_string(),
    };
    assert_eq!(end.bytes(), 6);
    let run = new_adaptation_run_state(77);
    assert_eq!(run.created, 77);
    assert!(!run.clt_read_finished);
}
