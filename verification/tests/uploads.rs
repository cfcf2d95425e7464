//! The transfer of a file, the copies of data channels, and the marks of uploads.

use ftp_audit::adaptation::{new_adaptation_run_state, FtpAdaptationEndState, FtpUploadAdapter};
use ftp_audit::audit::{
    data_channel_tuple, run_ftp_upload_audit_or_relay, run_ftp_upload_audit_or_relay_bidi,
    upload_auditor, FtpUploadAuditContext, UploadRoute,
};
use ftp_audit::copy::{ByteRelay, CopyAction, CopyEnding, CopyEvent};
use ftp_audit::data_channel::{check_ftp_upload_data, get_ftps_domain};
use ftp_audit::net::{IpAddr, Ipv4Addr, SocketAddr};
use ftp_audit::pairs::{ClientServerPair, PairTable};
use ftp_audit::reqmod::{
    ConnectionProtocol, IcapReqmodClient, IcapServiceClient, IcapServiceConfig,
};
use ftp_audit::transfer::{
    FtpUploadTransfer, OfferOutcome, TransferAction, TransferEvent, ICAP_CHANNEL_CAPACITY,
    UPSTREAM_CHANNEL_CAPACITY,
};
use ftp_audit::upload_state::FtpUploadState;
use std::sync::Arc;

const SECOND: u128 = 1_000_000_000;

fn ip(n: u8) -> IpAddr {
    IpAddr::V4(Ipv4Addr::new(192, 0, 2, n))
}

fn client() -> Arc<IcapReqmodClient> {
    Arc::new(IcapReqmodClient::new(Arc::new(IcapServiceClient {
        config: IcapServiceConfig { bypass: false },
        partial_request_header: b"REQMOD / ICAP/1.0\r\n".to_vec(),
    })))
}

fn adapter() -> FtpUploadAdapter {
    client().ftp_upload_audit_adapter(0)
}

fn step(t: &mut FtpUploadTransfer, event: TransferEvent) -> TransferAction {
    assert!(t.awaits(&event));
    t.step(event)
}

fn audited() -> FtpUploadTransfer {
    let (mut t, first) = adapter().audit_and_forward(new_adaptation_run_state(0), "STOR", "/f");
    match first {
        TransferAction::SendHeaders { icap_header, http_header } => {
            assert!(icap_header.starts_with(b"REQMOD / ICAP/1.0\r\nX-Transformed-From: FTP\r\n"));
            assert!(http_header.starts_with(b"PUT /f FTP/1.0\r\n"));
        }
        other => panic!("{:?}", other),
    }
    assert!(matches!(step(&mut t, TransferEvent::HeadersSent(None)), TransferAction::Read));
    t
}

/// Sends a piece and tells whether it was offered to the ICAP service.
fn send(t: &mut FtpUploadTransfer, piece: &[u8], outcome: OfferOutcome) -> bool {
    match step(t, TransferEvent::Read(piece.to_vec())) {
        TransferAction::QueueUpstream(bytes) => assert_eq!(bytes, piece),
        other => panic!("{:?}", other),
    }
    match step(t, TransferEvent::Sent(true)) {
        TransferAction::OfferAudit(bytes) => {
            assert_eq!(bytes, piece);
            assert!(matches!(step(t, TransferEvent::Offered(outcome)), TransferAction::Read));
            true
        }
        TransferAction::Read => false,
        other => panic!("{:?}", other),
    }
}

#[test]
fn upload_that_is_audited() {
    let mut t = audited();
    assert!(send(&mut t, b"abc", OfferOutcome::Queued));
    assert!(send(&mut t, b"defg", OfferOutcome::Queued));
    assert!(!t.run_state().clt_read_finished);
    assert!(matches!(
        step(&mut t, TransferEvent::Read(Vec::new())),
        TransferAction::CloseWriters
    ));
    assert!(t.run_state().clt_read_finished);
    match step(&mut t, TransferEvent::Closed(true)) {
        TransferAction::Finish(FtpAdaptationEndState::OriginalTransferred {
            icap_status_code,
            icap_reason,
            bytes,
        }) => {
            assert_eq!((icap_status_code, icap_reason.as_str(), bytes), (0, "", 7));
        }
        other => panic!("{:?}", other),
    }
    assert_eq!((UPSTREAM_CHANNEL_CAPACITY, ICAP_CHANNEL_CAPACITY), (256, 1024));
}

fn fallback(t: &mut FtpUploadTransfer, written: bool) -> (u64, String) {
    match step(t, TransferEvent::Closed(written)) {
        TransferAction::Finish(FtpAdaptationEndState::OriginalTransferredAfterFallback {
            bytes,
            icap_error,
        }) => (bytes, icap_error),
        other => panic!("{:?}", other),
    }
}

#[test]
fn upload_goes_on_when_the_auditor_is_lost() {
    let mut t = audited();
    assert!(send(&mut t, b"abc", OfferOutcome::Full));
    assert!(!send(&mut t, b"def", OfferOutcome::Queued));
    step(&mut t, TransferEvent::ReadFailed);
    assert_eq!(fallback(&mut t, true), (6, "icap server too slow".to_string()));

    let mut t = audited();
    assert!(send(&mut t, b"abc", OfferOutcome::Disconnected));
    assert!(!send(&mut t, b"def", OfferOutcome::Queued));
    step(&mut t, TransferEvent::Read(Vec::new()));
    assert_eq!(fallback(&mut t, true), (6, "icap writer closed".to_string()));

    let mut t = audited();
    assert!(send(&mut t, b"abc", OfferOutcome::Queued));
    step(&mut t, TransferEvent::Read(Vec::new()));
    assert_eq!(fallback(&mut t, false), (3, "icap body write failed".to_string()));
}

#[test]
fn upload_without_an_auditor_from_the_start() {
    let (mut t, _) = adapter().audit_and_forward(new_adaptation_run_state(0), "STOR", "/f");
    let failure = TransferEvent::HeadersSent(Some("broken pipe".to_string()));
    assert!(matches!(step(&mut t, failure), TransferAction::Read));
    match step(&mut t, TransferEvent::Read(b"abc".to_vec())) {
        TransferAction::WriteUpstream(bytes) => assert_eq!(bytes, b"abc"),
        other => panic!("{:?}", other),
    }
    assert!(matches!(step(&mut t, TransferEvent::Sent(true)), TransferAction::Read));
    assert!(matches!(
        step(&mut t, TransferEvent::Read(Vec::new())),
        TransferAction::CloseUpstream
    ));
    assert_eq!(
        fallback(&mut t, true),
        (3, "icap header write failed: broken pipe".to_string())
    );
    assert!(t.run_state().clt_read_finished);
}

#[test]
fn upload_ends_with_the_ftp_server() {
    let mut t = audited();
    step(&mut t, TransferEvent::Read(b"abc".to_vec()));
    assert!(matches!(step(&mut t, TransferEvent::Sent(false)), TransferAction::CloseWriters));
    match step(&mut t, TransferEvent::Closed(true)) {
        TransferAction::Finish(end) => assert_eq!(end.bytes(), 3),
        other => panic!("{:?}", other),
    }
}

#[test]
fn idle_policy_decides() {
    let mut t = audited();
    assert!(matches!(step(&mut t, TransferEvent::Tick), TransferAction::CheckQuit(1)));
    assert!(matches!(step(&mut t, TransferEvent::Quit(false)), TransferAction::Read));
    assert!(matches!(step(&mut t, TransferEvent::Tick), TransferAction::CheckQuit(2)));
    step(&mut t, TransferEvent::Quit(false));
    send(&mut t, b"x", OfferOutcome::Queued);
    assert!(matches!(step(&mut t, TransferEvent::Tick), TransferAction::CheckQuit(1)));
    assert!(matches!(step(&mut t, TransferEvent::Quit(true)), TransferAction::CloseWriters));
}

#[test]
fn audit_without_forwarding() {
    let (mut t, _) = adapter().audit_only(new_adaptation_run_state(0), "STOR", "/f");
    step(&mut t, TransferEvent::HeadersSent(None));
    match step(&mut t, TransferEvent::Read(b"abc".to_vec())) {
        TransferAction::OfferAudit(bytes) => assert_eq!(bytes, b"abc"),
        other => panic!("{:?}", other),
    }
    step(&mut t, TransferEvent::Offered(OfferOutcome::Full));
    assert!(matches!(
        step(&mut t, TransferEvent::Read(b"de".to_vec())),
        TransferAction::Read
    ));
    step(&mut t, TransferEvent::Read(Vec::new()));
    match step(&mut t, TransferEvent::Closed(false)) {
        TransferAction::Finish(FtpAdaptationEndState::AuditOnly { bytes, .. }) => {
            assert_eq!(bytes, 5)
        }
        other => panic!("{:?}", other),
    }

    let (mut t, _) = adapter().audit_only(new_adaptation_run_state(0), "STOR", "/f");
    let failure = TransferEvent::HeadersSent(Some("x".to_string()));
    assert!(matches!(step(&mut t, failure), TransferAction::Drain));
    assert!(!t.awaits(&TransferEvent::Tick));
    step(&mut t, TransferEvent::Read(b"abcd".to_vec()));
    match step(&mut t, TransferEvent::Read(Vec::new())) {
        TransferAction::Finish(FtpAdaptationEndState::OriginalTransferredAfterFallback {
            bytes,
            icap_error,
        }) => assert_eq!((bytes, icap_error.as_str()), (4, "icap header write failed")),
        other => panic!("{:?}", other),
    }
    assert!(!t.run_state().clt_read_finished);
}

fn copy(c: &mut ByteRelay, event: CopyEvent) -> CopyAction {
    assert!(c.awaits(&event));
    c.step(event)
}

#[test]
fn copy_counts_what_was_written() {
    let mut c = ByteRelay::raw_forward();
    assert!(!c.awaits(&CopyEvent::Tick));
    match copy(&mut c, CopyEvent::Read(b"abc".to_vec())) {
        CopyAction::Write(bytes) => assert_eq!(bytes, b"abc"),
        other => panic!("{:?}", other),
    }
    assert!(matches!(copy(&mut c, CopyEvent::Written(true)), CopyAction::Read));
    copy(&mut c, CopyEvent::Read(b"de".to_vec()));
    assert!(matches!(copy(&mut c, CopyEvent::Written(false)), CopyAction::Finish(3)));

    let mut c = ByteRelay::raw_forward();
    copy(&mut c, CopyEvent::Read(b"abc".to_vec()));
    copy(&mut c, CopyEvent::Written(true));
    assert!(matches!(
        copy(&mut c, CopyEvent::Read(Vec::new())),
        CopyAction::Close(CopyEnding::FlushAtEnd)
    ));
    assert!(matches!(copy(&mut c, CopyEvent::Closed), CopyAction::Finish(3)));
}

#[test]
fn copy_ends_when_idle() {
    let mut c = ByteRelay::raw_forward_with_idle(2);
    assert!(matches!(copy(&mut c, CopyEvent::Tick), CopyAction::Read));
    copy(&mut c, CopyEvent::Read(b"x".to_vec()));
    copy(&mut c, CopyEvent::Written(true));
    assert!(matches!(copy(&mut c, CopyEvent::Tick), CopyAction::Read));
    assert!(matches!(copy(&mut c, CopyEvent::Tick), CopyAction::Finish(1)));
}

#[test]
fn copies_are_closed_as_they_are_used() {
    let mut c = ByteRelay::bidi_half_relay_with_idle(1);
    assert!(matches!(
        copy(&mut c, CopyEvent::Tick),
        CopyAction::Close(CopyEnding::Shutdown)
    ));
    assert!(matches!(copy(&mut c, CopyEvent::Closed), CopyAction::Finish(0)));
    let mut c = ByteRelay::drain_and_close_half();
    assert!(matches!(
        copy(&mut c, CopyEvent::ReadFailed),
        CopyAction::Close(CopyEnding::Flush)
    ));
    let mut c = ByteRelay::download(5);
    copy(&mut c, CopyEvent::Read(b"x".to_vec()));
    assert!(matches!(
        copy(&mut c, CopyEvent::Written(false)),
        CopyAction::Close(CopyEnding::ShutdownBoth)
    ));
}

#[test]
fn copy_is_closed_once_behind_its_last_byte() {
    let mut c = ByteRelay::download(2);
    let mut closes = 0;
    let mut written = Vec::new();
    for event in [
        CopyEvent::Read(b"ab".to_vec()),
        CopyEvent::Written(true),
        CopyEvent::Tick,
        CopyEvent::Read(b"c".to_vec()),
        CopyEvent::Written(true),
        CopyEvent::ReadFailed,
        CopyEvent::Closed,
    ] {
        match copy(&mut c, event) {
            CopyAction::Write(bytes) => {
                assert_eq!(closes, 0);
                written.extend(bytes);
            }
            CopyAction::Close(_) => closes += 1,
            CopyAction::Finish(total) => assert_eq!(total, 3),
            CopyAction::Read => {}
        }
    }
    assert_eq!(closes, 1);
    assert_eq!(written, b"abc");
    assert!(!c.awaits(&CopyEvent::Closed) && !c.awaits(&CopyEvent::Read(Vec::new())));
}

#[test]
fn uploads_are_audited_where_there_is_an_auditor() {
    let own = SocketAddr::new(ip(1), 40000);
    let server = SocketAddr::new(ip(2), 2121);
    let tuple = data_channel_tuple(Some(own), server);
    assert_eq!((tuple.server_addr, tuple.remote_addr), (own, server));
    assert_eq!(tuple.protocol, ConnectionProtocol::Tcp);
    assert_eq!(data_channel_tuple(None, server).server_addr, server);

    let ctx = FtpUploadAuditContext {
        icap_client: client(),
        copy_buffer_size: 32768,
        client_addr: Some(SocketAddr::new(ip(9), 1)),
        ftp_command: "APPE".to_string(),
        ftp_path: "p".to_string(),
        data_channel_tuple: Some(tuple),
        keylog_buffer: None,
    };
    let adapter = ctx.adapter();
    assert_eq!(adapter.client_addr, ctx.client_addr);
    assert_eq!(adapter.connection_tuple, ctx.data_channel_tuple);
    assert_eq!(adapter.read_buffer_size(), 32768);
    let (t, first) = ctx.begin(9);
    assert_eq!(t.run_state().created, 9);
    match first {
        TransferAction::SendHeaders { icap_header, http_header } => {
            let text = String::from_utf8(icap_header).unwrap();
            assert!(text.contains("X-Client-IP: 192.0.2.9\r\n"));
            assert!(text.contains("X-Remote-PORT: 2121\r\n"));
            let http = String::from_utf8(http_header).unwrap();
            assert!(http.contains("X-FTP-Command: APPE\r\n"));
        }
        other => panic!("{:?}", other),
    }
    assert!(matches!(
        run_ftp_upload_audit_or_relay_bidi(Some(ctx), 3),
        (UploadRoute::Audited(_), _)
    ));
    match run_ftp_upload_audit_or_relay(None, 3) {
        UploadRoute::Plain(relay) => assert_eq!(relay, ByteRelay::raw_forward_with_idle(3)),
        other => panic!("{:?}", other),
    }
    match run_ftp_upload_audit_or_relay_bidi(None, 3) {
        (UploadRoute::Plain(up), down) => {
            assert_eq!(up, ByteRelay::bidi_half_relay_with_idle(3));
            assert_eq!(down, up);
        }
        other => panic!("{:?}", other),
    }
    assert!(upload_auditor(true, Some(client())).is_some());
    assert!(upload_auditor(false, Some(client())).is_none());
    assert!(upload_auditor(true, None).is_none());
}

#[test]
fn table_by_pairs() {
    let key = |n: u8| ClientServerPair { client: ip(n), server: ip(0) };
    let mut table: PairTable<u8> = PairTable::new();
    for n in 0..5 {
        table.insert(key(n), n);
    }
    table.insert(key(1), 11);
    assert_eq!(table.len(), 5);
    assert_eq!(table.get(key(1)), Some(&11));
    assert_eq!(table.remove(key(0)), Some(0));
    assert_eq!(table.remove(key(0)), None);
    assert_eq!(table.get(key(4)), Some(&4));
    let mut left = Vec::new();
    while let Some((_, v)) = table.pop() {
        left.push(v);
    }
    left.sort();
    assert_eq!(left, [2, 3, 4, 11]);
}

fn paths(state: &mut FtpUploadState, now: u128) -> Vec<String> {
    let mut out = Vec::new();
    while let Some(u) = state.consume_upload(ip(1), ip(2), now) {
        out.push(u.ftp_path);
    }
    out
}

#[test]
fn uploads_come_back_in_order() {
    let mut state = FtpUploadState::new();
    for name in ["a", "b", "c"] {
        state.mark_upload(ip(1), ip(2), "STOR", name, 0, 5);
    }
    state.mark_upload(ip(1), ip(3), "APPE", "other", 0, 5);
    let first = check_ftp_upload_data(
        &mut state,
        SocketAddr::new(ip(1), 1),
        SocketAddr::new(ip(2), 2),
        6,
    )
    .unwrap();
    assert_eq!((first.ftp_command.as_str(), first.ftp_path.as_str()), ("STOR", "a"));
    assert_eq!(first.created_at, 5);
    assert_eq!(paths(&mut state, 6), ["b", "c"]);
    assert!(state.consume_upload(ip(2), ip(1), 6).is_none());
    assert_eq!(state.consume_upload(ip(1), ip(3), 6).unwrap().ftp_command, "APPE");
}

#[test]
fn uploads_marked_at_different_times_come_back_in_order() {
    let mut state = FtpUploadState::new();
    for (n, name) in ["a", "b", "c", "d"].into_iter().enumerate() {
        state.mark_upload(ip(1), ip(2), "STOR", name, 0, 30 * n as u128 * SECOND);
    }
    assert_eq!(paths(&mut state, 119 * SECOND), ["a", "b", "c", "d"]);
}

#[test]
fn too_many_uploads_wait() {
    let mut state = FtpUploadState::new();
    for n in 0..20 {
        state.mark_upload(ip(1), ip(2), "STOR", &format!("{}", n), 0, 0);
    }
    assert_eq!(paths(&mut state, 0).len(), 16);
}

#[test]
fn uploads_expire() {
    let mut state = FtpUploadState::new();
    state.mark_upload(ip(1), ip(2), "STOR", "old", 0, 0);
    state.mark_upload(ip(1), ip(2), "STOR", "new", 0, SECOND);
    assert_eq!(paths(&mut state, 120 * SECOND), ["new"]);
    state.mark_upload(ip(1), ip(2), "STOR", "again", 0, 10 * SECOND);
    // A clock that stands behind a mark does not expire it.
    assert_eq!(paths(&mut state, 0), ["again"]);
    state.mark_upload(ip(1), ip(2), "STOR", "late", 0, 0);
    assert!(paths(&mut state, 121 * SECOND).is_empty());
}

#[test]
fn domains_are_remembered_for_an_hour() {
    let mut state = FtpUploadState::new();
    let (c, s) = (SocketAddr::new(ip(1), 1), SocketAddr::new(ip(2), 2));
    state.mark_ftps_domain(ip(1), ip(2), "ftp.example.net", 0);
    assert_eq!(
        get_ftps_domain(&mut state, c, s, 3600 * SECOND - 1),
        Some("ftp.example.net".to_string())
    );
    assert_eq!(get_ftps_domain(&mut state, c, s, 3600 * SECOND), None);
    state.mark_ftps_domain(ip(1), ip(2), "other.example.net", 3600 * SECOND);
    assert_eq!(
        state.get_ftps_domain(ip(1), ip(2), 3600 * SECOND),
        Some("other.example.net".to_string())
    );
    assert_eq!(state.get_ftps_domain(ip(2), ip(1), 0), None);
}

#[test]
fn too_many_domains() {
    let mut state = FtpUploadState::new();
    let server = |n: u16| IpAddr::V4(Ipv4Addr::new(10, 0, (n >> 8) as u8, n as u8));
    for n in 0..4097u16 {
        state.mark_ftps_domain(ip(1), server(n), "d", 0);
    }
    assert!(state.get_ftps_domain(ip(1), server(4095), 1).is_some());
    assert!(state.get_ftps_domain(ip(1), server(4096), 1).is_none());
    // A domain that is remembered can be replaced.
    state.mark_ftps_domain(ip(1), server(7), "e", 1);
    assert_eq!(state.get_ftps_domain(ip(1), server(7), 1), Some("e".to_string()));
}

#[test]
fn cleanup_is_not_seen() {
    let mut state = FtpUploadState::new();
    state.mark_upload(ip(1), ip(2), "STOR", "old", 0, 0);
    state.mark_ftps_domain(ip(1), ip(2), "d", 0);
    let later = 200 * SECOND;
    for _ in 0..1100 {
        assert_eq!(state.get_ftps_domain(ip(1), ip(2), later), Some("d".to_string()));
    }
    state.mark_upload(ip(1), ip(2), "STOR", "new", 0, later);
    assert_eq!(paths(&mut state, later), ["new"]);
}
