//! The relays of control channels, and channels of which little is known.

use ftp_audit::config::{ConfigDefaults, FtpProxyServerConfig, TlsUpstream, TlsUpstreamType};
use ftp_audit::control::{
    ControlAction, ControlEvent, ControlRelay, Listener, RelayMode, Transfer,
};
use ftp_audit::data_channel::{
    found_upload_context, DataChannelPlan, FtpUploadDataInterceptObject, PendingAction,
    PendingChannel, PendingEnd, PendingEvent,
};
use ftp_audit::net::{IpAddr, Ipv4Addr, SocketAddr};
use ftp_audit::reqmod::{IcapReqmodClient, IcapServiceClient, IcapServiceConfig};
use ftp_audit::stats::FtpProxyServerStats;
use ftp_audit::task::{
    build_audit_context, CommonTaskContext, ConnectRoute, ExplicitTls, FtpOverConnectBridge,
    FtpProxyTask, TlsAction, TlsEvent,
};
use ftp_audit::tunnel::{
    max_idle_of, FtpInterceptObject, ProtocolInspectAction, ServerTaskError, TunnelAction,
    TunnelEnd, TunnelEvent, TunnelRelay,
};
use ftp_audit::upload_state::PendingUploadInfo;
use std::sync::Arc;

const PERIOD: u128 = 60_000_000_000;

const PASV_REPLY: &[u8] = b"227 Entering Passive Mode (10,0,0,9,4,1)\r\n";

fn ip4(n: u8) -> Ipv4Addr {
    Ipv4Addr::new(10, 0, 0, n)
}

fn addr(n: u8, port: u16) -> SocketAddr {
    SocketAddr::new(IpAddr::V4(ip4(n)), port)
}

fn native(max_idle_count: usize) -> ControlRelay {
    let (mut relay, first) = ControlRelay::start(RelayMode::Native { max_idle_count }, ip4(1));
    assert!(matches!(first, ControlAction::ReadReply));
    assert!(matches!(step(&mut relay, ControlEvent::Reply(None)), ControlAction::Wait));
    relay
}

fn bridge() -> ControlRelay {
    let (relay, first) = ControlRelay::start(RelayMode::Bridge, ip4(1));
    assert!(matches!(first, ControlAction::Wait));
    relay
}

fn step(relay: &mut ControlRelay, event: ControlEvent) -> ControlAction {
    assert!(relay.awaits(&event));
    relay.step(event)
}

fn line(relay: &mut ControlRelay, text: &[u8]) {
    match step(relay, ControlEvent::Client(text.to_vec())) {
        ControlAction::SendServer(bytes) => assert_eq!(bytes, text),
        other => panic!("{:?}", other),
    }
}

fn reply(relay: &mut ControlRelay, text: &[u8]) -> ControlAction {
    step(relay, ControlEvent::Reply(Some(text.to_vec())))
}

fn told(action: ControlAction) -> Vec<u8> {
    match action {
        ControlAction::SendClient(bytes) => bytes,
        other => panic!("{:?}", other),
    }
}

fn passive(relay: &mut ControlRelay, listener: Listener) -> Vec<u8> {
    line(relay, b"PASV\r\n");
    assert!(matches!(step(relay, ControlEvent::Sent(true)), ControlAction::ReadReply));
    assert!(matches!(reply(relay, PASV_REPLY), ControlAction::OpenListener));
    let bytes = told(step(relay, ControlEvent::Opened(listener)));
    assert!(matches!(step(relay, ControlEvent::Sent(true)), ControlAction::Wait));
    bytes
}

#[test]
fn greeting_comes_first() {
    let (mut relay, _) =
        ControlRelay::start(RelayMode::Native { max_idle_count: 3 }, Ipv4Addr::unspecified());
    let greeting = ControlEvent::Reply(Some(b"220 hi\r\n".to_vec()));
    assert_eq!(relay.count(&greeting), (0, 8));
    assert_eq!(told(step(&mut relay, greeting)), b"220 hi\r\n");
    // A greeting that cannot be passed on ends nothing.
    assert!(matches!(step(&mut relay, ControlEvent::Sent(false)), ControlAction::Wait));
}

#[test]
fn lines_and_bytes_pass_as_they_are() {
    let mut relay = native(3);
    let noop = ControlEvent::Client(b"NOOP\r\n".to_vec());
    assert_eq!(relay.count(&noop), (6, 0));
    line(&mut relay, b"NOOP\r\n");
    assert!(matches!(step(&mut relay, ControlEvent::Sent(true)), ControlAction::Wait));
    let bytes = ControlEvent::Server(b"200 ok\r\n".to_vec());
    assert_eq!(relay.count(&bytes), (0, 8));
    assert_eq!(told(step(&mut relay, bytes)), b"200 ok\r\n");
    assert!(matches!(step(&mut relay, ControlEvent::Sent(false)), ControlAction::Finish));
    assert_eq!(bridge().count(&ControlEvent::Client(b"NOOP\r\n".to_vec())), (0, 0));
}

#[test]
fn either_end_ends_the_relay() {
    for event in [
        ControlEvent::Client(Vec::new()),
        ControlEvent::ClientFailed,
        ControlEvent::Server(Vec::new()),
        ControlEvent::ServerFailed,
    ] {
        assert!(matches!(step(&mut native(3), event), ControlAction::Finish));
    }
    let mut relay = bridge();
    line(&mut relay, b"STOR x\r\n");
    assert!(matches!(step(&mut relay, ControlEvent::Sent(false)), ControlAction::Finish));
}

#[test]
fn passive_replies_name_the_proxy() {
    let mut relay = native(3);
    assert_eq!(
        passive(&mut relay, Listener::Port(5000)),
        b"227 Entering Passive Mode (127,0,0,1,19,136)\r\n"
    );
    assert_eq!(relay.pending, Some(addr(9, 1025)));
    // While a listener waits, another passive command is passed on as it is.
    line(&mut relay, b"EPSV\r\n");
    assert!(matches!(step(&mut relay, ControlEvent::Sent(true)), ControlAction::Wait));

    let mut relay = bridge();
    line(&mut relay, b"EPSV\r\n");
    step(&mut relay, ControlEvent::Sent(true));
    assert!(matches!(reply(&mut relay, b"229 ok (|||1025|)\r\n"), ControlAction::OpenListener));
    assert_eq!(
        told(step(&mut relay, ControlEvent::Opened(Listener::Port(6000)))),
        b"229 ok (|||6000|)\r\n"
    );
    assert_eq!(relay.pending, Some(addr(1, 1025)));
}

#[test]
fn listeners_that_cannot_be_used() {
    let mut relay = native(3);
    assert_eq!(passive(&mut relay, Listener::Refused), PASV_REPLY);
    assert_eq!(relay.pending, None);
    assert_eq!(
        passive(&mut relay, Listener::NoAddress),
        b"227 Entering Passive Mode (127,0,0,1,0,0)\r\n"
    );
    assert!(relay.pending.is_some());
    let mut relay = bridge();
    assert_eq!(passive(&mut relay, Listener::NoAddress), PASV_REPLY);
    assert_eq!(relay.pending, None);
}

#[test]
fn passive_replies_of_another_code() {
    let asked = |command: &[u8], answer: &[u8]| {
        let mut relay = native(3);
        line(&mut relay, command);
        step(&mut relay, ControlEvent::Sent(true));
        assert_eq!(told(reply(&mut relay, answer)), answer);
        assert_eq!(relay.pending, None);
        assert!(matches!(step(&mut relay, ControlEvent::Sent(true)), ControlAction::Wait));
        // The next passive command is answered with a listener.
        passive(&mut relay, Listener::Port(5000));
        assert_eq!(relay.pending, Some(addr(9, 1025)));
    };
    asked(b"EPSV\r\n", PASV_REPLY);
    asked(b"PASV\r\n", b"229 ok (|||1025|)\r\n");
    asked(b"PASV\r\n", b"200 Numbers (10,0,0,9,4,1)\r\n");
    asked(b"EPSV\r\n", b"229-ok (|||1025|)\r\n229 ok\r\n");
}

#[test]
fn passive_reply_of_several_lines_names_the_proxy() {
    let mut relay = native(3);
    line(&mut relay, b"PASV\r\n");
    step(&mut relay, ControlEvent::Sent(true));
    let answer = b"227-Passive (10,0,0,9,4,1)\r\n227 ok\r\n";
    assert!(matches!(reply(&mut relay, answer), ControlAction::OpenListener));
    assert_eq!(
        told(step(&mut relay, ControlEvent::Opened(Listener::Port(5000)))),
        b"227-Passive (127,0,0,1,19,136)\r\n227 ok\r\n"
    );
    assert_eq!(relay.pending, Some(addr(9, 1025)));
}

#[test]
fn only_the_reply_to_a_passive_command_is_rewritten() {
    let mut relay = native(3);
    assert_eq!(told(step(&mut relay, ControlEvent::Server(PASV_REPLY.to_vec()))), PASV_REPLY);
    step(&mut relay, ControlEvent::Sent(true));
    line(&mut relay, b"LIST\r\n");
    step(&mut relay, ControlEvent::Sent(true));
    assert_eq!(told(reply(&mut relay, PASV_REPLY)), PASV_REPLY);
    assert_eq!(relay.pending, None);
}

#[test]
fn passive_replies_without_an_address() {
    let mut relay = native(3);
    line(&mut relay, b"PASV\r\n");
    step(&mut relay, ControlEvent::Sent(true));
    assert_eq!(told(reply(&mut relay, b"229 (|||)\r\n")), b"229 (|||)\r\n");
    step(&mut relay, ControlEvent::Sent(true));
    line(&mut relay, b"PASV\r\n");
    step(&mut relay, ControlEvent::Sent(true));
    assert_eq!(told(reply(&mut relay, b"502 no\r\n")), b"502 no\r\n");
    step(&mut relay, ControlEvent::Sent(true));
    line(&mut relay, b"PASV\r\n");
    step(&mut relay, ControlEvent::Sent(true));
    assert!(matches!(step(&mut relay, ControlEvent::Reply(None)), ControlAction::Wait));
}

#[test]
fn native_upload() {
    let mut relay = native(3);
    passive(&mut relay, Listener::Port(5000));
    line(&mut relay, b"STOR my file\r\n");
    match step(&mut relay, ControlEvent::Sent(true)) {
        ControlAction::Run { addr: a, transfer: Transfer::Upload { cmd, path } } => {
            assert_eq!(a, addr(9, 1025));
            assert_eq!((cmd.as_str(), path.as_str()), ("STOR", "my file"));
        }
        other => panic!("{:?}", other),
    }
    assert_eq!(relay.pending, None);
    assert!(matches!(step(&mut relay, ControlEvent::DataDone(true)), ControlAction::ReadReply));
    assert_eq!(told(reply(&mut relay, b"226 done\r\n")), b"226 done\r\n");
    assert!(matches!(step(&mut relay, ControlEvent::Sent(false)), ControlAction::Wait));

    // Without a listener the upload is the server's business.
    line(&mut relay, b"STOR other\r\n");
    assert!(matches!(step(&mut relay, ControlEvent::Sent(true)), ControlAction::Wait));

    // An upload whose ends cannot be connected is given up.
    passive(&mut relay, Listener::Port(5000));
    line(&mut relay, b"APPE x\r\n");
    assert!(matches!(step(&mut relay, ControlEvent::Sent(true)), ControlAction::Run { .. }));
    assert!(matches!(step(&mut relay, ControlEvent::DataDone(false)), ControlAction::Wait));
}

#[test]
fn bridged_upload() {
    let mut relay = bridge();
    passive(&mut relay, Listener::Port(5000));
    line(&mut relay, b"STOU\r\n");
    assert!(matches!(step(&mut relay, ControlEvent::Sent(true)), ControlAction::ReadReply));
    assert_eq!(told(reply(&mut relay, b"150 go\r\n")), b"150 go\r\n");
    match step(&mut relay, ControlEvent::Sent(true)) {
        ControlAction::Run { transfer: Transfer::Upload { cmd, path }, .. } => {
            assert_eq!((cmd.as_str(), path.as_str()), ("STOR", "ftp-over-connect"));
        }
        other => panic!("{:?}", other),
    }
    assert!(matches!(step(&mut relay, ControlEvent::DataDone(false)), ControlAction::ReadReply));
    assert!(matches!(step(&mut relay, ControlEvent::Reply(None)), ControlAction::Wait));
    assert!(!relay.awaits(&ControlEvent::Tick(false)));
}

#[test]
fn download() {
    let mut relay = native(3);
    passive(&mut relay, Listener::Port(5000));
    line(&mut relay, b"RETR f\r\n");
    assert!(matches!(step(&mut relay, ControlEvent::Sent(true)), ControlAction::ReadReply));
    told(reply(&mut relay, b"150 go\r\n"));
    match step(&mut relay, ControlEvent::Sent(true)) {
        ControlAction::Run { addr: a, transfer: Transfer::Download } => {
            assert_eq!(a, addr(9, 1025))
        }
        other => panic!("{:?}", other),
    }
    assert!(matches!(step(&mut relay, ControlEvent::DataDone(false)), ControlAction::ReadReply));
    told(reply(&mut relay, b"226 done\r\n"));
    step(&mut relay, ControlEvent::Sent(true));

    // Without a listener both replies are passed on.
    line(&mut relay, b"LIST\r\n");
    step(&mut relay, ControlEvent::Sent(true));
    assert!(matches!(step(&mut relay, ControlEvent::Reply(None)), ControlAction::ReadReply));
    assert_eq!(told(reply(&mut relay, b"425 no\r\n")), b"425 no\r\n");
}

#[test]
fn idle_native_relay() {
    let mut relay = native(2);
    assert!(matches!(step(&mut relay, ControlEvent::Tick(false)), ControlAction::Wait));
    step(&mut relay, ControlEvent::Server(b"x".to_vec()));
    step(&mut relay, ControlEvent::Sent(true));
    // Only lines of the client count.
    assert!(matches!(step(&mut relay, ControlEvent::Tick(false)), ControlAction::Finish));
    let mut relay = native(2);
    step(&mut relay, ControlEvent::Tick(false));
    line(&mut relay, b"NOOP\r\n");
    step(&mut relay, ControlEvent::Sent(true));
    assert!(matches!(step(&mut relay, ControlEvent::Tick(false)), ControlAction::Wait));
    assert!(matches!(step(&mut native(9), ControlEvent::Tick(true)), ControlAction::Finish));
    assert!(matches!(step(&mut native(0), ControlEvent::Tick(false)), ControlAction::Finish));
}

fn tunnel(t: &mut TunnelRelay, event: TunnelEvent) -> TunnelAction {
    assert!(t.awaits(&event));
    t.step(event)
}

const TICK: TunnelEvent = TunnelEvent::Tick { user_blocked: false, force_quit: false };

#[test]
fn tunnelled_upload_is_marked() {
    let mut t = TunnelRelay::new(PERIOD, 3);
    match tunnel(&mut t, TunnelEvent::Client(b"stor dir/my file.txt\r\n".to_vec())) {
        TunnelAction::MarkUpload { cmd, path } => {
            assert_eq!((cmd.as_str(), path.as_str()), ("stor", "dir/my file.txt"))
        }
        other => panic!("{:?}", other),
    }
    match tunnel(&mut t, TunnelEvent::Marked) {
        TunnelAction::SendServer(bytes) => assert_eq!(bytes, b"stor dir/my file.txt\r\n"),
        other => panic!("{:?}", other),
    }
    assert!(matches!(tunnel(&mut t, TunnelEvent::Sent(true)), TunnelAction::Wait));
    match tunnel(&mut t, TunnelEvent::Server(PASV_REPLY.to_vec())) {
        TunnelAction::SendClient(bytes) => assert_eq!(bytes, PASV_REPLY),
        other => panic!("{:?}", other),
    }
    assert!(matches!(
        tunnel(&mut t, TunnelEvent::Sent(false)),
        TunnelAction::Finish(TunnelEnd::Done)
    ));
}

#[test]
fn tls_begins_where_the_server_accepts_it() {
    for (answer, begins) in [(&b"234 go\r\n"[..], true), (&b"534 no\r\n"[..], false)] {
        let mut t = TunnelRelay::new(PERIOD, 3);
        tunnel(&mut t, TunnelEvent::Client(b"AUTH TLS\r\n".to_vec()));
        assert!(matches!(tunnel(&mut t, TunnelEvent::Sent(true)), TunnelAction::ReadReply));
        match tunnel(&mut t, TunnelEvent::Reply(Some(answer.to_vec()))) {
            TunnelAction::SendClient(bytes) => assert_eq!(bytes, answer),
            other => panic!("{:?}", other),
        }
        match tunnel(&mut t, TunnelEvent::Sent(false)) {
            TunnelAction::Finish(TunnelEnd::StartTls) => assert!(begins),
            TunnelAction::Wait => assert!(!begins),
            other => panic!("{:?}", other),
        }
    }
    let mut t = TunnelRelay::new(PERIOD, 3);
    tunnel(&mut t, TunnelEvent::Client(b"AUTH TLS\r\n".to_vec()));
    tunnel(&mut t, TunnelEvent::Sent(true));
    assert!(matches!(tunnel(&mut t, TunnelEvent::Reply(None)), TunnelAction::Wait));
}

#[test]
fn tunnel_that_is_stopped() {
    let mut t = TunnelRelay::new(PERIOD, 2);
    assert!(matches!(tunnel(&mut t, TICK), TunnelAction::Wait));
    tunnel(&mut t, TunnelEvent::Server(b"x".to_vec()));
    tunnel(&mut t, TunnelEvent::Sent(true));
    assert!(matches!(tunnel(&mut t, TICK), TunnelAction::Wait));
    assert!(matches!(tunnel(&mut t, TICK), TunnelAction::Finish(TunnelEnd::Idle(PERIOD, 2))));
    let blocked = TunnelEvent::Tick { user_blocked: true, force_quit: true };
    assert!(matches!(
        tunnel(&mut TunnelRelay::new(PERIOD, 1), blocked),
        TunnelAction::Finish(TunnelEnd::UserBlocked)
    ));
    let quit = TunnelEvent::Tick { user_blocked: false, force_quit: true };
    assert!(matches!(
        tunnel(&mut TunnelRelay::new(PERIOD, 5), quit),
        TunnelAction::Finish(TunnelEnd::ServerQuit)
    ));
    for event in [
        TunnelEvent::Client(Vec::new()),
        TunnelEvent::ClientFailed,
        TunnelEvent::Server(Vec::new()),
        TunnelEvent::ServerFailed,
    ] {
        assert!(matches!(
            tunnel(&mut TunnelRelay::new(PERIOD, 5), event),
            TunnelAction::Finish(TunnelEnd::Done)
        ));
    }
    assert_eq!((max_idle_of(Some(1), 2), max_idle_of(None, 2)), (1, 2));
}

#[test]
fn inspection_of_a_channel() {
    let mut object = FtpInterceptObject::new();
    assert!(!object.from_starttls);
    object.set_from_starttls();
    assert!(object.from_starttls);
    assert_eq!(object.ftp_inspect_action(), ProtocolInspectAction::Intercept);
    assert_eq!(object.block_reply(), "421 Service not available\r\n");
    assert!(matches!(
        object.block_result(None),
        ServerTaskError::InternalAdapterError(e) if e == "ftp blocked by inspection policy"
    ));
    assert!(matches!(
        object.block_result(Some("e".to_string())),
        ServerTaskError::ClientTcpWriteFailed(e) if e == "e"
    ));
    assert!(matches!(object.intercept_result(TunnelEnd::Done, true), Ok(false)));
    assert!(matches!(object.intercept_result(TunnelEnd::StartTls, true), Ok(true)));
    assert!(matches!(object.intercept_result(TunnelEnd::StartTls, false), Ok(false)));
    assert!(matches!(
        object.intercept_result(TunnelEnd::Idle(PERIOD, 4), true),
        Err(ServerTaskError::Idle(PERIOD, 4))
    ));
    assert!(matches!(
        object.intercept_result(TunnelEnd::UserBlocked, true),
        Err(ServerTaskError::CanceledAsUserBlocked)
    ));
    assert!(matches!(
        object.intercept_result(TunnelEnd::ServerQuit, true),
        Err(ServerTaskError::CanceledAsServerQuit)
    ));
}

fn config() -> FtpProxyServerConfig {
    let defaults = ConfigDefaults {
        type_key: "type".to_string(),
        name_key: "name".to_string(),
        idle_check_duration: 60,
        idle_max_count: 5,
        idle_check_maximum: 1800,
        tcp_sock_speed_limit: String::new(),
        tcp_misc_opts: String::new(),
    };
    FtpProxyServerConfig::new(None, &defaults)
}

fn auditor() -> Arc<IcapReqmodClient> {
    Arc::new(IcapReqmodClient::new(Arc::new(IcapServiceClient {
        config: IcapServiceConfig { bypass: false },
        partial_request_header: Vec::new(),
    })))
}

#[test]
fn task_of_a_client() {
    let mut stats = FtpProxyServerStats::new("s", 1);
    let mut task = FtpProxyTask::new(
        Arc::new(config()),
        &mut stats,
        addr(7, 1000),
        "ftp.example.net:21".to_string(),
        Some(auditor()),
        4096,
    );
    assert_eq!((stats.get_alive_count(), stats.get_task_total()), (1, 1));
    assert_eq!(task.max_idle_count, 5);
    assert_eq!(task.upstream_ip, Ipv4Addr::unspecified());
    assert_eq!(task.connect_upstream(), ConnectRoute::Plain);
    let (relay, _) = task.relay_control(Some(addr(3, 21)));
    assert_eq!(task.upstream_ip, ip4(3));
    assert_eq!(relay.mode, RelayMode::Native { max_idle_count: 5 });
    assert_eq!(relay.upstream_ip, ip4(3));
    task.relay_control(None);
    assert_eq!(task.upstream_ip, Ipv4Addr::unspecified());

    let audit = build_audit_context(&task.ctx, "STOR", "/f", None, None).unwrap();
    assert_eq!((audit.ftp_command.as_str(), audit.ftp_path.as_str()), ("STOR", "/f"));
    assert_eq!((audit.client_addr, audit.copy_buffer_size), (Some(addr(7, 1000)), 4096));

    let mut quiet = config();
    quiet.audit_upload = false;
    let task =
        FtpProxyTask::new(Arc::new(quiet), &mut stats, addr(7, 1), String::new(), Some(auditor()), 1);
    assert!(build_audit_context(&task.ctx, "STOR", "/f", None, None).is_none());
}

#[test]
fn ways_to_the_ftp_server() {
    for (kind, tls, route) in [
        (TlsUpstreamType::ExplicitFtps, true, ConnectRoute::ExplicitTls),
        (TlsUpstreamType::ImplicitFtps, true, ConnectRoute::ImplicitTls),
        (TlsUpstreamType::ExplicitFtps, false, ConnectRoute::Refused),
        (TlsUpstreamType::ImplicitFtps, false, ConnectRoute::Refused),
        (TlsUpstreamType::PlainFtp, true, ConnectRoute::Plain),
    ] {
        let mut c = config();
        c.tls_upstream_type = kind;
        if tls {
            c.tls_upstream = Some(TlsUpstream { builder: String::new(), checked: Ok(String::new()) });
        }
        let mut stats = FtpProxyServerStats::new("s", 1);
        let mut task =
            FtpProxyTask::new(Arc::new(c), &mut stats, addr(7, 1), String::new(), None, 1);
        assert_eq!(task.connect_upstream(), route);
    }
}

#[test]
fn explicit_tls() {
    let run = |answer: Option<&[u8]>| {
        let mut t = ExplicitTls::new();
        match t.step(TlsEvent::Reply(None)) {
            TlsAction::Send(bytes) => assert_eq!(bytes, b"AUTH TLS\r\n"),
            other => panic!("{:?}", other),
        }
        assert!(matches!(t.step(TlsEvent::Sent(true)), TlsAction::ReadReply));
        matches!(t.step(TlsEvent::Reply(answer.map(|a| a.to_vec()))), TlsAction::Handshake)
    };
    assert!(run(Some(b"234 go\r\n")));
    assert!(!run(Some(b"234-go\r\n")));
    assert!(!run(Some(b"500 no\r\n")));
    assert!(!run(None));
    let mut t = ExplicitTls::new();
    assert!(!t.awaits(&TlsEvent::Sent(true)));
    assert!(t.awaits(&TlsEvent::Reply(None)));
    t.step(TlsEvent::Reply(Some(b"220 hi\r\n".to_vec())));
    assert!(!t.awaits(&TlsEvent::Reply(None)));
    assert!(t.awaits(&TlsEvent::Sent(false)));
    assert!(matches!(t.step(TlsEvent::Sent(false)), TlsAction::GiveUp));
    assert!(!t.awaits(&TlsEvent::Sent(true)) && !t.awaits(&TlsEvent::Reply(None)));
}

#[test]
fn bridge_of_a_tunnel() {
    let b = FtpOverConnectBridge::new(Arc::new(config()), addr(7, 1), ip4(2), Some(auditor()), 8);
    let (relay, first) = b.relay();
    assert!(matches!(first, ControlAction::Wait));
    assert_eq!((relay.mode, relay.upstream_ip), (RelayMode::Bridge, ip4(2)));
    let audit = b.process_upload("STOR", "ftp-over-connect").unwrap();
    assert_eq!(audit.ftp_path, "ftp-over-connect");
    assert!(audit.data_channel_tuple.is_none());
    let b = FtpOverConnectBridge::new(Arc::new(config()), addr(7, 1), ip4(2), None, 8);
    assert!(b.process_upload("STOR", "x").is_none());
}

fn info() -> PendingUploadInfo {
    PendingUploadInfo { ftp_command: "STOR".to_string(), ftp_path: "f".to_string(), created_at: 0 }
}

fn pending(p: &mut PendingChannel, event: PendingEvent) -> PendingAction {
    assert!(p.awaits(&event));
    p.step(event)
}

#[test]
fn first_bytes_of_a_channel_are_kept() {
    let mut p = PendingChannel::new(PERIOD, 3);
    assert!(matches!(
        pending(&mut p, PendingEvent::Client(b"abc".to_vec())),
        PendingAction::LookUp
    ));
    match pending(&mut p, PendingEvent::Found(Some(info()))) {
        PendingAction::Finish(PendingEnd::Relay { client_head, server_head, upload }) => {
            assert_eq!(client_head, b"abc");
            assert!(server_head.is_empty());
            assert_eq!(upload.unwrap().ftp_path, "f");
        }
        other => panic!("{:?}", other),
    }
    let mut p = PendingChannel::new(PERIOD, 3);
    match pending(&mut p, PendingEvent::Server(b"xyz".to_vec())) {
        PendingAction::Finish(PendingEnd::Relay { client_head, server_head, upload }) => {
            assert!(client_head.is_empty() && upload.is_none());
            assert_eq!(server_head, b"xyz");
        }
        other => panic!("{:?}", other),
    }
}

#[test]
fn channel_that_brings_nothing() {
    let end = |event: PendingEvent| match pending(&mut PendingChannel::new(PERIOD, 1), event) {
        PendingAction::Finish(end) => end,
        other => panic!("{:?}", other),
    };
    assert!(matches!(end(PendingEvent::Client(Vec::new())), PendingEnd::ClientClosed));
    assert!(matches!(end(PendingEvent::Server(Vec::new())), PendingEnd::ServerClosed));
    assert!(matches!(end(PendingEvent::ClientFailed), PendingEnd::Broken));
    assert!(matches!(end(PendingEvent::ServerFailed), PendingEnd::Broken));
    assert!(matches!(end(PendingEvent::Tick(true)), PendingEnd::Idle(PERIOD, 1)));
    let mut p = PendingChannel::new(PERIOD, 3);
    assert!(matches!(pending(&mut p, PendingEvent::Tick(false)), PendingAction::Wait));
    assert!(matches!(
        pending(&mut p, PendingEvent::Tick(true)),
        PendingAction::Finish(PendingEnd::ServerQuit)
    ));
}

#[test]
fn plans_for_data_channels() {
    let ctx = |icap_client| CommonTaskContext {
        server_config: Arc::new(config()),
        client_addr: addr(7, 1000),
        copy_buffer_size: 1,
        icap_client,
    };
    let object = FtpUploadDataInterceptObject::new(info(), None);
    match object.intercept(&ctx(Some(auditor())), PERIOD, 4) {
        DataChannelPlan::Relay(Some(audit)) => {
            assert_eq!(audit.ftp_path, "f");
            assert!(audit.data_channel_tuple.is_none());
        }
        other => panic!("{:?}", other),
    }
    let object = FtpUploadDataInterceptObject::new(info(), None);
    assert!(matches!(object.intercept(&ctx(None), PERIOD, 4), DataChannelPlan::Relay(None)));
    let object = FtpUploadDataInterceptObject { upload_info: None, data_channel_tuple: None };
    assert!(matches!(object.intercept(&ctx(None), PERIOD, 4), DataChannelPlan::Pending(_)));

    let found =
        found_upload_context(&ctx(Some(auditor())), Some(info()), addr(1, 5), addr(2, 6)).unwrap();
    let tuple = found.data_channel_tuple.unwrap();
    assert_eq!((tuple.server_addr, tuple.remote_addr), (addr(1, 5), addr(2, 6)));
    assert!(found_upload_context(&ctx(None), Some(info()), addr(1, 5), addr(2, 6)).is_none());
    assert!(
        found_upload_context(&ctx(Some(auditor())), None, addr(1, 5), addr(2, 6)).is_none()
    );
}

#[test]
fn idle_data_channel_and_tunnel_end_with_their_limit() {
    let mut p = PendingChannel::new(PERIOD, 3);
    assert!(matches!(pending(&mut p, PendingEvent::Tick(false)), PendingAction::Wait));
    assert!(matches!(pending(&mut p, PendingEvent::Tick(false)), PendingAction::Wait));
    assert!(matches!(
        pending(&mut p, PendingEvent::Tick(false)),
        PendingAction::Finish(PendingEnd::Idle(PERIOD, 3))
    ));
    assert!(matches!(
        tunnel(&mut TunnelRelay::new(PERIOD, 0), TICK),
        TunnelAction::Finish(TunnelEnd::Idle(PERIOD, 1))
    ));
}
