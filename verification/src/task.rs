//! The task of one client: which way it connects to the FTP server, and what it does then.

use crate::audit::{upload_auditor, FtpUploadAuditContext};
use crate::config::{FtpProxyServerConfig, TlsUpstreamType};
use crate::control::{ControlAction, ControlRelay, RelayMode};
use crate::keylog::TlsKeyLogBuffer;
use crate::net::{IpAddr, Ipv4Addr, SocketAddr};
use crate::reqmod::{ConnectionTuple, IcapReqmodClient};
use crate::stats::FtpProxyServerStats;
use crate::text;
use crate::text::bytes_start_with;
use std::sync::Arc;
use vstd::prelude::*;
use vstd::string::*;
use vstd::utf8::*;

verus! {

/// What the parts of a task share.
#[derive(Debug)]
pub struct CommonTaskContext {
    pub server_config: Arc<FtpProxyServerConfig>,
    pub client_addr: SocketAddr,
    /// The size that is configured for copy buffers.
    pub copy_buffer_size: usize,
    /// The auditor of uploads.
    pub icap_client: Option<Arc<IcapReqmodClient>>,
}

/// How far a task has come.
#[derive(Clone, Copy, Debug, PartialEq, Eq, Structural)]
pub enum ServerTaskStage {
    Created,
    Connecting,
    Relaying,
}

/// The task of one client.
#[derive(Debug)]
pub struct FtpProxyTask {
    pub ctx: CommonTaskContext,
    /// The FTP server.
    pub upstream: String,
    pub max_idle_count: usize,
    /// The IPv4 address of the FTP server, once the task is connected to it.
    pub upstream_ip: Ipv4Addr,
    pub stage: ServerTaskStage,
}

/// How a task connects to the FTP server.
#[derive(Clone, Copy, Debug, PartialEq, Eq, Structural)]
pub enum ConnectRoute {
    Plain,
    /// With TLS behind a command on the control channel.
    ExplicitTls,
    /// With TLS from the first byte on.
    ImplicitTls,
    /// Not at all: the TLS settings are missing.
    Refused,
}

/// The way to the FTP server that a configuration asks for.
pub open spec fn route_of(c: FtpProxyServerConfig) -> ConnectRoute {
    match c.tls_upstream_type {
        TlsUpstreamType::PlainFtp => ConnectRoute::Plain,
        TlsUpstreamType::ExplicitFtps => if c.tls_upstream is Some {
            ConnectRoute::ExplicitTls
        } else {
            ConnectRoute::Refused
        },
        TlsUpstreamType::ImplicitFtps => if c.tls_upstream is Some {
            ConnectRoute::ImplicitTls
        } else {
            ConnectRoute::Refused
        },
    }
}

/// The IPv4 address of a peer; unspecified where the peer is not known or has none.
pub open spec fn peer_ipv4(peer: Option<SocketAddr>) -> Ipv4Addr {
    match peer {
        Some(addr) => match addr.ip {
            IpAddr::V4(ip) => ip,
            IpAddr::V6(_) => Ipv4Addr { a: 0, b: 0, c: 0, d: 0 },
        },
        None => Ipv4Addr { a: 0, b: 0, c: 0, d: 0 },
    }
}

/// What is needed to audit an upload of the client.
pub open spec fn audit_context(
    ctx: CommonTaskContext,
    ftp_command: Seq<char>,
    ftp_path: Seq<char>,
    tuple: Option<ConnectionTuple>,
    keylog: Option<Arc<TlsKeyLogBuffer>>,
    r: Option<FtpUploadAuditContext>,
) -> bool {
    match ctx.icap_client {
        None => r is None,
        Some(client) => {
            &&& r is Some
            &&& r->0.icap_client == client
            &&& r->0.copy_buffer_size == ctx.copy_buffer_size
            &&& r->0.client_addr == Some(ctx.client_addr)
            &&& r->0.ftp_command@ == ftp_command
            &&& r->0.ftp_path@ == ftp_path
            &&& r->0.data_channel_tuple == tuple
            &&& r->0.keylog_buffer == keylog
        },
    }
}

/// What is needed to audit an upload of the client; nothing where there is no auditor.
pub fn build_audit_context(
    ctx: &CommonTaskContext,
    ftp_command: &str,
    ftp_path: &str,
    data_channel_tuple: Option<ConnectionTuple>,
    keylog_buffer: Option<Arc<TlsKeyLogBuffer>>,
) -> (r: Option<FtpUploadAuditContext>)
    ensures
        audit_context(*ctx, ftp_command@, ftp_path@, data_channel_tuple, keylog_buffer, r),
{
    match &ctx.icap_client {
        None => None,
        Some(client) => Some(
            FtpUploadAuditContext {
                icap_client: client.clone(),
                copy_buffer_size: ctx.copy_buffer_size,
                client_addr: Some(ctx.client_addr),
                ftp_command: ftp_command.to_owned(),
                ftp_path: ftp_path.to_owned(),
                data_channel_tuple,
                keylog_buffer,
            },
        ),
    }
}

impl FtpProxyTask {
    /// A task for a client, which is counted as begun. Uploads are audited if the configuration
    /// asks for it and an auditor was found.
    pub fn new(
        server_config: Arc<FtpProxyServerConfig>,
        server_stats: &mut FtpProxyServerStats,
        client_addr: SocketAddr,
        upstream: String,
        auditor: Option<Arc<IcapReqmodClient>>,
        copy_buffer_size: usize,
    ) -> (r: FtpProxyTask)
        ensures
            *final(server_stats) == crate::stats::task_begun(*old(server_stats)),
            r.ctx.server_config == server_config,
            r.ctx.client_addr == client_addr,
            r.ctx.copy_buffer_size == copy_buffer_size,
            r.ctx.icap_client == crate::audit::auditor_of(server_config.audit_upload, auditor),
            r.upstream == upstream,
            r.max_idle_count == server_config.task_idle_max_count,
            r.upstream_ip == (Ipv4Addr { a: 0, b: 0, c: 0, d: 0 }),
            r.stage == ServerTaskStage::Created,
    {
        let icap_client = upload_auditor(server_config.audit_upload, auditor);
        server_stats.add_control_task();
        let max_idle_count: usize = server_config.task_idle_max_count;
        FtpProxyTask {
            ctx: CommonTaskContext { server_config, client_addr, copy_buffer_size, icap_client },
            upstream,
            max_idle_count,
            upstream_ip: Ipv4Addr::unspecified(),
            stage: ServerTaskStage::Created,
        }
    }

    /// Begins to connect, and tells which way.
    pub fn connect_upstream(&mut self) -> (r: ConnectRoute)
        ensures
            r == route_of(*old(self).ctx.server_config),
            *final(self) == (FtpProxyTask { stage: ServerTaskStage::Connecting, ..*old(self) }),
    {
        self.stage = ServerTaskStage::Connecting;
        let tls = self.ctx.server_config.tls_upstream.is_some();
        match self.ctx.server_config.tls_upstream_type {
            TlsUpstreamType::PlainFtp => ConnectRoute::Plain,
            TlsUpstreamType::ExplicitFtps => if tls {
                ConnectRoute::ExplicitTls
            } else {
                ConnectRoute::Refused
            },
            TlsUpstreamType::ImplicitFtps => if tls {
                ConnectRoute::ImplicitTls
            } else {
                ConnectRoute::Refused
            },
        }
    }

    /// Begins to relay the control channel, once the task is connected to the given peer.
    pub fn relay_control(&mut self, peer: Option<SocketAddr>) -> (r: (ControlRelay, ControlAction))
        ensures
            *final(self) == (FtpProxyTask {
                upstream_ip: peer_ipv4(peer),
                stage: ServerTaskStage::Relaying,
                ..*old(self)
            }),
            r.0.wf(),
            (r.0@, r.1@) == crate::control::control_start(
                RelayMode::Native { max_idle_count: old(self).max_idle_count },
                peer_ipv4(peer),
            ),
    {
        self.upstream_ip = match peer {
            Some(addr) => match addr.ip {
                IpAddr::V4(ip) => ip,
                IpAddr::V6(_) => Ipv4Addr::unspecified(),
            },
            None => Ipv4Addr::unspecified(),
        };
        self.stage = ServerTaskStage::Relaying;
        ControlRelay::start(
            RelayMode::Native { max_idle_count: self.max_idle_count },
            self.upstream_ip,
        )
    }
}

// ---------------------------------------------------------------------------
// FTP in a tunnel through an HTTP proxy
// ---------------------------------------------------------------------------

/// The time between two ticks of the idle timer of a tunnelled upload: one second, in
/// nanoseconds.
pub const BRIDGE_IDLE_INTERVAL: u128 = 1_000_000_000;

/// The ticks without data after which a tunnelled upload ends.
pub const BRIDGE_MAX_IDLE_COUNT: usize = 60;

/// The bridge between a tunnel and an FTP server.
#[derive(Debug)]
pub struct FtpOverConnectBridge {
    pub ctx: CommonTaskContext,
    pub upstream_ip: Ipv4Addr,
}

impl FtpOverConnectBridge {
    /// A bridge; uploads are audited if the configuration asks for it and an auditor was found.
    pub fn new(
        server_config: Arc<FtpProxyServerConfig>,
        client_addr: SocketAddr,
        upstream_ip: Ipv4Addr,
        auditor: Option<Arc<IcapReqmodClient>>,
        copy_buffer_size: usize,
    ) -> (r: FtpOverConnectBridge)
        ensures
            r.ctx.server_config == server_config,
            r.ctx.client_addr == client_addr,
            r.ctx.copy_buffer_size == copy_buffer_size,
            r.ctx.icap_client == crate::audit::auditor_of(server_config.audit_upload, auditor),
            r.upstream_ip == upstream_ip,
    {
        let icap_client = upload_auditor(server_config.audit_upload, auditor);
        FtpOverConnectBridge {
            ctx: CommonTaskContext { server_config, client_addr, copy_buffer_size, icap_client },
            upstream_ip,
        }
    }

    /// Begins to relay the tunnel.
    pub fn relay(&self) -> (r: (ControlRelay, ControlAction))
        ensures
            r.0.wf(),
            (r.0@, r.1@) == crate::control::control_start(RelayMode::Bridge, self.upstream_ip),
    {
        ControlRelay::start(RelayMode::Bridge, self.upstream_ip)
    }

    /// What is needed to audit an upload in the tunnel.
    pub fn process_upload(&self, ftp_command: &str, ftp_path: &str) -> (r: Option<
        FtpUploadAuditContext,
    >)
        ensures
            audit_context(self.ctx, ftp_command@, ftp_path@, None, None, r),
    {
        build_audit_context(&self.ctx, ftp_command, ftp_path, None, None)
    }
}

// ---------------------------------------------------------------------------
// TLS behind a command
// ---------------------------------------------------------------------------

/// What the way to TLS waits for.
#[derive(Clone, Copy, Debug, PartialEq, Eq, Structural)]
pub enum ExplicitTls {
    /// The greeting of the server.
    Greeting,
    /// The request for TLS to be written.
    Asking,
    /// The reply to the request.
    Answering,
    Finished,
}

#[derive(Debug)]
pub enum TlsEvent {
    /// The reply that was read, if any came.
    Reply(Option<Vec<u8>>),
    /// The last write is over, and whether it succeeded.
    Sent(bool),
}

#[derive(Debug)]
pub enum TlsAction {
    /// Read a whole reply of the server.
    ReadReply,
    Send(Vec<u8>),
    /// Begin with TLS.
    Handshake,
    GiveUp,
}

#[verifier::ext_equal]
pub enum TlsInput {
    Reply(Option<Seq<u8>>),
    Sent(bool),
}

#[verifier::ext_equal]
pub enum TlsOutput {
    ReadReply,
    Send(Seq<u8>),
    Handshake,
    GiveUp,
}

impl View for TlsEvent {
    type V = TlsInput;

    open spec fn view(&self) -> TlsInput {
        match self {
            TlsEvent::Reply(reply) => TlsInput::Reply(crate::control::bytes_of(*reply)),
            TlsEvent::Sent(done) => TlsInput::Sent(*done),
        }
    }
}

impl View for TlsAction {
    type V = TlsOutput;

    open spec fn view(&self) -> TlsOutput {
        match self {
            TlsAction::ReadReply => TlsOutput::ReadReply,
            TlsAction::Send(bytes) => TlsOutput::Send(bytes@),
            TlsAction::Handshake => TlsOutput::Handshake,
            TlsAction::GiveUp => TlsOutput::GiveUp,
        }
    }
}

/// The event is one that is waited for.
pub open spec fn tls_awaits(t: ExplicitTls, input: TlsInput) -> bool {
    match t {
        ExplicitTls::Greeting | ExplicitTls::Answering => input is Reply,
        ExplicitTls::Asking => input is Sent,
        ExplicitTls::Finished => false,
    }
}

/// What follows the event: whatever the server's greeting, it is asked for TLS, and TLS begins if
/// it accepts.
pub open spec fn tls_next(t: ExplicitTls, input: TlsInput) -> (ExplicitTls, TlsOutput) {
    match (t, input) {
        (ExplicitTls::Greeting, TlsInput::Reply(_)) => (
            ExplicitTls::Asking,
            TlsOutput::Send(encode_utf8("AUTH TLS\r\n"@)),
        ),
        (ExplicitTls::Asking, TlsInput::Sent(true)) => (
            ExplicitTls::Answering,
            TlsOutput::ReadReply,
        ),
        (ExplicitTls::Answering, TlsInput::Reply(Some(reply))) => (
            ExplicitTls::Finished,
            if text::starts_with(reply, encode_utf8("234 "@)) {
                TlsOutput::Handshake
            } else {
                TlsOutput::GiveUp
            },
        ),
        _ => (ExplicitTls::Finished, TlsOutput::GiveUp),
    }
}

impl ExplicitTls {
    /// Begins with the greeting, which is to be read.
    pub fn new() -> (r: ExplicitTls)
        ensures
            r == ExplicitTls::Greeting,
    {
        ExplicitTls::Greeting
    }

    /// Whether the event is waited for.
    pub fn awaits(&self, event: &TlsEvent) -> (r: bool)
        ensures
            r == tls_awaits(*self, event@),
    {
        match (*self, event) {
            (ExplicitTls::Greeting, TlsEvent::Reply(_)) => true,
            (ExplicitTls::Asking, TlsEvent::Sent(_)) => true,
            (ExplicitTls::Answering, TlsEvent::Reply(_)) => true,
            _ => false,
        }
    }

    /// Takes an event that is waited for, and tells what to do next.
    pub fn step(&mut self, event: TlsEvent) -> (action: TlsAction)
        requires
            tls_awaits(*old(self), event@),
        ensures
            (*final(self), action@) == tls_next(*old(self), event@),
    {
        match (*self, event) {
            (ExplicitTls::Greeting, TlsEvent::Reply(_)) => {
                *self = ExplicitTls::Asking;
                let mut line: Vec<u8> = Vec::new();
                line.extend_from_slice("AUTH TLS\r\n".as_bytes());
                assert(line@ =~= encode_utf8("AUTH TLS\r\n"@));
                TlsAction::Send(line)
            },
            (ExplicitTls::Asking, TlsEvent::Sent(true)) => {
                *self = ExplicitTls::Answering;
                TlsAction::ReadReply
            },
            (ExplicitTls::Answering, TlsEvent::Reply(Some(reply))) => {
                *self = ExplicitTls::Finished;
                if bytes_start_with(reply.as_slice(), "234 ".as_bytes()) {
                    TlsAction::Handshake
                } else {
                    TlsAction::GiveUp
                }
            },
            _ => {
                *self = ExplicitTls::Finished;
                TlsAction::GiveUp
            },
        }
    }
}

// ---------------------------------------------------------------------------
// What the operations are for
// ---------------------------------------------------------------------------

/// Whatever the greeting, or without one, the server is sent the same line, which asks for TLS and
/// ends in a carriage return and a line feed.
pub proof fn law_tls_is_asked_for(greeting: Option<Seq<u8>>)
    ensures
        ({
            let (t, output) = tls_next(ExplicitTls::Greeting, TlsInput::Reply(greeting));
            &&& output matches TlsOutput::Send(line) && {
                &&& line == seq![65u8, 85, 84, 72, 32, 84, 76, 83, 13, 10]
                &&& crate::command::auth_tls_command(line)
            }
            &&& t == ExplicitTls::Asking
        }),
{
    reveal_strlit("AUTH TLS\r\n");
    let line = encode_utf8("AUTH TLS\r\n"@);
    is_ascii_chars_encode_utf8("AUTH TLS\r\n"@);
    let word = seq![65u8, 85, 84, 72];
    let space = seq![32u8];
    let kind = seq![84u8, 76, 83];
    let end = seq![13u8, 10];
    assert(line =~= seq![65u8, 85, 84, 72, 32, 84, 76, 83, 13, 10]);
    assert(line =~= word + (space + kind + end));
    assert(seq![kind[0]][0] == kind[0]);
    assert(seq![kind.last()][0] == kind.last());
    crate::command::law_auth_tls_by_name(word, space, kind, end, Seq::empty());
}

/// TLS begins exactly where the request was written and the server's reply to it begins with the
/// code 234 and a space. Anything else gives the connection up.
pub proof fn law_tls_begins_with_consent(sent: bool, reply: Option<Seq<u8>>)
    ensures
        tls_next(ExplicitTls::Asking, TlsInput::Sent(sent)) == if sent {
            (ExplicitTls::Answering, TlsOutput::ReadReply)
        } else {
            (ExplicitTls::Finished, TlsOutput::GiveUp)
        },
        ({
            let (t, output) = tls_next(ExplicitTls::Answering, TlsInput::Reply(reply));
            &&& t == ExplicitTls::Finished
            &&& output == TlsOutput::Handshake || output == TlsOutput::GiveUp
            &&& output == TlsOutput::Handshake <==> (reply matches Some(r) && r.len() >= 4 && r[0]
                == 50 && r[1] == 51 && r[2] == 52 && r[3] == 32)
        }),
{
    reveal_strlit("234 ");
    is_ascii_chars_encode_utf8("234 "@);
    if let Some(r) = reply {
        let code = encode_utf8("234 "@);
        if r.len() >= 4 && r[0] == 50 && r[1] == 51 && r[2] == 52 && r[3] == 32 {
            assert(r.take(4) =~= code);
        }
        if text::starts_with(r, code) {
            assert(r.take(4)[0] == code[0] && r.take(4)[1] == code[1] && r.take(4)[2] == code[2]
                && r.take(4)[3] == code[3]);
        }
    }
}

/// What is asked for is waited for: a reply that is to be read, whatever it is, and the end of a
/// write, whether it succeeds or not. A way that has ended waits for nothing.
pub proof fn law_tls_waits_for_what_it_asked(t: ExplicitTls, input: TlsInput, next: TlsInput)
    requires
        tls_awaits(t, input),
    ensures
        tls_awaits(ExplicitTls::Greeting, next) <==> next is Reply,
        ({
            let (after, output) = tls_next(t, input);
            tls_awaits(after, next) <==> (match output {
                TlsOutput::ReadReply => next is Reply,
                TlsOutput::Send(_) => next is Sent,
                TlsOutput::Handshake | TlsOutput::GiveUp => false,
            })
        }),
{
}

/// A server that speaks plain FTP is connected to without TLS. One that speaks TLS is connected to
/// in its own way, or not at all where the TLS settings are missing; never without TLS.
pub proof fn law_way_to_the_server(c: FtpProxyServerConfig)
    ensures
        c.tls_upstream_type == TlsUpstreamType::PlainFtp <==> route_of(c) == ConnectRoute::Plain,
        route_of(c) == ConnectRoute::Refused <==> c.tls_upstream_type != TlsUpstreamType::PlainFtp
            && c.tls_upstream is None,
        route_of(c) == ConnectRoute::ExplicitTls <==> c.tls_upstream_type
            == TlsUpstreamType::ExplicitFtps && c.tls_upstream is Some,
        route_of(c) == ConnectRoute::ImplicitTls <==> c.tls_upstream_type
            == TlsUpstreamType::ImplicitFtps && c.tls_upstream is Some,
{
}

/// The server's address is that of the peer; 0.0.0.0 stands for a peer without an IPv4 address.
pub proof fn law_server_address_is_the_peers(ip: Ipv4Addr, port: u16, peer: Option<SocketAddr>)
    ensures
        peer_ipv4(Some(SocketAddr { ip: IpAddr::V4(ip), port })) == ip,
        peer is None || peer->0.ip is V6 ==> peer_ipv4(peer) == (Ipv4Addr {
            a: 0,
            b: 0,
            c: 0,
            d: 0,
        }),
{
}

/// An upload is audited exactly where there is an auditor, and the auditor is told this client,
/// this command and path, and what is known of the data channel.
pub proof fn law_auditor_is_told_of_the_upload(
    ctx: CommonTaskContext,
    cmd: Seq<char>,
    path: Seq<char>,
    tuple: Option<ConnectionTuple>,
    keylog: Option<Arc<TlsKeyLogBuffer>>,
    r: Option<FtpUploadAuditContext>,
)
    requires
        audit_context(ctx, cmd, path, tuple, keylog, r),
    ensures
        r is Some <==> ctx.icap_client is Some,
        r matches Some(c) ==> {
            &&& Some(c.icap_client) == ctx.icap_client
            &&& c.client_addr == Some(ctx.client_addr)
            &&& (c.ftp_command@, c.ftp_path@) == (cmd, path)
            &&& c.data_channel_tuple == tuple
            &&& c.keylog_buffer == keylog
            &&& c.copy_buffer_size == ctx.copy_buffer_size
        },
{
}

} // verus!
