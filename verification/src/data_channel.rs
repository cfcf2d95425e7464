//! A tunnelled data channel: whether it is an upload that a control channel marked, and what is
//! done with it.

use crate::audit::FtpUploadAuditContext;
use crate::net::SocketAddr;
use crate::reqmod::{ConnectionProtocol, ConnectionTuple};
use crate::task::{build_audit_context, CommonTaskContext};
use crate::upload_state::{FtpUploadState, PendingUploadInfo};
use vstd::prelude::*;
use vstd::string::*;

verus! {

/// How long, once one end has closed the channel, the other end may go on: five seconds, in
/// nanoseconds.
pub const DRAIN_LIMIT: u128 = 5_000_000_000;

/// The client and the server of a data channel.
pub open spec fn channel_pair(
    client_addr: SocketAddr,
    server_addr: SocketAddr,
) -> crate::pairs::ClientServerPair {
    crate::pairs::ClientServerPair { client: client_addr.ip, server: server_addr.ip }
}

/// The mark that waits for a data channel; it is used up.
pub fn check_ftp_upload_data(
    state: &mut FtpUploadState,
    client_addr: SocketAddr,
    server_addr: SocketAddr,
    now: u128,
) -> (r: Option<PendingUploadInfo>)
    requires
        old(state).wf(),
    ensures
        final(state).wf(),
        (final(state)@, crate::upload_state::upload_text(r)) == crate::upload_state::consumed(
            old(state)@,
            channel_pair(client_addr, server_addr),
            now,
        ),
{
    state.consume_upload(client_addr.ip, server_addr.ip, now)
}

/// The domain that is known of an FTPS server.
pub fn get_ftps_domain(
    state: &mut FtpUploadState,
    client_addr: SocketAddr,
    server_addr: SocketAddr,
    now: u128,
) -> (r: Option<String>)
    requires
        old(state).wf(),
    ensures
        final(state).wf(),
        ({
            let key = channel_pair(client_addr, server_addr);
            &&& final(state)@ == crate::upload_state::domain_read(old(state)@, key, now)
            &&& crate::text::text_of(r) == crate::upload_state::domain_at(old(state)@, key, now)
        }),
{
    state.get_ftps_domain(client_addr.ip, server_addr.ip, now)
}

/// What a channel waits for of which it is not known whether it is an upload.
#[derive(Debug)]
pub enum PendingPhase {
    /// Data of either end, or a tick of the idle timer.
    Waiting,
    /// The mark of the upload; the client has sent the bytes.
    LookingUp(Vec<u8>),
    Finished,
}

/// A channel of which it is not known whether it is an upload.
#[derive(Debug)]
pub struct PendingChannel {
    /// The time between two ticks of the idle timer, in nanoseconds.
    pub idle_period: u128,
    pub max_idle_count: usize,
    /// The ticks of the idle timer so far.
    pub idle: usize,
    pub phase: PendingPhase,
}

/// What the channel is told.
#[derive(Debug)]
pub enum PendingEvent {
    /// Data of the client; none where the client has closed its end.
    Client(Vec<u8>),
    ClientFailed,
    /// Data of the server; none where the server has closed its end.
    Server(Vec<u8>),
    ServerFailed,
    /// The idle timer ticked, and whether the proxy is about to quit.
    Tick(bool),
    /// The mark that was found, if any was.
    Found(Option<PendingUploadInfo>),
}

/// How it ends that nothing is known of the channel.
#[derive(Debug)]
pub enum PendingEnd {
    /// The channel is relayed both ways. What was read of either end comes first. The upload
    /// that was found is audited, if there is an auditor.
    Relay { client_head: Vec<u8>, server_head: Vec<u8>, upload: Option<PendingUploadInfo> },
    /// The client has closed its end: the server's end is shut down, what the server still sends
    /// goes to the client, for some time, and the client's end is shut down.
    ClientClosed,
    /// The same with the ends exchanged.
    ServerClosed,
    /// An end has failed: both ends are shut down.
    Broken,
    /// Nothing was sent for so many ticks of the idle timer, which come with the period given
    /// first: both ends are shut down.
    Idle(u128, usize),
    /// The proxy quits: both ends are shut down.
    ServerQuit,
}

/// What the channel does next.
#[derive(Debug)]
pub enum PendingAction {
    /// Wait for the client, the server and the idle timer, in this order of preference.
    Wait,
    /// Look for a mark of the upload.
    LookUp,
    Finish(PendingEnd),
}

#[verifier::ext_equal]
pub enum PendingPhaseView {
    Waiting,
    LookingUp(Seq<u8>),
    Finished,
}

#[verifier::ext_equal]
pub struct PendingView {
    pub idle_period: u128,
    pub max_idle_count: usize,
    pub idle: nat,
    pub phase: PendingPhaseView,
}

#[verifier::ext_equal]
pub enum PendingInput {
    Client(Seq<u8>),
    ClientFailed,
    Server(Seq<u8>),
    ServerFailed,
    Tick(bool),
    Found(Option<crate::upload_state::UploadText>),
}

#[verifier::ext_equal]
pub enum PendingEndView {
    Relay {
        client_head: Seq<u8>,
        server_head: Seq<u8>,
        upload: Option<crate::upload_state::UploadText>,
    },
    ClientClosed,
    ServerClosed,
    Broken,
    Idle(u128, nat),
    ServerQuit,
}

#[verifier::ext_equal]
pub enum PendingOutput {
    Wait,
    LookUp,
    Finish(PendingEndView),
}

impl View for PendingPhase {
    type V = PendingPhaseView;

    open spec fn view(&self) -> PendingPhaseView {
        match self {
            PendingPhase::Waiting => PendingPhaseView::Waiting,
            PendingPhase::LookingUp(head) => PendingPhaseView::LookingUp(head@),
            PendingPhase::Finished => PendingPhaseView::Finished,
        }
    }
}

impl View for PendingChannel {
    type V = PendingView;

    open spec fn view(&self) -> PendingView {
        PendingView {
            idle_period: self.idle_period,
            max_idle_count: self.max_idle_count,
            idle: self.idle as nat,
            phase: self.phase@,
        }
    }
}

impl View for PendingEvent {
    type V = PendingInput;

    open spec fn view(&self) -> PendingInput {
        match self {
            PendingEvent::Client(data) => PendingInput::Client(data@),
            PendingEvent::ClientFailed => PendingInput::ClientFailed,
            PendingEvent::Server(data) => PendingInput::Server(data@),
            PendingEvent::ServerFailed => PendingInput::ServerFailed,
            PendingEvent::Tick(quit) => PendingInput::Tick(*quit),
            PendingEvent::Found(upload) => PendingInput::Found(
                crate::upload_state::upload_text(*upload),
            ),
        }
    }
}

impl View for PendingEnd {
    type V = PendingEndView;

    open spec fn view(&self) -> PendingEndView {
        match self {
            PendingEnd::Relay { client_head, server_head, upload } => PendingEndView::Relay {
                client_head: client_head@,
                server_head: server_head@,
                upload: crate::upload_state::upload_text(*upload),
            },
            PendingEnd::ClientClosed => PendingEndView::ClientClosed,
            PendingEnd::ServerClosed => PendingEndView::ServerClosed,
            PendingEnd::Broken => PendingEndView::Broken,
            PendingEnd::Idle(period, ticks) => PendingEndView::Idle(*period, *ticks as nat),
            PendingEnd::ServerQuit => PendingEndView::ServerQuit,
        }
    }
}

impl View for PendingAction {
    type V = PendingOutput;

    open spec fn view(&self) -> PendingOutput {
        match self {
            PendingAction::Wait => PendingOutput::Wait,
            PendingAction::LookUp => PendingOutput::LookUp,
            PendingAction::Finish(end) => PendingOutput::Finish(end@),
        }
    }
}

/// A channel of which nothing is known.
pub open spec fn pending_start(idle_period: u128, max_idle_count: usize) -> PendingView {
    PendingView { idle_period, max_idle_count, idle: 0, phase: PendingPhaseView::Waiting }
}

/// The event is one that the channel waits for.
pub open spec fn pending_awaits(p: PendingView, input: PendingInput) -> bool {
    match p.phase {
        PendingPhaseView::Waiting => !(input is Found),
        PendingPhaseView::LookingUp(_) => input is Found,
        PendingPhaseView::Finished => false,
    }
}

pub open spec fn pending_ends(p: PendingView, end: PendingEndView) -> (
    PendingView,
    PendingOutput,
) {
    (PendingView { phase: PendingPhaseView::Finished, ..p }, PendingOutput::Finish(end))
}

/// The channel behind the event, and what it does then. A channel on which the client sends first
/// may be an upload; one on which the server sends first is none.
pub open spec fn pending_next(p: PendingView, input: PendingInput) -> (PendingView, PendingOutput) {
    match (p.phase, input) {
        (PendingPhaseView::LookingUp(head), PendingInput::Found(upload)) => pending_ends(
            p,
            PendingEndView::Relay { client_head: head, server_head: Seq::empty(), upload },
        ),
        (_, PendingInput::Client(data)) => if data.len() == 0 {
            pending_ends(p, PendingEndView::ClientClosed)
        } else {
            (
                PendingView { phase: PendingPhaseView::LookingUp(data), ..p },
                PendingOutput::LookUp,
            )
        },
        (_, PendingInput::Server(data)) => if data.len() == 0 {
            pending_ends(p, PendingEndView::ServerClosed)
        } else {
            pending_ends(
                p,
                PendingEndView::Relay {
                    client_head: Seq::empty(),
                    server_head: data,
                    upload: None,
                },
            )
        },
        (_, PendingInput::Tick(quit)) => {
            let idle = PendingView { idle: p.idle + 1, ..p };
            if p.idle + 1 >= p.max_idle_count {
                pending_ends(idle, PendingEndView::Idle(p.idle_period, p.idle + 1))
            } else if quit {
                pending_ends(idle, PendingEndView::ServerQuit)
            } else {
                (idle, PendingOutput::Wait)
            }
        },
        _ => pending_ends(p, PendingEndView::Broken),
    }
}

impl PendingChannel {
    /// While it waits, the channel has not been idle for too long.
    pub open spec fn wf(self) -> bool {
        self.phase is Finished || self.idle == 0 || self.idle < self.max_idle_count
    }

    /// A channel of which nothing is known: it waits.
    pub fn new(idle_period: u128, max_idle_count: usize) -> (r: PendingChannel)
        ensures
            r.wf(),
            r@ == pending_start(idle_period, max_idle_count),
    {
        PendingChannel { idle_period, max_idle_count, idle: 0, phase: PendingPhase::Waiting }
    }

    /// Whether the channel waits for the event.
    pub fn awaits(&self, event: &PendingEvent) -> (r: bool)
        ensures
            r == pending_awaits(self@, event@),
    {
        let found = match event {
            PendingEvent::Found(_) => true,
            _ => false,
        };
        match &self.phase {
            PendingPhase::Waiting => !found,
            PendingPhase::LookingUp(_) => found,
            PendingPhase::Finished => false,
        }
    }

    fn end(&mut self, end: PendingEnd) -> (action: PendingAction)
        ensures
            (final(self)@, action@) == pending_ends(old(self)@, end@),
    {
        self.phase = PendingPhase::Finished;
        PendingAction::Finish(end)
    }

    /// Takes an event that the channel waits for, and tells what to do next.
    pub fn step(&mut self, event: PendingEvent) -> (action: PendingAction)
        requires
            old(self).wf(),
            pending_awaits(old(self)@, event@),
        ensures
            final(self).wf(),
            (final(self)@, action@) == pending_next(old(self)@, event@),
    {
        match event {
            PendingEvent::Client(data) => {
                if data.len() == 0 {
                    self.end(PendingEnd::ClientClosed)
                } else {
                    self.phase = PendingPhase::LookingUp(data);
                    PendingAction::LookUp
                }
            },
            PendingEvent::Server(data) => {
                if data.len() == 0 {
                    self.end(PendingEnd::ServerClosed)
                } else {
                    let none: Vec<u8> = Vec::new();
                    assert(none@ =~= Seq::<u8>::empty());
                    self.end(
                        PendingEnd::Relay { client_head: none, server_head: data, upload: None },
                    )
                }
            },
            PendingEvent::Tick(quit) => {
                self.idle = self.idle + 1;
                if self.idle >= self.max_idle_count {
                    let end = PendingEnd::Idle(self.idle_period, self.idle);
                    self.end(end)
                } else if quit {
                    self.end(PendingEnd::ServerQuit)
                } else {
                    PendingAction::Wait
                }
            },
            PendingEvent::Found(upload) => {
                let mut phase = PendingPhase::Finished;
                std::mem::swap(&mut phase, &mut self.phase);
                let none: Vec<u8> = Vec::new();
                assert(none@ =~= Seq::<u8>::empty());
                match phase {
                    PendingPhase::LookingUp(head) => self.end(
                        PendingEnd::Relay { client_head: head, server_head: none, upload },
                    ),
                    _ => self.end(PendingEnd::Broken),
                }
            },
            _ => self.end(PendingEnd::Broken),
        }
    }
}

/// What was read of a channel before it is relayed is relayed first: nothing that either end sent
/// is lost, and nothing was sent on before. Only a client that sent data has its mark looked for.
pub proof fn law_first_bytes_are_relayed(p: PendingView, input: PendingInput)
    requires
        pending_awaits(p, input),
    ensures
        ({
            let (after, output) = pending_next(p, input);
            &&& output == PendingOutput::LookUp <==> (input matches PendingInput::Client(data)
                && data.len() > 0)
            &&& output == PendingOutput::LookUp ==> after.phase == PendingPhaseView::LookingUp(
                input->Client_0,
            )
            &&& output matches PendingOutput::Finish(
                PendingEndView::Relay { client_head, server_head, upload },
            ) ==> {
                ||| p.phase == PendingPhaseView::LookingUp(client_head) && server_head.len() == 0
                    && input == PendingInput::Found(upload)
                ||| client_head.len() == 0 && input == PendingInput::Server(server_head)
                    && upload is None
            }
        }),
{
}

/// The channel after so many ticks of the idle timer and nothing else.
pub open spec fn pending_ticked(p: PendingView, n: nat) -> PendingView
    decreases n,
{
    if n == 0 {
        p
    } else {
        pending_next(pending_ticked(p, (n - 1) as nat), PendingInput::Tick(false)).0
    }
}

/// A channel on which nothing is sent is closed with the given number of ticks, and not before;
/// with a limit of zero it is closed with the first one.
pub proof fn law_idle_channel_ends(idle_period: u128, max_idle_count: usize, n: nat)
    requires
        n <= max_idle_count || n <= 1,
    ensures
        ({
            let p = pending_ticked(pending_start(idle_period, max_idle_count), n);
            &&& p.idle == n
            &&& p.max_idle_count == max_idle_count
            &&& n < max_idle_count || n == 0 ==> p.phase is Waiting
            &&& n > 0 && n >= max_idle_count ==> p.phase is Finished
        }),
    decreases n,
{
    if n > 0 {
        law_idle_channel_ends(idle_period, max_idle_count, (n - 1) as nat);
    }
}

/// A data channel whose upload is known, or is to be looked for.
#[derive(Debug)]
pub struct FtpUploadDataInterceptObject {
    pub upload_info: Option<PendingUploadInfo>,
    pub data_channel_tuple: Option<ConnectionTuple>,
}

/// What is done with a data channel.
#[derive(Debug)]
pub enum DataChannelPlan {
    /// It is relayed both ways; what is needed to audit the upload, where it is audited.
    Relay(Option<FtpUploadAuditContext>),
    /// It is not known whether it is an upload.
    Pending(PendingChannel),
}

/// The ends of a tunnelled data channel.
pub open spec fn tunnel_tuple(own_addr: SocketAddr, server_addr: SocketAddr) -> ConnectionTuple {
    ConnectionTuple {
        server_addr: own_addr,
        remote_addr: server_addr,
        protocol: ConnectionProtocol::Tcp,
    }
}

/// What is needed to audit an upload that was found by its mark; nothing where there is none, or
/// no auditor. `own_addr` is the proxy's own address on the channel.
pub fn found_upload_context(
    ctx: &CommonTaskContext,
    upload: Option<PendingUploadInfo>,
    own_addr: SocketAddr,
    server_addr: SocketAddr,
) -> (r: Option<FtpUploadAuditContext>)
    ensures
        match upload {
            None => r is None,
            Some(u) => crate::task::audit_context(
                *ctx,
                u.ftp_command@,
                u.ftp_path@,
                Some(tunnel_tuple(own_addr, server_addr)),
                None,
                r,
            ),
        },
{
    match upload {
        None => None,
        Some(u) => {
            let tuple = ConnectionTuple {
                server_addr: own_addr,
                remote_addr: server_addr,
                protocol: ConnectionProtocol::Tcp,
            };
            build_audit_context(ctx, u.ftp_command.as_str(), u.ftp_path.as_str(), Some(tuple), None)
        },
    }
}

impl FtpUploadDataInterceptObject {
    pub fn new(upload_info: PendingUploadInfo, data_channel_tuple: Option<ConnectionTuple>) -> (r:
        FtpUploadDataInterceptObject)
        ensures
            r.upload_info == Some(upload_info),
            r.data_channel_tuple == data_channel_tuple,
    {
        FtpUploadDataInterceptObject { upload_info: Some(upload_info), data_channel_tuple }
    }

    /// What is done with the channel.
    pub fn intercept(
        self,
        ctx: &CommonTaskContext,
        idle_period: u128,
        max_idle_count: usize,
    ) -> (r: DataChannelPlan)
        ensures
            match self.upload_info {
                None => r matches DataChannelPlan::Pending(p) && p.wf() && p@ == pending_start(
                    idle_period,
                    max_idle_count,
                ),
                Some(u) => r matches DataChannelPlan::Relay(audit) && crate::task::audit_context(
                    *ctx,
                    u.ftp_command@,
                    u.ftp_path@,
                    self.data_channel_tuple,
                    None,
                    audit,
                ),
            },
    {
        match self.upload_info {
            None => DataChannelPlan::Pending(PendingChannel::new(idle_period, max_idle_count)),
            Some(u) => DataChannelPlan::Relay(
                build_audit_context(
                    ctx,
                    u.ftp_command.as_str(),
                    u.ftp_path.as_str(),
                    self.data_channel_tuple,
                    None,
                ),
            ),
        }
    }
}

// ---------------------------------------------------------------------------
// What the operations are for
// ---------------------------------------------------------------------------

/// A channel on which the client sends first is relayed as the upload that was found for it, with
/// the client's bytes first; one on which the server sends first is relayed with the server's bytes
/// first, as no upload. An end that is closed is told from one that fails.
pub proof fn law_channel_is_decided_by_who_sends_first(
    p: PendingView,
    data: Seq<u8>,
    upload: Option<crate::upload_state::UploadText>,
)
    ensures
        p.phase is Waiting ==> {
            &&& data.len() > 0 ==> {
                let (looking, first) = pending_next(p, PendingInput::Client(data));
                &&& first is LookUp
                &&& pending_next(looking, PendingInput::Found(upload)).1 == PendingOutput::Finish(
                    PendingEndView::Relay {
                        client_head: data,
                        server_head: Seq::empty(),
                        upload,
                    },
                )
                &&& pending_next(p, PendingInput::Server(data)).1 == PendingOutput::Finish(
                    PendingEndView::Relay {
                        client_head: Seq::empty(),
                        server_head: data,
                        upload: None,
                    },
                )
            }
            &&& data.len() == 0 ==> {
                &&& pending_next(p, PendingInput::Client(data)).1 == PendingOutput::Finish(
                    PendingEndView::ClientClosed,
                )
                &&& pending_next(p, PendingInput::Server(data)).1 == PendingOutput::Finish(
                    PendingEndView::ServerClosed,
                )
            }
            &&& pending_next(p, PendingInput::ClientFailed).1 == PendingOutput::Finish(
                PendingEndView::Broken,
            )
            &&& pending_next(p, PendingInput::ServerFailed).1 == PendingOutput::Finish(
                PendingEndView::Broken,
            )
        },
{
}

/// A tick of the idle timer is counted. It ends a channel that was idle for as many ticks as
/// allowed, which is reported with their number and period, and then any where the proxy quits.
pub proof fn law_channel_ticks_are_counted(p: PendingView, quit: bool, input: PendingInput)
    requires
        pending_awaits(p, input),
    ensures
        p.phase is Waiting ==> {
            let (after, output) = pending_next(p, PendingInput::Tick(quit));
            &&& after.idle == p.idle + 1
            &&& output == if p.idle + 1 >= p.max_idle_count {
                PendingOutput::Finish(PendingEndView::Idle(p.idle_period, p.idle + 1))
            } else if quit {
                PendingOutput::Finish(PendingEndView::ServerQuit)
            } else {
                PendingOutput::Wait
            }
        },
        pending_next(p, input).0.idle_period == p.idle_period,
        pending_next(p, input).0.max_idle_count == p.max_idle_count,
        !(input is Tick) ==> pending_next(p, input).0.idle == p.idle,
{
}

/// What a channel does is what it then waits for; while it does nothing, it waits for whatever an
/// end sends and for the idle timer. It begins by waiting, with nothing counted.
pub proof fn law_channel_waits_for_what_it_asked(
    p: PendingView,
    input: PendingInput,
    next: PendingInput,
    idle_period: u128,
    max_idle_count: usize,
)
    requires
        pending_awaits(p, input),
    ensures
        ({
            let (after, output) = pending_next(p, input);
            pending_awaits(after, next) <==> (match output {
                PendingOutput::Wait => !(next is Found),
                PendingOutput::LookUp => next is Found,
                PendingOutput::Finish(_) => false,
            })
        }),
        ({
            let start = pending_start(idle_period, max_idle_count);
            &&& start.phase is Waiting
            &&& start.idle == 0
            &&& start.idle_period == idle_period
            &&& start.max_idle_count == max_idle_count
            &&& pending_awaits(start, next) <==> !(next is Found)
        }),
{
}

/// The proxy's end of a tunnelled data channel is its own address, and the remote end the FTP
/// server's, over TCP.
pub proof fn law_ends_of_a_tunnelled_channel(own_addr: SocketAddr, server_addr: SocketAddr)
    ensures
        tunnel_tuple(own_addr, server_addr).server_addr == own_addr,
        tunnel_tuple(own_addr, server_addr).remote_addr == server_addr,
        tunnel_tuple(own_addr, server_addr).protocol == ConnectionProtocol::Tcp,
{
}

/// A data channel belongs to a client and a server by their hosts, whatever the ports.
pub proof fn law_channels_are_told_apart_by_hosts(
    client: SocketAddr,
    server: SocketAddr,
    other_client: SocketAddr,
    other_server: SocketAddr,
)
    ensures
        channel_pair(client, server) == channel_pair(other_client, other_server) <==> client.ip
            == other_client.ip && server.ip == other_server.ip,
        channel_pair(client, server).client == client.ip,
        channel_pair(client, server).server == server.ip,
{
}

} // verus!
