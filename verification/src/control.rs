//! The relay of a control channel whose data channels pass through the proxy.
//!
//! Lines and replies are passed on as they are, with two exceptions: the reply to a passive
//! command is rewritten so that the client connects to a listener of the proxy, and a command
//! that needs a data channel makes the proxy run that channel.

use crate::command::{
    extract_cmd_path, is_data_channel_command, is_epsv_command, is_pasv_command, is_upload_command,
};
use crate::net::{IpAddr, Ipv4Addr, SocketAddr};
use crate::passive::{
    is_reply_of, parse_pasv_response, rewrite_epsv_response, rewrite_pasv_response,
};
use vstd::prelude::*;
use vstd::string::*;

verus! {

/// Where the control channel comes from.
#[derive(Clone, Copy, Debug, PartialEq, Eq, Structural)]
pub enum RelayMode {
    /// A client that speaks FTP to the proxy. The relay ends after so many ticks of the idle
    /// timer without a line of the client.
    Native { max_idle_count: usize },
    /// A tunnel through an HTTP proxy.
    Bridge,
}

/// What a data channel is for.
#[derive(Debug)]
pub enum Transfer {
    /// A file for the server, and the command and the path that are reported of it.
    Upload { cmd: String, path: String },
    /// A file or a listing for the client.
    Download,
}

/// What a relay waits for.
#[derive(Debug)]
pub enum ControlPhase {
    /// The greeting of the server.
    Greeting,
    /// A line of the client, bytes of the server, or a tick of the idle timer.
    Waiting,
    /// The line to be written to the server.
    Forwarding,
    /// The command of a transfer to be written to the server.
    Requesting(Transfer),
    /// The reply that announces the transfer.
    Announcing(Transfer),
    /// That reply to be written to the client.
    Announced(Transfer),
    /// The data channel to end; tells whether it is an upload.
    Transferring(bool),
    /// The reply that concludes the transfer.
    Concluding,
    /// The passive command to be written to the server; tells whether it is `EPSV`.
    Asking(bool),
    /// The reply to the passive command.
    Answering(bool),
    /// A listener for the data channel, in place of the server's address.
    Opening { epsv: bool, addr: SocketAddr, reply: Vec<u8> },
    /// Bytes of the server to be written to the client.
    Relaying,
    /// A reply to be written to the client.
    Telling,
    Finished,
}

/// The relay of a control channel.
#[derive(Debug)]
pub struct ControlRelay {
    pub mode: RelayMode,
    /// The server's address, for replies that name a port alone.
    pub upstream_ip: Ipv4Addr,
    /// The server's address of a data channel for which a listener waits.
    pub pending: Option<SocketAddr>,
    /// The ticks of the idle timer since the client's last line.
    pub idle: usize,
    pub phase: ControlPhase,
}

/// What became of the listener for a data channel.
#[derive(Clone, Copy, Debug, PartialEq, Eq, Structural)]
pub enum Listener {
    /// It could not be opened.
    Refused,
    /// It is open, but its port is not known.
    NoAddress,
    /// It is open at the port.
    Port(u16),
}

/// What a relay is told.
#[derive(Debug)]
pub enum ControlEvent {
    /// A line of the client; empty where the client has closed the channel.
    Client(Vec<u8>),
    ClientFailed,
    /// Bytes of the server; none where the server has closed the channel.
    Server(Vec<u8>),
    ServerFailed,
    /// The idle timer ticked, and whether the proxy is about to quit.
    Tick(bool),
    /// The last write is over, and whether it succeeded.
    Sent(bool),
    /// The reply that was read, if any came.
    Reply(Option<Vec<u8>>),
    Opened(Listener),
    /// The data channel is over, and whether both its ends were connected.
    DataDone(bool),
}

/// What a relay does next.
#[derive(Debug)]
pub enum ControlAction {
    /// Wait for the client, the server and the idle timer, in this order of preference.
    Wait,
    SendServer(Vec<u8>),
    SendClient(Vec<u8>),
    /// Read a whole reply of the server.
    ReadReply,
    OpenListener,
    /// Accept the client at the listener, connect to the server at the address, and run the
    /// transfer. The listener is closed.
    Run { addr: SocketAddr, transfer: Transfer },
    Finish,
}

#[verifier::ext_equal]
pub enum TransferText {
    Upload { cmd: Seq<char>, path: Seq<char> },
    Download,
}

#[verifier::ext_equal]
pub enum ControlPhaseView {
    Greeting,
    Waiting,
    Forwarding,
    Requesting(TransferText),
    Announcing(TransferText),
    Announced(TransferText),
    Transferring(bool),
    Concluding,
    Asking(bool),
    Answering(bool),
    Opening { epsv: bool, addr: SocketAddr, reply: Seq<u8> },
    Relaying,
    Telling,
    Finished,
}

#[verifier::ext_equal]
pub struct ControlView {
    pub mode: RelayMode,
    pub upstream_ip: Ipv4Addr,
    pub pending: Option<SocketAddr>,
    pub idle: nat,
    pub phase: ControlPhaseView,
}

#[verifier::ext_equal]
pub enum ControlInput {
    Client(Seq<u8>),
    ClientFailed,
    Server(Seq<u8>),
    ServerFailed,
    Tick(bool),
    Sent(bool),
    Reply(Option<Seq<u8>>),
    Opened(Listener),
    DataDone(bool),
}

#[verifier::ext_equal]
pub enum ControlOutput {
    Wait,
    SendServer(Seq<u8>),
    SendClient(Seq<u8>),
    ReadReply,
    OpenListener,
    Run { addr: SocketAddr, transfer: TransferText },
    Finish,
}

impl View for Transfer {
    type V = TransferText;

    open spec fn view(&self) -> TransferText {
        match self {
            Transfer::Upload { cmd, path } => TransferText::Upload { cmd: cmd@, path: path@ },
            Transfer::Download => TransferText::Download,
        }
    }
}

impl View for ControlPhase {
    type V = ControlPhaseView;

    open spec fn view(&self) -> ControlPhaseView {
        match self {
            ControlPhase::Greeting => ControlPhaseView::Greeting,
            ControlPhase::Waiting => ControlPhaseView::Waiting,
            ControlPhase::Forwarding => ControlPhaseView::Forwarding,
            ControlPhase::Requesting(t) => ControlPhaseView::Requesting(t@),
            ControlPhase::Announcing(t) => ControlPhaseView::Announcing(t@),
            ControlPhase::Announced(t) => ControlPhaseView::Announced(t@),
            ControlPhase::Transferring(upload) => ControlPhaseView::Transferring(*upload),
            ControlPhase::Concluding => ControlPhaseView::Concluding,
            ControlPhase::Asking(epsv) => ControlPhaseView::Asking(*epsv),
            ControlPhase::Answering(epsv) => ControlPhaseView::Answering(*epsv),
            ControlPhase::Opening { epsv, addr, reply } => ControlPhaseView::Opening {
                epsv: *epsv,
                addr: *addr,
                reply: reply@,
            },
            ControlPhase::Relaying => ControlPhaseView::Relaying,
            ControlPhase::Telling => ControlPhaseView::Telling,
            ControlPhase::Finished => ControlPhaseView::Finished,
        }
    }
}

impl View for ControlRelay {
    type V = ControlView;

    open spec fn view(&self) -> ControlView {
        ControlView {
            mode: self.mode,
            upstream_ip: self.upstream_ip,
            pending: self.pending,
            idle: self.idle as nat,
            phase: self.phase@,
        }
    }
}

pub open spec fn bytes_of(b: Option<Vec<u8>>) -> Option<Seq<u8>> {
    match b {
        Some(b) => Some(b@),
        None => None,
    }
}

impl View for ControlEvent {
    type V = ControlInput;

    open spec fn view(&self) -> ControlInput {
        match self {
            ControlEvent::Client(line) => ControlInput::Client(line@),
            ControlEvent::ClientFailed => ControlInput::ClientFailed,
            ControlEvent::Server(bytes) => ControlInput::Server(bytes@),
            ControlEvent::ServerFailed => ControlInput::ServerFailed,
            ControlEvent::Tick(quit) => ControlInput::Tick(*quit),
            ControlEvent::Sent(done) => ControlInput::Sent(*done),
            ControlEvent::Reply(reply) => ControlInput::Reply(bytes_of(*reply)),
            ControlEvent::Opened(listener) => ControlInput::Opened(*listener),
            ControlEvent::DataDone(ran) => ControlInput::DataDone(*ran),
        }
    }
}

impl View for ControlAction {
    type V = ControlOutput;

    open spec fn view(&self) -> ControlOutput {
        match self {
            ControlAction::Wait => ControlOutput::Wait,
            ControlAction::SendServer(bytes) => ControlOutput::SendServer(bytes@),
            ControlAction::SendClient(bytes) => ControlOutput::SendClient(bytes@),
            ControlAction::ReadReply => ControlOutput::ReadReply,
            ControlAction::OpenListener => ControlOutput::OpenListener,
            ControlAction::Run { addr, transfer } => ControlOutput::Run {
                addr: *addr,
                transfer: transfer@,
            },
            ControlAction::Finish => ControlOutput::Finish,
        }
    }
}

// ---------------------------------------------------------------------------
// Steps
// ---------------------------------------------------------------------------

/// A relay at its beginning, and what it does first: a native one reads the greeting.
pub open spec fn control_start(mode: RelayMode, upstream_ip: Ipv4Addr) -> (
    ControlView,
    ControlOutput,
) {
    (
        ControlView {
            mode,
            upstream_ip,
            pending: None,
            idle: 0,
            phase: if mode is Native {
                ControlPhaseView::Greeting
            } else {
                ControlPhaseView::Waiting
            },
        },
        if mode is Native {
            ControlOutput::ReadReply
        } else {
            ControlOutput::Wait
        },
    )
}

/// The relay has not been idle for too long.
pub open spec fn idle_ok(c: ControlView) -> bool {
    c.idle == 0 || (c.mode matches RelayMode::Native { max_idle_count } && c.idle < max_idle_count)
}

/// The event is one that the relay waits for.
pub open spec fn control_awaits(c: ControlView, input: ControlInput) -> bool {
    match c.phase {
        ControlPhaseView::Greeting
        | ControlPhaseView::Announcing(_)
        | ControlPhaseView::Answering(_)
        | ControlPhaseView::Concluding => input is Reply,
        ControlPhaseView::Waiting => input is Client || input is ClientFailed || input is Server
            || input is ServerFailed || (input is Tick && c.mode is Native),
        ControlPhaseView::Forwarding
        | ControlPhaseView::Requesting(_)
        | ControlPhaseView::Announced(_)
        | ControlPhaseView::Asking(_)
        | ControlPhaseView::Relaying
        | ControlPhaseView::Telling => input is Sent,
        ControlPhaseView::Transferring(_) => input is DataDone,
        ControlPhaseView::Opening { .. } => input is Opened,
        ControlPhaseView::Finished => false,
    }
}

pub open spec fn at(c: ControlView, phase: ControlPhaseView) -> ControlView {
    ControlView { phase, ..c }
}

pub open spec fn waits(c: ControlView) -> (ControlView, ControlOutput) {
    (at(c, ControlPhaseView::Waiting), ControlOutput::Wait)
}

pub open spec fn finishes(c: ControlView) -> (ControlView, ControlOutput) {
    (at(c, ControlPhaseView::Finished), ControlOutput::Finish)
}

pub open spec fn tells(c: ControlView, reply: Seq<u8>) -> (ControlView, ControlOutput) {
    (at(c, ControlPhaseView::Telling), ControlOutput::SendClient(reply))
}

pub open spec fn concludes(c: ControlView) -> (ControlView, ControlOutput) {
    (at(c, ControlPhaseView::Concluding), ControlOutput::ReadReply)
}

/// What is reported of an upload: a tunnelled one has a fixed name.
pub open spec fn upload_of(c: ControlView, line: Seq<u8>) -> TransferText {
    if c.mode is Native {
        TransferText::Upload {
            cmd: crate::command::line_command(line),
            path: crate::command::line_path(line),
        }
    } else {
        TransferText::Upload { cmd: "STOR"@, path: "ftp-over-connect"@ }
    }
}

/// The relay with a line of the client.
pub open spec fn takes_line(c: ControlView, line: Seq<u8>) -> (ControlView, ControlOutput) {
    let heard = ControlView { idle: 0, ..c };
    let phase = if crate::command::upload_command(line) {
        ControlPhaseView::Requesting(upload_of(c, line))
    } else if crate::command::data_channel_command(line) {
        ControlPhaseView::Requesting(TransferText::Download)
    } else if crate::command::pasv_command(line) && c.pending is None {
        ControlPhaseView::Asking(crate::command::epsv_command(line))
    } else {
        ControlPhaseView::Forwarding
    };
    if line.len() == 0 {
        finishes(c)
    } else {
        (at(heard, phase), ControlOutput::SendServer(line))
    }
}

/// The relay with a transfer to run: it needs a listener that waits. Without one a native upload
/// is left to the server.
pub open spec fn runs(c: ControlView, transfer: TransferText) -> (ControlView, ControlOutput) {
    match c.pending {
        Some(addr) => (
            ControlView {
                pending: None,
                phase: ControlPhaseView::Transferring(transfer is Upload),
                ..c
            },
            ControlOutput::Run { addr, transfer },
        ),
        None => if c.mode is Native && transfer is Upload {
            waits(c)
        } else {
            concludes(c)
        },
    }
}

/// The address of a data channel that a reply to a passive command offers. A reply of another code
/// than the command asks for is left as it is, and offers none.
pub open spec fn offered_address(epsv: bool, reply: Seq<u8>, upstream_ip: Ipv4Addr) -> Option<
    SocketAddr,
> {
    if crate::passive::has_code_of(epsv, reply) {
        crate::passive::pasv_address(reply, upstream_ip)
    } else {
        None
    }
}

/// The proxy's address that a client is told.
pub open spec fn proxy_addr(port: u16) -> SocketAddr {
    SocketAddr { ip: IpAddr::V4(Ipv4Addr { a: 127, b: 0, c: 0, d: 1 }), port }
}

/// The reply to a passive command with the listener's port in place of the server's address.
pub open spec fn rewritten(epsv: bool, reply: Seq<u8>, port: u16) -> Seq<u8> {
    if epsv {
        crate::passive::epsv_rewritten(reply, port)
    } else {
        crate::passive::pasv_rewritten(reply, Some(proxy_addr(port)))
    }
}

/// The port that a client is told of a listener, if the listener is used. One whose port is not
/// known a native relay takes to be at port zero, and a bridge does not use it.
pub open spec fn usable_port(mode: RelayMode, listener: Listener) -> Option<u16> {
    match listener {
        Listener::Refused => None,
        Listener::NoAddress => if mode is Native {
            Some(0)
        } else {
            None
        },
        Listener::Port(port) => Some(port),
    }
}

/// The relay behind the event, and what it does then.
pub open spec fn control_next(c: ControlView, input: ControlInput) -> (
    ControlView,
    ControlOutput,
) {
    match (c.phase, input) {
        (ControlPhaseView::Greeting, ControlInput::Reply(r)) => match r {
            Some(greeting) => tells(c, greeting),
            None => waits(c),
        },
        (ControlPhaseView::Waiting, ControlInput::Client(line)) => takes_line(c, line),
        (ControlPhaseView::Waiting, ControlInput::Server(bytes)) => if bytes.len() == 0 {
            finishes(c)
        } else {
            (at(c, ControlPhaseView::Relaying), ControlOutput::SendClient(bytes))
        },
        (ControlPhaseView::Waiting, ControlInput::Tick(quit)) => {
            let idle = ControlView { idle: c.idle + 1, ..c };
            match c.mode {
                RelayMode::Native { max_idle_count } => if c.idle + 1 >= max_idle_count || quit {
                    finishes(idle)
                } else {
                    waits(idle)
                },
                RelayMode::Bridge => waits(c),
            }
        },
        (ControlPhaseView::Forwarding, ControlInput::Sent(done)) => if done {
            waits(c)
        } else {
            finishes(c)
        },
        (ControlPhaseView::Requesting(t), ControlInput::Sent(done)) => if !done {
            finishes(c)
        } else if c.mode is Native && t is Upload {
            runs(c, t)
        } else {
            (at(c, ControlPhaseView::Announcing(t)), ControlOutput::ReadReply)
        },
        (ControlPhaseView::Announcing(t), ControlInput::Reply(r)) => match r {
            Some(reply) => (
                at(c, ControlPhaseView::Announced(t)),
                ControlOutput::SendClient(reply),
            ),
            None => runs(c, t),
        },
        (ControlPhaseView::Announced(t), ControlInput::Sent(_)) => runs(c, t),
        (ControlPhaseView::Transferring(upload), ControlInput::DataDone(ran)) => if c.mode is Native
            && upload && !ran {
            waits(c)
        } else {
            concludes(c)
        },
        (ControlPhaseView::Concluding, ControlInput::Reply(r)) => match r {
            Some(reply) => tells(c, reply),
            None => waits(c),
        },
        (ControlPhaseView::Asking(epsv), ControlInput::Sent(done)) => if done {
            (at(c, ControlPhaseView::Answering(epsv)), ControlOutput::ReadReply)
        } else {
            finishes(c)
        },
        (ControlPhaseView::Answering(epsv), ControlInput::Reply(r)) => match r {
            None => waits(c),
            Some(reply) => match offered_address(epsv, reply, c.upstream_ip) {
                Some(addr) => (
                    at(c, ControlPhaseView::Opening { epsv, addr, reply }),
                    ControlOutput::OpenListener,
                ),
                None => tells(c, reply),
            },
        },
        (ControlPhaseView::Opening { epsv, addr, reply }, ControlInput::Opened(listener)) =>
            match usable_port(c.mode, listener) {
            Some(port) => tells(
                ControlView { pending: Some(addr), ..c },
                rewritten(epsv, reply, port),
            ),
            None => tells(c, reply),
        },
        (ControlPhaseView::Relaying, ControlInput::Sent(done)) => if done {
            waits(c)
        } else {
            finishes(c)
        },
        (ControlPhaseView::Telling, ControlInput::Sent(_)) => waits(c),
        _ => finishes(c),
    }
}

/// The bytes that an event adds to the counters of a native relay: those of the client's lines,
/// and those of the greeting and of what the server sends on its own.
pub open spec fn control_count(c: ControlView, input: ControlInput) -> (nat, nat) {
    match (c.mode, c.phase, input) {
        (
            RelayMode::Native { .. },
            ControlPhaseView::Waiting,
            ControlInput::Client(line),
        ) => (line.len(), 0),
        (
            RelayMode::Native { .. },
            ControlPhaseView::Waiting,
            ControlInput::Server(bytes),
        ) => (0, bytes.len()),
        (
            RelayMode::Native { .. },
            ControlPhaseView::Greeting,
            ControlInput::Reply(Some(greeting)),
        ) => (0, greeting.len()),
        _ => (0, 0),
    }
}

impl ControlRelay {
    /// While it runs, the relay has not been idle for too long.
    pub open spec fn wf(self) -> bool {
        self.phase is Finished || idle_ok(self@)
    }

    /// A relay at its beginning, and what it does first.
    pub fn start(mode: RelayMode, upstream_ip: Ipv4Addr) -> (r: (ControlRelay, ControlAction))
        ensures
            r.0.wf(),
            (r.0@, r.1@) == control_start(mode, upstream_ip),
    {
        match mode {
            RelayMode::Native { .. } => (
                ControlRelay {
                    mode,
                    upstream_ip,
                    pending: None,
                    idle: 0,
                    phase: ControlPhase::Greeting,
                },
                ControlAction::ReadReply,
            ),
            RelayMode::Bridge => (
                ControlRelay {
                    mode,
                    upstream_ip,
                    pending: None,
                    idle: 0,
                    phase: ControlPhase::Waiting,
                },
                ControlAction::Wait,
            ),
        }
    }

    fn is_native(&self) -> (r: bool)
        ensures
            r == (self.mode is Native),
    {
        match self.mode {
            RelayMode::Native { .. } => true,
            RelayMode::Bridge => false,
        }
    }

    /// Whether the relay waits for the event.
    pub fn awaits(&self, event: &ControlEvent) -> (r: bool)
        ensures
            r == control_awaits(self@, event@),
    {
        match (&self.phase, event) {
            (ControlPhase::Greeting, ControlEvent::Reply(_)) => true,
            (ControlPhase::Announcing(_), ControlEvent::Reply(_)) => true,
            (ControlPhase::Concluding, ControlEvent::Reply(_)) => true,
            (ControlPhase::Answering(_), ControlEvent::Reply(_)) => true,
            (ControlPhase::Waiting, ControlEvent::Client(_)) => true,
            (ControlPhase::Waiting, ControlEvent::ClientFailed) => true,
            (ControlPhase::Waiting, ControlEvent::Server(_)) => true,
            (ControlPhase::Waiting, ControlEvent::ServerFailed) => true,
            (ControlPhase::Waiting, ControlEvent::Tick(_)) => self.is_native(),
            (ControlPhase::Forwarding, ControlEvent::Sent(_)) => true,
            (ControlPhase::Requesting(_), ControlEvent::Sent(_)) => true,
            (ControlPhase::Announced(_), ControlEvent::Sent(_)) => true,
            (ControlPhase::Asking(_), ControlEvent::Sent(_)) => true,
            (ControlPhase::Relaying, ControlEvent::Sent(_)) => true,
            (ControlPhase::Telling, ControlEvent::Sent(_)) => true,
            (ControlPhase::Transferring(_), ControlEvent::DataDone(_)) => true,
            (ControlPhase::Opening { .. }, ControlEvent::Opened(_)) => true,
            _ => false,
        }
    }

    /// The bytes that an event adds to the counters of the client's and the server's bytes.
    pub fn count(&self, event: &ControlEvent) -> (r: (u64, u64))
        ensures
            (r.0 as nat, r.1 as nat) == control_count(self@, event@),
    {
        match (self.mode, &self.phase, event) {
            (RelayMode::Native { .. }, ControlPhase::Waiting, ControlEvent::Client(line)) => {
                (line.len() as u64, 0)
            },
            (RelayMode::Native { .. }, ControlPhase::Waiting, ControlEvent::Server(bytes)) => {
                (0, bytes.len() as u64)
            },
            (
                RelayMode::Native { .. },
                ControlPhase::Greeting,
                ControlEvent::Reply(Some(greeting)),
            ) => (0, greeting.len() as u64),
            _ => (0, 0),
        }
    }

    fn wait(&mut self) -> (action: ControlAction)
        requires
            idle_ok(old(self)@),
        ensures
            final(self).wf(),
            (final(self)@, action@) == waits(old(self)@),
    {
        self.phase = ControlPhase::Waiting;
        ControlAction::Wait
    }

    fn finish(&mut self) -> (action: ControlAction)
        ensures
            final(self).wf(),
            (final(self)@, action@) == finishes(old(self)@),
    {
        self.phase = ControlPhase::Finished;
        ControlAction::Finish
    }

    fn tell(&mut self, reply: Vec<u8>) -> (action: ControlAction)
        requires
            idle_ok(old(self)@),
        ensures
            final(self).wf(),
            (final(self)@, action@) == tells(old(self)@, reply@),
    {
        self.phase = ControlPhase::Telling;
        ControlAction::SendClient(reply)
    }

    fn conclude(&mut self) -> (action: ControlAction)
        requires
            idle_ok(old(self)@),
        ensures
            final(self).wf(),
            (final(self)@, action@) == concludes(old(self)@),
    {
        self.phase = ControlPhase::Concluding;
        ControlAction::ReadReply
    }

    fn run(&mut self, transfer: Transfer) -> (action: ControlAction)
        requires
            idle_ok(old(self)@),
        ensures
            final(self).wf(),
            (final(self)@, action@) == runs(old(self)@, transfer@),
    {
        let upload = match &transfer {
            Transfer::Upload { .. } => true,
            Transfer::Download => false,
        };
        match self.pending {
            Some(addr) => {
                self.pending = None;
                self.phase = ControlPhase::Transferring(upload);
                ControlAction::Run { addr, transfer }
            },
            None => {
                if self.is_native() && upload {
                    self.wait()
                } else {
                    self.conclude()
                }
            },
        }
    }

    fn take_line(&mut self, line: Vec<u8>) -> (action: ControlAction)
        requires
            idle_ok(old(self)@),
        ensures
            final(self).wf(),
            (final(self)@, action@) == takes_line(old(self)@, line@),
    {
        if line.len() == 0 {
            return self.finish();
        }
        self.idle = 0;
        if is_upload_command(line.as_slice()) {
            if self.is_native() {
                let (cmd, path) = extract_cmd_path(line.as_slice());
                self.phase = ControlPhase::Requesting(Transfer::Upload { cmd, path });
            } else {
                self.phase = ControlPhase::Requesting(
                    Transfer::Upload {
                        cmd: "STOR".to_owned(),
                        path: "ftp-over-connect".to_owned(),
                    },
                );
            }
        } else if is_data_channel_command(line.as_slice()) {
            self.phase = ControlPhase::Requesting(Transfer::Download);
        } else if is_pasv_command(line.as_slice()) && self.pending.is_none() {
            self.phase = ControlPhase::Asking(is_epsv_command(line.as_slice()));
        } else {
            self.phase = ControlPhase::Forwarding;
        }
        ControlAction::SendServer(line)
    }

    fn take_listener(
        &mut self,
        epsv: bool,
        addr: SocketAddr,
        reply: Vec<u8>,
        listener: Listener,
    ) -> (action: ControlAction)
        requires
            idle_ok(old(self)@),
        ensures
            final(self).wf(),
            (final(self)@, action@) == (match usable_port(old(self)@.mode, listener) {
                Some(port) => tells(
                    ControlView { pending: Some(addr), ..old(self)@ },
                    rewritten(epsv, reply@, port),
                ),
                None => tells(old(self)@, reply@),
            }),
    {
        let port: u16 = match listener {
            Listener::Refused => {
                return self.tell(reply);
            },
            Listener::NoAddress => {
                if !self.is_native() {
                    return self.tell(reply);
                }
                0
            },
            Listener::Port(port) => port,
        };
        self.pending = Some(addr);
        if epsv {
            self.tell(rewrite_epsv_response(reply.as_slice(), port))
        } else {
            let own = SocketAddr::new(IpAddr::V4(Ipv4Addr::localhost()), port);
            self.tell(rewrite_pasv_response(reply.as_slice(), Some(own)))
        }
    }

    /// Takes an event that the relay waits for, and tells what to do next.
    pub fn step(&mut self, event: ControlEvent) -> (action: ControlAction)
        requires
            old(self).wf(),
            control_awaits(old(self)@, event@),
        ensures
            final(self).wf(),
            (final(self)@, action@) == control_next(old(self)@, event@),
    {
        let mut phase = ControlPhase::Finished;
        std::mem::swap(&mut phase, &mut self.phase);
        match (phase, event) {
            (ControlPhase::Waiting, ControlEvent::Client(line)) => self.take_line(line),
            (ControlPhase::Waiting, ControlEvent::Server(bytes)) => {
                if bytes.len() == 0 {
                    self.finish()
                } else {
                    self.phase = ControlPhase::Relaying;
                    ControlAction::SendClient(bytes)
                }
            },
            (ControlPhase::Waiting, ControlEvent::Tick(quit)) => {
                match self.mode {
                    RelayMode::Native { max_idle_count } => {
                        self.idle = self.idle + 1;
                        if self.idle >= max_idle_count || quit {
                            self.finish()
                        } else {
                            self.wait()
                        }
                    },
                    RelayMode::Bridge => self.wait(),
                }
            },
            (ControlPhase::Greeting, ControlEvent::Reply(Some(greeting))) => self.tell(greeting),
            (ControlPhase::Greeting, ControlEvent::Reply(None)) => self.wait(),
            (ControlPhase::Forwarding, ControlEvent::Sent(true)) => self.wait(),
            (ControlPhase::Requesting(transfer), ControlEvent::Sent(true)) => {
                let upload = match &transfer {
                    Transfer::Upload { .. } => true,
                    Transfer::Download => false,
                };
                if self.is_native() && upload {
                    self.run(transfer)
                } else {
                    self.phase = ControlPhase::Announcing(transfer);
                    ControlAction::ReadReply
                }
            },
            (ControlPhase::Announcing(transfer), ControlEvent::Reply(Some(reply))) => {
                self.phase = ControlPhase::Announced(transfer);
                ControlAction::SendClient(reply)
            },
            (ControlPhase::Announcing(transfer), ControlEvent::Reply(None)) => self.run(transfer),
            (ControlPhase::Announced(transfer), ControlEvent::Sent(_)) => self.run(transfer),
            (ControlPhase::Transferring(upload), ControlEvent::DataDone(ran)) => {
                if self.is_native() && upload && !ran {
                    self.wait()
                } else {
                    self.conclude()
                }
            },
            (ControlPhase::Concluding, ControlEvent::Reply(Some(reply))) => self.tell(reply),
            (ControlPhase::Concluding, ControlEvent::Reply(None)) => self.wait(),
            (ControlPhase::Asking(epsv), ControlEvent::Sent(true)) => {
                self.phase = ControlPhase::Answering(epsv);
                ControlAction::ReadReply
            },
            (ControlPhase::Answering(_), ControlEvent::Reply(None)) => self.wait(),
            (ControlPhase::Answering(epsv), ControlEvent::Reply(Some(reply))) => {
                if !is_reply_of(epsv, reply.as_slice()) {
                    return self.tell(reply);
                }
                match parse_pasv_response(reply.as_slice(), self.upstream_ip) {
                    Some(addr) => {
                        self.phase = ControlPhase::Opening { epsv, addr, reply };
                        ControlAction::OpenListener
                    },
                    None => self.tell(reply),
                }
            },
            (ControlPhase::Opening { epsv, addr, reply }, ControlEvent::Opened(listener)) => {
                self.take_listener(epsv, addr, reply, listener)
            },
            (ControlPhase::Relaying, ControlEvent::Sent(true)) => self.wait(),
            (ControlPhase::Telling, ControlEvent::Sent(_)) => self.wait(),
            _ => self.finish(),
        }
    }
}

// ---------------------------------------------------------------------------
// Whole channels
// ---------------------------------------------------------------------------

/// Something that the server sent: a whole reply, or bytes that it sent on its own.
#[verifier::ext_equal]
pub struct ServerPiece {
    pub bytes: Seq<u8>,
    /// Where it is the reply to a passive command for which a listener is opened: whether that
    /// asked for extended passive mode.
    pub asked: Option<bool>,
    /// The port of the listener that was opened for it and is used.
    pub port: Option<u16>,
}

/// What has passed through a relay.
#[verifier::ext_equal]
pub struct ControlRecord {
    /// The client's lines, in a row.
    pub lines: Seq<u8>,
    /// What was written to the server.
    pub to_server: Seq<u8>,
    /// The form of passive mode that the client's last line asked for, until the server replies.
    pub asked: Option<bool>,
    /// What the server sent.
    pub pieces: Seq<ServerPiece>,
    /// What was written to the client, piece by piece.
    pub to_client: Seq<Seq<u8>>,
}

/// The form of passive mode that a line asks for, where no listener waits already.
pub open spec fn asked_by(c: ControlView, line: Seq<u8>) -> Option<bool> {
    if crate::command::pasv_command(line) && c.pending is None {
        Some(crate::command::epsv_command(line))
    } else {
        None
    }
}

/// What has passed through a relay `c` behind the next event and what the relay does then.
pub open spec fn control_record_step(
    c: ControlView,
    record: ControlRecord,
    input: ControlInput,
    output: ControlOutput,
) -> ControlRecord {
    ControlRecord {
        lines: match input {
            ControlInput::Client(line) => record.lines + line,
            _ => record.lines,
        },
        to_server: match output {
            ControlOutput::SendServer(bytes) => record.to_server + bytes,
            _ => record.to_server,
        },
        asked: match input {
            ControlInput::Client(line) => asked_by(c, line),
            ControlInput::Reply(_) => None,
            _ => record.asked,
        },
        pieces: match input {
            ControlInput::Server(bytes) if bytes.len() > 0 => record.pieces.push(
                ServerPiece { bytes, asked: None, port: None },
            ),
            ControlInput::Reply(Some(reply)) => record.pieces.push(
                ServerPiece { bytes: reply, asked: record.asked, port: None },
            ),
            ControlInput::Opened(listener) => record.pieces.drop_last().push(
                ServerPiece {
                    port: usable_port(c.mode, listener),
                    ..record.pieces.last()
                },
            ),
            _ => record.pieces,
        },
        to_client: match output {
            ControlOutput::SendClient(bytes) => record.to_client.push(bytes),
            _ => record.to_client,
        },
    }
}

/// The relay behind a row of events, and what has passed through it.
pub open spec fn control_run(c: ControlView, inputs: Seq<ControlInput>) -> (
    ControlView,
    ControlRecord,
)
    decreases inputs.len(),
{
    if inputs.len() == 0 {
        (
            c,
            ControlRecord {
                lines: Seq::empty(),
                to_server: Seq::empty(),
                asked: None,
                pieces: Seq::empty(),
                to_client: Seq::empty(),
            },
        )
    } else {
        let (before, record) = control_run(c, inputs.drop_last());
        let (after, output) = control_next(before, inputs.last());
        (after, control_record_step(before, record, inputs.last(), output))
    }
}

/// Each event of the row is one that the relay then waits for.
pub open spec fn control_row(c: ControlView, inputs: Seq<ControlInput>) -> bool
    decreases inputs.len(),
{
    inputs.len() > 0 ==> control_row(c, inputs.drop_last()) && control_awaits(
        control_run(c, inputs.drop_last()).0,
        inputs.last(),
    )
}

/// How the client is told a piece: with the listener's port in the form that was asked for, where
/// a listener was opened for it, and otherwise as it is.
pub open spec fn told(piece: ServerPiece) -> Seq<u8> {
    match (piece.asked, piece.port) {
        (Some(epsv), Some(port)) => rewritten(epsv, piece.bytes, port),
        _ => piece.bytes,
    }
}

/// What stands in the parentheses of a reply that tells a client of a listener.
pub open spec fn port_text(epsv: bool, port: u16) -> Seq<u8> {
    if epsv {
        crate::passive::epsv_inner(port)
    } else {
        crate::passive::pasv_inner(Ipv4Addr { a: 127, b: 0, c: 0, d: 1 }, port)
    }
}

/// A listener is opened only for the reply to a passive command that offers a data channel.
pub open spec fn piece_ok(upstream_ip: Ipv4Addr, piece: ServerPiece) -> bool {
    piece.port is Some ==> piece.asked is Some && offered_address(
        piece.asked->0,
        piece.bytes,
        upstream_ip,
    ) is Some
}

/// The relay is about to use a new listener.
pub open spec fn opening(c: ControlView) -> bool {
    c.phase is Asking || c.phase is Answering || c.phase is Opening
}

spec fn control_invariant(c: ControlView, record: ControlRecord) -> bool {
    &&& record.to_server == record.lines
    &&& opening(c) ==> c.pending is None
    &&& record.pieces.len() == record.to_client.len() + if c.phase is Opening {
        1int
    } else {
        0int
    }
    &&& c.phase matches ControlPhaseView::Asking(epsv) ==> record.asked == Some(epsv)
    &&& c.phase matches ControlPhaseView::Answering(epsv) ==> record.asked == Some(epsv)
    &&& record.asked is Some ==> c.phase is Asking || c.phase is Answering || c.phase is Finished
    &&& c.phase matches ControlPhaseView::Opening { epsv, addr, reply } ==> {
        &&& record.pieces.last() == ServerPiece { bytes: reply, asked: Some(epsv), port: None }
        &&& offered_address(epsv, reply, c.upstream_ip) == Some(addr)
    }
    &&& forall|i: int|
        #![trigger record.to_client[i]]
        0 <= i < record.to_client.len() ==> record.to_client[i] == told(record.pieces[i])
            && piece_ok(c.upstream_ip, record.pieces[i])
}

proof fn lemma_control_step(c: ControlView, record: ControlRecord, input: ControlInput)
    requires
        control_invariant(c, record),
        control_awaits(c, input),
    ensures
        ({
            let (after, output) = control_next(c, input);
            control_invariant(after, control_record_step(c, record, input, output))
        }),
{
    let (after, output) = control_next(c, input);
    let now = control_record_step(c, record, input, output);
    if let ControlInput::Client(line) = input {
        crate::command::law_command_classes(line);
        if line.len() == 0 {
            assert(now.lines =~= record.lines);
        }
    }
    if let ControlPhaseView::Opening { epsv, addr, reply } = after.phase {
        assert(now.pieces.last() =~= ServerPiece { bytes: reply, asked: Some(epsv), port: None });
    }
    assert forall|i: int|
        #![trigger now.to_client[i]]
        0 <= i < now.to_client.len() implies now.to_client[i] == told(now.pieces[i]) && piece_ok(
        after.upstream_ip,
        now.pieces[i],
    ) by {
        if i < record.to_client.len() {
            assert(now.to_client[i] == record.to_client[i]);
            assert(now.pieces[i] == record.pieces[i]);
        }
    }
}

proof fn lemma_control_invariant(c: ControlView, inputs: Seq<ControlInput>)
    requires
        !opening(c),
        control_row(c, inputs),
    ensures
        ({
            let (now, record) = control_run(c, inputs);
            control_invariant(now, record) && now.upstream_ip == c.upstream_ip
        }),
    decreases inputs.len(),
{
    if inputs.len() > 0 {
        lemma_control_invariant(c, inputs.drop_last());
        let (before, record) = control_run(c, inputs.drop_last());
        lemma_control_step(before, record, inputs.last());
    }
}

/// The server is written every line of the client, in order, as it is.
pub proof fn law_lines_reach_the_server(
    mode: RelayMode,
    upstream_ip: Ipv4Addr,
    inputs: Seq<ControlInput>,
)
    requires
        control_row(control_start(mode, upstream_ip).0, inputs),
    ensures
        ({
            let (c, record) = control_run(control_start(mode, upstream_ip).0, inputs);
            record.to_server == record.lines
        }),
{
    lemma_control_invariant(control_start(mode, upstream_ip).0, inputs);
}

/// The client is written every piece that the server sends, in order and once. It is written as it
/// is, but for the reply to a passive command that offers a data channel and for which a listener
/// was opened: that one names the listener's port, in the form that the command asked for. At most
/// one piece is held back, while a listener is opened.
pub proof fn law_replies_reach_the_client(
    mode: RelayMode,
    upstream_ip: Ipv4Addr,
    inputs: Seq<ControlInput>,
)
    requires
        control_row(control_start(mode, upstream_ip).0, inputs),
    ensures
        ({
            let (c, record) = control_run(control_start(mode, upstream_ip).0, inputs);
            &&& record.pieces.len() == record.to_client.len() + if c.phase is Opening {
                1int
            } else {
                0int
            }
            &&& forall|i: int|
                #![trigger record.to_client[i]]
                0 <= i < record.to_client.len() ==> record.to_client[i] == told(record.pieces[i])
                    && piece_ok(upstream_ip, record.pieces[i])
        }),
{
    lemma_control_invariant(control_start(mode, upstream_ip).0, inputs);
}

/// A client that is told of a listener reads its port from the reply, and the rest of the reply is
/// the server's.
pub proof fn law_listener_is_announced(upstream_ip: Ipv4Addr, piece: ServerPiece)
    requires
        piece_ok(upstream_ip, piece),
    ensures
        piece.port matches Some(port) ==> {
            let (start, end) = crate::passive::group(piece.bytes)->0;
            &&& crate::passive::group(piece.bytes) is Some
            &&& crate::passive::group_body(told(piece)) == Some(port_text(piece.asked->0, port))
            &&& crate::passive::group(told(piece)) matches Some((s, e)) && told(piece).take(s)
                == piece.bytes.take(start) && told(piece).skip(e + 1) == piece.bytes.skip(end + 1)
        },
{
    if let Some(port) = piece.port {
        crate::passive::law_rewriting_keeps_the_rest(piece.bytes, proxy_addr(port), port);
    }
}

/// At most one listener waits at a time: none is opened while another waits.
pub proof fn law_one_listener_at_a_time(
    mode: RelayMode,
    upstream_ip: Ipv4Addr,
    inputs: Seq<ControlInput>,
)
    requires
        control_row(control_start(mode, upstream_ip).0, inputs),
    ensures
        ({
            let c = control_run(control_start(mode, upstream_ip).0, inputs).0;
            opening(c) ==> c.pending is None
        }),
{
    lemma_control_invariant(control_start(mode, upstream_ip).0, inputs);
}

/// A transfer runs over the listener that waits, which then waits no longer. A listener comes to
/// wait, with the address that the server's reply offers, exactly where the client is told of it,
/// and waits until a transfer uses it.
pub proof fn law_listener_is_used_once(c: ControlView, input: ControlInput)
    requires
        control_awaits(c, input),
    ensures
        ({
            let (after, output) = control_next(c, input);
            &&& output matches ControlOutput::Run { addr, .. } ==> c.pending == Some(addr)
                && after.pending is None
            &&& !(output is Run) && !(c.phase is Opening) ==> after.pending == c.pending
            &&& c.phase matches ControlPhaseView::Opening { epsv, addr, reply } ==> (
            match usable_port(c.mode, input->Opened_0) {
                Some(port) => after.pending == Some(addr) && output == ControlOutput::SendClient(
                    rewritten(epsv, reply, port),
                ),
                None => after.pending == c.pending && output == ControlOutput::SendClient(reply),
            })
            &&& c.phase matches ControlPhaseView::Answering(asked) ==> after.phase matches
                ControlPhaseView::Opening { epsv, addr, reply } ==> epsv == asked
                && offered_address(epsv, reply, c.upstream_ip) == Some(addr)
        }),
{
}

/// The relay after so many ticks of the idle timer and nothing else.
pub open spec fn ticked(c: ControlView, n: nat) -> ControlView
    decreases n,
{
    if n == 0 {
        c
    } else {
        control_next(ticked(c, (n - 1) as nat), ControlInput::Tick(false)).0
    }
}

/// A native relay whose client stays silent ends with the given number of ticks, and not before;
/// with a limit of zero it ends with the first one.
pub proof fn law_idle_relay_ends(c: ControlView, max_idle_count: usize, n: nat)
    requires
        c.mode == (RelayMode::Native { max_idle_count }),
        c.phase is Waiting,
        c.idle == 0,
        n <= max_idle_count || n <= 1,
    ensures
        ticked(c, n).phase is Finished <==> n > 0 && n >= max_idle_count,
        n < max_idle_count || n == 0 ==> ticked(c, n).phase is Waiting,
{
    lemma_ticked(c, max_idle_count, n);
}

proof fn lemma_ticked(c: ControlView, max_idle_count: usize, n: nat)
    requires
        c.mode == (RelayMode::Native { max_idle_count }),
        c.phase is Waiting,
        c.idle == 0,
        n <= max_idle_count || n <= 1,
    ensures
        ticked(c, n).mode == c.mode,
        ticked(c, n).idle == n,
        n < max_idle_count || n == 0 ==> ticked(c, n).phase is Waiting,
        n > 0 && n >= max_idle_count ==> ticked(c, n).phase is Finished,
    decreases n,
{
    if n > 0 {
        lemma_ticked(c, max_idle_count, (n - 1) as nat);
    }
}

// ---------------------------------------------------------------------------
// What the relay is for
// ---------------------------------------------------------------------------

/// A native relay begins with the server's greeting, and a bridge by waiting; no listener waits.
pub proof fn law_relay_begins(mode: RelayMode, upstream_ip: Ipv4Addr)
    ensures
        ({
            let (c, output) = control_start(mode, upstream_ip);
            &&& c.mode == mode
            &&& c.upstream_ip == upstream_ip
            &&& c.pending is None
            &&& c.idle == 0
            &&& mode is Native ==> c.phase is Greeting && output is ReadReply
            &&& mode is Bridge ==> c.phase is Waiting && output is Wait
        }),
{
}

/// Every line of the client is passed on as it is, whatever it asks for, and only an empty one ends
/// the relay. A line that uploads, moves data or asks for passive mode is remembered as what it
/// is; passive mode is not asked for while a listener waits. A native upload is reported under its
/// own command and path, and a bridged one under a fixed name.
pub proof fn law_line_is_passed_on(c: ControlView, line: Seq<u8>)
    requires
        c.phase is Waiting,
    ensures
        ({
            let (after, output) = control_next(c, ControlInput::Client(line));
            let upload = crate::command::upload_command(line);
            let moves = crate::command::data_channel_command(line);
            let asks = crate::command::pasv_command(line) && c.pending is None;
            &&& line.len() == 0 ==> output is Finish && after.phase is Finished
            &&& line.len() > 0 ==> {
                &&& output == ControlOutput::SendServer(line)
                &&& after.idle == 0
                &&& after.phase is Requesting || after.phase is Asking || after.phase is Forwarding
                &&& after.phase is Requesting <==> moves
                &&& after.phase is Asking <==> asks
                &&& asks ==> after.phase == ControlPhaseView::Asking(
                    crate::command::epsv_command(line),
                )
                &&& moves && !upload ==> after.phase == ControlPhaseView::Requesting(
                    TransferText::Download,
                )
                &&& upload && c.mode is Native ==> after.phase == ControlPhaseView::Requesting(
                    TransferText::Upload {
                        cmd: crate::command::line_command(line),
                        path: crate::command::line_path(line),
                    },
                )
                &&& upload && c.mode is Bridge ==> after.phase == ControlPhaseView::Requesting(
                    TransferText::Upload { cmd: "STOR"@, path: "ftp-over-connect"@ },
                )
            }
        }),
{
    crate::command::law_command_classes(line);
}

/// A native upload runs as soon as its command is written. Before any other transfer, the reply
/// that announces it is read and passed on as it is.
pub proof fn law_transfer_is_announced(
    c: ControlView,
    transfer: TransferText,
    reply: Seq<u8>,
)
    ensures
        c.phase == ControlPhaseView::Requesting(transfer) ==> {
            let (after, output) = control_next(c, ControlInput::Sent(true));
            if c.mode is Native && transfer is Upload {
                match c.pending {
                    Some(addr) => output == ControlOutput::Run { addr, transfer },
                    None => output is Wait && after.phase is Waiting,
                }
            } else {
                output is ReadReply && after.phase == ControlPhaseView::Announcing(transfer)
            }
        },
        c.phase == ControlPhaseView::Announcing(transfer) ==> control_next(
            c,
            ControlInput::Reply(Some(reply)),
        ) == (
            ControlView { phase: ControlPhaseView::Announced(transfer), ..c },
            ControlOutput::SendClient(reply),
        ),
{
}

/// In either mode and for every transfer, once the announcement is dealt with, a relay with a
/// listener that waits runs the transfer over it, to the address that the server named, and the
/// listener waits no longer. Without a listener nothing is run.
pub proof fn law_announced_transfer_runs(
    c: ControlView,
    transfer: TransferText,
    input: ControlInput,
)
    requires
        ({
            ||| c.phase == ControlPhaseView::Announced(transfer) && input is Sent
            ||| c.phase == ControlPhaseView::Announcing(transfer) && input
                == ControlInput::Reply(None)
            ||| c.phase == ControlPhaseView::Requesting(transfer) && input == ControlInput::Sent(
                true,
            ) && c.mode is Native && transfer is Upload
        }),
    ensures
        ({
            let (after, output) = control_next(c, input);
            match c.pending {
                Some(addr) => {
                    &&& output == ControlOutput::Run { addr, transfer }
                    &&& after.pending is None
                    &&& after.phase == ControlPhaseView::Transferring(transfer is Upload)
                },
                None => {
                    &&& after.pending is None
                    &&& c.mode is Native && transfer is Upload ==> output is Wait
                    &&& !(c.mode is Native && transfer is Upload) ==> output is ReadReply
                        && after.phase is Concluding
                },
            }
        }),
{
}

/// Behind a transfer the server's last reply is read and passed on as it is; only a native upload
/// whose ends could not be connected has none. A reply that does not come ends nothing.
pub proof fn law_transfer_is_concluded(c: ControlView, ran: bool, reply: Seq<u8>)
    ensures
        c.phase matches ControlPhaseView::Transferring(upload) ==> {
            let (after, output) = control_next(c, ControlInput::DataDone(ran));
            if c.mode is Native && upload && !ran {
                output is Wait && after.phase is Waiting
            } else {
                output is ReadReply && after.phase is Concluding
            }
        },
        c.phase is Concluding || c.phase is Greeting ==> {
            &&& control_next(c, ControlInput::Reply(Some(reply))) == (
                ControlView { phase: ControlPhaseView::Telling, ..c },
                ControlOutput::SendClient(reply),
            )
            &&& control_next(c, ControlInput::Reply(None)) == (
                ControlView { phase: ControlPhaseView::Waiting, ..c },
                ControlOutput::Wait,
            )
        },
{
}

/// Once a passive command is written, the reply to it is read. A listener is opened exactly for a
/// reply that has the code of the form asked for and names an address; any other reply is passed
/// on as it is.
pub proof fn law_passive_command_is_answered(c: ControlView, epsv: bool, reply: Seq<u8>)
    ensures
        c.phase == ControlPhaseView::Asking(epsv) ==> control_next(c, ControlInput::Sent(true)) == (
            ControlView { phase: ControlPhaseView::Answering(epsv), ..c },
            ControlOutput::ReadReply,
        ),
        c.phase == ControlPhaseView::Answering(epsv) ==> {
            let (after, output) = control_next(c, ControlInput::Reply(Some(reply)));
            let code = reply.len() >= 4 && reply[0] == 50 && reply[1] == 50 && reply[2] == if epsv {
                57u8
            } else {
                55u8
            } && (reply[3] == 32 || reply[3] == 45);
            let named = crate::passive::pasv_address(reply, c.upstream_ip);
            &&& code && named is Some ==> output is OpenListener && after.phase
                == ControlPhaseView::Opening { epsv, addr: named->0, reply }
            &&& !(code && named is Some) ==> output == ControlOutput::SendClient(reply)
                && after.phase is Telling
            &&& control_next(c, ControlInput::Reply(None)).1 is Wait
        },
{
}

/// A listener whose port is known is used, in either mode, with this port; one that could not be
/// opened is not. Where the port is not known, a native relay uses port zero.
pub proof fn law_listener_port(mode: RelayMode, port: u16)
    ensures
        usable_port(mode, Listener::Port(port)) == Some(port),
        usable_port(mode, Listener::Refused) is None,
        usable_port(mode, Listener::NoAddress) == if mode is Native {
            Some(0u16)
        } else {
            None
        },
{
}

/// A client that reads the reply to its `PASV` connects to the proxy, at the listener's port, and
/// one that reads a reply of one line to its `EPSV` connects to the listener's port.
pub proof fn law_client_connects_to_the_listener(
    upstream_ip: Ipv4Addr,
    piece: ServerPiece,
    ctrl_peer_ip: Ipv4Addr,
)
    requires
        piece_ok(upstream_ip, piece),
        piece.port is Some,
    ensures
        piece.asked == Some(false) ==> crate::passive::pasv_address(told(piece), ctrl_peer_ip)
            == Some(
            SocketAddr {
                ip: IpAddr::V4(Ipv4Addr { a: 127, b: 0, c: 0, d: 1 }),
                port: piece.port->0,
            },
        ),
        piece.asked == Some(true) && piece.bytes[3] == 32 ==> crate::passive::pasv_address(
            told(piece),
            ctrl_peer_ip,
        ) == Some(SocketAddr { ip: IpAddr::V4(ctrl_peer_ip), port: piece.port->0 }),
{
    let port = piece.port->0;
    let own = Ipv4Addr { a: 127, b: 0, c: 0, d: 1 };
    if piece.asked == Some(false) {
        crate::passive::law_pasv_round_trip(piece.bytes, own, port, ctrl_peer_ip);
    } else if piece.bytes[3] == 32 {
        crate::passive::law_epsv_round_trip(piece.bytes, port, ctrl_peer_ip);
    }
}

/// What the server sends on its own is passed on as it is. Either end that is closed or fails ends
/// the relay, as does a line or such bytes that cannot be written. That a reply could not be
/// written to the client ends nothing.
pub proof fn law_relay_goes_on_while_both_ends_do(c: ControlView, bytes: Seq<u8>, done: bool)
    ensures
        c.phase is Waiting ==> {
            let (after, output) = control_next(c, ControlInput::Server(bytes));
            &&& bytes.len() > 0 ==> output == ControlOutput::SendClient(bytes) && after.phase
                is Relaying
            &&& bytes.len() == 0 ==> output is Finish
            &&& control_next(c, ControlInput::ClientFailed).1 is Finish
            &&& control_next(c, ControlInput::ServerFailed).1 is Finish
        },
        c.phase is Forwarding || c.phase is Relaying ==> {
            let (after, output) = control_next(c, ControlInput::Sent(done));
            if done {
                output is Wait && after.phase is Waiting
            } else {
                output is Finish && after.phase is Finished
            }
        },
        c.phase is Requesting || c.phase is Asking ==> control_next(
            c,
            ControlInput::Sent(false),
        ).1 is Finish,
        c.phase is Telling ==> control_next(c, ControlInput::Sent(done)).1 is Wait,
{
}

/// A tick of the idle timer is counted, and ends a native relay exactly where the limit is reached
/// or the proxy quits. Only a line of the client sets the count back.
pub proof fn law_idle_ticks_are_counted(c: ControlView, quit: bool, input: ControlInput)
    requires
        control_awaits(c, input),
    ensures
        c.phase is Waiting ==> (c.mode matches RelayMode::Native { max_idle_count } ==> {
            let (after, output) = control_next(c, ControlInput::Tick(quit));
            &&& after.idle == c.idle + 1
            &&& output is Finish <==> c.idle + 1 >= max_idle_count || quit
            &&& !(output is Finish) ==> output is Wait && after.phase is Waiting
        }),
        !(input is Tick) && !(input is Client) ==> control_next(c, input).0.idle == c.idle,
{
}

/// The mode and the server's address never change.
pub proof fn law_relay_keeps_its_mode(c: ControlView, input: ControlInput)
    requires
        control_awaits(c, input),
    ensures
        control_next(c, input).0.mode == c.mode,
        control_next(c, input).0.upstream_ip == c.upstream_ip,
{
}

/// What a relay does is what it then waits for: the end of a write, a reply, a listener or the end
/// of a data channel, whatever comes of it; and while it does nothing, whatever an end sends and,
/// in a native relay, the idle timer. A relay that has ended waits for nothing.
pub proof fn law_relay_waits_for_what_it_asked(
    c: ControlView,
    input: ControlInput,
    next: ControlInput,
)
    requires
        control_awaits(c, input),
    ensures
        ({
            let (after, output) = control_next(c, input);
            control_awaits(after, next) <==> (match output {
                ControlOutput::Wait => next is Client || next is ClientFailed || next is Server
                    || next is ServerFailed || (next is Tick && c.mode is Native),
                ControlOutput::SendServer(_) | ControlOutput::SendClient(_) => next is Sent,
                ControlOutput::ReadReply => next is Reply,
                ControlOutput::OpenListener => next is Opened,
                ControlOutput::Run { .. } => next is DataDone,
                ControlOutput::Finish => false,
            })
        }),
{
}

/// A native relay counts the bytes of the client's lines, and those of the greeting and of what the
/// server sends on its own. Nothing else is counted, and nothing in a bridge.
pub proof fn law_bytes_are_counted(c: ControlView, input: ControlInput, bytes: Seq<u8>)
    ensures
        c.mode is Native && c.phase is Waiting ==> control_count(c, ControlInput::Client(bytes)) == (
            bytes.len(),
            0nat,
        ) && control_count(c, ControlInput::Server(bytes)) == (0nat, bytes.len()),
        c.mode is Native && c.phase is Greeting ==> control_count(
            c,
            ControlInput::Reply(Some(bytes)),
        ) == (0nat, bytes.len()),
        c.mode is Bridge || !(input is Client || input is Server || input is Reply) || !(
        c.phase is Waiting || c.phase is Greeting) ==> control_count(c, input) == (0nat, 0nat),
{
}

} // verus!
