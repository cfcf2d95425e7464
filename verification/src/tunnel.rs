//! The relay of a control channel whose data channels are connections of their own.
//!
//! In tunnelled FTP the client connects to the server's data ports itself, so replies are not
//! rewritten. Upload commands are marked, for the data channel to find the mark, and the channel
//! is handed on when the two ends agree on TLS.

use crate::command::{is_auth_tls_command, is_upload_command, upload_cmd_path};
use crate::text;
use crate::text::bytes_start_with;
use vstd::prelude::*;
use vstd::string::*;
use vstd::utf8::*;

verus! {

/// What a relay waits for.
#[derive(Debug)]
pub enum TunnelPhase {
    /// A line of the client, bytes of the server, or a tick of the idle timer.
    Waiting,
    /// The upload to be marked; its line is still to be sent.
    Marking(Vec<u8>),
    /// The line to be written to the server.
    Forwarding,
    /// The request for TLS to be written to the server.
    AskingTls,
    /// The reply to the request for TLS.
    AnsweringTls,
    /// That reply to be written to the client; tells whether TLS begins behind it.
    TellingTls(bool),
    /// Bytes of the server to be written to the client.
    Relaying,
    Finished,
}

/// How a relay ends.
#[derive(Clone, Copy, Debug, PartialEq, Eq, Structural)]
pub enum TunnelEnd {
    /// An end of the channel was closed or failed.
    Done,
    /// Both ends begin with TLS.
    StartTls,
    UserBlocked,
    /// Nothing was sent for so many ticks of the idle timer, which come with the period given
    /// first, in nanoseconds.
    Idle(u128, usize),
    ServerQuit,
}

/// The relay of a tunnelled control channel.
#[derive(Debug)]
pub struct TunnelRelay {
    /// The time between two ticks of the idle timer, in nanoseconds.
    pub idle_period: u128,
    pub max_idle_count: usize,
    /// The ticks of the idle timer since either end sent anything.
    pub idle: usize,
    pub phase: TunnelPhase,
}

/// What a relay is told.
#[derive(Debug)]
pub enum TunnelEvent {
    /// A line of the client; empty where the client has closed the channel.
    Client(Vec<u8>),
    ClientFailed,
    /// Bytes of the server; none where the server has closed the channel.
    Server(Vec<u8>),
    ServerFailed,
    /// The idle timer ticked.
    Tick { user_blocked: bool, force_quit: bool },
    /// The upload is marked.
    Marked,
    /// The last write is over, and whether it succeeded.
    Sent(bool),
    /// The reply that was read, if any came.
    Reply(Option<Vec<u8>>),
}

/// What a relay does next.
#[derive(Debug)]
pub enum TunnelAction {
    /// Wait for the client, the server and the idle timer, in this order of preference.
    Wait,
    /// Mark the upload for its data channel.
    MarkUpload { cmd: String, path: String },
    SendServer(Vec<u8>),
    SendClient(Vec<u8>),
    /// Read a whole reply of the server.
    ReadReply,
    Finish(TunnelEnd),
}

#[verifier::ext_equal]
pub enum TunnelPhaseView {
    Waiting,
    Marking(Seq<u8>),
    Forwarding,
    AskingTls,
    AnsweringTls,
    TellingTls(bool),
    Relaying,
    Finished,
}

#[verifier::ext_equal]
pub struct TunnelView {
    pub idle_period: u128,
    pub max_idle_count: usize,
    pub idle: nat,
    pub phase: TunnelPhaseView,
}

#[verifier::ext_equal]
pub enum TunnelInput {
    Client(Seq<u8>),
    ClientFailed,
    Server(Seq<u8>),
    ServerFailed,
    Tick { user_blocked: bool, force_quit: bool },
    Marked,
    Sent(bool),
    Reply(Option<Seq<u8>>),
}

#[verifier::ext_equal]
pub enum TunnelOutput {
    Wait,
    MarkUpload { cmd: Seq<char>, path: Seq<char> },
    SendServer(Seq<u8>),
    SendClient(Seq<u8>),
    ReadReply,
    Finish(TunnelEnd),
}

impl View for TunnelPhase {
    type V = TunnelPhaseView;

    open spec fn view(&self) -> TunnelPhaseView {
        match self {
            TunnelPhase::Waiting => TunnelPhaseView::Waiting,
            TunnelPhase::Marking(line) => TunnelPhaseView::Marking(line@),
            TunnelPhase::Forwarding => TunnelPhaseView::Forwarding,
            TunnelPhase::AskingTls => TunnelPhaseView::AskingTls,
            TunnelPhase::AnsweringTls => TunnelPhaseView::AnsweringTls,
            TunnelPhase::TellingTls(begins) => TunnelPhaseView::TellingTls(*begins),
            TunnelPhase::Relaying => TunnelPhaseView::Relaying,
            TunnelPhase::Finished => TunnelPhaseView::Finished,
        }
    }
}

impl View for TunnelRelay {
    type V = TunnelView;

    open spec fn view(&self) -> TunnelView {
        TunnelView {
            idle_period: self.idle_period,
            max_idle_count: self.max_idle_count,
            idle: self.idle as nat,
            phase: self.phase@,
        }
    }
}

impl View for TunnelEvent {
    type V = TunnelInput;

    open spec fn view(&self) -> TunnelInput {
        match self {
            TunnelEvent::Client(line) => TunnelInput::Client(line@),
            TunnelEvent::ClientFailed => TunnelInput::ClientFailed,
            TunnelEvent::Server(bytes) => TunnelInput::Server(bytes@),
            TunnelEvent::ServerFailed => TunnelInput::ServerFailed,
            TunnelEvent::Tick { user_blocked, force_quit } => TunnelInput::Tick {
                user_blocked: *user_blocked,
                force_quit: *force_quit,
            },
            TunnelEvent::Marked => TunnelInput::Marked,
            TunnelEvent::Sent(done) => TunnelInput::Sent(*done),
            TunnelEvent::Reply(reply) => TunnelInput::Reply(crate::control::bytes_of(*reply)),
        }
    }
}

impl View for TunnelAction {
    type V = TunnelOutput;

    open spec fn view(&self) -> TunnelOutput {
        match self {
            TunnelAction::Wait => TunnelOutput::Wait,
            TunnelAction::MarkUpload { cmd, path } => TunnelOutput::MarkUpload {
                cmd: cmd@,
                path: path@,
            },
            TunnelAction::SendServer(bytes) => TunnelOutput::SendServer(bytes@),
            TunnelAction::SendClient(bytes) => TunnelOutput::SendClient(bytes@),
            TunnelAction::ReadReply => TunnelOutput::ReadReply,
            TunnelAction::Finish(end) => TunnelOutput::Finish(*end),
        }
    }
}

/// A relay at its beginning: it waits.
pub open spec fn tunnel_start(idle_period: u128, max_idle_count: usize) -> TunnelView {
    TunnelView { idle_period, max_idle_count, idle: 0, phase: TunnelPhaseView::Waiting }
}

/// The event is one that the relay waits for.
pub open spec fn tunnel_awaits(t: TunnelView, input: TunnelInput) -> bool {
    match t.phase {
        TunnelPhaseView::Waiting => input is Client || input is ClientFailed || input is Server
            || input is ServerFailed || input is Tick,
        TunnelPhaseView::Marking(_) => input is Marked,
        TunnelPhaseView::Forwarding
        | TunnelPhaseView::AskingTls
        | TunnelPhaseView::TellingTls(_)
        | TunnelPhaseView::Relaying => input is Sent,
        TunnelPhaseView::AnsweringTls => input is Reply,
        TunnelPhaseView::Finished => false,
    }
}

/// The reply lets TLS begin.
pub open spec fn accepts_tls(reply: Seq<u8>) -> bool {
    text::starts_with(reply, encode_utf8("234"@))
}

pub open spec fn tunnel_at(t: TunnelView, phase: TunnelPhaseView) -> TunnelView {
    TunnelView { phase, ..t }
}

pub open spec fn tunnel_waits(t: TunnelView) -> (TunnelView, TunnelOutput) {
    (tunnel_at(t, TunnelPhaseView::Waiting), TunnelOutput::Wait)
}

pub open spec fn tunnel_ends(t: TunnelView, end: TunnelEnd) -> (TunnelView, TunnelOutput) {
    (tunnel_at(t, TunnelPhaseView::Finished), TunnelOutput::Finish(end))
}

/// The relay behind the event, and what it does then.
pub open spec fn tunnel_next(t: TunnelView, input: TunnelInput) -> (TunnelView, TunnelOutput) {
    let heard = TunnelView { idle: 0, ..t };
    match (t.phase, input) {
        (TunnelPhaseView::Waiting, TunnelInput::Client(line)) => if line.len() == 0 {
            tunnel_ends(t, TunnelEnd::Done)
        } else if crate::command::upload_command(line) {
            (
                tunnel_at(heard, TunnelPhaseView::Marking(line)),
                TunnelOutput::MarkUpload {
                    cmd: crate::command::upload_name(line),
                    path: crate::command::upload_path(line),
                },
            )
        } else if crate::command::auth_tls_command(line) {
            (tunnel_at(heard, TunnelPhaseView::AskingTls), TunnelOutput::SendServer(line))
        } else {
            (tunnel_at(heard, TunnelPhaseView::Forwarding), TunnelOutput::SendServer(line))
        },
        (TunnelPhaseView::Marking(line), TunnelInput::Marked) => (
            tunnel_at(t, TunnelPhaseView::Forwarding),
            TunnelOutput::SendServer(line),
        ),
        (TunnelPhaseView::Waiting, TunnelInput::Server(bytes)) => if bytes.len() == 0 {
            tunnel_ends(t, TunnelEnd::Done)
        } else {
            (tunnel_at(heard, TunnelPhaseView::Relaying), TunnelOutput::SendClient(bytes))
        },
        (TunnelPhaseView::Waiting, TunnelInput::Tick { user_blocked, force_quit }) => {
            let idle = TunnelView { idle: t.idle + 1, ..t };
            if user_blocked {
                tunnel_ends(idle, TunnelEnd::UserBlocked)
            } else if t.idle + 1 >= t.max_idle_count {
                tunnel_ends(idle, TunnelEnd::Idle(t.idle_period, (t.idle + 1) as usize))
            } else if force_quit {
                tunnel_ends(idle, TunnelEnd::ServerQuit)
            } else {
                tunnel_waits(idle)
            }
        },
        (TunnelPhaseView::Forwarding, TunnelInput::Sent(true)) => tunnel_waits(t),
        (TunnelPhaseView::Relaying, TunnelInput::Sent(true)) => tunnel_waits(t),
        (TunnelPhaseView::AskingTls, TunnelInput::Sent(true)) => (
            tunnel_at(t, TunnelPhaseView::AnsweringTls),
            TunnelOutput::ReadReply,
        ),
        (TunnelPhaseView::AnsweringTls, TunnelInput::Reply(r)) => match r {
            None => tunnel_waits(t),
            Some(reply) => (
                tunnel_at(t, TunnelPhaseView::TellingTls(accepts_tls(reply))),
                TunnelOutput::SendClient(reply),
            ),
        },
        (TunnelPhaseView::TellingTls(begins), TunnelInput::Sent(_)) => if begins {
            tunnel_ends(t, TunnelEnd::StartTls)
        } else {
            tunnel_waits(t)
        },
        _ => tunnel_ends(t, TunnelEnd::Done),
    }
}

/// The ticks after which a channel is idle.
pub open spec fn idle_limit(user_max: Option<usize>, server_max: usize) -> usize {
    match user_max {
        Some(max) => max,
        None => server_max,
    }
}

/// The ticks after which a channel is idle: the user's number, if the user has one.
pub fn max_idle_of(user_max: Option<usize>, server_max: usize) -> (r: usize)
    ensures
        r == idle_limit(user_max, server_max),
{
    match user_max {
        Some(max) => max,
        None => server_max,
    }
}

impl TunnelRelay {
    /// While it is relayed, the channel has not been idle for too long.
    pub open spec fn wf(self) -> bool {
        self.phase is Finished || self.idle == 0 || self.idle < self.max_idle_count
    }

    /// A relay at its beginning: it waits.
    pub fn new(idle_period: u128, max_idle_count: usize) -> (r: TunnelRelay)
        ensures
            r.wf(),
            r@ == tunnel_start(idle_period, max_idle_count),
    {
        TunnelRelay { idle_period, max_idle_count, idle: 0, phase: TunnelPhase::Waiting }
    }

    /// Whether the relay waits for the event.
    pub fn awaits(&self, event: &TunnelEvent) -> (r: bool)
        ensures
            r == tunnel_awaits(self@, event@),
    {
        match (&self.phase, event) {
            (TunnelPhase::Waiting, TunnelEvent::Client(_)) => true,
            (TunnelPhase::Waiting, TunnelEvent::ClientFailed) => true,
            (TunnelPhase::Waiting, TunnelEvent::Server(_)) => true,
            (TunnelPhase::Waiting, TunnelEvent::ServerFailed) => true,
            (TunnelPhase::Waiting, TunnelEvent::Tick { .. }) => true,
            (TunnelPhase::Marking(_), TunnelEvent::Marked) => true,
            (TunnelPhase::Forwarding, TunnelEvent::Sent(_)) => true,
            (TunnelPhase::AskingTls, TunnelEvent::Sent(_)) => true,
            (TunnelPhase::TellingTls(_), TunnelEvent::Sent(_)) => true,
            (TunnelPhase::Relaying, TunnelEvent::Sent(_)) => true,
            (TunnelPhase::AnsweringTls, TunnelEvent::Reply(_)) => true,
            _ => false,
        }
    }

    fn wait(&mut self) -> (action: TunnelAction)
        ensures
            (final(self)@, action@) == tunnel_waits(old(self)@),
    {
        self.phase = TunnelPhase::Waiting;
        TunnelAction::Wait
    }

    fn end(&mut self, end: TunnelEnd) -> (action: TunnelAction)
        ensures
            (final(self)@, action@) == tunnel_ends(old(self)@, end),
    {
        self.phase = TunnelPhase::Finished;
        TunnelAction::Finish(end)
    }

    /// Takes an event that the relay waits for, and tells what to do next.
    pub fn step(&mut self, event: TunnelEvent) -> (action: TunnelAction)
        requires
            old(self).wf(),
            tunnel_awaits(old(self)@, event@),
        ensures
            final(self).wf(),
            (final(self)@, action@) == tunnel_next(old(self)@, event@),
    {
        let mut phase = TunnelPhase::Finished;
        std::mem::swap(&mut phase, &mut self.phase);
        match (phase, event) {
            (TunnelPhase::Waiting, TunnelEvent::Client(line)) => {
                if line.len() == 0 {
                    return self.end(TunnelEnd::Done);
                }
                self.idle = 0;
                if is_upload_command(line.as_slice()) {
                    let (cmd, path) = upload_cmd_path(line.as_slice());
                    self.phase = TunnelPhase::Marking(line);
                    return TunnelAction::MarkUpload { cmd, path };
                }
                if is_auth_tls_command(line.as_slice()) {
                    self.phase = TunnelPhase::AskingTls;
                } else {
                    self.phase = TunnelPhase::Forwarding;
                }
                TunnelAction::SendServer(line)
            },
            (TunnelPhase::Marking(line), TunnelEvent::Marked) => {
                self.phase = TunnelPhase::Forwarding;
                TunnelAction::SendServer(line)
            },
            (TunnelPhase::Waiting, TunnelEvent::Server(bytes)) => {
                if bytes.len() == 0 {
                    return self.end(TunnelEnd::Done);
                }
                self.idle = 0;
                self.phase = TunnelPhase::Relaying;
                TunnelAction::SendClient(bytes)
            },
            (TunnelPhase::Waiting, TunnelEvent::Tick { user_blocked, force_quit }) => {
                self.idle = self.idle + 1;
                if user_blocked {
                    self.end(TunnelEnd::UserBlocked)
                } else if self.idle >= self.max_idle_count {
                    self.end(TunnelEnd::Idle(self.idle_period, self.idle))
                } else if force_quit {
                    self.end(TunnelEnd::ServerQuit)
                } else {
                    self.wait()
                }
            },
            (TunnelPhase::Forwarding, TunnelEvent::Sent(true)) => self.wait(),
            (TunnelPhase::Relaying, TunnelEvent::Sent(true)) => self.wait(),
            (TunnelPhase::AskingTls, TunnelEvent::Sent(true)) => {
                self.phase = TunnelPhase::AnsweringTls;
                TunnelAction::ReadReply
            },
            (TunnelPhase::AnsweringTls, TunnelEvent::Reply(None)) => self.wait(),
            (TunnelPhase::AnsweringTls, TunnelEvent::Reply(Some(reply))) => {
                let begins = bytes_start_with(reply.as_slice(), "234".as_bytes());
                self.phase = TunnelPhase::TellingTls(begins);
                TunnelAction::SendClient(reply)
            },
            (TunnelPhase::TellingTls(begins), TunnelEvent::Sent(_)) => {
                if begins {
                    self.end(TunnelEnd::StartTls)
                } else {
                    self.wait()
                }
            },
            _ => self.end(TunnelEnd::Done),
        }
    }
}

// ---------------------------------------------------------------------------
// Whole channels
// ---------------------------------------------------------------------------

/// What has passed through a relay.
#[verifier::ext_equal]
pub struct TunnelRecord {
    /// The client's lines, in a row.
    pub lines: Seq<u8>,
    /// What was written to the server.
    pub to_server: Seq<u8>,
    /// What the server sent.
    pub received: Seq<u8>,
    /// What was written to the client.
    pub to_client: Seq<u8>,
    /// The upload lines of the client.
    pub uploads: Seq<(Seq<char>, Seq<char>)>,
    /// The uploads that were marked.
    pub marks: Seq<(Seq<char>, Seq<char>)>,
}

pub open spec fn tunnel_record_step(
    record: TunnelRecord,
    input: TunnelInput,
    output: TunnelOutput,
) -> TunnelRecord {
    TunnelRecord {
        lines: match input {
            TunnelInput::Client(line) => record.lines + line,
            _ => record.lines,
        },
        to_server: match output {
            TunnelOutput::SendServer(bytes) => record.to_server + bytes,
            _ => record.to_server,
        },
        received: match input {
            TunnelInput::Server(bytes) => record.received + bytes,
            TunnelInput::Reply(Some(reply)) => record.received + reply,
            _ => record.received,
        },
        to_client: match output {
            TunnelOutput::SendClient(bytes) => record.to_client + bytes,
            _ => record.to_client,
        },
        uploads: match input {
            TunnelInput::Client(line) if crate::command::upload_command(line) =>
                record.uploads.push(
                (crate::command::upload_name(line), crate::command::upload_path(line)),
            ),
            _ => record.uploads,
        },
        marks: match output {
            TunnelOutput::MarkUpload { cmd, path } => record.marks.push((cmd, path)),
            _ => record.marks,
        },
    }
}

/// The relay behind a row of events, and what has passed through it.
pub open spec fn tunnel_run(t: TunnelView, inputs: Seq<TunnelInput>) -> (TunnelView, TunnelRecord)
    decreases inputs.len(),
{
    if inputs.len() == 0 {
        (
            t,
            TunnelRecord {
                lines: Seq::empty(),
                to_server: Seq::empty(),
                received: Seq::empty(),
                to_client: Seq::empty(),
                uploads: Seq::empty(),
                marks: Seq::empty(),
            },
        )
    } else {
        let (before, record) = tunnel_run(t, inputs.drop_last());
        let (after, output) = tunnel_next(before, inputs.last());
        (after, tunnel_record_step(record, inputs.last(), output))
    }
}

/// Each event of the row is one that the relay then waits for.
pub open spec fn tunnel_row(t: TunnelView, inputs: Seq<TunnelInput>) -> bool
    decreases inputs.len(),
{
    inputs.len() > 0 ==> tunnel_row(t, inputs.drop_last()) && tunnel_awaits(
        tunnel_run(t, inputs.drop_last()).0,
        inputs.last(),
    )
}

/// A tunnelled channel is passed on as it is, both ways: the server is written the client's lines
/// and the client what the server sends. Every upload line is marked, in order, before it is
/// passed on; nothing else is marked.
pub proof fn law_tunnel_is_verbatim(
    idle_period: u128,
    max_idle_count: usize,
    inputs: Seq<TunnelInput>,
)
    requires
        tunnel_row(tunnel_start(idle_period, max_idle_count), inputs),
    ensures
        ({
            let (t, record) = tunnel_run(tunnel_start(idle_period, max_idle_count), inputs);
            &&& record.to_client == record.received
            &&& record.marks == record.uploads
            &&& record.lines == record.to_server + (match t.phase {
                TunnelPhaseView::Marking(line) => line,
                _ => Seq::empty(),
            })
        }),
    decreases inputs.len(),
{
    let start = tunnel_start(idle_period, max_idle_count);
    if inputs.len() == 0 {
        assert(tunnel_run(start, inputs).1.lines =~= Seq::<u8>::empty() + Seq::<u8>::empty());
    } else {
        law_tunnel_is_verbatim(idle_period, max_idle_count, inputs.drop_last());
        let (before, record) = tunnel_run(start, inputs.drop_last());
        let input = inputs.last();
        let (after, output) = tunnel_next(before, input);
        let now = tunnel_record_step(record, input, output);
        match input {
            TunnelInput::Client(line) => {
                if line.len() == 0 {
                    crate::command::lemma_no_command_in_nothing(line);
                    assert(now.lines =~= record.lines);
                }
            },
            TunnelInput::Server(bytes) => {
                if bytes.len() == 0 {
                    assert(now.received =~= record.received);
                }
            },
            _ => {},
        }
        assert(now.lines =~= now.to_server + (match after.phase {
            TunnelPhaseView::Marking(line) => line,
            _ => Seq::empty(),
        }));
    }
}

/// TLS begins only behind a reply of the server that accepts it, and that the client was written.
pub proof fn law_tls_needs_consent(t: TunnelView, input: TunnelInput)
    requires
        tunnel_awaits(t, input),
    ensures
        ({
            let (after, output) = tunnel_next(t, input);
            &&& output == TunnelOutput::Finish(TunnelEnd::StartTls) ==> t.phase
                == TunnelPhaseView::TellingTls(true)
            &&& after.phase == TunnelPhaseView::TellingTls(true) ==> (output matches
                TunnelOutput::SendClient(reply) && accepts_tls(reply))
        }),
{
}

/// The relay after so many ticks of the idle timer and nothing else.
pub open spec fn tunnel_ticked(t: TunnelView, n: nat) -> TunnelView
    decreases n,
{
    if n == 0 {
        t
    } else {
        tunnel_next(
            tunnel_ticked(t, (n - 1) as nat),
            TunnelInput::Tick { user_blocked: false, force_quit: false },
        ).0
    }
}

/// A tunnelled channel on which nothing is sent ends with the given number of ticks, and not
/// before; with a limit of zero it ends with the first one.
pub proof fn law_idle_tunnel_ends(idle_period: u128, max_idle_count: usize, n: nat)
    requires
        n <= max_idle_count || n <= 1,
    ensures
        ({
            let t = tunnel_ticked(tunnel_start(idle_period, max_idle_count), n);
            &&& t.idle == n
            &&& t.max_idle_count == max_idle_count
            &&& n < max_idle_count || n == 0 ==> t.phase is Waiting
            &&& n > 0 && n >= max_idle_count ==> t.phase is Finished
        }),
    decreases n,
{
    if n > 0 {
        law_idle_tunnel_ends(idle_period, max_idle_count, (n - 1) as nat);
    }
}

// ---------------------------------------------------------------------------
// What is done with a channel
// ---------------------------------------------------------------------------

/// What an inspection does with a channel.
#[derive(Clone, Copy, Debug, PartialEq, Eq, Structural)]
pub enum ProtocolInspectAction {
    Intercept,
    Bypass,
    Block,
}

/// Why a task over a channel has failed.
#[derive(Debug)]
pub enum ServerTaskError {
    CanceledAsUserBlocked,
    /// The channel was idle: the time between two ticks of the idle timer, in nanoseconds, and
    /// the number of ticks.
    Idle(u128, usize),
    CanceledAsServerQuit,
    ClientTcpWriteFailed(String),
    InternalAdapterError(String),
}

/// The inspection of a tunnelled control channel.
#[derive(Clone, Copy, Debug, PartialEq, Eq, Structural)]
pub struct FtpInterceptObject {
    /// The channel was taken out of a TLS connection.
    pub from_starttls: bool,
}

/// What comes of the end of a relay: whether the channel is handed on for TLS.
pub open spec fn inspection_end(end: TunnelEnd, tls_interception: bool) -> Result<
    bool,
    ServerTaskError,
> {
    match end {
        TunnelEnd::Done => Ok(false),
        TunnelEnd::StartTls => Ok(tls_interception),
        TunnelEnd::UserBlocked => Err(ServerTaskError::CanceledAsUserBlocked),
        TunnelEnd::Idle(period, ticks) => Err(ServerTaskError::Idle(period, ticks)),
        TunnelEnd::ServerQuit => Err(ServerTaskError::CanceledAsServerQuit),
    }
}

impl FtpInterceptObject {
    pub fn new() -> (r: FtpInterceptObject)
        ensures
            r == (FtpInterceptObject { from_starttls: false }),
    {
        FtpInterceptObject { from_starttls: false }
    }

    pub fn set_from_starttls(&mut self)
        ensures
            *final(self) == (FtpInterceptObject { from_starttls: true }),
    {
        self.from_starttls = true;
    }

    /// Control channels are always intercepted.
    pub fn ftp_inspect_action(&self) -> (r: ProtocolInspectAction)
        ensures
            r == ProtocolInspectAction::Intercept,
    {
        ProtocolInspectAction::Intercept
    }

    /// What a client is told whose channel is blocked.
    pub fn block_reply(&self) -> (r: &'static str)
        ensures
            r@ == "421 Service not available\r\n"@,
    {
        "421 Service not available\r\n"
    }

    /// What comes of a blocked channel: a failure, either of telling the client or by policy.
    pub fn block_result(&self, write_error: Option<String>) -> (r: ServerTaskError)
        ensures
            match (write_error, r) {
                (Some(e), ServerTaskError::ClientTcpWriteFailed(f)) => f@ == e@,
                (None, ServerTaskError::InternalAdapterError(f)) => f@
                    == "ftp blocked by inspection policy"@,
                _ => false,
            },
    {
        match write_error {
            Some(e) => ServerTaskError::ClientTcpWriteFailed(e),
            None => ServerTaskError::InternalAdapterError(
                "ftp blocked by inspection policy".to_owned(),
            ),
        }
    }

    /// What comes of the end of a relay: whether the channel is handed on for TLS, which takes
    /// an interception of TLS.
    pub fn intercept_result(&self, end: TunnelEnd, tls_interception: bool) -> (r: Result<
        bool,
        ServerTaskError,
    >)
        ensures
            r == inspection_end(end, tls_interception),
    {
        match end {
            TunnelEnd::Done => Ok(false),
            TunnelEnd::StartTls => Ok(tls_interception),
            TunnelEnd::UserBlocked => Err(ServerTaskError::CanceledAsUserBlocked),
            TunnelEnd::Idle(period, ticks) => Err(ServerTaskError::Idle(period, ticks)),
            TunnelEnd::ServerQuit => Err(ServerTaskError::CanceledAsServerQuit),
        }
    }
}

// ---------------------------------------------------------------------------
// What the relay is for
// ---------------------------------------------------------------------------

/// Every line of the client is passed on as it is, and only an empty one ends the relay. An upload
/// line is marked first, with its own command and path, and a request for TLS is remembered.
pub proof fn law_tunnelled_line_is_passed_on(t: TunnelView, line: Seq<u8>)
    ensures
        t.phase is Waiting ==> {
            let (after, output) = tunnel_next(t, TunnelInput::Client(line));
            let upload = crate::command::upload_command(line);
            let tls = crate::command::auth_tls_command(line);
            &&& line.len() == 0 ==> output == TunnelOutput::Finish(TunnelEnd::Done)
            &&& line.len() > 0 ==> {
                &&& after.idle == 0
                &&& upload ==> output == TunnelOutput::MarkUpload {
                    cmd: crate::command::upload_name(line),
                    path: crate::command::upload_path(line),
                } && after.phase == TunnelPhaseView::Marking(line)
                &&& !upload ==> output == TunnelOutput::SendServer(line)
                &&& tls ==> after.phase is AskingTls
                &&& !upload && !tls ==> after.phase is Forwarding
            }
        },
        t.phase == TunnelPhaseView::Marking(line) ==> tunnel_next(t, TunnelInput::Marked) == (
            TunnelView { phase: TunnelPhaseView::Forwarding, ..t },
            TunnelOutput::SendServer(line),
        ),
{
    crate::command::law_command_classes(line);
}

/// What the server sends is passed on as it is. Either end that is closed or fails ends the relay,
/// as does a line or such bytes that cannot be written.
pub proof fn law_tunnel_goes_on_while_both_ends_do(t: TunnelView, bytes: Seq<u8>, done: bool)
    ensures
        t.phase is Waiting ==> {
            let (after, output) = tunnel_next(t, TunnelInput::Server(bytes));
            &&& bytes.len() > 0 ==> output == TunnelOutput::SendClient(bytes) && after.idle == 0
                && after.phase is Relaying
            &&& bytes.len() == 0 ==> output == TunnelOutput::Finish(TunnelEnd::Done)
            &&& tunnel_next(t, TunnelInput::ClientFailed).1 == TunnelOutput::Finish(TunnelEnd::Done)
            &&& tunnel_next(t, TunnelInput::ServerFailed).1 == TunnelOutput::Finish(TunnelEnd::Done)
        },
        t.phase is Forwarding || t.phase is Relaying ==> tunnel_next(t, TunnelInput::Sent(true)).1
            is Wait,
        t.phase is Forwarding || t.phase is Relaying || t.phase is AskingTls ==> tunnel_next(
            t,
            TunnelInput::Sent(false),
        ).1 == TunnelOutput::Finish(TunnelEnd::Done),
{
}

/// Once the request for TLS is written, the reply to it is read and passed on as it is. TLS begins
/// behind it exactly where it begins with the code 234; otherwise the relay goes on.
pub proof fn law_tls_begins_where_accepted(t: TunnelView, reply: Seq<u8>, done: bool)
    ensures
        t.phase is AskingTls ==> tunnel_next(t, TunnelInput::Sent(true)) == (
            TunnelView { phase: TunnelPhaseView::AnsweringTls, ..t },
            TunnelOutput::ReadReply,
        ),
        t.phase is AnsweringTls ==> {
            let (told, output) = tunnel_next(t, TunnelInput::Reply(Some(reply)));
            let accepted = reply.len() >= 3 && reply[0] == 50 && reply[1] == 51 && reply[2] == 52;
            &&& output == TunnelOutput::SendClient(reply)
            &&& tunnel_next(told, TunnelInput::Sent(done)).1 == if accepted {
                TunnelOutput::Finish(TunnelEnd::StartTls)
            } else {
                TunnelOutput::Wait
            }
            &&& tunnel_next(t, TunnelInput::Reply(None)).1 is Wait
        },
{
    reveal_strlit("234");
    is_ascii_chars_encode_utf8("234"@);
    let code = encode_utf8("234"@);
    if reply.len() >= 3 && reply[0] == 50 && reply[1] == 51 && reply[2] == 52 {
        assert(reply.take(3) =~= code);
    }
    if text::starts_with(reply, code) {
        assert(reply.take(3)[0] == code[0] && reply.take(3)[1] == code[1] && reply.take(3)[2]
            == code[2]);
    }
}

/// A tick of the idle timer is counted. It ends the relay of a blocked user, then one that was
/// idle for as many ticks as allowed, which is reported with their number and period, then any
/// where the proxy quits. What either end sends sets the count back.
pub proof fn law_tunnel_ticks_are_counted(
    t: TunnelView,
    user_blocked: bool,
    force_quit: bool,
    input: TunnelInput,
)
    requires
        tunnel_awaits(t, input),
    ensures
        t.phase is Waiting && t.idle < usize::MAX ==> {
            let (after, output) = tunnel_next(t, TunnelInput::Tick { user_blocked, force_quit });
            &&& after.idle == t.idle + 1
            &&& output == if user_blocked {
                TunnelOutput::Finish(TunnelEnd::UserBlocked)
            } else if t.idle + 1 >= t.max_idle_count {
                TunnelOutput::Finish(TunnelEnd::Idle(t.idle_period, (t.idle + 1) as usize))
            } else if force_quit {
                TunnelOutput::Finish(TunnelEnd::ServerQuit)
            } else {
                TunnelOutput::Wait
            }
        },
        tunnel_next(t, input).0.idle_period == t.idle_period,
        tunnel_next(t, input).0.max_idle_count == t.max_idle_count,
        !(input is Tick || input is Client || input is Server) ==> tunnel_next(t, input).0.idle
            == t.idle,
{
}

/// What a relay does is what it then waits for, whatever comes of it; and while it does nothing,
/// whatever an end sends and the idle timer. A relay that has ended waits for nothing.
pub proof fn law_tunnel_waits_for_what_it_asked(
    t: TunnelView,
    input: TunnelInput,
    next: TunnelInput,
)
    requires
        tunnel_awaits(t, input),
    ensures
        ({
            let (after, output) = tunnel_next(t, input);
            tunnel_awaits(after, next) <==> (match output {
                TunnelOutput::Wait => next is Client || next is ClientFailed || next is Server
                    || next is ServerFailed || next is Tick,
                TunnelOutput::MarkUpload { .. } => next is Marked,
                TunnelOutput::SendServer(_) | TunnelOutput::SendClient(_) => next is Sent,
                TunnelOutput::ReadReply => next is Reply,
                TunnelOutput::Finish(_) => false,
            })
        }),
{
}

/// A relay begins by waiting, with nothing counted.
pub proof fn law_tunnel_begins(idle_period: u128, max_idle_count: usize)
    ensures
        ({
            let t = tunnel_start(idle_period, max_idle_count);
            &&& t.idle_period == idle_period
            &&& t.max_idle_count == max_idle_count
            &&& t.idle == 0
            &&& t.phase is Waiting
        }),
{
}

/// A channel is handed on exactly where TLS begins and is intercepted. A blocked user, an idle
/// channel and a proxy that quits are each reported as such; nothing else is a failure.
pub proof fn law_inspection_ends(
    end: TunnelEnd,
    tls_interception: bool,
    period: u128,
    ticks: usize,
)
    ensures
        inspection_end(end, tls_interception) matches Ok(handed_on) ==> (handed_on <==> end
            == TunnelEnd::StartTls && tls_interception),
        inspection_end(end, tls_interception) is Ok <==> end == TunnelEnd::StartTls || end
            == TunnelEnd::Done,
        inspection_end(TunnelEnd::Idle(period, ticks), tls_interception) == Err::<
            bool,
            ServerTaskError,
        >(ServerTaskError::Idle(period, ticks)),
        inspection_end(TunnelEnd::UserBlocked, tls_interception) == Err::<bool, ServerTaskError>(
            ServerTaskError::CanceledAsUserBlocked,
        ),
        inspection_end(TunnelEnd::ServerQuit, tls_interception) == Err::<bool, ServerTaskError>(
            ServerTaskError::CanceledAsServerQuit,
        ),
{
}

/// A user's own limit goes before the server's, whichever is larger.
pub proof fn law_user_limit_goes_first(user_max: usize, server_max: usize)
    ensures
        idle_limit(Some(user_max), server_max) == user_max,
        idle_limit(None, server_max) == server_max,
{
}

} // verus!
