//! The transfer of one uploaded file: every piece goes to the FTP server, and a copy of it to the
//! ICAP service for as long as the service keeps up.

use crate::adaptation::{
    FtpAdaptationEndState, FtpUploadAdapter, ReqmodAdaptationRunState,
};
use vstd::prelude::*;
use vstd::slice::slice_to_vec;
use vstd::string::*;

verus! {

/// The pieces that may wait on their way to the FTP server.
pub const UPSTREAM_CHANNEL_CAPACITY: usize = 256;

/// The pieces that may wait on their way to the ICAP service.
pub const ICAP_CHANNEL_CAPACITY: usize = 1024;

/// The way that a transfer goes.
#[derive(Debug)]
pub enum TransferPath {
    /// The ICAP service took the headers, and gets a copy.
    Audited,
    /// The ICAP service did not take the headers, for the given reason: the file goes to the FTP
    /// server alone.
    Fallback(String),
    /// The ICAP service did not take the headers, and there is no FTP server: the client's data
    /// is read and dropped.
    Drained,
}

/// What became of the copy for the ICAP service.
#[derive(Clone, Copy, Debug, PartialEq, Eq, Structural)]
pub enum AuditSide {
    Open,
    /// Closed, because the service did not keep up.
    TooSlow,
    /// Closed, because the task that writes to the service has ended.
    Gone,
}

/// What a transfer waits for.
#[derive(Debug)]
pub enum TransferPhase {
    /// The headers to be sent.
    Headers,
    /// Data of the client, or a tick of the idle timer.
    Reading,
    /// The piece to be queued for the FTP server.
    Queueing(Vec<u8>),
    /// The piece to be offered to the ICAP service.
    Offering,
    /// The piece to be written to the FTP server.
    Writing,
    /// The idle policy.
    Checking,
    /// The writers to finish.
    Closing,
    Finished,
}

/// The transfer of one file.
#[derive(Debug)]
pub struct FtpUploadTransfer {
    /// There is an FTP server to forward the file to.
    pub forward: bool,
    pub path: TransferPath,
    pub phase: TransferPhase,
    /// The bytes that were read from the client.
    pub total: u64,
    /// The ticks of the idle timer since data last came.
    pub idle: usize,
    pub audit: AuditSide,
    pub run: ReqmodAdaptationRunState,
}

/// What a transfer is told.
#[derive(Debug)]
pub enum TransferEvent {
    /// The headers were sent, or could not be sent for the given reason.
    HeadersSent(Option<String>),
    /// The client sent data; none at the end of the file.
    Read(Vec<u8>),
    /// The client's data channel failed.
    ReadFailed,
    /// The idle timer ticked.
    Tick,
    /// The piece was passed on to the FTP server, or could not be.
    Sent(bool),
    /// What became of the offer to the ICAP service.
    Offered(OfferOutcome),
    /// Whether the idle policy wants the transfer to stop.
    Quit(bool),
    /// The writers have finished, and whether the ICAP service took all of its copy.
    Closed(bool),
}

/// What became of a piece that was offered to the ICAP service.
#[derive(Clone, Copy, Debug, PartialEq, Eq, Structural)]
pub enum OfferOutcome {
    Queued,
    Full,
    Disconnected,
}

/// What a transfer does next.
#[derive(Debug)]
pub enum TransferAction {
    /// Send the two headers to the ICAP service.
    SendHeaders { icap_header: Vec<u8>, http_header: Vec<u8> },
    /// Wait for data of the client or, where there is no data, for the idle timer.
    Read,
    /// Wait for data of the client alone.
    Drain,
    /// Queue the piece for the FTP server, and wait for room if there is none.
    QueueUpstream(Vec<u8>),
    /// Write the piece to the FTP server.
    WriteUpstream(Vec<u8>),
    /// Queue the piece for the ICAP service, if there is room.
    OfferAudit(Vec<u8>),
    /// Ask the idle policy, after so many ticks.
    CheckQuit(usize),
    /// Close the queues and wait for the writers.
    CloseWriters,
    /// Flush the stream to the FTP server and shut it down.
    CloseUpstream,
    Finish(FtpAdaptationEndState),
}

#[verifier::ext_equal]
pub enum PathView {
    Audited,
    Fallback(Seq<char>),
    Drained,
}

#[verifier::ext_equal]
pub enum PhaseView {
    Headers,
    Reading,
    Queueing(Seq<u8>),
    Offering,
    Writing,
    Checking,
    Closing,
    Finished,
}

#[verifier::ext_equal]
pub struct TransferView {
    pub forward: bool,
    pub path: PathView,
    pub phase: PhaseView,
    pub total: nat,
    pub idle: nat,
    pub audit: AuditSide,
    pub run: ReqmodAdaptationRunState,
}

#[verifier::ext_equal]
pub enum TransferInput {
    HeadersSent(Option<Seq<char>>),
    Read(Seq<u8>),
    ReadFailed,
    Tick,
    Sent(bool),
    Offered(OfferOutcome),
    Quit(bool),
    Closed(bool),
}

#[verifier::ext_equal]
pub enum TransferOutput {
    SendHeaders { icap_header: Seq<u8>, http_header: Seq<u8> },
    Read,
    Drain,
    QueueUpstream(Seq<u8>),
    WriteUpstream(Seq<u8>),
    OfferAudit(Seq<u8>),
    CheckQuit(nat),
    CloseWriters,
    CloseUpstream,
    Finish(crate::adaptation::EndView),
}

impl View for TransferPath {
    type V = PathView;

    open spec fn view(&self) -> PathView {
        match self {
            TransferPath::Audited => PathView::Audited,
            TransferPath::Fallback(reason) => PathView::Fallback(reason@),
            TransferPath::Drained => PathView::Drained,
        }
    }
}

impl View for TransferPhase {
    type V = PhaseView;

    open spec fn view(&self) -> PhaseView {
        match self {
            TransferPhase::Headers => PhaseView::Headers,
            TransferPhase::Reading => PhaseView::Reading,
            TransferPhase::Queueing(data) => PhaseView::Queueing(data@),
            TransferPhase::Offering => PhaseView::Offering,
            TransferPhase::Writing => PhaseView::Writing,
            TransferPhase::Checking => PhaseView::Checking,
            TransferPhase::Closing => PhaseView::Closing,
            TransferPhase::Finished => PhaseView::Finished,
        }
    }
}

impl View for FtpUploadTransfer {
    type V = TransferView;

    open spec fn view(&self) -> TransferView {
        TransferView {
            forward: self.forward,
            path: self.path@,
            phase: self.phase@,
            total: self.total as nat,
            idle: self.idle as nat,
            audit: self.audit,
            run: self.run,
        }
    }
}

impl View for TransferEvent {
    type V = TransferInput;

    open spec fn view(&self) -> TransferInput {
        match self {
            TransferEvent::HeadersSent(failure) => TransferInput::HeadersSent(
                crate::text::text_of(*failure),
            ),
            TransferEvent::Read(data) => TransferInput::Read(data@),
            TransferEvent::ReadFailed => TransferInput::ReadFailed,
            TransferEvent::Tick => TransferInput::Tick,
            TransferEvent::Sent(done) => TransferInput::Sent(*done),
            TransferEvent::Offered(outcome) => TransferInput::Offered(*outcome),
            TransferEvent::Quit(quit) => TransferInput::Quit(*quit),
            TransferEvent::Closed(written) => TransferInput::Closed(*written),
        }
    }
}

impl View for TransferAction {
    type V = TransferOutput;

    open spec fn view(&self) -> TransferOutput {
        match self {
            TransferAction::SendHeaders { icap_header, http_header } =>
                TransferOutput::SendHeaders {
                icap_header: icap_header@,
                http_header: http_header@,
            },
            TransferAction::Read => TransferOutput::Read,
            TransferAction::Drain => TransferOutput::Drain,
            TransferAction::QueueUpstream(data) => TransferOutput::QueueUpstream(data@),
            TransferAction::WriteUpstream(data) => TransferOutput::WriteUpstream(data@),
            TransferAction::OfferAudit(data) => TransferOutput::OfferAudit(data@),
            TransferAction::CheckQuit(ticks) => TransferOutput::CheckQuit(*ticks as nat),
            TransferAction::CloseWriters => TransferOutput::CloseWriters,
            TransferAction::CloseUpstream => TransferOutput::CloseUpstream,
            TransferAction::Finish(end) => TransferOutput::Finish(end@),
        }
    }
}

/// A transfer that has not sent its headers.
pub open spec fn transfer_start(forward: bool, run: ReqmodAdaptationRunState) -> TransferView {
    TransferView {
        forward,
        path: PathView::Audited,
        phase: PhaseView::Headers,
        total: 0,
        idle: 0,
        audit: AuditSide::Open,
        run,
    }
}

/// The event is one that the transfer waits for, and the counters can take it.
pub open spec fn transfer_awaits(t: TransferView, input: TransferInput) -> bool {
    match t.phase {
        PhaseView::Headers => input is HeadersSent,
        PhaseView::Reading => match input {
            TransferInput::Read(data) => t.total + data.len() <= u64::MAX,
            TransferInput::ReadFailed => true,
            TransferInput::Tick => !(t.path is Drained) && t.idle < usize::MAX,
            _ => false,
        },
        PhaseView::Queueing(_) => input is Sent,
        PhaseView::Offering => input is Offered,
        PhaseView::Writing => input is Sent,
        PhaseView::Checking => input is Quit,
        PhaseView::Closing => input is Closed,
        PhaseView::Finished => false,
    }
}

/// Why the ICAP service did not get a full copy.
pub open spec fn audit_failure(audit: AuditSide) -> Seq<char> {
    match audit {
        AuditSide::Open => "icap body write failed"@,
        AuditSide::TooSlow => "icap server too slow"@,
        AuditSide::Gone => "icap writer closed"@,
    }
}

/// How a transfer ends whose writers have finished.
pub open spec fn transfer_end(t: TransferView, written: bool) -> crate::adaptation::EndView {
    match t.path {
        PathView::Audited => if !t.forward {
            crate::adaptation::EndView::AuditOnly { code: 0, reason: Seq::empty(), bytes: t.total }
        } else if t.audit is Open && written {
            crate::adaptation::EndView::Transferred {
                code: 0,
                reason: Seq::empty(),
                bytes: t.total,
            }
        } else {
            crate::adaptation::EndView::Fallback { bytes: t.total, error: audit_failure(t.audit) }
        },
        PathView::Fallback(reason) => crate::adaptation::EndView::Fallback {
            bytes: t.total,
            error: "icap header write failed: "@ + reason,
        },
        PathView::Drained => crate::adaptation::EndView::Fallback {
            bytes: t.total,
            error: "icap header write failed"@,
        },
    }
}

/// A transfer that reads no further.
pub open spec fn transfer_close(t: TransferView) -> (TransferView, TransferOutput) {
    match t.path {
        PathView::Audited => (
            TransferView {
                phase: PhaseView::Closing,
                run: ReqmodAdaptationRunState { clt_read_finished: true, ..t.run },
                ..t
            },
            TransferOutput::CloseWriters,
        ),
        PathView::Fallback(_) => (
            TransferView { phase: PhaseView::Closing, ..t },
            TransferOutput::CloseUpstream,
        ),
        PathView::Drained => (
            TransferView { phase: PhaseView::Finished, ..t },
            TransferOutput::Finish(transfer_end(t, false)),
        ),
    }
}

/// A transfer that waits for the client.
pub open spec fn transfer_read(t: TransferView) -> (TransferView, TransferOutput) {
    (
        TransferView { phase: PhaseView::Reading, ..t },
        if t.path is Drained {
            TransferOutput::Drain
        } else {
            TransferOutput::Read
        },
    )
}

/// A transfer that offers the piece to the ICAP service, if that still gets a copy.
pub open spec fn transfer_offer(t: TransferView, data: Seq<u8>) -> (TransferView, TransferOutput) {
    if t.audit is Open {
        (TransferView { phase: PhaseView::Offering, ..t }, TransferOutput::OfferAudit(data))
    } else {
        transfer_read(t)
    }
}

/// A transfer that the client gave a piece.
pub open spec fn transfer_take(t: TransferView, data: Seq<u8>) -> (TransferView, TransferOutput) {
    let counted = TransferView { total: t.total + data.len(), idle: 0, ..t };
    match t.path {
        PathView::Audited => if t.forward {
            (
                TransferView { phase: PhaseView::Queueing(data), ..counted },
                TransferOutput::QueueUpstream(data),
            )
        } else {
            transfer_offer(counted, data)
        },
        PathView::Fallback(_) => (
            TransferView { phase: PhaseView::Writing, ..counted },
            TransferOutput::WriteUpstream(data),
        ),
        PathView::Drained => transfer_read(counted),
    }
}

/// The transfer behind the event, and what it does then.
pub open spec fn transfer_next(t: TransferView, input: TransferInput) -> (
    TransferView,
    TransferOutput,
) {
    match (t.phase, input) {
        (PhaseView::Headers, TransferInput::HeadersSent(None)) => transfer_read(t),
        (PhaseView::Headers, TransferInput::HeadersSent(Some(reason))) => if t.forward {
            transfer_read(TransferView { path: PathView::Fallback(reason), ..t })
        } else {
            transfer_read(TransferView { path: PathView::Drained, ..t })
        },
        (PhaseView::Reading, TransferInput::Read(data)) => if data.len() == 0 {
            transfer_close(t)
        } else {
            transfer_take(t, data)
        },
        (PhaseView::Reading, TransferInput::ReadFailed) => transfer_close(t),
        (PhaseView::Reading, TransferInput::Tick) => (
            TransferView { phase: PhaseView::Checking, idle: t.idle + 1, ..t },
            TransferOutput::CheckQuit(t.idle + 1),
        ),
        (PhaseView::Checking, TransferInput::Quit(quit)) => if quit {
            transfer_close(t)
        } else {
            transfer_read(t)
        },
        (PhaseView::Queueing(data), TransferInput::Sent(done)) => if done {
            transfer_offer(t, data)
        } else {
            transfer_close(t)
        },
        (PhaseView::Offering, TransferInput::Offered(outcome)) => transfer_read(
            TransferView {
                audit: match outcome {
                    OfferOutcome::Queued => t.audit,
                    OfferOutcome::Full => AuditSide::TooSlow,
                    OfferOutcome::Disconnected => AuditSide::Gone,
                },
                ..t
            },
        ),
        (PhaseView::Writing, TransferInput::Sent(done)) => if done {
            transfer_read(t)
        } else {
            transfer_close(t)
        },
        (PhaseView::Closing, TransferInput::Closed(written)) => (
            TransferView {
                phase: PhaseView::Finished,
                run: ReqmodAdaptationRunState { clt_read_finished: true, ..t.run },
                ..t
            },
            TransferOutput::Finish(transfer_end(t, written)),
        ),
        _ => (t, TransferOutput::Read),
    }
}

impl FtpUploadAdapter {
    /// Begins to forward a file to the FTP server, with a copy to the ICAP service.
    pub fn audit_and_forward(
        self,
        state: ReqmodAdaptationRunState,
        ftp_cmd: &str,
        ftp_path: &str,
    ) -> (r: (FtpUploadTransfer, TransferAction))
        ensures
            r.0@ == transfer_start(true, state),
            r.1@ == headers_to_send(self, ftp_cmd@, ftp_path@),
    {
        (FtpUploadTransfer::new(true, state), self.send_headers(ftp_cmd, ftp_path))
    }

    /// Begins to give a file to the ICAP service, where someone else forwards it.
    pub fn audit_only(
        self,
        state: ReqmodAdaptationRunState,
        ftp_cmd: &str,
        ftp_path: &str,
    ) -> (r: (FtpUploadTransfer, TransferAction))
        ensures
            r.0@ == transfer_start(false, state),
            r.1@ == headers_to_send(self, ftp_cmd@, ftp_path@),
    {
        (FtpUploadTransfer::new(false, state), self.send_headers(ftp_cmd, ftp_path))
    }

    fn send_headers(&self, ftp_cmd: &str, ftp_path: &str) -> (r: TransferAction)
        ensures
            r@ == headers_to_send(*self, ftp_cmd@, ftp_path@),
    {
        let http_header = self.build_http_header(ftp_cmd, ftp_path);
        let icap_header = self.build_icap_header(http_header.len());
        TransferAction::SendHeaders { icap_header, http_header }
    }
}

/// The headers with which the transfer of a file begins.
pub open spec fn headers_to_send(
    a: FtpUploadAdapter,
    cmd: Seq<char>,
    path: Seq<char>,
) -> TransferOutput {
    let http_header = crate::adaptation::http_header(cmd, path);
    TransferOutput::SendHeaders {
        icap_header: crate::adaptation::icap_header(a, http_header.len()),
        http_header,
    }
}

impl FtpUploadTransfer {
    fn new(forward: bool, run: ReqmodAdaptationRunState) -> (r: FtpUploadTransfer)
        ensures
            r@ == transfer_start(forward, run),
    {
        FtpUploadTransfer {
            forward,
            path: TransferPath::Audited,
            phase: TransferPhase::Headers,
            total: 0,
            idle: 0,
            audit: AuditSide::Open,
            run,
        }
    }

    /// Whether the transfer waits for the event.
    pub fn awaits(&self, event: &TransferEvent) -> (r: bool)
        ensures
            r == transfer_awaits(self@, event@),
    {
        match (&self.phase, event) {
            (TransferPhase::Headers, TransferEvent::HeadersSent(_)) => true,
            (TransferPhase::Reading, TransferEvent::Read(data)) => {
                data.len() as u64 <= u64::MAX - self.total
            },
            (TransferPhase::Reading, TransferEvent::ReadFailed) => true,
            (TransferPhase::Reading, TransferEvent::Tick) => {
                !matches!(self.path, TransferPath::Drained) && self.idle < usize::MAX
            },
            (TransferPhase::Queueing(_), TransferEvent::Sent(_)) => true,
            (TransferPhase::Offering, TransferEvent::Offered(_)) => true,
            (TransferPhase::Writing, TransferEvent::Sent(_)) => true,
            (TransferPhase::Checking, TransferEvent::Quit(_)) => true,
            (TransferPhase::Closing, TransferEvent::Closed(_)) => true,
            _ => false,
        }
    }

    /// How the transfer has come so far.
    pub fn run_state(&self) -> (r: ReqmodAdaptationRunState)
        ensures
            r == self@.run,
    {
        self.run
    }

    fn end(&self, written: bool) -> (r: FtpAdaptationEndState)
        ensures
            r@ == transfer_end(self@, written),
    {
        match &self.path {
            TransferPath::Audited => {
                let icap_reason = "".to_owned();
                proof {
                    reveal_strlit("");
                    assert(icap_reason@ =~= Seq::<char>::empty());
                }
                if !self.forward {
                    FtpAdaptationEndState::AuditOnly {
                        icap_status_code: 0,
                        icap_reason,
                        bytes: self.total,
                    }
                } else {
                    match self.audit {
                        AuditSide::Open => {
                            if written {
                                FtpAdaptationEndState::OriginalTransferred {
                                    icap_status_code: 0,
                                    icap_reason,
                                    bytes: self.total,
                                }
                            } else {
                                self.audit_lost("icap body write failed")
                            }
                        },
                        AuditSide::TooSlow => self.audit_lost("icap server too slow"),
                        AuditSide::Gone => self.audit_lost("icap writer closed"),
                    }
                }
            },
            TransferPath::Fallback(reason) => {
                let mut icap_error = "icap header write failed: ".to_owned();
                icap_error.append(reason.as_str());
                FtpAdaptationEndState::OriginalTransferredAfterFallback {
                    bytes: self.total,
                    icap_error,
                }
            },
            TransferPath::Drained => self.audit_lost("icap header write failed"),
        }
    }

    fn audit_lost(&self, error: &str) -> (r: FtpAdaptationEndState)
        ensures
            r@ == (crate::adaptation::EndView::Fallback {
                bytes: self.total as nat,
                error: error@,
            }),
    {
        FtpAdaptationEndState::OriginalTransferredAfterFallback {
            bytes: self.total,
            icap_error: error.to_owned(),
        }
    }

    fn close(&mut self) -> (action: TransferAction)
        ensures
            (final(self)@, action@) == transfer_close(old(self)@),
    {
        match &self.path {
            TransferPath::Audited => {
                self.phase = TransferPhase::Closing;
                self.run.clt_read_finished = true;
                TransferAction::CloseWriters
            },
            TransferPath::Fallback(_) => {
                self.phase = TransferPhase::Closing;
                TransferAction::CloseUpstream
            },
            TransferPath::Drained => {
                let end = self.end(false);
                self.phase = TransferPhase::Finished;
                TransferAction::Finish(end)
            },
        }
    }

    fn read(&mut self) -> (action: TransferAction)
        ensures
            (final(self)@, action@) == transfer_read(old(self)@),
    {
        self.phase = TransferPhase::Reading;
        match &self.path {
            TransferPath::Drained => TransferAction::Drain,
            _ => TransferAction::Read,
        }
    }

    fn offer(&mut self, data: Vec<u8>) -> (action: TransferAction)
        ensures
            (final(self)@, action@) == transfer_offer(old(self)@, data@),
    {
        if self.audit == AuditSide::Open {
            self.phase = TransferPhase::Offering;
            TransferAction::OfferAudit(data)
        } else {
            self.read()
        }
    }

    fn take(&mut self, data: Vec<u8>) -> (action: TransferAction)
        requires
            old(self)@.total + data@.len() <= u64::MAX,
        ensures
            (final(self)@, action@) == transfer_take(old(self)@, data@),
    {
        self.total = self.total + data.len() as u64;
        self.idle = 0;
        match &self.path {
            TransferPath::Audited => {
                if self.forward {
                    let piece = slice_to_vec(data.as_slice());
                    self.phase = TransferPhase::Queueing(data);
                    TransferAction::QueueUpstream(piece)
                } else {
                    self.offer(data)
                }
            },
            TransferPath::Fallback(_) => {
                self.phase = TransferPhase::Writing;
                TransferAction::WriteUpstream(data)
            },
            TransferPath::Drained => self.read(),
        }
    }

    /// Takes an event that the transfer waits for, and tells what to do next.
    pub fn step(&mut self, event: TransferEvent) -> (action: TransferAction)
        requires
            transfer_awaits(old(self)@, event@),
        ensures
            (final(self)@, action@) == transfer_next(old(self)@, event@),
    {
        match event {
            TransferEvent::HeadersSent(None) => self.read(),
            TransferEvent::HeadersSent(Some(reason)) => {
                if self.forward {
                    self.path = TransferPath::Fallback(reason);
                } else {
                    self.path = TransferPath::Drained;
                }
                self.read()
            },
            TransferEvent::Read(data) => {
                if data.len() == 0 {
                    self.close()
                } else {
                    self.take(data)
                }
            },
            TransferEvent::ReadFailed => self.close(),
            TransferEvent::Tick => {
                self.idle = self.idle + 1;
                self.phase = TransferPhase::Checking;
                TransferAction::CheckQuit(self.idle)
            },
            TransferEvent::Sent(done) => {
                if !done {
                    return self.close();
                }
                let mut phase = TransferPhase::Reading;
                std::mem::swap(&mut phase, &mut self.phase);
                match phase {
                    TransferPhase::Queueing(data) => self.offer(data),
                    _ => self.read(),
                }
            },
            TransferEvent::Offered(outcome) => {
                match outcome {
                    OfferOutcome::Queued => {},
                    OfferOutcome::Full => {
                        self.audit = AuditSide::TooSlow;
                    },
                    OfferOutcome::Disconnected => {
                        self.audit = AuditSide::Gone;
                    },
                }
                self.read()
            },
            TransferEvent::Quit(quit) => {
                if quit {
                    self.close()
                } else {
                    self.read()
                }
            },
            TransferEvent::Closed(written) => {
                let end = self.end(written);
                self.phase = TransferPhase::Finished;
                self.run.clt_read_finished = true;
                TransferAction::Finish(end)
            },
        }
    }
}

// ---------------------------------------------------------------------------
// Whole transfers
// ---------------------------------------------------------------------------

/// What has passed through a transfer.
#[verifier::ext_equal]
pub struct TransferRecord {
    /// The data that the client sent.
    pub read: Seq<u8>,
    /// The data that was passed on to the FTP server.
    pub upstream: Seq<u8>,
    /// The data that was offered to the ICAP service.
    pub offered: Seq<u8>,
    /// The piece that was offered last.
    pub last_offer: Seq<u8>,
    /// The data that was queued for the ICAP service.
    pub queued: Seq<u8>,
    /// How the transfer ended, if it has.
    pub end: Option<crate::adaptation::EndView>,
}

/// The transfer behind a row of events, and what has passed through it.
pub open spec fn transfer_run(t: TransferView, inputs: Seq<TransferInput>) -> (
    TransferView,
    TransferRecord,
)
    decreases inputs.len(),
{
    if inputs.len() == 0 {
        (
            t,
            TransferRecord {
                read: Seq::empty(),
                upstream: Seq::empty(),
                offered: Seq::empty(),
                last_offer: Seq::empty(),
                queued: Seq::empty(),
                end: None,
            },
        )
    } else {
        let (before, record) = transfer_run(t, inputs.drop_last());
        let (after, output) = transfer_next(before, inputs.last());
        (after, record_step(record, inputs.last(), output))
    }
}

pub open spec fn record_step(
    record: TransferRecord,
    input: TransferInput,
    output: TransferOutput,
) -> TransferRecord {
    TransferRecord {
        read: match input {
            TransferInput::Read(data) => record.read + data,
            _ => record.read,
        },
        upstream: match output {
            TransferOutput::QueueUpstream(data) => record.upstream + data,
            TransferOutput::WriteUpstream(data) => record.upstream + data,
            _ => record.upstream,
        },
        offered: match output {
            TransferOutput::OfferAudit(data) => record.offered + data,
            _ => record.offered,
        },
        last_offer: match output {
            TransferOutput::OfferAudit(data) => data,
            _ => record.last_offer,
        },
        queued: match input {
            TransferInput::Offered(OfferOutcome::Queued) => record.queued + record.last_offer,
            _ => record.queued,
        },
        end: match output {
            TransferOutput::Finish(end) => Some(end),
            _ => record.end,
        },
    }
}

/// Each event of the row is one that the transfer then waits for.
pub open spec fn transfer_row(t: TransferView, inputs: Seq<TransferInput>) -> bool
    decreases inputs.len(),
{
    inputs.len() > 0 ==> transfer_row(t, inputs.drop_last()) && transfer_awaits(
        transfer_run(t, inputs.drop_last()).0,
        inputs.last(),
    )
}

/// The client's data ended or failed, the FTP server failed, or the idle policy wanted to stop.
pub open spec fn stopped_by_an_end(inputs: Seq<TransferInput>) -> bool {
    ||| inputs.contains(TransferInput::Read(Seq::empty()))
    ||| inputs.contains(TransferInput::ReadFailed)
    ||| inputs.contains(TransferInput::Sent(false))
    ||| inputs.contains(TransferInput::Quit(true))
}

/// What holds of a transfer at any time.
spec fn transfer_invariant(
    t: TransferView,
    record: TransferRecord,
    inputs: Seq<TransferInput>,
    forward: bool,
    run: ReqmodAdaptationRunState,
) -> bool {
    let over = t.phase is Closing || t.phase is Finished;
    let broken = inputs.contains(TransferInput::Sent(false));
    &&& t.forward == forward
    &&& t.run.created == run.created
    &&& t.total == record.read.len()
    &&& forward ==> record.upstream == record.read && !(t.path is Drained)
    &&& !forward ==> record.upstream.len() == 0 && !(t.path is Fallback) && !(t.phase is Writing)
        && !(t.phase is Queueing) && !broken
    &&& t.phase is Headers ==> t.path is Audited && record.read.len() == 0
    &&& t.path is Audited ==> !(t.phase is Writing)
    &&& !(t.path is Audited) ==> record.offered.len() == 0 && !(t.phase is Offering)
        && !(t.phase is Queueing)
    &&& t.path is Audited && t.audit is Open && !broken ==> match t.phase {
        PhaseView::Queueing(data) => record.read == record.offered + data,
        _ => record.read == record.offered,
    }
    &&& record.offered.is_prefix_of(record.read)
    &&& record.queued.is_prefix_of(record.offered)
    &&& t.phase is Offering ==> t.audit is Open && record.offered == record.queued
        + record.last_offer
    &&& t.audit is Open && !(t.phase is Offering) ==> record.offered == record.queued
    &&& broken ==> over
    &&& over ==> stopped_by_an_end(inputs)
    &&& t.phase is Finished <==> record.end is Some
    &&& record.end matches Some(end) ==> exists|written: bool|
        end == #[trigger] transfer_end(t, written)
    &&& over && t.path is Audited ==> t.run.clt_read_finished
    &&& t.phase is Finished && !(t.path is Drained) ==> t.run.clt_read_finished
    &&& t.path is Drained ==> !(t.phase is Closing)
    &&& !over || t.path is Drained ==> t.run == run
}

proof fn lemma_contains_last(inputs: Seq<TransferInput>, x: TransferInput)
    requires
        inputs.len() > 0,
    ensures
        inputs.contains(x) <==> inputs.drop_last().contains(x) || inputs.last() == x,
{
    let init = inputs.drop_last();
    if init.contains(x) {
        let k = choose|k: int| 0 <= k < init.len() && init[k] == x;
        assert(inputs[k] == x);
    }
    if inputs.last() == x {
        assert(inputs[inputs.len() - 1] == x);
    }
    if inputs.contains(x) && inputs.last() != x {
        let k = choose|k: int| 0 <= k < inputs.len() && inputs[k] == x;
        assert(init[k] == x);
    }
}

proof fn lemma_transfer_step(
    before: TransferView,
    record: TransferRecord,
    inputs: Seq<TransferInput>,
    forward: bool,
    run: ReqmodAdaptationRunState,
)
    requires
        inputs.len() > 0,
        transfer_awaits(before, inputs.last()),
        transfer_invariant(before, record, inputs.drop_last(), forward, run),
    ensures
        ({
            let (after, output) = transfer_next(before, inputs.last());
            transfer_invariant(
                after,
                record_step(record, inputs.last(), output),
                inputs,
                forward,
                run,
            )
        }),
{
    let input = inputs.last();
    let (after, output) = transfer_next(before, input);
    let now = record_step(record, input, output);
    lemma_contains_last(inputs, TransferInput::Read(Seq::empty()));
    lemma_contains_last(inputs, TransferInput::ReadFailed);
    lemma_contains_last(inputs, TransferInput::Sent(false));
    lemma_contains_last(inputs, TransferInput::Quit(true));
    match input {
        TransferInput::Read(data) => {
            if data.len() == 0 {
                assert(data =~= Seq::empty());
                assert(now.read =~= record.read);
            } else {
                assert(now.offered.is_prefix_of(now.read));
            }
        },
        TransferInput::Sent(done) => {
            if let PhaseView::Queueing(data) = before.phase {
                assert(now.offered.is_prefix_of(now.read));
            }
        },
        _ => {},
    }
    if let TransferOutput::Finish(end) = output {
        match input {
            TransferInput::Closed(written) => {
                assert(end == transfer_end(after, written));
            },
            _ => {
                assert(end == transfer_end(after, false));
            },
        }
    }
}

proof fn lemma_transfer_invariant(
    inputs: Seq<TransferInput>,
    forward: bool,
    run: ReqmodAdaptationRunState,
)
    requires
        transfer_row(transfer_start(forward, run), inputs),
    ensures
        ({
            let (t, record) = transfer_run(transfer_start(forward, run), inputs);
            transfer_invariant(t, record, inputs, forward, run)
        }),
    decreases inputs.len(),
{
    let start = transfer_start(forward, run);
    if inputs.len() > 0 {
        lemma_transfer_invariant(inputs.drop_last(), forward, run);
        let (before, record) = transfer_run(start, inputs.drop_last());
        lemma_transfer_step(before, record, inputs, forward, run);
    }
}

/// Whatever the ICAP service does, the FTP server is passed exactly the client's data.
pub proof fn law_every_byte_is_forwarded(
    inputs: Seq<TransferInput>,
    run: ReqmodAdaptationRunState,
)
    requires
        transfer_row(transfer_start(true, run), inputs),
    ensures
        ({
            let (t, record) = transfer_run(transfer_start(true, run), inputs);
            record.upstream == record.read
        }),
{
    lemma_transfer_invariant(inputs, true, run);
}

/// What is queued for the ICAP service is the client's data from its first byte on, without gaps.
/// Where the service took the headers and kept up, and the FTP server did not fail, all that the
/// client sent is queued for it; so it is where a transfer ends as fully audited.
pub proof fn law_audit_copy_is_a_prefix(
    inputs: Seq<TransferInput>,
    forward: bool,
    run: ReqmodAdaptationRunState,
)
    requires
        transfer_row(transfer_start(forward, run), inputs),
    ensures
        ({
            let (t, record) = transfer_run(transfer_start(forward, run), inputs);
            let broken = inputs.contains(TransferInput::Sent(false));
            &&& record.queued.is_prefix_of(record.read)
            &&& t.path is Audited && t.audit is Open && !(t.phase is Queueing) && !(
            t.phase is Offering) && !broken ==> record.queued == record.read
            &&& record.end matches Some(end) ==> end is Transferred && !broken ==> record.queued
                == record.read
        }),
{
    lemma_transfer_invariant(inputs, forward, run);
}

/// A transfer without an FTP server passes nothing on.
pub proof fn law_audit_only_forwards_nothing(
    inputs: Seq<TransferInput>,
    run: ReqmodAdaptationRunState,
)
    requires
        transfer_row(transfer_start(false, run), inputs),
    ensures
        transfer_run(transfer_start(false, run), inputs).1.upstream == Seq::<u8>::empty(),
{
    lemma_transfer_invariant(inputs, false, run);
}

/// A transfer reports as many bytes as the client sent. It reports an audit alone exactly where
/// there is no FTP server and the headers were sent.
pub proof fn law_end_tells_what_was_read(
    inputs: Seq<TransferInput>,
    forward: bool,
    run: ReqmodAdaptationRunState,
)
    requires
        transfer_row(transfer_start(forward, run), inputs),
    ensures
        ({
            let (t, record) = transfer_run(transfer_start(forward, run), inputs);
            &&& t.phase is Finished <==> record.end is Some
            &&& record.end matches Some(end) ==> end.bytes() == record.read.len() && (
            end is AuditOnly <==> !forward && t.path is Audited)
        }),
{
    lemma_transfer_invariant(inputs, forward, run);
}

/// A transfer that has ended has marked the client's data as read, unless it only drained it. It is
/// not marked while the data is read, and when the transfer was set up stays known.
pub proof fn law_end_of_reading_is_marked(
    inputs: Seq<TransferInput>,
    forward: bool,
    run: ReqmodAdaptationRunState,
)
    requires
        transfer_row(transfer_start(forward, run), inputs),
    ensures
        ({
            let t = transfer_run(transfer_start(forward, run), inputs).0;
            &&& t.run.created == run.created
            &&& t.phase is Finished && !(t.path is Drained) ==> t.run.clt_read_finished
            &&& !(t.phase is Closing || t.phase is Finished) || t.path is Drained
                ==> t.run.clt_read_finished == run.clt_read_finished
        }),
{
    lemma_transfer_invariant(inputs, forward, run);
}

/// Only the client, the FTP server and the idle policy stop a transfer: nothing that the ICAP
/// service does.
pub proof fn law_audit_never_stops_a_transfer(
    inputs: Seq<TransferInput>,
    forward: bool,
    run: ReqmodAdaptationRunState,
)
    requires
        transfer_row(transfer_start(forward, run), inputs),
        !stopped_by_an_end(inputs),
    ensures
        ({
            let (t, record) = transfer_run(transfer_start(forward, run), inputs);
            !(t.phase is Closing) && !(t.phase is Finished)
        }),
{
    lemma_transfer_invariant(inputs, forward, run);
}

/// A writer that waits for its first piece.
pub open spec fn writer_start(framing: crate::body::Framing) -> crate::body::BodyWriter {
    crate::body::BodyWriter {
        framing,
        phase: crate::body::WriterPhase::Receiving,
        intact: true,
    }
}

proof fn lemma_raw_wire(pieces: Seq<Seq<u8>>)
    ensures
        crate::body::all_framed(crate::body::Framing::Raw, pieces) == crate::reply::joined(pieces),
    decreases pieces.len(),
{
    if pieces.len() > 0 {
        lemma_raw_wire(pieces.drop_last());
        crate::reply::lemma_joined_push(pieces);
    }
}

proof fn lemma_chunked_wire(pieces: Seq<Seq<u8>>)
    ensures
        crate::body::all_framed(crate::body::Framing::Chunked, pieces) == crate::body::chunks(
            pieces,
        ),
    decreases pieces.len(),
{
    if pieces.len() > 0 {
        lemma_chunked_wire(pieces.drop_last());
    }
}

/// A file arrives at the FTP server as the client sent it, byte for byte, whatever the ICAP
/// service does: where the writer was given all that was queued for it, it has put exactly the
/// client's data on the wire.
pub proof fn law_file_arrives_unchanged(
    inputs: Seq<TransferInput>,
    run: ReqmodAdaptationRunState,
    writer_inputs: Seq<crate::body::WriterInput>,
)
    requires
        transfer_row(transfer_start(true, run), inputs),
        crate::body::writer_row(writer_start(crate::body::Framing::Raw), writer_inputs),
        crate::reply::joined(crate::body::pieces_in(writer_inputs)) == transfer_run(
            transfer_start(true, run),
            inputs,
        ).1.upstream,
    ensures
        crate::body::writer_run(writer_start(crate::body::Framing::Raw), writer_inputs).1
            == transfer_run(transfer_start(true, run), inputs).1.read,
{
    law_every_byte_is_forwarded(inputs, run);
    crate::body::law_writer_writes_every_piece(crate::body::Framing::Raw, writer_inputs);
    lemma_raw_wire(crate::body::pieces_in(writer_inputs));
    let wire = crate::body::writer_run(
        writer_start(crate::body::Framing::Raw),
        writer_inputs,
    ).1;
    assert(wire =~= transfer_run(transfer_start(true, run), inputs).1.read);
}

/// The ICAP service gets a well-formed body, however early its copy ends: where the writer was
/// given all that was queued for it and has closed, the service reads exactly that out of the
/// body, which is the client's data from its first byte on.
pub proof fn law_audit_body_is_well_formed(
    inputs: Seq<TransferInput>,
    forward: bool,
    run: ReqmodAdaptationRunState,
    writer_inputs: Seq<crate::body::WriterInput>,
)
    requires
        transfer_row(transfer_start(forward, run), inputs),
        crate::body::writer_row(writer_start(crate::body::Framing::Chunked), writer_inputs),
        forall|i: int|
            0 <= i < crate::body::pieces_in(writer_inputs).len() ==> (
            #[trigger] crate::body::pieces_in(writer_inputs)[i]).len() > 0,
        crate::reply::joined(crate::body::pieces_in(writer_inputs)) == transfer_run(
            transfer_start(forward, run),
            inputs,
        ).1.queued,
        ({
            let w = crate::body::writer_run(
                writer_start(crate::body::Framing::Chunked),
                writer_inputs,
            ).0;
            w.phase is Closing || w.phase is Finished
        }),
    ensures
        ({
            let record = transfer_run(transfer_start(forward, run), inputs).1;
            let wire = crate::body::writer_run(
                writer_start(crate::body::Framing::Chunked),
                writer_inputs,
            ).1;
            &&& crate::body::body_data(wire) == Some(record.queued)
            &&& record.queued.is_prefix_of(record.read)
        }),
{
    law_audit_copy_is_a_prefix(inputs, forward, run);
    crate::body::law_writer_writes_every_piece(crate::body::Framing::Chunked, writer_inputs);
    lemma_chunked_wire(crate::body::pieces_in(writer_inputs));
    crate::body::law_body_is_read_back(crate::body::pieces_in(writer_inputs));
}

// ---------------------------------------------------------------------------
// What each step is for
// ---------------------------------------------------------------------------

/// Where the headers could not be sent, the file still goes to the FTP server, if there is one, and
/// is read to its end otherwise; the reason is kept. Where they were sent, it is audited.
pub proof fn law_headers_decide_the_way(t: TransferView, reason: Seq<char>)
    requires
        t.phase is Headers,
    ensures
        transfer_next(t, TransferInput::HeadersSent(None)).0.path == t.path,
        t.path is Audited ==> transfer_next(t, TransferInput::HeadersSent(None)).1 is Read,
        ({
            let (after, output) = transfer_next(t, TransferInput::HeadersSent(Some(reason)));
            &&& t.forward ==> after.path == PathView::Fallback(reason) && output is Read
            &&& !t.forward ==> after.path is Drained && output is Drain
        }),
{
}

/// Every piece of the client is counted. On its way to both, it goes to the FTP server first, and
/// then to the ICAP service for as long as that keeps up; without an FTP server it goes to the
/// service alone, and without the service to the FTP server alone.
pub proof fn law_piece_goes_its_way(t: TransferView, data: Seq<u8>)
    requires
        data.len() > 0,
    ensures
        t.phase is Reading ==> {
            let (after, output) = transfer_next(t, TransferInput::Read(data));
            &&& after.total == t.total + data.len()
            &&& after.idle == 0
            &&& t.path is Audited && t.forward ==> output == TransferOutput::QueueUpstream(data)
                && after.phase == PhaseView::Queueing(data)
            &&& t.path is Audited && !t.forward && t.audit is Open ==> output
                == TransferOutput::OfferAudit(data) && after.phase is Offering
            &&& t.path is Audited && !t.forward && !(t.audit is Open) ==> output is Read
            &&& t.path is Fallback ==> output == TransferOutput::WriteUpstream(data) && after.phase
                is Writing
            &&& t.path is Drained ==> output is Drain && after.phase is Reading
        },
        t.phase == PhaseView::Queueing(data) ==> {
            let (after, output) = transfer_next(t, TransferInput::Sent(true));
            &&& t.audit is Open ==> output == TransferOutput::OfferAudit(data) && after.phase
                is Offering
            &&& !(t.audit is Open) ==> after.phase is Reading
        },
        t.phase is Writing ==> transfer_next(t, TransferInput::Sent(true)).0.phase is Reading,
{
}

/// The ICAP service gets no more once it refused a piece, and for the reason that it gave; the
/// client is read on in any case.
pub proof fn law_refused_copy_ends_the_audit(t: TransferView, outcome: OfferOutcome)
    requires
        t.phase is Offering,
    ensures
        ({
            let (after, output) = transfer_next(t, TransferInput::Offered(outcome));
            &&& after.phase is Reading
            &&& outcome is Queued ==> after.audit == t.audit
            &&& outcome is Full ==> after.audit is TooSlow
            &&& outcome is Disconnected ==> after.audit is Gone
            &&& t.path is Audited ==> output is Read
        }),
{
}

/// The client's end or failure, a failure of the FTP server and the idle policy stop the reading;
/// then the writers, or the one writer, are closed, and a file that was only drained is over.
pub proof fn law_reading_ends(t: TransferView, input: TransferInput)
    requires
        transfer_awaits(t, input),
        ({
            ||| input == TransferInput::Read(Seq::empty())
            ||| input is ReadFailed
            ||| input == TransferInput::Sent(false)
            ||| input == TransferInput::Quit(true)
        }),
    ensures
        ({
            let (after, output) = transfer_next(t, input);
            &&& t.path is Audited ==> output is CloseWriters && after.phase is Closing
            &&& t.path is Fallback ==> output is CloseUpstream && after.phase is Closing
            &&& t.path is Drained ==> output is Finish && after.phase is Finished
            &&& after.total == t.total
        }),
{
}

/// A tick of the idle timer is counted, and the idle policy is asked with the number of ticks; the
/// transfer goes on unless the policy wants to stop it.
pub proof fn law_idle_policy_is_asked(t: TransferView)
    ensures
        t.phase is Reading ==> {
            let (after, output) = transfer_next(t, TransferInput::Tick);
            &&& output == TransferOutput::CheckQuit(t.idle + 1)
            &&& after.idle == t.idle + 1
            &&& after.phase is Checking
        },
        t.phase is Checking ==> transfer_next(t, TransferInput::Quit(false)).0 == (TransferView {
            phase: PhaseView::Reading,
            ..t
        }),
{
}

/// How a transfer is reported: as transferred exactly where it was forwarded and the ICAP service
/// took all of its copy; with the reason where it was forwarded and the service did not; and as an
/// audit alone where there was no FTP server. The bytes are those that were read.
pub proof fn law_end_is_reported(t: TransferView, written: bool)
    requires
        t.phase is Closing,
    ensures
        transfer_next(t, TransferInput::Closed(written)).1 == TransferOutput::Finish(
            if t.path is Audited && t.forward && t.audit is Open && written {
                crate::adaptation::EndView::Transferred {
                    code: 0,
                    reason: Seq::empty(),
                    bytes: t.total,
                }
            } else if t.path is Audited && !t.forward {
                crate::adaptation::EndView::AuditOnly {
                    code: 0,
                    reason: Seq::empty(),
                    bytes: t.total,
                }
            } else {
                crate::adaptation::EndView::Fallback {
                    bytes: t.total,
                    error: match t.path {
                        PathView::Fallback(reason) => "icap header write failed: "@ + reason,
                        PathView::Drained => "icap header write failed"@,
                        PathView::Audited => if t.audit is TooSlow {
                            "icap server too slow"@
                        } else if t.audit is Gone {
                            "icap writer closed"@
                        } else {
                            "icap body write failed"@
                        },
                    },
                }
            },
        ),
        t.path is Drained ==> transfer_end(t, written) == (crate::adaptation::EndView::Fallback {
            bytes: t.total,
            error: "icap header write failed"@,
        }),
{
}

/// What a transfer was begun as does not change: whether it forwards and, behind the headers, the
/// way that it goes. Only data counts as read, and only an offer ends the audit.
pub proof fn law_transfer_keeps_its_way(t: TransferView, input: TransferInput)
    requires
        transfer_awaits(t, input),
    ensures
        ({
            let after = transfer_next(t, input).0;
            &&& after.forward == t.forward
            &&& !(input is HeadersSent) ==> after.path == t.path
            &&& !(input is Read) ==> after.total == t.total
            &&& !(input is Read || input is Tick) ==> after.idle == t.idle
            &&& !(input is Offered) ==> after.audit == t.audit
        }),
{
}

/// What a transfer does is what it then waits for, whatever comes of it, as far as its counters can
/// take it. A transfer that has ended waits for nothing.
pub proof fn law_transfer_waits_for_what_it_asked(
    t: TransferView,
    input: TransferInput,
    next: TransferInput,
)
    requires
        transfer_awaits(t, input),
    ensures
        ({
            let (after, output) = transfer_next(t, input);
            transfer_awaits(after, next) <==> (match output {
                TransferOutput::SendHeaders { .. } => next is HeadersSent,
                TransferOutput::Read | TransferOutput::Drain => match next {
                    TransferInput::Read(data) => after.total + data.len() <= u64::MAX,
                    TransferInput::ReadFailed => true,
                    TransferInput::Tick => output is Read && after.idle < usize::MAX,
                    _ => false,
                },
                TransferOutput::QueueUpstream(_) | TransferOutput::WriteUpstream(_) => next is Sent,
                TransferOutput::OfferAudit(_) => next is Offered,
                TransferOutput::CheckQuit(_) => next is Quit,
                TransferOutput::CloseWriters | TransferOutput::CloseUpstream => next is Closed,
                TransferOutput::Finish(_) => false,
            })
        }),
{
}

/// A transfer begins with its headers and nothing read, and the ICAP service has yet to refuse.
pub proof fn law_transfer_begins(forward: bool, run: ReqmodAdaptationRunState, next: TransferInput)
    ensures
        ({
            let t = transfer_start(forward, run);
            &&& t.forward == forward
            &&& t.run == run
            &&& (t.total, t.idle) == (0nat, 0nat)
            &&& t.path is Audited
            &&& t.audit is Open
            &&& transfer_awaits(t, next) <==> next is HeadersSent
        }),
{
}

/// An ICAP header ends in the header that gives the place of the body as the number, and an empty
/// line; `head` stands before it.
pub open spec fn gives_place(icap_header: Seq<u8>, head: Seq<u8>, number: Seq<u8>) -> bool {
    &&& icap_header == head + vstd::utf8::encode_utf8("Encapsulated: req-hdr=0, req-body="@)
        + number + seq![13u8, 10, 13, 10]
    &&& number.len() > 0
    &&& crate::text::all_digits(number)
}

/// An ICAP header gives `n` as the place of the body.
#[verifier::opaque]
pub open spec fn body_at(icap_header: Seq<u8>, n: nat) -> bool {
    exists|head: Seq<u8>, number: Seq<u8>| #[trigger]
        gives_place(icap_header, head, number) && crate::text::digits_value(number) == n
}

proof fn lemma_place_of_the_body(a: FtpUploadAdapter, n: nat)
    ensures
        body_at(crate::adaptation::icap_header(a, n), n),
{
    reveal(body_at);
    crate::text::lemma_decimal(n);
    let head = crate::adaptation::lemma_icap_header_text(a, n);
    assert(gives_place(crate::adaptation::icap_header(a, n), head, crate::text::decimal(n)));
}

/// The ICAP header with which a transfer begins tells, in decimal, how long the HTTP header is that
/// is sent with it: there the body begins. The number is read back as exactly this length, and an
/// empty line follows it.
pub proof fn law_body_begins_behind_the_http_header(
    a: FtpUploadAdapter,
    cmd: Seq<char>,
    path: Seq<char>,
)
    ensures
        headers_to_send(a, cmd, path) matches TransferOutput::SendHeaders { icap_header, http_header }
            && body_at(icap_header, http_header.len()),
{
    lemma_place_of_the_body(a, crate::adaptation::http_header(cmd, path).len());
}

} // verus!
