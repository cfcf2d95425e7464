//! The ICAP request that carries an uploaded file: its headers, its body, and how it can end.

use crate::header::{add_client_addr, add_connection_tuple, add_keylog_headers, push_header};
use crate::keylog::TlsKeyLogBuffer;
use crate::net::SocketAddr;
use crate::outside::put_slice;
use crate::reqmod::{ConnectionTuple, IcapReqmodClient, IcapServiceClient};
use crate::text;
use crate::text::push_decimal;
use std::sync::Arc;
use vstd::prelude::*;
use vstd::string::*;
use vstd::utf8::*;

verus! {

// ---------------------------------------------------------------------------
// Errors
// ---------------------------------------------------------------------------

/// The classes of failures. They tell a caller whether the file can still be delivered.
#[derive(Copy, Clone, Debug, PartialEq, Eq, Structural)]
pub enum FtpAdaptationErrorKind {
    /// The client's data channel cannot be read: nothing is left to forward.
    ClientRead,
    /// The FTP server cannot be written to: the transfer is over.
    UpstreamWrite,
    /// The ICAP service alone cannot be written to: the file can still be forwarded.
    IcapWrite,
    /// The verdict of the ICAP service cannot be read: the file was forwarded already.
    IcapRead,
    /// The transfer was told to stop.
    ForceQuit,
    /// A failure of the proxy itself.
    Internal,
}

/// Why a reply of the ICAP service could not be understood.
#[derive(Debug)]
pub struct IcapReqmodParseError {
    pub text: String,
}

/// A failure while a file is audited. Where a stream failed, its error text is kept.
#[derive(Debug)]
pub enum FtpAdaptationError {
    IcapServerWriteFailed(String),
    IcapServerReadFailed(String),
    IcapServerConnectionClosed,
    InvalidIcapServerResponse(IcapReqmodParseError),
    FtpClientReadFailed(String),
    FtpUpstreamWriteFailed(String),
    InternalServerError(&'static str),
    IdleForceQuit,
    FtpClientReadIdle,
    FtpUpstreamWriteIdle,
    IcapServerReadIdle,
    IcapServerWriteIdle,
    NotImplemented(&'static str),
}

fn concat(head: &str, tail: &str) -> (r: String)
    ensures
        r@ == head@ + tail@,
{
    let mut s = head.to_owned();
    s.append(tail);
    s
}

impl FtpAdaptationError {
    /// The class of the failure.
    pub open spec fn class(self) -> FtpAdaptationErrorKind {
        match self {
            FtpAdaptationError::FtpClientReadFailed(_) | FtpAdaptationError::FtpClientReadIdle =>
                FtpAdaptationErrorKind::ClientRead,
            FtpAdaptationError::FtpUpstreamWriteFailed(_)
            | FtpAdaptationError::FtpUpstreamWriteIdle => FtpAdaptationErrorKind::UpstreamWrite,
            FtpAdaptationError::IcapServerWriteFailed(_)
            | FtpAdaptationError::IcapServerWriteIdle => FtpAdaptationErrorKind::IcapWrite,
            FtpAdaptationError::IcapServerReadFailed(_)
            | FtpAdaptationError::IcapServerReadIdle
            | FtpAdaptationError::IcapServerConnectionClosed
            | FtpAdaptationError::InvalidIcapServerResponse(_) => FtpAdaptationErrorKind::IcapRead,
            FtpAdaptationError::IdleForceQuit => FtpAdaptationErrorKind::ForceQuit,
            FtpAdaptationError::InternalServerError(_)
            | FtpAdaptationError::NotImplemented(_) => FtpAdaptationErrorKind::Internal,
        }
    }

    /// The text of the failure.
    pub open spec fn text(self) -> Seq<char> {
        match self {
            FtpAdaptationError::IcapServerWriteFailed(e) => "write to icap server failed: "@ + e@,
            FtpAdaptationError::IcapServerReadFailed(e) => "read from icap server failed: "@ + e@,
            FtpAdaptationError::IcapServerConnectionClosed => "icap server connection closed"@,
            FtpAdaptationError::InvalidIcapServerResponse(e) =>
                "invalid response from icap server: "@ + e.text@,
            FtpAdaptationError::FtpClientReadFailed(e) => "read from ftp client failed: "@ + e@,
            FtpAdaptationError::FtpUpstreamWriteFailed(e) => "write to ftp upstream failed: "@
                + e@,
            FtpAdaptationError::InternalServerError(s) => "internal server error: "@ + s@,
            FtpAdaptationError::IdleForceQuit => "force quit from idle checker"@,
            FtpAdaptationError::FtpClientReadIdle => "idle while reading from ftp client"@,
            FtpAdaptationError::FtpUpstreamWriteIdle => "idle while writing to ftp upstream"@,
            FtpAdaptationError::IcapServerReadIdle => "idle while reading from icap server"@,
            FtpAdaptationError::IcapServerWriteIdle => "idle while writing to icap server"@,
            FtpAdaptationError::NotImplemented(s) => "not implemented feature: "@ + s@,
        }
    }

    /// The class of the failure.
    pub fn kind(&self) -> (r: FtpAdaptationErrorKind)
        ensures
            r == self.class(),
    {
        match self {
            FtpAdaptationError::FtpClientReadFailed(_) | FtpAdaptationError::FtpClientReadIdle =>
                FtpAdaptationErrorKind::ClientRead,
            FtpAdaptationError::FtpUpstreamWriteFailed(_)
            | FtpAdaptationError::FtpUpstreamWriteIdle => FtpAdaptationErrorKind::UpstreamWrite,
            FtpAdaptationError::IcapServerWriteFailed(_)
            | FtpAdaptationError::IcapServerWriteIdle => FtpAdaptationErrorKind::IcapWrite,
            FtpAdaptationError::IcapServerReadFailed(_)
            | FtpAdaptationError::IcapServerReadIdle
            | FtpAdaptationError::IcapServerConnectionClosed
            | FtpAdaptationError::InvalidIcapServerResponse(_) => FtpAdaptationErrorKind::IcapRead,
            FtpAdaptationError::IdleForceQuit => FtpAdaptationErrorKind::ForceQuit,
            FtpAdaptationError::InternalServerError(_)
            | FtpAdaptationError::NotImplemented(_) => FtpAdaptationErrorKind::Internal,
        }
    }

    /// The text of the failure.
    pub fn message(&self) -> (r: String)
        ensures
            r@ == self.text(),
    {
        match self {
            FtpAdaptationError::IcapServerWriteFailed(e) => concat(
                "write to icap server failed: ",
                e.as_str(),
            ),
            FtpAdaptationError::IcapServerReadFailed(e) => concat(
                "read from icap server failed: ",
                e.as_str(),
            ),
            FtpAdaptationError::IcapServerConnectionClosed =>
                "icap server connection closed".to_owned(),
            FtpAdaptationError::InvalidIcapServerResponse(e) => concat(
                "invalid response from icap server: ",
                e.text.as_str(),
            ),
            FtpAdaptationError::FtpClientReadFailed(e) => concat(
                "read from ftp client failed: ",
                e.as_str(),
            ),
            FtpAdaptationError::FtpUpstreamWriteFailed(e) => concat(
                "write to ftp upstream failed: ",
                e.as_str(),
            ),
            FtpAdaptationError::InternalServerError(s) => concat("internal server error: ", s),
            FtpAdaptationError::IdleForceQuit => "force quit from idle checker".to_owned(),
            FtpAdaptationError::FtpClientReadIdle => "idle while reading from ftp client".to_owned(),
            FtpAdaptationError::FtpUpstreamWriteIdle =>
                "idle while writing to ftp upstream".to_owned(),
            FtpAdaptationError::IcapServerReadIdle =>
                "idle while reading from icap server".to_owned(),
            FtpAdaptationError::IcapServerWriteIdle =>
                "idle while writing to icap server".to_owned(),
            FtpAdaptationError::NotImplemented(s) => concat("not implemented feature: ", s),
        }
    }
}

impl From<IcapReqmodParseError> for FtpAdaptationError {
    fn from(e: IcapReqmodParseError) -> (r: FtpAdaptationError) {
        FtpAdaptationError::InvalidIcapServerResponse(e)
    }
}

impl vstd::std_specs::convert::FromSpecImpl<IcapReqmodParseError> for FtpAdaptationError {
    open spec fn obeys_from_spec() -> bool {
        true
    }

    open spec fn from_spec(e: IcapReqmodParseError) -> FtpAdaptationError {
        FtpAdaptationError::InvalidIcapServerResponse(e)
    }
}

// ---------------------------------------------------------------------------
// Progress and end
// ---------------------------------------------------------------------------

/// How far the transfer of a file has come.
#[derive(Clone, Copy, Debug, PartialEq, Eq, Structural)]
pub struct ReqmodAdaptationRunState {
    /// When the transfer was set up, in nanoseconds of the caller's clock.
    pub created: u128,
    /// The client's data channel was read to its end.
    pub clt_read_finished: bool,
}

/// The state of a transfer that is set up now.
pub fn new_adaptation_run_state(now: u128) -> (r: ReqmodAdaptationRunState)
    ensures
        r == (ReqmodAdaptationRunState { created: now, clt_read_finished: false }),
{
    ReqmodAdaptationRunState { created: now, clt_read_finished: false }
}

/// How the audit of a file ended.
#[derive(Debug)]
pub enum FtpAdaptationEndState {
    /// All that was read was passed on for the FTP server and handed to the ICAP service, which
    /// did not fail. The FTP server may have failed midway: then the rest was not read.
    OriginalTransferred { icap_status_code: u16, icap_reason: String, bytes: u64 },
    /// There was no FTP server to forward the file to, and the ICAP service took the headers. It
    /// may have been lost later: then the rest was read without it.
    AuditOnly { icap_status_code: u16, icap_reason: String, bytes: u64 },
    /// The ICAP service failed, which did not keep the file from being forwarded.
    OriginalTransferredAfterFallback { bytes: u64, icap_error: String },
}

/// The contents of an end state.
#[verifier::ext_equal]
pub enum EndView {
    Transferred { code: u16, reason: Seq<char>, bytes: nat },
    AuditOnly { code: u16, reason: Seq<char>, bytes: nat },
    Fallback { bytes: nat, error: Seq<char> },
}

impl EndView {
    /// The number of bytes that were read from the client.
    pub open spec fn bytes(self) -> nat {
        match self {
            EndView::Transferred { bytes, .. } => bytes,
            EndView::AuditOnly { bytes, .. } => bytes,
            EndView::Fallback { bytes, .. } => bytes,
        }
    }
}

impl View for FtpAdaptationEndState {
    type V = EndView;

    open spec fn view(&self) -> EndView {
        match self {
            FtpAdaptationEndState::OriginalTransferred { icap_status_code, icap_reason, bytes } =>
                EndView::Transferred {
                code: *icap_status_code,
                reason: icap_reason@,
                bytes: *bytes as nat,
            },
            FtpAdaptationEndState::AuditOnly { icap_status_code, icap_reason, bytes } =>
                EndView::AuditOnly {
                code: *icap_status_code,
                reason: icap_reason@,
                bytes: *bytes as nat,
            },
            FtpAdaptationEndState::OriginalTransferredAfterFallback { bytes, icap_error } =>
                EndView::Fallback { bytes: *bytes as nat, error: icap_error@ },
        }
    }
}

impl FtpAdaptationEndState {
    /// The number of bytes that were read from the client.
    pub fn bytes(&self) -> (r: u64)
        ensures
            r == self@.bytes(),
    {
        match self {
            FtpAdaptationEndState::OriginalTransferred { bytes, .. } => *bytes,
            FtpAdaptationEndState::AuditOnly { bytes, .. } => *bytes,
            FtpAdaptationEndState::OriginalTransferredAfterFallback { bytes, .. } => *bytes,
        }
    }
}

// ---------------------------------------------------------------------------
// Request headers
// ---------------------------------------------------------------------------

/// Audits the upload of one file.
#[derive(Debug)]
pub struct FtpUploadAdapter {
    pub icap_client: Arc<IcapServiceClient>,
    /// The size that is configured for copy buffers.
    pub copy_buffer_size: usize,
    pub client_addr: Option<SocketAddr>,
    pub connection_tuple: Option<ConnectionTuple>,
    pub keylog_buffer: Option<Arc<TlsKeyLogBuffer>>,
}

/// The smallest buffer that file data is read into.
pub const MIN_READ_BUFFER: usize = 16384;

/// The size of the buffer that file data is read into, where the given size is configured.
pub open spec fn read_size(copy_buffer_size: usize) -> usize {
    if copy_buffer_size >= MIN_READ_BUFFER {
        copy_buffer_size
    } else {
        MIN_READ_BUFFER
    }
}

/// The header of the HTTP request in which a file is wrapped.
pub open spec fn http_header(cmd: Seq<char>, path: Seq<char>) -> Seq<u8> {
    encode_utf8("PUT "@) + encode_utf8(path) + encode_utf8(" FTP/1.0\r\n"@) + crate::header::header(
        "Content-Type"@,
        encode_utf8("application/octet-stream"@),
    ) + crate::header::header("X-FTP-Command"@, encode_utf8(cmd)) + crate::header::header(
        "Transfer-Encoding"@,
        encode_utf8("chunked"@),
    ) + encode_utf8("\r\n"@)
}

/// What the ICAP request says about the client.
pub open spec fn client_part(client_addr: Option<SocketAddr>) -> Seq<u8> {
    match client_addr {
        Some(addr) => crate::header::client_addr_headers(addr),
        None => Seq::empty(),
    }
}

/// What the ICAP request says about the data channel.
pub open spec fn tuple_part(connection_tuple: Option<ConnectionTuple>) -> Seq<u8> {
    match connection_tuple {
        Some(tuple) => crate::header::tuple_headers(tuple),
        None => Seq::empty(),
    }
}

/// What the ICAP request says about the keys of the data channel.
pub open spec fn keylog_part(keylog_buffer: Option<Arc<TlsKeyLogBuffer>>) -> Seq<u8> {
    match keylog_buffer {
        Some(keylog) => crate::header::keylog_headers(keylog@),
        None => Seq::empty(),
    }
}

/// What the ICAP request says about the upload.
pub open spec fn extended_headers(a: FtpUploadAdapter) -> Seq<u8> {
    crate::header::header("X-Transformed-From"@, encode_utf8("FTP"@)) + client_part(a.client_addr)
        + tuple_part(a.connection_tuple) + keylog_part(a.keylog_buffer)
}

proof fn lemma_nothing_more(s: Seq<u8>)
    ensures
        s + Seq::empty() == s,
{
    assert(s + Seq::empty() =~= s);
}

proof fn lemma_in_a_row(s: Seq<u8>, a: Seq<u8>, b: Seq<u8>, c: Seq<u8>, d: Seq<u8>)
    ensures
        s + a + b + c + d == s + (a + b + c + d),
{
    assert(s + a + b + c + d =~= s + (a + b + c + d));
}

/// The header that tells where, in what follows, the body of the wrapped request begins.
pub open spec fn encapsulated_header(http_header_len: nat) -> Seq<u8> {
    crate::header::header(
        "Encapsulated"@,
        encode_utf8("req-hdr=0, req-body="@) + text::decimal(http_header_len),
    )
}

/// The header of the ICAP request.
pub open spec fn icap_header(a: FtpUploadAdapter, http_header_len: nat) -> Seq<u8> {
    a.icap_client.partial_request_header@ + extended_headers(a) + encapsulated_header(
        http_header_len,
    ) + encode_utf8("\r\n"@)
}

/// The text of the header that tells where the body begins.
pub proof fn lemma_encapsulated_text(http_header_len: nat)
    ensures
        encapsulated_header(http_header_len) == encode_utf8("Encapsulated: req-hdr=0, req-body="@)
            + text::decimal(http_header_len) + seq![13u8, 10],
{
    reveal_strlit("Encapsulated");
    reveal_strlit(": ");
    reveal_strlit("req-hdr=0, req-body=");
    reveal_strlit("Encapsulated: ");
    reveal_strlit("Encapsulated: req-hdr=0, req-body=");
    assert("Encapsulated: "@ =~= "Encapsulated"@ + ": "@);
    assert("Encapsulated: req-hdr=0, req-body="@ =~= "Encapsulated: "@ + "req-hdr=0, req-body="@);
    let d = text::decimal(http_header_len);
    crate::header::lemma_header_text(
        "Encapsulated"@,
        "Encapsulated: "@,
        encode_utf8("req-hdr=0, req-body="@) + d,
    );
    text::lemma_encode_concat("Encapsulated: "@, "req-hdr=0, req-body="@);
    assert(encapsulated_header(http_header_len) =~= encode_utf8(
        "Encapsulated: req-hdr=0, req-body="@,
    ) + d + seq![13u8, 10]);
}

proof fn lemma_end_of_header(head: Seq<u8>, name: Seq<u8>, d: Seq<u8>, end: Seq<u8>)
    ensures
        head + (name + d + end) + end == head + name + d + (end + end),
{
    assert(head + (name + d + end) + end =~= head + name + d + (end + end));
}

/// The end of an ICAP header; the result is what stands before it.
pub proof fn lemma_icap_header_text(a: FtpUploadAdapter, n: nat) -> (head: Seq<u8>)
    ensures
        head == a.icap_client.partial_request_header@ + extended_headers(a),
        icap_header(a, n) == head + encode_utf8("Encapsulated: req-hdr=0, req-body="@)
            + text::decimal(n) + seq![13u8, 10, 13, 10],
{
    let head = a.icap_client.partial_request_header@ + extended_headers(a);
    lemma_encapsulated_text(n);
    crate::header::lemma_line_end();
    let end = seq![13u8, 10];
    assert(end + end =~= seq![13u8, 10, 13, 10]);
    lemma_end_of_header(
        head,
        encode_utf8("Encapsulated: req-hdr=0, req-body="@),
        text::decimal(n),
        end,
    );
    head
}

impl IcapReqmodClient {
    /// An adapter for the upload of one file, for a caller that holds a connection to the
    /// service.
    pub fn ftp_upload_audit_adapter(&self, copy_buffer_size: usize) -> (r: FtpUploadAdapter)
        ensures
            *r.icap_client == self.service(),
            r.copy_buffer_size == copy_buffer_size,
            r.client_addr is None,
            r.connection_tuple is None,
            r.keylog_buffer is None,
    {
        FtpUploadAdapter {
            icap_client: self.service_client().clone(),
            copy_buffer_size,
            client_addr: None,
            connection_tuple: None,
            keylog_buffer: None,
        }
    }
}

impl FtpUploadAdapter {
    /// Has the client's address reported to the ICAP service.
    pub fn set_client_addr(&mut self, addr: SocketAddr)
        ensures
            *final(self) == (FtpUploadAdapter { client_addr: Some(addr), ..*old(self) }),
    {
        self.client_addr = Some(addr);
    }

    /// Has the ends of the data channel reported to the ICAP service.
    pub fn set_connection_tuple(&mut self, tuple: ConnectionTuple)
        ensures
            *final(self) == (FtpUploadAdapter { connection_tuple: Some(tuple), ..*old(self) }),
    {
        self.connection_tuple = Some(tuple);
    }

    /// Has the keys of the data channel reported to the ICAP service.
    pub fn set_keylog_buffer(&mut self, buffer: Arc<TlsKeyLogBuffer>)
        ensures
            *final(self) == (FtpUploadAdapter { keylog_buffer: Some(buffer), ..*old(self) }),
    {
        self.keylog_buffer = Some(buffer);
    }

    /// The size of the buffer that file data is read into.
    pub fn read_buffer_size(&self) -> (r: usize)
        ensures
            r == read_size(self.copy_buffer_size),
    {
        if self.copy_buffer_size >= MIN_READ_BUFFER {
            self.copy_buffer_size
        } else {
            MIN_READ_BUFFER
        }
    }

    /// The header of the HTTP request in which the file is wrapped.
    pub fn build_http_header(&self, ftp_cmd: &str, ftp_path: &str) -> (r: Vec<u8>)
        ensures
            r@ == http_header(ftp_cmd@, ftp_path@),
    {
        let mut out: Vec<u8> = Vec::new();
        put_slice(&mut out, "PUT ".as_bytes());
        put_slice(&mut out, ftp_path.as_bytes());
        put_slice(&mut out, " FTP/1.0\r\n".as_bytes());
        push_header(&mut out, "Content-Type", "application/octet-stream".as_bytes());
        push_header(&mut out, "X-FTP-Command", ftp_cmd.as_bytes());
        push_header(&mut out, "Transfer-Encoding", "chunked".as_bytes());
        put_slice(&mut out, "\r\n".as_bytes());
        assert(out@ =~= http_header(ftp_cmd@, ftp_path@));
        out
    }

    /// Appends what the ICAP request says about the upload.
    pub fn push_extended_headers(&self, data: &mut Vec<u8>)
        ensures
            final(data)@ == old(data)@ + extended_headers(*self),
    {
        let ghost start = data@;
        let ghost mark = crate::header::header("X-Transformed-From"@, encode_utf8("FTP"@));
        push_header(data, "X-Transformed-From", "FTP".as_bytes());
        if let Some(addr) = self.client_addr {
            add_client_addr(data, addr);
        } else {
            proof {
                lemma_nothing_more(data@);
            }
        }
        if let Some(tuple) = &self.connection_tuple {
            add_connection_tuple(data, tuple);
        } else {
            proof {
                lemma_nothing_more(data@);
            }
        }
        if let Some(keylog) = &self.keylog_buffer {
            add_keylog_headers(data, keylog);
        } else {
            proof {
                lemma_nothing_more(data@);
            }
        }
        proof {
            lemma_in_a_row(
                start,
                mark,
                client_part(self.client_addr),
                tuple_part(self.connection_tuple),
                keylog_part(self.keylog_buffer),
            );
        }
    }

    /// The header of the ICAP request for a wrapped request whose header has the given length.
    pub fn build_icap_header(&self, http_header_len: usize) -> (r: Vec<u8>)
        ensures
            r@ == icap_header(*self, http_header_len as nat),
    {
        let mut out: Vec<u8> = Vec::new();
        put_slice(&mut out, self.icap_client.partial_request_header.as_slice());
        self.push_extended_headers(&mut out);
        let mut place: Vec<u8> = Vec::new();
        put_slice(&mut place, "req-hdr=0, req-body=".as_bytes());
        push_decimal(&mut place, http_header_len as u64);
        assert(place@ =~= encode_utf8("req-hdr=0, req-body="@) + text::decimal(
            http_header_len as nat,
        ));
        push_header(&mut out, "Encapsulated", place.as_slice());
        put_slice(&mut out, "\r\n".as_bytes());
        assert(out@ =~= icap_header(*self, http_header_len as nat));
        out
    }
}

// ---------------------------------------------------------------------------
// What the headers and the results say
// ---------------------------------------------------------------------------

proof fn lemma_file_type_text() -> (t: Seq<char>)
    ensures
        t == " FTP/1.0\r\nContent-Type: application/octet-stream\r\nX-FTP-Command: "@,
        encode_utf8(t) == encode_utf8(" FTP/1.0\r\n"@) + crate::header::header(
            "Content-Type"@,
            encode_utf8("application/octet-stream"@),
        ) + (encode_utf8("X-FTP-Command"@) + encode_utf8(": "@)),
{
    let t = " FTP/1.0\r\nContent-Type: application/octet-stream\r\nX-FTP-Command: "@;
    reveal_strlit(" FTP/1.0\r\nContent-Type: application/octet-stream\r\nX-FTP-Command: ");
    reveal_strlit(" FTP/1.0\r\n");
    reveal_strlit("Content-Type");
    reveal_strlit(": ");
    reveal_strlit("application/octet-stream");
    reveal_strlit("\r\n");
    reveal_strlit("X-FTP-Command");
    let a = " FTP/1.0\r\n"@;
    let b = "Content-Type"@;
    let c = ": "@;
    let d = "application/octet-stream"@;
    let e = "\r\n"@;
    let f = "X-FTP-Command"@;
    assert(t =~= a + (b + c + d + e) + (f + c));
    text::lemma_encode_concat(a + (b + c + d + e), f + c);
    text::lemma_encode_concat(a, b + c + d + e);
    text::lemma_encode_concat(b + c + d, e);
    text::lemma_encode_concat(b + c, d);
    text::lemma_encode_concat(b, c);
    text::lemma_encode_concat(f, c);
    t
}

proof fn lemma_chunked_text() -> (t: Seq<char>)
    ensures
        t == "\r\nTransfer-Encoding: chunked\r\n\r\n"@,
        encode_utf8(t) == encode_utf8("\r\n"@) + crate::header::header(
            "Transfer-Encoding"@,
            encode_utf8("chunked"@),
        ) + encode_utf8("\r\n"@),
{
    let t = "\r\nTransfer-Encoding: chunked\r\n\r\n"@;
    reveal_strlit("\r\nTransfer-Encoding: chunked\r\n\r\n");
    reveal_strlit("\r\n");
    reveal_strlit("Transfer-Encoding");
    reveal_strlit(": ");
    reveal_strlit("chunked");
    let b = "Transfer-Encoding"@;
    let c = ": "@;
    let d = "chunked"@;
    let e = "\r\n"@;
    assert(t =~= e + (b + c + d + e) + e);
    text::lemma_encode_concat(e + (b + c + d + e), e);
    text::lemma_encode_concat(e, b + c + d + e);
    text::lemma_encode_concat(b + c + d, e);
    text::lemma_encode_concat(b + c, d);
    text::lemma_encode_concat(b, c);
    t
}

proof fn lemma_request_in_a_row(
    put: Seq<u8>,
    path: Seq<u8>,
    kind: Seq<u8>,
    content: Seq<u8>,
    name: Seq<u8>,
    cmd: Seq<u8>,
    end: Seq<u8>,
    chunked: Seq<u8>,
)
    ensures
        put + path + kind + content + (name + cmd + end) + chunked + end == put + path + (kind
            + content + name) + cmd + (end + chunked + end),
{
    assert(put + path + kind + content + (name + cmd + end) + chunked + end =~= put + path + (kind
        + content + name) + cmd + (end + chunked + end));
}

/// The wrapped request puts the file under its path, names the FTP command, and announces a body
/// in chunks; an empty line ends its header.
pub proof fn law_wrapped_request(cmd: Seq<char>, path: Seq<char>)
    ensures
        http_header(cmd, path) == encode_utf8("PUT "@) + encode_utf8(path) + encode_utf8(
            " FTP/1.0\r\nContent-Type: application/octet-stream\r\nX-FTP-Command: "@,
        ) + encode_utf8(cmd) + encode_utf8("\r\nTransfer-Encoding: chunked\r\n\r\n"@),
{
    let kind = lemma_file_type_text();
    let chunked = lemma_chunked_text();
    lemma_request_in_a_row(
        encode_utf8("PUT "@),
        encode_utf8(path),
        encode_utf8(" FTP/1.0\r\n"@),
        crate::header::header("Content-Type"@, encode_utf8("application/octet-stream"@)),
        encode_utf8("X-FTP-Command"@) + encode_utf8(": "@),
        encode_utf8(cmd),
        encode_utf8("\r\n"@),
        crate::header::header("Transfer-Encoding"@, encode_utf8("chunked"@)),
    );
}

/// The ICAP request begins with what every request to the service begins with. Then it tells that
/// the file came by FTP and, each where it is known, the client, the data channel and its keys.
pub proof fn law_upload_is_reported(a: FtpUploadAdapter, n: nat)
    ensures
        icap_header(a, n) == a.icap_client.partial_request_header@ + (encode_utf8(
            "X-Transformed-From: FTP\r\n"@,
        ) + (match a.client_addr {
            Some(addr) => crate::header::client_addr_headers(addr),
            None => Seq::empty(),
        }) + (match a.connection_tuple {
            Some(tuple) => crate::header::tuple_headers(tuple),
            None => Seq::empty(),
        }) + (match a.keylog_buffer {
            Some(keylog) => crate::header::keylog_headers(keylog@),
            None => Seq::empty(),
        })) + encapsulated_header(n) + encode_utf8("\r\n"@),
{
    reveal_strlit("X-Transformed-From: FTP\r\n");
    reveal_strlit("X-Transformed-From");
    reveal_strlit(": ");
    reveal_strlit("FTP");
    reveal_strlit("\r\n");
    let b = "X-Transformed-From"@;
    let c = ": "@;
    let d = "FTP"@;
    let e = "\r\n"@;
    assert("X-Transformed-From: FTP\r\n"@ =~= b + c + d + e);
    text::lemma_encode_concat(b + c + d, e);
    text::lemma_encode_concat(b + c, d);
    text::lemma_encode_concat(b, c);
}

/// The class of a failure tells what it is about: reading the client, writing to the FTP server,
/// writing to the ICAP service or reading its verdict, a forced end, or the proxy itself.
pub proof fn law_failures_are_classed(e: FtpAdaptationError)
    ensures
        e.class() is ClientRead <==> e is FtpClientReadFailed || e is FtpClientReadIdle,
        e.class() is UpstreamWrite <==> e is FtpUpstreamWriteFailed || e is FtpUpstreamWriteIdle,
        e.class() is IcapWrite <==> e is IcapServerWriteFailed || e is IcapServerWriteIdle,
        e.class() is IcapRead <==> e is IcapServerReadFailed || e is IcapServerReadIdle || e
            is IcapServerConnectionClosed || e is InvalidIcapServerResponse,
        e.class() is ForceQuit <==> e is IdleForceQuit,
        e.class() is Internal <==> e is InternalServerError || e is NotImplemented,
{
}

/// The text of a failure ends in the text of the error beneath it, where there is one.
pub proof fn law_failure_texts(e: FtpAdaptationError)
    ensures
        match e {
            FtpAdaptationError::IcapServerWriteFailed(s) => e.text()
                == "write to icap server failed: "@ + s@,
            FtpAdaptationError::IcapServerReadFailed(s) => e.text()
                == "read from icap server failed: "@ + s@,
            FtpAdaptationError::InvalidIcapServerResponse(p) => e.text()
                == "invalid response from icap server: "@ + p.text@,
            FtpAdaptationError::FtpClientReadFailed(s) => e.text() == "read from ftp client failed: "@
                + s@,
            FtpAdaptationError::FtpUpstreamWriteFailed(s) => e.text()
                == "write to ftp upstream failed: "@ + s@,
            FtpAdaptationError::InternalServerError(s) => e.text() == "internal server error: "@
                + s@,
            FtpAdaptationError::NotImplemented(s) => e.text() == "not implemented feature: "@ + s@,
            FtpAdaptationError::IcapServerConnectionClosed => e.text()
                == "icap server connection closed"@,
            FtpAdaptationError::IdleForceQuit => e.text() == "force quit from idle checker"@,
            FtpAdaptationError::FtpClientReadIdle => e.text()
                == "idle while reading from ftp client"@,
            FtpAdaptationError::FtpUpstreamWriteIdle => e.text()
                == "idle while writing to ftp upstream"@,
            FtpAdaptationError::IcapServerReadIdle => e.text()
                == "idle while reading from icap server"@,
            FtpAdaptationError::IcapServerWriteIdle => e.text()
                == "idle while writing to icap server"@,
        },
{
}

/// A buffer is as large as is configured, and never smaller than sixteen kibibytes.
pub proof fn law_read_buffer(copy_buffer_size: usize)
    ensures
        read_size(copy_buffer_size) >= 16384,
        read_size(copy_buffer_size) >= copy_buffer_size,
        read_size(copy_buffer_size) == 16384 || read_size(copy_buffer_size) == copy_buffer_size,
{
}

} // verus!
