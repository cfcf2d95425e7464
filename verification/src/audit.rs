//! How an upload is audited: what the auditor is told of it, and the way that the upload goes.

use crate::adaptation::{new_adaptation_run_state, FtpUploadAdapter};
use crate::copy::ByteRelay;
use crate::keylog::TlsKeyLogBuffer;
use crate::net::SocketAddr;
use crate::reqmod::{ConnectionProtocol, ConnectionTuple, IcapReqmodClient};
use crate::transfer::{FtpUploadTransfer, TransferAction};
use std::sync::Arc;
use vstd::prelude::*;
use vstd::string::*;

verus! {

/// How long, once an audited upload is over, the other direction of its channel may go on:
/// ten seconds, in nanoseconds.
pub const UPSTREAM_CLOSE_LIMIT: u128 = 10_000_000_000;

/// The pieces that may wait in one direction of a channel that is relayed both ways.
pub const HALF_RELAY_CAPACITY: usize = 8;

/// What is needed to audit one upload.
#[derive(Debug)]
pub struct FtpUploadAuditContext {
    pub icap_client: Arc<IcapReqmodClient>,
    /// The size that is configured for copy buffers.
    pub copy_buffer_size: usize,
    pub client_addr: Option<SocketAddr>,
    pub ftp_command: String,
    pub ftp_path: String,
    /// The proxy's own address on the data channel and the FTP server's.
    pub data_channel_tuple: Option<ConnectionTuple>,
    /// The keys of the TLS connection to the FTP server.
    pub keylog_buffer: Option<Arc<TlsKeyLogBuffer>>,
}

/// The adapter that audits the upload.
pub open spec fn adapter_of(c: FtpUploadAuditContext, a: FtpUploadAdapter) -> bool {
    &&& *a.icap_client == c.icap_client.service()
    &&& a.copy_buffer_size == c.copy_buffer_size
    &&& a.client_addr == c.client_addr
    &&& a.connection_tuple == c.data_channel_tuple
    &&& a.keylog_buffer == c.keylog_buffer
}

impl FtpUploadAuditContext {
    /// The adapter that audits the upload, for a caller that holds a connection to the service.
    pub fn adapter(&self) -> (r: FtpUploadAdapter)
        ensures
            adapter_of(*self, r),
    {
        let mut adapter = self.icap_client.ftp_upload_audit_adapter(self.copy_buffer_size);
        if let Some(addr) = self.client_addr {
            adapter.set_client_addr(addr);
        }
        if let Some(tuple) = self.data_channel_tuple {
            adapter.set_connection_tuple(tuple);
        }
        if let Some(keylog) = &self.keylog_buffer {
            adapter.set_keylog_buffer(keylog.clone());
        }
        adapter
    }

    /// Begins to forward the upload, with a copy to the ICAP service.
    pub fn begin(&self, now: u128) -> (r: (FtpUploadTransfer, TransferAction))
        ensures
            r.0@ == crate::transfer::transfer_start(
                true,
                crate::adaptation::ReqmodAdaptationRunState {
                    created: now,
                    clt_read_finished: false,
                },
            ),
            exists|a: FtpUploadAdapter| #[trigger]
                adapter_of(*self, a) && r.1@ == crate::transfer::headers_to_send(
                    a,
                    self.ftp_command@,
                    self.ftp_path@,
                ),
    {
        let state = new_adaptation_run_state(now);
        let adapter = self.adapter();
        let ghost a = adapter;
        assert(adapter_of(*self, a));
        adapter.audit_and_forward(state, self.ftp_command.as_str(), self.ftp_path.as_str())
    }
}

/// The way that an upload goes.
#[derive(Debug)]
pub enum UploadRoute {
    /// To the FTP server and, if a connection to it can be had, to the ICAP service.
    Audited(FtpUploadAuditContext),
    /// To the FTP server alone.
    Plain(ByteRelay),
}

/// The way that an upload goes, if it is not audited by the given copy.
pub open spec fn upload_route(
    audit_ctx: Option<FtpUploadAuditContext>,
    plain: ByteRelay,
) -> UploadRoute {
    match audit_ctx {
        Some(ac) => UploadRoute::Audited(ac),
        None => UploadRoute::Plain(plain),
    }
}

/// The way that an upload goes: audited where there is an auditor.
pub fn run_ftp_upload_audit_or_relay(
    audit_ctx: Option<FtpUploadAuditContext>,
    max_idle_count: usize,
) -> (r: UploadRoute)
    ensures
        r == upload_route(
            audit_ctx,
            crate::copy::upload_copy(Some(max_idle_count)),
        ),
{
    match audit_ctx {
        Some(ac) => UploadRoute::Audited(ac),
        None => UploadRoute::Plain(ByteRelay::raw_forward_with_idle(max_idle_count)),
    }
}

/// The way that an upload goes in a channel that is relayed both ways, and how the other direction
/// is copied.
pub fn run_ftp_upload_audit_or_relay_bidi(
    audit_ctx: Option<FtpUploadAuditContext>,
    max_idle_count: usize,
) -> (r: (UploadRoute, ByteRelay))
    ensures
        ({
            let half = crate::copy::half_copy(max_idle_count);
            r == (upload_route(audit_ctx, half), half)
        }),
{
    let half = ByteRelay::bidi_half_relay_with_idle(max_idle_count);
    match audit_ctx {
        Some(ac) => (UploadRoute::Audited(ac), half),
        None => (UploadRoute::Plain(half), half),
    }
}

/// The ends of a data channel that the proxy connected to the FTP server itself.
pub open spec fn channel_ends(
    own_addr: Option<SocketAddr>,
    server_addr: SocketAddr,
) -> ConnectionTuple {
    ConnectionTuple {
        server_addr: match own_addr {
            Some(addr) => addr,
            None => server_addr,
        },
        remote_addr: server_addr,
        protocol: ConnectionProtocol::Tcp,
    }
}

/// The ends of a data channel that the proxy connected to the FTP server itself: the proxy's own
/// address, or the server's where it is not known, and the server's.
pub fn data_channel_tuple(own_addr: Option<SocketAddr>, server_addr: SocketAddr) -> (r:
    ConnectionTuple)
    ensures
        r == channel_ends(own_addr, server_addr),
{
    let own = match own_addr {
        Some(addr) => addr,
        None => server_addr,
    };
    ConnectionTuple { server_addr: own, remote_addr: server_addr, protocol: ConnectionProtocol::Tcp }
}

/// The auditor of a server's uploads.
pub open spec fn auditor_of(
    audit_upload: bool,
    found: Option<Arc<IcapReqmodClient>>,
) -> Option<Arc<IcapReqmodClient>> {
    if audit_upload {
        found
    } else {
        None
    }
}

/// The auditor of a server's uploads: the one that was found, if uploads are audited at all.
pub fn upload_auditor(audit_upload: bool, found: Option<Arc<IcapReqmodClient>>) -> (r: Option<
    Arc<IcapReqmodClient>,
>)
    ensures
        r == auditor_of(audit_upload, found),
{
    if audit_upload {
        found
    } else {
        None
    }
}

/// The ICAP service of the upload's auditor is told all that is known of the upload, and nothing
/// else: its client, its data channel and its keys.
pub proof fn law_adapter_reports_the_upload(c: FtpUploadAuditContext, a: FtpUploadAdapter)
    requires
        adapter_of(c, a),
    ensures
        *a.icap_client == c.icap_client.service(),
        a.client_addr == c.client_addr,
        a.connection_tuple == c.data_channel_tuple,
        a.keylog_buffer == c.keylog_buffer,
        a.copy_buffer_size == c.copy_buffer_size,
{
}

/// Uploads are audited exactly where the configuration asks for it and an auditor was found, and
/// by this auditor.
pub proof fn law_configuration_decides_on_the_audit(
    audit_upload: bool,
    found: Option<Arc<IcapReqmodClient>>,
)
    ensures
        auditor_of(audit_upload, found) is Some <==> audit_upload && found is Some,
        auditor_of(audit_upload, found) is Some ==> auditor_of(audit_upload, found) == found,
{
}

/// An upload is audited exactly where it has an auditor, who is told what is known of it; any other
/// is copied.
pub proof fn law_audited_upload_is_not_just_copied(
    audit_ctx: Option<FtpUploadAuditContext>,
    plain: ByteRelay,
)
    ensures
        match upload_route(audit_ctx, plain) {
            UploadRoute::Audited(ac) => audit_ctx == Some(ac),
            UploadRoute::Plain(copy) => audit_ctx is None && copy == plain,
        },
{
}

/// The remote end of a data channel is the FTP server's, and the other end the proxy's own address,
/// or again the server's where that is not known; the channel is over TCP.
pub proof fn law_ends_of_a_data_channel(own_addr: SocketAddr, server_addr: SocketAddr)
    ensures
        channel_ends(Some(own_addr), server_addr).server_addr == own_addr,
        channel_ends(None, server_addr).server_addr == server_addr,
        channel_ends(Some(own_addr), server_addr).remote_addr == server_addr,
        channel_ends(None, server_addr).remote_addr == server_addr,
        channel_ends(Some(own_addr), server_addr).protocol == ConnectionProtocol::Tcp,
        channel_ends(None, server_addr).protocol == ConnectionProtocol::Tcp,
{
}

} // verus!
