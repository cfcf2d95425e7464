//! The ICAP client for request modification, and what it reports of a connection.

use crate::net::SocketAddr;
use std::sync::Arc;
use vstd::prelude::*;

verus! {

/// The transport protocol of a connection.
#[derive(Clone, Copy, Debug, PartialEq, Eq, Structural)]
pub enum ConnectionProtocol {
    Tcp,
    Udp,
}

impl ConnectionProtocol {
    /// The number that IANA assigned to the protocol.
    pub open spec fn assigned(self) -> u8 {
        match self {
            ConnectionProtocol::Tcp => 6,
            ConnectionProtocol::Udp => 17,
        }
    }

    /// The number that IANA assigned to the protocol.
    pub fn number(&self) -> (r: u8)
        ensures
            r == self.assigned(),
    {
        match self {
            ConnectionProtocol::Tcp => 6,
            ConnectionProtocol::Udp => 17,
        }
    }
}

/// The two ends of a data channel and its protocol.
#[derive(Clone, Copy, Debug, PartialEq, Eq, Structural)]
pub struct ConnectionTuple {
    pub server_addr: SocketAddr,
    pub remote_addr: SocketAddr,
    pub protocol: ConnectionProtocol,
}

/// The settings of an ICAP service.
#[derive(Clone, Copy, Debug)]
pub struct IcapServiceConfig {
    /// Requests are let through where the service cannot be reached.
    pub bypass: bool,
}

/// An ICAP service.
#[derive(Debug)]
pub struct IcapServiceClient {
    pub config: IcapServiceConfig,
    /// The request line and the headers that every request to the service begins with.
    pub partial_request_header: Vec<u8>,
}

/// The client of an ICAP service for request modification.
#[derive(Clone, Debug)]
pub struct IcapReqmodClient {
    inner: Arc<IcapServiceClient>,
}

impl IcapReqmodClient {
    /// The service behind the client.
    pub closed spec fn service(&self) -> IcapServiceClient {
        *self.inner
    }

    pub fn new(inner: Arc<IcapServiceClient>) -> (r: IcapReqmodClient)
        ensures
            r.service() == *inner,
    {
        IcapReqmodClient { inner }
    }

    /// Whether requests are let through where the service cannot be reached.
    pub fn bypass(&self) -> (r: bool)
        ensures
            r == self.service().config.bypass,
    {
        self.inner.config.bypass
    }

    /// The service client, for the protocol adapters.
    pub fn service_client(&self) -> (r: &Arc<IcapServiceClient>)
        ensures
            **r == self.service(),
    {
        &self.inner
    }

    /// The service client, for the FTP adapter and its monitoring.
    pub fn ftp_service_client(&self) -> (r: &Arc<IcapServiceClient>)
        ensures
            **r == self.service(),
    {
        &self.inner
    }
}

} // verus!
