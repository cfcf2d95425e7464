//! An FTP proxy server: how it is set up and reloaded, and which connections it takes.

use crate::config::{
    clone_option, AnyServerConfig, ConfigError, FtpProxyServerConfig, SERVER_CONFIG_TYPE,
};
use crate::net::SocketAddr;
use crate::stats::FtpProxyServerStats;
use vstd::prelude::*;
use vstd::string::*;

verus! {

/// What the ingress filter says of an address.
#[derive(Clone, Copy, Debug, PartialEq, Eq, Structural)]
pub enum AclAction {
    Permit,
    PermitAndLog,
    Forbid,
    ForbidAndLog,
}

impl AclAction {
    pub open spec fn forbids(self) -> bool {
        self is Forbid || self is ForbidAndLog
    }
}

/// The counters of the sockets on which a server listens.
#[derive(Clone, Copy, Debug, PartialEq, Eq, Structural)]
pub struct ListenStats {
    /// The connections that were dropped at once. The counter wraps around at its limit.
    pub dropped: u64,
}

/// A connection is dropped at once: there is an ingress filter, and it forbids the client.
pub open spec fn dropped_at_once(action: Option<AclAction>) -> bool {
    action matches Some(a) && a.forbids()
}

/// The counters after a connection, of which the filter says the given.
pub open spec fn drops_counted(s: ListenStats, action: Option<AclAction>) -> ListenStats {
    if dropped_at_once(action) {
        ListenStats { dropped: s.dropped.wrapping_add(1) }
    } else {
        s
    }
}

/// A server, in one version of its configuration.
#[derive(Debug)]
pub struct FtpProxyServer {
    pub config: FtpProxyServerConfig,
    /// The auditor of uploads, by its name.
    pub audit_handle: Option<String>,
    pub reload_version: usize,
}

/// Why no server can be made of a configuration.
pub open spec fn no_upstream() -> crate::config::ErrorView {
    crate::config::plain_error("no upstream ftp server set"@)
}

pub open spec fn wrong_type(actual: Seq<char>) -> crate::config::ErrorView {
    crate::config::plain_error(
        "config type mismatch: expect "@ + SERVER_CONFIG_TYPE@ + ", actual "@ + actual,
    )
}

/// The auditor that was found, if any was.
pub open spec fn found(audit_handle: Result<Option<String>, String>) -> Option<Seq<char>> {
    match audit_handle {
        Ok(Some(name)) => Some(name@),
        _ => None,
    }
}

/// The counters of a server that was set up with the configuration.
pub open spec fn tagged(
    s: FtpProxyServerStats,
    now: FtpProxyServerStats,
    c: FtpProxyServerConfig,
) -> bool {
    &&& now == (FtpProxyServerStats { extra_metrics_tags: now.extra_metrics_tags, ..s })
    &&& crate::text::text_of(now.extra_metrics_tags) == c@.extra_metrics_tags
}

impl FtpProxyServer {
    /// The server is the one that a configuration makes.
    pub open spec fn made_of(
        self,
        config: FtpProxyServerConfig,
        audit_handle: Result<Option<String>, String>,
        version: int,
    ) -> bool {
        &&& self.config == config
        &&& crate::text::text_of(self.audit_handle) == found(audit_handle)
        &&& self.reload_version == version
    }

    /// Sets a server up. The search for its auditor, if it failed, is taken to have found none.
    pub fn new(
        config: FtpProxyServerConfig,
        server_stats: &mut FtpProxyServerStats,
        audit_handle: Result<Option<String>, String>,
        version: usize,
    ) -> (r: Result<FtpProxyServer, ConfigError>)
        ensures
            match r {
                Ok(server) => {
                    &&& config.upstream@.len() > 0
                    &&& server.made_of(config, audit_handle, version as int)
                    &&& tagged(*old(server_stats), *final(server_stats), config)
                },
                Err(e) => {
                    &&& config.upstream@.len() == 0
                    &&& e@ == no_upstream()
                    &&& *final(server_stats) == *old(server_stats)
                },
            },
    {
        if config.upstream.len() == 0 {
            return Err(
                ConfigError { message: "no upstream ftp server set".to_owned(), cause: None },
            );
        }
        let audit_handle: Option<String> = match audit_handle {
            Ok(found) => found,
            Err(_) => None,
        };
        server_stats.set_extra_tags(clone_option(&config.extra_metrics_tags));
        Ok(FtpProxyServer { config, audit_handle, reload_version: version })
    }

    /// The first version of a server, and its counters.
    pub fn prepare_initial(
        config: FtpProxyServerConfig,
        stat_id: u64,
        audit_handle: Result<Option<String>, String>,
    ) -> (r: Result<(FtpProxyServer, FtpProxyServerStats), ConfigError>)
        ensures
            match r {
                Ok((server, stats)) => {
                    &&& config.upstream@.len() > 0
                    &&& server.made_of(config, audit_handle, 1)
                    &&& stats.name@ == config@.name
                    &&& stats.id == stat_id
                    &&& crate::text::text_of(stats.extra_metrics_tags) == config@.extra_metrics_tags
                    &&& stats.online == 0
                    &&& stats.task_alive_control == 0
                    &&& stats.task_total == 0
                    &&& stats.tcp_control.in_bytes == 0
                    &&& stats.tcp_control.out_bytes == 0
                },
                Err(e) => config.upstream@.len() == 0 && e@ == no_upstream(),
            },
    {
        let mut stats = FtpProxyServerStats::new(config.name(), stat_id);
        match FtpProxyServer::new(config, &mut stats, audit_handle, 1) {
            Ok(server) => Ok((server, stats)),
            Err(e) => Err(e),
        }
    }

    /// The next version of the server, which goes on with its counters.
    pub fn prepare_reload(
        &self,
        config: AnyServerConfig,
        server_stats: &mut FtpProxyServerStats,
        audit_handle: Result<Option<String>, String>,
    ) -> (r: Result<FtpProxyServer, ConfigError>)
        requires
            self.reload_version < usize::MAX,
        ensures
            match config {
                AnyServerConfig::Other(actual) => {
                    &&& r matches Err(e) && e@ == wrong_type(actual@)
                    &&& *final(server_stats) == *old(server_stats)
                },
                AnyServerConfig::FtpProxy(config) => match r {
                    Ok(server) => {
                        &&& config.upstream@.len() > 0
                        &&& server.made_of(config, audit_handle, self.reload_version + 1)
                        &&& tagged(*old(server_stats), *final(server_stats), config)
                    },
                    Err(e) => {
                        &&& config.upstream@.len() == 0
                        &&& e@ == no_upstream()
                        &&& *final(server_stats) == *old(server_stats)
                    },
                },
            },
    {
        match config {
            AnyServerConfig::FtpProxy(config) => FtpProxyServer::new(
                config,
                server_stats,
                audit_handle,
                self.reload_version + 1,
            ),
            AnyServerConfig::Other(actual) => {
                let mut message = "config type mismatch: expect ".to_owned();
                message.append(self.config.server_type());
                message.append(", actual ");
                message.append(actual.as_str());
                Err(ConfigError { message, cause: None })
            },
        }
    }

    /// Whether a connection is dropped at once: where there is an ingress filter and it forbids
    /// the client.
    pub fn drop_early(&self, listen_stats: &mut ListenStats, action: Option<AclAction>) -> (r: bool)
        ensures
            r == dropped_at_once(action),
            *final(listen_stats) == drops_counted(*old(listen_stats), action),
    {
        match action {
            Some(AclAction::Forbid) | Some(AclAction::ForbidAndLog) => {
                listen_stats.dropped = listen_stats.dropped.wrapping_add(1);
                true
            },
            _ => false,
        }
    }

    /// Counts a connection and tells whether its task is run.
    pub fn accept(
        &self,
        server_stats: &mut FtpProxyServerStats,
        listen_stats: &mut ListenStats,
        client_addr: SocketAddr,
        action: Option<AclAction>,
    ) -> (run: bool)
        ensures
            run == !dropped_at_once(action),
            *final(listen_stats) == drops_counted(*old(listen_stats), action),
            *final(server_stats) == crate::stats::conn_counted(*old(server_stats)),
    {
        server_stats.add_conn(client_addr);
        !self.drop_early(listen_stats, action)
    }

    /// Takes over the auditor that was found; a search that failed changes nothing.
    pub fn update_audit_handle(&mut self, audit_handle: Result<Option<String>, String>) -> (r: Result<
        (),
        String,
    >)
        ensures
            match audit_handle {
                Ok(now) => r is Ok && *final(self) == (FtpProxyServer {
                    audit_handle: now,
                    ..*old(self)
                }),
                Err(e) => r == Err::<(), String>(e) && *final(self) == *old(self),
            },
    {
        match audit_handle {
            Ok(now) => {
                self.audit_handle = now;
                Ok(())
            },
            Err(e) => Err(e),
        }
    }

    /// Whether the server listens itself.
    pub fn listens(&self) -> (r: bool)
        ensures
            r == (self.config@.listen is Some),
    {
        self.config.listen.is_some()
    }

    /// Counts the start of the server's listeners: it is online where they run.
    pub fn runtime_started(
        &self,
        server_stats: &mut FtpProxyServerStats,
        started: Result<(), String>,
    ) -> (r: Result<(), String>)
        ensures
            r == started,
            *final(server_stats) == if started is Ok {
                crate::stats::online_counted(*old(server_stats))
            } else {
                *old(server_stats)
            },
    {
        if started.is_ok() {
            server_stats.set_online();
        }
        started
    }

    /// A copy of the server's configuration.
    pub fn clone_config(&self) -> (r: AnyServerConfig)
        ensures
            r matches AnyServerConfig::FtpProxy(c) && c@ == self.config@,
    {
        AnyServerConfig::FtpProxy(self.config.clone())
    }

    pub fn version(&self) -> (r: usize)
        ensures
            r == self.reload_version,
    {
        self.reload_version
    }
}

/// A client is dropped at once exactly where the filter forbids it, whether that is logged or not.
pub proof fn law_filter_decides(action: AclAction)
    ensures
        action.forbids() <==> action == AclAction::Forbid || action == AclAction::ForbidAndLog,
{
}

/// A server is made of its configuration, under the version that it is given, with the auditor that
/// was found; a search that failed has found none.
pub proof fn law_server_is_made_of_its_configuration(
    server: FtpProxyServer,
    config: FtpProxyServerConfig,
    audit_handle: Result<Option<String>, String>,
    version: int,
)
    requires
        server.made_of(config, audit_handle, version),
    ensures
        server.config == config,
        server.reload_version == version,
        audit_handle is Err ==> server.audit_handle is None,
        audit_handle matches Ok(now) ==> crate::text::text_of(server.audit_handle)
            == crate::text::text_of(now),
{
}

/// Why no server is made is told: there is no FTP server, or the configuration is of another kind,
/// which is named.
pub proof fn law_refused_servers(actual: Seq<char>)
    ensures
        no_upstream().message == "no upstream ftp server set"@,
        no_upstream().cause is None,
        wrong_type(actual).message == "config type mismatch: expect FtpProxy, actual "@ + actual,
        wrong_type(actual).cause is None,
{
    reveal_strlit("config type mismatch: expect FtpProxy, actual ");
    reveal_strlit("config type mismatch: expect ");
    reveal_strlit("FtpProxy");
    reveal_strlit(", actual ");
    assert("config type mismatch: expect FtpProxy, actual "@ =~= "config type mismatch: expect "@
        + "FtpProxy"@ + ", actual "@);
}

/// A server that is set up tags its counters as its configuration asks, and changes none of them.
pub proof fn law_counters_are_tagged(
    s: FtpProxyServerStats,
    now: FtpProxyServerStats,
    c: FtpProxyServerConfig,
)
    requires
        tagged(s, now, c),
    ensures
        crate::text::text_of(now.extra_metrics_tags) == crate::text::text_of(c.extra_metrics_tags),
        now.name == s.name && now.id == s.id && now.online == s.online,
        now.task_alive_control == s.task_alive_control && now.task_total == s.task_total,
        now.tcp_control == s.tcp_control,
{
}

/// A connection is dropped, and counted as dropped, exactly where a filter forbids its client.
pub proof fn law_forbidden_clients_are_dropped(s: ListenStats, action: Option<AclAction>)
    ensures
        dropped_at_once(action) <==> action == Some(AclAction::Forbid) || action == Some(
            AclAction::ForbidAndLog,
        ),
        dropped_at_once(action) && s.dropped < u64::MAX ==> drops_counted(s, action).dropped
            == s.dropped + 1,
        !dropped_at_once(action) ==> drops_counted(s, action) == s,
{
}

} // verus!
