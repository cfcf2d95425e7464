//! The configuration, the counters and the set-up of a server.

use ftp_audit::config::{
    setting_key, AnyServerConfig, ConfigDefaults, ConfigError, ConfigItem, FtpProxyServerConfig,
    ServerConfigDiffAction, SettingKey, SettingValue, TlsUpstream, TlsUpstreamType,
    DEFAULT_FTP_PORT,
};
use ftp_audit::net::{IpAddr, Ipv4Addr, Ipv6Addr, SocketAddr};
use ftp_audit::server::{AclAction, FtpProxyServer, ListenStats};
use ftp_audit::stats::{FtpProxyServerStats, TcpIoSnapshot};

fn defaults() -> ConfigDefaults {
    ConfigDefaults {
        type_key: "type".to_string(),
        name_key: "name".to_string(),
        idle_check_duration: 60,
        idle_max_count: 5,
        idle_check_maximum: 1800,
        tcp_sock_speed_limit: "none".to_string(),
        tcp_misc_opts: "default".to_string(),
    }
}

fn text(s: &str) -> SettingValue {
    SettingValue::Text(Ok(s.to_string()))
}

fn bad_text() -> SettingValue {
    SettingValue::Text(Err("cause".to_string()))
}

fn tls(s: &str) -> TlsUpstream {
    TlsUpstream { builder: s.to_string(), checked: Ok(format!("{} checked", s)) }
}

fn item(k: &str, value: SettingValue) -> ConfigItem {
    ConfigItem { k: k.to_string(), key: k.to_string(), value }
}

fn minimal() -> Vec<ConfigItem> {
    vec![
        item("type", SettingValue::Unused),
        item("name", text("ftp")),
        item("escaper", text("direct")),
        item("upstream", SettingValue::Upstreams(Ok(vec!["10.0.0.1:21".to_string()]))),
    ]
}

fn parse(items: Vec<ConfigItem>) -> Result<FtpProxyServerConfig, ConfigError> {
    FtpProxyServerConfig::parse(items, Some("file:1".to_string()), &defaults())
}

fn with(more: Vec<ConfigItem>) -> FtpProxyServerConfig {
    let mut items = minimal();
    items.extend(more);
    parse(items).unwrap()
}

fn refusal(more: Vec<ConfigItem>) -> (String, Option<String>) {
    let mut items = minimal();
    items.extend(more);
    let e = parse(items).unwrap_err();
    (e.message, e.cause)
}

#[test]
fn configuration_with_defaults() {
    assert_eq!(DEFAULT_FTP_PORT, 21);
    let c = with(vec![]);
    assert_eq!(c.name(), "ftp");
    assert_eq!(c.server_type(), "FtpProxy");
    assert_eq!(c.escaper(), "direct");
    assert_eq!(c.auditor(), "");
    assert_eq!(c.user_group(), "");
    assert_eq!(c.shared_logger(), None);
    assert_eq!(c.upstream, ["10.0.0.1:21"]);
    assert_eq!(c.position, Some("file:1".to_string()));
    assert_eq!((c.task_idle_check_duration, c.task_max_idle_count()), (60, 5));
    assert_eq!(c.task_log_flush_interval(), None);
    assert_eq!((c.tcp_sock_speed_limit.as_str(), c.tcp_misc_opts.as_str()), ("none", "default"));
    assert!(c.audit_upload);
    assert!(!c.listen_in_worker && !c.flush_task_log_on_created && !c.flush_task_log_on_connected);
    assert_eq!(c.tls_upstream_type, TlsUpstreamType::PlainFtp);
    assert_eq!(TlsUpstreamType::default(), TlsUpstreamType::PlainFtp);
    assert!(c.listen.is_none() && c.ingress_net_filter.is_none() && c.tls_upstream.is_none());
}

#[test]
fn all_settings() {
    let c = with(vec![
        item("auditor", text("icap")),
        item("shared_logger", text("log")),
        item("extra_metrics_tags", text("a=b")),
        item("listen", text("[::]:2121")),
        item("listen_in_worker", SettingValue::Flag(Ok(true))),
        item("ingress_net_filter", text("acl")),
        item("tcp_sock_speed_limit", text("10M")),
        item("tcp_misc_opts", text("nodelay")),
        item("task_idle_check_duration", SettingValue::Span(Ok(9999))),
        item("task_idle_max_count", SettingValue::Count(Ok(7))),
        item("flush_task_log_on_created", SettingValue::Flag(Ok(true))),
        item("flush_task_log_on_connected", SettingValue::Flag(Ok(true))),
        item("task_log_flush_interval", SettingValue::Span(Ok(3))),
        item("audit_upload", SettingValue::Flag(Ok(false))),
        item("tls_upstream", SettingValue::TlsSettings(Ok(tls("t")))),
        item("tls_upstream_type", text("auth_tls")),
        item("ftp_server", SettingValue::Upstreams(Ok(vec!["b".to_string(), "c".to_string()]))),
    ]);
    assert_eq!(c.auditor(), "icap");
    assert_eq!(c.shared_logger(), Some("log"));
    assert_eq!(c.extra_metrics_tags, Some("a=b".to_string()));
    assert_eq!(c.listen, Some("[::]:2121".to_string()));
    assert!(c.listen_in_worker && c.flush_task_log_on_created && c.flush_task_log_on_connected);
    assert_eq!(c.ingress_net_filter, Some("acl".to_string()));
    assert_eq!((c.tcp_sock_speed_limit.as_str(), c.tcp_misc_opts.as_str()), ("10M", "nodelay"));
    // The time between two looks at an idle task has a limit.
    assert_eq!((c.task_idle_check_duration, c.task_max_idle_count()), (1800, 7));
    assert_eq!(c.task_log_flush_interval(), Some(3));
    assert!(!c.audit_upload);
    assert_eq!(c.tls_upstream_type, TlsUpstreamType::ExplicitFtps);
    assert_eq!(c.tls_upstream.unwrap().builder, "t checked");
    assert_eq!(c.upstream, ["b", "c"]);
}

#[test]
fn keys_and_their_aliases() {
    let d = defaults();
    assert_eq!(setting_key("type", &d), SettingKey::ServerType);
    assert_eq!(setting_key("name", &d), SettingKey::ServerName);
    assert_eq!(setting_key("proxy_pass", &d), SettingKey::Upstream);
    assert_eq!(setting_key("upstream", &d), SettingKey::Upstream);
    assert_eq!(setting_key("ftp_server", &d), SettingKey::Upstream);
    assert_eq!(setting_key("ingress_network_filter", &d), SettingKey::IngressNetFilter);
    assert_eq!(setting_key("ingress_net_filter", &d), SettingKey::IngressNetFilter);
    assert_eq!(setting_key("Escaper", &d), SettingKey::Unknown);
}

#[test]
fn kinds_of_ftp_servers() {
    for (value, kind) in [
        ("plain_ftp", TlsUpstreamType::PlainFtp),
        ("plain", TlsUpstreamType::PlainFtp),
        ("ftp", TlsUpstreamType::PlainFtp),
        ("explicit_ftps", TlsUpstreamType::ExplicitFtps),
        ("explicit", TlsUpstreamType::ExplicitFtps),
        ("auth_tls", TlsUpstreamType::ExplicitFtps),
        ("implicit_ftps", TlsUpstreamType::ImplicitFtps),
        ("implicit", TlsUpstreamType::ImplicitFtps),
    ] {
        let c = with(vec![
            item("tls_upstream", SettingValue::TlsSwitch(true, tls("one"))),
            item("tls_upstream_type", text(value)),
        ]);
        assert_eq!(c.tls_upstream_type, kind);
    }
    assert_eq!(
        refusal(vec![item("tls_upstream_type", text("ssl"))]).0,
        "invalid tls_upstream_type value: ssl, expected plain_ftp, explicit_ftps, or implicit_ftps"
    );
    let c = with(vec![item("tls_upstream", SettingValue::TlsSwitch(false, tls("one")))]);
    assert!(c.tls_upstream.is_none());
}

#[test]
fn refused_values() {
    for (k, message) in [
        ("extra_metrics_tags", "invalid static metrics tags value for key extra_metrics_tags"),
        ("listen", "invalid tcp listen config value for key listen"),
        (
            "ingress_network_filter",
            "invalid ingress network acl rule value for key ingress_network_filter",
        ),
        (
            "tcp_sock_speed_limit",
            "invalid tcp socket speed limit value for key tcp_sock_speed_limit",
        ),
        ("tcp_misc_opts", "invalid tcp misc sock opts value for key tcp_misc_opts"),
    ] {
        assert_eq!(
            refusal(vec![item(k, bad_text())]),
            (message.to_string(), Some("cause".to_string()))
        );
    }
    for k in ["name", "escaper", "auditor", "shared_logger", "tls_upstream_type"] {
        assert_eq!(refusal(vec![item(k, bad_text())]), ("cause".to_string(), None));
    }
    for k in [
        "listen_in_worker",
        "flush_task_log_on_created",
        "flush_task_log_on_connected",
        "audit_upload",
    ] {
        let value = SettingValue::Flag(Err("no bool".to_string()));
        assert_eq!(refusal(vec![item(k, value)]), ("no bool".to_string(), None));
    }
    for k in ["task_idle_check_duration", "task_log_flush_interval"] {
        let value = SettingValue::Span(Err("no time".to_string()));
        assert_eq!(
            refusal(vec![item(k, value)]),
            (
                format!("invalid humanize duration value for key {}", k),
                Some("no time".to_string())
            )
        );
    }
    assert_eq!(
        refusal(vec![item("task_idle_max_count", SettingValue::Count(Err("n".to_string())))]).0,
        "invalid usize value for key task_idle_max_count"
    );
    assert_eq!(
        refusal(vec![item("proxy_pass", SettingValue::Upstreams(Err("u".to_string())))]).0,
        "invalid weighted upstream address value for key proxy_pass"
    );
    assert_eq!(
        refusal(vec![item("tls_upstream", SettingValue::TlsSettings(Err("t".to_string())))]).0,
        "invalid openssl tls upstream config value for key tls_upstream"
    );
    assert_eq!(
        refusal(vec![item("tls_upstream", SettingValue::TlsNoDir("d".to_string()))]),
        ("d".to_string(), None)
    );
    assert_eq!(refusal(vec![item("colour", text("red"))]).0, "invalid key colour");
    assert_eq!(
        refusal(vec![item("audit_upload", text("yes"))]).0,
        "invalid value for key audit_upload"
    );
}

#[test]
fn message_holds_the_key_as_it_is_written() {
    let mut c = FtpProxyServerConfig::new(None, &defaults());
    let e = c.set("Tcp-Misc-Opts", "tcp_misc_opts", bad_text(), &defaults()).unwrap_err();
    assert_eq!(e.message, "invalid tcp misc sock opts value for key Tcp-Misc-Opts");
    assert!(c.set("No-Such", "no_such", SettingValue::Unused, &defaults()).is_err());
}

#[test]
fn incomplete_configurations() {
    let missing = |n: usize| {
        let mut items = minimal();
        items.remove(n);
        parse(items).unwrap_err().message
    };
    assert_eq!(missing(1), "name is not set");
    assert_eq!(missing(2), "escaper is not set");
    assert_eq!(missing(3), "upstream is not set");
    assert_eq!(
        refusal(vec![item("tls_upstream_type", text("implicit"))]).0,
        "tls_upstream must be set when tls_upstream_type is ImplicitFtps"
    );
    let broken = TlsUpstream { builder: "b".to_string(), checked: Err("bad cert".to_string()) };
    assert_eq!(
        refusal(vec![
            item("tls_upstream", SettingValue::TlsSettings(Ok(broken))),
            item("tls_upstream_type", text("explicit")),
        ]),
        ("bad cert".to_string(), None)
    );
}

#[test]
fn checking_again_changes_nothing() {
    let mut c = with(vec![
        item("tls_upstream", SettingValue::TlsSettings(Ok(tls("t")))),
        item("tls_upstream_type", text("explicit")),
        item("task_idle_check_duration", SettingValue::Span(Ok(5000))),
    ]);
    assert!(c.check(&defaults()).is_ok());
    assert_eq!(c.task_idle_check_duration, 1800);
    assert_eq!(c.tls_upstream.unwrap().builder, "t checked");
}

#[test]
fn changes_of_a_configuration() {
    let c = with(vec![item("listen", text("a"))]);
    let diff = |items: Vec<ConfigItem>| c.diff_action(&AnyServerConfig::FtpProxy(with(items)));
    assert_eq!(
        c.diff_action(&AnyServerConfig::Other("HttpProxy".to_string())),
        ServerConfigDiffAction::SpawnNew
    );
    assert_eq!(diff(vec![item("listen", text("a"))]), ServerConfigDiffAction::NoAction);
    assert_eq!(diff(vec![item("listen", text("b"))]), ServerConfigDiffAction::ReloadAndRespawn);
    assert_eq!(diff(vec![]), ServerConfigDiffAction::ReloadAndRespawn);
    for more in [
        item("auditor", text("x")),
        item("audit_upload", SettingValue::Flag(Ok(false))),
        item("task_log_flush_interval", SettingValue::Span(Ok(1))),
        item("upstream", SettingValue::Upstreams(Ok(vec!["10.0.0.2:21".to_string()]))),
        item("tls_upstream", SettingValue::TlsSwitch(true, tls("t"))),
    ] {
        assert_eq!(
            diff(vec![item("listen", text("a")), more]),
            ServerConfigDiffAction::ReloadNoRespawn
        );
    }
}

#[test]
fn counters_of_tasks() {
    let mut s = FtpProxyServerStats::new("ftp", 3);
    assert_eq!((s.name.as_str(), s.id), ("ftp", 3));
    assert!(!s.is_online());
    for _ in 0..3 {
        s.add_control_task();
    }
    s.remove_control_task();
    assert_eq!(s.get_alive_count(), 2);
    assert!(s.is_online());
    s.remove_control_task();
    s.remove_control_task();
    assert!(!s.is_online());
    let v6 = Ipv6Addr { s0: 0, s1: 0, s2: 0, s3: 0, s4: 0, s5: 0, s6: 0, s7: 1 };
    s.add_conn(SocketAddr::new(IpAddr::V6(v6), 1));
    assert_eq!((s.get_task_total(), s.get_conn_total()), (4, 4));
    s.add_control_in_bytes(10);
    s.add_control_out_bytes(u64::MAX);
    s.add_control_out_bytes(2);
    assert_eq!(s.tcp_io_snapshot(), Some(TcpIoSnapshot { in_bytes: 10, out_bytes: 1 }));
    s.set_online();
    s.set_online();
    s.set_offline();
    assert_eq!(s.online, 1);
}

#[test]
fn server_is_set_up_and_reloaded() {
    let mut items = minimal();
    items.push(item("extra_metrics_tags", text("a=b")));
    items.push(item("listen", text("l")));
    let config = parse(items).unwrap();
    let (server, mut stats) =
        FtpProxyServer::prepare_initial(config, 8, Ok(Some("icap".to_string()))).unwrap();
    assert_eq!(server.version(), 1);
    assert_eq!(server.audit_handle, Some("icap".to_string()));
    assert!(server.listens());
    assert_eq!(
        server.config.diff_action(&server.clone_config()),
        ServerConfigDiffAction::NoAction
    );
    assert_eq!((stats.name.as_str(), stats.id), ("ftp", 8));
    assert_eq!(stats.extra_metrics_tags, Some("a=b".to_string()));

    stats.add_control_task();
    let next = AnyServerConfig::FtpProxy(with(vec![]));
    let mut server = server
        .prepare_reload(next, &mut stats, Err("no auditor".to_string()))
        .unwrap();
    assert_eq!(server.version(), 2);
    assert_eq!(server.audit_handle, None);
    assert_eq!(stats.extra_metrics_tags, None);
    assert_eq!(stats.get_alive_count(), 1);

    assert!(server.update_audit_handle(Ok(Some("x".to_string()))).is_ok());
    assert_eq!(server.update_audit_handle(Err("e".to_string())), Err("e".to_string()));
    assert_eq!(server.audit_handle, Some("x".to_string()));
    assert_eq!(server.runtime_started(&mut stats, Err("busy".to_string())), Err("busy".to_string()));
    assert_eq!(stats.online, 0);
    assert!(server.runtime_started(&mut stats, Ok(())).is_ok());
    assert_eq!(stats.online, 1);

    let other = AnyServerConfig::Other("HttpProxy".to_string());
    assert_eq!(
        server.prepare_reload(other, &mut stats, Ok(None)).unwrap_err().message,
        "config type mismatch: expect FtpProxy, actual HttpProxy"
    );
    let empty = FtpProxyServerConfig::new(None, &defaults());
    assert_eq!(
        FtpProxyServer::prepare_initial(empty, 1, Ok(None)).unwrap_err().message,
        "no upstream ftp server set"
    );
}

#[test]
fn forbidden_clients_are_dropped() {
    let (server, mut stats) = FtpProxyServer::prepare_initial(with(vec![]), 1, Ok(None)).unwrap();
    let mut listen = ListenStats { dropped: 0 };
    let addr = SocketAddr::new(IpAddr::V4(Ipv4Addr::localhost()), 5);
    for (action, run) in [
        (None, true),
        (Some(AclAction::Permit), true),
        (Some(AclAction::PermitAndLog), true),
        (Some(AclAction::Forbid), false),
        (Some(AclAction::ForbidAndLog), false),
    ] {
        assert_eq!(server.accept(&mut stats, &mut listen, addr, action), run);
    }
    assert_eq!(listen.dropped, 2);
    assert_eq!(stats.get_conn_total(), 5);
}
