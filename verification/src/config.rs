//! The configuration of an FTP proxy server.
//!
//! A configuration is read item by item. The value of an item is converted before it is set; a
//! value that the server does not look into, such as a listen address, is kept as text. Times
//! are nanoseconds.

use crate::text::str_eq;
use vstd::prelude::*;
use vstd::string::*;

verus! {

/// The port of an FTP server whose address names none.
pub const DEFAULT_FTP_PORT: u16 = 21;

/// What kind of FTP server the proxy forwards to.
#[derive(Clone, Copy, Debug, PartialEq, Eq, Structural)]
pub enum TlsUpstreamType {
    /// Without TLS.
    PlainFtp,
    /// TLS after a command on the control channel.
    ExplicitFtps,
    /// TLS from the first byte on.
    ImplicitFtps,
}

impl Default for TlsUpstreamType {
    fn default() -> (r: TlsUpstreamType)
        ensures
            r == TlsUpstreamType::PlainFtp,
    {
        TlsUpstreamType::PlainFtp
    }
}

impl TlsUpstreamType {
    pub open spec fn name(self) -> Seq<char> {
        match self {
            TlsUpstreamType::PlainFtp => "PlainFtp"@,
            TlsUpstreamType::ExplicitFtps => "ExplicitFtps"@,
            TlsUpstreamType::ImplicitFtps => "ImplicitFtps"@,
        }
    }

    fn name_str(&self) -> (r: &'static str)
        ensures
            r@ == self.name(),
    {
        match self {
            TlsUpstreamType::PlainFtp => "PlainFtp",
            TlsUpstreamType::ExplicitFtps => "ExplicitFtps",
            TlsUpstreamType::ImplicitFtps => "ImplicitFtps",
        }
    }
}

/// The kind of server that is configured here.
pub const SERVER_CONFIG_TYPE: &'static str = "FtpProxy";

/// Why a configuration is refused.
#[derive(Debug)]
pub struct ConfigError {
    pub message: String,
    /// What went wrong underneath, where the message only says what was tried.
    pub cause: Option<String>,
}

#[verifier::ext_equal]
pub struct ErrorView {
    pub message: Seq<char>,
    pub cause: Option<Seq<char>>,
}

impl View for ConfigError {
    type V = ErrorView;

    open spec fn view(&self) -> ErrorView {
        ErrorView { message: self.message@, cause: crate::text::text_of(self.cause) }
    }
}

pub open spec fn plain_error(message: Seq<char>) -> ErrorView {
    ErrorView { message, cause: None }
}

/// The error of a value that could not be converted: what was tried for which key, and why it
/// failed.
pub open spec fn value_error(what: Seq<char>, k: Seq<char>, cause: Seq<char>) -> ErrorView {
    ErrorView { message: what + k, cause: Some(cause) }
}

fn refuse(message: &str) -> (r: ConfigError)
    ensures
        r@ == plain_error(message@),
{
    ConfigError { message: message.to_owned(), cause: None }
}

fn refuse_text(message: String) -> (r: ConfigError)
    ensures
        r@ == plain_error(message@),
{
    ConfigError { message, cause: None }
}

fn refuse_value(what: &str, k: &str, cause: String) -> (r: ConfigError)
    ensures
        r@ == value_error(what@, k@, cause@),
{
    let mut message = what.to_owned();
    message.append(k);
    ConfigError { message, cause: Some(cause) }
}

/// The TLS settings for the FTP server, and what the check of them makes of them.
#[derive(Debug)]
pub struct TlsUpstream {
    pub builder: String,
    pub checked: Result<String, String>,
}

#[verifier::ext_equal]
pub struct TlsUpstreamView {
    pub builder: Seq<char>,
    pub checked: Result<Seq<char>, Seq<char>>,
}

pub open spec fn result_text(r: Result<String, String>) -> Result<Seq<char>, Seq<char>> {
    match r {
        Ok(v) => Ok(v@),
        Err(e) => Err(e@),
    }
}

pub open spec fn result_value<T>(r: Result<T, String>) -> Result<T, Seq<char>> {
    match r {
        Ok(v) => Ok(v),
        Err(e) => Err(e@),
    }
}

pub open spec fn texts(v: Seq<String>) -> Seq<Seq<char>> {
    Seq::new(v.len(), |i: int| v[i]@)
}

impl View for TlsUpstream {
    type V = TlsUpstreamView;

    open spec fn view(&self) -> TlsUpstreamView {
        TlsUpstreamView { builder: self.builder@, checked: result_text(self.checked) }
    }
}

/// What the surroundings fix of a configuration.
#[derive(Debug)]
pub struct ConfigDefaults {
    /// The key whose value tells the kind of the server.
    pub type_key: String,
    /// The key whose value is the name of the server.
    pub name_key: String,
    pub idle_check_duration: u128,
    pub idle_max_count: usize,
    /// The longest time between two looks at an idle task.
    pub idle_check_maximum: u128,
    pub tcp_sock_speed_limit: String,
    pub tcp_misc_opts: String,
}

/// The configuration of an FTP proxy server.
#[derive(Debug)]
pub struct FtpProxyServerConfig {
    pub name: String,
    pub position: Option<String>,
    pub escaper: String,
    pub auditor: String,
    pub shared_logger: Option<String>,
    pub listen: Option<String>,
    pub listen_in_worker: bool,
    pub ingress_net_filter: Option<String>,
    pub upstream: Vec<String>,
    pub tcp_sock_speed_limit: String,
    pub task_idle_check_duration: u128,
    pub task_idle_max_count: usize,
    pub flush_task_log_on_created: bool,
    pub flush_task_log_on_connected: bool,
    pub task_log_flush_interval: Option<u128>,
    pub tcp_misc_opts: String,
    pub audit_upload: bool,
    pub tls_upstream: Option<TlsUpstream>,
    pub tls_upstream_type: TlsUpstreamType,
    pub extra_metrics_tags: Option<String>,
}

#[verifier::ext_equal]
pub struct ConfigView {
    pub name: Seq<char>,
    pub position: Option<Seq<char>>,
    pub escaper: Seq<char>,
    pub auditor: Seq<char>,
    pub shared_logger: Option<Seq<char>>,
    pub listen: Option<Seq<char>>,
    pub listen_in_worker: bool,
    pub ingress_net_filter: Option<Seq<char>>,
    pub upstream: Seq<Seq<char>>,
    pub tcp_sock_speed_limit: Seq<char>,
    pub task_idle_check_duration: u128,
    pub task_idle_max_count: usize,
    pub flush_task_log_on_created: bool,
    pub flush_task_log_on_connected: bool,
    pub task_log_flush_interval: Option<u128>,
    pub tcp_misc_opts: Seq<char>,
    pub audit_upload: bool,
    pub tls_upstream: Option<TlsUpstreamView>,
    pub tls_upstream_type: TlsUpstreamType,
    pub extra_metrics_tags: Option<Seq<char>>,
}

pub open spec fn tls_of(t: Option<TlsUpstream>) -> Option<TlsUpstreamView> {
    match t {
        Some(t) => Some(t@),
        None => None,
    }
}

impl View for FtpProxyServerConfig {
    type V = ConfigView;

    open spec fn view(&self) -> ConfigView {
        ConfigView {
            name: self.name@,
            position: crate::text::text_of(self.position),
            escaper: self.escaper@,
            auditor: self.auditor@,
            shared_logger: crate::text::text_of(self.shared_logger),
            listen: crate::text::text_of(self.listen),
            listen_in_worker: self.listen_in_worker,
            ingress_net_filter: crate::text::text_of(self.ingress_net_filter),
            upstream: texts(self.upstream@),
            tcp_sock_speed_limit: self.tcp_sock_speed_limit@,
            task_idle_check_duration: self.task_idle_check_duration,
            task_idle_max_count: self.task_idle_max_count,
            flush_task_log_on_created: self.flush_task_log_on_created,
            flush_task_log_on_connected: self.flush_task_log_on_connected,
            task_log_flush_interval: self.task_log_flush_interval,
            tcp_misc_opts: self.tcp_misc_opts@,
            audit_upload: self.audit_upload,
            tls_upstream: tls_of(self.tls_upstream),
            tls_upstream_type: self.tls_upstream_type,
            extra_metrics_tags: crate::text::text_of(self.extra_metrics_tags),
        }
    }
}

/// A configuration in which nothing is set.
pub open spec fn blank_config(position: Option<Seq<char>>, d: ConfigDefaults) -> ConfigView {
    ConfigView {
        name: Seq::empty(),
        position,
        escaper: Seq::empty(),
        auditor: Seq::empty(),
        shared_logger: None,
        listen: None,
        listen_in_worker: false,
        ingress_net_filter: None,
        upstream: Seq::empty(),
        tcp_sock_speed_limit: d.tcp_sock_speed_limit@,
        task_idle_check_duration: d.idle_check_duration,
        task_idle_max_count: d.idle_max_count,
        flush_task_log_on_created: false,
        flush_task_log_on_connected: false,
        task_log_flush_interval: None,
        tcp_misc_opts: d.tcp_misc_opts@,
        audit_upload: true,
        tls_upstream: None,
        tls_upstream_type: TlsUpstreamType::PlainFtp,
        extra_metrics_tags: None,
    }
}

// ---------------------------------------------------------------------------
// Items
// ---------------------------------------------------------------------------

/// What an item sets.
#[derive(Clone, Copy, Debug, PartialEq, Eq, Structural)]
pub enum SettingKey {
    ServerType,
    ServerName,
    Escaper,
    Auditor,
    SharedLogger,
    ExtraMetricsTags,
    Listen,
    ListenInWorker,
    IngressNetFilter,
    Upstream,
    TcpSockSpeedLimit,
    TcpMiscOpts,
    TaskIdleCheckDuration,
    TaskIdleMaxCount,
    FlushTaskLogOnCreated,
    FlushTaskLogOnConnected,
    TaskLogFlushInterval,
    AuditUpload,
    TlsUpstream,
    TlsUpstreamType,
    Unknown,
}

/// What the item with the key sets.
pub open spec fn setting_of(key: Seq<char>, d: ConfigDefaults) -> SettingKey {
    if key == d.type_key@ {
        SettingKey::ServerType
    } else if key == d.name_key@ {
        SettingKey::ServerName
    } else if key == "escaper"@ {
        SettingKey::Escaper
    } else if key == "auditor"@ {
        SettingKey::Auditor
    } else if key == "shared_logger"@ {
        SettingKey::SharedLogger
    } else if key == "extra_metrics_tags"@ {
        SettingKey::ExtraMetricsTags
    } else if key == "listen"@ {
        SettingKey::Listen
    } else if key == "listen_in_worker"@ {
        SettingKey::ListenInWorker
    } else if key == "ingress_network_filter"@ || key == "ingress_net_filter"@ {
        SettingKey::IngressNetFilter
    } else if key == "upstream"@ || key == "proxy_pass"@ || key == "ftp_server"@ {
        SettingKey::Upstream
    } else if key == "tcp_sock_speed_limit"@ {
        SettingKey::TcpSockSpeedLimit
    } else if key == "tcp_misc_opts"@ {
        SettingKey::TcpMiscOpts
    } else if key == "task_idle_check_duration"@ {
        SettingKey::TaskIdleCheckDuration
    } else if key == "task_idle_max_count"@ {
        SettingKey::TaskIdleMaxCount
    } else if key == "flush_task_log_on_created"@ {
        SettingKey::FlushTaskLogOnCreated
    } else if key == "flush_task_log_on_connected"@ {
        SettingKey::FlushTaskLogOnConnected
    } else if key == "task_log_flush_interval"@ {
        SettingKey::TaskLogFlushInterval
    } else if key == "audit_upload"@ {
        SettingKey::AuditUpload
    } else if key == "tls_upstream"@ {
        SettingKey::TlsUpstream
    } else if key == "tls_upstream_type"@ {
        SettingKey::TlsUpstreamType
    } else {
        SettingKey::Unknown
    }
}

/// What the item with the key sets.
pub fn setting_key(key: &str, d: &ConfigDefaults) -> (r: SettingKey)
    ensures
        r == setting_of(key@, *d),
{
    if str_eq(key, d.type_key.as_str()) {
        SettingKey::ServerType
    } else if str_eq(key, d.name_key.as_str()) {
        SettingKey::ServerName
    } else if str_eq(key, "escaper") {
        SettingKey::Escaper
    } else if str_eq(key, "auditor") {
        SettingKey::Auditor
    } else if str_eq(key, "shared_logger") {
        SettingKey::SharedLogger
    } else if str_eq(key, "extra_metrics_tags") {
        SettingKey::ExtraMetricsTags
    } else if str_eq(key, "listen") {
        SettingKey::Listen
    } else if str_eq(key, "listen_in_worker") {
        SettingKey::ListenInWorker
    } else if str_eq(key, "ingress_network_filter") || str_eq(key, "ingress_net_filter") {
        SettingKey::IngressNetFilter
    } else if str_eq(key, "upstream") || str_eq(key, "proxy_pass") || str_eq(key, "ftp_server") {
        SettingKey::Upstream
    } else if str_eq(key, "tcp_sock_speed_limit") {
        SettingKey::TcpSockSpeedLimit
    } else if str_eq(key, "tcp_misc_opts") {
        SettingKey::TcpMiscOpts
    } else if str_eq(key, "task_idle_check_duration") {
        SettingKey::TaskIdleCheckDuration
    } else if str_eq(key, "task_idle_max_count") {
        SettingKey::TaskIdleMaxCount
    } else if str_eq(key, "flush_task_log_on_created") {
        SettingKey::FlushTaskLogOnCreated
    } else if str_eq(key, "flush_task_log_on_connected") {
        SettingKey::FlushTaskLogOnConnected
    } else if str_eq(key, "task_log_flush_interval") {
        SettingKey::TaskLogFlushInterval
    } else if str_eq(key, "audit_upload") {
        SettingKey::AuditUpload
    } else if str_eq(key, "tls_upstream") {
        SettingKey::TlsUpstream
    } else if str_eq(key, "tls_upstream_type") {
        SettingKey::TlsUpstreamType
    } else {
        SettingKey::Unknown
    }
}

/// The value of an item, converted, or why it could not be.
#[derive(Debug)]
pub enum SettingValue {
    /// The value is not looked at.
    Unused,
    /// A name, a text, or what is kept as text.
    Text(Result<String, String>),
    Flag(Result<bool, String>),
    Count(Result<usize, String>),
    Span(Result<u128, String>),
    Upstreams(Result<Vec<String>, String>),
    /// A value of `true` or `false`, and the TLS settings that `true` stands for.
    TlsSwitch(bool, TlsUpstream),
    /// The directory of the files that the TLS settings name could not be told.
    TlsNoDir(String),
    TlsSettings(Result<TlsUpstream, String>),
}

#[verifier::ext_equal]
pub enum ValueView {
    Unused,
    Text(Result<Seq<char>, Seq<char>>),
    Flag(Result<bool, Seq<char>>),
    Count(Result<usize, Seq<char>>),
    Span(Result<u128, Seq<char>>),
    Upstreams(Result<Seq<Seq<char>>, Seq<char>>),
    TlsSwitch(bool, TlsUpstreamView),
    TlsNoDir(Seq<char>),
    TlsSettings(Result<TlsUpstreamView, Seq<char>>),
}

impl View for SettingValue {
    type V = ValueView;

    open spec fn view(&self) -> ValueView {
        match self {
            SettingValue::Unused => ValueView::Unused,
            SettingValue::Text(r) => ValueView::Text(result_text(*r)),
            SettingValue::Flag(r) => ValueView::Flag(result_value(*r)),
            SettingValue::Count(r) => ValueView::Count(result_value(*r)),
            SettingValue::Span(r) => ValueView::Span(result_value(*r)),
            SettingValue::Upstreams(r) => ValueView::Upstreams(
                match *r {
                    Ok(v) => Ok(texts(v@)),
                    Err(e) => Err(e@),
                },
            ),
            SettingValue::TlsSwitch(on, tls) => ValueView::TlsSwitch(*on, tls@),
            SettingValue::TlsNoDir(e) => ValueView::TlsNoDir(e@),
            SettingValue::TlsSettings(r) => ValueView::TlsSettings(
                match *r {
                    Ok(t) => Ok(t@),
                    Err(e) => Err(e@),
                },
            ),
        }
    }
}

/// The kind of FTP server that a value names.
pub open spec fn upstream_type(value: Seq<char>) -> Option<TlsUpstreamType> {
    if value == "plain_ftp"@ || value == "plain"@ || value == "ftp"@ {
        Some(TlsUpstreamType::PlainFtp)
    } else if value == "explicit_ftps"@ || value == "explicit"@ || value == "auth_tls"@ {
        Some(TlsUpstreamType::ExplicitFtps)
    } else if value == "implicit_ftps"@ || value == "implicit"@ {
        Some(TlsUpstreamType::ImplicitFtps)
    } else {
        None
    }
}

fn parse_upstream_type(value: &str) -> (r: Option<TlsUpstreamType>)
    ensures
        r == upstream_type(value@),
{
    if str_eq(value, "plain_ftp") || str_eq(value, "plain") || str_eq(value, "ftp") {
        Some(TlsUpstreamType::PlainFtp)
    } else if str_eq(value, "explicit_ftps") || str_eq(value, "explicit") || str_eq(
        value,
        "auth_tls",
    ) {
        Some(TlsUpstreamType::ExplicitFtps)
    } else if str_eq(value, "implicit_ftps") || str_eq(value, "implicit") {
        Some(TlsUpstreamType::ImplicitFtps)
    } else {
        None
    }
}

pub open spec fn bad_upstream_type(value: Seq<char>) -> ErrorView {
    plain_error(
        "invalid tls_upstream_type value: "@ + value
            + ", expected plain_ftp, explicit_ftps, or implicit_ftps"@,
    )
}

/// The configuration after an item was set, or why the item is refused: it is unknown, or its
/// value could not be converted or is not of the kind that the item takes.
pub open spec fn item_set(
    c: ConfigView,
    k: Seq<char>,
    key: SettingKey,
    value: ValueView,
) -> Result<ConfigView, ErrorView> {
    match (key, value) {
        (SettingKey::ServerType, _) => Ok(c),
        (SettingKey::ServerName, ValueView::Text(r)) => match r {
            Ok(v) => Ok(ConfigView { name: v, ..c }),
            Err(e) => Err(plain_error(e)),
        },
        (SettingKey::Escaper, ValueView::Text(r)) => match r {
            Ok(v) => Ok(ConfigView { escaper: v, ..c }),
            Err(e) => Err(plain_error(e)),
        },
        (SettingKey::Auditor, ValueView::Text(r)) => match r {
            Ok(v) => Ok(ConfigView { auditor: v, ..c }),
            Err(e) => Err(plain_error(e)),
        },
        (SettingKey::SharedLogger, ValueView::Text(r)) => match r {
            Ok(v) => Ok(ConfigView { shared_logger: Some(v), ..c }),
            Err(e) => Err(plain_error(e)),
        },
        (SettingKey::ExtraMetricsTags, ValueView::Text(r)) => match r {
            Ok(v) => Ok(ConfigView { extra_metrics_tags: Some(v), ..c }),
            Err(e) => Err(value_error("invalid static metrics tags value for key "@, k, e)),
        },
        (SettingKey::Listen, ValueView::Text(r)) => match r {
            Ok(v) => Ok(ConfigView { listen: Some(v), ..c }),
            Err(e) => Err(value_error("invalid tcp listen config value for key "@, k, e)),
        },
        (SettingKey::ListenInWorker, ValueView::Flag(r)) => match r {
            Ok(v) => Ok(ConfigView { listen_in_worker: v, ..c }),
            Err(e) => Err(plain_error(e)),
        },
        (SettingKey::IngressNetFilter, ValueView::Text(r)) => match r {
            Ok(v) => Ok(ConfigView { ingress_net_filter: Some(v), ..c }),
            Err(e) => Err(value_error("invalid ingress network acl rule value for key "@, k, e)),
        },
        (SettingKey::Upstream, ValueView::Upstreams(r)) => match r {
            Ok(v) => Ok(ConfigView { upstream: v, ..c }),
            Err(e) => Err(value_error("invalid weighted upstream address value for key "@, k, e)),
        },
        (SettingKey::TcpSockSpeedLimit, ValueView::Text(r)) => match r {
            Ok(v) => Ok(ConfigView { tcp_sock_speed_limit: v, ..c }),
            Err(e) => Err(value_error("invalid tcp socket speed limit value for key "@, k, e)),
        },
        (SettingKey::TcpMiscOpts, ValueView::Text(r)) => match r {
            Ok(v) => Ok(ConfigView { tcp_misc_opts: v, ..c }),
            Err(e) => Err(value_error("invalid tcp misc sock opts value for key "@, k, e)),
        },
        (SettingKey::TaskIdleCheckDuration, ValueView::Span(r)) => match r {
            Ok(v) => Ok(ConfigView { task_idle_check_duration: v, ..c }),
            Err(e) => Err(value_error("invalid humanize duration value for key "@, k, e)),
        },
        (SettingKey::TaskIdleMaxCount, ValueView::Count(r)) => match r {
            Ok(v) => Ok(ConfigView { task_idle_max_count: v, ..c }),
            Err(e) => Err(value_error("invalid usize value for key "@, k, e)),
        },
        (SettingKey::FlushTaskLogOnCreated, ValueView::Flag(r)) => match r {
            Ok(v) => Ok(ConfigView { flush_task_log_on_created: v, ..c }),
            Err(e) => Err(plain_error(e)),
        },
        (SettingKey::FlushTaskLogOnConnected, ValueView::Flag(r)) => match r {
            Ok(v) => Ok(ConfigView { flush_task_log_on_connected: v, ..c }),
            Err(e) => Err(plain_error(e)),
        },
        (SettingKey::TaskLogFlushInterval, ValueView::Span(r)) => match r {
            Ok(v) => Ok(ConfigView { task_log_flush_interval: Some(v), ..c }),
            Err(e) => Err(value_error("invalid humanize duration value for key "@, k, e)),
        },
        (SettingKey::AuditUpload, ValueView::Flag(r)) => match r {
            Ok(v) => Ok(ConfigView { audit_upload: v, ..c }),
            Err(e) => Err(plain_error(e)),
        },
        (SettingKey::TlsUpstream, ValueView::TlsSwitch(on, tls)) => if on {
            Ok(ConfigView { tls_upstream: Some(tls), ..c })
        } else {
            Ok(c)
        },
        (SettingKey::TlsUpstream, ValueView::TlsNoDir(e)) => Err(plain_error(e)),
        (SettingKey::TlsUpstream, ValueView::TlsSettings(r)) => match r {
            Ok(tls) => Ok(ConfigView { tls_upstream: Some(tls), ..c }),
            Err(e) => Err(
                value_error("invalid openssl tls upstream config value for key "@, k, e),
            ),
        },
        (SettingKey::TlsUpstreamType, ValueView::Text(r)) => match r {
            Ok(v) => match upstream_type(v) {
                Some(t) => Ok(ConfigView { tls_upstream_type: t, ..c }),
                None => Err(bad_upstream_type(v)),
            },
            Err(e) => Err(plain_error(e)),
        },
        (SettingKey::Unknown, _) => Err(plain_error("invalid key "@ + k)),
        _ => Err(plain_error("invalid value for key "@ + k)),
    }
}

/// The configuration after the first item that is refused, or after all.
pub open spec fn result_config(
    c: ConfigView,
    r: Result<ConfigView, ErrorView>,
) -> (ConfigView, Result<(), ErrorView>) {
    match r {
        Ok(now) => (now, Ok(())),
        Err(e) => (c, Err(e)),
    }
}

pub open spec fn unit_result(r: Result<(), ConfigError>) -> Result<(), ErrorView> {
    match r {
        Ok(_) => Ok(()),
        Err(e) => Err(e@),
    }
}

/// The configuration after it was checked, and whether it can be used.
pub open spec fn checked(c: ConfigView, d: ConfigDefaults) -> (
    ConfigView,
    Result<(), ErrorView>,
) {
    let clamped = if c.task_idle_check_duration > d.idle_check_maximum {
        ConfigView { task_idle_check_duration: d.idle_check_maximum, ..c }
    } else {
        c
    };
    if c.name.len() == 0 {
        (c, Err(plain_error("name is not set"@)))
    } else if c.escaper.len() == 0 {
        (c, Err(plain_error("escaper is not set"@)))
    } else if c.upstream.len() == 0 {
        (c, Err(plain_error("upstream is not set"@)))
    } else if c.tls_upstream_type is PlainFtp {
        (clamped, Ok(()))
    } else {
        match c.tls_upstream {
            None => (
                clamped,
                Err(
                    plain_error(
                        "tls_upstream must be set when tls_upstream_type is "@
                            + c.tls_upstream_type.name(),
                    ),
                ),
            ),
            Some(tls) => match tls.checked {
                Ok(builder) => (
                    ConfigView {
                        tls_upstream: Some(TlsUpstreamView { builder, checked: Ok(builder) }),
                        ..clamped
                    },
                    Ok(()),
                ),
                Err(e) => (clamped, Err(plain_error(e))),
            },
        }
    }
}

/// One item of a configuration.
#[derive(Debug)]
pub struct ConfigItem {
    /// The key as it is written.
    pub k: String,
    /// The key in its normal form.
    pub key: String,
    pub value: SettingValue,
}

#[verifier::ext_equal]
pub struct ItemView {
    pub k: Seq<char>,
    pub key: Seq<char>,
    pub value: ValueView,
}

impl View for ConfigItem {
    type V = ItemView;

    open spec fn view(&self) -> ItemView {
        ItemView { k: self.k@, key: self.key@, value: self.value@ }
    }
}

/// The configuration after the items from `n` on were set in turn, or why the first refused one
/// of them is refused.
pub open spec fn items_set(
    c: ConfigView,
    items: Seq<ConfigItem>,
    n: int,
    d: ConfigDefaults,
) -> Result<ConfigView, ErrorView>
    decreases items.len() - n,
{
    if n < 0 || n >= items.len() {
        Ok(c)
    } else {
        let item = items[n]@;
        match item_set(c, item.k, setting_of(item.key, d), item.value) {
            Ok(now) => items_set(now, items, n + 1, d),
            Err(e) => Err(e),
        }
    }
}

/// The configuration that the items make, or why they make none.
pub open spec fn parsed(
    items: Seq<ConfigItem>,
    position: Option<Seq<char>>,
    d: ConfigDefaults,
) -> Result<ConfigView, ErrorView> {
    match items_set(blank_config(position, d), items, 0, d) {
        Err(e) => Err(e),
        Ok(c) => match checked(c, d) {
            (now, Ok(_)) => Ok(now),
            (_, Err(e)) => Err(e),
        },
    }
}

/// The configuration of some server.
#[derive(Debug)]
pub enum AnyServerConfig {
    FtpProxy(FtpProxyServerConfig),
    /// A server of another kind, which has the given name.
    Other(String),
}

/// What a new configuration asks of a running server.
#[derive(Clone, Copy, Debug, PartialEq, Eq, Structural)]
pub enum ServerConfigDiffAction {
    NoAction,
    SpawnNew,
    ReloadNoRespawn,
    ReloadAndRespawn,
}

/// What a change from one configuration to another asks of a running server.
pub open spec fn change(c: ConfigView, new: AnyServerConfig) -> ServerConfigDiffAction {
    match new {
        AnyServerConfig::Other(_) => ServerConfigDiffAction::SpawnNew,
        AnyServerConfig::FtpProxy(new) => if c == new@ {
            ServerConfigDiffAction::NoAction
        } else if c.listen != new@.listen {
            ServerConfigDiffAction::ReloadAndRespawn
        } else {
            ServerConfigDiffAction::ReloadNoRespawn
        },
    }
}

pub(crate) fn clone_option(s: &Option<String>) -> (r: Option<String>)
    ensures
        crate::text::text_of(r) == crate::text::text_of(*s),
{
    match s {
        Some(s) => Some(s.clone()),
        None => None,
    }
}

fn clone_list(v: &Vec<String>) -> (r: Vec<String>)
    ensures
        texts(r@) == texts(v@),
{
    let mut r: Vec<String> = Vec::new();
    let mut i: usize = 0;
    while i < v.len()
        invariant
            i <= v@.len(),
            r@.len() == i,
            forall|j: int| 0 <= j < i ==> (#[trigger] r@[j])@ == v@[j]@,
        decreases v@.len() - i,
    {
        r.push(v[i].clone());
        i += 1;
    }
    assert(texts(r@) =~= texts(v@));
    r
}

impl Clone for TlsUpstream {
    fn clone(&self) -> (r: TlsUpstream)
        ensures
            r@ == self@,
    {
        TlsUpstream {
            builder: self.builder.clone(),
            checked: match &self.checked {
                Ok(builder) => Ok(builder.clone()),
                Err(e) => Err(e.clone()),
            },
        }
    }
}

impl Clone for FtpProxyServerConfig {
    fn clone(&self) -> (r: FtpProxyServerConfig)
        ensures
            r@ == self@,
    {
        FtpProxyServerConfig {
            name: self.name.clone(),
            position: clone_option(&self.position),
            escaper: self.escaper.clone(),
            auditor: self.auditor.clone(),
            shared_logger: clone_option(&self.shared_logger),
            listen: clone_option(&self.listen),
            listen_in_worker: self.listen_in_worker,
            ingress_net_filter: clone_option(&self.ingress_net_filter),
            upstream: clone_list(&self.upstream),
            tcp_sock_speed_limit: self.tcp_sock_speed_limit.clone(),
            task_idle_check_duration: self.task_idle_check_duration,
            task_idle_max_count: self.task_idle_max_count,
            flush_task_log_on_created: self.flush_task_log_on_created,
            flush_task_log_on_connected: self.flush_task_log_on_connected,
            task_log_flush_interval: self.task_log_flush_interval,
            tcp_misc_opts: self.tcp_misc_opts.clone(),
            audit_upload: self.audit_upload,
            tls_upstream: match &self.tls_upstream {
                Some(tls) => Some(tls.clone()),
                None => None,
            },
            tls_upstream_type: self.tls_upstream_type,
            extra_metrics_tags: clone_option(&self.extra_metrics_tags),
        }
    }
}

fn is_blank(s: &str) -> (r: bool)
    ensures
        r == (s@.len() == 0),
{
    proof {
        reveal_strlit("");
    }
    let r = str_eq(s, "");
    assert(s@.len() == 0 ==> s@ =~= ""@);
    r
}

fn same_option(a: &Option<String>, b: &Option<String>) -> (r: bool)
    ensures
        r == (crate::text::text_of(*a) == crate::text::text_of(*b)),
{
    match (a, b) {
        (None, None) => true,
        (Some(a), Some(b)) => str_eq(a.as_str(), b.as_str()),
        _ => false,
    }
}

fn same_list(a: &Vec<String>, b: &Vec<String>) -> (r: bool)
    ensures
        r == (texts(a@) == texts(b@)),
{
    let n: usize = a.len();
    if n != b.len() {
        assert(texts(a@).len() != texts(b@).len());
        return false;
    }
    let mut i: usize = 0;
    while i < n
        invariant
            i <= n == a@.len() == b@.len(),
            forall|j: int| 0 <= j < i ==> texts(a@)[j] == texts(b@)[j],
        decreases n - i,
    {
        if !str_eq(a[i].as_str(), b[i].as_str()) {
            assert(texts(a@)[i as int] != texts(b@)[i as int]);
            return false;
        }
        i += 1;
    }
    assert(texts(a@) =~= texts(b@));
    true
}

fn same_tls(a: &Option<TlsUpstream>, b: &Option<TlsUpstream>) -> (r: bool)
    ensures
        r == (tls_of(*a) == tls_of(*b)),
{
    match (a, b) {
        (None, None) => true,
        (Some(a), Some(b)) => {
            str_eq(a.builder.as_str(), b.builder.as_str()) && match (&a.checked, &b.checked) {
                (Ok(x), Ok(y)) => str_eq(x.as_str(), y.as_str()),
                (Err(x), Err(y)) => str_eq(x.as_str(), y.as_str()),
                _ => false,
            }
        },
        _ => false,
    }
}

fn same_span(a: &Option<u128>, b: &Option<u128>) -> (r: bool)
    ensures
        r == (*a == *b),
{
    match (a, b) {
        (None, None) => true,
        (Some(a), Some(b)) => *a == *b,
        _ => false,
    }
}

impl FtpProxyServerConfig {
    /// A configuration in which nothing is set.
    pub fn new(position: Option<String>, d: &ConfigDefaults) -> (r: FtpProxyServerConfig)
        ensures
            r@ == blank_config(crate::text::text_of(position), *d),
    {
        proof {
            reveal_strlit("");
        }
        let r = FtpProxyServerConfig {
            name: "".to_owned(),
            position,
            escaper: "".to_owned(),
            auditor: "".to_owned(),
            shared_logger: None,
            listen: None,
            listen_in_worker: false,
            ingress_net_filter: None,
            upstream: Vec::new(),
            tcp_sock_speed_limit: d.tcp_sock_speed_limit.clone(),
            task_idle_check_duration: d.idle_check_duration,
            task_idle_max_count: d.idle_max_count,
            flush_task_log_on_created: false,
            flush_task_log_on_connected: false,
            task_log_flush_interval: None,
            tcp_misc_opts: d.tcp_misc_opts.clone(),
            audit_upload: true,
            tls_upstream: None,
            tls_upstream_type: TlsUpstreamType::PlainFtp,
            extra_metrics_tags: None,
        };
        assert(r@ =~= blank_config(crate::text::text_of(position), *d));
        r
    }

    /// Sets an item: `k` is its key as it is written, and `key` the key in its normal form. A
    /// refused item changes nothing. A value of another kind than the item takes is refused.
    pub fn set(&mut self, k: &str, key: &str, value: SettingValue, d: &ConfigDefaults) -> (r: Result<
        (),
        ConfigError,
    >)
        ensures
            (final(self)@, unit_result(r)) == result_config(
                old(self)@,
                item_set(old(self)@, k@, setting_of(key@, *d), value@),
            ),
    {
        match (setting_key(key, d), value) {
            (SettingKey::ServerType, _) => {},
            (SettingKey::ServerName, SettingValue::Text(r)) => match r {
                Ok(v) => {
                    self.name = v;
                },
                Err(e) => {
                    return Err(refuse_text(e));
                },
            },
            (SettingKey::Escaper, SettingValue::Text(r)) => match r {
                Ok(v) => {
                    self.escaper = v;
                },
                Err(e) => {
                    return Err(refuse_text(e));
                },
            },
            (SettingKey::Auditor, SettingValue::Text(r)) => match r {
                Ok(v) => {
                    self.auditor = v;
                },
                Err(e) => {
                    return Err(refuse_text(e));
                },
            },
            (SettingKey::SharedLogger, SettingValue::Text(r)) => match r {
                Ok(v) => {
                    self.shared_logger = Some(v);
                },
                Err(e) => {
                    return Err(refuse_text(e));
                },
            },
            (SettingKey::ExtraMetricsTags, SettingValue::Text(r)) => match r {
                Ok(v) => {
                    self.extra_metrics_tags = Some(v);
                },
                Err(e) => {
                    return Err(refuse_value("invalid static metrics tags value for key ", k, e));
                },
            },
            (SettingKey::Listen, SettingValue::Text(r)) => match r {
                Ok(v) => {
                    self.listen = Some(v);
                },
                Err(e) => {
                    return Err(refuse_value("invalid tcp listen config value for key ", k, e));
                },
            },
            (SettingKey::ListenInWorker, SettingValue::Flag(r)) => match r {
                Ok(v) => {
                    self.listen_in_worker = v;
                },
                Err(e) => {
                    return Err(refuse_text(e));
                },
            },
            (SettingKey::IngressNetFilter, SettingValue::Text(r)) => match r {
                Ok(v) => {
                    self.ingress_net_filter = Some(v);
                },
                Err(e) => {
                    return Err(refuse_value("invalid ingress network acl rule value for key ", k, e));
                },
            },
            (SettingKey::Upstream, SettingValue::Upstreams(r)) => match r {
                Ok(v) => {
                    self.upstream = v;
                },
                Err(e) => {
                    return Err(refuse_value("invalid weighted upstream address value for key ", k, e));
                },
            },
            (SettingKey::TcpSockSpeedLimit, SettingValue::Text(r)) => match r {
                Ok(v) => {
                    self.tcp_sock_speed_limit = v;
                },
                Err(e) => {
                    return Err(refuse_value("invalid tcp socket speed limit value for key ", k, e));
                },
            },
            (SettingKey::TcpMiscOpts, SettingValue::Text(r)) => match r {
                Ok(v) => {
                    self.tcp_misc_opts = v;
                },
                Err(e) => {
                    return Err(refuse_value("invalid tcp misc sock opts value for key ", k, e));
                },
            },
            (SettingKey::TaskIdleCheckDuration, SettingValue::Span(r)) => match r {
                Ok(v) => {
                    self.task_idle_check_duration = v;
                },
                Err(e) => {
                    return Err(refuse_value("invalid humanize duration value for key ", k, e));
                },
            },
            (SettingKey::TaskIdleMaxCount, SettingValue::Count(r)) => match r {
                Ok(v) => {
                    self.task_idle_max_count = v;
                },
                Err(e) => {
                    return Err(refuse_value("invalid usize value for key ", k, e));
                },
            },
            (SettingKey::FlushTaskLogOnCreated, SettingValue::Flag(r)) => match r {
                Ok(v) => {
                    self.flush_task_log_on_created = v;
                },
                Err(e) => {
                    return Err(refuse_text(e));
                },
            },
            (SettingKey::FlushTaskLogOnConnected, SettingValue::Flag(r)) => match r {
                Ok(v) => {
                    self.flush_task_log_on_connected = v;
                },
                Err(e) => {
                    return Err(refuse_text(e));
                },
            },
            (SettingKey::TaskLogFlushInterval, SettingValue::Span(r)) => match r {
                Ok(v) => {
                    self.task_log_flush_interval = Some(v);
                },
                Err(e) => {
                    return Err(refuse_value("invalid humanize duration value for key ", k, e));
                },
            },
            (SettingKey::AuditUpload, SettingValue::Flag(r)) => match r {
                Ok(v) => {
                    self.audit_upload = v;
                },
                Err(e) => {
                    return Err(refuse_text(e));
                },
            },
            (SettingKey::TlsUpstream, SettingValue::TlsSwitch(on, tls)) => {
                if on {
                    self.tls_upstream = Some(tls);
                }
            },
            (SettingKey::TlsUpstream, SettingValue::TlsNoDir(e)) => {
                return Err(refuse_text(e));
            },
            (SettingKey::TlsUpstream, SettingValue::TlsSettings(r)) => match r {
                Ok(tls) => {
                    self.tls_upstream = Some(tls);
                },
                Err(e) => {
                    return Err(
                        refuse_value("invalid openssl tls upstream config value for key ", k, e),
                    );
                },
            },
            (SettingKey::TlsUpstreamType, SettingValue::Text(r)) => match r {
                Ok(v) => match parse_upstream_type(v.as_str()) {
                    Some(t) => {
                        self.tls_upstream_type = t;
                    },
                    None => {
                        let mut message = "invalid tls_upstream_type value: ".to_owned();
                        message.append(v.as_str());
                        message.append(", expected plain_ftp, explicit_ftps, or implicit_ftps");
                        return Err(refuse_text(message));
                    },
                },
                Err(e) => {
                    return Err(refuse_text(e));
                },
            },
            (SettingKey::Unknown, _) => {
                let mut message = "invalid key ".to_owned();
                message.append(k);
                return Err(refuse_text(message));
            },
            _ => {
                let mut message = "invalid value for key ".to_owned();
                message.append(k);
                return Err(refuse_text(message));
            },
        }
        Ok(())
    }

    /// Checks the configuration; the time between two looks at an idle task is shortened to the
    /// longest one that is allowed.
    pub fn check(&mut self, d: &ConfigDefaults) -> (r: Result<(), ConfigError>)
        ensures
            (final(self)@, unit_result(r)) == checked(old(self)@, *d),
    {
        if is_blank(self.name.as_str()) {
            return Err(refuse("name is not set"));
        }
        if is_blank(self.escaper.as_str()) {
            return Err(refuse("escaper is not set"));
        }
        if self.upstream.len() == 0 {
            return Err(refuse("upstream is not set"));
        }
        if self.task_idle_check_duration > d.idle_check_maximum {
            self.task_idle_check_duration = d.idle_check_maximum;
        }
        if self.tls_upstream_type == TlsUpstreamType::PlainFtp {
            return Ok(());
        }
        let builder: String = match &self.tls_upstream {
            None => {
                let mut message = "tls_upstream must be set when tls_upstream_type is ".to_owned();
                message.append(self.tls_upstream_type.name_str());
                return Err(refuse_text(message));
            },
            Some(tls) => match &tls.checked {
                Ok(builder) => builder.clone(),
                Err(e) => {
                    return Err(refuse(e.as_str()));
                },
            },
        };
        let kept = builder.clone();
        self.tls_upstream = Some(TlsUpstream { builder, checked: Ok(kept) });
        Ok(())
    }

    /// Reads a configuration: sets its items in turn, up to the first that is refused, and checks
    /// the result.
    pub fn parse(items: Vec<ConfigItem>, position: Option<String>, d: &ConfigDefaults) -> (r: Result<
        FtpProxyServerConfig,
        ConfigError,
    >)
        ensures
            match r {
                Ok(c) => parsed(items@, crate::text::text_of(position), *d) == Ok::<
                    ConfigView,
                    ErrorView,
                >(c@),
                Err(e) => parsed(items@, crate::text::text_of(position), *d) == Err::<
                    ConfigView,
                    ErrorView,
                >(e@),
            },
    {
        let ghost all = items@;
        let ghost place = crate::text::text_of(position);
        let mut server = FtpProxyServerConfig::new(position, d);
        let mut items = items;
        let n: usize = items.len();
        let mut i: usize = 0;
        #[verifier::loop_isolation(false)]
        while i < n
            invariant
                i <= n == items@.len() == all.len(),
                forall|j: int| i <= j < n ==> items@[j] == all[j],
                items_set(server@, all, i as int, *d) == items_set(
                    blank_config(place, *d),
                    all,
                    0,
                    *d,
                ),
            decreases n - i,
        {
            let mut item = ConfigItem {
                k: "".to_owned(),
                key: "".to_owned(),
                value: SettingValue::Unused,
            };
            std::mem::swap(&mut items[i], &mut item);
            assert(item == all[i as int]);
            let ConfigItem { k, key, value } = item;
            if let Err(e) = server.set(k.as_str(), key.as_str(), value, d) {
                return Err(e);
            }
            i += 1;
        }
        match server.check(d) {
            Ok(_) => Ok(server),
            Err(e) => Err(e),
        }
    }

    pub fn name(&self) -> (r: &str)
        ensures
            r@ == self@.name,
    {
        self.name.as_str()
    }

    /// The kind of the server.
    pub fn server_type(&self) -> (r: &'static str)
        ensures
            r@ == SERVER_CONFIG_TYPE@,
    {
        SERVER_CONFIG_TYPE
    }

    pub fn escaper(&self) -> (r: &str)
        ensures
            r@ == self@.escaper,
    {
        self.escaper.as_str()
    }

    /// The server has no user group.
    pub fn user_group(&self) -> (r: &'static str)
        ensures
            r@ == ""@,
    {
        ""
    }

    pub fn auditor(&self) -> (r: &str)
        ensures
            r@ == self@.auditor,
    {
        self.auditor.as_str()
    }

    pub fn shared_logger(&self) -> (r: Option<&str>)
        ensures
            match r {
                Some(s) => self@.shared_logger == Some(s@),
                None => self@.shared_logger is None,
            },
    {
        match &self.shared_logger {
            Some(s) => Some(s.as_str()),
            None => None,
        }
    }

    pub fn task_log_flush_interval(&self) -> (r: Option<u128>)
        ensures
            r == self@.task_log_flush_interval,
    {
        self.task_log_flush_interval
    }

    pub fn task_max_idle_count(&self) -> (r: usize)
        ensures
            r == self@.task_idle_max_count,
    {
        self.task_idle_max_count
    }

    fn same(&self, other: &FtpProxyServerConfig) -> (r: bool)
        ensures
            r == (self@ == other@),
    {
        str_eq(self.name.as_str(), other.name.as_str()) && same_option(
            &self.position,
            &other.position,
        ) && str_eq(self.escaper.as_str(), other.escaper.as_str()) && str_eq(
            self.auditor.as_str(),
            other.auditor.as_str(),
        ) && same_option(&self.shared_logger, &other.shared_logger) && same_option(
            &self.listen,
            &other.listen,
        ) && self.listen_in_worker == other.listen_in_worker && same_option(
            &self.ingress_net_filter,
            &other.ingress_net_filter,
        ) && same_list(&self.upstream, &other.upstream) && str_eq(
            self.tcp_sock_speed_limit.as_str(),
            other.tcp_sock_speed_limit.as_str(),
        ) && self.task_idle_check_duration == other.task_idle_check_duration
            && self.task_idle_max_count == other.task_idle_max_count
            && self.flush_task_log_on_created == other.flush_task_log_on_created
            && self.flush_task_log_on_connected == other.flush_task_log_on_connected && same_span(
            &self.task_log_flush_interval,
            &other.task_log_flush_interval,
        ) && str_eq(self.tcp_misc_opts.as_str(), other.tcp_misc_opts.as_str())
            && self.audit_upload == other.audit_upload && same_tls(
            &self.tls_upstream,
            &other.tls_upstream,
        ) && self.tls_upstream_type == other.tls_upstream_type && same_option(
            &self.extra_metrics_tags,
            &other.extra_metrics_tags,
        )
    }

    /// What a change to the new configuration asks of the running server.
    pub fn diff_action(&self, new: &AnyServerConfig) -> (r: ServerConfigDiffAction)
        ensures
            r == change(self@, *new),
    {
        match new {
            AnyServerConfig::Other(_) => ServerConfigDiffAction::SpawnNew,
            AnyServerConfig::FtpProxy(new) => {
                if self.same(new) {
                    ServerConfigDiffAction::NoAction
                } else if !same_option(&self.listen, &new.listen) {
                    ServerConfigDiffAction::ReloadAndRespawn
                } else {
                    ServerConfigDiffAction::ReloadNoRespawn
                }
            },
        }
    }
}

/// A configuration that was read can be used: it has a name, an escaper and an FTP server, looks
/// at idle tasks often enough, and knows the TLS settings if it needs them.
pub proof fn law_parsed_config_is_usable(
    items: Seq<ConfigItem>,
    position: Option<Seq<char>>,
    d: ConfigDefaults,
)
    ensures
        parsed(items, position, d) matches Ok(c) ==> {
            &&& c.name.len() > 0
            &&& c.escaper.len() > 0
            &&& c.upstream.len() > 0
            &&& c.task_idle_check_duration <= d.idle_check_maximum
            &&& c.tls_upstream_type is PlainFtp || c.tls_upstream is Some
        },
{
}

/// A configuration that passed its check passes it again, unchanged.
pub proof fn law_checking_again_changes_nothing(c: ConfigView, d: ConfigDefaults)
    requires
        checked(c, d).1 is Ok,
    ensures
        checked(checked(c, d).0, d) == (checked(c, d).0, Ok::<(), ErrorView>(())),
{
}

// ---------------------------------------------------------------------------
// What the settings mean
// ---------------------------------------------------------------------------

/// Every setting has its own key, and some have further ones: a key names a setting exactly where
/// it is one of these, and any other key names none. The keys of the kind and of the name of the
/// server come first.
pub proof fn law_keys_name_settings(key: Seq<char>, d: ConfigDefaults)
    ensures
        setting_of(key, d) is ServerType <==> key == d.type_key@,
        setting_of(key, d) is ServerName <==> key == d.name_key@ && key != d.type_key@,
        key != d.type_key@ && key != d.name_key@ ==> {
            &&& setting_of(key, d) is Escaper <==> key == "escaper"@
            &&& setting_of(key, d) is Auditor <==> key == "auditor"@
            &&& setting_of(key, d) is SharedLogger <==> key == "shared_logger"@
            &&& setting_of(key, d) is ExtraMetricsTags <==> key == "extra_metrics_tags"@
            &&& setting_of(key, d) is Listen <==> key == "listen"@
            &&& setting_of(key, d) is ListenInWorker <==> key == "listen_in_worker"@
            &&& setting_of(key, d) is IngressNetFilter <==> key == "ingress_network_filter"@ || key == "ingress_net_filter"@
            &&& setting_of(key, d) is Upstream <==> key == "upstream"@ || key == "proxy_pass"@ || key == "ftp_server"@
            &&& setting_of(key, d) is TcpSockSpeedLimit <==> key == "tcp_sock_speed_limit"@
            &&& setting_of(key, d) is TcpMiscOpts <==> key == "tcp_misc_opts"@
            &&& setting_of(key, d) is TaskIdleCheckDuration <==> key == "task_idle_check_duration"@
            &&& setting_of(key, d) is TaskIdleMaxCount <==> key == "task_idle_max_count"@
            &&& setting_of(key, d) is FlushTaskLogOnCreated <==> key == "flush_task_log_on_created"@
            &&& setting_of(key, d) is FlushTaskLogOnConnected <==> key == "flush_task_log_on_connected"@
            &&& setting_of(key, d) is TaskLogFlushInterval <==> key == "task_log_flush_interval"@
            &&& setting_of(key, d) is AuditUpload <==> key == "audit_upload"@
            &&& setting_of(key, d) is TlsUpstream <==> key == "tls_upstream"@
            &&& setting_of(key, d) is TlsUpstreamType <==> key == "tls_upstream_type"@
        },
{
    reveal_strlit("escaper");
    assert("escaper"@.len() == 7);
    reveal_strlit("auditor");
    assert("auditor"@.len() == 7);
    reveal_strlit("shared_logger");
    assert("shared_logger"@.len() == 13);
    reveal_strlit("extra_metrics_tags");
    assert("extra_metrics_tags"@.len() == 18);
    reveal_strlit("listen");
    assert("listen"@.len() == 6);
    reveal_strlit("listen_in_worker");
    assert("listen_in_worker"@.len() == 16);
    reveal_strlit("ingress_network_filter");
    assert("ingress_network_filter"@.len() == 22);
    reveal_strlit("ingress_net_filter");
    assert("ingress_net_filter"@.len() == 18);
    reveal_strlit("upstream");
    assert("upstream"@.len() == 8);
    reveal_strlit("proxy_pass");
    assert("proxy_pass"@.len() == 10);
    reveal_strlit("ftp_server");
    assert("ftp_server"@.len() == 10);
    reveal_strlit("tcp_sock_speed_limit");
    assert("tcp_sock_speed_limit"@.len() == 20);
    reveal_strlit("tcp_misc_opts");
    assert("tcp_misc_opts"@.len() == 13);
    reveal_strlit("task_idle_check_duration");
    assert("task_idle_check_duration"@.len() == 24);
    reveal_strlit("task_idle_max_count");
    assert("task_idle_max_count"@.len() == 19);
    reveal_strlit("flush_task_log_on_created");
    assert("flush_task_log_on_created"@.len() == 25);
    reveal_strlit("flush_task_log_on_connected");
    assert("flush_task_log_on_connected"@.len() == 27);
    reveal_strlit("task_log_flush_interval");
    assert("task_log_flush_interval"@.len() == 23);
    reveal_strlit("audit_upload");
    assert("audit_upload"@.len() == 12);
    reveal_strlit("tls_upstream");
    assert("tls_upstream"@.len() == 12);
    reveal_strlit("tls_upstream_type");
    assert("tls_upstream_type"@.len() == 17);
    assert("escaper"@[0] != "auditor"@[0]);
    assert("shared_logger"@[0] != "tcp_misc_opts"@[0]);
    assert("extra_metrics_tags"@[0] != "ingress_net_filter"@[0]);
    assert("proxy_pass"@[0] != "ftp_server"@[0]);
    assert("audit_upload"@[0] != "tls_upstream"@[0]);
}

/// A setting that is a text takes the value of its item, and no other setting changes.
pub proof fn law_text_settings(c: ConfigView, k: Seq<char>, v: Seq<char>)
    ensures
        item_set(c, k, SettingKey::ServerName, ValueView::Text(Ok(v))) == Ok::<ConfigView, ErrorView>(
            ConfigView { name: v, ..c },
        ),
        item_set(c, k, SettingKey::Escaper, ValueView::Text(Ok(v))) == Ok::<ConfigView, ErrorView>(
            ConfigView { escaper: v, ..c },
        ),
        item_set(c, k, SettingKey::Auditor, ValueView::Text(Ok(v))) == Ok::<ConfigView, ErrorView>(
            ConfigView { auditor: v, ..c },
        ),
        item_set(c, k, SettingKey::TcpSockSpeedLimit, ValueView::Text(Ok(v))) == Ok::<ConfigView, ErrorView>(
            ConfigView { tcp_sock_speed_limit: v, ..c },
        ),
        item_set(c, k, SettingKey::TcpMiscOpts, ValueView::Text(Ok(v))) == Ok::<ConfigView, ErrorView>(
            ConfigView { tcp_misc_opts: v, ..c },
        ),
        item_set(c, k, SettingKey::SharedLogger, ValueView::Text(Ok(v))) == Ok::<ConfigView, ErrorView>(
            ConfigView { shared_logger: Some(v), ..c },
        ),
        item_set(c, k, SettingKey::ExtraMetricsTags, ValueView::Text(Ok(v))) == Ok::<ConfigView, ErrorView>(
            ConfigView { extra_metrics_tags: Some(v), ..c },
        ),
        item_set(c, k, SettingKey::Listen, ValueView::Text(Ok(v))) == Ok::<ConfigView, ErrorView>(
            ConfigView { listen: Some(v), ..c },
        ),
        item_set(c, k, SettingKey::IngressNetFilter, ValueView::Text(Ok(v))) == Ok::<ConfigView, ErrorView>(
            ConfigView { ingress_net_filter: Some(v), ..c },
        ),
{
}

/// A setting that is switched on or off, and above all whether uploads are audited, takes the value
/// of its item, either way, and no other setting changes.
pub proof fn law_switches(c: ConfigView, k: Seq<char>, v: bool)
    ensures
        item_set(c, k, SettingKey::AuditUpload, ValueView::Flag(Ok(v))) == Ok::<ConfigView, ErrorView>(
            ConfigView { audit_upload: v, ..c },
        ),
        item_set(c, k, SettingKey::ListenInWorker, ValueView::Flag(Ok(v))) == Ok::<ConfigView, ErrorView>(
            ConfigView { listen_in_worker: v, ..c },
        ),
        item_set(c, k, SettingKey::FlushTaskLogOnCreated, ValueView::Flag(Ok(v))) == Ok::<ConfigView, ErrorView>(
            ConfigView { flush_task_log_on_created: v, ..c },
        ),
        item_set(c, k, SettingKey::FlushTaskLogOnConnected, ValueView::Flag(Ok(v))) == Ok::<ConfigView, ErrorView>(
            ConfigView { flush_task_log_on_connected: v, ..c },
        ),
{
}

/// A setting that is a number, a time or a list of servers takes the value of its item, and no
/// other setting changes.
pub proof fn law_number_and_list_settings(
    c: ConfigView,
    k: Seq<char>,
    count: usize,
    span: u128,
    servers: Seq<Seq<char>>,
)
    ensures
        item_set(c, k, SettingKey::TaskIdleMaxCount, ValueView::Count(Ok(count))) == Ok::<ConfigView, ErrorView>(
            ConfigView { task_idle_max_count: count, ..c },
        ),
        item_set(c, k, SettingKey::TaskIdleCheckDuration, ValueView::Span(Ok(span))) == Ok::<ConfigView, ErrorView>(
            ConfigView { task_idle_check_duration: span, ..c },
        ),
        item_set(c, k, SettingKey::TaskLogFlushInterval, ValueView::Span(Ok(span))) == Ok::<ConfigView, ErrorView>(
            ConfigView { task_log_flush_interval: Some(span), ..c },
        ),
        item_set(c, k, SettingKey::Upstream, ValueView::Upstreams(Ok(servers))) == Ok::<ConfigView, ErrorView>(
            ConfigView { upstream: servers, ..c },
        ),
        item_set(c, k, SettingKey::ServerType, ValueView::Count(Ok(count))) == Ok::<
            ConfigView,
            ErrorView,
        >(c),
{
}

/// The TLS settings are those of the item, or those that `true` stands for; `false` changes
/// nothing.
pub proof fn law_tls_settings(c: ConfigView, k: Seq<char>, tls: TlsUpstreamView, e: Seq<char>)
    ensures
        item_set(c, k, SettingKey::TlsUpstream, ValueView::TlsSettings(Ok(tls))) == Ok::<
            ConfigView,
            ErrorView,
        >(ConfigView { tls_upstream: Some(tls), ..c }),
        item_set(c, k, SettingKey::TlsUpstream, ValueView::TlsSwitch(true, tls)) == Ok::<
            ConfigView,
            ErrorView,
        >(ConfigView { tls_upstream: Some(tls), ..c }),
        item_set(c, k, SettingKey::TlsUpstream, ValueView::TlsSwitch(false, tls)) == Ok::<
            ConfigView,
            ErrorView,
        >(c),
        item_set(c, k, SettingKey::TlsUpstream, ValueView::TlsNoDir(e)) == Err::<
            ConfigView,
            ErrorView,
        >(ErrorView { message: e, cause: None }),
{
}

/// The kind of FTP server is the one that the value names, under any of its names; any other value
/// is refused, and told.
pub proof fn law_kinds_of_servers(c: ConfigView, k: Seq<char>, v: Seq<char>)
    ensures
        ({
            let plain = v == "plain_ftp"@ || v == "plain"@ || v == "ftp"@;
            let explicit = v == "explicit_ftps"@ || v == "explicit"@ || v == "auth_tls"@;
            let implicit = v == "implicit_ftps"@ || v == "implicit"@;
            match item_set(c, k, SettingKey::TlsUpstreamType, ValueView::Text(Ok(v))) {
                Ok(now) => {
                    &&& now == (ConfigView { tls_upstream_type: now.tls_upstream_type, ..c })
                    &&& now.tls_upstream_type is PlainFtp <==> plain
                    &&& now.tls_upstream_type is ExplicitFtps <==> explicit
                    &&& now.tls_upstream_type is ImplicitFtps <==> implicit
                },
                Err(e) => {
                    &&& !plain && !explicit && !implicit
                    &&& e == (ErrorView {
                        message: "invalid tls_upstream_type value: "@ + v
                            + ", expected plain_ftp, explicit_ftps, or implicit_ftps"@,
                        cause: None,
                    })
                },
            }
        }),
{
    reveal_strlit("plain_ftp");
    reveal_strlit("plain");
    reveal_strlit("ftp");
    reveal_strlit("explicit_ftps");
    reveal_strlit("explicit");
    reveal_strlit("auth_tls");
    reveal_strlit("implicit_ftps");
    reveal_strlit("implicit");
    assert("explicit_ftps"@[0] != "implicit_ftps"@[0]);
    assert("explicit"@[0] != "implicit"@[0]);
    assert("auth_tls"@[0] != "implicit"@[0]);
}

/// A value that could not be converted is refused for its setting, and the error tells why: as it
/// is, or beneath a message that names the key as it is written.
pub proof fn law_bad_values_are_refused(c: ConfigView, k: Seq<char>, e: Seq<char>)
    ensures
        item_set(c, k, SettingKey::ServerName, ValueView::Text(Err(e))) == Err::<ConfigView, ErrorView>(
            ErrorView { message: e, cause: None },
        ),
        item_set(c, k, SettingKey::Escaper, ValueView::Text(Err(e))) == Err::<ConfigView, ErrorView>(
            ErrorView { message: e, cause: None },
        ),
        item_set(c, k, SettingKey::Auditor, ValueView::Text(Err(e))) == Err::<ConfigView, ErrorView>(
            ErrorView { message: e, cause: None },
        ),
        item_set(c, k, SettingKey::SharedLogger, ValueView::Text(Err(e))) == Err::<ConfigView, ErrorView>(
            ErrorView { message: e, cause: None },
        ),
        item_set(c, k, SettingKey::TlsUpstreamType, ValueView::Text(Err(e))) == Err::<ConfigView, ErrorView>(
            ErrorView { message: e, cause: None },
        ),
        item_set(c, k, SettingKey::AuditUpload, ValueView::Flag(Err(e))) == Err::<ConfigView, ErrorView>(
            ErrorView { message: e, cause: None },
        ),
        item_set(c, k, SettingKey::ListenInWorker, ValueView::Flag(Err(e))) == Err::<ConfigView, ErrorView>(
            ErrorView { message: e, cause: None },
        ),
        item_set(c, k, SettingKey::FlushTaskLogOnCreated, ValueView::Flag(Err(e))) == Err::<ConfigView, ErrorView>(
            ErrorView { message: e, cause: None },
        ),
        item_set(c, k, SettingKey::FlushTaskLogOnConnected, ValueView::Flag(Err(e))) == Err::<ConfigView, ErrorView>(
            ErrorView { message: e, cause: None },
        ),
        item_set(c, k, SettingKey::ExtraMetricsTags, ValueView::Text(Err(e))) == Err::<ConfigView, ErrorView>(
            ErrorView { message: "invalid static metrics tags value for key "@ + k, cause: Some(e) },
        ),
        item_set(c, k, SettingKey::Listen, ValueView::Text(Err(e))) == Err::<ConfigView, ErrorView>(
            ErrorView { message: "invalid tcp listen config value for key "@ + k, cause: Some(e) },
        ),
        item_set(c, k, SettingKey::IngressNetFilter, ValueView::Text(Err(e))) == Err::<ConfigView, ErrorView>(
            ErrorView { message: "invalid ingress network acl rule value for key "@ + k, cause: Some(e) },
        ),
        item_set(c, k, SettingKey::Upstream, ValueView::Upstreams(Err(e))) == Err::<ConfigView, ErrorView>(
            ErrorView { message: "invalid weighted upstream address value for key "@ + k, cause: Some(e) },
        ),
        item_set(c, k, SettingKey::TcpSockSpeedLimit, ValueView::Text(Err(e))) == Err::<ConfigView, ErrorView>(
            ErrorView { message: "invalid tcp socket speed limit value for key "@ + k, cause: Some(e) },
        ),
        item_set(c, k, SettingKey::TcpMiscOpts, ValueView::Text(Err(e))) == Err::<ConfigView, ErrorView>(
            ErrorView { message: "invalid tcp misc sock opts value for key "@ + k, cause: Some(e) },
        ),
        item_set(c, k, SettingKey::TaskIdleCheckDuration, ValueView::Span(Err(e))) == Err::<ConfigView, ErrorView>(
            ErrorView { message: "invalid humanize duration value for key "@ + k, cause: Some(e) },
        ),
        item_set(c, k, SettingKey::TaskIdleMaxCount, ValueView::Count(Err(e))) == Err::<ConfigView, ErrorView>(
            ErrorView { message: "invalid usize value for key "@ + k, cause: Some(e) },
        ),
        item_set(c, k, SettingKey::TaskLogFlushInterval, ValueView::Span(Err(e))) == Err::<ConfigView, ErrorView>(
            ErrorView { message: "invalid humanize duration value for key "@ + k, cause: Some(e) },
        ),
        item_set(c, k, SettingKey::TlsUpstream, ValueView::TlsSettings(Err(e))) == Err::<ConfigView, ErrorView>(
            ErrorView { message: "invalid openssl tls upstream config value for key "@ + k, cause: Some(e) },
        ),
{
}

/// An item under an unknown key is refused, and so is a value of another kind than the setting
/// takes. A refused item changes nothing, and one that is not refused leaves what was set.
pub proof fn law_refused_items(
    c: ConfigView,
    k: Seq<char>,
    key: SettingKey,
    value: ValueView,
    now: ConfigView,
    e: ErrorView,
)
    ensures
        item_set(c, k, SettingKey::Unknown, value) == Err::<ConfigView, ErrorView>(
            ErrorView { message: "invalid key "@ + k, cause: None },
        ),
        value is Unused && !(key is ServerType || key is Unknown) ==> item_set(c, k, key, value)
            == Err::<ConfigView, ErrorView>(
            ErrorView { message: "invalid value for key "@ + k, cause: None },
        ),
        item_set(c, k, key, value) is Ok ==> match key {
            SettingKey::ServerType => true,
            SettingKey::AuditUpload
            | SettingKey::ListenInWorker
            | SettingKey::FlushTaskLogOnCreated
            | SettingKey::FlushTaskLogOnConnected => value is Flag,
            SettingKey::TaskIdleMaxCount => value is Count,
            SettingKey::TaskIdleCheckDuration | SettingKey::TaskLogFlushInterval => value is Span,
            SettingKey::Upstream => value is Upstreams,
            SettingKey::TlsUpstream => value is TlsSwitch || value is TlsSettings,
            SettingKey::Unknown => false,
            _ => value is Text,
        },
        item_set(c, k, SettingKey::ServerType, value) == Ok::<ConfigView, ErrorView>(c),
        result_config(c, Err(e)) == (c, Err::<(), ErrorView>(e)),
        result_config(c, Ok(now)) == (now, Ok::<(), ErrorView>(())),
{
}

/// A configuration in which nothing is set audits uploads and speaks plain FTP; it has the
/// surroundings' times and limits, and nothing else.
pub proof fn law_nothing_is_set_at_first(position: Option<Seq<char>>, d: ConfigDefaults)
    ensures
        ({
            let c = blank_config(position, d);
            &&& c.audit_upload
            &&& c.tls_upstream_type is PlainFtp
            &&& c.tls_upstream is None
            &&& c.position == position
            &&& c.name.len() == 0 && c.escaper.len() == 0 && c.auditor.len() == 0
            &&& c.upstream.len() == 0
            &&& c.listen is None && c.shared_logger is None && c.ingress_net_filter is None
            &&& c.extra_metrics_tags is None && c.task_log_flush_interval is None
            &&& !c.listen_in_worker
            &&& !c.flush_task_log_on_created && !c.flush_task_log_on_connected
            &&& c.task_idle_check_duration == d.idle_check_duration
            &&& c.task_idle_max_count == d.idle_max_count
            &&& c.tcp_sock_speed_limit == d.tcp_sock_speed_limit@
            &&& c.tcp_misc_opts == d.tcp_misc_opts@
        }),
{
}

/// The check passes exactly a configuration with a name, an escaper and an FTP server, whose TLS
/// settings are there and in order if the server speaks TLS. It shortens the time between two
/// looks at an idle task, takes over what the check of the TLS settings makes of them, and changes
/// nothing else. What it misses first is what it tells.
pub proof fn law_check(c: ConfigView, d: ConfigDefaults)
    ensures
        ({
            let (now, r) = checked(c, d);
            let tls_ok = c.tls_upstream_type is PlainFtp || (c.tls_upstream is Some
                && c.tls_upstream->0.checked is Ok);
            &&& r is Ok <==> c.name.len() > 0 && c.escaper.len() > 0 && c.upstream.len() > 0 && tls_ok
            &&& r is Ok ==> now == (ConfigView {
                task_idle_check_duration: if c.task_idle_check_duration <= d.idle_check_maximum {
                    c.task_idle_check_duration
                } else {
                    d.idle_check_maximum
                },
                tls_upstream: now.tls_upstream,
                ..c
            })
            &&& r is Ok && c.tls_upstream_type is PlainFtp ==> now.tls_upstream == c.tls_upstream
            &&& r is Ok && !(c.tls_upstream_type is PlainFtp) ==> {
                &&& now.tls_upstream is Some
                &&& c.tls_upstream->0.checked == Ok::<Seq<char>, Seq<char>>(
                    now.tls_upstream->0.builder,
                )
                &&& now.tls_upstream->0.checked == c.tls_upstream->0.checked
            }
            &&& r matches Err(e) ==> e.cause is None && e.message == if c.name.len() == 0 {
                "name is not set"@
            } else if c.escaper.len() == 0 {
                "escaper is not set"@
            } else if c.upstream.len() == 0 {
                "upstream is not set"@
            } else if c.tls_upstream is None {
                "tls_upstream must be set when tls_upstream_type is "@ + if c.tls_upstream_type
                    is ExplicitFtps {
                    "ExplicitFtps"@
                } else {
                    "ImplicitFtps"@
                }
            } else {
                c.tls_upstream->0.checked->Err_0
            }
        }),
{
}

proof fn lemma_items_of(
    c: ConfigView,
    items: Seq<ConfigItem>,
    last: ConfigItem,
    n: int,
    d: ConfigDefaults,
)
    requires
        0 <= n <= items.len(),
    ensures
        items_set(c, items.push(last), n, d) == (match items_set(c, items, n, d) {
            Ok(now) => item_set(now, last@.k, setting_of(last@.key, d), last@.value),
            Err(e) => Err(e),
        }),
    decreases items.len() - n,
{
    let all = items.push(last);
    if n < items.len() {
        assert(all[n] == items[n]);
        let item = items[n]@;
        if let Ok(now) = item_set(c, item.k, setting_of(item.key, d), item.value) {
            lemma_items_of(now, items, last, n + 1, d);
        }
    } else {
        assert(all[n] == last);
        if let Ok(now) = item_set(c, last@.k, setting_of(last@.key, d), last@.value) {
            assert(items_set(now, all, n + 1, d) == Ok::<ConfigView, ErrorView>(now));
        }
    }
}

/// Items are set in turn, each on what those before it made, up to the first that is refused; what
/// they make is then checked.
pub proof fn law_items_are_set_in_turn(
    c: ConfigView,
    items: Seq<ConfigItem>,
    last: ConfigItem,
    position: Option<Seq<char>>,
    d: ConfigDefaults,
)
    ensures
        items_set(c, Seq::empty(), 0, d) == Ok::<ConfigView, ErrorView>(c),
        items_set(c, items.push(last), 0, d) == (match items_set(c, items, 0, d) {
            Ok(now) => item_set(now, last@.k, setting_of(last@.key, d), last@.value),
            Err(e) => Err(e),
        }),
        match items_set(blank_config(position, d), items, 0, d) {
            Ok(now) => {
                let (done, r) = checked(now, d);
                &&& r is Ok ==> parsed(items, position, d) == Ok::<ConfigView, ErrorView>(done)
                &&& r matches Err(e) ==> parsed(items, position, d) == Err::<ConfigView, ErrorView>(
                    e,
                )
            },
            Err(e) => parsed(items, position, d) == Err::<ConfigView, ErrorView>(e),
        },
{
    lemma_items_of(c, items, last, 0, d);
}

/// A running server is left alone exactly where nothing has changed. Where its listen address has,
/// it listens anew, and where anything else has, it goes on with the new configuration. A
/// configuration of another kind makes a new server.
pub proof fn law_change_of_a_configuration(c: ConfigView, new: FtpProxyServerConfig, other: String)
    ensures
        change(c, AnyServerConfig::FtpProxy(new)) is NoAction <==> c == new@,
        change(c, AnyServerConfig::FtpProxy(new)) is ReloadAndRespawn <==> c.listen != new@.listen,
        change(c, AnyServerConfig::FtpProxy(new)) is ReloadNoRespawn <==> c != new@ && c.listen
            == new@.listen,
        change(c, AnyServerConfig::Other(other)) is SpawnNew,
{
}

} // verus!
