//! The counters of an FTP proxy server.

use crate::net::SocketAddr;
use vstd::prelude::*;
use vstd::string::*;

verus! {

/// Bytes that came from clients and went to them.
#[derive(Clone, Copy, Debug, PartialEq, Eq, Structural)]
pub struct TcpIoSnapshot {
    pub in_bytes: u64,
    pub out_bytes: u64,
}

/// The counters of an FTP proxy server. They wrap around at their limits.
#[derive(Debug)]
pub struct FtpProxyServerStats {
    pub name: String,
    pub id: u64,
    pub extra_metrics_tags: Option<String>,
    /// How often the server was set online, less how often it was set offline.
    pub online: isize,
    /// The control tasks that run.
    pub task_alive_control: i32,
    /// The connections that were accepted and the control tasks that were begun.
    pub task_total: u64,
    pub tcp_control: TcpIoSnapshot,
}

/// The counters after a control task was begun.
pub open spec fn task_begun(s: FtpProxyServerStats) -> FtpProxyServerStats {
    FtpProxyServerStats {
        task_total: s.task_total.wrapping_add(1),
        task_alive_control: s.task_alive_control.wrapping_add(1),
        ..s
    }
}

/// The counters after a control task has ended.
pub open spec fn task_ended(s: FtpProxyServerStats) -> FtpProxyServerStats {
    FtpProxyServerStats { task_alive_control: s.task_alive_control.wrapping_sub(1), ..s }
}

/// The counters after a connection was accepted.
pub open spec fn conn_counted(s: FtpProxyServerStats) -> FtpProxyServerStats {
    FtpProxyServerStats { task_total: s.task_total.wrapping_add(1), ..s }
}

/// The counters after bytes came from clients and went to them.
pub open spec fn bytes_counted(
    s: FtpProxyServerStats,
    in_size: u64,
    out_size: u64,
) -> FtpProxyServerStats {
    FtpProxyServerStats {
        tcp_control: TcpIoSnapshot {
            in_bytes: s.tcp_control.in_bytes.wrapping_add(in_size),
            out_bytes: s.tcp_control.out_bytes.wrapping_add(out_size),
        },
        ..s
    }
}

/// The counters after the server was set online.
pub open spec fn online_counted(s: FtpProxyServerStats) -> FtpProxyServerStats {
    FtpProxyServerStats { online: s.online.wrapping_add(1), ..s }
}

/// The counters after the server was set offline.
pub open spec fn offline_counted(s: FtpProxyServerStats) -> FtpProxyServerStats {
    FtpProxyServerStats { online: s.online.wrapping_sub(1), ..s }
}

impl FtpProxyServerStats {
    /// Counters that stand at zero.
    pub fn new(name: &str, id: u64) -> (r: FtpProxyServerStats)
        ensures
            r.name@ == name@,
            r.id == id,
            r.extra_metrics_tags is None,
            r.online == 0,
            r.task_alive_control == 0,
            r.task_total == 0,
            r.tcp_control == (TcpIoSnapshot { in_bytes: 0, out_bytes: 0 }),
    {
        FtpProxyServerStats {
            name: name.to_owned(),
            id,
            extra_metrics_tags: None,
            online: 0,
            task_alive_control: 0,
            task_total: 0,
            tcp_control: TcpIoSnapshot { in_bytes: 0, out_bytes: 0 },
        }
    }

    pub fn set_online(&mut self)
        ensures
            *final(self) == online_counted(*old(self)),
    {
        self.online = self.online.wrapping_add(1);
    }

    pub fn set_offline(&mut self)
        ensures
            *final(self) == offline_counted(*old(self)),
    {
        self.online = self.online.wrapping_sub(1);
    }

    pub fn set_extra_tags(&mut self, tags: Option<String>)
        ensures
            *final(self) == (FtpProxyServerStats { extra_metrics_tags: tags, ..*old(self) }),
    {
        self.extra_metrics_tags = tags;
    }

    pub fn add_control_in_bytes(&mut self, size: u64)
        ensures
            *final(self) == bytes_counted(*old(self), size, 0),
    {
        self.tcp_control.in_bytes = self.tcp_control.in_bytes.wrapping_add(size);
    }

    pub fn add_control_out_bytes(&mut self, size: u64)
        ensures
            *final(self) == bytes_counted(*old(self), 0, size),
    {
        self.tcp_control.out_bytes = self.tcp_control.out_bytes.wrapping_add(size);
    }

    /// Counts a control task that begins.
    pub fn add_control_task(&mut self)
        ensures
            *final(self) == task_begun(*old(self)),
    {
        self.task_total = self.task_total.wrapping_add(1);
        self.task_alive_control = self.task_alive_control.wrapping_add(1);
    }

    /// Counts a control task that ends.
    pub fn remove_control_task(&mut self)
        ensures
            *final(self) == task_ended(*old(self)),
    {
        self.task_alive_control = self.task_alive_control.wrapping_sub(1);
    }

    /// Counts a connection that was accepted.
    pub fn add_conn(&mut self, _addr: SocketAddr)
        ensures
            *final(self) == conn_counted(*old(self)),
    {
        self.task_total = self.task_total.wrapping_add(1);
    }

    /// Whether any control task runs.
    pub fn is_online(&self) -> (r: bool)
        ensures
            r == (self.task_alive_control > 0),
    {
        self.task_alive_control > 0
    }

    pub fn get_conn_total(&self) -> (r: u64)
        ensures
            r == self.task_total,
    {
        self.task_total
    }

    pub fn get_task_total(&self) -> (r: u64)
        ensures
            r == self.task_total,
    {
        self.task_total
    }

    pub fn get_alive_count(&self) -> (r: i32)
        ensures
            r == self.task_alive_control,
    {
        self.task_alive_control
    }

    /// The bytes of the control channels.
    pub fn tcp_io_snapshot(&self) -> (r: Option<TcpIoSnapshot>)
        ensures
            r == Some(self.tcp_control),
    {
        Some(self.tcp_control)
    }
}

/// Counters after the given number of control tasks were begun.
pub open spec fn tasks_begun(s: FtpProxyServerStats, n: nat) -> FtpProxyServerStats
    decreases n,
{
    if n == 0 {
        s
    } else {
        task_begun(tasks_begun(s, (n - 1) as nat))
    }
}

/// Counters after the given number of control tasks have ended.
pub open spec fn tasks_ended(s: FtpProxyServerStats, n: nat) -> FtpProxyServerStats
    decreases n,
{
    if n == 0 {
        s
    } else {
        task_ended(tasks_ended(s, (n - 1) as nat))
    }
}

proof fn lemma_begun(s: FtpProxyServerStats, n: nat)
    requires
        s.task_alive_control + n <= i32::MAX,
    ensures
        tasks_begun(s, n).task_alive_control == s.task_alive_control + n,
    decreases n,
{
    if n > 0 {
        lemma_begun(s, (n - 1) as nat);
    }
}

proof fn lemma_ended(s: FtpProxyServerStats, n: nat)
    requires
        s.task_alive_control - n >= i32::MIN,
    ensures
        tasks_ended(s, n).task_alive_control == s.task_alive_control - n,
    decreases n,
{
    if n > 0 {
        lemma_ended(s, (n - 1) as nat);
    }
}

/// The tasks that run are those that were begun and have not ended, and the server is online
/// exactly while there are any.
pub proof fn law_alive_tasks_are_counted(s: FtpProxyServerStats, begun: nat, ended: nat)
    requires
        s.task_alive_control == 0,
        ended <= begun <= i32::MAX,
    ensures
        ({
            let now = tasks_ended(tasks_begun(s, begun), ended);
            &&& now.task_alive_control == begun - ended
            &&& now.task_alive_control > 0 <==> ended < begun
        }),
{
    lemma_begun(s, begun);
    lemma_ended(tasks_begun(s, begun), ended);
}

/// A control task that begins is counted among those that run and among all; one that ends is taken
/// off those that run, and off nothing else. Nothing but these counts changes.
pub proof fn law_tasks_are_counted(s: FtpProxyServerStats)
    ensures
        s.task_alive_control < i32::MAX ==> task_begun(s).task_alive_control
            == s.task_alive_control + 1,
        s.task_total < u64::MAX ==> task_begun(s).task_total == s.task_total + 1,
        s.task_alive_control > i32::MIN ==> task_ended(s).task_alive_control
            == s.task_alive_control - 1,
        task_begun(s) == (FtpProxyServerStats {
            task_total: task_begun(s).task_total,
            task_alive_control: task_begun(s).task_alive_control,
            ..s
        }),
        task_ended(s) == (FtpProxyServerStats {
            task_alive_control: task_ended(s).task_alive_control,
            ..s
        }),
        task_ended(task_begun(s)).task_alive_control == s.task_alive_control,
{
}

/// A connection is counted among all tasks, bytes where they came from, and every time that the
/// server goes online or offline. Nothing else changes with any of these.
pub proof fn law_connections_and_bytes_are_counted(
    s: FtpProxyServerStats,
    in_size: u64,
    out_size: u64,
)
    ensures
        s.task_total < u64::MAX ==> conn_counted(s).task_total == s.task_total + 1,
        conn_counted(s) == (FtpProxyServerStats { task_total: conn_counted(s).task_total, ..s }),
        s.tcp_control.in_bytes + in_size <= u64::MAX ==> bytes_counted(
            s,
            in_size,
            out_size,
        ).tcp_control.in_bytes == s.tcp_control.in_bytes + in_size,
        s.tcp_control.out_bytes + out_size <= u64::MAX ==> bytes_counted(
            s,
            in_size,
            out_size,
        ).tcp_control.out_bytes == s.tcp_control.out_bytes + out_size,
        bytes_counted(s, in_size, out_size) == (FtpProxyServerStats {
            tcp_control: bytes_counted(s, in_size, out_size).tcp_control,
            ..s
        }),
        s.online < isize::MAX ==> online_counted(s).online == s.online + 1,
        s.online > isize::MIN ==> offline_counted(s).online == s.online - 1,
        online_counted(s) == (FtpProxyServerStats { online: online_counted(s).online, ..s }),
        offline_counted(s) == (FtpProxyServerStats { online: offline_counted(s).online, ..s }),
{
}

} // verus!
