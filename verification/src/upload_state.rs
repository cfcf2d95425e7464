//! Uploads that a control channel announced and whose data channel has yet to come.
//!
//! In tunnelled FTP the two channels are separate connections. The control channel leaves a mark
//! when it sees an upload command, and the data channel looks for it: only a channel that finds
//! a mark is audited. Times are nanoseconds of one monotonic clock.

use crate::net::IpAddr;
use crate::pairs::{ClientServerPair, PairTable};
use std::collections::VecDeque;
use vstd::prelude::*;
use vstd::string::*;

verus! {

/// How long a mark of an upload lasts: two minutes.
pub const UPLOAD_TTL: u128 = 120_000_000_000;

/// How long the domain of an FTPS server is remembered: one hour.
pub const DOMAIN_TTL: u128 = 3_600_000_000_000;

/// The most uploads that may wait for one client and server.
pub const MAX_PENDING_PER_PAIR: usize = 16;

/// The most domains that are remembered.
pub const MAX_DOMAINS: usize = 4096;

/// The number of operations after which what has expired is dropped.
pub const CLEANUP_INTERVAL: u32 = 1000;

/// An upload that waits for its data channel.
#[derive(Clone, Debug)]
pub struct PendingUploadInfo {
    pub ftp_command: String,
    pub ftp_path: String,
    pub created_at: u128,
}

#[verifier::ext_equal]
pub struct UploadText {
    pub ftp_command: Seq<char>,
    pub ftp_path: Seq<char>,
    pub created_at: u128,
}

impl View for PendingUploadInfo {
    type V = UploadText;

    open spec fn view(&self) -> UploadText {
        UploadText {
            ftp_command: self.ftp_command@,
            ftp_path: self.ftp_path@,
            created_at: self.created_at,
        }
    }
}

/// The domain of an FTPS server.
#[derive(Debug)]
pub struct FtpsDomainEntry {
    pub domain: String,
    pub created_at: u128,
}

#[verifier::ext_equal]
pub struct DomainText {
    pub domain: Seq<char>,
    pub created_at: u128,
}

impl View for FtpsDomainEntry {
    type V = DomainText;

    open spec fn view(&self) -> DomainText {
        DomainText { domain: self.domain@, created_at: self.created_at }
    }
}

/// What the control channels left for the data channels.
#[derive(Debug)]
pub struct FtpUploadState {
    pending_uploads: PairTable<VecDeque<PendingUploadInfo>>,
    ftps_domains: PairTable<FtpsDomainEntry>,
    ops_since_cleanup: u32,
}

#[verifier::ext_equal]
pub struct UploadStateView {
    /// The uploads of each pair, the oldest first.
    pub uploads: Map<ClientServerPair, Seq<UploadText>>,
    pub domains: Map<ClientServerPair, DomainText>,
    /// The operations since what had expired was last dropped.
    pub ops: nat,
}

pub open spec fn queue_texts(queue: Seq<PendingUploadInfo>) -> Seq<UploadText> {
    Seq::new(queue.len(), |i: int| queue[i]@)
}

spec fn upload_texts(m: Map<ClientServerPair, VecDeque<PendingUploadInfo>>) -> Map<
    ClientServerPair,
    Seq<UploadText>,
> {
    Map::new(|k: ClientServerPair| m.contains_key(k), |k: ClientServerPair| queue_texts(m[k]@))
}

spec fn domain_texts(m: Map<ClientServerPair, FtpsDomainEntry>) -> Map<
    ClientServerPair,
    DomainText,
> {
    Map::new(|k: ClientServerPair| m.contains_key(k), |k: ClientServerPair| m[k]@)
}

impl View for FtpUploadState {
    type V = UploadStateView;

    closed spec fn view(&self) -> UploadStateView {
        UploadStateView {
            uploads: upload_texts(self.pending_uploads@),
            domains: domain_texts(self.ftps_domains@),
            ops: self.ops_since_cleanup as nat,
        }
    }
}

// ---------------------------------------------------------------------------
// What the operations do
// ---------------------------------------------------------------------------

/// The time since an entry was made; none where the clock stands behind it.
pub open spec fn age(now: u128, created_at: u128) -> int {
    if now >= created_at {
        now - created_at
    } else {
        0
    }
}

/// A queue without the expired uploads at its head.
pub open spec fn fresh(queue: Seq<UploadText>, now: u128) -> Seq<UploadText>
    decreases queue.len(),
{
    if queue.len() > 0 && age(now, queue[0].created_at) >= UPLOAD_TTL {
        fresh(queue.skip(1), now)
    } else {
        queue
    }
}

/// The queues without what has expired; a queue of which nothing is left is dropped.
pub open spec fn fresh_uploads(
    m: Map<ClientServerPair, Seq<UploadText>>,
    now: u128,
) -> Map<ClientServerPair, Seq<UploadText>> {
    Map::new(
        |k: ClientServerPair| m.contains_key(k) && fresh(m[k], now).len() > 0,
        |k: ClientServerPair| fresh(m[k], now),
    )
}

/// The domains that have not expired.
pub open spec fn fresh_domains(m: Map<ClientServerPair, DomainText>, now: u128) -> Map<
    ClientServerPair,
    DomainText,
> {
    Map::new(
        |k: ClientServerPair| m.contains_key(k) && age(now, m[k].created_at) < DOMAIN_TTL,
        |k: ClientServerPair| m[k],
    )
}

/// The state after an operation was counted: every so many operations, what has expired is
/// dropped.
pub open spec fn counted(s: UploadStateView, now: u128) -> UploadStateView {
    if s.ops + 1 >= CLEANUP_INTERVAL {
        UploadStateView {
            uploads: fresh_uploads(s.uploads, now),
            domains: fresh_domains(s.domains, now),
            ops: 0,
        }
    } else {
        UploadStateView { ops: s.ops + 1, ..s }
    }
}

/// The queue of a pair, expired uploads included.
pub open spec fn queue_of(s: UploadStateView, key: ClientServerPair) -> Seq<UploadText> {
    if s.uploads.contains_key(key) {
        s.uploads[key]
    } else {
        Seq::empty()
    }
}

/// The state after an upload was marked: it stands at the end of its queue, if there is room.
pub open spec fn marked(
    s: UploadStateView,
    key: ClientServerPair,
    upload: UploadText,
    now: u128,
) -> UploadStateView {
    if queue_of(s, key).len() >= MAX_PENDING_PER_PAIR {
        s
    } else {
        counted(
            UploadStateView {
                uploads: s.uploads.insert(key, queue_of(s, key).push(upload)),
                ..s
            },
            now,
        )
    }
}

/// The state after the oldest upload of a pair that has not expired was taken, and that upload.
pub open spec fn consumed(s: UploadStateView, key: ClientServerPair, now: u128) -> (
    UploadStateView,
    Option<UploadText>,
) {
    if !s.uploads.contains_key(key) {
        (s, None)
    } else {
        let queue = fresh(s.uploads[key], now);
        if queue.len() == 0 {
            (UploadStateView { uploads: s.uploads.insert(key, queue), ..s }, None)
        } else {
            let uploads = if queue.len() == 1 {
                s.uploads.remove(key)
            } else {
                s.uploads.insert(key, queue.skip(1))
            };
            (counted(UploadStateView { uploads, ..s }, now), Some(queue[0]))
        }
    }
}

/// The state after the domain of a server was noted: a new one is left out where too many are
/// remembered.
pub open spec fn domain_marked(
    s: UploadStateView,
    key: ClientServerPair,
    domain: Seq<char>,
    now: u128,
) -> UploadStateView {
    if !s.domains.contains_key(key) && s.domains.dom().len() >= MAX_DOMAINS {
        s
    } else {
        counted(
            UploadStateView {
                domains: s.domains.insert(key, DomainText { domain, created_at: now }),
                ..s
            },
            now,
        )
    }
}

/// The domain that is known of a server at a time.
pub open spec fn domain_at(s: UploadStateView, key: ClientServerPair, now: u128) -> Option<
    Seq<char>,
> {
    if s.domains.contains_key(key) && age(now, s.domains[key].created_at) < DOMAIN_TTL {
        Some(s.domains[key].domain)
    } else {
        None
    }
}

/// The state after a domain was looked up: only the lookup of a remembered pair is counted.
pub open spec fn domain_read(s: UploadStateView, key: ClientServerPair, now: u128) -> UploadStateView {
    if s.domains.contains_key(key) {
        counted(s, now)
    } else {
        s
    }
}

/// No more is kept than allowed.
pub open spec fn bounded(s: UploadStateView) -> bool {
    &&& forall|k: ClientServerPair|
        s.uploads.contains_key(k) ==> (#[trigger] s.uploads[k]).len() <= MAX_PENDING_PER_PAIR
    &&& s.domains.dom().finite()
    &&& s.domains.dom().len() <= MAX_DOMAINS
    &&& s.ops < CLEANUP_INTERVAL
}

// ---------------------------------------------------------------------------
// The operations
// ---------------------------------------------------------------------------

proof fn lemma_fresh_len(queue: Seq<UploadText>, now: u128)
    ensures
        fresh(queue, now).len() <= queue.len(),
        fresh(queue, now).len() > 0 ==> age(now, fresh(queue, now)[0].created_at) < UPLOAD_TTL,
        fresh(queue, now) == queue.skip(queue.len() - fresh(queue, now).len()),
    decreases queue.len(),
{
    if queue.len() > 0 && age(now, queue[0].created_at) >= UPLOAD_TTL {
        lemma_fresh_len(queue.skip(1), now);
        let n = fresh(queue, now).len();
        assert(queue.skip(1).skip(queue.len() - 1 - n) =~= queue.skip(queue.len() - n));
    } else {
        assert(queue.skip(0) =~= queue);
    }
}

proof fn lemma_counted_bounded(s: UploadStateView, now: u128)
    requires
        bounded(s),
    ensures
        bounded(counted(s, now)),
{
    if s.ops + 1 >= CLEANUP_INTERVAL {
        assert forall|k: ClientServerPair| fresh_uploads(s.uploads, now).contains_key(k) implies (
        #[trigger] fresh_uploads(s.uploads, now)[k]).len() <= MAX_PENDING_PER_PAIR by {
            lemma_fresh_len(s.uploads[k], now);
        }
        assert(fresh_domains(s.domains, now).dom().subset_of(s.domains.dom()));
        vstd::set_lib::lemma_len_subset(fresh_domains(s.domains, now).dom(), s.domains.dom());
    }
}

fn elapsed(now: u128, created_at: u128) -> (r: u128)
    ensures
        r == age(now, created_at),
{
    if now >= created_at {
        now - created_at
    } else {
        0
    }
}

fn drop_expired(queue: &mut VecDeque<PendingUploadInfo>, now: u128)
    ensures
        queue_texts(final(queue)@) == fresh(queue_texts(old(queue)@), now),
{
    let ghost start = queue_texts(queue@);
    while queue.len() > 0
        invariant
            fresh(queue_texts(queue@), now) == fresh(start, now),
        ensures
            queue_texts(queue@) == fresh(start, now),
        decreases queue@.len(),
    {
        assert(queue_texts(queue@)[0] == queue@[0]@);
        if elapsed(now, queue[0].created_at) < UPLOAD_TTL {
            break;
        }
        let ghost before = queue@;
        let _ = queue.pop_front();
        assert(queue_texts(queue@) =~= queue_texts(before).skip(1));
    }
}

impl FtpUploadState {
    pub closed spec fn tables_ok(self) -> bool {
        self.pending_uploads.wf() && self.ftps_domains.wf()
    }

    /// The tables are in order, and no more is kept than allowed.
    pub open spec fn wf(self) -> bool {
        self.tables_ok() && bounded(self@)
    }

    /// Nothing is marked.
    pub fn new() -> (r: FtpUploadState)
        ensures
            r.wf(),
            r@ == (UploadStateView { uploads: Map::empty(), domains: Map::empty(), ops: 0 }),
    {
        let r = FtpUploadState {
            pending_uploads: PairTable::new(),
            ftps_domains: PairTable::new(),
            ops_since_cleanup: 0,
        };
        assert(r@.uploads =~= Map::empty());
        assert(r@.domains =~= Map::empty());
        r
    }

    fn cleanup_expired_uploads(&mut self, now: u128)
        requires
            old(self).tables_ok(),
        ensures
            final(self).tables_ok(),
            final(self)@ == (UploadStateView {
                uploads: fresh_uploads(old(self)@.uploads, now),
                ..old(self)@
            }),
    {
        let mut rest: PairTable<VecDeque<PendingUploadInfo>> = PairTable::new();
        std::mem::swap(&mut rest, &mut self.pending_uploads);
        let ghost all = rest@;
        let mut kept: PairTable<VecDeque<PendingUploadInfo>> = PairTable::new();
        loop
            invariant
                rest.wf(),
                kept.wf(),
                forall|k: ClientServerPair| #[trigger]
                    rest@.contains_key(k) ==> all.contains_key(k) && rest@[k] == all[k],
                forall|k: ClientServerPair| #[trigger]
                    kept@.contains_key(k) <==> all.contains_key(k) && !rest@.contains_key(k)
                        && fresh(queue_texts(all[k]@), now).len() > 0,
                forall|k: ClientServerPair| #[trigger]
                    kept@.contains_key(k) ==> queue_texts(kept@[k]@) == fresh(
                        queue_texts(all[k]@),
                        now,
                    ),
            ensures
                rest@ == Map::<ClientServerPair, VecDeque<PendingUploadInfo>>::empty(),
            decreases rest@.dom().len(),
        {
            let ghost before = rest@;
            match rest.pop() {
                None => {
                    break;
                },
                Some((key, queue)) => {
                    assert(before.contains_key(key) && all[key] == queue);
                    let mut queue = queue;
                    drop_expired(&mut queue, now);
                    if queue.len() > 0 {
                        kept.insert(key, queue);
                    }
                },
            }
        }
        self.pending_uploads = kept;
        assert(self@.uploads =~= fresh_uploads(old(self)@.uploads, now));
    }

    fn cleanup_expired_domains(&mut self, now: u128)
        requires
            old(self).tables_ok(),
        ensures
            final(self).tables_ok(),
            final(self)@ == (UploadStateView {
                domains: fresh_domains(old(self)@.domains, now),
                ..old(self)@
            }),
    {
        let mut rest: PairTable<FtpsDomainEntry> = PairTable::new();
        std::mem::swap(&mut rest, &mut self.ftps_domains);
        let ghost all = rest@;
        let mut kept: PairTable<FtpsDomainEntry> = PairTable::new();
        loop
            invariant
                rest.wf(),
                kept.wf(),
                forall|k: ClientServerPair| #[trigger]
                    rest@.contains_key(k) ==> all.contains_key(k) && rest@[k] == all[k],
                forall|k: ClientServerPair| #[trigger]
                    kept@.contains_key(k) <==> all.contains_key(k) && !rest@.contains_key(k) && age(
                        now,
                        all[k].created_at,
                    ) < DOMAIN_TTL,
                forall|k: ClientServerPair| #[trigger]
                    kept@.contains_key(k) ==> kept@[k] == all[k],
            ensures
                rest@ == Map::<ClientServerPair, FtpsDomainEntry>::empty(),
            decreases rest@.dom().len(),
        {
            let ghost before = rest@;
            match rest.pop() {
                None => {
                    break;
                },
                Some((key, entry)) => {
                    assert(before.contains_key(key) && all[key] == entry);
                    if elapsed(now, entry.created_at) < DOMAIN_TTL {
                        kept.insert(key, entry);
                    }
                },
            }
        }
        self.ftps_domains = kept;
        assert(self@.domains =~= fresh_domains(old(self)@.domains, now));
    }

    fn maybe_trigger_cleanup(&mut self, now: u128)
        requires
            old(self).wf(),
        ensures
            final(self).wf(),
            final(self)@ == counted(old(self)@, now),
    {
        proof {
            lemma_counted_bounded(self@, now);
        }
        let ghost before = self@;
        let count: u32 = self.ops_since_cleanup.saturating_add(1);
        if count >= CLEANUP_INTERVAL {
            self.ops_since_cleanup = 0;
            self.cleanup_expired_uploads(now);
            self.cleanup_expired_domains(now);
        } else {
            self.ops_since_cleanup = count;
        }
        assert(self@ == counted(before, now));
    }

    /// Marks an upload for the data channel that will bring it.
    pub fn mark_upload(
        &mut self,
        client_ip: IpAddr,
        ftp_server_ip: IpAddr,
        ftp_command: &str,
        ftp_path: &str,
        _pasv_port: u16,
        now: u128,
    )
        requires
            old(self).wf(),
        ensures
            final(self).wf(),
            final(self)@ == marked(
                old(self)@,
                ClientServerPair { client: client_ip, server: ftp_server_ip },
                UploadText { ftp_command: ftp_command@, ftp_path: ftp_path@, created_at: now },
                now,
            ),
    {
        let key = ClientServerPair { client: client_ip, server: ftp_server_ip };
        let info = PendingUploadInfo {
            ftp_command: ftp_command.to_owned(),
            ftp_path: ftp_path.to_owned(),
            created_at: now,
        };
        let ghost before = self@;
        let mut queue: VecDeque<PendingUploadInfo> = match self.pending_uploads.remove(key) {
            Some(queue) => queue,
            None => VecDeque::new(),
        };
        assert(queue_texts(queue@) =~= queue_of(before, key));
        if queue.len() >= MAX_PENDING_PER_PAIR {
            self.pending_uploads.insert(key, queue);
            assert(self@.uploads =~= before.uploads);
            return;
        }
        let ghost waiting = queue@;
        queue.push_back(info);
        assert(queue_texts(queue@) =~= queue_texts(waiting).push(info@));
        self.pending_uploads.insert(key, queue);
        assert(self@.uploads =~= before.uploads.insert(key, queue_of(before, key).push(info@)));
        self.maybe_trigger_cleanup(now);
    }

    /// Takes the oldest upload that waits for a client and server.
    pub fn consume_upload(
        &mut self,
        client_ip: IpAddr,
        ftp_server_ip: IpAddr,
        now: u128,
    ) -> (r: Option<PendingUploadInfo>)
        requires
            old(self).wf(),
        ensures
            final(self).wf(),
            ({
                let key = ClientServerPair { client: client_ip, server: ftp_server_ip };
                (final(self)@, upload_text(r)) == consumed(old(self)@, key, now)
            }),
    {
        let key = ClientServerPair { client: client_ip, server: ftp_server_ip };
        let ghost before = self@;
        let mut queue: VecDeque<PendingUploadInfo> = match self.pending_uploads.remove(key) {
            Some(queue) => queue,
            None => {
                assert(self@.uploads =~= before.uploads);
                return None;
            },
        };
        assert(queue_texts(queue@) =~= before.uploads[key]);
        proof {
            lemma_fresh_len(before.uploads[key], now);
        }
        drop_expired(&mut queue, now);
        let ghost waiting = queue@;
        match queue.pop_front() {
            None => {
                assert(queue_texts(queue@) =~= queue_texts(waiting));
                self.pending_uploads.insert(key, queue);
                assert(self@.uploads =~= before.uploads.insert(key, fresh(before.uploads[key], now)));
                None
            },
            Some(info) => {
                assert(queue_texts(waiting)[0] == info@);
                assert(queue_texts(queue@) =~= queue_texts(waiting).skip(1));
                if queue.len() > 0 {
                    self.pending_uploads.insert(key, queue);
                    assert(self@.uploads =~= before.uploads.insert(
                        key,
                        fresh(before.uploads[key], now).skip(1),
                    ));
                } else {
                    assert(self@.uploads =~= before.uploads.remove(key));
                }
                self.maybe_trigger_cleanup(now);
                Some(info)
            },
        }
    }

    /// Notes the domain of an FTPS server.
    pub fn mark_ftps_domain(
        &mut self,
        client_ip: IpAddr,
        ftp_server_ip: IpAddr,
        domain: &str,
        now: u128,
    )
        requires
            old(self).wf(),
        ensures
            final(self).wf(),
            final(self)@ == domain_marked(
                old(self)@,
                ClientServerPair { client: client_ip, server: ftp_server_ip },
                domain@,
                now,
            ),
    {
        let key = ClientServerPair { client: client_ip, server: ftp_server_ip };
        let ghost before = self@;
        assert(before.domains.dom() =~= self.ftps_domains@.dom());
        if self.ftps_domains.get(key).is_none() && self.ftps_domains.len() >= MAX_DOMAINS {
            return;
        }
        let entry = FtpsDomainEntry { domain: domain.to_owned(), created_at: now };
        self.ftps_domains.insert(key, entry);
        assert(self@.domains =~= before.domains.insert(key, entry@));
        self.maybe_trigger_cleanup(now);
    }

    /// The domain of an FTPS server, unless it is unknown or was noted too long ago.
    pub fn get_ftps_domain(
        &mut self,
        client_ip: IpAddr,
        ftp_server_ip: IpAddr,
        now: u128,
    ) -> (r: Option<String>)
        requires
            old(self).wf(),
        ensures
            final(self).wf(),
            ({
                let key = ClientServerPair { client: client_ip, server: ftp_server_ip };
                &&& final(self)@ == domain_read(old(self)@, key, now)
                &&& crate::text::text_of(r) == domain_at(old(self)@, key, now)
            }),
    {
        let key = ClientServerPair { client: client_ip, server: ftp_server_ip };
        let r: Option<String> = match self.ftps_domains.get(key) {
            None => {
                return None;
            },
            Some(entry) => {
                if elapsed(now, entry.created_at) >= DOMAIN_TTL {
                    None
                } else {
                    Some(entry.domain.clone())
                }
            },
        };
        self.maybe_trigger_cleanup(now);
        r
    }
}

pub open spec fn upload_text(upload: Option<PendingUploadInfo>) -> Option<UploadText> {
    match upload {
        Some(u) => Some(u@),
        None => None,
    }
}

// ---------------------------------------------------------------------------
// What data channels see
// ---------------------------------------------------------------------------

/// The uploads that wait for a pair at a time, the oldest first.
pub open spec fn waiting(s: UploadStateView, key: ClientServerPair, now: u128) -> Seq<UploadText> {
    fresh(queue_of(s, key), now)
}

/// The state after a row of uploads was marked, each at its own time.
pub open spec fn all_marked(
    s: UploadStateView,
    key: ClientServerPair,
    uploads: Seq<UploadText>,
) -> UploadStateView
    decreases uploads.len(),
{
    if uploads.len() == 0 {
        s
    } else {
        marked(
            all_marked(s, key, uploads.drop_last()),
            key,
            uploads.last(),
            uploads.last().created_at,
        )
    }
}

proof fn lemma_fresh_later(queue: Seq<UploadText>, now: u128, later: u128)
    requires
        now <= later,
    ensures
        fresh(fresh(queue, now), later) == fresh(queue, later),
    decreases queue.len(),
{
    if queue.len() > 0 && age(now, queue[0].created_at) >= UPLOAD_TTL {
        lemma_fresh_later(queue.skip(1), now, later);
    }
}

proof fn lemma_fresh_push(queue: Seq<UploadText>, upload: UploadText, now: u128)
    requires
        age(now, upload.created_at) < UPLOAD_TTL,
    ensures
        fresh(queue.push(upload), now) == fresh(queue, now).push(upload),
    decreases queue.len(),
{
    if queue.len() > 0 && age(now, queue[0].created_at) >= UPLOAD_TTL {
        assert(queue.push(upload).skip(1) =~= queue.skip(1).push(upload));
        lemma_fresh_push(queue.skip(1), upload, now);
    }
}

/// That what has expired is dropped now and then cannot be seen: at any later time the same
/// uploads wait and the same domains are known.
pub proof fn law_cleanup_is_invisible(
    s: UploadStateView,
    key: ClientServerPair,
    now: u128,
    later: u128,
)
    requires
        now <= later,
    ensures
        waiting(counted(s, now), key, later) == waiting(s, key, later),
        domain_at(counted(s, now), key, later) == domain_at(s, key, later),
{
    if s.ops + 1 >= CLEANUP_INTERVAL && s.uploads.contains_key(key) {
        lemma_fresh_later(s.uploads[key], now, later);
        let left = fresh(s.uploads[key], now);
        if left.len() == 0 {
            assert(left =~= Seq::empty());
        }
    }
}

/// A mark puts the upload behind those that wait, if its pair has room, and changes nothing for
/// any other pair. Without room it changes nothing at all.
pub proof fn law_mark_goes_to_the_end(
    s: UploadStateView,
    key: ClientServerPair,
    upload: UploadText,
    other: ClientServerPair,
    now: u128,
    later: u128,
)
    requires
        upload.created_at == now,
        other != key,
        now <= later,
    ensures
        queue_of(s, key).len() < MAX_PENDING_PER_PAIR ==> waiting(
            marked(s, key, upload, now),
            key,
            now,
        ) == waiting(s, key, now).push(upload),
        queue_of(s, key).len() >= MAX_PENDING_PER_PAIR ==> marked(s, key, upload, now) == s,
        waiting(marked(s, key, upload, now), other, later) == waiting(s, other, later),
{
    let put = UploadStateView {
        uploads: s.uploads.insert(key, queue_of(s, key).push(upload)),
        ..s
    };
    law_cleanup_is_invisible(put, key, now, now);
    law_cleanup_is_invisible(put, other, now, later);
    lemma_fresh_push(queue_of(s, key), upload, now);
}

/// A data channel gets the first of the uploads that wait for its pair, and none exactly where
/// none waits. The others go on waiting, and nothing changes for any other pair.
pub proof fn law_first_marked_is_first_consumed(
    s: UploadStateView,
    key: ClientServerPair,
    other: ClientServerPair,
    now: u128,
    later: u128,
)
    requires
        other != key,
        now <= later,
    ensures
        ({
            let (after, upload) = consumed(s, key, now);
            let queue = waiting(s, key, now);
            &&& upload is None <==> queue.len() == 0
            &&& upload matches Some(u) ==> u == queue[0] && waiting(after, key, later) == fresh(
                queue.skip(1),
                later,
            )
            &&& upload is None ==> waiting(after, key, later).len() == 0
            &&& waiting(after, other, later) == waiting(s, other, later)
        }),
{
    let queue = waiting(s, key, now);
    let empty = Seq::<UploadText>::empty();
    if !s.uploads.contains_key(key) {
    } else if queue.len() == 0 {
        assert(queue =~= empty);
    } else {
        let uploads = if queue.len() == 1 {
            s.uploads.remove(key)
        } else {
            s.uploads.insert(key, queue.skip(1))
        };
        let taken = UploadStateView { uploads, ..s };
        law_cleanup_is_invisible(taken, key, now, later);
        law_cleanup_is_invisible(taken, other, now, later);
        if queue.len() == 1 {
            assert(queue.skip(1) =~= empty);
        }
    }
}

/// Uploads that are marked for a pair for which nothing is kept, at whatever times, wait in the
/// order of their marks for as long as none of them has expired.
pub proof fn law_uploads_come_in_order(
    s: UploadStateView,
    key: ClientServerPair,
    uploads: Seq<UploadText>,
    now: u128,
)
    requires
        queue_of(s, key).len() == 0,
        uploads.len() <= MAX_PENDING_PER_PAIR,
        forall|i: int|
            0 <= i < uploads.len() ==> (#[trigger] uploads[i]).created_at <= now && age(
                now,
                uploads[i].created_at,
            ) < UPLOAD_TTL,
    ensures
        waiting(all_marked(s, key, uploads), key, now) == uploads,
        queue_of(all_marked(s, key, uploads), key) == uploads,
    decreases uploads.len(),
{
    if uploads.len() > 0 {
        let init = uploads.drop_last();
        let upload = uploads.last();
        assert forall|i: int| 0 <= i < init.len() implies (#[trigger] init[i]).created_at <= now
            && age(now, init[i].created_at) < UPLOAD_TTL by {
            assert(init[i] == uploads[i]);
        }
        law_uploads_come_in_order(s, key, init, now);
        let before = all_marked(s, key, init);
        assert(upload == uploads[uploads.len() - 1]);
        assert(init.push(upload) =~= uploads);
        assert(age(upload.created_at, uploads[0].created_at) < UPLOAD_TTL);
        assert(fresh(uploads, upload.created_at) == uploads);
    } else {
        assert(queue_of(s, key) =~= uploads);
    }
}

/// An upload that has expired is never handed out, nor a domain.
pub proof fn law_expired_is_never_handed_out(
    s: UploadStateView,
    key: ClientServerPair,
    now: u128,
)
    ensures
        consumed(s, key, now).1 matches Some(u) ==> age(now, u.created_at) < UPLOAD_TTL,
        s.domains.contains_key(key) && age(now, s.domains[key].created_at) >= DOMAIN_TTL
            ==> domain_at(s, key, now) is None,
{
    if s.uploads.contains_key(key) {
        lemma_fresh_len(s.uploads[key], now);
    }
}

/// A domain that was noted is known until it expires, and no longer; what is known of other
/// pairs does not change.
pub proof fn law_domain_is_remembered(
    s: UploadStateView,
    key: ClientServerPair,
    other: ClientServerPair,
    domain: Seq<char>,
    now: u128,
    later: u128,
)
    requires
        other != key,
        now <= later,
        s.domains.contains_key(key) || s.domains.dom().len() < MAX_DOMAINS,
    ensures
        domain_at(domain_marked(s, key, domain, now), key, later) == if later - now < DOMAIN_TTL {
            Some(domain)
        } else {
            None
        },
        domain_at(domain_marked(s, key, domain, now), other, later) == domain_at(s, other, later),
{
    let put = UploadStateView {
        domains: s.domains.insert(key, DomainText { domain, created_at: now }),
        ..s
    };
    law_cleanup_is_invisible(put, key, now, later);
    law_cleanup_is_invisible(put, other, now, later);
}

// ---------------------------------------------------------------------------
// The limits
// ---------------------------------------------------------------------------

proof fn lemma_fresh_is(queue: Seq<UploadText>, i: int, now: u128)
    requires
        0 <= i <= queue.len(),
        forall|j: int|
            0 <= j < i ==> (#[trigger] queue[j]).created_at <= now && now - queue[j].created_at
                >= 120_000_000_000,
        i < queue.len() ==> queue[i].created_at > now || now - queue[i].created_at
            < 120_000_000_000,
    ensures
        fresh(queue, now) == queue.skip(i),
    decreases i,
{
    if i > 0 {
        assert(now - queue[0].created_at >= 120_000_000_000);
        let rest = queue.skip(1);
        assert forall|j: int| 0 <= j < i - 1 implies (#[trigger] rest[j]).created_at <= now && now
            - rest[j].created_at >= 120_000_000_000 by {
            assert(rest[j] == queue[j + 1]);
        }
        lemma_fresh_is(rest, i - 1, now);
        assert(rest.skip(i - 1) =~= queue.skip(i));
    } else {
        assert(queue.skip(0) =~= queue);
    }
}

/// A data channel gets the first upload of its pair that was marked less than two minutes ago, of
/// however many were marked before it; where all of them are older, it gets none.
pub proof fn law_first_fresh_upload_is_consumed(
    s: UploadStateView,
    key: ClientServerPair,
    i: int,
    now: u128,
)
    requires
        0 <= i <= queue_of(s, key).len(),
        forall|j: int|
            0 <= j < i ==> (#[trigger] queue_of(s, key)[j]).created_at <= now && now - queue_of(
                s,
                key,
            )[j].created_at >= 120_000_000_000,
        i < queue_of(s, key).len() ==> queue_of(s, key)[i].created_at > now || now - queue_of(
            s,
            key,
        )[i].created_at < 120_000_000_000,
    ensures
        i < queue_of(s, key).len() ==> consumed(s, key, now).1 == Some(queue_of(s, key)[i]),
        i == queue_of(s, key).len() ==> consumed(s, key, now).1 is None,
        waiting(s, key, now) == queue_of(s, key).skip(i),
{
    lemma_fresh_is(queue_of(s, key), i, now);
}

/// An upload is marked for its pair alone, and not where sixteen wait already.
pub proof fn law_sixteen_uploads_may_wait(
    s: UploadStateView,
    key: ClientServerPair,
    upload: UploadText,
    now: u128,
)
    requires
        upload.created_at == now,
    ensures
        queue_of(s, key).len() >= 16 ==> marked(s, key, upload, now) == s,
        queue_of(s, key).len() < 16 ==> waiting(marked(s, key, upload, now), key, now) == waiting(
            s,
            key,
            now,
        ).push(upload),
        bounded(s) ==> queue_of(s, key).len() <= 16 && s.domains.dom().len() <= 4096,
{
    let put = UploadStateView {
        uploads: s.uploads.insert(key, queue_of(s, key).push(upload)),
        ..s
    };
    law_cleanup_is_invisible(put, key, now, now);
    lemma_fresh_push(queue_of(s, key), upload, now);
}

/// Marks and domains are kept apart: what is done with one of them cannot be seen in the other, and
/// a lookup of a domain cannot be seen at all.
pub proof fn law_marks_and_domains_are_apart(
    s: UploadStateView,
    key: ClientServerPair,
    any: ClientServerPair,
    upload: UploadText,
    domain: Seq<char>,
    now: u128,
    later: u128,
)
    requires
        now <= later,
    ensures
        domain_at(marked(s, key, upload, now), any, later) == domain_at(s, any, later),
        domain_at(consumed(s, key, now).0, any, later) == domain_at(s, any, later),
        waiting(domain_marked(s, key, domain, now), any, later) == waiting(s, any, later),
        waiting(domain_read(s, key, now), any, later) == waiting(s, any, later),
        domain_at(domain_read(s, key, now), any, later) == domain_at(s, any, later),
{
    law_cleanup_is_invisible(s, any, now, later);
    let put = UploadStateView {
        uploads: s.uploads.insert(key, queue_of(s, key).push(upload)),
        ..s
    };
    law_cleanup_is_invisible(put, any, now, later);
    let noted = UploadStateView {
        domains: s.domains.insert(key, DomainText { domain, created_at: now }),
        ..s
    };
    law_cleanup_is_invisible(noted, any, now, later);
    if s.uploads.contains_key(key) {
        let queue = fresh(s.uploads[key], now);
        let taken = UploadStateView {
            uploads: if queue.len() == 1 {
                s.uploads.remove(key)
            } else {
                s.uploads.insert(key, queue.skip(1))
            },
            ..s
        };
        law_cleanup_is_invisible(taken, any, now, later);
    }
}

/// A domain is known for one hour. No new one is noted where 4096 are remembered.
pub proof fn law_domains_are_known_for_an_hour(
    s: UploadStateView,
    key: ClientServerPair,
    domain: Seq<char>,
    now: u128,
    later: u128,
)
    ensures
        s.domains.contains_key(key) ==> domain_at(s, key, now) == if s.domains[key].created_at
            <= now && now - s.domains[key].created_at >= 3_600_000_000_000 {
            None
        } else {
            Some(s.domains[key].domain)
        },
        !s.domains.contains_key(key) ==> domain_at(s, key, now) is None,
        !s.domains.contains_key(key) && s.domains.dom().len() >= 4096 ==> domain_marked(
            s,
            key,
            domain,
            now,
        ) == s,
        now <= later && (s.domains.contains_key(key) || s.domains.dom().len() < 4096)
            ==> domain_at(domain_marked(s, key, domain, now), key, later) == if later - now
            < 3_600_000_000_000 {
            Some(domain)
        } else {
            None
        },
{
    if now <= later {
        let put = UploadStateView {
            domains: s.domains.insert(key, DomainText { domain, created_at: now }),
            ..s
        };
        law_cleanup_is_invisible(put, key, now, later);
    }
}

/// What has expired is not kept for ever: with every thousandth operation, no queue is left of which
/// all uploads have expired, and no domain that has.
pub proof fn law_expired_is_dropped(s: UploadStateView, key: ClientServerPair, now: u128)
    ensures
        s.ops + 1 >= 1000 ==> {
            &&& counted(s, now).ops == 0
            &&& counted(s, now).domains.contains_key(key) <==> domain_at(s, key, now) is Some
            &&& counted(s, now).uploads.contains_key(key) <==> waiting(s, key, now).len() > 0
            &&& counted(s, now).uploads.contains_key(key) ==> counted(s, now).uploads[key]
                == waiting(s, key, now)
        },
        s.ops + 1 < 1000 ==> counted(s, now) == (UploadStateView { ops: s.ops + 1, ..s }),
{
}

/// Every mark that is taken, every upload that is handed out and every domain that is noted or found
/// counts as an operation.
pub proof fn law_operations_are_counted(
    s: UploadStateView,
    key: ClientServerPair,
    upload: UploadText,
    domain: Seq<char>,
    now: u128,
)
    requires
        s.ops + 1 < 1000,
    ensures
        queue_of(s, key).len() < 16 ==> marked(s, key, upload, now).ops == s.ops + 1,
        consumed(s, key, now).1 is Some ==> consumed(s, key, now).0.ops == s.ops + 1,
        consumed(s, key, now).1 is None ==> consumed(s, key, now).0.ops == s.ops,
        s.domains.contains_key(key) ==> domain_marked(s, key, domain, now).ops == s.ops + 1
            && domain_read(s, key, now).ops == s.ops + 1,
        !s.domains.contains_key(key) ==> domain_read(s, key, now) == s,
{
}

} // verus!
