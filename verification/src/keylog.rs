//! TLS key log lines in the NSS format, collected for one connection.
//!
//! A line reads `<Label> <ClientRandom> <Secret>`. The number of entries that a connection may
//! collect is bounded.

use crate::text;
use crate::text::{char_vec, next_word};
use vstd::prelude::*;
use vstd::string::*;

verus! {

/// The most entries that one connection may collect.
pub const MAX_KEYLOG_ENTRIES_PER_CONNECTION: usize = 128;

/// A TLS version, by the name under which it is reported.
#[derive(Clone, Copy, Debug)]
pub struct TlsVersion {
    pub name: &'static str,
}

impl TlsVersion {
    pub fn as_str(&self) -> (r: &'static str)
        ensures
            r@ == self.name@,
    {
        self.name
    }
}

/// One key log entry.
#[derive(Clone, Debug)]
pub struct TlsKeyLogEntry {
    /// The kind of the key, such as `CLIENT_RANDOM`.
    pub label: String,
    /// The client random, in hexadecimal.
    pub client_random: String,
    /// The secret, in hexadecimal.
    pub secret: String,
}

/// The texts of an entry.
#[verifier::ext_equal]
pub struct EntryText {
    pub label: Seq<char>,
    pub client_random: Seq<char>,
    pub secret: Seq<char>,
}

impl View for TlsKeyLogEntry {
    type V = EntryText;

    open spec fn view(&self) -> EntryText {
        EntryText {
            label: self.label@,
            client_random: self.client_random@,
            secret: self.secret@,
        }
    }
}

/// The line of an entry: its three texts with single spaces between them.
pub open spec fn keylog_line(e: EntryText) -> Seq<char> {
    e.label + " "@ + e.client_random + " "@ + e.secret
}

/// The entry in a line: its first three words.
pub open spec fn line_entry(line: Seq<char>) -> Option<EntryText> {
    let w = text::words(line, 0);
    if w.len() >= 3 {
        Some(EntryText { label: w[0], client_random: w[1], secret: w[2] })
    } else {
        None
    }
}

/// A text that is one word: not empty, and without white space.
pub open spec fn is_word(s: Seq<char>) -> bool {
    s.len() > 0 && forall|i: int| 0 <= i < s.len() ==> !text::white_space(#[trigger] s[i])
}

impl TlsKeyLogEntry {
    pub fn new(label: String, client_random: String, secret: String) -> (r: TlsKeyLogEntry)
        ensures
            r.label == label,
            r.client_random == client_random,
            r.secret == secret,
    {
        TlsKeyLogEntry { label, client_random, secret }
    }

    /// Reads a line; what follows the third word is not looked at.
    pub fn parse(line: &str) -> (r: Option<TlsKeyLogEntry>)
        ensures
            match r {
                Some(e) => line_entry(line@) == Some(e@),
                None => line_entry(line@) is None,
            },
    {
        let v = char_vec(line);
        proof {
            text::lemma_words_next(line@, 0);
        }
        let (i0, e0) = match next_word(v.as_slice(), 0) {
            None => {
                return None;
            },
            Some(w) => w,
        };
        proof {
            text::lemma_words_next(line@, e0 as int);
        }
        let (i1, e1) = match next_word(v.as_slice(), e0) {
            None => {
                return None;
            },
            Some(w) => w,
        };
        proof {
            text::lemma_words_next(line@, e1 as int);
        }
        let (i2, e2) = match next_word(v.as_slice(), e1) {
            None => {
                return None;
            },
            Some(w) => w,
        };
        let r = TlsKeyLogEntry {
            label: line.substring_char(i0, e0).to_owned(),
            client_random: line.substring_char(i1, e1).to_owned(),
            secret: line.substring_char(i2, e2).to_owned(),
        };
        Some(r)
    }

    /// The entry as a line.
    pub fn to_keylog_line(&self) -> (r: String)
        ensures
            r@ == keylog_line(self@),
    {
        let mut line = self.label.clone();
        line.append(" ");
        line.append(self.client_random.as_str());
        line.append(" ");
        line.append(self.secret.as_str());
        line
    }

    fn duplicate(&self) -> (r: TlsKeyLogEntry)
        ensures
            r@ == self@,
    {
        TlsKeyLogEntry {
            label: self.label.clone(),
            client_random: self.client_random.clone(),
            secret: self.secret.clone(),
        }
    }
}

proof fn lemma_word_end_is(s: Seq<char>, from: int, e: int)
    requires
        0 <= from <= e <= s.len(),
        forall|j: int| from <= j < e ==> !text::white_space(#[trigger] s[j]),
        e < s.len() ==> text::white_space(s[e]),
    ensures
        text::word_end(s, from) == e,
    decreases e - from,
{
    if from < e {
        lemma_word_end_is(s, from + 1, e);
    }
}

proof fn lemma_line_words(a: Seq<char>, b: Seq<char>, c: Seq<char>)
    requires
        is_word(a),
        is_word(b),
        is_word(c),
    ensures
        text::words(a + " "@ + b + " "@ + c, 0) == seq![a, b, c],
{
    reveal_strlit(" ");
    let s = a + " "@ + b + " "@ + c;
    let e0 = a.len() as int;
    let i1 = e0 + 1;
    let e1 = i1 + b.len();
    let i2 = e1 + 1;
    let e2 = i2 + c.len();
    assert(s.len() == e2);
    assert forall|j: int| 0 <= j < e0 implies !text::white_space(#[trigger] s[j]) by {
        assert(s[j] == a[j]);
    }
    assert(s[e0] == ' ');
    assert forall|j: int| i1 <= j < e1 implies !text::white_space(#[trigger] s[j]) by {
        assert(s[j] == b[j - i1]);
    }
    assert(s[e1] == ' ');
    assert forall|j: int| i2 <= j < e2 implies !text::white_space(#[trigger] s[j]) by {
        assert(s[j] == c[j - i2]);
    }
    lemma_word_end_is(s, 0, e0);
    lemma_word_end_is(s, i1, e1);
    lemma_word_end_is(s, i2, e2);
    assert(text::words(s, e2) =~= Seq::<Seq<char>>::empty());
    assert(!text::white_space(s[i2]));
    assert(text::words(s, i2) == seq![s.subrange(i2, e2)] + text::words(s, e2));
    assert(text::words(s, e1) == text::words(s, e1 + 1));
    assert(!text::white_space(s[i1]));
    assert(text::words(s, i1) == seq![s.subrange(i1, e1)] + text::words(s, e1));
    assert(text::words(s, e0) == text::words(s, e0 + 1));
    assert(!text::white_space(s[0]));
    assert(text::words(s, 0) == seq![s.subrange(0, e0)] + text::words(s, e0));
    assert(s.subrange(0, e0) =~= a);
    assert(s.subrange(i1, e1) =~= b);
    assert(s.subrange(i2, e2) =~= c);
    assert(text::words(s, 0) =~= seq![a, b, c]);
}

/// An entry whose texts are words is read back from its line.
pub proof fn law_line_is_read_back(e: EntryText)
    requires
        is_word(e.label),
        is_word(e.client_random),
        is_word(e.secret),
    ensures
        line_entry(keylog_line(e)) == Some(e),
{
    lemma_line_words(e.label, e.client_random, e.secret);
}

proof fn lemma_words_are_words(s: Seq<char>, from: int)
    requires
        0 <= from <= s.len(),
    ensures
        forall|i: int|
            0 <= i < text::words(s, from).len() ==> is_word(#[trigger] text::words(s, from)[i]),
    decreases s.len() - from,
{
    if from < s.len() {
        if text::white_space(s[from]) {
            lemma_words_are_words(s, from + 1);
            assert(text::words(s, from) == text::words(s, from + 1));
        } else {
            let e = text::word_end(s, from);
            text::lemma_word_end(s, from);
            lemma_words_are_words(s, e);
            let w = s.subrange(from, e);
            assert(text::words(s, from) == seq![w] + text::words(s, e));
            assert forall|i: int| 0 <= i < w.len() implies !text::white_space(
                #[trigger] w[i],
            ) by {
                assert(w[i] == s[from + i]);
            }
            assert forall|i: int| 0 <= i < text::words(s, from).len() implies is_word(
                #[trigger] text::words(s, from)[i],
            ) by {
                if i > 0 {
                    assert(text::words(s, from)[i] == text::words(s, e)[i - 1]);
                }
            }
        }
    }
}

/// The texts of an entry that was read from a line are words, so the entry's own line reads back
/// as the same entry.
pub proof fn law_parsed_entries_are_words(line: Seq<char>)
    ensures
        line_entry(line) matches Some(e) ==> is_word(e.label) && is_word(e.client_random)
            && is_word(e.secret) && line_entry(keylog_line(e)) == Some(e),
{
    lemma_words_are_words(line, 0);
    if let Some(e) = line_entry(line) {
        law_line_is_read_back(e);
    }
}

// ---------------------------------------------------------------------------
// The buffer of a connection
// ---------------------------------------------------------------------------

/// The key log of one connection.
#[derive(Debug)]
pub struct TlsKeyLogBuffer {
    entries: Vec<TlsKeyLogEntry>,
    max_entries: usize,
    tls_version: Option<TlsVersion>,
    cipher_suite: Option<u16>,
    server_random: Option<String>,
}

/// What a key log buffer holds.
#[verifier::ext_equal]
pub struct KeyLogContents {
    pub entries: Seq<EntryText>,
    pub max_entries: nat,
    pub tls_version: Option<TlsVersion>,
    pub cipher_suite: Option<u16>,
    pub server_random: Option<Seq<char>>,
}

/// An empty key log for at most `max_entries` entries.
pub open spec fn empty_keylog(max_entries: nat) -> KeyLogContents {
    KeyLogContents {
        entries: Seq::empty(),
        max_entries,
        tls_version: None,
        cipher_suite: None,
        server_random: None,
    }
}
/// The bound on the entries where `max_entries` are asked for.
pub open spec fn entry_bound(max_entries: usize) -> nat {
    if max_entries < MAX_KEYLOG_ENTRIES_PER_CONNECTION {
        max_entries as nat
    } else {
        MAX_KEYLOG_ENTRIES_PER_CONNECTION as nat
    }
}

/// The header of an entry: its name is `X-TLS-` and the label, its value the client random, a
/// space and the secret.
pub open spec fn entry_header(e: EntryText) -> (Seq<char>, Seq<char>) {
    ("X-TLS-"@ + e.label, e.client_random + " "@ + e.secret)
}

/// The entries as views.
pub open spec fn entry_texts(v: Seq<TlsKeyLogEntry>) -> Seq<EntryText> {
    Seq::new(v.len(), |i: int| v[i]@)
}

impl View for TlsKeyLogBuffer {
    type V = KeyLogContents;

    closed spec fn view(&self) -> KeyLogContents {
        KeyLogContents {
            entries: entry_texts(self.entries@),
            max_entries: self.max_entries as nat,
            tls_version: self.tls_version,
            cipher_suite: self.cipher_suite,
            server_random: text::text_of(self.server_random),
        }
    }
}

impl TlsKeyLogBuffer {
    /// No more entries are held than the buffer allows, and it allows no more than a connection
    /// may collect.
    pub open spec fn wf(self) -> bool {
        self@.entries.len() <= self@.max_entries <= MAX_KEYLOG_ENTRIES_PER_CONNECTION
    }

    /// An empty buffer for as many entries as a connection may collect.
    pub fn new_empty() -> (r: TlsKeyLogBuffer)
        ensures
            r.wf(),
            r@ == empty_keylog(MAX_KEYLOG_ENTRIES_PER_CONNECTION as nat),
    {
        let r = TlsKeyLogBuffer {
            entries: Vec::with_capacity(MAX_KEYLOG_ENTRIES_PER_CONNECTION),
            max_entries: MAX_KEYLOG_ENTRIES_PER_CONNECTION,
            tls_version: None,
            cipher_suite: None,
            server_random: None,
        };
        assert(r@ =~= empty_keylog(MAX_KEYLOG_ENTRIES_PER_CONNECTION as nat));
        r
    }

    /// An empty buffer for at most `max_entries` entries, and never more than a connection may
    /// collect.
    pub fn new_with_max(max_entries: usize) -> (r: TlsKeyLogBuffer)
        ensures
            r.wf(),
            r@ == empty_keylog(entry_bound(max_entries)),
    {
        let max: usize = if max_entries < MAX_KEYLOG_ENTRIES_PER_CONNECTION {
            max_entries
        } else {
            MAX_KEYLOG_ENTRIES_PER_CONNECTION
        };
        let r = TlsKeyLogBuffer {
            entries: Vec::with_capacity(max),
            max_entries: max,
            tls_version: None,
            cipher_suite: None,
            server_random: None,
        };
        assert(r@ =~= empty_keylog(max as nat));
        r
    }

    /// An empty buffer; the client random is not kept.
    pub fn new(_client_random: String) -> (r: TlsKeyLogBuffer)
        ensures
            r.wf(),
            r@ == empty_keylog(MAX_KEYLOG_ENTRIES_PER_CONNECTION as nat),
    {
        TlsKeyLogBuffer::new_empty()
    }

    /// An empty buffer for at most `max_entries` entries; the client random is not kept.
    pub fn with_max_entries(_client_random: String, max_entries: usize) -> (r: TlsKeyLogBuffer)
        ensures
            r.wf(),
            r@ == empty_keylog(entry_bound(max_entries)),
    {
        TlsKeyLogBuffer::new_with_max(max_entries)
    }

    /// Sets the negotiated TLS version.
    pub fn set_tls_version(&mut self, version: TlsVersion)
        requires
            old(self).wf(),
        ensures
            final(self).wf(),
            final(self)@ == (KeyLogContents { tls_version: Some(version), ..old(self)@ }),
    {
        self.tls_version = Some(version);
    }

    /// The negotiated TLS version.
    pub fn tls_version(&self) -> (r: Option<TlsVersion>)
        ensures
            r == self@.tls_version,
    {
        self.tls_version
    }

    /// Sets the negotiated cipher suite.
    pub fn set_cipher_suite(&mut self, cipher: u16)
        requires
            old(self).wf(),
        ensures
            final(self).wf(),
            final(self)@ == (KeyLogContents { cipher_suite: Some(cipher), ..old(self)@ }),
    {
        self.cipher_suite = Some(cipher);
    }

    /// The negotiated cipher suite.
    pub fn cipher_suite(&self) -> (r: Option<u16>)
        ensures
            r == self@.cipher_suite,
    {
        self.cipher_suite
    }

    /// Sets the server random.
    pub fn set_server_random(&mut self, random: String)
        requires
            old(self).wf(),
        ensures
            final(self).wf(),
            final(self)@ == (KeyLogContents { server_random: Some(random@), ..old(self)@ }),
    {
        self.server_random = Some(random);
    }

    /// The server random.
    pub fn server_random(&self) -> (r: Option<String>)
        ensures
            text::text_of(r) == self@.server_random,
    {
        match &self.server_random {
            Some(s) => Some(s.clone()),
            None => None,
        }
    }

    /// Adds an entry; a full buffer refuses it.
    pub fn add_entry(&mut self, entry: TlsKeyLogEntry) -> (added: bool)
        requires
            old(self).wf(),
        ensures
            final(self).wf(),
            added == (old(self)@.entries.len() < old(self)@.max_entries),
            final(self)@ == offered(old(self)@, entry@),
    {
        if self.entries.len() >= self.max_entries {
            return false;
        }
        self.entries.push(entry);
        assert(self@.entries =~= old(self)@.entries.push(entry@));
        true
    }

    /// Adds an entry by its parts; a full buffer refuses it.
    pub fn add(&mut self, label: String, client_random: String, secret: String) -> (added: bool)
        requires
            old(self).wf(),
        ensures
            final(self).wf(),
            added == (old(self)@.entries.len() < old(self)@.max_entries),
            final(self)@ == offered(
                old(self)@,
                EntryText { label: label@, client_random: client_random@, secret: secret@ },
            ),
    {
        self.add_entry(TlsKeyLogEntry::new(label, client_random, secret))
    }

    /// The client random of the first entry; empty without entries.
    pub fn client_random(&self) -> (r: String)
        ensures
            r@ == if self@.entries.len() > 0 {
                self@.entries[0].client_random
            } else {
                Seq::<char>::empty()
            },
    {
        if self.entries.len() > 0 {
            self.entries[0].client_random.clone()
        } else {
            String::new()
        }
    }

    /// All entries, in the order in which they were added.
    pub fn entries(&self) -> (r: Vec<TlsKeyLogEntry>)
        ensures
            entry_texts(r@) == self@.entries,
    {
        let mut r: Vec<TlsKeyLogEntry> = Vec::new();
        let mut i: usize = 0;
        while i < self.entries.len()
            invariant
                i <= self.entries@.len(),
                r@.len() == i,
                forall|j: int| 0 <= j < i ==> (#[trigger] r@[j])@ == self.entries@[j]@,
            decreases self.entries@.len() - i,
        {
            r.push(self.entries[i].duplicate());
            i += 1;
        }
        assert(entry_texts(r@) =~= self@.entries);
        r
    }

    /// All entries as header names and values.
    pub fn to_icap_headers(&self) -> (r: Vec<(String, String)>)
        ensures
            r@.len() == self@.entries.len(),
            forall|i: int|
                0 <= i < r@.len() ==> ((#[trigger] r@[i]).0@, r@[i].1@) == entry_header(
                    self@.entries[i],
                ),
    {
        let mut r: Vec<(String, String)> = Vec::new();
        let mut i: usize = 0;
        while i < self.entries.len()
            invariant
                i <= self.entries@.len(),
                r@.len() == i,
                forall|j: int|
                    0 <= j < i ==> ((#[trigger] r@[j]).0@, r@[j].1@) == entry_header(
                        self.entries@[j]@,
                    ),
            decreases self.entries@.len() - i,
        {
            let e = &self.entries[i];
            let mut name = "X-TLS-".to_owned();
            name.append(e.label.as_str());
            let mut value = e.client_random.clone();
            value.append(" ");
            value.append(e.secret.as_str());
            r.push((name, value));
            i += 1;
        }
        r
    }

    /// The number of entries.
    pub fn len(&self) -> (r: usize)
        ensures
            r == self@.entries.len(),
    {
        self.entries.len()
    }

    /// Whether there are no entries.
    pub fn is_empty(&self) -> (r: bool)
        ensures
            r == (self@.entries.len() == 0),
    {
        self.entries.len() == 0
    }

    /// Removes all entries; what else was set stays.
    pub fn clear(&mut self)
        requires
            old(self).wf(),
        ensures
            final(self).wf(),
            final(self)@ == (KeyLogContents { entries: Seq::empty(), ..old(self)@ }),
    {
        self.entries.clear();
        assert(self@.entries =~= Seq::<EntryText>::empty());
    }
}

/// A key log after an entry was offered to it.
pub open spec fn offered(c: KeyLogContents, e: EntryText) -> KeyLogContents {
    if c.entries.len() < c.max_entries {
        KeyLogContents { entries: c.entries.push(e), ..c }
    } else {
        c
    }
}

/// A key log after entries were offered to it one by one.
pub open spec fn offered_all(c: KeyLogContents, es: Seq<EntryText>) -> KeyLogContents
    decreases es.len(),
{
    if es.len() == 0 {
        c
    } else {
        offered(offered_all(c, es.drop_last()), es.last())
    }
}

/// A buffer holds the entries that came first, in their order, up to its bound; later ones are
/// refused and displace nothing.
pub proof fn law_first_entries_are_kept(max_entries: nat, es: Seq<EntryText>)
    ensures
        ({
            let c = offered_all(empty_keylog(max_entries), es);
            &&& c.max_entries == max_entries
            &&& c.entries == if es.len() <= max_entries {
                es
            } else {
                es.take(max_entries as int)
            }
        }),
    decreases es.len(),
{
    if es.len() == 0 {
        assert(es =~= Seq::<EntryText>::empty());
    } else {
        law_first_entries_are_kept(max_entries, es.drop_last());
        let before = offered_all(empty_keylog(max_entries), es.drop_last());
        if es.len() <= max_entries {
            assert(es.drop_last().push(es.last()) =~= es);
        } else if es.len() == max_entries + 1 {
            assert(es.drop_last() =~= es.take(max_entries as int));
        } else {
            assert(es.drop_last().take(max_entries as int) =~= es.take(max_entries as int));
        }
    }
}

// ---------------------------------------------------------------------------
// What lines and buffers are for
// ---------------------------------------------------------------------------

/// A line holds the label, the client random and the secret, in this order, with single spaces
/// between them.
pub proof fn law_line_of_an_entry(e: EntryText)
    ensures
        ({
            let line = keylog_line(e);
            let a = e.label.len() as int;
            let b = a + 1 + e.client_random.len();
            &&& line.len() == b + 1 + e.secret.len()
            &&& line.take(a) == e.label
            &&& line[a] == ' '
            &&& line.subrange(a + 1, b) == e.client_random
            &&& line[b] == ' '
            &&& line.skip(b + 1) == e.secret
        }),
{
    reveal_strlit(" ");
    let line = keylog_line(e);
    let a = e.label.len() as int;
    let b = a + 1 + e.client_random.len();
    assert(line.take(a) =~= e.label);
    assert(line.subrange(a + 1, b) =~= e.client_random);
    assert(line.skip(b + 1) =~= e.secret);
}

/// A line is read by its first three words, whatever white space stands around them and whatever
/// follows. A line with fewer words holds no entry.
pub proof fn law_first_three_words_are_read(
    before: Seq<char>,
    e: EntryText,
    space: Seq<char>,
    more: Seq<char>,
    rest: Seq<char>,
)
    requires
        text::blank_text(before),
        text::blank_text(space),
        text::blank_text(more),
        space.len() > 0,
        more.len() > 0,
        text::one_word(e.label),
        text::one_word(e.client_random),
        text::one_word(e.secret),
        rest.len() > 0 ==> text::white_space(rest[0]),
    ensures
        line_entry(
            before + e.label + (space + e.client_random + (more + e.secret + rest)),
        ) == Some(e),
        line_entry(before + e.label + (space + e.client_random + more)) is None,
        line_entry(before + e.label + space) is None,
        line_entry(before) is None,
{
    let third = more + e.secret + rest;
    let second = space + e.client_random + third;
    assert(third[0] == more[0]);
    assert(second[0] == space[0]);
    text::law_words(more, e.secret, rest);
    text::law_words(space, e.client_random, third);
    text::law_words(before, e.label, second);
    let w = text::words(before + e.label + second, 0);
    assert(w[0] == e.label && w[1] == e.client_random && w[2] == e.secret);
    let short = space + e.client_random + more;
    assert(short[0] == space[0]);
    text::law_words(space, e.client_random, more);
    text::law_words(before, e.label, short);
    text::law_words(before, e.label, space);
}

/// The header of an entry is named by its label, and its value is the client random and the secret
/// with a space between them.
pub proof fn law_header_of_an_entry(e: EntryText)
    ensures
        entry_header(e).0.take(6) == "X-TLS-"@,
        entry_header(e).0.skip(6) == e.label,
        entry_header(e).1.len() == e.client_random.len() + 1 + e.secret.len(),
        entry_header(e).1.take(e.client_random.len() as int) == e.client_random,
        entry_header(e).1[e.client_random.len() as int] == ' ',
        entry_header(e).1.skip(e.client_random.len() as int + 1) == e.secret,
{
    reveal_strlit("X-TLS-");
    reveal_strlit(" ");
    assert(entry_header(e).0.take(6) =~= "X-TLS-"@);
    assert(entry_header(e).0.skip(6) =~= e.label);
    assert(entry_header(e).1.take(e.client_random.len() as int) =~= e.client_random);
    assert(entry_header(e).1.skip(e.client_random.len() as int + 1) =~= e.secret);
}

/// A buffer holds as many entries as are asked for, and never more than 128; it begins empty, and
/// with nothing known of the connection.
pub proof fn law_buffers_are_bounded(max_entries: usize, max: nat)
    ensures
        entry_bound(max_entries) == if max_entries <= 128 {
            max_entries as nat
        } else {
            128
        },
        empty_keylog(max).entries.len() == 0,
        empty_keylog(max).max_entries == max,
        empty_keylog(max).tls_version is None,
        empty_keylog(max).cipher_suite is None,
        empty_keylog(max).server_random is None,
{
}

/// An entry that is offered changes nothing that is known of the connection.
pub proof fn law_entries_change_nothing_else(c: KeyLogContents, e: EntryText)
    ensures
        offered(c, e) == (KeyLogContents { entries: offered(c, e).entries, ..c }),
        c.entries.len() < c.max_entries ==> offered(c, e).entries == c.entries.push(e),
        c.entries.len() >= c.max_entries ==> offered(c, e).entries == c.entries,
{
}

} // verus!
