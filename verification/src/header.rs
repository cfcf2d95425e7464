//! The headers that an ICAP request carries about the client, the connection and its TLS keys.

use crate::keylog::TlsKeyLogBuffer;
use crate::net::SocketAddr;
use crate::outside::{base64_encode, put_slice};
use crate::reqmod::ConnectionTuple;
use crate::text;
use crate::text::push_decimal;
use vstd::prelude::*;
use vstd::string::*;
use vstd::utf8::*;

verus! {

/// A header line: the name, a colon, a space, the value and a line end.
pub open spec fn header(name: Seq<char>, value: Seq<u8>) -> Seq<u8> {
    encode_utf8(name) + encode_utf8(": "@) + value + encode_utf8("\r\n"@)
}

/// Appends a header line.
pub fn push_header(buf: &mut Vec<u8>, name: &str, value: &[u8])
    ensures
        final(buf)@ == old(buf)@ + header(name@, value@),
{
    put_slice(buf, name.as_bytes());
    put_slice(buf, ": ".as_bytes());
    put_slice(buf, value);
    put_slice(buf, "\r\n".as_bytes());
    assert(buf@ =~= old(buf)@ + header(name@, value@));
}

fn push_number_header(buf: &mut Vec<u8>, name: &str, n: u64)
    ensures
        final(buf)@ == old(buf)@ + header(name@, text::decimal(n as nat)),
{
    let mut value: Vec<u8> = Vec::new();
    push_decimal(&mut value, n);
    assert(value@ =~= text::decimal(n as nat));
    push_header(buf, name, value.as_slice());
}

fn push_ip_header(buf: &mut Vec<u8>, name: &str, addr: &SocketAddr)
    ensures
        final(buf)@ == old(buf)@ + header(name@, crate::net::ip_text(addr.ip)),
{
    let mut value: Vec<u8> = Vec::new();
    addr.ip.push_text(&mut value);
    assert(value@ =~= crate::net::ip_text(addr.ip));
    push_header(buf, name, value.as_slice());
}

/// The headers of a connection tuple.
pub open spec fn tuple_headers(tuple: ConnectionTuple) -> Seq<u8> {
    header("X-Proxy-IP"@, crate::net::ip_text(tuple.server_addr.ip)) + header(
        "X-Proxy-PORT"@,
        text::decimal(tuple.server_addr.port as nat),
    ) + header("X-Remote-IP"@, crate::net::ip_text(tuple.remote_addr.ip)) + header(
        "X-Remote-PORT"@,
        text::decimal(tuple.remote_addr.port as nat),
    ) + header("X-Proto-P"@, text::decimal(tuple.protocol.assigned() as nat))
}

/// Appends the headers of a connection tuple.
pub fn add_connection_tuple(buf: &mut Vec<u8>, tuple: &ConnectionTuple)
    ensures
        final(buf)@ == old(buf)@ + tuple_headers(*tuple),
{
    push_ip_header(buf, "X-Proxy-IP", &tuple.server_addr);
    push_number_header(buf, "X-Proxy-PORT", tuple.server_addr.port as u64);
    push_ip_header(buf, "X-Remote-IP", &tuple.remote_addr);
    push_number_header(buf, "X-Remote-PORT", tuple.remote_addr.port as u64);
    push_number_header(buf, "X-Proto-P", tuple.protocol.number() as u64);
    assert(buf@ =~= old(buf)@ + tuple_headers(*tuple));
}

/// The headers of the first `n` entries of a key log: the line of each in a header of its own.
pub open spec fn entry_headers(entries: Seq<crate::keylog::EntryText>, n: int) -> Seq<u8>
    decreases n,
{
    if n <= 0 {
        Seq::empty()
    } else {
        entry_headers(entries, n - 1) + header(
            "X-TLS-KeyLog"@,
            encode_utf8(crate::keylog::keylog_line(entries[n - 1])),
        )
    }
}

/// The headers of a key log: the version, the cipher suite and the server random, as far as they
/// are known, and one header for each entry. A key log without entries has none.
pub open spec fn keylog_headers(c: crate::keylog::KeyLogContents) -> Seq<u8> {
    if c.entries.len() == 0 {
        Seq::empty()
    } else {
        (match c.tls_version {
            Some(version) => header("X-TLS-VERSION"@, encode_utf8(version.name@)),
            None => Seq::empty(),
        }) + (match c.cipher_suite {
            Some(cipher) => header("X-TLS-CIPHER"@, text::decimal(cipher as nat)),
            None => Seq::empty(),
        }) + (match c.server_random {
            Some(random) => header("X-TLS-SERVER_RANDOM"@, encode_utf8(random)),
            None => Seq::empty(),
        }) + entry_headers(c.entries, c.entries.len() as int)
    }
}

/// Appends the headers of a key log.
pub fn add_keylog_headers(buf: &mut Vec<u8>, keylog: &TlsKeyLogBuffer)
    ensures
        final(buf)@ == old(buf)@ + keylog_headers(keylog@),
{
    if keylog.is_empty() {
        assert(buf@ =~= old(buf)@ + Seq::<u8>::empty());
        return;
    }
    let ghost start = buf@;
    let ghost v: Seq<u8> = match keylog@.tls_version {
        Some(version) => header("X-TLS-VERSION"@, encode_utf8(version.name@)),
        None => Seq::empty(),
    };
    if let Some(version) = keylog.tls_version() {
        push_header(buf, "X-TLS-VERSION", version.as_str().as_bytes());
    }
    assert(buf@ =~= start + v);
    let ghost c: Seq<u8> = match keylog@.cipher_suite {
        Some(cipher) => header("X-TLS-CIPHER"@, text::decimal(cipher as nat)),
        None => Seq::empty(),
    };
    if let Some(cipher) = keylog.cipher_suite() {
        push_number_header(buf, "X-TLS-CIPHER", cipher as u64);
    }
    assert(buf@ =~= start + v + c);
    let ghost r: Seq<u8> = match keylog@.server_random {
        Some(random) => header("X-TLS-SERVER_RANDOM"@, encode_utf8(random)),
        None => Seq::empty(),
    };
    if let Some(random) = keylog.server_random() {
        push_header(buf, "X-TLS-SERVER_RANDOM", random.as_str().as_bytes());
    }
    assert(buf@ =~= start + v + c + r);
    let lines = keylog.entries();
    let ghost entries = keylog@.entries;
    let ghost head = buf@;
    let mut i: usize = 0;
    while i < lines.len()
        invariant
            i <= lines@.len(),
            crate::keylog::entry_texts(lines@) == entries,
            buf@ == head + entry_headers(entries, i as int),
        decreases lines@.len() - i,
    {
        let line = lines[i].to_keylog_line();
        assert(crate::keylog::entry_texts(lines@)[i as int] == lines@[i as int]@);
        push_header(buf, "X-TLS-KeyLog", line.as_str().as_bytes());
        assert(buf@ =~= head + entry_headers(entries, i + 1));
        i += 1;
    }
    assert(buf@ =~= start + keylog_headers(keylog@));
}

/// The headers of a client's address.
pub open spec fn client_addr_headers(addr: SocketAddr) -> Seq<u8> {
    header("X-Client-IP"@, crate::net::ip_text(addr.ip)) + header(
        "X-Client-Port"@,
        text::decimal(addr.port as nat),
    )
}

/// Appends the headers of a client's address.
pub fn add_client_addr(buf: &mut Vec<u8>, addr: SocketAddr)
    ensures
        final(buf)@ == old(buf)@ + client_addr_headers(addr),
{
    push_ip_header(buf, "X-Client-IP", &addr);
    push_number_header(buf, "X-Client-Port", addr.port as u64);
    assert(buf@ =~= old(buf)@ + client_addr_headers(addr));
}

/// The name under which a user is reported as authenticated.
pub open spec fn local_user(user: Seq<char>) -> Seq<char> {
    "Local://"@ + user
}

/// The headers of a client's user name, where `token` stands for the authenticated user.
pub open spec fn username_headers(user: Seq<char>, token: Seq<char>) -> Seq<u8> {
    header("X-Client-Username"@, encode_utf8(user)) + header(
        "X-Authenticated-User"@,
        encode_utf8(token),
    )
}

/// Appends the headers of a client's user name and of the token for the authenticated user.
pub fn add_username_and_token(buf: &mut Vec<u8>, user: &str, token: &str)
    ensures
        final(buf)@ == old(buf)@ + username_headers(user@, token@),
{
    push_header(buf, "X-Client-Username", user.as_bytes());
    push_header(buf, "X-Authenticated-User", token.as_bytes());
    assert(buf@ =~= old(buf)@ + username_headers(user@, token@));
}

/// Appends the headers of a client's user name: the name itself, and `Local://` and the name in
/// base64. The encoded name has to fit in memory.
pub fn add_client_username(buf: &mut Vec<u8>, user: &str)
    requires
        (encode_utf8(local_user(user@)).len() + 2) / 3 * 4 <= isize::MAX,
    ensures
        final(buf)@ == old(buf)@ + username_headers(
            user@,
            crate::outside::base64_text(encode_utf8(local_user(user@))),
        ),
{
    let mut local = "Local://".to_owned();
    local.append(user);
    let token = base64_encode(local.as_str().as_bytes());
    add_username_and_token(buf, user, token.as_str());
}

/// The first `n` of the given headers.
pub open spec fn shared_headers(headers: Seq<(String, Vec<u8>)>, n: int) -> Seq<u8>
    decreases n,
{
    if n <= 0 {
        Seq::empty()
    } else {
        shared_headers(headers, n - 1) + header(headers[n - 1].0@, headers[n - 1].1@)
    }
}

/// Appends headers that are shared with another service, in their order.
pub fn add_shared(buf: &mut Vec<u8>, headers: &Vec<(String, Vec<u8>)>)
    ensures
        final(buf)@ == old(buf)@ + shared_headers(headers@, headers@.len() as int),
{
    let ghost start = buf@;
    let mut i: usize = 0;
    assert(buf@ =~= start + shared_headers(headers@, 0));
    while i < headers.len()
        invariant
            i <= headers@.len(),
            buf@ == start + shared_headers(headers@, i as int),
        decreases headers@.len() - i,
    {
        let (name, value) = &headers[i];
        push_header(buf, name.as_str(), value.as_slice());
        assert(buf@ =~= start + shared_headers(headers@, i + 1));
        i += 1;
    }
}

// ---------------------------------------------------------------------------
// What the headers say
// ---------------------------------------------------------------------------

/// A line end is a carriage return and a line feed.
pub proof fn lemma_line_end()
    ensures
        encode_utf8("\r\n"@) == seq![13u8, 10],
{
    reveal_strlit("\r\n");
    is_ascii_chars_encode_utf8("\r\n"@);
    assert(encode_utf8("\r\n"@) =~= seq![13u8, 10]);
}

/// A header line whose name is known, with its colon and space.
pub proof fn lemma_header_text(name: Seq<char>, named: Seq<char>, value: Seq<u8>)
    requires
        named == name + ": "@,
    ensures
        header(name, value) == encode_utf8(named) + value + seq![13u8, 10],
{
    text::lemma_encode_concat(name, ": "@);
    lemma_line_end();
    assert(header(name, value) =~= encode_utf8(named) + value + seq![13u8, 10]);
}

/// The client is reported by its address, in two lines.
pub proof fn law_client_is_reported(addr: SocketAddr)
    ensures
        client_addr_headers(addr) == encode_utf8("X-Client-IP: "@) + crate::net::ip_text(addr.ip)
            + seq![13u8, 10] + (encode_utf8("X-Client-Port: "@) + text::decimal(addr.port as nat)
            + seq![13u8, 10]),
{
    reveal_strlit(": ");
    reveal_strlit("X-Client-IP");
    reveal_strlit("X-Client-IP: ");
    reveal_strlit("X-Client-Port");
    reveal_strlit("X-Client-Port: ");
    assert("X-Client-IP: "@ =~= "X-Client-IP"@ + ": "@);
    assert("X-Client-Port: "@ =~= "X-Client-Port"@ + ": "@);
    lemma_header_text("X-Client-IP"@, "X-Client-IP: "@, crate::net::ip_text(addr.ip));
    lemma_header_text("X-Client-Port"@, "X-Client-Port: "@, text::decimal(addr.port as nat));
}

/// A data channel is reported by the proxy's address, the server's address and the number of the
/// protocol, which is 6 for TCP and 17 for UDP.
pub proof fn law_connection_is_reported(tuple: ConnectionTuple)
    ensures
        tuple_headers(tuple) == encode_utf8("X-Proxy-IP: "@) + crate::net::ip_text(
            tuple.server_addr.ip,
        ) + seq![13u8, 10] + (encode_utf8("X-Proxy-PORT: "@) + text::decimal(
            tuple.server_addr.port as nat,
        ) + seq![13u8, 10]) + (encode_utf8("X-Remote-IP: "@) + crate::net::ip_text(
            tuple.remote_addr.ip,
        ) + seq![13u8, 10]) + (encode_utf8("X-Remote-PORT: "@) + text::decimal(
            tuple.remote_addr.port as nat,
        ) + seq![13u8, 10]) + (encode_utf8("X-Proto-P: "@) + text::decimal(
            if tuple.protocol is Tcp {
                6nat
            } else {
                17nat
            },
        ) + seq![13u8, 10]),
{
    reveal_strlit(": ");
    reveal_strlit("X-Proxy-IP");
    reveal_strlit("X-Proxy-IP: ");
    reveal_strlit("X-Proxy-PORT");
    reveal_strlit("X-Proxy-PORT: ");
    reveal_strlit("X-Remote-IP");
    reveal_strlit("X-Remote-IP: ");
    reveal_strlit("X-Remote-PORT");
    reveal_strlit("X-Remote-PORT: ");
    reveal_strlit("X-Proto-P");
    reveal_strlit("X-Proto-P: ");
    assert("X-Proxy-IP: "@ =~= "X-Proxy-IP"@ + ": "@);
    assert("X-Proxy-PORT: "@ =~= "X-Proxy-PORT"@ + ": "@);
    assert("X-Remote-IP: "@ =~= "X-Remote-IP"@ + ": "@);
    assert("X-Remote-PORT: "@ =~= "X-Remote-PORT"@ + ": "@);
    assert("X-Proto-P: "@ =~= "X-Proto-P"@ + ": "@);
    lemma_header_text("X-Proxy-IP"@, "X-Proxy-IP: "@, crate::net::ip_text(tuple.server_addr.ip));
    lemma_header_text(
        "X-Proxy-PORT"@,
        "X-Proxy-PORT: "@,
        text::decimal(tuple.server_addr.port as nat),
    );
    lemma_header_text("X-Remote-IP"@, "X-Remote-IP: "@, crate::net::ip_text(tuple.remote_addr.ip));
    lemma_header_text(
        "X-Remote-PORT"@,
        "X-Remote-PORT: "@,
        text::decimal(tuple.remote_addr.port as nat),
    );
    lemma_header_text(
        "X-Proto-P"@,
        "X-Proto-P: "@,
        text::decimal(tuple.protocol.assigned() as nat),
    );
}

/// What is reported of a TLS connection: nothing without keys, and otherwise the version, the cipher
/// suite and the server random, each where it is known, and then every key, in order, with the line
/// under which it was logged.
pub proof fn law_keys_are_reported(c: crate::keylog::KeyLogContents, n: int)
    requires
        0 < n <= c.entries.len(),
    ensures
        ({
            let end = seq![13u8, 10];
            let none = Seq::<u8>::empty();
            let version = match c.tls_version {
                Some(v) => encode_utf8("X-TLS-VERSION: "@) + encode_utf8(v.name@) + end,
                None => none,
            };
            let cipher = match c.cipher_suite {
                Some(id) => encode_utf8("X-TLS-CIPHER: "@) + text::decimal(id as nat) + end,
                None => none,
            };
            let random = match c.server_random {
                Some(r) => encode_utf8("X-TLS-SERVER_RANDOM: "@) + encode_utf8(r) + end,
                None => none,
            };
            &&& keylog_headers(c) == version + cipher + random + entry_headers(
                c.entries,
                c.entries.len() as int,
            )
            &&& entry_headers(c.entries, 0) == none
            &&& entry_headers(c.entries, n) == entry_headers(c.entries, n - 1) + (encode_utf8(
                "X-TLS-KeyLog: "@,
            ) + encode_utf8(crate::keylog::keylog_line(c.entries[n - 1])) + end)
        }),
{
    reveal_strlit(": ");
    reveal_strlit("X-TLS-VERSION");
    reveal_strlit("X-TLS-VERSION: ");
    reveal_strlit("X-TLS-CIPHER");
    reveal_strlit("X-TLS-CIPHER: ");
    reveal_strlit("X-TLS-SERVER_RANDOM");
    reveal_strlit("X-TLS-SERVER_RANDOM: ");
    reveal_strlit("X-TLS-KeyLog");
    reveal_strlit("X-TLS-KeyLog: ");
    assert("X-TLS-VERSION: "@ =~= "X-TLS-VERSION"@ + ": "@);
    assert("X-TLS-CIPHER: "@ =~= "X-TLS-CIPHER"@ + ": "@);
    assert("X-TLS-SERVER_RANDOM: "@ =~= "X-TLS-SERVER_RANDOM"@ + ": "@);
    assert("X-TLS-KeyLog: "@ =~= "X-TLS-KeyLog"@ + ": "@);
    if let Some(v) = c.tls_version {
        lemma_header_text("X-TLS-VERSION"@, "X-TLS-VERSION: "@, encode_utf8(v.name@));
    }
    if let Some(id) = c.cipher_suite {
        lemma_header_text("X-TLS-CIPHER"@, "X-TLS-CIPHER: "@, text::decimal(id as nat));
    }
    if let Some(r) = c.server_random {
        lemma_header_text("X-TLS-SERVER_RANDOM"@, "X-TLS-SERVER_RANDOM: "@, encode_utf8(r));
    }
    lemma_header_text(
        "X-TLS-KeyLog"@,
        "X-TLS-KeyLog: "@,
        encode_utf8(crate::keylog::keylog_line(c.entries[n - 1])),
    );
}

/// Without keys nothing is reported of a TLS connection, whatever else is known of it.
pub proof fn law_no_keys_no_report(c: crate::keylog::KeyLogContents)
    requires
        c.entries.len() == 0,
    ensures
        keylog_headers(c).len() == 0,
{
}

/// A user is reported by name and by the token that stands for the name as a local user.
pub proof fn law_user_is_reported(user: Seq<char>, token: Seq<char>)
    ensures
        username_headers(user, token) == encode_utf8("X-Client-Username: "@) + encode_utf8(user)
            + seq![13u8, 10] + (encode_utf8("X-Authenticated-User: "@) + encode_utf8(token)
            + seq![13u8, 10]),
        local_user(user).len() == user.len() + 8,
        local_user(user).skip(8) == user,
        local_user(user).take(8) == "Local://"@,
{
    reveal_strlit(": ");
    reveal_strlit("Local://");
    reveal_strlit("X-Client-Username");
    reveal_strlit("X-Client-Username: ");
    reveal_strlit("X-Authenticated-User");
    reveal_strlit("X-Authenticated-User: ");
    assert("X-Client-Username: "@ =~= "X-Client-Username"@ + ": "@);
    assert("X-Authenticated-User: "@ =~= "X-Authenticated-User"@ + ": "@);
    lemma_header_text("X-Client-Username"@, "X-Client-Username: "@, encode_utf8(user));
    lemma_header_text("X-Authenticated-User"@, "X-Authenticated-User: "@, encode_utf8(token));
    assert(local_user(user).skip(8) =~= user);
    assert(local_user(user).take(8) =~= "Local://"@);
}

/// Shared headers are all put in, in their order, each with its own value.
pub proof fn law_shared_headers_are_in_order(headers: Seq<(String, Vec<u8>)>, n: int)
    requires
        0 < n <= headers.len(),
    ensures
        shared_headers(headers, 0).len() == 0,
        shared_headers(headers, n) == shared_headers(headers, n - 1) + (encode_utf8(
            headers[n - 1].0@ + ": "@,
        ) + headers[n - 1].1@ + seq![13u8, 10]),
{
    lemma_header_text(headers[n - 1].0@, headers[n - 1].0@ + ": "@, headers[n - 1].1@);
}

} // verus!
