//! The data address in a passive-mode reply: reading it and putting another in its place.

use crate::net::{IpAddr, Ipv4Addr, SocketAddr};
use crate::text;
use crate::text::{
    find_byte, parse_u16, push_decimal, trim_ascii, CLOSE_PAREN, COMMA, HYPHEN, OPEN_PAREN, PIPE,
    SPACE,
};
use vstd::prelude::*;
use vstd::slice::{slice_subrange, slice_to_vec};

verus! {

// ---------------------------------------------------------------------------
// The group in parentheses
// ---------------------------------------------------------------------------

/// The positions of the first opening parenthesis and of the first closing one behind it.
pub open spec fn group(resp: Seq<u8>) -> Option<(int, int)> {
    match text::find(resp, OPEN_PAREN, 0) {
        None => None,
        Some(start) => match text::find(resp, CLOSE_PAREN, start) {
            None => None,
            Some(end) => Some((start, end)),
        },
    }
}

/// What stands in the parentheses.
pub open spec fn group_body(resp: Seq<u8>) -> Option<Seq<u8>> {
    match group(resp) {
        None => None,
        Some((start, end)) => Some(resp.subrange(start + 1, end)),
    }
}

proof fn lemma_group(resp: Seq<u8>)
    ensures
        group(resp) matches Some((start, end)) ==> {
            &&& 0 <= start < end < resp.len()
            &&& resp[start] == OPEN_PAREN
            &&& resp[end] == CLOSE_PAREN
            &&& forall|j: int| 0 <= j < start ==> resp[j] != OPEN_PAREN
            &&& forall|j: int| start <= j < end ==> resp[j] != CLOSE_PAREN
        },
{
    text::lemma_find(resp, OPEN_PAREN, 0);
    if let Some(start) = text::find(resp, OPEN_PAREN, 0) {
        text::lemma_find(resp, CLOSE_PAREN, start);
    }
}

fn find_group(resp: &[u8]) -> (r: Option<(usize, usize)>)
    ensures
        match r {
            Some((start, end)) => group(resp@) == Some((start as int, end as int)) && start < end
                < resp@.len(),
            None => group(resp@) is None,
        },
{
    proof {
        lemma_group(resp@);
    }
    match find_byte(resp, OPEN_PAREN, 0) {
        None => None,
        Some(start) => match find_byte(resp, CLOSE_PAREN, start) {
            None => None,
            Some(end) => Some((start, end)),
        },
    }
}

// ---------------------------------------------------------------------------
// Fields with separators between them
// ---------------------------------------------------------------------------

/// The fields of `s` between the bytes `sep`.
pub open spec fn fields(s: Seq<u8>, sep: u8) -> Seq<Seq<u8>>
    decreases s.len(),
{
    match text::find(s, sep, 0) {
        None => seq![s],
        Some(i) => {
            proof {
                text::lemma_find(s, sep, 0);
            }
            seq![s.take(i)] + fields(s.skip(i + 1), sep)
        },
    }
}

/// A field without separators in it, a separator, and further fields.
proof fn lemma_fields_cons(first: Seq<u8>, rest: Seq<u8>, sep: u8)
    requires
        forall|i: int| 0 <= i < first.len() ==> first[i] != sep,
    ensures
        fields(first + seq![sep] + rest, sep) == seq![first] + fields(rest, sep),
{
    let s = first + seq![sep] + rest;
    assert(s[first.len() as int] == sep);
    assert forall|j: int| 0 <= j < first.len() implies s[j] != sep by {
        assert(s[j] == first[j]);
    }
    text::lemma_find_is(s, sep, 0, first.len() as int);
    assert(s.take(first.len() as int) =~= first);
    assert(s.skip(first.len() as int + 1) =~= rest);
}

/// A text without separators is one field.
proof fn lemma_fields_one(s: Seq<u8>, sep: u8)
    requires
        forall|i: int| 0 <= i < s.len() ==> s[i] != sep,
    ensures
        fields(s, sep) == seq![s],
{
    text::lemma_find_none(s, sep, 0);
}

fn split_fields(s: &[u8], sep: u8) -> (r: Vec<(usize, usize)>)
    ensures
        r@.len() == fields(s@, sep).len(),
        forall|i: int|
            0 <= i < r@.len() ==> (#[trigger] r@[i]).0 <= r@[i].1 <= s@.len() && s@.subrange(
                r@[i].0 as int,
                r@[i].1 as int,
            ) == fields(s@, sep)[i],
{
    let mut r: Vec<(usize, usize)> = Vec::new();
    let mut pos: usize = 0;
    let len: usize = s.len();
    assert(s@.skip(0) =~= s@);
    loop
        invariant
            len == s@.len(),
            pos <= len,
            fields(s@, sep).len() == r@.len() + fields(s@.skip(pos as int), sep).len(),
            forall|i: int|
                0 <= i < r@.len() ==> (#[trigger] r@[i]).0 <= r@[i].1 <= s@.len() && s@.subrange(
                    r@[i].0 as int,
                    r@[i].1 as int,
                ) == fields(s@, sep)[i],
            forall|i: int|
                0 <= i < fields(s@.skip(pos as int), sep).len() ==> #[trigger] fields(
                    s@.skip(pos as int),
                    sep,
                )[i] == fields(s@, sep)[r@.len() + i],
        decreases len - pos,
    {
        let ghost tail = s@.skip(pos as int);
        let ghost before = r@;
        proof {
            text::lemma_find(s@, sep, pos as int);
            text::lemma_find(tail, sep, 0);
        }
        match find_byte(s, sep, pos) {
            None => {
                assert forall|j: int| 0 <= j < tail.len() implies tail[j] != sep by {
                    assert(tail[j] == s@[pos + j]);
                }
                proof {
                    lemma_fields_one(tail, sep);
                }
                r.push((pos, len));
                assert(s@.subrange(pos as int, len as int) =~= tail);
                assert(fields(tail, sep)[0] == tail);
                return r;
            },
            Some(i) => {
                let ghost k = i - pos;
                assert forall|j: int| 0 <= j < k implies tail[j] != sep by {
                    assert(tail[j] == s@[pos + j]);
                }
                assert(tail[k] == s@[i as int]);
                proof {
                    text::lemma_find_is(tail, sep, 0, k);
                }
                assert(tail.take(k) =~= s@.subrange(pos as int, i as int));
                assert(tail.skip(k + 1) =~= s@.skip(i + 1));
                let ghost further = fields(s@.skip(i + 1), sep);
                assert(fields(tail, sep) == seq![tail.take(k)] + further);
                r.push((pos, i));
                assert(fields(tail, sep)[0] == tail.take(k));
                assert forall|j: int| 0 <= j < further.len() implies #[trigger] further[j]
                    == fields(s@, sep)[r@.len() + j] by {
                    assert(fields(tail, sep)[j + 1] == further[j]);
                }
                pos = i + 1;
            },
        }
    }
}

// ---------------------------------------------------------------------------
// Reading the address
// ---------------------------------------------------------------------------

/// The code of a reply is followed by a space or, where more lines follow, by a hyphen.
pub open spec fn ends_code(b: u8) -> bool {
    b == SPACE || b == HYPHEN
}

/// The reply has the code of passive mode.
pub open spec fn has_pasv_code(resp: Seq<u8>) -> bool {
    resp.len() >= 4 && resp[0] == '2' as u8 && resp[1] == '2' as u8 && resp[2] == '7' as u8
        && ends_code(resp[3])
}

/// The reply has the code of extended passive mode.
pub open spec fn has_epsv_code(resp: Seq<u8>) -> bool {
    resp.len() >= 4 && resp[0] == '2' as u8 && resp[1] == '2' as u8 && resp[2] == '9' as u8
        && ends_code(resp[3])
}

fn is_pasv_reply(resp: &[u8]) -> (r: bool)
    ensures
        r == has_pasv_code(resp@),
{
    resp.len() >= 4 && resp[0] == '2' as u8 && resp[1] == '2' as u8 && resp[2] == '7' as u8 && (
    resp[3] == SPACE || resp[3] == HYPHEN)
}

fn is_epsv_reply(resp: &[u8]) -> (r: bool)
    ensures
        r == has_epsv_code(resp@),
{
    resp.len() >= 4 && resp[0] == '2' as u8 && resp[1] == '2' as u8 && resp[2] == '9' as u8 && (
    resp[3] == SPACE || resp[3] == HYPHEN)
}

/// The reply has the code that belongs to the form of passive mode that was asked for.
pub open spec fn has_code_of(epsv: bool, resp: Seq<u8>) -> bool {
    if epsv {
        has_epsv_code(resp)
    } else {
        has_pasv_code(resp)
    }
}

/// Whether the reply has the code that belongs to the form of passive mode that was asked for.
pub fn is_reply_of(epsv: bool, resp: &[u8]) -> (r: bool)
    ensures
        r == has_code_of(epsv, resp@),
{
    if epsv {
        is_epsv_reply(resp)
    } else {
        is_pasv_reply(resp)
    }
}

/// What stands in the parentheses of an extended reply of one line, without the white space at its
/// ends.
pub open spec fn epsv_body(resp: Seq<u8>) -> Option<Seq<u8>> {
    if has_epsv_code(resp) && resp[3] == SPACE {
        match group_body(resp) {
            None => None,
            Some(body) => Some(text::trim(body)),
        }
    } else {
        None
    }
}

pub open spec fn begins_with_pipes(body: Seq<u8>) -> bool {
    body.len() >= 3 && body[0] == PIPE && body[1] == PIPE && body[2] == PIPE
}

/// The port in the body `|||port|`.
pub open spec fn epsv_port(body: Seq<u8>) -> Option<u16> {
    if body.len() >= 4 && begins_with_pipes(body) && body.last() == PIPE {
        text::number_u16(body.subrange(3, body.len() - 1))
    } else {
        None
    }
}

/// The address in an extended reply: the port comes from the reply, the host from the control
/// connection.
pub open spec fn epsv_address(resp: Seq<u8>, ctrl_peer_ip: Ipv4Addr) -> Option<SocketAddr> {
    match epsv_body(resp) {
        None => None,
        Some(body) => match epsv_port(body) {
            None => None,
            Some(port) => Some(SocketAddr { ip: IpAddr::V4(ctrl_peer_ip), port }),
        },
    }
}

/// The low eight bits of a number in a reply.
pub open spec fn octet(n: u16) -> u8 {
    (n % 256) as u8
}

/// The port that two numbers of a reply make: the first, shifted by eight bits, or the second.
pub open spec fn port_of(high: u16, low: u16) -> u16 {
    (high << 8u16) | low
}

/// The number in one field of a reply.
pub open spec fn field_number(field: Seq<u8>) -> Option<u16> {
    text::number_u16(text::trim(field))
}

/// The address in the body `h1,h2,h3,h4,p1,p2`.
pub open spec fn pasv_body_address(body: Seq<u8>) -> Option<SocketAddr> {
    let f = fields(body, COMMA);
    if f.len() == 6 && forall|i: int| 0 <= i < 6 ==> field_number(#[trigger] f[i]) is Some {
        let n = Seq::new(6, |i: int| field_number(f[i])->0);
        Some(
            SocketAddr {
                ip: IpAddr::V4(
                    Ipv4Addr { a: octet(n[0]), b: octet(n[1]), c: octet(n[2]), d: octet(n[3]) },
                ),
                port: port_of(n[4], n[5]),
            },
        )
    } else {
        None
    }
}

/// The data address in a passive-mode reply of either form.
pub open spec fn pasv_address(resp: Seq<u8>, ctrl_peer_ip: Ipv4Addr) -> Option<SocketAddr> {
    match epsv_address(resp, ctrl_peer_ip) {
        Some(addr) => Some(addr),
        None => match group_body(resp) {
            None => None,
            Some(body) => pasv_body_address(body),
        },
    }
}

/// Reads the address in a reply `229 ... (|||port|)`; the host is that of the control connection.
pub fn parse_epsv_response(resp: &[u8], ctrl_peer_ip: Ipv4Addr) -> (r: Option<SocketAddr>)
    ensures
        r == epsv_address(resp@, ctrl_peer_ip),
{
    if !is_epsv_reply(resp) || resp[3] != SPACE {
        return None;
    }
    match find_group(resp) {
        None => None,
        Some((start, end)) => {
            let body = trim_ascii(slice_subrange(resp, start + 1, end));
            let n: usize = body.len();
            if n < 4 || body[0] != PIPE || body[1] != PIPE || body[2] != PIPE || body[n - 1]
                != PIPE {
                return None;
            }
            match parse_u16(slice_subrange(body, 3, n - 1)) {
                None => None,
                Some(port) => Some(SocketAddr::new(IpAddr::V4(ctrl_peer_ip), port)),
            }
        },
    }
}

/// Reads the data address in a passive-mode reply: the extended form first, then the form
/// `227 ... (h1,h2,h3,h4,p1,p2)`.
pub fn parse_pasv_response(resp: &[u8], ctrl_peer_ip: Ipv4Addr) -> (r: Option<SocketAddr>)
    ensures
        r == pasv_address(resp@, ctrl_peer_ip),
{
    let extended = parse_epsv_response(resp, ctrl_peer_ip);
    if extended.is_some() {
        return extended;
    }
    let (start, end) = match find_group(resp) {
        None => {
            return None;
        },
        Some(g) => g,
    };
    let body = slice_subrange(resp, start + 1, end);
    let bounds = split_fields(body, COMMA);
    let ghost f = fields(body@, COMMA);
    if bounds.len() != 6 {
        return None;
    }
    let mut nums: Vec<u16> = Vec::new();
    let mut i: usize = 0;
    while i < 6
        invariant
            i <= 6,
            f == fields(body@, COMMA),
            f.len() == 6,
            bounds@.len() == 6,
            forall|j: int|
                0 <= j < bounds@.len() ==> (#[trigger] bounds@[j]).0 <= bounds@[j].1 <= body@.len()
                    && body@.subrange(bounds@[j].0 as int, bounds@[j].1 as int) == f[j],
            nums@.len() == i,
            forall|j: int| 0 <= j < i ==> field_number(f[j]) == Some(#[trigger] nums@[j]),
            group_body(resp@) == Some(body@),
            epsv_address(resp@, ctrl_peer_ip) is None,
        decreases 6 - i,
    {
        let (from, to) = bounds[i];
        match parse_u16(trim_ascii(slice_subrange(body, from, to))) {
            None => {
                assert(field_number(f[i as int]) is None);
                return None;
            },
            Some(n) => {
                nums.push(n);
            },
        }
        i += 1;
    }
    assert forall|j: int| 0 <= j < 6 implies field_number(#[trigger] f[j]) is Some by {
        assert(field_number(f[j]) == Some(nums@[j]));
    }
    let ghost n = Seq::new(6, |j: int| field_number(f[j])->0);
    assert(nums@ =~= n) by {
        assert forall|j: int| 0 <= j < 6 implies nums@[j] == n[j] by {
            assert(field_number(f[j]) == Some(nums@[j]));
        }
    }
    let ip = Ipv4Addr::new(
        (nums[0] % 256) as u8,
        (nums[1] % 256) as u8,
        (nums[2] % 256) as u8,
        (nums[3] % 256) as u8,
    );
    let port: u16 = (nums[4] << 8u16) | nums[5];
    Some(SocketAddr::new(IpAddr::V4(ip), port))
}

// ---------------------------------------------------------------------------
// Rewriting the address
// ---------------------------------------------------------------------------

/// `resp` with the group in parentheses replaced; unchanged where it has none.
pub open spec fn replace_group(resp: Seq<u8>, new: Seq<u8>) -> Seq<u8> {
    match group(resp) {
        None => resp,
        Some((start, end)) => resp.take(start) + new + resp.skip(end + 1),
    }
}

/// The inside of the group `(h1,h2,h3,h4,p1,p2)`.
pub open spec fn pasv_inner(ip: Ipv4Addr, port: u16) -> Seq<u8> {
    text::decimal(ip.a as nat) + seq![COMMA] + (text::decimal(ip.b as nat) + seq![COMMA] + (
    text::decimal(ip.c as nat) + seq![COMMA] + (text::decimal(ip.d as nat) + seq![COMMA] + (
    text::decimal((port / 256) as nat) + seq![COMMA] + text::decimal((port % 256) as nat)))))
}

/// The inside of the group `(|||port|)`.
pub open spec fn epsv_inner(port: u16) -> Seq<u8> {
    seq![PIPE, PIPE, PIPE] + text::decimal(port as nat) + seq![PIPE]
}

/// A text in parentheses.
pub open spec fn in_parens(inner: Seq<u8>) -> Seq<u8> {
    seq![OPEN_PAREN] + inner + seq![CLOSE_PAREN]
}

/// A passive-mode reply with the group replaced by the given IPv4 address; unchanged without such
/// an address, or where the reply has another code.
pub open spec fn pasv_rewritten(original: Seq<u8>, local_addr: Option<SocketAddr>) -> Seq<u8> {
    match local_addr {
        Some(addr) => match addr.ip {
            IpAddr::V4(ip) => if has_pasv_code(original) {
                replace_group(original, in_parens(pasv_inner(ip, addr.port)))
            } else {
                original
            },
            IpAddr::V6(_) => original,
        },
        None => original,
    }
}

/// An extended reply with the group replaced by the given port; unchanged where the reply has
/// another code.
pub open spec fn epsv_rewritten(original: Seq<u8>, port: u16) -> Seq<u8> {
    if has_epsv_code(original) {
        replace_group(original, in_parens(epsv_inner(port)))
    } else {
        original
    }
}

fn put_group(original: &[u8], new: &[u8]) -> (r: Vec<u8>)
    ensures
        r@ == replace_group(original@, new@),
{
    let len: usize = original.len();
    match find_group(original) {
        None => slice_to_vec(original),
        Some((start, end)) => {
            let mut out: Vec<u8> = Vec::new();
            out.extend_from_slice(slice_subrange(original, 0, start));
            out.extend_from_slice(new);
            out.extend_from_slice(slice_subrange(original, end + 1, len));
            assert(out@ =~= original@.take(start as int) + new@ + original@.skip(end + 1));
            out
        },
    }
}

fn pasv_group(ip: Ipv4Addr, port: u16) -> (new: Vec<u8>)
    ensures
        new@ == in_parens(pasv_inner(ip, port)),
{
    let mut new: Vec<u8> = Vec::new();
    new.push(OPEN_PAREN);
    push_decimal(&mut new, ip.a as u64);
    new.push(COMMA);
    push_decimal(&mut new, ip.b as u64);
    new.push(COMMA);
    push_decimal(&mut new, ip.c as u64);
    new.push(COMMA);
    push_decimal(&mut new, ip.d as u64);
    new.push(COMMA);
    push_decimal(&mut new, (port / 256) as u64);
    new.push(COMMA);
    push_decimal(&mut new, (port % 256) as u64);
    new.push(CLOSE_PAREN);
    assert(new@ =~= in_parens(pasv_inner(ip, port)));
    new
}

/// Replaces the address in a reply `227 ... (h1,h2,h3,h4,p1,p2)` by an IPv4 listener's. The reply
/// is returned as it is where it has another code or no parentheses, or where there is no IPv4
/// address.
pub fn rewrite_pasv_response(original: &[u8], local_addr: Option<SocketAddr>) -> (r: Vec<u8>)
    ensures
        r@ == pasv_rewritten(original@, local_addr),
{
    let addr = match local_addr {
        None => {
            return slice_to_vec(original);
        },
        Some(addr) => addr,
    };
    match addr.ip {
        IpAddr::V6(_) => slice_to_vec(original),
        IpAddr::V4(ip) => {
            if !is_pasv_reply(original) {
                return slice_to_vec(original);
            }
            let new = pasv_group(ip, addr.port);
            put_group(original, new.as_slice())
        },
    }
}

/// Replaces the port in a reply `229 ... (|||port|)`. The reply is returned as it is where it has
/// another code or no parentheses.
pub fn rewrite_epsv_response(original: &[u8], local_port: u16) -> (r: Vec<u8>)
    ensures
        r@ == epsv_rewritten(original@, local_port),
{
    if !is_epsv_reply(original) {
        return slice_to_vec(original);
    }
    let mut new: Vec<u8> = Vec::new();
    new.push(OPEN_PAREN);
    new.push(PIPE);
    new.push(PIPE);
    new.push(PIPE);
    push_decimal(&mut new, local_port as u64);
    new.push(PIPE);
    new.push(CLOSE_PAREN);
    assert(new@ =~= in_parens(epsv_inner(local_port)));
    put_group(original, new.as_slice())
}

// ---------------------------------------------------------------------------
// Laws
// ---------------------------------------------------------------------------

/// Neither parenthesis occurs in `s`.
pub open spec fn no_parens(s: Seq<u8>) -> bool {
    forall|i: int| 0 <= i < s.len() ==> s[i] != OPEN_PAREN && s[i] != CLOSE_PAREN
}

proof fn lemma_decimal_bytes(n: nat)
    ensures
        no_parens(text::decimal(n)),
        forall|i: int|
            0 <= i < text::decimal(n).len() ==> text::decimal(n)[i] != COMMA && text::decimal(n)[i]
                != PIPE,
        text::trim(text::decimal(n)) == text::decimal(n),
{
    text::lemma_decimal(n);
    let s = text::decimal(n);
    assert forall|i: int| 0 <= i < s.len() implies text::is_digit(#[trigger] s[i]) by {
        assert(text::is_digit(s[i]));
    }
    text::lemma_trim_fixed(s);
}

proof fn lemma_pasv_inner_no_parens(ip: Ipv4Addr, port: u16)
    ensures
        no_parens(pasv_inner(ip, port)),
{
    lemma_decimal_bytes(ip.a as nat);
    lemma_decimal_bytes(ip.b as nat);
    lemma_decimal_bytes(ip.c as nat);
    lemma_decimal_bytes(ip.d as nat);
    lemma_decimal_bytes((port / 256) as nat);
    lemma_decimal_bytes((port % 256) as nat);
}

/// The group of a rewritten reply begins where it began before and holds the new text.
proof fn lemma_group_of_replaced(resp: Seq<u8>, inner: Seq<u8>)
    requires
        group(resp) is Some,
        no_parens(inner),
    ensures
        ({
            let (start, end) = group(resp)->0;
            let r = replace_group(resp, in_parens(inner));
            &&& group(r) == Some((start, start + 1 + inner.len()))
            &&& group_body(r) == Some(inner)
            &&& r.take(start) == resp.take(start)
            &&& r.skip(start + 2 + inner.len()) == resp.skip(end + 1)
        }),
{
    lemma_group(resp);
    let (start, end) = group(resp)->0;
    let r = replace_group(resp, in_parens(inner));
    let e = start + 1 + inner.len();
    assert(r[start] == OPEN_PAREN);
    assert forall|j: int| 0 <= j < start implies r[j] != OPEN_PAREN by {
        assert(r[j] == resp[j]);
    }
    text::lemma_find_is(r, OPEN_PAREN, 0, start);
    assert(r[e] == CLOSE_PAREN);
    assert forall|j: int| start <= j < e implies r[j] != CLOSE_PAREN by {
        if j > start {
            assert(r[j] == inner[j - start - 1]);
        }
    }
    text::lemma_find_is(r, CLOSE_PAREN, start, e);
    assert(r.subrange(start + 1, e) =~= inner);
    assert(r.take(start) =~= resp.take(start));
    assert(r.skip(e + 1) =~= resp.skip(end + 1));
}

proof fn lemma_port_parts(port: u16)
    ensures
        port_of((port / 256) as u16, (port % 256) as u16) == port,
{
    assert(((port / 256) << 8u16) | (port % 256) == port) by (bit_vector);
}

/// The six numbers of an address, as they are written in a reply.
spec fn pasv_fields(ip: Ipv4Addr, port: u16) -> Seq<Seq<u8>> {
    seq![
        text::decimal(ip.a as nat),
        text::decimal(ip.b as nat),
        text::decimal(ip.c as nat),
        text::decimal(ip.d as nat),
        text::decimal((port / 256) as nat),
        text::decimal((port % 256) as nat),
    ]
}

proof fn lemma_pasv_inner_fields(ip: Ipv4Addr, port: u16)
    ensures
        fields(pasv_inner(ip, port), COMMA) == pasv_fields(ip, port),
{
    let d0 = text::decimal(ip.a as nat);
    let d1 = text::decimal(ip.b as nat);
    let d2 = text::decimal(ip.c as nat);
    let d3 = text::decimal(ip.d as nat);
    let d4 = text::decimal((port / 256) as nat);
    let d5 = text::decimal((port % 256) as nat);
    let t4 = d4 + seq![COMMA] + d5;
    let t3 = d3 + seq![COMMA] + t4;
    let t2 = d2 + seq![COMMA] + t3;
    let t1 = d1 + seq![COMMA] + t2;
    let f5 = fields(d5, COMMA);
    let f4 = fields(t4, COMMA);
    let f3 = fields(t3, COMMA);
    let f2 = fields(t2, COMMA);
    let f1 = fields(t1, COMMA);
    assert(f5 == seq![d5]) by {
        lemma_decimal_bytes((port % 256) as nat);
        lemma_fields_one(d5, COMMA);
    }
    assert(f4 == seq![d4] + f5) by {
        lemma_decimal_bytes((port / 256) as nat);
        lemma_fields_cons(d4, d5, COMMA);
    }
    assert(f3 == seq![d3] + f4) by {
        lemma_decimal_bytes(ip.d as nat);
        lemma_fields_cons(d3, t4, COMMA);
    }
    assert(f2 == seq![d2] + f3) by {
        lemma_decimal_bytes(ip.c as nat);
        lemma_fields_cons(d2, t3, COMMA);
    }
    assert(f1 == seq![d1] + f2) by {
        lemma_decimal_bytes(ip.b as nat);
        lemma_fields_cons(d1, t2, COMMA);
    }
    assert(fields(d0 + seq![COMMA] + t1, COMMA) == seq![d0] + f1) by {
        lemma_decimal_bytes(ip.a as nat);
        lemma_fields_cons(d0, t1, COMMA);
    }
    assert(seq![d0] + (seq![d1] + (seq![d2] + (seq![d3] + (seq![d4] + seq![d5])))) =~= pasv_fields(
        ip,
        port,
    ));
}

proof fn lemma_field_of_decimal(n: u16)
    ensures
        field_number(text::decimal(n as nat)) == Some(n),
{
    lemma_decimal_bytes(n as nat);
    text::lemma_number_of_decimal(n);
}

proof fn lemma_pasv_inner_address(ip: Ipv4Addr, port: u16)
    ensures
        pasv_body_address(pasv_inner(ip, port)) == Some(SocketAddr { ip: IpAddr::V4(ip), port }),
{
    let f = pasv_fields(ip, port);
    lemma_pasv_inner_fields(ip, port);
    lemma_field_of_decimal(ip.a as u16);
    lemma_field_of_decimal(ip.b as u16);
    lemma_field_of_decimal(ip.c as u16);
    lemma_field_of_decimal(ip.d as u16);
    lemma_field_of_decimal((port / 256) as u16);
    lemma_field_of_decimal((port % 256) as u16);
    assert forall|i: int| 0 <= i < 6 implies field_number(#[trigger] f[i]) is Some by {
        assert(i == 0 || i == 1 || i == 2 || i == 3 || i == 4 || i == 5);
    }
    let n = Seq::new(6, |i: int| field_number(f[i])->0);
    assert(n[0] == ip.a && n[1] == ip.b && n[2] == ip.c && n[3] == ip.d);
    assert(n[4] == port / 256 && n[5] == port % 256);
    lemma_port_parts(port);
}

/// The inside of a passive-mode group begins and ends with a digit.
proof fn lemma_pasv_inner_ends(ip: Ipv4Addr, port: u16)
    ensures
        !begins_with_pipes(text::trim(pasv_inner(ip, port))),
{
    let body = pasv_inner(ip, port);
    let d0 = text::decimal(ip.a as nat);
    let d5 = text::decimal((port % 256) as nat);
    text::lemma_decimal(ip.a as nat);
    text::lemma_decimal((port % 256) as nat);
    assert(body[0] == d0[0]);
    assert(body.last() == d5.last());
    assert(text::is_digit(d0[0]));
    assert(text::is_digit(d5[d5.len() - 1]));
    text::lemma_trim_fixed(body);
}

/// A rewritten reply keeps its code.
proof fn lemma_code_is_kept(resp: Seq<u8>, inner: Seq<u8>)
    requires
        group(resp) is Some,
        no_parens(inner),
        has_pasv_code(resp) || has_epsv_code(resp),
    ensures
        ({
            let r = replace_group(resp, in_parens(inner));
            &&& has_pasv_code(r) == has_pasv_code(resp)
            &&& has_epsv_code(r) == has_epsv_code(resp)
            &&& r[3] == resp[3]
        }),
{
    lemma_group(resp);
    lemma_group_of_replaced(resp, inner);
    let (start, _) = group(resp)->0;
    let r = replace_group(resp, in_parens(inner));
    assert(start >= 4) by {
        if start < 4 {
            assert(resp[start] == OPEN_PAREN);
        }
    }
    assert forall|j: int| 0 <= j < 4 implies r[j] == resp[j] by {
        assert(r.take(start)[j] == resp.take(start)[j]);
    }
}

/// What an address in a passive-mode reply is. An extended address comes first. Without one, there
/// is an address where the parentheses hold six fields and each is a number; if the numbers fit in
/// eight bits, the first four are the host and the last two the bytes of the port, whatever the
/// control connection is.
pub proof fn law_passive_address(resp: Seq<u8>, ctrl_peer_ip: Ipv4Addr)
    ensures
        epsv_address(resp, ctrl_peer_ip) matches Some(a) ==> pasv_address(resp, ctrl_peer_ip)
            == Some(a),
        epsv_address(resp, ctrl_peer_ip) is None ==> match group_body(resp) {
            None => pasv_address(resp, ctrl_peer_ip) is None,
            Some(body) => {
                let f = fields(body, COMMA);
                let numbers = forall|i: int| 0 <= i < 6 ==> field_number(#[trigger] f[i]) is Some;
                &&& pasv_address(resp, ctrl_peer_ip) is Some <==> f.len() == 6 && numbers
                &&& f.len() == 6 && numbers && (forall|i: int|
                    0 <= i < 6 ==> field_number(#[trigger] f[i])->0 <= 255) ==> pasv_address(
                    resp,
                    ctrl_peer_ip,
                ) == Some(
                    SocketAddr {
                        ip: IpAddr::V4(
                            Ipv4Addr {
                                a: field_number(f[0])->0 as u8,
                                b: field_number(f[1])->0 as u8,
                                c: field_number(f[2])->0 as u8,
                                d: field_number(f[3])->0 as u8,
                            },
                        ),
                        port: (256 * field_number(f[4])->0 + field_number(f[5])->0) as u16,
                    },
                )
            },
        },
{
    if epsv_address(resp, ctrl_peer_ip) is None && group_body(resp) is Some {
        let f = fields(group_body(resp)->0, COMMA);
        if f.len() == 6 && (forall|i: int| 0 <= i < 6 ==> field_number(#[trigger] f[i]) is Some) && (
        forall|i: int| 0 <= i < 6 ==> field_number(#[trigger] f[i])->0 <= 255) {
            assert(field_number(f[0])->0 <= 255 && field_number(f[1])->0 <= 255);
            assert(field_number(f[2])->0 <= 255 && field_number(f[3])->0 <= 255);
            let high: u16 = field_number(f[4])->0;
            let low: u16 = field_number(f[5])->0;
            assert((high << 8u16) | low == 256 * high + low) by (bit_vector)
                requires
                    high <= 255,
                    low <= 255,
            ;
        }
    }
}

proof fn lemma_trim_start_keeps(s: Seq<u8>, x: u8)
    requires
        s.contains(x),
        !text::is_space(x),
    ensures
        text::trim_start(s).contains(x),
    decreases s.len(),
{
    if text::is_space(s[0]) {
        let i = choose|i: int| 0 <= i < s.len() && s[i] == x;
        assert(s.skip(1)[i - 1] == x);
        lemma_trim_start_keeps(s.skip(1), x);
    }
}

proof fn lemma_trim_end_keeps(s: Seq<u8>, x: u8)
    requires
        s.contains(x),
        !text::is_space(x),
    ensures
        text::trim_end(s).contains(x),
    decreases s.len(),
{
    if text::is_space(s.last()) {
        let i = choose|i: int| 0 <= i < s.len() && s[i] == x;
        assert(s.drop_last()[i] == x);
        lemma_trim_end_keeps(s.drop_last(), x);
    }
}

/// No address is read from an extended reply whose parentheses hold three vertical bars and
/// nothing else.
pub proof fn law_bare_pipes_name_no_address(resp: Seq<u8>, ctrl_peer_ip: Ipv4Addr)
    requires
        epsv_body(resp) == Some(seq![PIPE, PIPE, PIPE]),
    ensures
        epsv_address(resp, ctrl_peer_ip) is None,
        pasv_address(resp, ctrl_peer_ip) is None,
{
    let body = group_body(resp)->0;
    assert forall|i: int| 0 <= i < body.len() implies body[i] != COMMA by {
        if body[i] == COMMA {
            assert(body.contains(COMMA));
            lemma_trim_start_keeps(body, COMMA);
            lemma_trim_end_keeps(text::trim_start(body), COMMA);
        }
    }
    lemma_fields_one(body, COMMA);
}

/// A reply that is neither a passive-mode nor an extended reply is never rewritten; nor is one of
/// them taken for the other.
pub proof fn law_other_replies_are_unchanged(
    original: Seq<u8>,
    local_addr: Option<SocketAddr>,
    port: u16,
)
    ensures
        !has_pasv_code(original) ==> pasv_rewritten(original, local_addr) == original,
        !has_epsv_code(original) ==> epsv_rewritten(original, port) == original,
{
}

/// What a client reads from a rewritten passive-mode reply is the address that was put there.
pub proof fn law_pasv_round_trip(original: Seq<u8>, ip: Ipv4Addr, port: u16, ctrl_peer_ip: Ipv4Addr)
    requires
        has_pasv_code(original),
        group(original) is Some,
    ensures
        ({
            let addr = SocketAddr { ip: IpAddr::V4(ip), port };
            pasv_address(pasv_rewritten(original, Some(addr)), ctrl_peer_ip) == Some(addr)
        }),
{
    let inner = pasv_inner(ip, port);
    lemma_pasv_inner_no_parens(ip, port);
    lemma_group_of_replaced(original, inner);
    lemma_pasv_inner_address(ip, port);
    lemma_pasv_inner_ends(ip, port);
}

/// What a client reads from a rewritten extended reply of one line is the port that was put there
/// and the host of its control connection.
pub proof fn law_epsv_round_trip(original: Seq<u8>, port: u16, ctrl_peer_ip: Ipv4Addr)
    requires
        has_epsv_code(original),
        original[3] == SPACE,
        group(original) is Some,
    ensures
        ({
            let rewritten = epsv_rewritten(original, port);
            let addr = SocketAddr { ip: IpAddr::V4(ctrl_peer_ip), port };
            &&& epsv_address(rewritten, ctrl_peer_ip) == Some(addr)
            &&& pasv_address(rewritten, ctrl_peer_ip) == Some(addr)
        }),
{
    let inner = epsv_inner(port);
    let d = text::decimal(port as nat);
    lemma_decimal_bytes(port as nat);
    text::lemma_decimal(port as nat);
    assert(no_parens(inner));
    lemma_group_of_replaced(original, inner);
    lemma_code_is_kept(original, inner);
    text::lemma_trim_fixed(inner);
    assert(inner.subrange(3, inner.len() - 1) =~= d);
    assert(inner.last() == PIPE);
    text::lemma_number_of_decimal(port);
}

/// Rewriting changes nothing outside the parentheses, and puts the address or the port into those
/// of a reply that has the code for it.
pub proof fn law_rewriting_keeps_the_rest(original: Seq<u8>, addr: SocketAddr, port: u16)
    requires
        group(original) is Some,
    ensures
        ({
            let (start, end) = group(original)->0;
            let pasv = pasv_rewritten(original, Some(addr));
            let epsv = epsv_rewritten(original, port);
            &&& group(pasv) matches Some((s, e)) && s == start && pasv.take(s) == original.take(
                start,
            ) && pasv.skip(e + 1) == original.skip(end + 1)
            &&& group(epsv) matches Some((s, e)) && s == start && epsv.take(s) == original.take(
                start,
            ) && epsv.skip(e + 1) == original.skip(end + 1)
            &&& addr.ip matches IpAddr::V4(ip) ==> has_pasv_code(original) ==> group_body(pasv)
                == Some(pasv_inner(ip, addr.port))
            &&& has_epsv_code(original) ==> group_body(epsv) == Some(epsv_inner(port))
        }),
{
    if let IpAddr::V4(ip) = addr.ip {
        lemma_pasv_inner_no_parens(ip, addr.port);
        lemma_group_of_replaced(original, pasv_inner(ip, addr.port));
    }
    lemma_decimal_bytes(port as nat);
    assert(no_parens(epsv_inner(port)));
    lemma_group_of_replaced(original, epsv_inner(port));
}

proof fn lemma_replaced_twice(original: Seq<u8>, first: Seq<u8>, second: Seq<u8>)
    requires
        no_parens(first),
    ensures
        replace_group(replace_group(original, in_parens(first)), in_parens(second))
            == replace_group(original, in_parens(second)),
{
    if group(original) is Some {
        lemma_group_of_replaced(original, first);
        lemma_group(original);
        let new = in_parens(second);
        let r = replace_group(original, in_parens(first));
        let (s, e) = group(r)->0;
        let (start, end) = group(original)->0;
        assert(r.take(s) + new + r.skip(e + 1) =~= original.take(start) + new + original.skip(
            end + 1,
        ));
    }
}

/// A second rewriting leaves no trace of the first, in either form.
pub proof fn law_last_rewriting_wins(
    original: Seq<u8>,
    first: SocketAddr,
    second: SocketAddr,
    p: u16,
    q: u16,
)
    requires
        first.ip is V4,
        second.ip is V4,
    ensures
        pasv_rewritten(pasv_rewritten(original, Some(first)), Some(second)) == pasv_rewritten(
            original,
            Some(second),
        ),
        epsv_rewritten(epsv_rewritten(original, p), q) == epsv_rewritten(original, q),
{
    let inner = pasv_inner(first.ip->V4_0, first.port);
    lemma_pasv_inner_no_parens(first.ip->V4_0, first.port);
    lemma_decimal_bytes(p as nat);
    assert(no_parens(epsv_inner(p)));
    if group(original) is Some && has_pasv_code(original) {
        lemma_code_is_kept(original, inner);
        lemma_replaced_twice(original, inner, pasv_inner(second.ip->V4_0, second.port));
    }
    if group(original) is Some && has_epsv_code(original) {
        lemma_code_is_kept(original, epsv_inner(p));
        lemma_replaced_twice(original, epsv_inner(p), epsv_inner(q));
    }
}

/// How often `b` occurs in `s`.
pub open spec fn count(s: Seq<u8>, b: u8) -> nat
    decreases s.len(),
{
    if s.len() == 0 {
        0
    } else {
        count(s.drop_last(), b) + if s.last() == b {
            1nat
        } else {
            0nat
        }
    }
}

proof fn lemma_count_concat(a: Seq<u8>, b: Seq<u8>, x: u8)
    ensures
        count(a + b, x) == count(a, x) + count(b, x),
    decreases b.len(),
{
    if b.len() == 0 {
        assert(a + b =~= a);
    } else {
        assert((a + b).drop_last() =~= a + b.drop_last());
        lemma_count_concat(a, b.drop_last(), x);
    }
}

proof fn lemma_count_zero(a: Seq<u8>, x: u8)
    requires
        forall|i: int| 0 <= i < a.len() ==> a[i] != x,
    ensures
        count(a, x) == 0,
    decreases a.len(),
{
    if a.len() > 0 {
        assert forall|i: int| 0 <= i < a.drop_last().len() implies a.drop_last()[i] != x by {
            assert(a.drop_last()[i] == a[i]);
        }
        lemma_count_zero(a.drop_last(), x);
    }
}

proof fn lemma_count_one(x: u8, y: u8)
    ensures
        count(seq![x], y) == if x == y {
            1nat
        } else {
            0nat
        },
{
    assert(seq![x].drop_last() =~= Seq::<u8>::empty());
    assert(count(Seq::<u8>::empty(), y) == 0);
}

/// A rewritten reply has as many closing parentheses as the reply had: none is left over and none
/// is doubled.
pub proof fn law_no_double_paren(original: Seq<u8>, local_addr: Option<SocketAddr>, port: u16)
    ensures
        count(pasv_rewritten(original, local_addr), CLOSE_PAREN) == count(original, CLOSE_PAREN),
        count(epsv_rewritten(original, port), CLOSE_PAREN) == count(original, CLOSE_PAREN),
{
    if local_addr is Some && local_addr->0.ip is V4 {
        let addr = local_addr->0;
        lemma_pasv_inner_no_parens(addr.ip->V4_0, addr.port);
        lemma_count_after_replacing(original, pasv_inner(addr.ip->V4_0, addr.port));
    }
    lemma_decimal_bytes(port as nat);
    lemma_count_after_replacing(original, epsv_inner(port));
}

proof fn lemma_count_after_replacing(original: Seq<u8>, inner: Seq<u8>)
    requires
        no_parens(inner),
    ensures
        count(replace_group(original, in_parens(inner)), CLOSE_PAREN) == count(
            original,
            CLOSE_PAREN,
        ),
{
    if group(original) is Some {
        lemma_group(original);
        let (start, end) = group(original)->0;
        let old_group = original.subrange(start, end);
        assert(original =~= original.take(start) + (old_group + seq![CLOSE_PAREN])
            + original.skip(end + 1));
        assert forall|i: int| 0 <= i < old_group.len() implies old_group[i] != CLOSE_PAREN by {
            assert(old_group[i] == original[start + i]);
        }
        lemma_count_zero(old_group, CLOSE_PAREN);
        lemma_count_one(CLOSE_PAREN, CLOSE_PAREN);
        lemma_count_one(OPEN_PAREN, CLOSE_PAREN);
        lemma_count_concat(old_group, seq![CLOSE_PAREN], CLOSE_PAREN);
        lemma_count_concat(original.take(start), old_group + seq![CLOSE_PAREN], CLOSE_PAREN);
        lemma_count_concat(
            original.take(start) + (old_group + seq![CLOSE_PAREN]),
            original.skip(end + 1),
            CLOSE_PAREN,
        );
        lemma_count_zero(inner, CLOSE_PAREN);
        lemma_count_concat(seq![OPEN_PAREN], inner, CLOSE_PAREN);
        lemma_count_concat(seq![OPEN_PAREN] + inner, seq![CLOSE_PAREN], CLOSE_PAREN);
        lemma_count_concat(original.take(start), in_parens(inner), CLOSE_PAREN);
        lemma_count_concat(
            original.take(start) + in_parens(inner),
            original.skip(end + 1),
            CLOSE_PAREN,
        );
    }
}

// ---------------------------------------------------------------------------
// What the parts of a reply are
// ---------------------------------------------------------------------------

/// The group of a reply runs from its first opening parenthesis to the first closing one behind
/// that; there is none where one of them is missing.
pub proof fn law_group_of_a_reply(resp: Seq<u8>, i: int, j: int)
    ensures
        group(resp) matches Some((start, end)) ==> {
            &&& 0 <= start < end < resp.len()
            &&& resp[start] == 40
            &&& resp[end] == 41
            &&& 0 <= i < start ==> resp[i] != 40
            &&& start < j < end ==> resp[j] != 41
            &&& group_body(resp) == Some(resp.subrange(start + 1, end))
        },
        group(resp) is None ==> group_body(resp) is None && !(0 <= i < j < resp.len() && resp[i]
            == 40 && resp[j] == 41),
{
    lemma_group(resp);
    text::lemma_find(resp, OPEN_PAREN, 0);
    if let Some(start) = text::find(resp, OPEN_PAREN, 0) {
        text::lemma_find(resp, CLOSE_PAREN, start);
    }
}

/// A passive-mode reply has the code 227, and an extended one 229, with a space or a hyphen behind
/// it.
pub proof fn law_passive_codes(resp: Seq<u8>, epsv: bool)
    ensures
        has_pasv_code(resp) <==> resp.len() >= 4 && resp[0] == 50 && resp[1] == 50 && resp[2] == 55
            && (resp[3] == 32 || resp[3] == 45),
        has_epsv_code(resp) <==> resp.len() >= 4 && resp[0] == 50 && resp[1] == 50 && resp[2] == 57
            && (resp[3] == 32 || resp[3] == 45),
        has_code_of(epsv, resp) <==> (epsv && has_epsv_code(resp)) || (!epsv && has_pasv_code(
            resp,
        )),
{
}

/// Fields are what stands between separators: a text without one is a single field, and what stands
/// before the first one is the first field of the text.
pub proof fn law_fields_between_separators(first: Seq<u8>, rest: Seq<u8>, sep: u8)
    requires
        forall|i: int| 0 <= i < first.len() ==> first[i] != sep,
    ensures
        fields(first, sep) == seq![first],
        fields(first + seq![sep] + rest, sep) == seq![first] + fields(rest, sep),
{
    lemma_fields_cons(first, rest, sep);
    lemma_fields_one(first, sep);
}

/// An extended reply of one line whose parentheses hold three vertical bars, a number and a bar,
/// with or without white space around them, names this port at the host of the control connection,
/// and names none where the number is none.
pub proof fn law_extended_port_is_read(
    resp: Seq<u8>,
    ctrl_peer_ip: Ipv4Addr,
    before: Seq<u8>,
    number: Seq<u8>,
    after: Seq<u8>,
)
    requires
        resp.len() >= 4 && resp[0] == 50 && resp[1] == 50 && resp[2] == 57 && resp[3] == 32,
        text::blank(before),
        text::blank(after),
        group_body(resp) == Some(
            before + (seq![124u8, 124, 124] + number + seq![124u8]) + after,
        ),
    ensures
        epsv_address(resp, ctrl_peer_ip) == (match text::number_u16(number) {
            Some(port) => Some(SocketAddr { ip: IpAddr::V4(ctrl_peer_ip), port }),
            None => None,
        }),
{
    let body = seq![124u8, 124, 124] + number + seq![124u8];
    assert(body[0] == 124 && body.last() == 124);
    assert(seq![body[0]][0] == 124 && seq![body.last()][0] == 124);
    text::law_trimming(before, body, after);
    assert(body.subrange(3, body.len() - 1) =~= number);
}

/// No other reply names an address in the extended form.
pub proof fn law_only_extended_replies_name_a_port(resp: Seq<u8>, ctrl_peer_ip: Ipv4Addr)
    ensures
        epsv_address(resp, ctrl_peer_ip) matches Some(addr) ==> {
            let body = text::trim(group_body(resp)->0);
            &&& resp.len() >= 4 && resp[0] == 50 && resp[1] == 50 && resp[2] == 57 && resp[3] == 32
            &&& group_body(resp) is Some
            &&& body.len() >= 4 && body[0] == 124 && body[1] == 124 && body[2] == 124
            &&& body.last() == 124
            &&& text::number_u16(body.subrange(3, body.len() - 1)) == Some(addr.port)
            &&& addr.ip == IpAddr::V4(ctrl_peer_ip)
        },
{
}

/// Of a number in a passive-mode reply that does not fit in eight bits, the low eight bits count in
/// the host and in the high byte of the port; the last number is laid over the port as a whole.
pub proof fn law_passive_numbers_are_cut(body: Seq<u8>)
    ensures
        pasv_body_address(body) matches Some(addr) ==> {
            let f = fields(body, 44);
            let n = |i: int| text::number_u16(text::trim(f[i]))->0;
            &&& f.len() == 6
            &&& forall|i: int|
                0 <= i < 6 ==> text::number_u16(text::trim(#[trigger] f[i])) is Some
            &&& addr.ip == IpAddr::V4(
                Ipv4Addr {
                    a: (n(0) % 256) as u8,
                    b: (n(1) % 256) as u8,
                    c: (n(2) % 256) as u8,
                    d: (n(3) % 256) as u8,
                },
            )
            &&& addr.port == ((n(4) % 256) * 256) as u16 | n(5)
            &&& n(5) <= 255 ==> addr.port == (n(4) % 256) * 256 + n(5)
        },
        fields(body, 44).len() != 6 ==> pasv_body_address(body) is None,
{
    if pasv_body_address(body) is Some {
        let f = fields(body, COMMA);
        assert forall|i: int| 0 <= i < 6 implies text::number_u16(text::trim(#[trigger] f[i]))
            is Some by {
            assert(field_number(f[i]) is Some);
        }
        let high: u16 = field_number(f[4])->0;
        let low: u16 = field_number(f[5])->0;
        assert((high << 8u16) | low == ((high % 256) * 256) as u16 | low) by (bit_vector);
        assert(low <= 255 ==> (high << 8u16) | low == (high % 256) * 256 + low) by (bit_vector);
    }
}

/// A reply is not rewritten where there is nothing to put into it: without an IPv4 address, and
/// where it has no parentheses.
pub proof fn law_nothing_to_rewrite(original: Seq<u8>, local_addr: Option<SocketAddr>, port: u16)
    ensures
        local_addr is None || local_addr->0.ip is V6 || group(original) is None ==> pasv_rewritten(
            original,
            local_addr,
        ) == original,
        group(original) is None ==> epsv_rewritten(original, port) == original,
{
}

} // verus!
