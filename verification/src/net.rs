//! Network addresses and their text form.

use crate::text;
use crate::text::{push_decimal, push_hex};
use vstd::prelude::*;

verus! {

/// An IPv4 address, by its four octets.
#[derive(Clone, Copy, Debug, PartialEq, Eq, Structural)]
pub struct Ipv4Addr {
    pub a: u8,
    pub b: u8,
    pub c: u8,
    pub d: u8,
}

/// An IPv6 address, by its eight segments.
#[derive(Clone, Copy, Debug, PartialEq, Eq, Structural)]
pub struct Ipv6Addr {
    pub s0: u16,
    pub s1: u16,
    pub s2: u16,
    pub s3: u16,
    pub s4: u16,
    pub s5: u16,
    pub s6: u16,
    pub s7: u16,
}

/// An address of either family.
#[derive(Clone, Copy, Debug, PartialEq, Eq, Structural)]
pub enum IpAddr {
    V4(Ipv4Addr),
    V6(Ipv6Addr),
}

/// An address and a port.
#[derive(Clone, Copy, Debug, PartialEq, Eq, Structural)]
pub struct SocketAddr {
    pub ip: IpAddr,
    pub port: u16,
}

/// The colon.
pub const COLON: u8 = 58;

/// The full stop.
pub const DOT: u8 = 46;

/// The four octets in decimal, with full stops between them.
pub open spec fn octets_text(a: u8, b: u8, c: u8, d: u8) -> Seq<u8> {
    text::decimal(a as nat) + seq![DOT] + text::decimal(b as nat) + seq![DOT] + text::decimal(c as nat) + seq![DOT]
        + text::decimal(d as nat)
}

/// How many of the segments from `i` on are zero without a gap.
pub open spec fn zero_run(s: Seq<u16>, i: int) -> nat
    decreases s.len() - i,
{
    if 0 <= i < s.len() && s[i] == 0 {
        1 + zero_run(s, i + 1)
    } else {
        0
    }
}

/// Where, among the first `n` positions, the longest run of zero segments begins; the first one
/// where several are equally long.
pub open spec fn longest_zero_run(s: Seq<u16>, n: int) -> int
    decreases n,
{
    if n <= 1 {
        0
    } else {
        let best = longest_zero_run(s, n - 1);
        if zero_run(s, n - 1) > zero_run(s, best) {
            n - 1
        } else {
            best
        }
    }
}

/// Segments in hexadecimal, with colons between them.
pub open spec fn segments_text(s: Seq<u16>) -> Seq<u8>
    decreases s.len(),
{
    if s.len() == 0 {
        Seq::empty()
    } else if s.len() == 1 {
        text::hex(s[0] as nat)
    } else {
        segments_text(s.drop_last()) + seq![COLON] + text::hex(s.last() as nat)
    }
}

/// An IPv4 address mapped into IPv6.
pub open spec fn is_mapped(s: Seq<u16>) -> bool {
    s[0] == 0 && s[1] == 0 && s[2] == 0 && s[3] == 0 && s[4] == 0 && s[5] == 0xffff
}

/// The canonical text of an IPv6 address: the longest run of two or more zero segments is
/// written as two colons, and a mapped IPv4 address ends in its dotted form.
pub open spec fn v6_text(s: Seq<u16>) -> Seq<u8> {
    if is_mapped(s) {
        seq![COLON, COLON] + text::hex(0xffff) + seq![COLON] + octets_text(
            (s[6] / 256) as u8,
            (s[6] % 256) as u8,
            (s[7] / 256) as u8,
            (s[7] % 256) as u8,
        )
    } else {
        let start = longest_zero_run(s, 8);
        let len = zero_run(s, start);
        if len > 1 {
            segments_text(s.take(start)) + seq![COLON, COLON] + segments_text(
                s.skip(start + len),
            )
        } else {
            segments_text(s)
        }
    }
}

impl Ipv4Addr {
    /// The address 127.0.0.1.
    pub fn localhost() -> (r: Ipv4Addr)
        ensures
            r == (Ipv4Addr { a: 127, b: 0, c: 0, d: 1 }),
    {
        Ipv4Addr { a: 127, b: 0, c: 0, d: 1 }
    }

    /// The address 0.0.0.0.
    pub fn unspecified() -> (r: Ipv4Addr)
        ensures
            r == (Ipv4Addr { a: 0, b: 0, c: 0, d: 0 }),
    {
        Ipv4Addr { a: 0, b: 0, c: 0, d: 0 }
    }

    pub fn new(a: u8, b: u8, c: u8, d: u8) -> (r: Ipv4Addr)
        ensures
            r == (Ipv4Addr { a, b, c, d }),
    {
        Ipv4Addr { a, b, c, d }
    }
}

impl Ipv6Addr {
    pub open spec fn segments(self) -> Seq<u16> {
        seq![self.s0, self.s1, self.s2, self.s3, self.s4, self.s5, self.s6, self.s7]
    }

    fn segment_vec(&self) -> (r: Vec<u16>)
        ensures
            r@ == self.segments(),
    {
        let mut v: Vec<u16> = Vec::new();
        v.push(self.s0);
        v.push(self.s1);
        v.push(self.s2);
        v.push(self.s3);
        v.push(self.s4);
        v.push(self.s5);
        v.push(self.s6);
        v.push(self.s7);
        assert(v@ =~= self.segments());
        v
    }
}

/// The text of an address.
pub open spec fn ip_text(ip: IpAddr) -> Seq<u8> {
    match ip {
        IpAddr::V4(v4) => octets_text(v4.a, v4.b, v4.c, v4.d),
        IpAddr::V6(v6) => v6_text(v6.segments()),
    }
}

fn push_octets(out: &mut Vec<u8>, a: u8, b: u8, c: u8, d: u8)
    ensures
        final(out)@ == old(out)@ + octets_text(a, b, c, d),
{
    push_decimal(out, a as u64);
    out.push(DOT);
    push_decimal(out, b as u64);
    out.push(DOT);
    push_decimal(out, c as u64);
    out.push(DOT);
    push_decimal(out, d as u64);
    assert(out@ =~= old(out)@ + octets_text(a, b, c, d));
}

fn count_zero_run(s: &Vec<u16>, i: usize) -> (r: usize)
    requires
        i <= s@.len(),
    ensures
        r == zero_run(s@, i as int),
        i + r <= s@.len(),
    decreases s@.len() - i,
{
    if i < s.len() && s[i] == 0 {
        1 + count_zero_run(s, i + 1)
    } else {
        0
    }
}

fn push_segments(out: &mut Vec<u8>, s: &Vec<u16>, from: usize, to: usize)
    requires
        from <= to <= s@.len(),
    ensures
        final(out)@ == old(out)@ + segments_text(s@.subrange(from as int, to as int)),
    decreases to - from,
{
    let ghost part = s@.subrange(from as int, to as int);
    if to == from {
        assert(out@ =~= old(out)@ + segments_text(part));
    } else if to - from == 1 {
        push_hex(out, s[from] as u64);
        assert(part[0] == s@[from as int]);
    } else {
        push_segments(out, s, from, to - 1);
        assert(part.drop_last() =~= s@.subrange(from as int, to - 1));
        assert(part.last() == s@[to - 1]);
        out.push(COLON);
        push_hex(out, s[to - 1] as u64);
        assert(out@ =~= old(out)@ + segments_text(part));
    }
}

fn push_v6(out: &mut Vec<u8>, v6: &Ipv6Addr)
    ensures
        final(out)@ == old(out)@ + v6_text(v6.segments()),
{
    let s = v6.segment_vec();
    let ghost segs = v6.segments();
    if v6.s0 == 0 && v6.s1 == 0 && v6.s2 == 0 && v6.s3 == 0 && v6.s4 == 0 && v6.s5 == 0xffff {
        out.push(COLON);
        out.push(COLON);
        push_hex(out, 0xffff);
        out.push(COLON);
        push_octets(
            out,
            (v6.s6 / 256) as u8,
            (v6.s6 % 256) as u8,
            (v6.s7 / 256) as u8,
            (v6.s7 % 256) as u8,
        );
        assert(out@ =~= old(out)@ + v6_text(segs));
        return;
    }
    let mut best: usize = 0;
    let mut best_len: usize = count_zero_run(&s, 0);
    let mut i: usize = 1;
    while i < 8
        invariant
            s@ == segs,
            segs.len() == 8,
            1 <= i <= 8,
            best == longest_zero_run(segs, i as int),
            best_len == zero_run(segs, best as int),
            best + best_len <= 8,
        decreases 8 - i,
    {
        let n: usize = count_zero_run(&s, i);
        if n > best_len {
            best = i;
            best_len = n;
        }
        i += 1;
    }
    if best_len > 1 {
        push_segments(out, &s, 0, best);
        out.push(COLON);
        out.push(COLON);
        push_segments(out, &s, best + best_len, 8);
        assert(segs.subrange(0, best as int) =~= segs.take(best as int));
        assert(segs.subrange(best + best_len, 8) =~= segs.skip(best + best_len));
        assert(out@ =~= old(out)@ + v6_text(segs));
    } else {
        push_segments(out, &s, 0, 8);
        assert(segs.subrange(0, 8) =~= segs);
    }
}

impl IpAddr {
    /// Appends the text of the address.
    pub fn push_text(&self, out: &mut Vec<u8>)
        ensures
            final(out)@ == old(out)@ + ip_text(*self),
    {
        match self {
            IpAddr::V4(v4) => push_octets(out, v4.a, v4.b, v4.c, v4.d),
            IpAddr::V6(v6) => push_v6(out, v6),
        }
    }
}

impl SocketAddr {
    pub fn new(ip: IpAddr, port: u16) -> (r: SocketAddr)
        ensures
            r == (SocketAddr { ip, port }),
    {
        SocketAddr { ip, port }
    }

    pub fn ip(&self) -> (r: IpAddr)
        ensures
            r == self.ip,
    {
        self.ip
    }

    pub fn port(&self) -> (r: u16)
        ensures
            r == self.port,
    {
        self.port
    }
}

// ---------------------------------------------------------------------------
// What an address reads as
// ---------------------------------------------------------------------------

proof fn lemma_no_sign(n: nat, sign: u8)
    requires
        !text::is_digit(sign),
    ensures
        forall|i: int| 0 <= i < text::decimal(n).len() ==> text::decimal(n)[i] != sign,
{
    text::lemma_decimal(n);
    assert forall|i: int| 0 <= i < text::decimal(n).len() implies text::decimal(n)[i] != sign by {
        assert(text::is_digit(text::decimal(n)[i]));
    }
}

/// An IPv4 address reads as its four numbers, in order, with full stops between them; each is read
/// back from its field.
pub proof fn law_v4_is_read_back(v4: Ipv4Addr)
    ensures
        ({
            let f = crate::passive::fields(ip_text(IpAddr::V4(v4)), 46);
            &&& f.len() == 4
            &&& text::number_u16(f[0]) == Some(v4.a as u16)
            &&& text::number_u16(f[1]) == Some(v4.b as u16)
            &&& text::number_u16(f[2]) == Some(v4.c as u16)
            &&& text::number_u16(f[3]) == Some(v4.d as u16)
        }),
{
    lemma_octets_fields(v4.a, v4.b, v4.c, v4.d);
    text::lemma_number_of_decimal(v4.a as u16);
    text::lemma_number_of_decimal(v4.b as u16);
    text::lemma_number_of_decimal(v4.c as u16);
    text::lemma_number_of_decimal(v4.d as u16);
}

proof fn lemma_octets_fields(a: u8, b: u8, c: u8, d: u8)
    ensures
        crate::passive::fields(octets_text(a, b, c, d), DOT) == seq![
            text::decimal(a as nat),
            text::decimal(b as nat),
            text::decimal(c as nat),
            text::decimal(d as nat),
        ],
{
    let ta = text::decimal(a as nat);
    let tb = text::decimal(b as nat);
    let tc = text::decimal(c as nat);
    let td = text::decimal(d as nat);
    let dot = seq![DOT];
    lemma_no_sign(a as nat, DOT);
    lemma_no_sign(b as nat, DOT);
    lemma_no_sign(c as nat, DOT);
    lemma_no_sign(d as nat, DOT);
    crate::passive::law_fields_between_separators(td, td, DOT);
    crate::passive::law_fields_between_separators(tc, td, DOT);
    crate::passive::law_fields_between_separators(tb, tc + dot + td, DOT);
    crate::passive::law_fields_between_separators(ta, tb + dot + (tc + dot + td), DOT);
    assert(octets_text(a, b, c, d) =~= ta + dot + (tb + dot + (tc + dot + td)));
    assert(seq![ta] + (seq![tb] + (seq![tc] + seq![td])) =~= seq![ta, tb, tc, td]);
}

proof fn lemma_zero_run(s: Seq<u16>, i: int)
    requires
        0 <= i <= s.len(),
    ensures
        i + zero_run(s, i) <= s.len(),
        forall|j: int| i <= j < i + zero_run(s, i) ==> s[j] == 0,
        i + zero_run(s, i) < s.len() ==> s[i + zero_run(s, i)] != 0,
    decreases s.len() - i,
{
    if i < s.len() && s[i] == 0 {
        lemma_zero_run(s, i + 1);
    }
}

proof fn lemma_longest(s: Seq<u16>, n: int)
    requires
        1 <= n <= s.len(),
    ensures
        0 <= longest_zero_run(s, n) < n,
        forall|j: int|
            0 <= j < n ==> #[trigger] zero_run(s, j) <= zero_run(s, longest_zero_run(s, n)),
        forall|j: int|
            0 <= j < longest_zero_run(s, n) ==> #[trigger] zero_run(s, j) < zero_run(
                s,
                longest_zero_run(s, n),
            ),
    decreases n,
{
    if n > 1 {
        lemma_longest(s, n - 1);
    }
}

/// What is left out of an IPv6 address is a run of two or more zero segments, none of the others is
/// longer, and it is the first of its length; all other segments stand, in order, on either side
/// of two colons. Without such a run all segments stand. A mapped IPv4 address reads as itself
/// behind its prefix.
pub proof fn law_v6_text(v6: Ipv6Addr)
    ensures
        ({
            let s = v6.segments();
            let mapped = s[0] == 0 && s[1] == 0 && s[2] == 0 && s[3] == 0 && s[4] == 0 && s[5]
                == 65535;
            let start = longest_zero_run(s, 8);
            let end = start + zero_run(s, start);
            &&& mapped ==> ip_text(IpAddr::V6(v6)) == seq![58u8, 58, 102, 102, 102, 102, 58]
                + ip_text(
                IpAddr::V4(
                    Ipv4Addr {
                        a: (s[6] / 256) as u8,
                        b: (s[6] % 256) as u8,
                        c: (s[7] / 256) as u8,
                        d: (s[7] % 256) as u8,
                    },
                ),
            )
            &&& !mapped && end - start >= 2 ==> {
                &&& 0 <= start < end <= 8
                &&& forall|j: int| start <= j < end ==> s[j] == 0
                &&& end < 8 ==> s[end] != 0
                &&& forall|j: int| 0 <= j < 8 ==> #[trigger] zero_run(s, j) <= end - start
                &&& forall|j: int| 0 <= j < start ==> #[trigger] zero_run(s, j) < end - start
                &&& ip_text(IpAddr::V6(v6)) == segments_text(s.take(start)) + seq![58u8, 58]
                    + segments_text(s.skip(end))
            }
            &&& !mapped && end - start < 2 ==> {
                &&& ip_text(IpAddr::V6(v6)) == segments_text(s)
                &&& forall|j: int| 0 <= j < 7 ==> !(#[trigger] s[j] == 0 && s[j + 1] == 0)
            }
        }),
{
    let s = v6.segments();
    let start = longest_zero_run(s, 8);
    lemma_longest(s, 8);
    lemma_zero_run(s, start);
    if zero_run(s, start) < 2 {
        assert forall|j: int| 0 <= j < 7 implies !(#[trigger] s[j] == 0 && s[j + 1] == 0) by {
            assert(zero_run(s, j) <= zero_run(s, start));
            if s[j] == 0 && s[j + 1] == 0 {
                assert(zero_run(s, j) == 1 + zero_run(s, j + 1));
                assert(zero_run(s, j + 1) == 1 + zero_run(s, j + 2));
            }
        }
    }
    assert(text::hex(0xffff) =~= seq![102u8, 102, 102, 102]) by {
        reveal_with_fuel(text::hex, 5);
    }
    if is_mapped(s) {
        let v4 = octets_text(
            (s[6] / 256) as u8,
            (s[6] % 256) as u8,
            (s[7] / 256) as u8,
            (s[7] % 256) as u8,
        );
        assert(seq![COLON, COLON] + text::hex(0xffff) + seq![COLON] + v4 =~= seq![
            58u8,
            58,
            102,
            102,
            102,
            102,
            58,
        ] + v4);
    }
}

/// Segments read as hexadecimal numbers, in order, with colons between them.
pub proof fn law_segments_text(s: Seq<u16>, last: u16)
    ensures
        segments_text(Seq::empty()).len() == 0,
        segments_text(seq![last]) == text::hex(last as nat),
        crate::body::hex_value(text::hex(last as nat)) == Some(last as nat),
        s.len() > 0 ==> segments_text(s.push(last)) == segments_text(s) + seq![58u8] + text::hex(
            last as nat,
        ),
{
    crate::body::lemma_hex(last as nat);
    assert(s.push(last).drop_last() =~= s);
}

} // verus!
