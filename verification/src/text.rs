//! Byte and character text: searching, trimming, and numbers in decimal and hexadecimal.

use vstd::prelude::*;
use vstd::string::*;
use vstd::utf8::*;

verus! {

/// Line feed.
pub const LF: u8 = 10;

/// Carriage return.
pub const CR: u8 = 13;

/// The space character.
pub const SPACE: u8 = 32;

/// Opening parenthesis.
pub const OPEN_PAREN: u8 = 40;

/// Closing parenthesis.
pub const CLOSE_PAREN: u8 = 41;

/// Comma.
pub const COMMA: u8 = 44;

/// Hyphen.
pub const HYPHEN: u8 = 45;

/// Vertical bar.
pub const PIPE: u8 = 124;

/// Plus sign.
pub const PLUS: u8 = 43;

/// The digit zero.
pub const ZERO: u8 = 48;

// ---------------------------------------------------------------------------
// Classes of bytes
// ---------------------------------------------------------------------------

/// ASCII letters.
pub open spec fn is_alpha(b: u8) -> bool {
    65 <= b <= 90 || 97 <= b <= 122
}

/// ASCII digits.
pub open spec fn is_digit(b: u8) -> bool {
    48 <= b <= 57
}

/// ASCII white space: space, tab, line feed, form feed and carriage return.
pub open spec fn is_space(b: u8) -> bool {
    b == 32 || b == 9 || b == 10 || b == 12 || b == 13
}

/// The upper-case form of an ASCII letter; any other byte stays as it is.
pub open spec fn upper(b: u8) -> u8 {
    if 97 <= b <= 122 {
        (b - 32) as u8
    } else {
        b
    }
}

pub fn byte_is_alpha(b: u8) -> (r: bool)
    ensures
        r == is_alpha(b),
{
    (b >= 65 && b <= 90) || (b >= 97 && b <= 122)
}

pub fn byte_is_digit(b: u8) -> (r: bool)
    ensures
        r == is_digit(b),
{
    b >= 48 && b <= 57
}

pub fn byte_is_space(b: u8) -> (r: bool)
    ensures
        r == is_space(b),
{
    b == 32 || b == 9 || b == 10 || b == 12 || b == 13
}

pub fn byte_upper(b: u8) -> (r: u8)
    ensures
        r == upper(b),
{
    if b >= 97 && b <= 122 {
        b - 32
    } else {
        b
    }
}

// ---------------------------------------------------------------------------
// Comparing
// ---------------------------------------------------------------------------

/// Whether two byte strings are equal.
pub fn bytes_eq(a: &[u8], b: &[u8]) -> (r: bool)
    ensures
        r == (a@ == b@),
{
    if a.len() != b.len() {
        return false;
    }
    let mut i: usize = 0;
    while i < a.len()
        invariant
            a@.len() == b@.len(),
            i <= a@.len(),
            forall|j: int| 0 <= j < i ==> a@[j] == b@[j],
        decreases a@.len() - i,
    {
        if a[i] != b[i] {
            return false;
        }
        i += 1;
    }
    assert(a@ =~= b@);
    true
}

/// Whether two strings hold the same characters.
pub fn str_eq(a: &str, b: &str) -> (r: bool)
    ensures
        r == (a@ == b@),
{
    proof {
        encode_utf8_decode_utf8(a@);
        encode_utf8_decode_utf8(b@);
    }
    bytes_eq(a.as_bytes(), b.as_bytes())
}

/// `s` begins with `prefix`.
pub open spec fn starts_with(s: Seq<u8>, prefix: Seq<u8>) -> bool {
    prefix.len() <= s.len() && s.take(prefix.len() as int) == prefix
}

/// Whether `s` begins with `prefix`.
pub fn bytes_start_with(s: &[u8], prefix: &[u8]) -> (r: bool)
    ensures
        r == starts_with(s@, prefix@),
{
    if prefix.len() > s.len() {
        return false;
    }
    let mut i: usize = 0;
    while i < prefix.len()
        invariant
            prefix@.len() <= s@.len(),
            i <= prefix@.len(),
            forall|j: int| 0 <= j < i ==> s@[j] == prefix@[j],
        decreases prefix@.len() - i,
    {
        if s[i] != prefix[i] {
            assert(s@.take(prefix@.len() as int)[i as int] == s@[i as int]);
            return false;
        }
        i += 1;
    }
    assert(s@.take(prefix@.len() as int) =~= prefix@);
    true
}

// ---------------------------------------------------------------------------
// Searching
// ---------------------------------------------------------------------------

/// The first position at or after `from` that holds `b`.
pub open spec fn find(s: Seq<u8>, b: u8, from: int) -> Option<int>
    decreases s.len() - from,
{
    if from < 0 || from >= s.len() {
        None
    } else if s[from] == b {
        Some(from)
    } else {
        find(s, b, from + 1)
    }
}

/// What `find` finds is the first such position, and it finds one if there is one.
pub proof fn lemma_find(s: Seq<u8>, b: u8, from: int)
    requires
        0 <= from,
    ensures
        find(s, b, from) matches Some(i) ==> from <= i < s.len() && s[i] == b && forall|j: int|
            from <= j < i ==> s[j] != b,
        find(s, b, from) is None ==> forall|j: int| from <= j < s.len() ==> s[j] != b,
    decreases s.len() - from,
{
    if from < s.len() && s[from] != b {
        lemma_find(s, b, from + 1);
    }
}

/// A position that holds `b` with none before it is what `find` finds.
pub proof fn lemma_find_is(s: Seq<u8>, b: u8, from: int, i: int)
    requires
        0 <= from <= i < s.len(),
        s[i] == b,
        forall|j: int| from <= j < i ==> s[j] != b,
    ensures
        find(s, b, from) == Some(i),
    decreases i - from,
{
    if from < i {
        lemma_find_is(s, b, from + 1, i);
    }
}

/// Where no position holds `b`, `find` finds none.
pub proof fn lemma_find_none(s: Seq<u8>, b: u8, from: int)
    requires
        0 <= from,
        forall|j: int| from <= j < s.len() ==> s[j] != b,
    ensures
        find(s, b, from) is None,
    decreases s.len() - from,
{
    if from < s.len() {
        lemma_find_none(s, b, from + 1);
    }
}

/// The first position at or after `from` that holds `b`.
pub fn find_byte(s: &[u8], b: u8, from: usize) -> (r: Option<usize>)
    ensures
        match r {
            Some(i) => i < s@.len() && find(s@, b, from as int) == Some(i as int),
            None => find(s@, b, from as int) is None,
        },
{
    let mut i: usize = from;
    while i < s.len()
        invariant
            from <= i,
            find(s@, b, from as int) == find(s@, b, i as int),
        decreases s@.len() - i,
    {
        if s[i] == b {
            return Some(i);
        }
        i += 1;
    }
    None
}

// ---------------------------------------------------------------------------
// Trimming
// ---------------------------------------------------------------------------

/// `s` without its leading white space.
pub open spec fn trim_start(s: Seq<u8>) -> Seq<u8>
    decreases s.len(),
{
    if s.len() > 0 && is_space(s[0]) {
        trim_start(s.skip(1))
    } else {
        s
    }
}

/// `s` without its trailing white space.
pub open spec fn trim_end(s: Seq<u8>) -> Seq<u8>
    decreases s.len(),
{
    if s.len() > 0 && is_space(s.last()) {
        trim_end(s.drop_last())
    } else {
        s
    }
}

/// `s` without the white space at both ends.
pub open spec fn trim(s: Seq<u8>) -> Seq<u8> {
    trim_end(trim_start(s))
}

/// A text whose first and last bytes are no white space is left as it is by trimming.
pub proof fn lemma_trim_fixed(s: Seq<u8>)
    requires
        s.len() > 0 ==> !is_space(s[0]) && !is_space(s.last()),
    ensures
        trim(s) == s,
{
}

/// The part of `data` between the white space at its two ends.
pub fn trim_ascii(data: &[u8]) -> (r: &[u8])
    ensures
        r@ == trim(data@),
{
    let mut i: usize = 0;
    assert(data@.skip(0) =~= data@);
    while i < data.len() && byte_is_space(data[i])
        invariant
            i <= data@.len(),
            trim_start(data@) == trim_start(data@.skip(i as int)),
        decreases data@.len() - i,
    {
        assert(data@.skip(i as int).skip(1) =~= data@.skip(i + 1));
        i += 1;
    }
    let ghost front = data@.skip(i as int);
    assert(trim_start(data@) == front);
    let mut e: usize = data.len();
    assert(data@.subrange(i as int, e as int) =~= front);
    while e > i && byte_is_space(data[e - 1])
        invariant
            i <= e <= data@.len(),
            trim_end(front) == trim_end(data@.subrange(i as int, e as int)),
        decreases e,
    {
        assert(data@.subrange(i as int, e as int).drop_last() =~= data@.subrange(
            i as int,
            e - 1,
        ));
        assert(data@.subrange(i as int, e as int).last() == data@[e - 1]);
        e -= 1;
    }
    assert(e > i ==> data@.subrange(i as int, e as int).last() == data@[e - 1]);
    vstd::slice::slice_subrange(data, i, e)
}

// ---------------------------------------------------------------------------
// Numbers
// ---------------------------------------------------------------------------

/// The ASCII digit of a number below ten.
pub open spec fn digit(d: nat) -> u8 {
    (48 + d) as u8
}

/// A number in decimal, without leading zeros.
pub open spec fn decimal(n: nat) -> Seq<u8>
    decreases n,
{
    if n < 10 {
        seq![digit(n)]
    } else {
        decimal(n / 10).push(digit(n % 10))
    }
}

/// The ASCII digit, in lower case, of a number below sixteen.
pub open spec fn hex_digit(d: nat) -> u8 {
    if d < 10 {
        (48 + d) as u8
    } else {
        (87 + d) as u8
    }
}

/// A number in lower-case hexadecimal, without leading zeros.
pub open spec fn hex(n: nat) -> Seq<u8>
    decreases n,
{
    if n < 16 {
        seq![hex_digit(n)]
    } else {
        hex(n / 16).push(hex_digit(n % 16))
    }
}

/// Appends a number in decimal.
pub fn push_decimal(out: &mut Vec<u8>, n: u64)
    ensures
        final(out)@ == old(out)@ + decimal(n as nat),
    decreases n,
{
    if n < 10 {
        out.push(ZERO + n as u8);
        assert(out@ =~= old(out)@ + decimal(n as nat));
    } else {
        push_decimal(out, n / 10);
        out.push(ZERO + (n % 10) as u8);
        assert(out@ =~= old(out)@ + decimal(n as nat));
    }
}

/// Appends a number in lower-case hexadecimal.
pub fn push_hex(out: &mut Vec<u8>, n: u64)
    ensures
        final(out)@ == old(out)@ + hex(n as nat),
    decreases n,
{
    if n >= 16 {
        push_hex(out, n / 16);
    }
    let d: u8 = (n % 16) as u8;
    if d < 10 {
        out.push(48 + d);
    } else {
        out.push(87 + d);
    }
    assert(out@ =~= old(out)@ + hex(n as nat));
}

/// The number that a string of decimal digits stands for.
pub open spec fn digits_value(s: Seq<u8>) -> nat
    decreases s.len(),
{
    if s.len() == 0 {
        0
    } else {
        digits_value(s.drop_last()) * 10 + (s.last() - 48) as nat
    }
}

pub open spec fn all_digits(s: Seq<u8>) -> bool {
    forall|i: int| 0 <= i < s.len() ==> is_digit(#[trigger] s[i])
}

/// What follows one leading plus sign, where anything does.
pub open spec fn unsigned(s: Seq<u8>) -> Seq<u8> {
    if s.len() > 1 && s[0] == PLUS {
        s.skip(1)
    } else {
        s
    }
}

/// The 16-bit number written in decimal, with or without a leading plus sign; none if there are
/// no digits, there is anything else, or the number is too large.
pub open spec fn number_u16(s: Seq<u8>) -> Option<u16> {
    let d = unsigned(s);
    if d.len() > 0 && all_digits(d) && digits_value(d) <= 65535 {
        Some(digits_value(d) as u16)
    } else {
        None
    }
}

/// A decimal number consists of digits, at least one, and stands for the number.
pub proof fn lemma_decimal(n: nat)
    ensures
        decimal(n).len() > 0,
        all_digits(decimal(n)),
        digits_value(decimal(n)) == n,
    decreases n,
{
    if n < 10 {
        assert(decimal(n).drop_last() =~= Seq::<u8>::empty());
        assert(digits_value(Seq::<u8>::empty()) == 0);
    } else {
        lemma_decimal(n / 10);
        assert(decimal(n).drop_last() =~= decimal(n / 10));
    }
}

/// A 16-bit number is read back from its decimal form.
pub proof fn lemma_number_of_decimal(n: u16)
    ensures
        number_u16(decimal(n as nat)) == Some(n),
{
    lemma_decimal(n as nat);
    assert(is_digit(decimal(n as nat)[0]));
}

/// Dropping digits from the right never makes the number larger.
proof fn lemma_digits_prefix(s: Seq<u8>, k: int)
    requires
        all_digits(s),
        0 <= k <= s.len(),
    ensures
        digits_value(s.take(k)) <= digits_value(s),
    decreases s.len() - k,
{
    if k == s.len() {
        assert(s.take(k) =~= s);
    } else {
        lemma_digits_prefix(s, k + 1);
        assert(s.take(k + 1).drop_last() =~= s.take(k));
        assert(is_digit(s[k]));
    }
}

/// Reads a 16-bit decimal number.
pub fn parse_u16(s: &[u8]) -> (r: Option<u16>)
    ensures
        r == number_u16(s@),
{
    let start: usize = if s.len() > 1 && s[0] == PLUS {
        1
    } else {
        0
    };
    let ghost d = unsigned(s@);
    assert(d =~= s@.skip(start as int));
    if s.len() == start {
        return None;
    }
    let mut value: u32 = 0;
    let mut i: usize = start;
    assert(d.take(0) =~= Seq::<u8>::empty());
    while i < s.len()
        invariant
            d == s@.skip(start as int),
            d == unsigned(s@),
            start <= i <= s@.len(),
            d.len() == s@.len() - start,
            d.len() > 0,
            all_digits(d.take(i - start)),
            value == digits_value(d.take(i - start)),
            value <= 65535,
        decreases s@.len() - i,
    {
        let b: u8 = s[i];
        assert(d[i - start] == b);
        if !byte_is_digit(b) {
            return None;
        }
        let ghost k = i - start;
        assert(d.take(k + 1).drop_last() =~= d.take(k));
        assert(d.take(k + 1).last() == b);
        assert forall|j: int| 0 <= j < k + 1 implies is_digit(#[trigger] d.take(k + 1)[j]) by {
            if j < k {
                assert(d.take(k + 1)[j] == d.take(k)[j]);
            }
        }
        value = value * 10 + (b - 48) as u32;
        if value > 65535 {
            proof {
                if all_digits(d) {
                    lemma_digits_prefix(d, k + 1);
                }
            }
            return None;
        }
        i += 1;
    }
    assert(d.take(s@.len() - start) =~= d);
    Some(value as u16)
}

// ---------------------------------------------------------------------------
// White space and words of characters
// ---------------------------------------------------------------------------

/// The characters with the Unicode property `White_Space`.
pub open spec fn white_space(c: char) -> bool {
    let u = c as u32;
    ||| 0x9 <= u <= 0xd
    ||| u == 0x20
    ||| u == 0x85
    ||| u == 0xa0
    ||| u == 0x1680
    ||| 0x2000 <= u <= 0x200a
    ||| u == 0x2028
    ||| u == 0x2029
    ||| u == 0x202f
    ||| u == 0x205f
    ||| u == 0x3000
}

/// Whether a character is white space.
pub fn is_white_space(c: char) -> (r: bool)
    ensures
        r == white_space(c),
{
    let u: u32 = c as u32;
    (u >= 0x9 && u <= 0xd) || u == 0x20 || u == 0x85 || u == 0xa0 || u == 0x1680 || (u >= 0x2000
        && u <= 0x200a) || u == 0x2028 || u == 0x2029 || u == 0x202f || u == 0x205f || u == 0x3000
}

/// The first position at or after `from` that holds no white space; the length if there is none.
pub open spec fn skip_space(s: Seq<char>, from: int) -> int
    decreases s.len() - from,
{
    if 0 <= from < s.len() && white_space(s[from]) {
        skip_space(s, from + 1)
    } else {
        from
    }
}

/// The first position at or after `from` that holds white space; the length if there is none.
pub open spec fn word_end(s: Seq<char>, from: int) -> int
    decreases s.len() - from,
{
    if 0 <= from < s.len() && !white_space(s[from]) {
        word_end(s, from + 1)
    } else {
        from
    }
}

pub proof fn lemma_skip_space(s: Seq<char>, from: int)
    requires
        0 <= from <= s.len(),
    ensures
        from <= skip_space(s, from) <= s.len(),
        skip_space(s, from) < s.len() ==> !white_space(s[skip_space(s, from)]),
        forall|j: int| from <= j < skip_space(s, from) ==> white_space(#[trigger] s[j]),
    decreases s.len() - from,
{
    if from < s.len() && white_space(s[from]) {
        lemma_skip_space(s, from + 1);
    }
}

pub proof fn lemma_word_end(s: Seq<char>, from: int)
    requires
        0 <= from <= s.len(),
    ensures
        from <= word_end(s, from) <= s.len(),
        word_end(s, from) < s.len() ==> white_space(s[word_end(s, from)]),
        forall|j: int| from <= j < word_end(s, from) ==> !white_space(#[trigger] s[j]),
        from < s.len() && !white_space(s[from]) ==> from < word_end(s, from),
    decreases s.len() - from,
{
    if from < s.len() && !white_space(s[from]) {
        lemma_word_end(s, from + 1);
    }
}

/// The words of `s` from position `from` on: the longest runs of characters that are no white
/// space, in order.
pub open spec fn words(s: Seq<char>, from: int) -> Seq<Seq<char>>
    decreases s.len() - from,
{
    if from < 0 || from >= s.len() {
        Seq::empty()
    } else if white_space(s[from]) {
        words(s, from + 1)
    } else {
        let e = word_end(s, from);
        proof {
            lemma_word_end(s, from);
        }
        seq![s.subrange(from, e)] + words(s, e)
    }
}

/// The words from `from` on are the next word and the words behind it.
pub proof fn lemma_words_next(s: Seq<char>, from: int)
    requires
        0 <= from <= s.len(),
    ensures
        ({
            let i = skip_space(s, from);
            let e = word_end(s, i);
            &&& i == s.len() ==> words(s, from) == Seq::<Seq<char>>::empty()
            &&& i < s.len() ==> words(s, from) == seq![s.subrange(i, e)] + words(s, e)
        }),
    decreases s.len() - from,
{
    if from < s.len() && white_space(s[from]) {
        lemma_words_next(s, from + 1);
    }
}

/// `s` without the white space at both ends.
pub open spec fn trim_text(s: Seq<char>) -> Seq<char> {
    let i = skip_space(s, 0);
    s.subrange(i, text_end(s, i, s.len() as int))
}

/// The end of `s` between `low` and `end` once the white space before `end` is left off.
pub open spec fn text_end(s: Seq<char>, low: int, end: int) -> int
    decreases end - low,
{
    if low < end <= s.len() && 0 <= low && white_space(s[end - 1]) {
        text_end(s, low, end - 1)
    } else {
        end
    }
}

/// The characters of a string.
pub fn char_vec(s: &str) -> (r: Vec<char>)
    ensures
        r@ == s@,
{
    let mut v: Vec<char> = Vec::new();
    for c in it: s.chars()
        invariant
            it.seq() == s@,
            v@ == s@.take(it.index() as int),
    {
        v.push(c);
        assert(v@ =~= s@.take(it.index() as int + 1));
    }
    assert(s@.take(s@.len() as int) =~= s@);
    v
}

/// The bounds of the next word at or after `from`.
pub fn next_word(s: &[char], from: usize) -> (r: Option<(usize, usize)>)
    requires
        from <= s@.len(),
    ensures
        match r {
            Some((i, e)) => i == skip_space(s@, from as int) && e == word_end(s@, i as int) && i < e
                <= s@.len(),
            None => skip_space(s@, from as int) == s@.len(),
        },
{
    let mut i: usize = from;
    while i < s.len() && is_white_space(s[i])
        invariant
            from <= i <= s@.len(),
            skip_space(s@, from as int) == skip_space(s@, i as int),
        decreases s@.len() - i,
    {
        i += 1;
    }
    if i == s.len() {
        return None;
    }
    proof {
        lemma_word_end(s@, i as int);
    }
    let mut e: usize = i;
    while e < s.len() && !is_white_space(s[e])
        invariant
            i <= e <= s@.len(),
            word_end(s@, i as int) == word_end(s@, e as int),
        decreases s@.len() - e,
    {
        e += 1;
    }
    Some((i, e))
}

/// The string without the white space at both ends.
pub fn trimmed(s: &str) -> (r: String)
    ensures
        r@ == trim_text(s@),
{
    let v = char_vec(s);
    let mut i: usize = 0;
    while i < v.len() && is_white_space(v[i])
        invariant
            v@ == s@,
            i <= v@.len(),
            skip_space(s@, 0) == skip_space(s@, i as int),
        decreases v@.len() - i,
    {
        i += 1;
    }
    let mut e: usize = v.len();
    while e > i && is_white_space(v[e - 1])
        invariant
            v@ == s@,
            i <= e <= v@.len(),
            text_end(s@, i as int, s@.len() as int) == text_end(s@, i as int, e as int),
        decreases e,
    {
        e -= 1;
    }
    s.substring_char(i, e).to_owned()
}

/// The text that an optional string holds.
pub open spec fn text_of(s: Option<String>) -> Option<Seq<char>> {
    match s {
        Some(s) => Some(s@),
        None => None,
    }
}

// ---------------------------------------------------------------------------
// What the operations are for
// ---------------------------------------------------------------------------

/// The encoding of a text is that of its parts in a row.
pub proof fn lemma_encode_concat(a: Seq<char>, b: Seq<char>)
    ensures
        encode_utf8(a + b) == encode_utf8(a) + encode_utf8(b),
    decreases a.len(),
{
    if a.len() == 0 {
        assert(a + b =~= b);
        assert(encode_utf8(a) + encode_utf8(b) =~= encode_utf8(b));
    } else {
        assert((a + b).drop_first() =~= a.drop_first() + b);
        lemma_encode_concat(a.drop_first(), b);
        let first = encode_scalar(a[0] as u32);
        assert((a + b)[0] == a[0]);
        assert(first + (encode_utf8(a.drop_first()) + encode_utf8(b)) =~= (first + encode_utf8(
            a.drop_first(),
        )) + encode_utf8(b));
    }
}

/// Nothing but spaces, tabs, line feeds, form feeds and carriage returns.
pub open spec fn blank(s: Seq<u8>) -> bool {
    forall|i: int|
        0 <= i < s.len() ==> (#[trigger] s[i] == 32 || s[i] == 9 || s[i] == 10 || s[i] == 12 || s[i]
            == 13)
}

proof fn lemma_trim_start_skips(before: Seq<u8>, s: Seq<u8>)
    requires
        blank(before),
    ensures
        trim_start(before + s) == trim_start(s),
    decreases before.len(),
{
    if before.len() == 0 {
        assert(before + s =~= s);
    } else {
        assert(before[0] == (before + s)[0]);
        assert((before + s).skip(1) =~= before.skip(1) + s);
        assert forall|i: int| 0 <= i < before.skip(1).len() implies (
        #[trigger] before.skip(1)[i] == 32 || before.skip(1)[i] == 9 || before.skip(1)[i] == 10
            || before.skip(1)[i] == 12 || before.skip(1)[i] == 13) by {
            assert(before.skip(1)[i] == before[i + 1]);
        }
        lemma_trim_start_skips(before.skip(1), s);
    }
}

proof fn lemma_trim_end_skips(s: Seq<u8>, after: Seq<u8>)
    requires
        blank(after),
    ensures
        trim_end(s + after) == trim_end(s),
    decreases after.len(),
{
    if after.len() == 0 {
        assert(s + after =~= s);
    } else {
        assert(after[after.len() - 1] == (s + after).last());
        assert((s + after).drop_last() =~= s + after.drop_last());
        assert forall|i: int| 0 <= i < after.drop_last().len() implies (
        #[trigger] after.drop_last()[i] == 32 || after.drop_last()[i] == 9 || after.drop_last()[i]
            == 10 || after.drop_last()[i] == 12 || after.drop_last()[i] == 13) by {
            assert(after.drop_last()[i] == after[i]);
        }
        lemma_trim_end_skips(s, after.drop_last());
    }
}

/// Trimming takes off the white space at both ends, and nothing else.
pub proof fn law_trimming(before: Seq<u8>, s: Seq<u8>, after: Seq<u8>)
    requires
        blank(before),
        blank(after),
        s.len() > 0 ==> !blank(seq![s[0]]) && !blank(seq![s.last()]),
    ensures
        trim(before + s + after) == s,
{
    if s.len() == 0 {
        assert(before + s + after =~= before + after);
        lemma_trim_start_skips(before, after);
        lemma_trim_start_skips(after, s);
        assert(after + s =~= after);
        assert(s =~= Seq::<u8>::empty());
    } else {
        assert(before + s + after =~= before + (s + after));
        lemma_trim_start_skips(before, s + after);
        assert(seq![s[0]][0] == s[0]);
        assert((s + after)[0] == s[0]);
        lemma_trim_end_skips(s, after);
        assert(seq![s.last()][0] == s.last());
    }
}

/// A number in decimal is read back if it fits in 16 bits, with a plus sign before it or without;
/// a larger one is not read, nor is a text with anything but digits behind the sign.
pub proof fn law_numbers_are_read(n: nat, s: Seq<u8>)
    ensures
        number_u16(decimal(n)) == if n <= 65535 {
            Some(n as u16)
        } else {
            None
        },
        number_u16(seq![43u8] + decimal(n)) == number_u16(decimal(n)),
        number_u16(s) is Some ==> s.len() > 0 && forall|i: int|
            1 <= i < s.len() ==> 48 <= #[trigger] s[i] <= 57,
        number_u16(s) is Some ==> (48 <= s[0] <= 57 || (s[0] == 43 && s.len() > 1)),
{
    lemma_decimal(n);
    let d = decimal(n);
    assert(is_digit(d[0]));
    assert((seq![43u8] + d).skip(1) =~= d);
    if number_u16(s) is Some {
        let u = unsigned(s);
        assert forall|i: int| 1 <= i < s.len() implies 48 <= #[trigger] s[i] <= 57 by {
            if u == s {
                assert(is_digit(u[i]));
            } else {
                assert(is_digit(u[i - 1]));
            }
        }
        assert(is_digit(u[0]));
    }
}

proof fn lemma_words_shift(s: Seq<char>, from: int)
    requires
        0 <= from <= s.len(),
    ensures
        words(s, from) == words(s.skip(from), 0),
    decreases s.len(),
{
    lemma_words_ahead(s, from, 0);
}

proof fn lemma_word_end_ahead(s: Seq<char>, by: int, from: int)
    requires
        0 <= by <= s.len(),
        0 <= from <= s.len() - by,
    ensures
        word_end(s, by + from) == by + word_end(s.skip(by), from),
    decreases s.len() - by - from,
{
    if from < s.len() - by {
        assert(s.skip(by)[from] == s[by + from]);
        if !white_space(s[by + from]) {
            lemma_word_end_ahead(s, by, from + 1);
        }
    }
}

proof fn lemma_words_ahead(s: Seq<char>, by: int, from: int)
    requires
        0 <= by <= s.len(),
        0 <= from <= s.len() - by,
    ensures
        words(s, by + from) == words(s.skip(by), from),
    decreases s.len() - by - from,
{
    let t = s.skip(by);
    if from < t.len() {
        assert(t[from] == s[by + from]);
        if white_space(t[from]) {
            lemma_words_ahead(s, by, from + 1);
        } else {
            lemma_word_end(t, from);
            lemma_word_end_ahead(s, by, from);
            let e = word_end(t, from);
            lemma_words_ahead(s, by, e);
            assert(s.subrange(by + from, by + e) =~= t.subrange(from, e));
        }
    }
}

/// A text of one word: not empty, and without white space.
pub open spec fn one_word(s: Seq<char>) -> bool {
    s.len() > 0 && forall|i: int| 0 <= i < s.len() ==> !white_space(#[trigger] s[i])
}

/// Nothing but white space.
pub open spec fn blank_text(s: Seq<char>) -> bool {
    forall|i: int| 0 <= i < s.len() ==> white_space(#[trigger] s[i])
}

proof fn lemma_skip_space_is(s: Seq<char>, from: int, e: int)
    requires
        0 <= from <= e <= s.len(),
        forall|j: int| from <= j < e ==> white_space(#[trigger] s[j]),
        e < s.len() ==> !white_space(s[e]),
    ensures
        skip_space(s, from) == e,
    decreases e - from,
{
    if from < e {
        assert(white_space(s[from]));
        lemma_skip_space_is(s, from + 1, e);
    }
}

proof fn lemma_word_end_at(s: Seq<char>, from: int, e: int)
    requires
        0 <= from <= e <= s.len(),
        forall|j: int| from <= j < e ==> !white_space(#[trigger] s[j]),
        e < s.len() ==> white_space(s[e]),
    ensures
        word_end(s, from) == e,
    decreases e - from,
{
    if from < e {
        assert(!white_space(s[from]));
        lemma_word_end_at(s, from + 1, e);
    }
}

/// The words of a text are what white space parts: the first is what stands between the white
/// space at the head of the text and the next white space, and the others are those of the rest.
pub proof fn law_words(before: Seq<char>, word: Seq<char>, rest: Seq<char>)
    requires
        blank_text(before),
        one_word(word),
        rest.len() > 0 ==> white_space(rest[0]),
    ensures
        words(before + word + rest, 0) == seq![word] + words(rest, 0),
        words(before, 0).len() == 0,
        skip_space(before + word + rest, 0) == before.len(),
        word_end(before + word + rest, before.len() as int) == before.len() + word.len(),
{
    let s = before + word + rest;
    let i = before.len() as int;
    let e = i + word.len();
    assert forall|j: int| 0 <= j < i implies white_space(#[trigger] s[j]) by {
        assert(s[j] == before[j]);
    }
    assert forall|j: int| i <= j < e implies !white_space(#[trigger] s[j]) by {
        assert(s[j] == word[j - i]);
    }
    assert(s[i] == word[0]);
    if e < s.len() {
        assert(s[e] == rest[0]);
    }
    lemma_skip_space_is(s, 0, i);
    lemma_word_end_at(s, i, e);
    lemma_words_next(s, 0);
    lemma_words_shift(s, e);
    assert(s.skip(e) =~= rest);
    assert(s.subrange(i, e) =~= word);
    lemma_skip_space_is(before, 0, i);
    lemma_words_next(before, 0);
}

proof fn lemma_text_end_is(s: Seq<char>, low: int, end: int, e: int)
    requires
        0 <= low <= e <= end <= s.len(),
        forall|j: int| e <= j < end ==> white_space(#[trigger] s[j]),
        e > low ==> !white_space(s[e - 1]),
    ensures
        text_end(s, low, end) == e,
    decreases end - e,
{
    if e < end {
        assert(white_space(s[end - 1]));
        lemma_text_end_is(s, low, end - 1, e);
    }
}

/// Trimming a text takes off the white space at both ends, and nothing else.
pub proof fn law_trimming_text(before: Seq<char>, s: Seq<char>, after: Seq<char>)
    requires
        blank_text(before),
        blank_text(after),
        s.len() > 0 ==> !white_space(s[0]) && !white_space(s.last()),
    ensures
        trim_text(before + s + after) == s,
{
    let t = before + s + after;
    let i = before.len() as int;
    let e = i + s.len();
    assert forall|j: int| 0 <= j < i implies white_space(#[trigger] t[j]) by {
        assert(t[j] == before[j]);
    }
    assert forall|j: int| e <= j < t.len() implies white_space(#[trigger] t[j]) by {
        assert(t[j] == after[j - e]);
    }
    if s.len() == 0 {
        lemma_skip_space_is(t, 0, t.len() as int);
        assert(t.subrange(t.len() as int, t.len() as int) =~= s);
    } else {
        assert(t[i] == s[0]);
        assert(t[e - 1] == s.last());
        lemma_skip_space_is(t, 0, i);
        lemma_text_end_is(t, i, t.len() as int, e);
        assert(t.subrange(i, e) =~= s);
    }
}

} // verus!
