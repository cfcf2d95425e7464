//! The commands of the FTP control channel.

use crate::outside::{utf8_lossy, utf8_str};
use crate::text;
use crate::text::{
    byte_is_alpha, byte_is_space, byte_upper, char_vec, find_byte, next_word, trim_ascii, trimmed,
    CR, LF, SPACE,
};
use vstd::prelude::*;
use vstd::slice::{slice_subrange, slice_to_vec};
use vstd::string::*;
use vstd::utf8::*;

verus! {

// ---------------------------------------------------------------------------
// Commands
// ---------------------------------------------------------------------------

/// How many letters `line` begins with.
pub open spec fn letters(line: Seq<u8>, from: int) -> int
    decreases line.len() - from,
{
    if 0 <= from < line.len() && text::is_alpha(line[from]) {
        letters(line, from + 1)
    } else {
        from
    }
}

/// The command word: the letters that `line` begins with.
pub open spec fn command_word(line: Seq<u8>) -> Seq<u8> {
    line.take(letters(line, 0))
}

/// `word` is `name` in any mixture of cases; `name` is in upper case.
pub open spec fn same_word(word: Seq<u8>, name: Seq<char>) -> bool {
    &&& word.len() == name.len()
    &&& forall|i: int| 0 <= i < word.len() ==> text::upper(#[trigger] word[i]) == name[i] as u8
}

/// The command word of `line` is `name`.
pub open spec fn is_command(line: Seq<u8>, name: Seq<char>) -> bool {
    same_word(command_word(line), name)
}

/// The commands that upload a file.
pub open spec fn upload_command(line: Seq<u8>) -> bool {
    is_command(line, "STOR"@) || is_command(line, "STOU"@) || is_command(line, "APPE"@)
}

/// The commands that ask the server to listen for a data connection.
pub open spec fn pasv_command(line: Seq<u8>) -> bool {
    is_command(line, "PASV"@) || is_command(line, "EPSV"@)
}

/// The command that asks for extended passive mode.
pub open spec fn epsv_command(line: Seq<u8>) -> bool {
    is_command(line, "EPSV"@)
}

/// The commands that move data over a data connection.
pub open spec fn data_channel_command(line: Seq<u8>) -> bool {
    upload_command(line) || is_command(line, "LIST"@) || is_command(line, "NLST"@) || is_command(
        line,
        "RETR"@,
    )
}

/// The command `AUTH TLS`.
pub open spec fn auth_tls_command(line: Seq<u8>) -> bool {
    let n = letters(line, 0);
    &&& is_command(line, "AUTH"@)
    &&& n < line.len()
    &&& text::is_space(line[n])
    &&& same_word(text::trim(line.skip(n + 1)), "TLS"@)
}

proof fn lemma_letters(line: Seq<u8>, from: int)
    requires
        0 <= from <= line.len(),
    ensures
        from <= letters(line, from) <= line.len(),
        forall|j: int| from <= j < letters(line, from) ==> text::is_alpha(#[trigger] line[j]),
        letters(line, from) < line.len() ==> !text::is_alpha(line[letters(line, from)]),
    decreases line.len() - from,
{
    if from < line.len() && text::is_alpha(line[from]) {
        lemma_letters(line, from + 1);
    }
}

fn count_letters(line: &[u8]) -> (n: usize)
    ensures
        n == letters(line@, 0),
        n <= line@.len(),
{
    let mut n: usize = 0;
    while n < line.len() && byte_is_alpha(line[n])
        invariant
            n <= line@.len(),
            letters(line@, 0) == letters(line@, n as int),
        decreases line@.len() - n,
    {
        n += 1;
    }
    n
}

fn word_is(word: &[u8], name: &str) -> (r: bool)
    requires
        is_ascii(name),
    ensures
        r == same_word(word@, name@),
{
    let expected = name.as_bytes();
    if word.len() != expected.len() {
        return false;
    }
    let mut i: usize = 0;
    while i < word.len()
        invariant
            is_ascii(name),
            expected@ == name.spec_bytes(),
            word@.len() == expected@.len(),
            word@.len() == name@.len(),
            i <= word@.len(),
            forall|j: int|
                0 <= j < i ==> text::upper(#[trigger] word@[j]) == name@[j] as u8,
        decreases word@.len() - i,
    {
        if byte_upper(word[i]) != expected[i] {
            return false;
        }
        i += 1;
    }
    true
}

fn command_is(line: &[u8], n: usize, name: &str) -> (r: bool)
    requires
        is_ascii(name),
        n == letters(line@, 0),
        n <= line@.len(),
    ensures
        r == is_command(line@, name@),
{
    assert(line@.subrange(0, n as int) =~= command_word(line@));
    word_is(slice_subrange(line, 0, n), name)
}

/// Whether the line uploads a file.
pub fn is_upload_command(line: &[u8]) -> (r: bool)
    ensures
        r == upload_command(line@),
{
    proof {
        reveal_strlit("STOR");
        reveal_strlit("STOU");
        reveal_strlit("APPE");
    }
    let n: usize = count_letters(line);
    command_is(line, n, "STOR") || command_is(line, n, "STOU") || command_is(line, n, "APPE")
}

/// Whether the line asks for passive mode, plain or extended.
pub fn is_pasv_command(line: &[u8]) -> (r: bool)
    ensures
        r == pasv_command(line@),
{
    proof {
        reveal_strlit("PASV");
        reveal_strlit("EPSV");
    }
    let n: usize = count_letters(line);
    command_is(line, n, "PASV") || command_is(line, n, "EPSV")
}

/// Whether the line asks for extended passive mode.
pub fn is_epsv_command(line: &[u8]) -> (r: bool)
    ensures
        r == epsv_command(line@),
{
    proof {
        reveal_strlit("EPSV");
    }
    let n: usize = count_letters(line);
    command_is(line, n, "EPSV")
}

/// Whether the line needs a data channel that is already open.
pub fn is_data_channel_command(line: &[u8]) -> (r: bool)
    ensures
        r == data_channel_command(line@),
{
    proof {
        reveal_strlit("LIST");
        reveal_strlit("NLST");
        reveal_strlit("RETR");
    }
    let n: usize = count_letters(line);
    is_upload_command(line) || command_is(line, n, "LIST") || command_is(line, n, "NLST")
        || command_is(line, n, "RETR")
}

/// Whether the line asks to secure the control channel with TLS.
pub fn is_auth_tls_command(line: &[u8]) -> (r: bool)
    ensures
        r == auth_tls_command(line@),
{
    proof {
        reveal_strlit("AUTH");
        reveal_strlit("TLS");
    }
    let n: usize = count_letters(line);
    if !command_is(line, n, "AUTH") || n >= line.len() || !byte_is_space(line[n]) {
        return false;
    }
    let rest = slice_subrange(line, n + 1, line.len());
    assert(rest@ =~= line@.skip(n + 1));
    word_is(trim_ascii(rest), "TLS")
}

/// A line is a command of one name at most: two different names of one length never fit the same
/// line.
proof fn lemma_one_command(line: Seq<u8>, a: Seq<char>, b: Seq<char>, i: int)
    requires
        a.len() == b.len(),
        0 <= i < a.len(),
        a[i] as u8 != b[i] as u8,
    ensures
        !(is_command(line, a) && is_command(line, b)),
{
    if is_command(line, a) && is_command(line, b) {
        assert(text::upper(command_word(line)[i]) == a[i] as u8);
    }
}

/// Every upload moves data over a data channel, and an extended passive command is a passive
/// command; no line that asks for passive mode, and no `AUTH TLS`, is a data command.
pub proof fn law_command_classes(line: Seq<u8>)
    ensures
        upload_command(line) ==> data_channel_command(line),
        epsv_command(line) ==> pasv_command(line),
        pasv_command(line) ==> !data_channel_command(line),
        auth_tls_command(line) ==> !data_channel_command(line) && !pasv_command(line),
{
    reveal_strlit("STOR");
    reveal_strlit("STOU");
    reveal_strlit("APPE");
    reveal_strlit("LIST");
    reveal_strlit("NLST");
    reveal_strlit("RETR");
    reveal_strlit("PASV");
    reveal_strlit("EPSV");
    reveal_strlit("AUTH");
    lemma_one_command(line, "PASV"@, "STOR"@, 0);
    lemma_one_command(line, "PASV"@, "STOU"@, 0);
    lemma_one_command(line, "PASV"@, "APPE"@, 0);
    lemma_one_command(line, "PASV"@, "LIST"@, 0);
    lemma_one_command(line, "PASV"@, "NLST"@, 0);
    lemma_one_command(line, "PASV"@, "RETR"@, 0);
    lemma_one_command(line, "EPSV"@, "STOR"@, 0);
    lemma_one_command(line, "EPSV"@, "STOU"@, 0);
    lemma_one_command(line, "EPSV"@, "APPE"@, 0);
    lemma_one_command(line, "EPSV"@, "LIST"@, 0);
    lemma_one_command(line, "EPSV"@, "NLST"@, 0);
    lemma_one_command(line, "EPSV"@, "RETR"@, 0);
    lemma_one_command(line, "AUTH"@, "STOR"@, 0);
    lemma_one_command(line, "AUTH"@, "STOU"@, 0);
    lemma_one_command(line, "AUTH"@, "APPE"@, 1);
    lemma_one_command(line, "AUTH"@, "LIST"@, 0);
    lemma_one_command(line, "AUTH"@, "NLST"@, 0);
    lemma_one_command(line, "AUTH"@, "RETR"@, 0);
    lemma_one_command(line, "AUTH"@, "PASV"@, 0);
    lemma_one_command(line, "AUTH"@, "EPSV"@, 0);
}

/// An empty line uploads nothing.
pub proof fn lemma_no_command_in_nothing(line: Seq<u8>)
    requires
        line.len() == 0,
    ensures
        !upload_command(line),
{
    reveal_strlit("STOR");
    reveal_strlit("STOU");
    reveal_strlit("APPE");
    assert(command_word(line).len() == 0);
}

/// Two lines whose command words differ in case alone are the same command.
pub proof fn law_case_is_ignored(line: Seq<u8>, other: Seq<u8>, name: Seq<char>)
    requires
        command_word(line).len() == command_word(other).len(),
        forall|i: int|
            0 <= i < command_word(line).len() ==> text::upper(
                #[trigger] command_word(line)[i],
            ) == text::upper(command_word(other)[i]),
    ensures
        is_command(line, name) == is_command(other, name),
{
    if is_command(other, name) {
        assert forall|i: int| 0 <= i < command_word(line).len() implies text::upper(
            #[trigger] command_word(line)[i],
        ) == name[i] as u8 by {
            assert(text::upper(command_word(other)[i]) == name[i] as u8);
        }
    }
    if is_command(line, name) {
        assert forall|i: int| 0 <= i < command_word(other).len() implies text::upper(
            #[trigger] command_word(other)[i],
        ) == name[i] as u8 by {
            assert(text::upper(command_word(line)[i]) == name[i] as u8);
        }
    }
}

/// What follows the command word, where it does not begin with a letter, never changes which
/// command a line is.
pub proof fn law_arguments_are_ignored(word: Seq<u8>, rest: Seq<u8>, name: Seq<char>)
    requires
        forall|i: int| 0 <= i < word.len() ==> text::is_alpha(#[trigger] word[i]),
        rest.len() > 0 ==> !text::is_alpha(rest[0]),
    ensures
        is_command(word + rest, name) == same_word(word, name),
{
    let line = word + rest;
    lemma_letters(line, 0);
    let n = letters(line, 0);
    if n < word.len() {
        assert(text::is_alpha(word[n]));
        assert(line[n] == word[n]);
    }
    if n > word.len() {
        assert(line[word.len() as int] == rest[0]);
    }
    assert(command_word(line) =~= word);
}

// ---------------------------------------------------------------------------
// The command and the path of an upload
// ---------------------------------------------------------------------------

/// `line` without its carriage returns and line feeds.
pub open spec fn without_line_ends(line: Seq<u8>) -> Seq<u8>
    decreases line.len(),
{
    if line.len() == 0 {
        Seq::empty()
    } else if line.last() == CR || line.last() == LF {
        without_line_ends(line.drop_last())
    } else {
        without_line_ends(line.drop_last()).push(line.last())
    }
}

/// What stands before the first space of `line`, line ends left out.
pub open spec fn command_part(line: Seq<u8>) -> Seq<u8> {
    let t = without_line_ends(line);
    match text::find(t, SPACE, 0) {
        Some(i) => t.take(i),
        None => t,
    }
}

/// What stands behind the first space of `line`, line ends left out; nothing without a space.
pub open spec fn path_part(line: Seq<u8>) -> Option<Seq<u8>> {
    let t = without_line_ends(line);
    match text::find(t, SPACE, 0) {
        Some(i) => Some(t.skip(i + 1)),
        None => None,
    }
}

/// Splits a line at its first space, line ends left out.
pub fn split_command(line: &[u8]) -> (r: (Vec<u8>, Option<Vec<u8>>))
    ensures
        r.0@ == command_part(line@),
        match r.1 {
            Some(path) => path_part(line@) == Some(path@),
            None => path_part(line@) is None,
        },
{
    let mut t: Vec<u8> = Vec::new();
    let mut i: usize = 0;
    assert(line@.take(0) =~= Seq::<u8>::empty());
    while i < line.len()
        invariant
            i <= line@.len(),
            t@ == without_line_ends(line@.take(i as int)),
        decreases line@.len() - i,
    {
        let b: u8 = line[i];
        assert(line@.take(i + 1).drop_last() =~= line@.take(i as int));
        if b != CR && b != LF {
            t.push(b);
        }
        i += 1;
    }
    assert(line@.take(line@.len() as int) =~= line@);
    let n: usize = t.len();
    match find_byte(t.as_slice(), SPACE, 0) {
        Some(k) => {
            proof {
                text::lemma_find(t@, SPACE, 0);
            }
            assert(t@.subrange(0, k as int) =~= t@.take(k as int));
            assert(t@.subrange(k + 1, t@.len() as int) =~= t@.skip(k + 1));
            (
                slice_to_vec(slice_subrange(t.as_slice(), 0, k)),
                Some(slice_to_vec(slice_subrange(t.as_slice(), k + 1, n))),
            )
        },
        None => (t, None),
    }
}

/// What stands before the first space of an upload line, as text.
pub open spec fn line_command(line: Seq<u8>) -> Seq<char> {
    crate::outside::lossy_text(command_part(line))
}

/// What stands behind the first space of an upload line, as text without the white space at its
/// ends; empty without a space.
pub open spec fn line_path(line: Seq<u8>) -> Seq<char> {
    match path_part(line) {
        Some(path) => text::trim_text(crate::outside::lossy_text(path)),
        None => Seq::empty(),
    }
}

/// The command and the path of an upload line, as text: the path is everything behind the first
/// space, without the white space at its ends.
pub fn extract_cmd_path(line: &[u8]) -> (r: (String, String))
    ensures
        r.0@ == line_command(line@),
        r.1@ == line_path(line@),
        valid_utf8(command_part(line@)) ==> r.0@ == decode_utf8(command_part(line@)),
        path_part(line@) matches Some(path) ==> valid_utf8(path) ==> r.1@ == text::trim_text(
            decode_utf8(path),
        ),
{
    let (cmd_bytes, path_bytes) = split_command(line);
    let cmd = utf8_lossy(cmd_bytes.as_slice());
    let path = match path_bytes {
        Some(p) => {
            let s = utf8_lossy(p.as_slice());
            trimmed(s.as_str())
        },
        None => String::new(),
    };
    (cmd, path)
}

/// The text of a line, without the white space at its ends; empty where it is no valid UTF-8.
pub open spec fn line_text(line: Seq<u8>) -> Seq<char> {
    if valid_utf8(line) {
        text::trim_text(decode_utf8(line))
    } else {
        Seq::empty()
    }
}

/// The first word of the line; `STOR` where there is none.
pub open spec fn upload_name(line: Seq<u8>) -> Seq<char> {
    let w = text::words(line_text(line), 0);
    if w.len() > 0 {
        w[0]
    } else {
        "STOR"@
    }
}

/// What stands behind the first word of the line, without the white space at its ends; empty where
/// there is nothing.
pub open spec fn upload_path(line: Seq<u8>) -> Seq<char> {
    let t = line_text(line);
    text::trim_text(t.skip(text::word_end(t, text::skip_space(t, 0))))
}

/// The command and the path of an upload line: its first word, and the rest of it.
pub fn upload_cmd_path(line: &[u8]) -> (r: (String, String))
    ensures
        r.0@ == upload_name(line@),
        r.1@ == upload_path(line@),
{
    let whole = match utf8_str(line) {
        Some(s) => trimmed(s),
        None => String::new(),
    };
    let ghost t = whole@;
    let v = char_vec(whole.as_str());
    let n: usize = v.len();
    proof {
        text::lemma_words_next(t, 0);
    }
    match next_word(v.as_slice(), 0) {
        None => {
            proof {
                assert(t.skip(text::word_end(t, t.len() as int)) =~= Seq::empty());
            }
            ("STOR".to_owned(), String::new())
        },
        Some((i, e)) => {
            let name = whole.as_str().substring_char(i, e).to_owned();
            let rest = whole.as_str().substring_char(e, n);
            assert(rest@ =~= t.skip(e as int));
            (name, trimmed(rest))
        },
    }
}

// ---------------------------------------------------------------------------
// What the lines mean
// ---------------------------------------------------------------------------

/// `word` consists of the given upper-case letters, each in either case.
pub open spec fn spells(word: Seq<u8>, name: Seq<u8>) -> bool {
    &&& word.len() == name.len()
    &&& forall|i: int|
        0 <= i < word.len() ==> (#[trigger] word[i] == name[i] || word[i] == name[i] + 32)
}

/// Nothing but letters.
pub open spec fn only_letters(word: Seq<u8>) -> bool {
    forall|i: int|
        0 <= i < word.len() ==> (65 <= #[trigger] word[i] <= 90 || 97 <= word[i] <= 122)
}

proof fn lemma_spells(word: Seq<u8>, name: Seq<char>, bytes: Seq<u8>)
    requires
        name.len() == bytes.len(),
        forall|i: int| 0 <= i < name.len() ==> #[trigger] name[i] as u8 == bytes[i],
        forall|i: int| 0 <= i < bytes.len() ==> 65 <= #[trigger] bytes[i] <= 90,
    ensures
        same_word(word, name) == spells(word, bytes),
{
    if same_word(word, name) {
        assert forall|i: int| 0 <= i < word.len() implies (#[trigger] word[i] == bytes[i] || word[i]
            == bytes[i] + 32) by {
            assert(text::upper(word[i]) == name[i] as u8);
        }
    }
    if spells(word, bytes) {
        assert forall|i: int| 0 <= i < word.len() implies text::upper(#[trigger] word[i])
            == name[i] as u8 by {
            assert(word[i] == bytes[i] || word[i] == bytes[i] + 32);
            assert(name[i] as u8 == bytes[i]);
            assert(65 <= bytes[i] <= 90);
        }
    }
}

/// What a line is for is told by the letters that it begins with, in either case: `STOR`, `STOU`
/// and `APPE` upload, these and `LIST`, `NLST` and `RETR` move data, and `PASV` and `EPSV` ask for
/// passive mode, the second for the extended one.
pub proof fn law_commands_by_name(word: Seq<u8>, rest: Seq<u8>)
    requires
        only_letters(word),
        rest.len() > 0 ==> !only_letters(seq![rest[0]]),
    ensures
        upload_command(word + rest) <==> spells(word, seq![83, 84, 79, 82]) || spells(
            word,
            seq![83, 84, 79, 85],
        ) || spells(word, seq![65, 80, 80, 69]),
        data_channel_command(word + rest) <==> upload_command(word + rest) || spells(
            word,
            seq![76, 73, 83, 84],
        ) || spells(word, seq![78, 76, 83, 84]) || spells(word, seq![82, 69, 84, 82]),
        pasv_command(word + rest) <==> spells(word, seq![80, 65, 83, 86]) || spells(
            word,
            seq![69, 80, 83, 86],
        ),
        epsv_command(word + rest) <==> spells(word, seq![69, 80, 83, 86]),
{
    reveal_strlit("STOR");
    reveal_strlit("STOU");
    reveal_strlit("APPE");
    reveal_strlit("LIST");
    reveal_strlit("NLST");
    reveal_strlit("RETR");
    reveal_strlit("PASV");
    reveal_strlit("EPSV");
    if rest.len() > 0 {
        let b = seq![rest[0]];
        assert(b[0] == rest[0]);
    }
    law_arguments_are_ignored(word, rest, "STOR"@);
    law_arguments_are_ignored(word, rest, "STOU"@);
    law_arguments_are_ignored(word, rest, "APPE"@);
    law_arguments_are_ignored(word, rest, "LIST"@);
    law_arguments_are_ignored(word, rest, "NLST"@);
    law_arguments_are_ignored(word, rest, "RETR"@);
    law_arguments_are_ignored(word, rest, "PASV"@);
    law_arguments_are_ignored(word, rest, "EPSV"@);
    lemma_spells(word, "STOR"@, seq![83, 84, 79, 82]);
    lemma_spells(word, "STOU"@, seq![83, 84, 79, 85]);
    lemma_spells(word, "APPE"@, seq![65, 80, 80, 69]);
    lemma_spells(word, "LIST"@, seq![76, 73, 83, 84]);
    lemma_spells(word, "NLST"@, seq![78, 76, 83, 84]);
    lemma_spells(word, "RETR"@, seq![82, 69, 84, 82]);
    lemma_spells(word, "PASV"@, seq![80, 65, 83, 86]);
    lemma_spells(word, "EPSV"@, seq![69, 80, 83, 86]);
}

/// A line asks for TLS exactly where it is `AUTH`, in either case, white space, and `TLS`, in
/// either case, with nothing but white space behind it.
pub proof fn law_auth_tls_by_name(
    word: Seq<u8>,
    space: Seq<u8>,
    kind: Seq<u8>,
    after: Seq<u8>,
    other: Seq<u8>,
)
    requires
        only_letters(word),
        text::blank(space),
        text::blank(after),
        kind.len() > 0 && !text::blank(seq![kind[0]]) && !text::blank(seq![kind.last()]),
        other.len() > 0 ==> !text::blank(seq![other[0]]) && !only_letters(seq![other[0]]),
    ensures
        space.len() > 0 ==> (auth_tls_command(word + (space + kind + after)) <==> spells(
            word,
            seq![65, 85, 84, 72],
        ) && spells(kind, seq![84, 76, 83])),
        !auth_tls_command(word + other),
        !auth_tls_command(word + after),
{
    reveal_strlit("AUTH");
    reveal_strlit("TLS");
    let auth = seq![65u8, 85, 84, 72];
    let tls = seq![84u8, 76, 83];
    lemma_spells(word, "AUTH"@, auth);
    lemma_spells(kind, "TLS"@, tls);
    if space.len() > 0 {
        let rest = space + kind + after;
        assert(rest[0] == space[0]);
        lemma_word_of(word, rest);
        let tail = (word + rest).skip(word.len() as int + 1);
        assert(tail =~= space.skip(1) + kind + after);
        assert forall|i: int| 0 <= i < space.skip(1).len() implies (
        #[trigger] space.skip(1)[i] == 32 || space.skip(1)[i] == 9 || space.skip(1)[i] == 10
            || space.skip(1)[i] == 12 || space.skip(1)[i] == 13) by {
            assert(space.skip(1)[i] == space[i + 1]);
        }
        text::law_trimming(space.skip(1), kind, after);
        assert((word + rest)[word.len() as int] == space[0]);
    }
    if other.len() > 0 {
        assert(seq![other[0]][0] == other[0]);
        lemma_word_of(word, other);
        assert((word + other)[word.len() as int] == other[0]);
    } else {
        lemma_word_of(word, other);
    }
    if after.len() > 0 {
        assert(after[0] == after[0]);
        lemma_word_of(word, after);
        let tail = (word + after).skip(word.len() as int + 1);
        let none = Seq::<u8>::empty();
        assert forall|i: int| 0 <= i < tail.len() implies (#[trigger] tail[i] == 32 || tail[i] == 9
            || tail[i] == 10 || tail[i] == 12 || tail[i] == 13) by {
            assert(tail[i] == after[i + 1]);
        }
        text::law_trimming(none, none, tail);
        assert(none + none + tail =~= tail);
    } else {
        lemma_word_of(word, after);
    }
}

proof fn lemma_word_of(word: Seq<u8>, rest: Seq<u8>)
    requires
        only_letters(word),
        rest.len() > 0 ==> !text::is_alpha(rest[0]),
    ensures
        letters(word + rest, 0) == word.len(),
        command_word(word + rest) == word,
{
    let line = word + rest;
    lemma_letters(line, 0);
    let n = letters(line, 0);
    if n < word.len() {
        assert(line[n] == word[n]);
    }
    if n > word.len() {
        assert(line[word.len() as int] == rest[0]);
    }
    assert(command_word(line) =~= word);
}

/// Only carriage returns and line feeds are left out of a line.
pub proof fn law_line_ends_are_left_out(line: Seq<u8>)
    ensures
        without_line_ends(line) == line.filter(|b: u8| b != 13 && b != 10),
    decreases line.len(),
{
    reveal(Seq::filter);
    if line.len() > 0 {
        law_line_ends_are_left_out(line.drop_last());
    }
}

/// A line is split at its first space: what stands before it is the command, and all that stands
/// behind it the path. Without a space there is no path.
pub proof fn law_command_and_path(line: Seq<u8>, cmd: Seq<u8>, path: Seq<u8>)
    requires
        forall|i: int| 0 <= i < cmd.len() ==> cmd[i] != 32,
    ensures
        line.filter(|b: u8| b != 13 && b != 10) == cmd + seq![32u8] + path ==> {
            &&& command_part(line) == cmd
            &&& path_part(line) == Some(path)
            &&& line_command(line) == crate::outside::lossy_text(cmd)
            &&& line_path(line) == text::trim_text(crate::outside::lossy_text(path))
        },
        line.filter(|b: u8| b != 13 && b != 10) == cmd ==> {
            &&& command_part(line) == cmd
            &&& path_part(line) is None
            &&& line_command(line) == crate::outside::lossy_text(cmd)
            &&& line_path(line).len() == 0
        },
{
    law_line_ends_are_left_out(line);
    let t = cmd + seq![32u8] + path;
    assert(t[cmd.len() as int] == 32);
    assert forall|j: int| 0 <= j < cmd.len() implies t[j] != SPACE by {
        assert(t[j] == cmd[j]);
    }
    text::lemma_find_is(t, SPACE, 0, cmd.len() as int);
    text::lemma_find_none(cmd, SPACE, 0);
    assert(t.take(cmd.len() as int) =~= cmd);
    assert(t.skip(cmd.len() as int + 1) =~= path);
}

/// An upload line that is a command, white space and a path is reported with exactly this command
/// and this path, white space within the path included. A line that is no text, or that has no
/// word, is reported as `STOR` without a path.
pub proof fn law_reported_upload(
    line: Seq<u8>,
    before: Seq<char>,
    cmd: Seq<char>,
    space: Seq<char>,
    path: Seq<char>,
    after: Seq<char>,
)
    requires
        text::blank_text(before),
        text::one_word(cmd),
        text::blank_text(space),
        text::blank_text(after),
        path.len() > 0 ==> space.len() > 0,
        path.len() > 0 ==> !text::white_space(path[0]) && !text::white_space(path.last()),
    ensures
        line == encode_utf8(before + cmd + (space + path + after)) ==> upload_name(line) == cmd
            && upload_path(line) == path,
        line == encode_utf8(before) || !valid_utf8(line) ==> upload_name(line) == "STOR"@
            && upload_path(line).len() == 0,
{
    let s = before + cmd + (space + path + after);
    encode_utf8_valid_utf8(s);
    encode_utf8_decode_utf8(s);
    encode_utf8_valid_utf8(before);
    encode_utf8_decode_utf8(before);
    let none = Seq::<char>::empty();
    if line == encode_utf8(s) {
        if path.len() > 0 {
            let inner = cmd + space + path;
            assert(s =~= before + inner + after);
            assert(inner[0] == cmd[0]);
            assert(inner.last() == path.last());
            text::law_trimming_text(before, inner, after);
            let rest = space + path;
            assert(inner =~= none + cmd + rest);
            assert(rest[0] == space[0]);
            text::law_words(none, cmd, rest);
            assert(inner.skip(cmd.len() as int) =~= rest);
            assert(rest =~= space + path + none);
            text::law_trimming_text(space, path, none);
            assert(text::words(inner, 0)[0] == cmd);
        } else {
            let ends = space + path + after;
            assert forall|i: int| 0 <= i < ends.len() implies text::white_space(
                #[trigger] ends[i],
            ) by {
                if i < space.len() {
                    assert(ends[i] == space[i]);
                } else {
                    assert(ends[i] == after[i - space.len()]);
                }
            }
            text::law_trimming_text(before, cmd, ends);
            assert(cmd =~= none + cmd + none);
            text::law_words(none, cmd, none);
            assert(cmd.skip(cmd.len() as int) =~= none + none + none);
            text::law_trimming_text(none, none, none);
            assert(text::words(cmd, 0)[0] == cmd);
            assert(path =~= none);
        }
    }
    if line == encode_utf8(before) || !valid_utf8(line) {
        assert(before =~= none + none + before);
        text::law_trimming_text(none, none, before);
        assert(line_text(line) =~= none);
        assert(none.skip(text::word_end(none, text::skip_space(none, 0))) =~= none);
        assert(none =~= none + none + none);
        text::law_trimming_text(none, none, none);
    }
}

} // verus!
