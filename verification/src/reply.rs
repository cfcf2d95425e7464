//! Reading lines and replies from the control channel, piece by piece.

use crate::text;
use crate::text::{byte_is_digit, find_byte, HYPHEN, LF, SPACE};
use vstd::prelude::*;
use vstd::slice::slice_subrange;

verus! {

/// The longest control line that is accepted, line feed included.
pub const MAX_FTP_LINE: usize = 8192;

/// The longest reply that is collected.
pub const MAX_FTP_RESPONSE: usize = 65536;

// ---------------------------------------------------------------------------
// Lines
// ---------------------------------------------------------------------------

/// What became of the bytes that a reader had available.
#[derive(Clone, Copy, Debug, PartialEq, Eq, Structural)]
pub enum LineRead {
    /// The stream has ended; `total` bytes of the line were read.
    End { total: usize },
    /// The line is complete with the first `consumed` bytes.
    Line { consumed: usize, total: usize },
    /// All `consumed` bytes belong to the line, and more have to come.
    More { consumed: usize, total: usize },
    /// The line is longer than allowed; nothing was taken.
    TooLong,
}

/// How many of the available bytes belong to the line.
pub open spec fn line_part(available: Seq<u8>) -> int {
    match text::find(available, LF, 0) {
        Some(i) => i + 1,
        None => available.len() as int,
    }
}

/// What `total` bytes of a line and the bytes behind them make.
pub open spec fn line_read(total: int, available: Seq<u8>, max_len: int) -> LineRead {
    let n = line_part(available);
    if available.len() == 0 {
        LineRead::End { total: total as usize }
    } else if total + n > max_len {
        LineRead::TooLong
    } else if text::find(available, LF, 0) is Some {
        LineRead::Line { consumed: n as usize, total: (total + n) as usize }
    } else {
        LineRead::More { consumed: n as usize, total: (total + n) as usize }
    }
}

/// The bytes that are taken into the line.
pub open spec fn line_taken(total: int, available: Seq<u8>, max_len: int) -> Seq<u8> {
    match line_read(total, available, max_len) {
        LineRead::Line { .. } | LineRead::More { .. } => available.take(line_part(available)),
        _ => Seq::empty(),
    }
}

/// Takes the next bytes of a line: `total` bytes of it were read before, and `max_len` are
/// allowed.
pub fn read_line_limited(
    buf: &mut Vec<u8>,
    total: usize,
    available: &[u8],
    max_len: usize,
) -> (r: LineRead)
    requires
        total <= max_len,
    ensures
        r == line_read(total as int, available@, max_len as int),
        final(buf)@ == old(buf)@ + line_taken(total as int, available@, max_len as int),
{
    let len: usize = available.len();
    if len == 0 {
        assert(buf@ =~= old(buf)@ + Seq::<u8>::empty());
        return LineRead::End { total };
    }
    proof {
        text::lemma_find(available@, LF, 0);
    }
    match find_byte(available, LF, 0) {
        Some(pos) => {
            let take: usize = pos + 1;
            if take > max_len - total {
                assert(buf@ =~= old(buf)@ + Seq::<u8>::empty());
                return LineRead::TooLong;
            }
            buf.extend_from_slice(slice_subrange(available, 0, take));
            assert(available@.subrange(0, take as int) =~= available@.take(take as int));
            LineRead::Line { consumed: take, total: total + take }
        },
        None => {
            if len > max_len - total {
                assert(buf@ =~= old(buf)@ + Seq::<u8>::empty());
                return LineRead::TooLong;
            }
            buf.extend_from_slice(available);
            assert(available@.take(len as int) =~= available@);
            LineRead::More { consumed: len, total: total + len }
        },
    }
}

/// The line that comes of a stream that arrives in pieces: what was taken, and how reading ended.
/// A stream that is used up without a line feed has ended.
pub open spec fn read_pieces(
    taken: Seq<u8>,
    pieces: Seq<Seq<u8>>,
    max_len: int,
) -> (Seq<u8>, LineRead)
    decreases pieces.len(),
{
    if pieces.len() == 0 {
        (taken, LineRead::End { total: taken.len() as usize })
    } else {
        let read = line_read(taken.len() as int, pieces[0], max_len);
        let now = taken + line_taken(taken.len() as int, pieces[0], max_len);
        match read {
            LineRead::More { .. } => read_pieces(now, pieces.skip(1), max_len),
            _ => (now, read),
        }
    }
}

/// All pieces in a row.
pub open spec fn joined(pieces: Seq<Seq<u8>>) -> Seq<u8>
    decreases pieces.len(),
{
    if pieces.len() == 0 {
        Seq::empty()
    } else {
        pieces[0] + joined(pieces.skip(1))
    }
}

pub proof fn lemma_joined_push(pieces: Seq<Seq<u8>>)
    requires
        pieces.len() > 0,
    ensures
        joined(pieces) == joined(pieces.drop_last()) + pieces.last(),
    decreases pieces.len(),
{
    if pieces.len() == 1 {
        assert(pieces.skip(1) =~= Seq::empty());
        assert(pieces.drop_last() =~= Seq::empty());
        assert(joined(pieces) =~= joined(pieces.drop_last()) + pieces.last());
    } else {
        let init = pieces.drop_last();
        lemma_joined_push(pieces.skip(1));
        assert(pieces.skip(1).drop_last() =~= init.skip(1));
        assert(joined(pieces) =~= joined(init) + pieces.last());
    }
}

/// However a stream is cut into pieces, the line that is read is the stream up to and with its
/// first line feed, if that is no longer than allowed.
pub proof fn law_line_is_independent_of_pieces(
    taken: Seq<u8>,
    pieces: Seq<Seq<u8>>,
    max_len: int,
    end: int,
)
    requires
        forall|i: int| 0 <= i < pieces.len() ==> (#[trigger] pieces[i]).len() > 0,
        forall|i: int| 0 <= i < taken.len() ==> taken[i] != LF,
        text::find(taken + joined(pieces), LF, 0) == Some(end),
        end + 1 <= max_len <= usize::MAX,
    ensures
        read_pieces(taken, pieces, max_len).0 == (taken + joined(pieces)).take(end + 1),
        read_pieces(taken, pieces, max_len).1 is Line,
    decreases pieces.len(),
{
    let whole = taken + joined(pieces);
    text::lemma_find(whole, LF, 0);
    if pieces.len() == 0 {
        assert(whole =~= taken);
        assert(false);
    } else {
        let first = pieces[0];
        let rest = joined(pieces.skip(1));
        text::lemma_find(first, LF, 0);
        match text::find(first, LF, 0) {
            Some(i) => {
                assert(whole[taken.len() + i] == first[i]);
                if end < taken.len() + i {
                    if end < taken.len() {
                        assert(whole[end] == taken[end]);
                    } else {
                        assert(whole[end] == first[end - taken.len()]);
                    }
                }
                assert(end == taken.len() + i);
                assert(taken + first.take(i + 1) =~= whole.take(end + 1));
            },
            None => {
                let now = taken + first;
                assert(now + rest =~= whole);
                if end < now.len() {
                    if end < taken.len() {
                        assert(whole[end] == taken[end]);
                    } else {
                        assert(whole[end] == first[end - taken.len()]);
                    }
                }
                assert forall|j: int| 0 <= j < now.len() implies now[j] != LF by {
                    if j >= taken.len() {
                        assert(now[j] == first[j - taken.len()]);
                    }
                }
                assert(first.take(first.len() as int) =~= first);
                assert forall|j: int| 0 <= j < pieces.skip(1).len() implies (
                #[trigger] pieces.skip(1)[j]).len() > 0 by {
                    assert(pieces.skip(1)[j] == pieces[j + 1]);
                }
                law_line_is_independent_of_pieces(now, pieces.skip(1), max_len, end);
            },
        }
    }
}

/// A stream whose first `max_len` bytes hold no line feed, and which goes on, is refused however
/// it is cut into pieces, and no more than `max_len` bytes of it are ever taken.
pub proof fn law_long_line_is_refused(taken: Seq<u8>, pieces: Seq<Seq<u8>>, max_len: int)
    requires
        forall|i: int| 0 <= i < pieces.len() ==> (#[trigger] pieces[i]).len() > 0,
        taken.len() <= max_len <= usize::MAX,
        (taken + joined(pieces)).len() > max_len,
        forall|i: int| 0 <= i < max_len ==> (taken + joined(pieces))[i] != LF,
    ensures
        read_pieces(taken, pieces, max_len).1 is TooLong,
        read_pieces(taken, pieces, max_len).0.len() <= max_len,
    decreases pieces.len(),
{
    let whole = taken + joined(pieces);
    if pieces.len() == 0 {
        assert(whole =~= taken);
    } else {
        let first = pieces[0];
        let rest = joined(pieces.skip(1));
        text::lemma_find(first, LF, 0);
        match text::find(first, LF, 0) {
            Some(i) => {
                assert(whole[taken.len() + i] == first[i]);
            },
            None => {
                if taken.len() + first.len() <= max_len {
                    let now = taken + first;
                    assert(now + rest =~= whole);
                    assert(first.take(first.len() as int) =~= first);
                    assert forall|j: int| 0 <= j < pieces.skip(1).len() implies (
                    #[trigger] pieces.skip(1)[j]).len() > 0 by {
                        assert(pieces.skip(1)[j] == pieces[j + 1]);
                    }
                    law_long_line_is_refused(now, pieces.skip(1), max_len);
                }
            },
        }
    }
}

/// A stream that ends without a line feed, and is no longer than allowed, is a line as a whole,
/// however it is cut into pieces.
pub proof fn law_last_line_needs_no_end(taken: Seq<u8>, pieces: Seq<Seq<u8>>, max_len: int)
    requires
        forall|i: int| 0 <= i < pieces.len() ==> (#[trigger] pieces[i]).len() > 0,
        (taken + joined(pieces)).len() <= max_len <= usize::MAX,
        forall|i: int|
            0 <= i < (taken + joined(pieces)).len() ==> (taken + joined(pieces))[i] != LF,
    ensures
        read_pieces(taken, pieces, max_len) == (
            taken + joined(pieces),
            LineRead::End { total: (taken + joined(pieces)).len() as usize },
        ),
    decreases pieces.len(),
{
    let whole = taken + joined(pieces);
    if pieces.len() == 0 {
        assert(whole =~= taken);
    } else {
        let first = pieces[0];
        let rest = joined(pieces.skip(1));
        let now = taken + first;
        assert(now + rest =~= whole);
        assert forall|i: int| 0 <= i < first.len() implies first[i] != LF by {
            assert(first[i] == whole[taken.len() + i]);
        }
        text::lemma_find_none(first, LF, 0);
        assert(first.take(first.len() as int) =~= first);
        assert forall|j: int| 0 <= j < pieces.skip(1).len() implies (
        #[trigger] pieces.skip(1)[j]).len() > 0 by {
            assert(pieces.skip(1)[j] == pieces[j + 1]);
        }
        law_last_line_needs_no_end(now, pieces.skip(1), max_len);
    }
}

// ---------------------------------------------------------------------------
// Replies
// ---------------------------------------------------------------------------

/// The first three bytes of `buf` are digits.
pub open spec fn has_code(buf: Seq<u8>) -> bool {
    buf.len() >= 3 && text::is_digit(buf[0]) && text::is_digit(buf[1]) && text::is_digit(buf[2])
}

/// The first line of `buf`, which ends at `end`, announces further lines: a code and a hyphen.
pub open spec fn announces_more(buf: Seq<u8>, end: int) -> bool {
    end > 3 && has_code(buf) && buf[3] == HYPHEN
}

/// A line of `buf` that begins at `start` and ends at `end` closes a reply of several lines: the
/// code of the first line and a space.
pub open spec fn closing_line(buf: Seq<u8>, start: int, end: int) -> bool {
    &&& 0 < start
    &&& start + 4 <= end < buf.len()
    &&& buf[start - 1] == LF
    &&& buf[end] == LF
    &&& buf[start] == buf[0]
    &&& buf[start + 1] == buf[1]
    &&& buf[start + 2] == buf[2]
    &&& buf[start + 3] == SPACE
}

/// `buf` holds a whole reply: its first line is complete and announces no further lines, or some
/// later line closes the reply.
pub open spec fn complete_reply(buf: Seq<u8>) -> bool {
    match text::find(buf, LF, 0) {
        None => false,
        Some(end) => !announces_more(buf, end) || exists|i: int, e: int|
            end < i && #[trigger] closing_line(buf, i, e),
    }
}

/// Whether the bytes hold a whole reply.
pub fn is_complete_response(buf: &[u8]) -> (r: bool)
    ensures
        r == complete_reply(buf@),
{
    proof {
        text::lemma_find(buf@, LF, 0);
    }
    let end: usize = match find_byte(buf, LF, 0) {
        Some(end) => end,
        None => {
            return false;
        },
    };
    if !(end > 3 && byte_is_digit(buf[0]) && byte_is_digit(buf[1]) && byte_is_digit(buf[2])
        && buf[3] == HYPHEN) {
        return true;
    }
    assert(announces_more(buf@, end as int));
    let len: usize = buf.len();
    let mut i: usize = end + 1;
    while i < len
        invariant
            len == buf@.len(),
            4 <= end < i <= len,
            buf@[i - 1] == LF,
            announces_more(buf@, end as int),
            text::find(buf@, LF, 0) == Some(end as int),
            byte_is_code(buf@),
            forall|s: int, e: int| end < s < i ==> !#[trigger] closing_line(buf@, s, e),
        decreases len - i,
    {
        proof {
            text::lemma_find(buf@, LF, i as int);
        }
        match find_byte(buf, LF, i) {
            None => {
                assert forall|s: int, e: int| end < s implies !#[trigger] closing_line(
                    buf@,
                    s,
                    e,
                ) by {
                    if s >= i && closing_line(buf@, s, e) {
                        assert(buf@[e] != LF);
                    }
                }
                return false;
            },
            Some(nl) => {
                if nl >= 3 && nl - 3 > i && buf[i] == buf[0] && buf[i + 1] == buf[1] && buf[i + 2]
                    == buf[2] && buf[i + 3] == SPACE {
                    assert(closing_line(buf@, i as int, nl as int));
                    return true;
                }
                assert forall|s: int, e: int| end < s < nl + 1 implies !#[trigger] closing_line(
                    buf@,
                    s,
                    e,
                ) by {
                    if closing_line(buf@, s, e) && s >= i {
                        if s > i {
                            assert(buf@[s - 1] != LF);
                        } else {
                            assert(e >= nl) by {
                                if e < nl {
                                    assert(buf@[e] != LF);
                                }
                            }
                            if nl < i + 4 {
                                assert(buf@[nl as int] == LF);
                            }
                        }
                    }
                }
                i = nl + 1;
            },
        }
    }
    assert forall|s: int, e: int| end < s implies !#[trigger] closing_line(buf@, s, e) by {}
    false
}

/// None of the three bytes at the head of `buf` is a line feed.
spec fn byte_is_code(buf: Seq<u8>) -> bool {
    buf[0] != LF && buf[1] != LF && buf[2] != LF
}

/// A reply that is complete stays complete, whatever follows it.
pub proof fn law_complete_reply_stays_complete(buf: Seq<u8>, more: Seq<u8>)
    requires
        complete_reply(buf),
    ensures
        complete_reply(buf + more),
{
    let whole = buf + more;
    text::lemma_find(buf, LF, 0);
    let end = text::find(buf, LF, 0)->0;
    assert forall|j: int| 0 <= j < end implies whole[j] != LF by {
        assert(whole[j] == buf[j]);
    }
    text::lemma_find_is(whole, LF, 0, end);
    if announces_more(buf, end) {
        let (i, e) = choose|i: int, e: int| end < i && #[trigger] closing_line(buf, i, e);
        assert(closing_line(whole, i, e));
    }
}

/// Nothing is a whole reply before its first line is complete.
pub proof fn law_reply_needs_a_line(buf: Seq<u8>)
    requires
        forall|i: int| 0 <= i < buf.len() ==> buf[i] != LF,
    ensures
        !complete_reply(buf),
{
    text::lemma_find_none(buf, LF, 0);
}

/// What has been collected behind a read, and whether reading is over: at the end of the stream,
/// where the bytes would be too many, or with a whole reply.
pub open spec fn feed_next(buf: Seq<u8>, bytes: Seq<u8>) -> (Seq<u8>, bool) {
    if bytes.len() == 0 || buf.len() + bytes.len() > MAX_FTP_RESPONSE {
        (buf, true)
    } else {
        (buf + bytes, complete_reply(buf + bytes))
    }
}

/// What is collected of a row of reads, and whether reading is over then. Nothing is read behind
/// the end.
pub open spec fn read_reply(buf: Seq<u8>, reads: Seq<Seq<u8>>) -> (Seq<u8>, bool)
    decreases reads.len(),
{
    if reads.len() == 0 {
        (buf, false)
    } else {
        let (now, over) = feed_next(buf, reads[0]);
        if over {
            (now, true)
        } else {
            read_reply(now, reads.skip(1))
        }
    }
}

proof fn lemma_joined_take(reads: Seq<Seq<u8>>, k: int)
    requires
        0 < k <= reads.len(),
    ensures
        joined(reads.take(k)) == joined(reads.take(k - 1)) + reads[k - 1],
{
    lemma_joined_push(reads.take(k));
    assert(reads.take(k).drop_last() =~= reads.take(k - 1));
}

proof fn lemma_reading_goes_on(reads: Seq<Seq<u8>>, k: int)
    requires
        0 <= k <= reads.len(),
        forall|i: int| 0 <= i < k ==> (#[trigger] reads[i]).len() > 0,
        joined(reads.take(k)).len() <= MAX_FTP_RESPONSE,
        forall|j: int| 0 <= j <= k ==> !complete_reply(joined(#[trigger] reads.take(j))),
    ensures
        read_reply(Seq::empty(), reads) == read_reply(joined(reads.take(k)), reads.skip(k)),
    decreases k,
{
    if k == 0 {
        assert(reads.skip(0) =~= reads);
        assert(joined(reads.take(0)) =~= Seq::<u8>::empty());
    } else {
        lemma_joined_take(reads, k);
        lemma_reading_goes_on(reads, k - 1);
        assert(!complete_reply(joined(reads.take(k))));
        assert(reads.skip(k - 1).skip(1) =~= reads.skip(k));
        assert(reads.skip(k - 1)[0] == reads[k - 1]);
    }
}

/// However a reply is cut into reads, what is collected is what the first reads brought, up to the
/// one that makes a whole reply of them; and where none does, up to the end of the stream or to
/// the read that would bring too many bytes.
pub proof fn law_first_whole_reply_is_read(reads: Seq<Seq<u8>>, k: int)
    requires
        0 <= k <= reads.len(),
        forall|i: int| 0 <= i < k ==> (#[trigger] reads[i]).len() > 0,
        joined(reads.take(k)).len() <= 65536,
        forall|j: int| 0 <= j < k ==> !complete_reply(joined(#[trigger] reads.take(j))),
    ensures
        ({
            let got = joined(reads.take(k));
            let all = read_reply(Seq::empty(), reads);
            &&& complete_reply(got) ==> all == (got, true)
            &&& !complete_reply(got) && k == reads.len() ==> all == (got, false)
            &&& !complete_reply(got) && k < reads.len() && (reads[k].len() == 0 || got.len()
                + reads[k].len() > 65536) ==> all == (got, true)
        }),
{
    let got = joined(reads.take(k));
    if complete_reply(got) {
        if k == 0 {
            assert(got =~= Seq::<u8>::empty());
            law_reply_needs_a_line(got);
        } else {
            lemma_joined_take(reads, k);
            lemma_reading_goes_on(reads, k - 1);
            assert(reads.skip(k - 1)[0] == reads[k - 1]);
        }
    } else {
        lemma_reading_goes_on(reads, k);
        if k < reads.len() {
            assert(reads.skip(k)[0] == reads[k]);
        }
    }
}

/// Collects a reply.
#[derive(Debug)]
pub struct ReplyReader {
    pub buf: Vec<u8>,
}

impl ReplyReader {
    /// No more than the allowed length is ever collected.
    pub open spec fn wf(self) -> bool {
        self.buf@.len() <= MAX_FTP_RESPONSE
    }

    pub fn new() -> (r: ReplyReader)
        ensures
            r.wf(),
            r.buf@ == Seq::<u8>::empty(),
    {
        ReplyReader { buf: Vec::new() }
    }

    /// Takes the bytes that one read brought, none at the end of the stream, and tells whether
    /// reading is over: at the end, where the bytes would be too many, or with a whole reply.
    pub fn feed(&mut self, bytes: &[u8]) -> (over: bool)
        requires
            old(self).wf(),
        ensures
            final(self).wf(),
            (final(self).buf@, over) == feed_next(old(self).buf@, bytes@),
    {
        let n: usize = bytes.len();
        if n == 0 || n > MAX_FTP_RESPONSE - self.buf.len() {
            return true;
        }
        self.buf.extend_from_slice(bytes);
        assert(self.buf@ =~= old(self).buf@ + bytes@);
        is_complete_response(self.buf.as_slice())
    }

    /// What was collected; nothing where no byte came.
    pub fn finish(self) -> (r: Option<Vec<u8>>)
        ensures
            self.buf@.len() == 0 ==> r is None,
            self.buf@.len() > 0 ==> r == Some(self.buf),
    {
        if self.buf.len() == 0 {
            None
        } else {
            Some(self.buf)
        }
    }
}

/// A reply whose first line begins with any three digits and a hyphen is whole exactly where a
/// later line is complete that begins with the same digits and a space.
pub proof fn law_reply_of_several_lines(buf: Seq<u8>)
    requires
        buf.len() >= 4,
        48 <= buf[0] <= 57,
        48 <= buf[1] <= 57,
        48 <= buf[2] <= 57,
        buf[3] == 45,
    ensures
        complete_reply(buf) <==> exists|i: int, e: int|
            #![trigger buf[i], buf[e]]
            {
                &&& 0 < i
                &&& i + 4 <= e < buf.len()
                &&& buf[i - 1] == 10
                &&& buf[i] == buf[0]
                &&& buf[i + 1] == buf[1]
                &&& buf[i + 2] == buf[2]
                &&& buf[i + 3] == 32
                &&& buf[e] == 10
            },
{
    text::lemma_find(buf, LF, 0);
    if complete_reply(buf) {
        let end = text::find(buf, LF, 0)->0;
        assert(announces_more(buf, end));
        let (i, e) = choose|i: int, e: int| end < i && #[trigger] closing_line(buf, i, e);
        assert(buf[i] == buf[0] && buf[e] == 10);
    }
    if exists|i: int, e: int|
        #![trigger buf[i], buf[e]]
        {
            &&& 0 < i
            &&& i + 4 <= e < buf.len()
            &&& buf[i - 1] == 10
            &&& buf[i] == buf[0]
            &&& buf[i + 1] == buf[1]
            &&& buf[i + 2] == buf[2]
            &&& buf[i + 3] == 32
            &&& buf[e] == 10
        } {
        let (i, e) = choose|i: int, e: int|
            #![trigger buf[i], buf[e]]
            {
                &&& 0 < i
                &&& i + 4 <= e < buf.len()
                &&& buf[i - 1] == 10
                &&& buf[i] == buf[0]
                &&& buf[i + 1] == buf[1]
                &&& buf[i + 2] == buf[2]
                &&& buf[i + 3] == 32
                &&& buf[e] == 10
            };
        let end = text::find(buf, LF, 0)->0;
        assert(end < i);
        assert(closing_line(buf, i, e));
    }
}

/// Any other reply is whole exactly where it holds a complete line.
pub proof fn law_reply_of_one_line(buf: Seq<u8>)
    requires
        !(buf.len() >= 4 && 48 <= buf[0] <= 57 && 48 <= buf[1] <= 57 && 48 <= buf[2] <= 57
            && buf[3] == 45),
    ensures
        complete_reply(buf) <==> buf.contains(10),
{
    text::lemma_find(buf, LF, 0);
    if let Some(end) = text::find(buf, LF, 0) {
        assert(buf[end] == 10);
    }
}

/// What a read brings of a line: the bytes up to and with the first line feed, or all of them where
/// there is none. They are counted and taken, unless the line were longer than allowed; then none
/// is. Only a read without bytes ends the stream.
pub proof fn law_bytes_of_a_line(total: int, available: Seq<u8>, max_len: int)
    requires
        0 <= total <= max_len <= usize::MAX,
        available.len() <= usize::MAX,
    ensures
        ({
            let taken = line_taken(total, available, max_len);
            match line_read(total, available, max_len) {
                LineRead::End { total: now } => available.len() == 0 && now == total && taken.len()
                    == 0,
                LineRead::Line { consumed, total: now } => {
                    &&& 0 < consumed <= available.len()
                    &&& available[consumed - 1] == 10
                    &&& forall|j: int| 0 <= j < consumed - 1 ==> available[j] != 10
                    &&& now == total + consumed
                    &&& now <= max_len
                    &&& taken == available.take(consumed as int)
                },
                LineRead::More { consumed, total: now } => {
                    &&& 0 < consumed == available.len()
                    &&& forall|j: int| 0 <= j < available.len() ==> available[j] != 10
                    &&& now == total + consumed
                    &&& now <= max_len
                    &&& taken == available
                },
                LineRead::TooLong => {
                    &&& total + available.len() > max_len
                    &&& forall|j: int| 0 <= j < max_len - total ==> available[j] != 10
                    &&& taken.len() == 0
                },
            }
        }),
{
    text::lemma_find(available, LF, 0);
    assert(available.take(available.len() as int) =~= available);
}

/// A line of a control channel may have 8192 bytes, its line feed included: one that has is read,
/// and one that goes on behind so many bytes is refused.
pub proof fn law_lines_of_a_control_channel(pieces: Seq<Seq<u8>>, end: int)
    requires
        forall|i: int| 0 <= i < pieces.len() ==> (#[trigger] pieces[i]).len() > 0,
        0 <= end < joined(pieces).len(),
        joined(pieces)[end] == 10,
        forall|i: int| 0 <= i < end ==> joined(pieces)[i] != 10,
    ensures
        end < 8192 ==> read_pieces(Seq::empty(), pieces, MAX_FTP_LINE as int).1 is Line
            && read_pieces(Seq::empty(), pieces, MAX_FTP_LINE as int).0 == joined(pieces).take(
            end + 1,
        ),
        end >= 8192 ==> read_pieces(Seq::empty(), pieces, MAX_FTP_LINE as int).1 is TooLong,
{
    let none = Seq::<u8>::empty();
    assert(none + joined(pieces) =~= joined(pieces));
    text::lemma_find_is(joined(pieces), LF, 0, end);
    if end < 8192 {
        law_line_is_independent_of_pieces(none, pieces, MAX_FTP_LINE as int, end);
    } else {
        law_long_line_is_refused(none, pieces, MAX_FTP_LINE as int);
    }
}

} // verus!
