//! The body of the ICAP request, in chunks, and the tasks that write file data out.

use crate::outside::put_slice;
use crate::text;
use crate::text::{push_hex, CR, LF};
use vstd::prelude::*;

verus! {

// ---------------------------------------------------------------------------
// Chunks
// ---------------------------------------------------------------------------

/// A line end.
pub open spec fn line_end() -> Seq<u8> {
    seq![CR, LF]
}

/// A chunk: its length in hexadecimal, a line end, the data and a line end.
pub open spec fn chunk(data: Seq<u8>) -> Seq<u8> {
    text::hex(data.len()) + line_end() + data + line_end()
}

/// The chunk without data that ends a body, and the empty trailer behind it.
pub open spec fn last_chunk() -> Seq<u8> {
    text::hex(0) + line_end() + line_end()
}

/// All chunks of the given pieces.
pub open spec fn chunks(pieces: Seq<Seq<u8>>) -> Seq<u8>
    decreases pieces.len(),
{
    if pieces.len() == 0 {
        Seq::empty()
    } else {
        chunks(pieces.drop_last()) + chunk(pieces.last())
    }
}

/// The chunk that carries the data.
pub fn icap_chunk(data: &[u8]) -> (r: Vec<u8>)
    ensures
        r@ == chunk(data@),
{
    let mut out: Vec<u8> = Vec::new();
    push_hex(&mut out, data.len() as u64);
    out.push(CR);
    out.push(LF);
    put_slice(&mut out, data);
    out.push(CR);
    out.push(LF);
    assert(out@ =~= chunk(data@));
    out
}

/// The end of a body in chunks.
pub fn icap_last_chunk() -> (r: Vec<u8>)
    ensures
        r@ == last_chunk(),
{
    let mut out: Vec<u8> = Vec::new();
    push_hex(&mut out, 0);
    out.push(CR);
    out.push(LF);
    out.push(CR);
    out.push(LF);
    assert(out@ =~= last_chunk());
    out
}

/// The number that a hexadecimal digit stands for.
pub open spec fn hex_digit_value(b: u8) -> Option<nat> {
    if text::is_digit(b) {
        Some((b - 48) as nat)
    } else if 65 <= b <= 70 {
        Some((b - 55) as nat)
    } else if 97 <= b <= 102 {
        Some((b - 87) as nat)
    } else {
        None
    }
}

/// The number written in hexadecimal digits; none if there are no digits or anything else.
pub open spec fn hex_value(s: Seq<u8>) -> Option<nat>
    decreases s.len(),
{
    if s.len() == 0 {
        None
    } else {
        match hex_digit_value(s.last()) {
            None => None,
            Some(d) => if s.len() == 1 {
                Some(d)
            } else {
                match hex_value(s.drop_last()) {
                    Some(n) => Some(n * 16 + d),
                    None => None,
                }
            },
        }
    }
}

/// The data in a body that consists of chunks, as a receiver reads it; none if the body is not
/// well formed.
pub open spec fn body_data(body: Seq<u8>) -> Option<Seq<u8>>
    decreases body.len(),
{
    match text::find(body, CR, 0) {
        Some(i) if 0 <= i && i + 1 < body.len() && body[i + 1] == LF => {
            let rest = body.skip(i + 2);
            match hex_value(body.take(i)) {
                None => None,
                Some(n) => if n == 0 {
                    if rest == line_end() {
                        Some(Seq::empty())
                    } else {
                        None
                    }
                } else if rest.len() >= n + 2 && rest.subrange(n as int, n as int + 2) == line_end() {
                    match body_data(rest.skip(n as int + 2)) {
                        Some(more) => Some(rest.take(n as int) + more),
                        None => None,
                    }
                } else {
                    None
                },
            }
        },
        _ => None,
    }
}

pub proof fn lemma_hex(n: nat)
    ensures
        text::hex(n).len() > 0,
        hex_value(text::hex(n)) == Some(n),
        forall|i: int| 0 <= i < text::hex(n).len() ==> #[trigger] text::hex(n)[i] != CR,
    decreases n,
{
    if n < 16 {
        assert(text::hex(n) =~= seq![text::hex_digit(n)]);
    } else {
        lemma_hex(n / 16);
        assert(text::hex(n).drop_last() =~= text::hex(n / 16));
        assert(text::hex(n).last() == text::hex_digit(n % 16));
        assert forall|i: int| 0 <= i < text::hex(n).len() implies #[trigger] text::hex(n)[i]
            != CR by {
            if i < text::hex(n / 16).len() {
                assert(text::hex(n)[i] == text::hex(n / 16)[i]);
            }
        }
    }
}

proof fn lemma_size_line(n: nat, rest: Seq<u8>)
    ensures
        ({
            let body = text::hex(n) + line_end() + rest;
            let i = text::hex(n).len() as int;
            &&& text::find(body, CR, 0) == Some(i)
            &&& i + 1 < body.len()
            &&& body[i + 1] == LF
            &&& body.take(i) == text::hex(n)
            &&& body.skip(i + 2) == rest
        }),
{
    let body = text::hex(n) + line_end() + rest;
    let i = text::hex(n).len() as int;
    lemma_hex(n);
    assert forall|j: int| 0 <= j < i implies body[j] != CR by {
        assert(body[j] == text::hex(n)[j]);
    }
    assert(body[i] == CR);
    text::lemma_find_is(body, CR, 0, i);
    assert(body.take(i) =~= text::hex(n));
    assert(body.skip(i + 2) =~= rest);
}

proof fn lemma_first_chunk(data: Seq<u8>, rest: Seq<u8>)
    requires
        data.len() > 0,
    ensures
        body_data(chunk(data) + rest) == (match body_data(rest) {
            Some(more) => Some(data + more),
            None => None,
        }),
{
    let tail = data + line_end() + rest;
    let body = chunk(data) + rest;
    assert(body =~= text::hex(data.len()) + line_end() + tail);
    lemma_size_line(data.len(), tail);
    lemma_hex(data.len());
    let n = data.len() as int;
    assert(tail.subrange(n, n + 2) =~= line_end());
    assert(tail.skip(n + 2) =~= rest);
    assert(tail.take(n) =~= data);
}

proof fn lemma_chunks_first(pieces: Seq<Seq<u8>>)
    requires
        pieces.len() > 0,
    ensures
        chunks(pieces) == chunk(pieces[0]) + chunks(pieces.skip(1)),
    decreases pieces.len(),
{
    if pieces.len() == 1 {
        assert(pieces.drop_last() =~= Seq::empty());
        assert(pieces.skip(1) =~= Seq::empty());
        assert(chunks(pieces) =~= chunk(pieces[0]) + chunks(pieces.skip(1)));
    } else {
        lemma_chunks_first(pieces.drop_last());
        assert(pieces.drop_last().skip(1) =~= pieces.skip(1).drop_last());
        assert(chunks(pieces) =~= chunk(pieces[0]) + chunks(pieces.skip(1)));
    }
}

/// A receiver of the body reads back exactly the data that was sent, in whatever pieces it was
/// sent.
pub proof fn law_body_is_read_back(pieces: Seq<Seq<u8>>)
    requires
        forall|i: int| 0 <= i < pieces.len() ==> (#[trigger] pieces[i]).len() > 0,
    ensures
        body_data(chunks(pieces) + last_chunk()) == Some(crate::reply::joined(pieces)),
    decreases pieces.len(),
{
    if pieces.len() == 0 {
        lemma_size_line(0, line_end());
        lemma_hex(0);
        assert(chunks(pieces) + last_chunk() =~= last_chunk());
        assert(crate::reply::joined(pieces) =~= Seq::empty());
    } else {
        let rest = chunks(pieces.skip(1)) + last_chunk();
        lemma_chunks_first(pieces);
        assert(chunks(pieces) + last_chunk() =~= chunk(pieces[0]) + rest);
        lemma_first_chunk(pieces[0], rest);
        assert forall|j: int| 0 <= j < pieces.skip(1).len() implies (
        #[trigger] pieces.skip(1)[j]).len() > 0 by {
            assert(pieces.skip(1)[j] == pieces[j + 1]);
        }
        law_body_is_read_back(pieces.skip(1));
    }
}

// ---------------------------------------------------------------------------
// Writers
// ---------------------------------------------------------------------------

/// How a writer puts a piece of the file on the wire.
#[derive(Clone, Copy, Debug, PartialEq, Eq, Structural)]
pub enum Framing {
    /// As it is: towards the FTP server.
    Raw,
    /// As a chunk: towards the ICAP service.
    Chunked,
}

#[derive(Clone, Copy, Debug, PartialEq, Eq, Structural)]
pub enum WriterPhase {
    /// Waits for the next piece.
    Receiving,
    /// Waits for a piece to be written.
    Writing,
    /// Waits for the end of the body to be written.
    Closing,
    Finished,
}

/// A task that takes pieces of a file from a channel and writes them to a stream.
#[derive(Clone, Copy, Debug, PartialEq, Eq, Structural)]
pub struct BodyWriter {
    pub framing: Framing,
    pub phase: WriterPhase,
    /// No write has failed.
    pub intact: bool,
}

/// What a writer is told.
#[derive(Debug)]
pub enum WriterEvent {
    /// The channel gave a piece.
    Piece(Vec<u8>),
    /// The channel is closed and empty.
    Closed,
    /// The last write is over, and whether it succeeded.
    Written(bool),
}

/// What a writer does next.
#[derive(Debug)]
pub enum WriterAction {
    /// Take the next piece from the channel.
    Receive,
    /// Write the bytes.
    Write(Vec<u8>),
    /// Write the bytes, flush the stream and, on the way to the FTP server, shut it down.
    Close(Vec<u8>),
    /// Stop; tells whether every write succeeded.
    Finish(bool),
}

#[verifier::ext_equal]
pub enum WriterInput {
    Piece(Seq<u8>),
    Closed,
    Written(bool),
}

#[verifier::ext_equal]
pub enum WriterOutput {
    Receive,
    Write(Seq<u8>),
    Close(Seq<u8>),
    Finish(bool),
}

impl View for WriterEvent {
    type V = WriterInput;

    open spec fn view(&self) -> WriterInput {
        match self {
            WriterEvent::Piece(data) => WriterInput::Piece(data@),
            WriterEvent::Closed => WriterInput::Closed,
            WriterEvent::Written(done) => WriterInput::Written(*done),
        }
    }
}

impl View for WriterAction {
    type V = WriterOutput;

    open spec fn view(&self) -> WriterOutput {
        match self {
            WriterAction::Receive => WriterOutput::Receive,
            WriterAction::Write(data) => WriterOutput::Write(data@),
            WriterAction::Close(data) => WriterOutput::Close(data@),
            WriterAction::Finish(intact) => WriterOutput::Finish(*intact),
        }
    }
}

/// A piece on the wire.
pub open spec fn framed(framing: Framing, data: Seq<u8>) -> Seq<u8> {
    match framing {
        Framing::Raw => data,
        Framing::Chunked => chunk(data),
    }
}

/// What ends a body on the wire.
pub open spec fn trailer(framing: Framing) -> Seq<u8> {
    match framing {
        Framing::Raw => Seq::empty(),
        Framing::Chunked => last_chunk(),
    }
}

/// The event is one that the writer waits for.
pub open spec fn writer_awaits(w: BodyWriter, input: WriterInput) -> bool {
    match w.phase {
        WriterPhase::Receiving => input is Piece || input is Closed,
        WriterPhase::Writing => input is Written,
        WriterPhase::Closing => input is Written,
        WriterPhase::Finished => false,
    }
}

/// The writer behind the event, and what it does then. After a failed write no more pieces are
/// taken; the end of the body is written in any case.
pub open spec fn writer_next(w: BodyWriter, input: WriterInput) -> (BodyWriter, WriterOutput) {
    match (w.phase, input) {
        (WriterPhase::Receiving, WriterInput::Piece(data)) => (
            BodyWriter { phase: WriterPhase::Writing, ..w },
            WriterOutput::Write(framed(w.framing, data)),
        ),
        (WriterPhase::Receiving, WriterInput::Closed) => (
            BodyWriter { phase: WriterPhase::Closing, ..w },
            WriterOutput::Close(trailer(w.framing)),
        ),
        (WriterPhase::Writing, WriterInput::Written(true)) => (
            BodyWriter { phase: WriterPhase::Receiving, ..w },
            WriterOutput::Receive,
        ),
        (WriterPhase::Writing, WriterInput::Written(false)) => (
            BodyWriter { phase: WriterPhase::Closing, intact: false, ..w },
            WriterOutput::Close(trailer(w.framing)),
        ),
        (WriterPhase::Closing, WriterInput::Written(done)) => (
            BodyWriter { phase: WriterPhase::Finished, intact: w.intact && done, ..w },
            WriterOutput::Finish(w.intact && done),
        ),
        _ => (w, WriterOutput::Finish(w.intact)),
    }
}

impl BodyWriter {
    /// A writer that waits for its first piece.
    pub fn new(framing: Framing) -> (r: BodyWriter)
        ensures
            r == (BodyWriter { framing, phase: WriterPhase::Receiving, intact: true }),
    {
        BodyWriter { framing, phase: WriterPhase::Receiving, intact: true }
    }

    /// Whether the writer waits for the event.
    pub fn awaits(&self, event: &WriterEvent) -> (r: bool)
        ensures
            r == writer_awaits(*self, event@),
    {
        match (self.phase, event) {
            (WriterPhase::Receiving, WriterEvent::Piece(_)) => true,
            (WriterPhase::Receiving, WriterEvent::Closed) => true,
            (WriterPhase::Writing, WriterEvent::Written(_)) => true,
            (WriterPhase::Closing, WriterEvent::Written(_)) => true,
            _ => false,
        }
    }

    /// Takes an event that the writer waits for, and tells what to do next.
    pub fn step(&mut self, event: WriterEvent) -> (action: WriterAction)
        requires
            writer_awaits(*old(self), event@),
        ensures
            (*final(self), action@) == writer_next(*old(self), event@),
    {
        match event {
            WriterEvent::Piece(data) => {
                self.phase = WriterPhase::Writing;
                match self.framing {
                    Framing::Raw => WriterAction::Write(data),
                    Framing::Chunked => WriterAction::Write(icap_chunk(data.as_slice())),
                }
            },
            WriterEvent::Closed => {
                self.phase = WriterPhase::Closing;
                self.close()
            },
            WriterEvent::Written(done) => {
                if self.phase == WriterPhase::Writing {
                    if done {
                        self.phase = WriterPhase::Receiving;
                        WriterAction::Receive
                    } else {
                        self.phase = WriterPhase::Closing;
                        self.intact = false;
                        self.close()
                    }
                } else {
                    self.phase = WriterPhase::Finished;
                    self.intact = self.intact && done;
                    WriterAction::Finish(self.intact)
                }
            },
        }
    }

    fn close(&self) -> (action: WriterAction)
        ensures
            action@ == WriterOutput::Close(trailer(self.framing)),
    {
        match self.framing {
            Framing::Raw => {
                let none: Vec<u8> = Vec::new();
                assert(none@ =~= Seq::<u8>::empty());
                WriterAction::Close(none)
            },
            Framing::Chunked => WriterAction::Close(icap_last_chunk()),
        }
    }
}

/// The writer behind a row of events, and all bytes that it wrote or tried to write.
pub open spec fn writer_run(w: BodyWriter, inputs: Seq<WriterInput>) -> (BodyWriter, Seq<u8>)
    decreases inputs.len(),
{
    if inputs.len() == 0 {
        (w, Seq::empty())
    } else {
        let (before, wire) = writer_run(w, inputs.drop_last());
        let (after, output) = writer_next(before, inputs.last());
        (
            after,
            match output {
                WriterOutput::Write(data) => wire + data,
                WriterOutput::Close(data) => wire + data,
                _ => wire,
            },
        )
    }
}

/// Each event of the row is one that the writer then waits for.
pub open spec fn writer_row(w: BodyWriter, inputs: Seq<WriterInput>) -> bool
    decreases inputs.len(),
{
    inputs.len() > 0 ==> writer_row(w, inputs.drop_last()) && writer_awaits(
        writer_run(w, inputs.drop_last()).0,
        inputs.last(),
    )
}

/// The pieces that a row of events brought.
pub open spec fn pieces_in(inputs: Seq<WriterInput>) -> Seq<Seq<u8>>
    decreases inputs.len(),
{
    if inputs.len() == 0 {
        Seq::empty()
    } else {
        match inputs.last() {
            WriterInput::Piece(data) => pieces_in(inputs.drop_last()).push(data),
            _ => pieces_in(inputs.drop_last()),
        }
    }
}

/// All pieces on the wire.
pub open spec fn all_framed(framing: Framing, pieces: Seq<Seq<u8>>) -> Seq<u8>
    decreases pieces.len(),
{
    if pieces.len() == 0 {
        Seq::empty()
    } else {
        all_framed(framing, pieces.drop_last()) + framed(framing, pieces.last())
    }
}

/// Whatever happens to its writes, a writer puts out each piece that it was given, in order and
/// once, and behind them, once it closes, the end of the body, once. It reports success exactly
/// where no write failed.
pub proof fn law_writer_writes_every_piece(framing: Framing, inputs: Seq<WriterInput>)
    requires
        writer_row(BodyWriter { framing, phase: WriterPhase::Receiving, intact: true }, inputs),
    ensures
        ({
            let (w, wire) = writer_run(
                BodyWriter { framing, phase: WriterPhase::Receiving, intact: true },
                inputs,
            );
            &&& w.framing == framing
            &&& wire == all_framed(framing, pieces_in(inputs)) + (if w.phase is Closing
                || w.phase is Finished {
                trailer(framing)
            } else {
                Seq::empty()
            })
            &&& w.intact <==> !inputs.contains(WriterInput::Written(false))
        }),
    decreases inputs.len(),
{
    let start = BodyWriter { framing, phase: WriterPhase::Receiving, intact: true };
    if inputs.len() == 0 {
        assert(writer_run(start, inputs).1 =~= all_framed(framing, pieces_in(inputs)) + Seq::<
            u8,
        >::empty());
    } else {
        let init = inputs.drop_last();
        law_writer_writes_every_piece(framing, init);
        let (before, wire) = writer_run(start, init);
        let (after, output) = writer_next(before, inputs.last());
        assert(inputs =~= init.push(inputs.last()));
        assert(inputs.contains(WriterInput::Written(false)) <==> init.contains(
            WriterInput::Written(false),
        ) || inputs.last() == WriterInput::Written(false)) by {
            if init.contains(WriterInput::Written(false)) {
                let k = choose|k: int| 0 <= k < init.len() && init[k] == WriterInput::Written(false);
                assert(inputs[k] == WriterInput::Written(false));
            }
            if inputs.last() == WriterInput::Written(false) {
                assert(inputs[inputs.len() - 1] == WriterInput::Written(false));
            }
        }
        if let WriterInput::Piece(data) = inputs.last() {
            assert(pieces_in(inputs).drop_last() =~= pieces_in(init));
            assert(pieces_in(inputs).last() == data);
        }
        let sent = writer_run(start, inputs).1;
        assert(sent =~= all_framed(framing, pieces_in(inputs)) + (if after.phase is Closing
            || after.phase is Finished {
            trailer(framing)
        } else {
            Seq::empty()
        }));
    }
}

/// A writer puts every piece on the wire, on the way to the FTP server as it is, and asks for the
/// next only when it is written. Once the queue is closed, or a write has failed, it ends the body
/// and takes no more pieces, and reports whether all of it was written.
pub proof fn law_writer_goes_on_while_it_can(w: BodyWriter, data: Seq<u8>, done: bool)
    ensures
        w.phase is Receiving ==> {
            let (writing, output) = writer_next(w, WriterInput::Piece(data));
            &&& w.framing is Raw ==> output == WriterOutput::Write(data)
            &&& w.framing is Chunked ==> output == WriterOutput::Write(chunk(data))
            &&& writer_next(w, WriterInput::Closed).1 == WriterOutput::Close(
                if w.framing is Chunked {
                    seq![48u8, 13, 10, 13, 10]
                } else {
                    Seq::empty()
                },
            )
            &&& writer_next(writing, WriterInput::Written(true)).1 is Receive
            &&& writer_next(writing, WriterInput::Written(false)).1 is Close
            &&& writer_next(writing, WriterInput::Written(true)).0 == w
        },
        w.phase is Closing ==> writer_next(w, WriterInput::Written(done)).1 == WriterOutput::Finish(
            w.intact && done,
        ),
        w.phase is Writing ==> writer_next(w, WriterInput::Written(false)).0.intact == false,
{
    assert(last_chunk() =~= seq![48u8, 13, 10, 13, 10]);
}

/// What a writer does is what it then waits for, whatever comes of it. A writer that has ended
/// waits for nothing.
pub proof fn law_writer_waits_for_what_it_asked(
    w: BodyWriter,
    input: WriterInput,
    next: WriterInput,
)
    requires
        writer_awaits(w, input),
    ensures
        ({
            let (after, output) = writer_next(w, input);
            &&& after.framing == w.framing
            &&& writer_awaits(after, next) <==> (match output {
                WriterOutput::Receive => next is Piece || next is Closed,
                WriterOutput::Write(_) | WriterOutput::Close(_) => next is Written,
                WriterOutput::Finish(_) => false,
            })
        }),
{
}

} // verus!
