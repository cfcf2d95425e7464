//! Copying one direction of a data channel.

use vstd::prelude::*;

verus! {

/// What is done when a copy ends.
#[derive(Clone, Copy, Debug, PartialEq, Eq, Structural)]
pub enum CopyEnding {
    /// At the end of the data the writer is flushed; otherwise nothing is done.
    FlushAtEnd,
    /// The writer is flushed in any case.
    Flush,
    /// The writer is flushed and shut down in any case, behind all that is queued for it.
    Shutdown,
    /// The writer is flushed, and both streams are shut down in any case.
    ShutdownBoth,
}

/// What a copy waits for.
#[derive(Clone, Copy, Debug, PartialEq, Eq, Structural)]
pub enum CopyPhase {
    /// Data, or a tick of the idle timer.
    Reading,
    /// So many bytes to be written.
    Writing(usize),
    /// The end to be dealt with.
    Closing,
    Finished,
}

/// A copy from a reader to a writer.
#[derive(Clone, Copy, Debug, PartialEq, Eq, Structural)]
pub struct ByteRelay {
    pub ending: CopyEnding,
    /// The ticks of the idle timer without data after which the copy ends; none where it waits
    /// for data without a limit.
    pub max_idle_count: Option<usize>,
    /// The ticks since data last came.
    pub idle: usize,
    /// The bytes that were written.
    pub total: u64,
    pub phase: CopyPhase,
}

/// What a copy is told.
#[derive(Debug)]
pub enum CopyEvent {
    /// Data of the reader; none at its end.
    Read(Vec<u8>),
    ReadFailed,
    Tick,
    /// The last write is over, and whether it succeeded.
    Written(bool),
    /// The end is dealt with.
    Closed,
}

/// What a copy does next.
#[derive(Debug)]
pub enum CopyAction {
    /// Wait for data or, where there is no data, for the idle timer.
    Read,
    Write(Vec<u8>),
    Close(CopyEnding),
    /// Stop; tells how many bytes were written.
    Finish(u64),
}

#[verifier::ext_equal]
pub enum CopyInput {
    Read(Seq<u8>),
    ReadFailed,
    Tick,
    Written(bool),
    Closed,
}

#[verifier::ext_equal]
pub enum CopyOutput {
    Read,
    Write(Seq<u8>),
    Close(CopyEnding),
    Finish(u64),
}

impl View for CopyEvent {
    type V = CopyInput;

    open spec fn view(&self) -> CopyInput {
        match self {
            CopyEvent::Read(data) => CopyInput::Read(data@),
            CopyEvent::ReadFailed => CopyInput::ReadFailed,
            CopyEvent::Tick => CopyInput::Tick,
            CopyEvent::Written(done) => CopyInput::Written(*done),
            CopyEvent::Closed => CopyInput::Closed,
        }
    }
}

impl View for CopyAction {
    type V = CopyOutput;

    open spec fn view(&self) -> CopyOutput {
        match self {
            CopyAction::Read => CopyOutput::Read,
            CopyAction::Write(data) => CopyOutput::Write(data@),
            CopyAction::Close(ending) => CopyOutput::Close(*ending),
            CopyAction::Finish(total) => CopyOutput::Finish(*total),
        }
    }
}

/// A copy that has read nothing.
pub open spec fn copy_start(ending: CopyEnding, max_idle_count: Option<usize>) -> ByteRelay {
    ByteRelay { ending, max_idle_count, idle: 0, total: 0, phase: CopyPhase::Reading }
}

/// The event is one that the copy waits for, and the count of bytes can take it.
pub open spec fn copy_awaits(c: ByteRelay, input: CopyInput) -> bool {
    match c.phase {
        CopyPhase::Reading => match input {
            CopyInput::Read(data) => c.total + data.len() <= u64::MAX && data.len() <= usize::MAX,
            CopyInput::ReadFailed => true,
            CopyInput::Tick => c.max_idle_count is Some,
            _ => false,
        },
        CopyPhase::Writing(_) => input is Written,
        CopyPhase::Closing => input is Closed,
        CopyPhase::Finished => false,
    }
}

/// A copy that stops, at the end of the data or before it.
pub open spec fn copy_stops(c: ByteRelay, at_end: bool) -> (ByteRelay, CopyOutput) {
    if c.ending is FlushAtEnd && !at_end {
        (ByteRelay { phase: CopyPhase::Finished, ..c }, CopyOutput::Finish(c.total))
    } else {
        (ByteRelay { phase: CopyPhase::Closing, ..c }, CopyOutput::Close(c.ending))
    }
}

/// The copy behind the event, and what it does then.
pub open spec fn copy_next(c: ByteRelay, input: CopyInput) -> (ByteRelay, CopyOutput) {
    match (c.phase, input) {
        (CopyPhase::Reading, CopyInput::Read(data)) => if data.len() == 0 {
            copy_stops(c, true)
        } else {
            (
                ByteRelay { idle: 0, phase: CopyPhase::Writing(data.len() as usize), ..c },
                CopyOutput::Write(data),
            )
        },
        (CopyPhase::Reading, CopyInput::Tick) => {
            let idle = ByteRelay { idle: (c.idle + 1) as usize, ..c };
            match c.max_idle_count {
                Some(max) => if c.idle + 1 >= max {
                    copy_stops(idle, false)
                } else {
                    (idle, CopyOutput::Read)
                },
                None => (idle, CopyOutput::Read),
            }
        },
        (CopyPhase::Writing(n), CopyInput::Written(true)) => (
            ByteRelay { total: (c.total + n) as u64, phase: CopyPhase::Reading, ..c },
            CopyOutput::Read,
        ),
        (CopyPhase::Closing, CopyInput::Closed) => (
            ByteRelay { phase: CopyPhase::Finished, ..c },
            CopyOutput::Finish(c.total),
        ),
        _ => copy_stops(c, false),
    }
}

/// The copy of an upload that is not audited, with a limit on its idle ticks or without.
pub open spec fn upload_copy(max_idle_count: Option<usize>) -> ByteRelay {
    copy_start(CopyEnding::FlushAtEnd, max_idle_count)
}

/// The copy of one direction of a channel that is relayed both ways.
pub open spec fn half_copy(max_idle_count: usize) -> ByteRelay {
    copy_start(CopyEnding::Shutdown, Some(max_idle_count))
}

/// The copy of what is left of a channel of which the other direction is closed.
pub open spec fn drain_copy() -> ByteRelay {
    copy_start(CopyEnding::Flush, None)
}

/// The copy of a file or a listing for the client.
pub open spec fn download_copy(max_idle_count: usize) -> ByteRelay {
    copy_start(CopyEnding::ShutdownBoth, Some(max_idle_count))
}

impl ByteRelay {
    /// While it runs, the copy has not been idle for too long; its count has room for what is
    /// being written.
    pub open spec fn wf(self) -> bool {
        &&& self.phase is Reading || self.phase is Writing ==> self.idle == 0 || (
        self.max_idle_count matches Some(max) && self.idle < max)
        &&& self.phase matches CopyPhase::Writing(n) ==> self.total + n <= u64::MAX
    }

    /// A copy that has read nothing, and begins to read.
    pub fn new(ending: CopyEnding, max_idle_count: Option<usize>) -> (r: ByteRelay)
        ensures
            r.wf(),
            r == copy_start(ending, max_idle_count),
    {
        ByteRelay { ending, max_idle_count, idle: 0, total: 0, phase: CopyPhase::Reading }
    }

    /// The copy of an upload that is not audited: it ends with the client's data, and otherwise
    /// when the client is silent for too long.
    pub fn raw_forward_with_idle(max_idle_count: usize) -> (r: ByteRelay)
        ensures
            r.wf(),
            r == upload_copy(Some(max_idle_count)),
    {
        ByteRelay::new(CopyEnding::FlushAtEnd, Some(max_idle_count))
    }

    /// The copy of an upload whose auditor cannot be reached.
    pub fn raw_forward() -> (r: ByteRelay)
        ensures
            r.wf(),
            r == upload_copy(None),
    {
        ByteRelay::new(CopyEnding::FlushAtEnd, None)
    }

    /// One direction of a channel that is relayed both ways.
    pub fn bidi_half_relay_with_idle(max_idle_count: usize) -> (r: ByteRelay)
        ensures
            r.wf(),
            r == half_copy(max_idle_count),
    {
        ByteRelay::new(CopyEnding::Shutdown, Some(max_idle_count))
    }

    /// What is left of a channel of which the other direction is closed.
    pub fn drain_and_close_half() -> (r: ByteRelay)
        ensures
            r.wf(),
            r == drain_copy(),
    {
        ByteRelay::new(CopyEnding::Flush, None)
    }

    /// A file or a listing for the client.
    pub fn download(max_idle_count: usize) -> (r: ByteRelay)
        ensures
            r.wf(),
            r == download_copy(max_idle_count),
    {
        ByteRelay::new(CopyEnding::ShutdownBoth, Some(max_idle_count))
    }

    /// Whether the copy waits for the event.
    pub fn awaits(&self, event: &CopyEvent) -> (r: bool)
        ensures
            r == copy_awaits(*self, event@),
    {
        match (self.phase, event) {
            (CopyPhase::Reading, CopyEvent::Read(data)) => {
                data.len() as u64 <= u64::MAX - self.total
            },
            (CopyPhase::Reading, CopyEvent::ReadFailed) => true,
            (CopyPhase::Reading, CopyEvent::Tick) => self.max_idle_count.is_some(),
            (CopyPhase::Writing(_), CopyEvent::Written(_)) => true,
            (CopyPhase::Closing, CopyEvent::Closed) => true,
            _ => false,
        }
    }

    fn stop(&mut self, at_end: bool) -> (action: CopyAction)
        ensures
            (*final(self), action@) == copy_stops(*old(self), at_end),
    {
        if self.ending == CopyEnding::FlushAtEnd && !at_end {
            self.phase = CopyPhase::Finished;
            CopyAction::Finish(self.total)
        } else {
            self.phase = CopyPhase::Closing;
            CopyAction::Close(self.ending)
        }
    }

    /// Takes an event that the copy waits for, and tells what to do next.
    pub fn step(&mut self, event: CopyEvent) -> (action: CopyAction)
        requires
            old(self).wf(),
            copy_awaits(*old(self), event@),
        ensures
            final(self).wf(),
            (*final(self), action@) == copy_next(*old(self), event@),
    {
        match (self.phase, event) {
            (CopyPhase::Reading, CopyEvent::Read(data)) => {
                if data.len() == 0 {
                    self.stop(true)
                } else {
                    self.idle = 0;
                    self.phase = CopyPhase::Writing(data.len());
                    CopyAction::Write(data)
                }
            },
            (CopyPhase::Reading, CopyEvent::Tick) => {
                self.idle = self.idle + 1;
                match self.max_idle_count {
                    Some(max) => {
                        if self.idle >= max {
                            self.stop(false)
                        } else {
                            CopyAction::Read
                        }
                    },
                    None => CopyAction::Read,
                }
            },
            (CopyPhase::Writing(n), CopyEvent::Written(true)) => {
                self.total = self.total + n as u64;
                self.phase = CopyPhase::Reading;
                CopyAction::Read
            },
            (CopyPhase::Closing, CopyEvent::Closed) => {
                self.phase = CopyPhase::Finished;
                CopyAction::Finish(self.total)
            },
            _ => self.stop(false),
        }
    }
}

// ---------------------------------------------------------------------------
// Whole copies
// ---------------------------------------------------------------------------

/// What has passed through a copy.
#[verifier::ext_equal]
pub struct CopyRecord {
    pub read: Seq<u8>,
    /// What was handed to the writer.
    pub written: Seq<u8>,
    /// How many bytes of it the writer took.
    pub taken: nat,
    /// How often the end was dealt with.
    pub closes: nat,
    /// How many bytes had been handed to the writer when the end was last dealt with.
    pub closed_at: nat,
}

pub open spec fn copy_record_step(
    record: CopyRecord,
    input: CopyInput,
    output: CopyOutput,
) -> CopyRecord {
    CopyRecord {
        read: match input {
            CopyInput::Read(data) => record.read + data,
            _ => record.read,
        },
        written: match output {
            CopyOutput::Write(data) => record.written + data,
            _ => record.written,
        },
        taken: match input {
            CopyInput::Written(true) => record.written.len(),
            _ => record.taken,
        },
        closes: match output {
            CopyOutput::Close(_) => record.closes + 1,
            _ => record.closes,
        },
        closed_at: match output {
            CopyOutput::Close(_) => record.written.len(),
            _ => record.closed_at,
        },
    }
}

/// The copy behind a row of events, and what has passed through it.
pub open spec fn copy_run(c: ByteRelay, inputs: Seq<CopyInput>) -> (ByteRelay, CopyRecord)
    decreases inputs.len(),
{
    if inputs.len() == 0 {
        (
            c,
            CopyRecord {
                read: Seq::empty(),
                written: Seq::empty(),
                taken: 0,
                closes: 0,
                closed_at: 0,
            },
        )
    } else {
        let (before, record) = copy_run(c, inputs.drop_last());
        let (after, output) = copy_next(before, inputs.last());
        (after, copy_record_step(record, inputs.last(), output))
    }
}

/// Each event of the row is one that the copy then waits for.
pub open spec fn copy_row(c: ByteRelay, inputs: Seq<CopyInput>) -> bool
    decreases inputs.len(),
{
    inputs.len() > 0 ==> copy_row(c, inputs.drop_last()) && copy_awaits(
        copy_run(c, inputs.drop_last()).0,
        inputs.last(),
    )
}

/// The writer is handed exactly what was read, in order, and the copy reports how much of it the
/// writer took.
pub proof fn law_copy_is_exact(
    ending: CopyEnding,
    max_idle_count: Option<usize>,
    inputs: Seq<CopyInput>,
)
    requires
        copy_row(copy_start(ending, max_idle_count), inputs),
    ensures
        ({
            let (c, record) = copy_run(copy_start(ending, max_idle_count), inputs);
            &&& record.written == record.read
            &&& c.total == record.taken
            &&& record.taken <= record.read.len()
            &&& c.phase is Reading ==> record.taken == record.read.len()
            &&& c.phase matches CopyPhase::Writing(n) ==> record.taken + n == record.read.len()
                && record.read.len() <= u64::MAX
        }),
    decreases inputs.len(),
{
    let start = copy_start(ending, max_idle_count);
    if inputs.len() > 0 {
        law_copy_is_exact(ending, max_idle_count, inputs.drop_last());
        let (before, record) = copy_run(start, inputs.drop_last());
        let (after, output) = copy_next(before, inputs.last());
        let now = copy_record_step(record, inputs.last(), output);
        if let CopyInput::Read(data) = inputs.last() {
            if data.len() == 0 {
                assert(now.read =~= record.read);
            }
        }
    }
}

/// What was read has all been taken, where no write failed and none is under way.
pub proof fn law_copy_takes_all(
    ending: CopyEnding,
    max_idle_count: Option<usize>,
    inputs: Seq<CopyInput>,
)
    requires
        copy_row(copy_start(ending, max_idle_count), inputs),
        !inputs.contains(CopyInput::Written(false)),
    ensures
        ({
            let (c, record) = copy_run(copy_start(ending, max_idle_count), inputs);
            !(c.phase is Writing) ==> record.taken == record.read.len()
        }),
    decreases inputs.len(),
{
    if inputs.len() > 0 {
        let less = inputs.drop_last();
        if less.contains(CopyInput::Written(false)) {
            let i = choose|i: int| 0 <= i < less.len() && less[i] == CopyInput::Written(false);
            assert(inputs[i] == CopyInput::Written(false));
        }
        assert(inputs.last() == inputs[inputs.len() - 1]);
        law_copy_takes_all(ending, max_idle_count, less);
        law_copy_is_exact(ending, max_idle_count, less);
    }
}

/// A copy deals with its end once, behind the last byte that it hands to the writer. Only one that
/// flushes its writer at the end of the data does not, where it stops before that.
pub proof fn law_copy_closes_once(
    ending: CopyEnding,
    max_idle_count: Option<usize>,
    inputs: Seq<CopyInput>,
)
    requires
        copy_row(copy_start(ending, max_idle_count), inputs),
    ensures
        ({
            let (c, record) = copy_run(copy_start(ending, max_idle_count), inputs);
            &&& c.ending == ending
            &&& c.phase is Reading || c.phase is Writing ==> record.closes == 0
                && !inputs.contains(CopyInput::Read(Seq::empty()))
            &&& c.phase is Closing || c.phase is Finished ==> record.closes == if ending
                is FlushAtEnd && !inputs.contains(CopyInput::Read(Seq::empty())) {
                0nat
            } else {
                1nat
            }
            &&& record.closes > 0 ==> record.closed_at == record.written.len()
        }),
    decreases inputs.len(),
{
    let end = CopyInput::Read(Seq::empty());
    if inputs.len() > 0 {
        let less = inputs.drop_last();
        law_copy_closes_once(ending, max_idle_count, less);
        assert(inputs =~= less.push(inputs.last()));
        assert(inputs.contains(end) == (less.contains(end) || inputs.last() == end)) by {
            if less.contains(end) {
                let i = choose|i: int| 0 <= i < less.len() && less[i] == end;
                assert(inputs[i] == end);
            }
            if inputs.last() == end {
                assert(inputs[inputs.len() - 1] == end);
            }
        }
        if let CopyInput::Read(data) = inputs.last() {
            if data.len() == 0 {
                assert(data =~= Seq::<u8>::empty());
            }
        }
    }
}

/// The copy after so many ticks of the idle timer and nothing else.
pub open spec fn copy_ticked(c: ByteRelay, n: nat) -> ByteRelay
    decreases n,
{
    if n == 0 {
        c
    } else {
        copy_next(copy_ticked(c, (n - 1) as nat), CopyInput::Tick).0
    }
}

/// A copy without data ends with the given number of ticks, and not before; with a limit of zero
/// it ends with the first one.
pub proof fn law_idle_copy_ends(ending: CopyEnding, max_idle_count: usize, n: nat)
    requires
        n <= max_idle_count || n <= 1,
    ensures
        ({
            let c = copy_ticked(copy_start(ending, Some(max_idle_count)), n);
            &&& c.idle == n
            &&& c.max_idle_count == Some(max_idle_count)
            &&& n < max_idle_count || n == 0 ==> c.phase is Reading
            &&& n > 0 && n >= max_idle_count ==> c.phase is Closing || c.phase is Finished
        }),
    decreases n,
{
    if n > 0 {
        law_idle_copy_ends(ending, max_idle_count, (n - 1) as nat);
    }
}

// ---------------------------------------------------------------------------
// What each step is for
// ---------------------------------------------------------------------------

/// Data is handed to the writer as it is, and sets the count of idle ticks back; once the writer
/// took it, it is counted and the copy reads on.
pub proof fn law_data_is_handed_on(c: ByteRelay, data: Seq<u8>)
    requires
        data.len() > 0,
        c.phase is Reading,
        copy_awaits(c, CopyInput::Read(data)),
    ensures
        ({
            let (writing, first) = copy_next(c, CopyInput::Read(data));
            let (after, second) = copy_next(writing, CopyInput::Written(true));
            &&& first == CopyOutput::Write(data)
            &&& second is Read
            &&& after.phase is Reading
            &&& after.total == c.total + data.len()
            &&& after.idle == 0
            &&& (after.ending, after.max_idle_count) == (c.ending, c.max_idle_count)
        }),
{
}

/// A copy ends with the end of its data, a failure of either end, or too many idle ticks. Then its
/// end is dealt with in its own way; only a copy that flushes its writer at the end of the data
/// does nothing where it stops before that. The bytes that were written are reported.
pub proof fn law_copy_ends(c: ByteRelay, input: CopyInput)
    requires
        copy_awaits(c, input),
    ensures
        ({
            let (after, output) = copy_next(c, input);
            let at_end = input == CopyInput::Read(Seq::empty());
            let fails = input is ReadFailed || input == CopyInput::Written(false);
            let idle = input is Tick && (c.max_idle_count matches Some(max) && c.idle + 1 >= max);
            &&& at_end || fails || idle ==> output == if c.ending is FlushAtEnd && !at_end {
                CopyOutput::Finish(c.total)
            } else {
                CopyOutput::Close(c.ending)
            }
            &&& input is Closed ==> output == CopyOutput::Finish(c.total) && after.phase is Finished
            &&& input is Tick && !idle ==> output is Read
            &&& input is Tick && c.idle < usize::MAX ==> after.idle == c.idle + 1
            &&& !(input is Tick || input is Read) ==> after.idle == c.idle
        }),
{
    if let CopyInput::Read(data) = input {
        if data.len() == 0 {
            assert(data =~= Seq::<u8>::empty());
        }
    }
}

/// What a copy does is what it then waits for, whatever comes of it, as far as its count can take
/// it; the idle timer only where it has a limit. A copy begins by reading, with nothing counted.
pub proof fn law_copy_waits_for_what_it_asked(
    c: ByteRelay,
    input: CopyInput,
    next: CopyInput,
    ending: CopyEnding,
    max_idle_count: Option<usize>,
)
    requires
        copy_awaits(c, input),
    ensures
        ({
            let (after, output) = copy_next(c, input);
            copy_awaits(after, next) <==> (match output {
                CopyOutput::Read => match next {
                    CopyInput::Read(data) => after.total + data.len() <= u64::MAX && data.len()
                        <= usize::MAX,
                    CopyInput::ReadFailed => true,
                    CopyInput::Tick => c.max_idle_count is Some,
                    _ => false,
                },
                CopyOutput::Write(_) => next is Written,
                CopyOutput::Close(_) => next is Closed,
                CopyOutput::Finish(_) => false,
            })
        }),
        ({
            let start = copy_start(ending, max_idle_count);
            &&& (start.ending, start.max_idle_count) == (ending, max_idle_count)
            &&& start.phase is Reading
            &&& start.idle == 0
            &&& start.total == 0
        }),
{
}

/// How the copies are ended: that of an upload flushes the FTP server's stream behind the file, one
/// direction of a channel shuts its writer down, what is left of a channel is flushed, and a
/// download shuts both streams down. Copies with a limit have the one that they are given.
pub proof fn law_copies_end_as_they_are_used(max_idle_count: usize, limit: Option<usize>)
    ensures
        upload_copy(limit).ending == CopyEnding::FlushAtEnd,
        upload_copy(limit).max_idle_count == limit,
        half_copy(max_idle_count).ending == CopyEnding::Shutdown,
        half_copy(max_idle_count).max_idle_count == Some(max_idle_count),
        drain_copy().ending == CopyEnding::Flush,
        drain_copy().max_idle_count is None,
        download_copy(max_idle_count).ending == CopyEnding::ShutdownBoth,
        download_copy(max_idle_count).max_idle_count == Some(max_idle_count),
        upload_copy(limit).phase is Reading && half_copy(max_idle_count).phase is Reading
            && drain_copy().phase is Reading && download_copy(max_idle_count).phase is Reading,
{
}

} // verus!
