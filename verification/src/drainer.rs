//! The stream drainer: the decisions of the loop that reads one pipe.
//!
//! The caller owns the pipe.  Before each read it asks `should_read`; after
//! each read it reports what came back to `on_read` and publishes the
//! records that it is handed.  A read of no bytes and a failed read both
//! end the stream, and what was pending is then given out as a last line.

use crate::decoder::{line_text, LineDecoder, MAX_LINE_BYTES};
use crate::lines::{
    complete_lines, joined, lemma_chunks_keep_order, lemma_line_end, lines_by_chunk, pending,
    pending_by_chunk,
};
use crate::output::{Output, OutputRecord, OutputType};
use vstd::prelude::*;

verus! {

/// What one read of the pipe came back with.
pub enum ReadEvent<'a> {
    /// The bytes that were read.  None at all means the end of the stream.
    Bytes(&'a [u8]),
    /// The read failed.
    Failed,
}

/// What a [`ReadEvent`] stands for.
pub ghost enum Arrival {
    Bytes(Seq<u8>),
    Failed,
}

impl<'a> View for ReadEvent<'a> {
    type V = Arrival;

    open spec fn view(&self) -> Arrival {
        match self {
            ReadEvent::Bytes(bytes) => Arrival::Bytes(bytes@),
            ReadEvent::Failed => Arrival::Failed,
        }
    }
}

impl Arrival {
    /// Whether the arrival ends the stream: nothing was read, or the read
    /// failed.
    pub open spec fn ends_stream(self) -> bool {
        match self {
            Arrival::Bytes(bytes) => bytes.len() == 0,
            Arrival::Failed => true,
        }
    }
}

/// What a [`StreamDrainer`] stands for.
pub ghost struct DrainerState {
    /// The pipe that is drained.
    pub source: OutputType,
    /// The bytes of the line that has not ended yet.
    pub carry: Seq<u8>,
    /// Whether the stream has not ended.
    pub open: bool,
}

/// The views of a run of outputs.
pub open spec fn records(outputs: Seq<Output>) -> Seq<OutputRecord> {
    outputs.map_values(|output: Output| output@)
}

/// The records of a run of lines from one pipe.
pub open spec fn records_of(source: OutputType, lines: Seq<Seq<u8>>) -> Seq<OutputRecord> {
    lines.map_values(|line: Seq<u8>| OutputRecord { source, text: line_text(line) })
}

/// The line that the end of the stream gives out: what was pending, unless
/// nothing was.
pub open spec fn last_line(carry: Seq<u8>) -> Seq<Seq<u8>> {
    if carry.len() > 0 {
        seq![carry]
    } else {
        Seq::empty()
    }
}

/// Every line of a whole stream: the complete ones, then the unfinished
/// one if there is one.
pub open spec fn all_lines(stream: Seq<u8>) -> Seq<Seq<u8>> {
    complete_lines(stream) + last_line(pending(stream))
}

/// The state after an arrival.
pub open spec fn next_state(state: DrainerState, arrival: Arrival) -> DrainerState {
    if !state.open {
        state
    } else {
        match arrival {
            Arrival::Bytes(bytes) if bytes.len() > 0 => DrainerState {
                carry: pending(state.carry + bytes),
                ..state
            },
            _ => DrainerState { carry: Seq::empty(), open: false, ..state },
        }
    }
}

/// The lines that an arrival gives out.
pub open spec fn lines_out(state: DrainerState, arrival: Arrival) -> Seq<Seq<u8>> {
    if !state.open {
        Seq::empty()
    } else {
        match arrival {
            Arrival::Bytes(bytes) if bytes.len() > 0 => complete_lines(state.carry + bytes),
            _ => last_line(state.carry),
        }
    }
}

/// The records that an arrival gives out.
pub open spec fn emitted(state: DrainerState, arrival: Arrival) -> Seq<OutputRecord> {
    records_of(state.source, lines_out(state, arrival))
}

/// The state after a run of arrivals.
pub open spec fn state_after(state: DrainerState, arrivals: Seq<Arrival>) -> DrainerState
    decreases arrivals.len(),
{
    if arrivals.len() == 0 {
        state
    } else {
        state_after(next_state(state, arrivals[0]), arrivals.skip(1))
    }
}

/// The lines that a run of arrivals gives out, in the order in which they
/// are given out.
pub open spec fn lines_out_over(state: DrainerState, arrivals: Seq<Arrival>) -> Seq<Seq<u8>>
    decreases arrivals.len(),
{
    if arrivals.len() == 0 {
        Seq::empty()
    } else {
        lines_out(state, arrivals[0]) + lines_out_over(
            next_state(state, arrivals[0]),
            arrivals.skip(1),
        )
    }
}

/// The records that a run of arrivals gives out: what each arrival gives
/// out, one after the other.
pub open spec fn emitted_over(state: DrainerState, arrivals: Seq<Arrival>) -> Seq<OutputRecord>
    decreases arrivals.len(),
{
    if arrivals.len() == 0 {
        Seq::empty()
    } else {
        emitted(state, arrivals[0]) + emitted_over(
            next_state(state, arrivals[0]),
            arrivals.skip(1),
        )
    }
}

/// The arrivals of a stream that is read chunk by chunk up to its end.
pub open spec fn arrivals_of(chunks: Seq<Seq<u8>>) -> Seq<Arrival> {
    chunks.map_values(|chunk: Seq<u8>| Arrival::Bytes(chunk)).push(Arrival::Bytes(Seq::empty()))
}

/// The decisions of the loop that drains one pipe.
pub struct StreamDrainer {
    source: OutputType,
    decoder: LineDecoder,
    open: bool,
}

impl View for StreamDrainer {
    type V = DrainerState;

    closed spec fn view(&self) -> DrainerState {
        DrainerState { source: self.source, carry: self.decoder@, open: self.open }
    }
}

/// Tags decoded lines with their pipe.
fn tag_lines(source: OutputType, texts: Vec<String>) -> (outputs: Vec<Output>)
    ensures
        outputs@.len() == texts@.len(),
        forall|k: int|
            0 <= k < outputs@.len() ==> (#[trigger] outputs@[k])@ == (OutputRecord {
                source,
                text: texts@[k]@,
            }),
{
    let ghost all = texts@;
    let mut outputs: Vec<Output> = Vec::new();
    for text in it: texts
        invariant
            it.seq() == all,
            outputs@.len() == it.index(),
            forall|k: int|
                0 <= k < outputs@.len() ==> (#[trigger] outputs@[k])@ == (OutputRecord {
                    source,
                    text: all[k]@,
                }),
    {
        outputs.push(Output::new(source, text));
    }
    outputs
}

impl StreamDrainer {
    /// A drainer for the pipe `source`, before the first read.
    pub fn new(source: OutputType) -> (drainer: Self)
        ensures
            drainer@ == (DrainerState { source, carry: Seq::empty(), open: true }),
    {
        StreamDrainer { source, decoder: LineDecoder::new(), open: true }
    }

    /// The pipe that is drained.
    pub fn source(&self) -> (source: OutputType)
        ensures
            source == self@.source,
    {
        self.source
    }

    /// Whether the stream has ended.
    pub fn is_finished(&self) -> (finished: bool)
        ensures
            finished == !self@.open,
    {
        !self.open
    }

    /// The number of bytes of the line that has not ended yet.
    pub fn buffered(&self) -> (n: usize)
        ensures
            n == self@.carry.len(),
            n <= MAX_LINE_BYTES,
    {
        self.decoder.buffered()
    }

    /// Whether a read of `incoming` bytes can be taken: with them the
    /// line that has not ended yet stays within `MAX_LINE_BYTES`.
    pub fn fits(&self, incoming: usize) -> (fits: bool)
        ensures
            fits == (self@.carry.len() + incoming <= MAX_LINE_BYTES),
    {
        self.decoder.fits(incoming)
    }

    /// Whether to read again: the stream has not ended and no stop was
    /// asked for.  Asked before every read, so a drainer stops at the first
    /// read that returns after termination was requested.
    pub fn should_read(&self, stop_requested: bool) -> (read: bool)
        ensures
            read == (self@.open && !stop_requested),
    {
        self.open && !stop_requested
    }

    /// Takes what a read came back with and returns the records to
    /// publish, in order.  Bytes complete the lines that end in them.  The
    /// end of the stream and a failed read close the drainer and give out
    /// what was pending as a last line.  A closed drainer gives out nothing.
    /// Bytes are taken only where they fit: see `fits`.
    pub fn on_read(&mut self, event: ReadEvent<'_>) -> (outputs: Vec<Output>)
        requires
            old(self)@.open && !event@.ends_stream() ==> old(self)@.carry.len() + event@->Bytes_0.len()
                <= MAX_LINE_BYTES,
        ensures
            final(self)@ == next_state(old(self)@, event@),
            records(outputs@) == emitted(old(self)@, event@),
    {
        let texts: Vec<String> = if !self.open {
            Vec::new()
        } else {
            match event {
                ReadEvent::Bytes(bytes) if bytes.len() > 0 => self.decoder.feed(bytes),
                _ => {
                    self.open = false;
                    let mut last: Vec<String> = Vec::new();
                    match self.decoder.finish() {
                        Some(text) => last.push(text),
                        None => {},
                    }
                    last
                },
            }
        };
        tag_lines(self.source, texts)
    }
}

/// What is given out does not depend on how the stream was cut into reads:
/// chunk by chunk, a drainer gives out the complete lines of the chunks
/// taken together, in their order.
pub proof fn lemma_chunks_give_stream_lines(state: DrainerState, chunks: Seq<Seq<u8>>)
    requires
        state.open,
        forall|k: int| 0 <= k < chunks.len() ==> (#[trigger] chunks[k]).len() > 0,
    ensures
        lines_out_over(state, chunks.map_values(|chunk: Seq<u8>| Arrival::Bytes(chunk)))
            == lines_by_chunk(state.carry, chunks),
        state_after(state, chunks.map_values(|chunk: Seq<u8>| Arrival::Bytes(chunk)))
            == (DrainerState { carry: pending_by_chunk(state.carry, chunks), ..state }),
    decreases chunks.len(),
{
    let arrivals = chunks.map_values(|chunk: Seq<u8>| Arrival::Bytes(chunk));
    if chunks.len() > 0 {
        let tail = chunks.skip(1);
        assert(arrivals.skip(1) =~= tail.map_values(|chunk: Seq<u8>| Arrival::Bytes(chunk)));
        lemma_chunks_give_stream_lines(next_state(state, arrivals[0]), tail);
    }
}

/// The records of one pipe come out in the order in which the child wrote
/// the lines.  A fresh drainer that is handed a stream chunk by chunk, and
/// then its end, gives out one record for each line of the stream, line
/// for line and in order, the unfinished last line included; it is closed
/// afterwards.
pub proof fn lemma_stream_order_kept(source: OutputType, chunks: Seq<Seq<u8>>)
    requires
        forall|k: int| 0 <= k < chunks.len() ==> (#[trigger] chunks[k]).len() > 0,
    ensures
        emitted_over(
            DrainerState { source, carry: Seq::empty(), open: true },
            arrivals_of(chunks),
        ) == records_of(source, all_lines(joined(chunks))),
        lines_out_over(
            DrainerState { source, carry: Seq::empty(), open: true },
            arrivals_of(chunks),
        ) == all_lines(joined(chunks)),
        !state_after(
            DrainerState { source, carry: Seq::empty(), open: true },
            arrivals_of(chunks),
        ).open,
{
    let fresh = DrainerState { source, carry: Seq::empty(), open: true };
    let reads = chunks.map_values(|chunk: Seq<u8>| Arrival::Bytes(chunk));
    let end = Arrival::Bytes(Seq::empty());
    lemma_chunks_give_stream_lines(fresh, chunks);
    lemma_lines_out_over_push(fresh, reads, end);
    let empty = Seq::<u8>::empty();
    lemma_chunks_keep_order(empty, chunks);
    lemma_line_end(empty);
    lemma_emitted_over_tags_lines(fresh, arrivals_of(chunks));
}

/// The records that a run of arrivals gives out are the lines that it
/// gives out, each decoded and tagged with the drainer's pipe.
pub proof fn lemma_emitted_over_tags_lines(state: DrainerState, arrivals: Seq<Arrival>)
    ensures
        emitted_over(state, arrivals) == records_of(state.source, lines_out_over(state, arrivals)),
        state_after(state, arrivals).source == state.source,
    decreases arrivals.len(),
{
    if arrivals.len() > 0 {
        lemma_emitted_over_tags_lines(next_state(state, arrivals[0]), arrivals.skip(1));
    }
}

/// Once the stream has ended nothing more is given out, whatever arrives.
pub proof fn lemma_closed_gives_nothing(state: DrainerState, arrivals: Seq<Arrival>)
    requires
        !state.open,
    ensures
        emitted_over(state, arrivals) == Seq::<OutputRecord>::empty(),
        state_after(state, arrivals) == state,
    decreases arrivals.len(),
{
    if arrivals.len() > 0 {
        lemma_closed_gives_nothing(state, arrivals.skip(1));
    }
}

/// Giving out over a run of arrivals and one more is giving out over the
/// run, then for the one.
pub proof fn lemma_lines_out_over_push(state: DrainerState, arrivals: Seq<Arrival>, last: Arrival)
    ensures
        lines_out_over(state, arrivals.push(last)) == lines_out_over(state, arrivals) + lines_out(
            state_after(state, arrivals),
            last,
        ),
        state_after(state, arrivals.push(last)) == next_state(state_after(state, arrivals), last),
    decreases arrivals.len(),
{
    let longer = arrivals.push(last);
    if arrivals.len() == 0 {
        assert(lines_out_over(next_state(state, last), longer.skip(1)) =~= Seq::<Seq<u8>>::empty());
    } else {
        assert(longer.skip(1) =~= arrivals.skip(1).push(last));
        lemma_lines_out_over_push(next_state(state, arrivals[0]), arrivals.skip(1), last);
    }
}

} // verus!
