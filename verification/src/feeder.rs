//! The input feeder: the decisions of the loop that writes to the child's
//! input pipe.
//!
//! The caller owns the pipe and the queue of texts.  It waits for the next
//! text or for the stop flag, asks `next_action` what to do, performs the
//! write and the flush, and reports to `on_write` whether they succeeded.

use crate::lines::LINE_FEED;
use vstd::prelude::*;
use vstd::slice::slice_to_vec;
use vstd::string::StringSliceAdditionalSpecFns;

verus! {

/// What the feeder does next.
#[derive(Debug)]
pub enum FeedAction {
    /// Leave the loop and write nothing more.
    Stop,
    /// Nothing to write: wait for a text or for the stop flag.
    Wait,
    /// Write these bytes to the pipe and flush it.
    Write(Vec<u8>),
}

/// What a [`FeedAction`] stands for.
pub ghost enum FeedStep {
    Stop,
    Wait,
    Write(Seq<u8>),
}

impl View for FeedAction {
    type V = FeedStep;

    open spec fn view(&self) -> FeedStep {
        match self {
            FeedAction::Stop => FeedStep::Stop,
            FeedAction::Wait => FeedStep::Wait,
            FeedAction::Write(bytes) => FeedStep::Write(bytes@),
        }
    }
}

/// The bytes that are written for a text: the text in UTF-8, then a line
/// feed.
pub open spec fn framed(text: Seq<char>) -> Seq<u8> {
    vstd::utf8::encode_utf8(text) + seq![LINE_FEED]
}

/// What the feeder does, given whether it is still open, whether a stop
/// was asked for, and the text at the head of the queue.  A stop comes
/// before any text: once it is asked for nothing more is written.
pub open spec fn feed_step(open: bool, stop_requested: bool, item: Option<Seq<char>>) -> FeedStep {
    if !open || stop_requested {
        FeedStep::Stop
    } else {
        match item {
            Some(text) => FeedStep::Write(framed(text)),
            None => FeedStep::Wait,
        }
    }
}

/// The bytes to write for one text.
pub fn frame_input(text: &str) -> (bytes: Vec<u8>)
    ensures
        bytes@ == framed(text@),
{
    let mut bytes = slice_to_vec(text.as_bytes());
    bytes.push(LINE_FEED);
    bytes
}

/// The decisions of the loop that feeds the child's input pipe.  The view
/// is whether the pipe still takes input.
pub struct InputFeeder {
    open: bool,
}

impl View for InputFeeder {
    type V = bool;

    closed spec fn view(&self) -> bool {
        self.open
    }
}

impl InputFeeder {
    /// A feeder for a pipe that has just been opened.
    pub fn new() -> (feeder: Self)
        ensures
            feeder@,
    {
        InputFeeder { open: true }
    }

    /// Whether the pipe still takes input.
    pub fn is_open(&self) -> (open: bool)
        ensures
            open == self@,
    {
        self.open
    }

    /// What to do next.  `item` is the text at the head of the queue, if
    /// there is one.
    pub fn next_action(&self, stop_requested: bool, item: Option<&str>) -> (action: FeedAction)
        ensures
            action@ == feed_step(
                self@,
                stop_requested,
                match item {
                    Some(text) => Some(text@),
                    None => None,
                },
            ),
    {
        if !self.open || stop_requested {
            FeedAction::Stop
        } else {
            match item {
                Some(text) => FeedAction::Write(frame_input(text)),
                None => FeedAction::Wait,
            }
        }
    }

    /// Takes the outcome of a write and its flush.  A failure closes the
    /// feeder for good; it is not an error of the runner.
    pub fn on_write(&mut self, succeeded: bool)
        ensures
            final(self)@ == (old(self)@ && succeeded),
    {
        if !succeeded {
            self.open = false;
        }
    }
}

} // verus!
