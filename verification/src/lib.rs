//! The engine of a child-process runner, free of I/O.
//!
//! Bytes read from the child's pipes are cut into lines and decoded
//! ([`lines`], [`decoder`]), tagged with their pipe and handed out as
//! records ([`output`], [`drainer`]); text for the child is framed for its
//! input pipe ([`feeder`]); what is known of the process is folded into one
//! status that latches once it is terminal ([`status`], [`supervisor`],
//! [`lifecycle`]).  Every function here takes plain values and returns
//! plain values: the caller owns the process, the pipes and the threads,
//! performs the reads, the writes and the kill, and reports what happened.

pub mod command;
pub mod decoder;
pub mod drainer;
pub mod feeder;
pub mod lifecycle;
pub mod lines;
pub mod output;
pub mod status;
pub mod supervisor;

pub use command::CommandSpec;
pub use decoder::{decode_line, LineDecoder, MAX_LINE_BYTES};
pub use drainer::{ReadEvent, StreamDrainer};
pub use feeder::{frame_input, FeedAction, InputFeeder};
pub use lifecycle::{check_status, Lifecycle, NeverWritable, ReadinessProbe};
pub use output::{Output, OutputType};
pub use status::CommandStatus;
pub use supervisor::{check_child_process_status, ExitPoll, WaitOutcome};
