//! Output records: one decoded line of the child, tagged with its pipe.

use vstd::prelude::*;
use vstd::string::StringExecFns;

verus! {

/// The pipe a line was read from.
#[derive(Debug, PartialEq, Eq, Clone, Copy, Structural)]
pub enum OutputType {
    StdOut,
    StdErr,
}

impl OutputType {
    /// The name of the pipe as a sequence of characters.
    pub open spec fn label(self) -> Seq<char> {
        match self {
            OutputType::StdOut => "stdout"@,
            OutputType::StdErr => "stderr"@,
        }
    }

    /// The name of the pipe: `stdout` or `stderr`.
    pub fn to_string(&self) -> (text: String)
        ensures
            text@ == self.label(),
    {
        match self {
            OutputType::StdOut => String::from_str("stdout"),
            OutputType::StdErr => String::from_str("stderr"),
        }
    }
}

/// What an [`Output`] stands for: the pipe and the text of one line.
pub ghost struct OutputRecord {
    pub source: OutputType,
    pub text: Seq<char>,
}

/// One completed line of the child's output.  The text holds neither the
/// line terminator nor the carriage return before it.
#[derive(Debug)]
pub struct Output {
    output_type: OutputType,
    content: String,
}

impl View for Output {
    type V = OutputRecord;

    closed spec fn view(&self) -> OutputRecord {
        OutputRecord { source: self.output_type, text: self.content@ }
    }
}

impl Output {
    pub fn new(output_type: OutputType, content: String) -> (output: Self)
        ensures
            output@ == (OutputRecord { source: output_type, text: content@ }),
    {
        Self { output_type, content }
    }

    /// The text of the line.
    pub fn as_str(&self) -> (text: &str)
        ensures
            text@ == self@.text,
    {
        self.content.as_str()
    }

    /// The pipe the line came from.
    pub fn get_type(&self) -> (source: OutputType)
        ensures
            source == self@.source,
    {
        self.output_type
    }

    /// Whether the line came from the error pipe.
    pub fn is_err(&self) -> (err: bool)
        ensures
            err == (self@.source == OutputType::StdErr),
    {
        self.output_type == OutputType::StdErr
    }

    /// What [`Output::to_string`] returns: the pipe's name, a colon, a
    /// space, and the text.
    pub open spec fn rendered(record: OutputRecord) -> Seq<char> {
        record.source.label() + ": "@ + record.text
    }

    /// The record on one line, as `stdout: text` or `stderr: text`.
    pub fn to_string(&self) -> (line: String)
        ensures
            line@ == Self::rendered(self@),
    {
        let mut line = self.output_type.to_string();
        line.append(": ");
        line.append(self.content.as_str());
        line
    }
}

} // verus!
