//! The failures that a run survives, and the line that reports each.

use vstd::prelude::*;
use vstd::string::*;
use crate::reader::{InputSource, Source};

verus! {

/// A failure on one source. The run goes on with the next source.
#[derive(Debug)]
pub enum CrabError {
    /// A file could not be opened: its path, and what the system said.
    OpenError(String, String),
    /// A source failed while it was read: the source, and what the system
    /// said.
    ReadError(InputSource, String),
}

/// A failure, as contracts see it.
pub enum Failure {
    /// A file could not be opened: its path, and what the system said.
    Open(Seq<char>, Seq<char>),
    /// A source failed while it was read: the source, and what the system
    /// said.
    Read(Source, Seq<char>),
}

impl View for CrabError {
    type V = Failure;

    open spec fn view(&self) -> Failure {
        match self {
            CrabError::OpenError(path, error) => Failure::Open(path@, error@),
            CrabError::ReadError(source, error) => Failure::Read(source@, error@),
        }
    }
}

/// How a source is called in a report.
pub open spec fn source_name(source: Source) -> Seq<char> {
    match source {
        Source::Stdin => "Stdin"@,
        Source::File(path) => "file "@ + path,
    }
}

/// What a report says of `failure`: where it happened, and what the
/// system said.
pub open spec fn message_spec(failure: Failure) -> Seq<char> {
    match failure {
        Failure::Open(path, error) => path + ": "@ + error,
        Failure::Read(source, error) => "Error reading "@ + source_name(source) + ": "@ + error,
    }
}

/// The line that reports `failure` on behalf of the program `exe`.
pub open spec fn report_spec(exe: Seq<char>, failure: Failure) -> Seq<char> {
    exe + ": "@ + message_spec(failure)
}

impl CrabError {
    /// What to say of this failure, without the program's name.
    pub fn message(&self) -> (text: String)
        ensures
            text@ == message_spec(self@),
    {
        match self {
            CrabError::OpenError(path, error) => {
                let mut text = path.clone();
                text.append(": ");
                text.append(error.as_str());
                text
            },
            CrabError::ReadError(source, error) => {
                let mut text = String::from_str("Error reading ");
                match source {
                    InputSource::File(path) => {
                        text.append("file ");
                        text.append(path.as_str());
                        assert(text@ =~= "Error reading "@ + ("file "@ + path@));
                    },
                    InputSource::Stdin => {
                        text.append("Stdin");
                    },
                }
                text.append(": ");
                text.append(error.as_str());
                text
            },
        }
    }

    /// The line that reports this failure on behalf of the program `exe`:
    /// the program, where it failed, and what the system said, with a
    /// colon and a space between them. The line has no newline.
    pub fn show(&self, exe: &str) -> (line: String)
        ensures
            line@ == report_spec(exe@, self@),
    {
        let mut line = String::from_str(exe);
        line.append(": ");
        let message = self.message();
        line.append(message.as_str());
        line
    }
}

} // verus!
