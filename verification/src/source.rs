//! Sources and what a reader brings back from them.
//!
//! A source is named by an identifier: `-` for the standard input, anything
//! else for a file of that path. Opening and reading is the caller's work; it
//! hands the library a [`Reading`] for each source, and the library says what
//! is printed for it and which failure, if any, is reported.

use vstd::prelude::*;
use vstd::string::*;

verus! {

/// What an identifier stands for.
#[derive(Debug)]
pub enum Source {
    /// The standard input of the process.
    StandardInput,
    /// The file at `path`.
    File { path: String },
}

/// Whether `identifier` is the reserved name of the standard input, `-`.
pub open spec fn names_standard_input(identifier: Seq<char>) -> bool {
    identifier == seq!['-']
}

/// Decides what `identifier` stands for.
pub fn resolve(identifier: &str) -> (source: Source)
    ensures
        names_standard_input(identifier@) <==> source is StandardInput,
        source matches Source::File { path } ==> path@ == identifier@,
{
    if identifier.unicode_len() == 1 && identifier.get_char(0) == '-' {
        assert(identifier@ =~= seq!['-']);
        Source::StandardInput
    } else {
        Source::File { path: String::from_str(identifier) }
    }
}

/// What a reader brought back from one source.
///
/// A source is read either line by line or as raw bytes, never both. A
/// reading that was cut short keeps what came before the failure.
#[derive(Debug)]
pub enum Reading {
    /// The source could not be opened.
    Unopened { cause: String },
    /// The lines of the source in order, each without its line ending, and
    /// the cause of the failure that ended the reading early, if one did.
    Lines { lines: Vec<Vec<u8>>, failure: Option<String> },
    /// The leading bytes of the source, and the cause of the failure that
    /// ended the reading early, if one did.
    Bytes { bytes: Vec<u8>, failure: Option<String> },
}

/// The step at which a source failed.
#[derive(Clone, Copy, Debug, PartialEq, Eq, Structural)]
pub enum Stage {
    Open,
    Read,
}

/// The failure of one source. It ends the work on that source only.
#[derive(Debug)]
pub struct SourceError {
    pub identifier: String,
    pub stage: Stage,
    pub cause: String,
}

/// The failure that a reading carries: the step and the cause.
pub open spec fn failure_of(reading: Reading) -> Option<(Stage, Seq<char>)> {
    match reading {
        Reading::Unopened { cause } => Some((Stage::Open, cause@)),
        Reading::Lines { lines, failure } => match failure {
            Some(cause) => Some((Stage::Read, cause@)),
            None => None,
        },
        Reading::Bytes { bytes, failure } => match failure {
            Some(cause) => Some((Stage::Read, cause@)),
            None => None,
        },
    }
}

/// Whether `outcome` is what is reported for the source `identifier` after
/// `reading`: nothing where the reading carries no failure, else an error
/// that names the source, the step and the cause.
pub open spec fn reports(outcome: Option<SourceError>, identifier: Seq<char>, reading: Reading) -> bool {
    match (outcome, failure_of(reading)) {
        (None, None) => true,
        (Some(error), Some((stage, cause))) => {
            &&& error.identifier@ == identifier
            &&& error.stage == stage
            &&& error.cause@ == cause
        },
        _ => false,
    }
}

/// The text of the line that reports a failure: the identifier, a colon and
/// a space, then the cause.
pub open spec fn message_text(identifier: Seq<char>, cause: Seq<char>) -> Seq<char> {
    identifier + seq![':', ' '] + cause
}

impl SourceError {
    /// The line that reports this failure.
    pub fn message(&self) -> (text: String)
        ensures
            text@ == message_text(self.identifier@, self.cause@),
    {
        let mut text = self.identifier.clone();
        proof {
            reveal_strlit(": ");
        }
        text.append(": ");
        text.append(self.cause.as_str());
        assert(": "@ =~= seq![':', ' ']);
        text
    }
}

impl Reading {
    /// The failure of the source `identifier`, if this reading carries one.
    pub fn outcome(&self, identifier: &str) -> (outcome: Option<SourceError>)
        ensures
            reports(outcome, identifier@, *self),
    {
        match self {
            Reading::Unopened { cause } => Some(
                SourceError {
                    identifier: String::from_str(identifier),
                    stage: Stage::Open,
                    cause: cause.clone(),
                },
            ),
            Reading::Lines { lines: _, failure: Some(cause) } => Some(
                SourceError {
                    identifier: String::from_str(identifier),
                    stage: Stage::Read,
                    cause: cause.clone(),
                },
            ),
            Reading::Bytes { bytes: _, failure: Some(cause) } => Some(
                SourceError {
                    identifier: String::from_str(identifier),
                    stage: Stage::Read,
                    cause: cause.clone(),
                },
            ),
            _ => None,
        }
    }
}

} // verus!
