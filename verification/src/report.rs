//! What a run hands back: the bytes to print and the fate of each source, or
//! the reason why the run was refused.

use vstd::prelude::*;
use crate::source::SourceError;

verus! {

/// An impossible state that reached the core. It ends the run before
/// anything is printed.
#[derive(Clone, Copy, Debug, PartialEq, Eq, Structural)]
pub enum ConfigurationError {
    /// Both numbering of all lines and numbering of non-blank lines are asked for.
    ConflictingNumbering,
    /// Both a line limit and a byte limit are given.
    ConflictingLimits,
    /// The line limit is zero.
    ZeroLineLimit,
    /// The byte limit is zero.
    ZeroByteLimit,
    /// There is not one reading for each source.
    ReadingCount,
    /// A source was read in another way than the run needs: as bytes where
    /// lines are needed, or as lines where bytes are needed.
    ReadingKind,
}

/// The result of a run over all sources.
#[derive(Debug)]
pub struct RunReport {
    /// The bytes for the standard output.
    pub output: Vec<u8>,
    /// For each source in order, its failure if it had one.
    pub outcomes: Vec<Option<SourceError>>,
}

} // verus!
