//! Error taxonomy: inference desyncs, protocol and decode failures from the
//! oracle, and collaborator-reported failures that the session loop surfaces.

use vstd::prelude::*;

verus! {

/// The changed-square count between two snapshots fits no single move.
/// Non-recoverable for the current match: the caller must abandon the match
/// rather than guess a move.
#[derive(Debug, PartialEq, Eq)]
pub struct DesyncError {
    /// How many squares differed between the two snapshots.
    pub count: usize,
    /// The differing coordinates, as `(rank_index, file_index)` pairs in
    /// ascending rank-major order.
    pub coordinates: Vec<(usize, usize)>,
}

/// A square-occupancy description from the observer could not be parsed.
#[derive(Clone, Copy, Debug, PartialEq, Eq, Structural)]
pub struct SnapshotParseError;

/// A coordinate-notation move token was malformed.
#[derive(Clone, Copy, Debug, PartialEq, Eq, Structural)]
pub struct MoveDecodeError;

/// The oracle process exited or its reply sentinel was never observed.
#[derive(Clone, Copy, Debug, PartialEq, Eq, Structural)]
pub struct OracleProtocolError;

} // verus!
