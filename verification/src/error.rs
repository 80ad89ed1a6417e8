//! Why the solve of one line failed.

use vstd::prelude::*;

verus! {

/// Why the search for the top angle stopped without an answer.
#[derive(Clone, Copy, Debug, PartialEq, Eq, Structural)]
pub enum StallCause {
    /// The shot budget is spent.
    IterationLimit,
    /// Both ends of the bracket miss the anchor depth by the same amount, so
    /// no angle can be interpolated between them.
    DegenerateBracket,
    /// A shot missed the anchor depth on the side opposite to both ends of
    /// the bracket, so it can replace neither.
    BracketInversion,
}

/// A failure of the solve of one line. It does not affect other lines.
#[derive(Debug, PartialEq, Eq)]
pub enum SolveError {
    /// A segment names a line type that the table does not hold.
    UnknownLineType { name: String },
    /// The search for the top angle stopped after `shots` shots.
    NonConvergence { cause: StallCause, shots: u32 },
    /// The state at node `node` is unusable: the tension is not positive, or
    /// a component is not finite.
    NumericalFailure { node: usize },
}

} // verus!
