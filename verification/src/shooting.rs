//! The search for the top angle at which a shot ends at the anchor depth.
//!
//! A shot integrates the line from the top at one trial angle and yields a
//! residual: how far the bottom node lands from the anchor depth. The search
//! keeps a bracket of two angles with their residuals. Its first two shots
//! are taken at the two angles it is given, and open the bracket. Each later
//! shot is taken at the angle that interpolation between the ends of the
//! bracket gives, and replaces the end whose residual has its sign. The
//! search ends with the first shot whose residual is within tolerance.
//!
//! The search never looks into an angle or a residual: taking a shot,
//! judging a residual and interpolating are the caller's, so the same search
//! serves any representation of numbers.

use crate::error::{SolveError, StallCause};
use vstd::prelude::*;

verus! {

/// The most shots that one search takes.
pub const MAX_SHOTS: u32 = 100;

/// One end of the bracket.
#[derive(Clone, Copy, Debug, PartialEq, Eq, Structural)]
pub enum BracketEnd {
    Lower,
    Upper,
}

/// Two trial angles, each with the residual of the shot taken at it.
#[derive(Debug, PartialEq)]
pub struct Bracket<A, R> {
    pub lower: (A, R),
    pub upper: (A, R),
}

/// What the search leaves to its caller.
pub struct Shooter<S, C, G, I> {
    /// Takes the shot at an angle: its residual and the path of the line, or
    /// the reason why the line could not be integrated.
    pub shoot: S,
    /// Whether a residual is within tolerance of zero.
    pub converged: C,
    /// Whether the residual at an end of the bracket, given first, and the
    /// residual of a shot have the same sign.
    pub same_sign: G,
    /// The angle at which the line through both ends of a bracket has
    /// residual zero, or `None` where both ends have the same residual.
    pub interpolate: I,
}

/// The shot that ended a search: its angle, its residual, the path of the
/// line, and how many shots the search took.
#[derive(Debug, PartialEq)]
pub struct Found<A, R, P> {
    pub angle: A,
    pub residual: R,
    pub path: P,
    pub shots: u32,
}

/// What became of the last shot of a search that stalled.
#[derive(Debug, PartialEq)]
pub enum LastShot<A, R> {
    /// It replaced this end of the bracket.
    Replaced(BracketEnd),
    /// It fits neither end of the bracket, and is handed back.
    Rejected(A, R),
}

/// Why a search found no angle.
#[derive(Debug, PartialEq)]
pub enum SearchFailure<A, R> {
    /// A shot could not be taken; its error is passed on.
    Shot(SolveError),
    /// The search stalled after `shots` shots, with this bracket.
    Stalled { cause: StallCause, shots: u32, bracket: Bracket<A, R>, last: LastShot<A, R> },
}

impl<A, R> SearchFailure<A, R> {
    /// The error to report for the line and, where the search stalled, the
    /// bracket it stalled with and what became of its last shot.
    pub fn into_parts(self) -> (parts: (SolveError, Option<(Bracket<A, R>, LastShot<A, R>)>))
        ensures
            parts == (match self {
                SearchFailure::Shot(error) => (error, None::<(Bracket<A, R>, LastShot<A, R>)>),
                SearchFailure::Stalled { cause, shots, bracket, last } => (
                    SolveError::NonConvergence { cause, shots },
                    Some((bracket, last)),
                ),
            }),
    {
        match self {
            SearchFailure::Shot(error) => (error, None),
            SearchFailure::Stalled { cause, shots, bracket, last } => (
                SolveError::NonConvergence { cause, shots },
                Some((bracket, last)),
            ),
        }
    }
}

/// A shot that did not end the search, and the end of the bracket that it
/// replaced.
pub struct Shot<A, R> {
    pub angle: A,
    pub residual: R,
    pub replaced: BracketEnd,
}

/// The bracket that the shots of `log` leave: the first two open it, and
/// each later one replaces an end.
pub open spec fn bracket_after<A, R>(log: Seq<Shot<A, R>>) -> Bracket<A, R>
    recommends
        log.len() >= 2,
    decreases log.len(),
{
    if log.len() <= 2 {
        Bracket { lower: (log[0].angle, log[0].residual), upper: (log[1].angle, log[1].residual) }
    } else {
        let before = bracket_after(log.drop_last());
        let last = log.last();
        match last.replaced {
            BracketEnd::Lower => Bracket { lower: (last.angle, last.residual), upper: before.upper },
            BracketEnd::Upper => Bracket { lower: before.lower, upper: (last.angle, last.residual) },
        }
    }
}

/// The shot that follows the shots of `log` is taken at `angle`.
pub open spec fn aims<A, R, P, S, C, G, I>(
    lower: A,
    upper: A,
    ops: Shooter<S, C, G, I>,
    log: Seq<Shot<A, R>>,
    angle: A,
) -> bool where
    S: Fn(&A) -> Result<(R, P), SolveError>,
    C: Fn(&R) -> bool,
    G: Fn(&R, &R) -> bool,
    I: Fn(&Bracket<A, R>) -> Option<A>,
{
    if log.len() == 0 {
        angle == lower
    } else if log.len() == 1 {
        angle == upper
    } else {
        call_ensures(ops.interpolate, (&bracket_after(log),), Some(angle))
    }
}

/// A shot with `residual` that follows the shots of `log` replaces `end`:
/// the first shot the lower end, the second the upper end, a later one the
/// first end whose residual has its sign.
pub open spec fn replaces<A, R, P, S, C, G, I>(
    ops: Shooter<S, C, G, I>,
    log: Seq<Shot<A, R>>,
    residual: R,
    end: BracketEnd,
) -> bool where
    S: Fn(&A) -> Result<(R, P), SolveError>,
    C: Fn(&R) -> bool,
    G: Fn(&R, &R) -> bool,
    I: Fn(&Bracket<A, R>) -> Option<A>,
{
    if log.len() == 0 {
        end == BracketEnd::Lower
    } else if log.len() == 1 {
        end == BracketEnd::Upper
    } else {
        let bracket = bracket_after(log);
        match end {
            BracketEnd::Lower => call_ensures(ops.same_sign, (&bracket.lower.1, &residual), true),
            BracketEnd::Upper => {
                &&& call_ensures(ops.same_sign, (&bracket.lower.1, &residual), false)
                &&& call_ensures(ops.same_sign, (&bracket.upper.1, &residual), true)
            },
        }
    }
}

/// A shot with `residual` that follows the shots of `log` fits neither end
/// of the bracket.
pub open spec fn fits_no_end<A, R, P, S, C, G, I>(
    ops: Shooter<S, C, G, I>,
    log: Seq<Shot<A, R>>,
    residual: R,
) -> bool where
    S: Fn(&A) -> Result<(R, P), SolveError>,
    C: Fn(&R) -> bool,
    G: Fn(&R, &R) -> bool,
    I: Fn(&Bracket<A, R>) -> Option<A>,
{
    &&& log.len() >= 2
    &&& call_ensures(ops.same_sign, (&bracket_after(log).lower.1, &residual), false)
    &&& call_ensures(ops.same_sign, (&bracket_after(log).upper.1, &residual), false)
}

/// The shot at `angle` has `residual`, which is not within tolerance.
pub open spec fn misses<A, R, P, S, C, G, I>(
    ops: Shooter<S, C, G, I>,
    angle: A,
    residual: R,
) -> bool where
    S: Fn(&A) -> Result<(R, P), SolveError>,
    C: Fn(&R) -> bool,
    G: Fn(&R, &R) -> bool,
    I: Fn(&Bracket<A, R>) -> Option<A>,
{
    &&& exists|path: P| call_ensures(ops.shoot, (&angle,), Ok::<(R, P), SolveError>((residual, path)))
    &&& call_ensures(ops.converged, (&residual,), false)
}

/// `log` holds, in order, the shots of a search from `lower` and `upper`
/// that has not ended: each was taken where the search aims after the shots
/// before it, missed, and replaced the end that it fits.
pub open spec fn is_search<A, R, P, S, C, G, I>(
    lower: A,
    upper: A,
    ops: Shooter<S, C, G, I>,
    log: Seq<Shot<A, R>>,
) -> bool where
    S: Fn(&A) -> Result<(R, P), SolveError>,
    C: Fn(&R) -> bool,
    G: Fn(&R, &R) -> bool,
    I: Fn(&Bracket<A, R>) -> Option<A>,
{
    &&& log.len() <= MAX_SHOTS
    &&& forall|k: int|
        0 <= k < log.len() ==> {
            &&& aims(lower, upper, ops, log.take(k), (#[trigger] log[k]).angle)
            &&& misses(ops, log[k].angle, log[k].residual)
            &&& replaces(ops, log.take(k), log[k].residual, log[k].replaced)
        }
}

/// The search whose shots so far are `log` ends with `outcome`.
pub open spec fn search_ends<A, R, P, S, C, G, I>(
    lower: A,
    upper: A,
    ops: Shooter<S, C, G, I>,
    log: Seq<Shot<A, R>>,
    outcome: Result<Found<A, R, P>, SearchFailure<A, R>>,
) -> bool where
    S: Fn(&A) -> Result<(R, P), SolveError>,
    C: Fn(&R) -> bool,
    G: Fn(&R, &R) -> bool,
    I: Fn(&Bracket<A, R>) -> Option<A>,
{
    match outcome {
        Ok(found) => {
            &&& log.len() < MAX_SHOTS
            &&& found.shots == log.len() + 1
            &&& aims(lower, upper, ops, log, found.angle)
            &&& call_ensures(
                ops.shoot,
                (&found.angle,),
                Ok::<(R, P), SolveError>((found.residual, found.path)),
            )
            &&& call_ensures(ops.converged, (&found.residual,), true)
        },
        Err(SearchFailure::Shot(error)) => {
            &&& log.len() < MAX_SHOTS
            &&& exists|angle: A|
                aims(lower, upper, ops, log, angle) && #[trigger] call_ensures(
                    ops.shoot,
                    (&angle,),
                    Err::<(R, P), SolveError>(error),
                )
        },
        Err(SearchFailure::Stalled { cause, shots, bracket, last }) => {
            &&& log.len() >= 2
            &&& bracket == bracket_after(log)
            &&& match cause {
                StallCause::IterationLimit => {
                    &&& log.len() == MAX_SHOTS
                    &&& shots == MAX_SHOTS
                    &&& last == LastShot::<A, R>::Replaced(log.last().replaced)
                },
                StallCause::DegenerateBracket => {
                    &&& log.len() < MAX_SHOTS
                    &&& shots == log.len()
                    &&& call_ensures(ops.interpolate, (&bracket,), None::<A>)
                    &&& last == LastShot::<A, R>::Replaced(log.last().replaced)
                },
                StallCause::BracketInversion => {
                    &&& log.len() < MAX_SHOTS
                    &&& shots == log.len() + 1
                    &&& last matches LastShot::Rejected(angle, residual)
                    &&& aims(lower, upper, ops, log, angle)
                    &&& misses(ops, angle, residual)
                    &&& fits_no_end(ops, log, residual)
                },
            }
        },
    }
}

/// A search takes at least one shot and at most `MAX_SHOTS`, however it ends.
pub proof fn lemma_search_is_bounded<A, R, P, S, C, G, I>(
    lower: A,
    upper: A,
    ops: Shooter<S, C, G, I>,
    log: Seq<Shot<A, R>>,
    outcome: Result<Found<A, R, P>, SearchFailure<A, R>>,
) where
    S: Fn(&A) -> Result<(R, P), SolveError>,
    C: Fn(&R) -> bool,
    G: Fn(&R, &R) -> bool,
    I: Fn(&Bracket<A, R>) -> Option<A>,

    requires
        is_search(lower, upper, ops, log),
        search_ends(lower, upper, ops, log, outcome),
    ensures
        outcome matches Ok(found) ==> 1 <= found.shots <= MAX_SHOTS,
        outcome matches Err(SearchFailure::Stalled { shots, .. }) ==> 2 <= shots <= MAX_SHOTS,
{
}

/// Searches for the angle at which a shot ends at the anchor depth, from
/// the bracket between `lower` and `upper`, and returns the first shot whose
/// residual is within tolerance.
///
/// The search passes on the error of a shot that could not be taken. It
/// stalls where both ends of the bracket have the same residual, where a shot
/// fits neither end of the bracket, and where the shot budget is spent.
pub fn find_root<A, R, P, S, C, G, I>(lower: A, upper: A, ops: Shooter<S, C, G, I>) -> (outcome:
    Result<Found<A, R, P>, SearchFailure<A, R>>) where
    S: Fn(&A) -> Result<(R, P), SolveError>,
    C: Fn(&R) -> bool,
    G: Fn(&R, &R) -> bool,
    I: Fn(&Bracket<A, R>) -> Option<A>,

    requires
        forall|angle: &A| call_requires(ops.shoot, (angle,)),
        forall|residual: &R| call_requires(ops.converged, (residual,)),
        forall|end: &R, residual: &R| call_requires(ops.same_sign, (end, residual)),
        forall|bracket: &Bracket<A, R>| call_requires(ops.interpolate, (bracket,)),
    ensures
        exists|log: Seq<Shot<A, R>>| #[trigger]
            is_search(lower, upper, ops, log) && search_ends(lower, upper, ops, log, outcome),
{
    let ghost start = lower;
    let ghost stop = upper;
    let ghost none: Seq<Shot<A, R>> = Seq::empty();
    assert(is_search(start, stop, ops, none));

    let (first, path) = match (ops.shoot)(&lower) {
        Ok(hit) => hit,
        Err(error) => {
            return Err(SearchFailure::Shot(error));
        },
    };
    if (ops.converged)(&first) {
        return Ok(Found { angle: lower, residual: first, path, shots: 1 });
    }
    let ghost one = none.push(Shot { angle: lower, residual: first, replaced: BracketEnd::Lower });
    assert(is_search(start, stop, ops, one)) by {
        assert(one.take(0) == none);
    }

    let (second, path) = match (ops.shoot)(&upper) {
        Ok(hit) => hit,
        Err(error) => {
            return Err(SearchFailure::Shot(error));
        },
    };
    if (ops.converged)(&second) {
        return Ok(Found { angle: upper, residual: second, path, shots: 2 });
    }
    let ghost mut log = one.push(Shot { angle: upper, residual: second, replaced: BracketEnd::Upper });
    assert(is_search(start, stop, ops, log)) by {
        assert(log.take(0) == none);
        assert(log.take(1) == one);
    }

    let mut bracket = Bracket { lower: (lower, first), upper: (upper, second) };
    let mut last_end = BracketEnd::Upper;
    let mut shots: u32 = 2;
    while shots < MAX_SHOTS
        invariant
            forall|angle: &A| call_requires(ops.shoot, (angle,)),
            forall|residual: &R| call_requires(ops.converged, (residual,)),
            forall|end: &R, residual: &R| call_requires(ops.same_sign, (end, residual)),
            forall|bracket: &Bracket<A, R>| call_requires(ops.interpolate, (bracket,)),
            start == lower,
            stop == upper,
            2 <= shots <= MAX_SHOTS,
            log.len() == shots,
            is_search(start, stop, ops, log),
            bracket == bracket_after(log),
            last_end == log.last().replaced,
        decreases MAX_SHOTS - shots,
    {
        let angle = match (ops.interpolate)(&bracket) {
            Some(angle) => angle,
            None => {
                return Err(
                    SearchFailure::Stalled {
                        cause: StallCause::DegenerateBracket,
                        shots,
                        bracket,
                        last: LastShot::Replaced(last_end),
                    },
                );
            },
        };
        let (residual, path) = match (ops.shoot)(&angle) {
            Ok(hit) => hit,
            Err(error) => {
                return Err(SearchFailure::Shot(error));
            },
        };
        shots = shots + 1;
        if (ops.converged)(&residual) {
            return Ok(Found { angle, residual, path, shots });
        }
        assert(misses(ops, angle, residual));
        let end = if (ops.same_sign)(&bracket.lower.1, &residual) {
            BracketEnd::Lower
        } else if (ops.same_sign)(&bracket.upper.1, &residual) {
            BracketEnd::Upper
        } else {
            return Err(
                SearchFailure::Stalled {
                    cause: StallCause::BracketInversion,
                    shots,
                    bracket,
                    last: LastShot::Rejected(angle, residual),
                },
            );
        };
        let ghost before = log;
        proof {
            log = before.push(Shot { angle, residual, replaced: end });
            assert(log.drop_last() == before);
            assert forall|k: int| 0 <= k < log.len() implies {
                &&& aims(start, stop, ops, log.take(k), (#[trigger] log[k]).angle)
                &&& misses(ops, log[k].angle, log[k].residual)
                &&& replaces(ops, log.take(k), log[k].residual, log[k].replaced)
            } by {
                if k < before.len() {
                    assert(log.take(k) == before.take(k));
                    assert(log[k] == before[k]);
                } else {
                    assert(log.take(k) == before);
                }
            }
        }
        match end {
            BracketEnd::Lower => {
                bracket.lower = (angle, residual);
            },
            BracketEnd::Upper => {
                bracket.upper = (angle, residual);
            },
        }
        last_end = end;
    }
    Err(
        SearchFailure::Stalled {
            cause: StallCause::IterationLimit,
            shots,
            bracket,
            last: LastShot::Replaced(last_end),
        },
    )
}

} // verus!
