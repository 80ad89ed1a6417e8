//! Marching a state from the top node of a line to its bottom node.
//!
//! The march is independent of what a state is and of how one step is
//! computed: it fixes the order of the steps, the segment that each step is
//! taken in, and where the march stops.

use crate::error::SolveError;
use crate::mesh::{segment_of, total_elements, LineMesh};
use vstd::prelude::*;

verus! {

/// `nodes` is the beginning of a march with `step` along a line cut up as
/// `counts` says: each node but the first is what `step` made of the node
/// before it, taken in the segment in which that step lies.
pub open spec fn is_march<S, F: Fn(usize, &S) -> Option<S>>(
    counts: Seq<nat>,
    step: F,
    nodes: Seq<S>,
) -> bool {
    forall|j: int|
        1 <= j < nodes.len() ==> call_ensures(
            step,
            (segment_of(counts, j - 1) as usize, &nodes[j - 1]),
            Some(#[trigger] nodes[j]),
        )
}

/// `step` gave up on the step that leaves the last of `nodes`.
pub open spec fn march_fails<S, F: Fn(usize, &S) -> Option<S>>(
    counts: Seq<nat>,
    step: F,
    nodes: Seq<S>,
) -> bool {
    &&& nodes.len() >= 1
    &&& call_ensures(
        step,
        (segment_of(counts, nodes.len() - 1) as usize, &nodes[nodes.len() - 1]),
        None::<S>,
    )
}

/// Marches from the state `top` at node 0 down the line, one call of `step`
/// for each element, and returns the state at every node.
///
/// `step` is given the index of the segment in which the step lies and the
/// state at the node it starts from, and returns the state at the next node,
/// or `None` where that state is unusable. The march then stops, and the
/// error names the node that could not be reached.
pub fn integrate<S, F: Fn(usize, &S) -> Option<S>>(mesh: &LineMesh, top: S, step: F) -> (r: Result<
    Vec<S>,
    SolveError,
>)
    requires
        forall|s: usize, y: &S| s < mesh@.len() ==> call_requires(step, (s, y)),
    ensures
        match r {
            Ok(nodes) => {
                &&& nodes@.len() == 1 + total_elements(mesh@)
                &&& nodes@[0] == top
                &&& is_march(mesh@, step, nodes@)
            },
            Err(SolveError::NumericalFailure { node }) => {
                &&& 1 <= node <= total_elements(mesh@)
                &&& exists|reached: Seq<S>|
                    {
                        &&& reached.len() == node
                        &&& reached[0] == top
                        &&& is_march(mesh@, step, reached)
                        &&& #[trigger] march_fails(mesh@, step, reached)
                    }
            },
            Err(_) => false,
        },
{
    let elements: usize = mesh.element_count();
    let mut nodes: Vec<S> = Vec::with_capacity(mesh.node_count());
    nodes.push(top);
    let mut i: usize = 0;
    while i < elements
        invariant
            elements == total_elements(mesh@),
            forall|s: usize, y: &S| s < mesh@.len() ==> call_requires(step, (s, y)),
            i <= elements,
            nodes@.len() == i + 1,
            nodes@[0] == top,
            is_march(mesh@, step, nodes@),
        decreases elements - i,
    {
        let segment: usize = mesh.locate(i);
        let ghost before = nodes@;
        match step(segment, &nodes[i]) {
            Some(next) => {
                nodes.push(next);
                assert forall|j: int| 1 <= j < nodes@.len() implies call_ensures(
                    step,
                    (segment_of(mesh@, j - 1) as usize, &nodes@[j - 1]),
                    Some(#[trigger] nodes@[j]),
                ) by {
                    if j < before.len() {
                        assert(nodes@[j] == before[j]);
                        assert(nodes@[j - 1] == before[j - 1]);
                    }
                }
            },
            None => {
                assert(march_fails(mesh@, step, before));
                return Err(SolveError::NumericalFailure { node: i + 1 });
            },
        }
        i = i + 1;
    }
    Ok(nodes)
}

} // verus!
