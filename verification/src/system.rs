//! Solving every line of a mooring system.
//!
//! The lines of a system do not interact: each is solved by itself, and a
//! line that fails leaves the others untouched.

use vstd::prelude::*;

verus! {

/// The outcome of solving the lines of a system: the solution of every line
/// that could be solved and the error of every line that could not, each
/// under the name of its line and in the order in which the lines were given.
pub struct SystemSolution<N, E> {
    pub lines: Vec<(String, N)>,
    pub failures: Vec<(String, E)>,
}

/// The named solutions among `outcomes`, in order.
pub open spec fn solved_lines<N, E>(names: Seq<String>, outcomes: Seq<Result<N, E>>) -> Seq<
    (String, N),
>
    decreases outcomes.len(),
{
    if outcomes.len() == 0 {
        Seq::empty()
    } else {
        let before = solved_lines(names.drop_last(), outcomes.drop_last());
        match outcomes.last() {
            Ok(nodes) => before.push((names.last(), nodes)),
            Err(_) => before,
        }
    }
}

/// The named errors among `outcomes`, in order.
pub open spec fn failed_lines<N, E>(names: Seq<String>, outcomes: Seq<Result<N, E>>) -> Seq<
    (String, E),
>
    decreases outcomes.len(),
{
    if outcomes.len() == 0 {
        Seq::empty()
    } else {
        let before = failed_lines(names.drop_last(), outcomes.drop_last());
        match outcomes.last() {
            Ok(_) => before,
            Err(error) => before.push((names.last(), error)),
        }
    }
}

/// The names of `lines`, in order.
pub open spec fn line_names<L>(lines: Seq<(String, L)>) -> Seq<String> {
    Seq::new(lines.len(), |i: int| lines[i].0)
}

/// `outcomes` holds, for each of `lines` in order, an outcome of `solve_line`
/// on that line alone.
pub open spec fn solved_one_by_one<L, N, E, F: Fn(&L) -> Result<N, E>>(
    lines: Seq<(String, L)>,
    solve_line: F,
    outcomes: Seq<Result<N, E>>,
) -> bool {
    &&& outcomes.len() == lines.len()
    &&& forall|i: int|
        0 <= i < lines.len() ==> call_ensures(solve_line, (&lines[i].1,), #[trigger] outcomes[i])
}

/// Every line is accounted for once: it is among the solved lines or among
/// the failed ones.
pub proof fn lemma_every_line_accounted<N, E>(names: Seq<String>, outcomes: Seq<Result<N, E>>)
    ensures
        solved_lines(names, outcomes).len() + failed_lines(names, outcomes).len()
            == outcomes.len(),
    decreases outcomes.len(),
{
    if outcomes.len() > 0 {
        lemma_every_line_accounted(names.drop_last(), outcomes.drop_last());
    }
}

/// Solves every line with `solve_line`, each by itself, and collects the
/// solutions and the errors under the names of their lines.
pub fn solve_static<L, N, E, F: Fn(&L) -> Result<N, E>>(
    lines: &Vec<(String, L)>,
    solve_line: F,
) -> (solution: SystemSolution<N, E>)
    requires
        forall|line: &L| call_requires(solve_line, (line,)),
    ensures
        exists|outcomes: Seq<Result<N, E>>|
            {
                &&& #[trigger] solved_one_by_one(lines@, solve_line, outcomes)
                &&& solution.lines@ == solved_lines(line_names(lines@), outcomes)
                &&& solution.failures@ == failed_lines(line_names(lines@), outcomes)
            },
{
    let mut solved: Vec<(String, N)> = Vec::new();
    let mut failures: Vec<(String, E)> = Vec::new();
    let ghost names = line_names(lines@);
    let ghost mut outcomes: Seq<Result<N, E>> = Seq::empty();
    let mut i: usize = 0;
    while i < lines.len()
        invariant
            forall|line: &L| call_requires(solve_line, (line,)),
            names == line_names(lines@),
            i <= lines@.len(),
            outcomes.len() == i,
            forall|k: int|
                0 <= k < i ==> call_ensures(solve_line, (&lines@[k].1,), #[trigger] outcomes[k]),
            solved@ == solved_lines(names.take(i as int), outcomes),
            failures@ == failed_lines(names.take(i as int), outcomes),
        decreases lines@.len() - i,
    {
        let name: String = lines[i].0.clone();
        let outcome = solve_line(&lines[i].1);
        proof {
            let grown = outcomes.push(outcome);
            assert(grown.drop_last() == outcomes);
            assert(names.take(i + 1).drop_last() == names.take(i as int));
            assert(names.take(i + 1).last() == name);
            outcomes = grown;
        }
        match outcome {
            Ok(nodes) => {
                solved.push((name, nodes));
            },
            Err(error) => {
                failures.push((name, error));
            },
        }
        i = i + 1;
    }
    proof {
        assert(names.take(lines@.len() as int) == names);
        assert(solved_one_by_one(lines@, solve_line, outcomes));
    }
    SystemSolution { lines: solved, failures }
}

} // verus!
