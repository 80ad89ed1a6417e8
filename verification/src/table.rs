//! The table of line types, keyed by name.
//!
//! The table is generic in what it stores for a line type: the solver only
//! looks entries up and hands them on.

use crate::error::SolveError;
use vstd::hash_map::StringHashMap;
use vstd::prelude::*;
use vstd::string::StringExecFns;

verus! {

/// `names[s]` is the first of `names` that `table` does not hold.
pub open spec fn is_first_unknown<T>(
    table: Map<Seq<char>, T>,
    names: Seq<String>,
    s: int,
) -> bool {
    &&& 0 <= s < names.len()
    &&& !table.contains_key(names[s]@)
    &&& forall|t: int| 0 <= t < s ==> table.contains_key(#[trigger] names[t]@)
}

/// `table` holds every one of `names`.
pub open spec fn all_known<T>(table: Map<Seq<char>, T>, names: Seq<String>) -> bool {
    forall|s: int| 0 <= s < names.len() ==> table.contains_key(#[trigger] names[s]@)
}

/// A read-only, name-keyed table of line types.
#[verifier::reject_recursive_types(T)]
pub struct LineTypeTable<T> {
    entries: StringHashMap<T>,
}

impl<T> View for LineTypeTable<T> {
    type V = Map<Seq<char>, T>;

    closed spec fn view(&self) -> Map<Seq<char>, T> {
        self.entries@
    }
}

impl<T> LineTypeTable<T> {
    /// An empty table.
    pub fn new() -> (table: Self)
        ensures
            table@ == Map::<Seq<char>, T>::empty(),
    {
        LineTypeTable { entries: StringHashMap::new() }
    }

    /// Adds a line type under `name`, in place of an earlier one of that name.
    pub fn insert(&mut self, name: String, line_type: T)
        ensures
            final(self)@ == old(self)@.insert(name@, line_type),
    {
        self.entries.insert(name, line_type);
    }

    /// The line type called `name`, or the error that cites `name`.
    pub fn lookup<'a>(&'a self, name: &str) -> (r: Result<&'a T, SolveError>)
        ensures
            match r {
                Ok(line_type) => self@.contains_key(name@) && *line_type == self@[name@],
                Err(SolveError::UnknownLineType { name: cited }) => !self@.contains_key(name@)
                    && cited@ == name@,
                Err(_) => false,
            },
    {
        match self.entries.get(name) {
            Some(line_type) => Ok(line_type),
            None => Err(SolveError::UnknownLineType { name: String::from_str(name) }),
        }
    }

    /// The line type of each segment of a line, given the names that its
    /// segments refer to, from the top segment down. Fails on the first name
    /// that the table does not hold, and cites it.
    pub fn resolve<'a>(&'a self, names: &Vec<String>) -> (r: Result<Vec<&'a T>, SolveError>)
        ensures
            match r {
                Ok(found) => {
                    &&& all_known(self@, names@)
                    &&& found@.len() == names@.len()
                    &&& forall|s: int|
                        0 <= s < names@.len() ==> *#[trigger] found@[s] == self@[names@[s]@]
                },
                Err(SolveError::UnknownLineType { name }) => exists|s: int|
                    #[trigger] is_first_unknown(self@, names@, s) && name@ == names@[s]@,
                Err(_) => false,
            },
    {
        let mut found: Vec<&'a T> = Vec::with_capacity(names.len());
        let mut s: usize = 0;
        while s < names.len()
            invariant
                s <= names@.len(),
                found@.len() == s,
                forall|t: int| 0 <= t < s ==> self@.contains_key(#[trigger] names@[t]@),
                forall|t: int| 0 <= t < s ==> *#[trigger] found@[t] == self@[names@[t]@],
            decreases names@.len() - s,
        {
            match self.lookup(names[s].as_str()) {
                Ok(line_type) => {
                    found.push(line_type);
                },
                Err(e) => {
                    assert(is_first_unknown(self@, names@, s as int));
                    return Err(e);
                },
            }
            s = s + 1;
        }
        Ok(found)
    }
}

} // verus!
