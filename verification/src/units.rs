//! Unit systems a configuration may declare.

use vstd::prelude::*;
use vstd::string::StringExecFns;

verus! {

/// The unit system in which a configuration states its quantities.
///
/// The solver is unit-agnostic: it only requires that all quantities of one
/// configuration are stated consistently in one system.
#[derive(Clone, Copy, Debug, PartialEq, Eq, Structural)]
pub enum Units {
    METRIC,
    ENGLISH,
}

impl Units {
    /// The word by which a configuration names this unit system.
    pub open spec fn keyword(self) -> Seq<char> {
        match self {
            Units::METRIC => "metric"@,
            Units::ENGLISH => "english"@,
        }
    }

    /// The word by which a configuration names this unit system.
    pub fn name(&self) -> (word: &'static str)
        ensures
            word@ == self.keyword(),
    {
        match self {
            Units::METRIC => "metric",
            Units::ENGLISH => "english",
        }
    }

    /// The unit system that a configuration names by `word`: `metric` or
    /// `english`, in lower case. `None` for any other word.
    pub fn from_name(word: &str) -> (r: Option<Units>)
        ensures
            match r {
                Some(units) => word@ == units.keyword(),
                None => word@ != Units::METRIC.keyword() && word@ != Units::ENGLISH.keyword(),
            },
    {
        let word: String = String::from_str(word);
        if word == String::from_str("metric") {
            Some(Units::METRIC)
        } else if word == String::from_str("english") {
            Some(Units::ENGLISH)
        } else {
            None
        }
    }
}

} // verus!
