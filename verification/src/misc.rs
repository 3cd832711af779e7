//! Small things for reports.

use vstd::prelude::*;

verus! {

/// Stands in a report for what is left out of it.
#[derive(Clone, Copy, Debug, PartialEq, Eq, Structural)]
pub struct Ellipsis;

impl Ellipsis {
    /// The two dots that stand for what is left out.
    pub fn as_str(&self) -> (text: &'static str)
        ensures
            text@ == ".."@,
    {
        ".."
    }
}

} // verus!
