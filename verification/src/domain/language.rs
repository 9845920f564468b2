//! Language preference of the user interface and retrieval.
use vstd::prelude::*;

verus! {

/// Language preference.
#[derive(Debug, Clone, Copy, PartialEq, Eq, Structural)]
pub enum Lang {
    Ru,
    En,
    Auto,
}

impl Default for Lang {
    fn default() -> (r: Self)
        ensures
            r == Lang::Auto,
    {
        Lang::Auto
    }
}

} // verus!
