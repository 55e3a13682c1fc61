//! Search tuning: which field of an item is matched, the scoring scheme,
//! and the matching mode.

use vstd::prelude::*;

verus! {

/// Scoring scheme: `Path` adds the basename-aware tie-break lanes.
#[derive(Clone, Copy, Debug, PartialEq, Eq, Structural)]
pub enum SearchScheme {
    Plain,
    Path,
}

/// Matching mode: contiguous substring or subsequence matching, both
/// case-insensitive.
#[derive(Clone, Copy, Debug, PartialEq, Eq, Structural)]
pub enum SearchMode {
    Fuzzy,
    Exact,
}

/// How a definition's items are matched: `field` selects the 1-indexed
/// tab-separated column to rank on.
#[derive(Clone, Copy, Debug, PartialEq, Eq, Structural)]
pub struct SearchConfig {
    pub field: usize,
    pub scheme: SearchScheme,
    pub mode: SearchMode,
}

impl Default for SearchConfig {
    fn default() -> (r: Self)
        ensures
            r == (SearchConfig { field: 1, scheme: SearchScheme::Plain, mode: SearchMode::Fuzzy }),
    {
        SearchConfig { field: 1, scheme: SearchScheme::Plain, mode: SearchMode::Fuzzy }
    }
}

} // verus!
