//! The settings of one run.

use crate::filters::Filters;
use vstd::prelude::*;

verus! {

/// What a run filters, with which strategy, and what it does with the records.
#[derive(Clone, Debug)]
pub struct Options {
    /// The strategy that tells new records from repeats.
    pub filter: Filters,
    /// The sources to read records from, in order.
    pub inputs: Vec<String>,
    /// Whether the run writes the repeats out instead of the new records.
    pub inverted: bool,
    /// Whether the run counts the records instead of writing any out.
    pub statistics: bool,
}

} // verus!
