//! Builds a whole-program call graph from the definitions and references
//! that a semantic front end reports, resolving dynamically dispatched calls
//! through the declarations' registered implementations.
use vstd::prelude::*;

pub mod ids;
pub mod record;
pub mod visitor;
pub mod fndata;
pub mod graphviz;
pub mod laws;

verus! {

/// Whether functions that take part in no call are left out of the graph.
pub const SKIP_UNCONNECTED_FNS: bool = false;

} // verus!
