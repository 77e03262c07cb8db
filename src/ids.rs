use vstd::prelude::*;

verus! {

/// Identifies one function or method definition: the unit it comes from and
/// its index inside that unit.
#[derive(Clone, Copy, PartialEq, Eq, Structural, Debug, Hash, PartialOrd, Ord)]
pub struct FunctionId {
    pub krate: u32,
    pub index: u32,
}

/// The unit being analysed has origin index zero.
pub open spec fn spec_is_local(id: FunctionId) -> bool {
    id.krate == 0
}

/// True if the id refers to a definition of the current unit.
pub fn is_local(id: FunctionId) -> (r: bool)
    ensures
        r == spec_is_local(id),
{
    id.krate == 0
}

/// Where a node of the syntax tree stands in the source: its byte range, and
/// whether it came out of a macro expansion.
#[derive(Clone, Copy, PartialEq, Eq, Structural, Debug)]
pub struct SourceSpan {
    pub lo: u32,
    pub hi: u32,
    pub expanded: bool,
}

/// A node was synthesised rather than written: it came from an expansion,
/// or its span is the empty dummy span.
pub open spec fn spec_is_generated(span: SourceSpan) -> bool {
    span.expanded || (span.lo == 0 && span.hi == 0)
}

/// True if the node with this span is generated code, to be skipped.
pub fn is_generated(span: SourceSpan) -> (r: bool)
    ensures
        r == spec_is_generated(span),
{
    span.expanded || (span.lo == 0 && span.hi == 0)
}

} // verus!
