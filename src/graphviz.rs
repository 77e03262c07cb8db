use vstd::prelude::*;
use vstd::string::StringExecFns;

use crate::fndata::FnData;
use crate::ids::FunctionId;
use crate::record::{find_entry, has_name, Pair};

verus! {

broadcast use vstd::string::group_string_axioms;

/// Whether a call certainly happens (static dispatch) or only might happen
/// (one of the possible receivers of a dynamic dispatch).
#[derive(Copy, Clone, PartialEq, Eq, Structural, Debug)]
pub enum CallKind {
    Definite,
    Potential,
}

/// How an edge is drawn.
#[derive(Copy, Clone, PartialEq, Eq, Structural, Debug)]
pub enum EdgeStyle {
    Plain,
    Dotted,
}

/// An edge of the drawn graph: caller, callee and kind of call.
pub type Edge = (FunctionId, FunctionId, CallKind);

/// The decimal digits of `n`.
pub open spec fn spec_decimal(n: nat) -> Seq<char>
    decreases n,
{
    if n < 10 {
        seq![digit(n)]
    } else {
        spec_decimal(n / 10).push(digit(n % 10))
    }
}

/// The character of the digit `d`.
pub open spec fn digit(d: nat) -> char {
    seq!['0', '1', '2', '3', '4', '5', '6', '7', '8', '9'][d as int]
}

/// Relies on u32's `to_string` (its `Display`): the decimal digits, without
/// sign or leading zeros.
#[verifier::external_body]
pub(crate) fn decimal(n: u32) -> (r: String)
    ensures
        r@ == spec_decimal(n as nat),
{
    n.to_string()
}

/// The calls of `calls` as edges of kind `k`.
pub open spec fn tag(calls: Seq<Pair>, k: CallKind) -> Seq<Edge> {
    calls.map_values(|e: Pair| (e.0, e.1, k))
}

/// The title of the graph of unit `name`.
pub open spec fn spec_graph_id(name: Seq<char>) -> Seq<char> {
    "Callgraph_for_"@ + name
}

/// The node identifier of a function: its origin and local index.
pub open spec fn spec_node_id(n: FunctionId) -> Seq<char> {
    "n_"@ + spec_decimal(n.krate as nat) + "_"@ + spec_decimal(n.index as nat)
}

/// The style of an edge of the given kind.
pub open spec fn spec_edge_style(k: CallKind) -> EdgeStyle {
    match k {
        CallKind::Definite => EdgeStyle::Plain,
        CallKind::Potential => EdgeStyle::Dotted,
    }
}

impl FnData {
    /// The graph's title.
    pub fn graph_id(&self) -> (r: String)
        ensures
            r@ == spec_graph_id(self.crate_name@),
    {
        let mut r = String::from_str("Callgraph_for_");
        r.append(self.crate_name.as_str());
        r
    }

    /// The node identifier of `n`, unique and stable across runs.
    pub fn node_id(&self, n: &FunctionId) -> (r: String)
        ensures
            r@ == spec_node_id(*n),
    {
        let mut r = String::from_str("n_");
        let krate = decimal(n.krate);
        r.append(krate.as_str());
        r.append("_");
        let index = decimal(n.index);
        r.append(index.as_str());
        r
    }

    /// The label of node `n`: its qualified name.
    pub fn node_label(&self, n: &FunctionId) -> (r: String)
        requires
            self.node_ids().contains(*n),
        ensures
            has_name(self.functions@, *n, r@),
    {
        match find_entry(&self.functions, *n) {
            Some(i) => self.functions[i].1.clone(),
            None => String::new(),
        }
    }

    /// Definite calls are drawn plain, potential calls dotted.
    pub fn edge_style(&self, e: &Edge) -> (r: EdgeStyle)
        ensures
            r == spec_edge_style(e.2),
    {
        match e.2 {
            CallKind::Definite => EdgeStyle::Plain,
            CallKind::Potential => EdgeStyle::Dotted,
        }
    }

    /// The nodes of the graph, one per function.
    pub fn nodes(&self) -> (r: Vec<FunctionId>)
        ensures
            r@ == self.functions@.map_values(|x: (FunctionId, String)| x.0),
    {
        let mut r: Vec<FunctionId> = Vec::new();
        let mut i: usize = 0;
        while i < self.functions.len()
            invariant
                0 <= i <= self.functions@.len(),
                r@ == self.functions@.subrange(0, i as int).map_values(|x: (FunctionId, String)| x.0),
            decreases self.functions@.len() - i,
        {
            r.push(self.functions[i].0);
            assert(self.functions@.subrange(0, i + 1) =~= self.functions@.subrange(0, i as int).push(self.functions@[i as int]));
            i += 1;
        }
        assert(self.functions@.subrange(0, i as int) =~= self.functions@);
        r
    }

    /// The edges of the graph: the definite calls, then the potential calls.
    pub fn edges(&self) -> (r: Vec<Edge>)
        ensures
            r@ == tag(self.static_calls@, CallKind::Definite) + tag(self.dynamic_calls@, CallKind::Potential),
    {
        let mut r: Vec<Edge> = Vec::new();
        let mut i: usize = 0;
        while i < self.static_calls.len()
            invariant
                0 <= i <= self.static_calls@.len(),
                r@ == tag(self.static_calls@.subrange(0, i as int), CallKind::Definite),
            decreases self.static_calls@.len() - i,
        {
            let (from, to) = self.static_calls[i];
            r.push((from, to, CallKind::Definite));
            assert(self.static_calls@.subrange(0, i + 1) =~= self.static_calls@.subrange(0, i as int).push(self.static_calls@[i as int]));
            i += 1;
        }
        assert(self.static_calls@.subrange(0, i as int) =~= self.static_calls@);
        let ghost first = r@;
        let mut j: usize = 0;
        while j < self.dynamic_calls.len()
            invariant
                0 <= j <= self.dynamic_calls@.len(),
                first == tag(self.static_calls@, CallKind::Definite),
                r@ == first + tag(self.dynamic_calls@.subrange(0, j as int), CallKind::Potential),
            decreases self.dynamic_calls@.len() - j,
        {
            let (from, to) = self.dynamic_calls[j];
            r.push((from, to, CallKind::Potential));
            assert(self.dynamic_calls@.subrange(0, j + 1) =~= self.dynamic_calls@.subrange(0, j as int).push(self.dynamic_calls@[j as int]));
            assert(r@ =~= first + tag(self.dynamic_calls@.subrange(0, j + 1), CallKind::Potential));
            j += 1;
        }
        assert(self.dynamic_calls@.subrange(0, j as int) =~= self.dynamic_calls@);
        r
    }

    /// The caller of an edge.
    pub fn source(&self, e: &Edge) -> (r: FunctionId)
        ensures
            r == e.0,
    {
        e.0
    }

    /// The callee of an edge.
    pub fn target(&self, e: &Edge) -> (r: FunctionId)
        ensures
            r == e.1,
    {
        e.1
    }
}

} // verus!
