use vstd::prelude::*;

use crate::fndata::FnData;
use crate::ids::FunctionId;
use crate::record::{endpoints, ids_of, Pair};
use crate::visitor::{entered, expansion, left, processed, resolve, FnVisitor};

verus! {

/// No dangling edges: both ends of every edge of a finished graph are
/// nodes of it.
pub proof fn lemma_no_dangling_edges(v: FnVisitor, crate_name: Seq<char>, r: FnData, e: Pair)
    requires
        processed(v, crate_name, r),
        r.edge_set().contains(e),
    ensures
        r.node_ids().contains(e.0),
        r.node_ids().contains(e.1),
{
    assert(endpoints(r.edge_set()).contains(e.0));
    assert(endpoints(r.edge_set()).contains(e.1));
}

/// Resolution is complete and exact: a potential call (caller, decl) gives
/// the edge (caller, i) for every implementation i registered under decl,
/// and every resolved edge comes from some potential call and some
/// registered implementation.
pub proof fn lemma_resolution_complete(v: FnVisitor, crate_name: Seq<char>, r: FnData, caller: FunctionId, decl: FunctionId)
    requires
        processed(v, crate_name, r),
        v.dynamic_set().contains((caller, decl)),
    ensures
        expansion(caller, decl, v.impls()).subset_of(r.dynamic_calls@.to_set()),
        forall|e: Pair| #[trigger] r.dynamic_calls@.to_set().contains(e) ==>
            exists|d: FunctionId| v.dynamic_set().contains((e.0, d)) && #[trigger] expansion(e.0, d, v.impls()).contains(e),
{
    assert forall|e: Pair| expansion(caller, decl, v.impls()).contains(e) implies r.dynamic_calls@.to_set().contains(e) by {
        assert(v.dynamic_set().contains((e.0, decl)));
    }
    assert forall|e: Pair| #[trigger] r.dynamic_calls@.to_set().contains(e) implies
        exists|d: FunctionId| v.dynamic_set().contains((e.0, d)) && #[trigger] expansion(e.0, d, v.impls()).contains(e) by {
        let d = choose|d: FunctionId| #[trigger] v.dynamic_set().contains((e.0, d)) && v.impls().contains((d, e.1));
        assert(expansion(e.0, d, v.impls()).contains(e));
    }
}

/// A method whose only registered implementation is its own default body
/// resolves a potential call to it into exactly one edge, to itself.
pub proof fn lemma_default_method_reflexive(impls: Seq<Pair>, caller: FunctionId, m: FunctionId)
    requires
        impls.contains((m, m)),
        forall|i: FunctionId| #[trigger] impls.contains((m, i)) ==> i == m,
    ensures
        expansion(caller, m, impls) == set![(caller, m)],
{
    assert(expansion(caller, m, impls) =~= set![(caller, m)]);
}

/// A potential call to a declaration with no registered implementation
/// expands to no edge, and adding it changes nothing in the resolution.
pub proof fn lemma_zero_implementors(dynamic: Set<Pair>, impls: Seq<Pair>, caller: FunctionId, decl: FunctionId)
    requires
        forall|i: FunctionId| !(#[trigger] impls.contains((decl, i))),
    ensures
        expansion(caller, decl, impls) == Set::<Pair>::empty(),
        resolve(dynamic.insert((caller, decl)), impls) == resolve(dynamic, impls),
{
    assert(expansion(caller, decl, impls) =~= Set::<Pair>::empty());
    assert(resolve(dynamic.insert((caller, decl)), impls) =~= resolve(dynamic, impls)) by {
        assert forall|e: Pair| resolve(dynamic.insert((caller, decl)), impls).contains(e) implies resolve(dynamic, impls).contains(e) by {
            let d = choose|d: FunctionId| #[trigger] dynamic.insert((caller, decl)).contains((e.0, d)) && impls.contains((d, e.1));
            assert(dynamic.contains((e.0, d)));
        }
        assert forall|e: Pair| resolve(dynamic, impls).contains(e) implies resolve(dynamic.insert((caller, decl)), impls).contains(e) by {
            let d = choose|d: FunctionId| #[trigger] dynamic.contains((e.0, d)) && impls.contains((d, e.1));
            assert(dynamic.insert((caller, decl)).contains((e.0, d)));
        }
    }
}

/// Pruning: when skipping unconnected functions, a function that is the end
/// of no edge is not a node; otherwise every recorded function is a node.
pub proof fn lemma_pruning(v: FnVisitor, crate_name: Seq<char>, r: FnData, f: FunctionId)
    requires
        processed(v, crate_name, r),
        v.fn_ids().contains(f),
    ensures
        v.skips_unconnected() ==> (r.node_ids().contains(f) <==> exists|e: Pair| #[trigger] r.edge_set().contains(e) && (e.0 == f || e.1 == f)),
        !v.skips_unconnected() ==> r.node_ids().contains(f),
{
    if !v.skips_unconnected() {
        assert(r.node_ids() == ids_of(v.functions()));
    }
}

/// Leaving a body restores exactly the context that entering it saved.
pub proof fn lemma_leave_restores(ctx: (Option<FunctionId>, Seq<Option<FunctionId>>), id: FunctionId)
    ensures
        entered(ctx, id).0 == Some(id),
        left(entered(ctx, id)) == ctx,
{
    assert(entered(ctx, id).1.drop_last() =~= ctx.1);
}

/// Nested bodies: inside the inner body the inner id is current; after
/// leaving it the outer id is current again, and after leaving the outer
/// body the context is as it was before both.
pub proof fn lemma_nested_context(ctx: (Option<FunctionId>, Seq<Option<FunctionId>>), outer: FunctionId, inner: FunctionId)
    ensures
        entered(entered(ctx, outer), inner).0 == Some(inner),
        left(entered(entered(ctx, outer), inner)).0 == Some(outer),
        left(left(entered(entered(ctx, outer), inner))) == ctx,
{
    lemma_leave_restores(ctx, outer);
    lemma_leave_restores(entered(ctx, outer), inner);
}

} // verus!
