use vstd::prelude::*;

use crate::fndata::FnData;
use crate::ids::{is_generated, is_local, spec_is_generated, spec_is_local, FunctionId, SourceSpan};
use crate::record::{
    endpoints, find_entry, ids_of, insert_pair, keys_unique, renamed, set_name, Pair,
};

verus! {

/// What the front end knows of a definition: its id, its qualified name,
/// whether it has a body, and the declaration it implements, if any.
pub struct DefData {
    pub id: FunctionId,
    pub qualname: String,
    pub has_body: bool,
    pub decl_id: Option<FunctionId>,
}

/// What a path or an expression refers to, where it is a call target.
#[derive(Clone, Copy, PartialEq, Eq, Structural, Debug)]
pub enum Reference {
    /// A call whose target function is known exactly.
    Function(FunctionId),
    /// A call dispatched dynamically through a method declaration.
    Method(FunctionId),
}

/// What a visit did, and what the walk owes next.
#[derive(Clone, Copy, PartialEq, Eq, Structural, Debug)]
pub enum Visit {
    /// Generated code: no facts; the subtree is not walked.
    Skipped,
    /// A function context was entered: walk the body, then call `leave`.
    Entered,
    /// A call edge was recorded: walk the subtree.
    Recorded,
    /// A call with no enclosing function: the edge is dropped and a warning
    /// is owed; walk the subtree.
    Unattributed,
    /// Nothing to record here: walk the subtree.
    Walk,
}

/// Collects definitions, calls and the declaration to implementation
/// relation during one depth-first walk of a unit.
pub struct FnVisitor {
    // Statically dispatched calls, without duplicates.
    static_calls: Vec<Pair>,
    // (caller def, callee decl), without duplicates.
    dynamic_calls: Vec<Pair>,
    // Function definitions and their qualified names.
    functions: Vec<(FunctionId, String)>,
    // Method declarations and their qualified names.
    method_decls: Vec<(FunctionId, String)>,
    // (decl, implementing method), in the order they were found.
    method_impls: Vec<Pair>,
    // The function whose body is being walked.
    cur_fn: Option<FunctionId>,
    // The enclosing contexts, innermost last.
    saved: Vec<Option<FunctionId>>,
    // Whether functions that take part in no call are left out at the end.
    skip_unconnected: bool,
}

/// Every potential call (caller, decl) expanded to one edge (caller, impl)
/// for each implementation registered under decl.
pub open spec fn resolve(dynamic: Set<Pair>, impls: Seq<Pair>) -> Set<Pair> {
    Set::new(|e: Pair| exists|d: FunctionId| #[trigger] dynamic.contains((e.0, d)) && impls.contains((d, e.1)))
}

/// The edges that one potential call (caller, decl) expands to.
pub open spec fn expansion(caller: FunctionId, decl: FunctionId, impls: Seq<Pair>) -> Set<Pair> {
    Set::new(|e: Pair| e.0 == caller && impls.contains((decl, e.1)))
}

/// The context after entering the body of `id`.
pub open spec fn entered(
    ctx: (Option<FunctionId>, Seq<Option<FunctionId>>),
    id: FunctionId,
) -> (Option<FunctionId>, Seq<Option<FunctionId>>) {
    (Some(id), ctx.1.push(ctx.0))
}

/// The context after leaving the innermost body; unchanged when none is open.
pub open spec fn left(ctx: (Option<FunctionId>, Seq<Option<FunctionId>>)) -> (Option<FunctionId>, Seq<Option<FunctionId>>) {
    if ctx.1.len() == 0 {
        ctx
    } else {
        (ctx.1.last(), ctx.1.drop_last())
    }
}

/// The outcome of visiting a call site.
pub open spec fn reference_outcome(span: SourceSpan, data: Option<Reference>, cur: Option<FunctionId>) -> Visit {
    if spec_is_generated(span) {
        Visit::Skipped
    } else {
        match data {
            Some(Reference::Function(t)) | Some(Reference::Method(t)) => {
                if !spec_is_local(t) {
                    Visit::Walk
                } else if cur.is_some() {
                    Visit::Recorded
                } else {
                    Visit::Unattributed
                }
            },
            None => Visit::Walk,
        }
    }
}

/// `r` is the graph that the walk recorded in `v` finishes into: a
/// well-formed graph named `crate_name`; its definite edges are the recorded
/// calls whose callee is a known function; its potential edges are the
/// recorded potential calls resolved through the implementation relation;
/// its nodes are all recorded functions, or, when skipping unconnected
/// functions, exactly the ends of its edges; every node keeps its recorded
/// name.
pub open spec fn processed(v: FnVisitor, crate_name: Seq<char>, r: FnData) -> bool {
    &&& r.wf()
    &&& r.crate_name@ == crate_name
    &&& r.static_calls@.to_set() == Set::new(|e: Pair| v.static_set().contains(e) && v.fn_ids().contains(e.1))
    &&& r.dynamic_calls@.to_set() == resolve(v.dynamic_set(), v.impls())
    &&& !v.skips_unconnected() ==> r.functions@ == v.functions()
    &&& v.skips_unconnected() ==> r.node_ids() == endpoints(r.edge_set())
    &&& forall|x: (FunctionId, String)| #[trigger] r.functions@.contains(x) ==> v.functions().contains(x)
}

/// The ends of the first `n` edges of `edges`.
pub open spec fn prefix_ends(edges: Seq<Pair>, n: int) -> Set<FunctionId> {
    Set::new(|f: FunctionId| exists|j: int| 0 <= j < n && (#[trigger] edges[j].0 == f || edges[j].1 == f))
}

/// The outcome of visiting a definition.
pub open spec fn definition_outcome(span: SourceSpan, data: Option<DefData>) -> Visit {
    if spec_is_generated(span) {
        Visit::Skipped
    } else {
        match data {
            Some(d) => if d.has_body {
                Visit::Entered
            } else {
                Visit::Walk
            },
            None => Visit::Walk,
        }
    }
}

/// A trait method signature without a body, outside generated code.
pub open spec fn is_abstract_decl(span: SourceSpan, data: Option<DefData>) -> bool {
    !spec_is_generated(span) && (data matches Some(d) && !d.has_body)
}

/// The implementation entry that an impl method adds: one under its
/// declaration when that declaration is local, none otherwise.
pub open spec fn impl_registration(d: DefData) -> Seq<Pair> {
    match d.decl_id {
        Some(decl) => if spec_is_local(decl) {
            seq![(decl, d.id)]
        } else {
            seq![]
        },
        None => seq![],
    }
}

/// The definite calls after a visit of a call site.
pub open spec fn static_after(s: Set<Pair>, span: SourceSpan, data: Option<Reference>, cur: Option<FunctionId>) -> Set<Pair> {
    if reference_outcome(span, data, cur) == Visit::Recorded {
        match data {
            Some(Reference::Function(t)) => s.insert((cur.unwrap(), t)),
            _ => s,
        }
    } else {
        s
    }
}

/// The potential calls after a visit of a call site.
pub open spec fn dynamic_after(s: Set<Pair>, span: SourceSpan, data: Option<Reference>, cur: Option<FunctionId>) -> Set<Pair> {
    if reference_outcome(span, data, cur) == Visit::Recorded {
        match data {
            Some(Reference::Method(d)) => s.insert((cur.unwrap(), d)),
            _ => s,
        }
    } else {
        s
    }
}

/// The two visitors hold the same definitions, declarations and
/// implementation entries.
pub open spec fn same_record(a: FnVisitor, b: FnVisitor) -> bool {
    &&& a.functions() == b.functions()
    &&& a.decls() == b.decls()
    &&& a.impls() == b.impls()
}

/// The two visitors hold the same calls and the same configuration.
pub open spec fn same_calls(a: FnVisitor, b: FnVisitor) -> bool {
    &&& a.static_set() == b.static_set()
    &&& a.dynamic_set() == b.dynamic_set()
    &&& a.skips_unconnected() == b.skips_unconnected()
}

impl FnVisitor {
    /// The ids of all function definitions found.
    pub open spec fn fn_ids(self) -> Set<FunctionId> {
        ids_of(self.functions())
    }

    /// The function record: ids and qualified names.
    pub closed spec fn functions(self) -> Seq<(FunctionId, String)> {
        self.functions@
    }

    /// The ids of all method declarations found.
    pub open spec fn decl_ids(self) -> Set<FunctionId> {
        ids_of(self.decls())
    }

    /// The method declarations and their qualified names.
    pub closed spec fn decls(self) -> Seq<(FunctionId, String)> {
        self.method_decls@
    }

    /// The definite calls found.
    pub closed spec fn static_set(self) -> Set<Pair> {
        self.static_calls@.to_set()
    }

    /// The potential calls found, as (caller, declaration).
    pub closed spec fn dynamic_set(self) -> Set<Pair> {
        self.dynamic_calls@.to_set()
    }

    /// The declaration to implementation relation, in registration order.
    pub closed spec fn impls(self) -> Seq<Pair> {
        self.method_impls@
    }

    /// The current function and the saved enclosing contexts.
    pub closed spec fn context(self) -> (Option<FunctionId>, Seq<Option<FunctionId>>) {
        (self.cur_fn, self.saved@)
    }

    pub closed spec fn skips_unconnected(self) -> bool {
        self.skip_unconnected
    }

    /// Invariant: records have unique keys, edge lists no duplicates, and
    /// every caller, every implementation and every open context is a known
    /// function.
    pub closed spec fn wf(self) -> bool {
        &&& keys_unique(self.functions@)
        &&& keys_unique(self.method_decls@)
        &&& self.static_calls@.no_duplicates()
        &&& self.dynamic_calls@.no_duplicates()
        &&& forall|e: Pair| #[trigger] self.static_calls@.contains(e) ==> ids_of(self.functions@).contains(e.0)
        &&& forall|e: Pair| #[trigger] self.dynamic_calls@.contains(e) ==> ids_of(self.functions@).contains(e.0)
        &&& forall|e: Pair| #[trigger] self.method_impls@.contains(e) ==> ids_of(self.functions@).contains(e.1)
        &&& (self.cur_fn matches Some(f) ==> ids_of(self.functions@).contains(f))
        &&& forall|i: int| 0 <= i < self.saved@.len() ==> (#[trigger] self.saved@[i] matches Some(f) ==> ids_of(self.functions@).contains(f))
    }

    /// An empty visitor; `skip_unconnected` chooses whether functions that
    /// take part in no call are left out of the final graph.
    pub fn new(skip_unconnected: bool) -> (r: FnVisitor)
        ensures
            r.wf(),
            r.fn_ids() == Set::<FunctionId>::empty(),
            r.decl_ids() == Set::<FunctionId>::empty(),
            r.static_set() == Set::<Pair>::empty(),
            r.dynamic_set() == Set::<Pair>::empty(),
            r.impls() == Seq::<Pair>::empty(),
            r.context() == (None::<FunctionId>, Seq::<Option<FunctionId>>::empty()),
            r.skips_unconnected() == skip_unconnected,
    {
        let r = FnVisitor {
            static_calls: Vec::new(),
            dynamic_calls: Vec::new(),
            functions: Vec::new(),
            method_decls: Vec::new(),
            method_impls: Vec::new(),
            cur_fn: None,
            saved: Vec::new(),
            skip_unconnected,
        };
        assert(ids_of(r.functions@) =~= Set::empty());
        assert(ids_of(r.method_decls@) =~= Set::empty());
        assert(r.static_calls@.to_set() =~= Set::empty());
        assert(r.dynamic_calls@.to_set() =~= Set::empty());
        r
    }

    // Enters the body of `id`, saving the current context.
    fn enter(&mut self, id: FunctionId)
        requires
            old(self).wf(),
            old(self).fn_ids().contains(id),
        ensures
            final(self).wf(),
            final(self).context() == entered(old(self).context(), id),
            same_record(*final(self), *old(self)),
            same_calls(*final(self), *old(self)),
    {
        let prev = self.cur_fn;
        self.saved.push(prev);
        self.cur_fn = Some(id);
    }

    /// Leaves the innermost body, restoring the context saved when it was
    /// entered. Returns false, and changes nothing, when no body is open.
    pub fn leave(&mut self) -> (r: bool)
        requires
            old(self).wf(),
        ensures
            final(self).wf(),
            r == (old(self).context().1.len() > 0),
            final(self).context() == left(old(self).context()),
            same_record(*final(self), *old(self)),
            same_calls(*final(self), *old(self)),
    {
        match self.saved.pop() {
            Some(prev) => {
                self.cur_fn = prev;
                true
            },
            None => false,
        }
    }

    // Records that `def` implements `decl`.
    fn append_method_impl(&mut self, decl: FunctionId, def: FunctionId)
        requires
            old(self).wf(),
            old(self).fn_ids().contains(def),
        ensures
            final(self).wf(),
            final(self).impls() == old(self).impls().push((decl, def)),
            final(self).functions() == old(self).functions(),
            final(self).decls() == old(self).decls(),
            final(self).context() == old(self).context(),
            same_calls(*final(self), *old(self)),
    {
        let ghost before = self.method_impls@;
        self.method_impls.push((decl, def));
        assert forall|e: Pair| #[trigger] self.method_impls@.contains(e) implies ids_of(self.functions@).contains(e.1) by {
            let k = choose|k: int| 0 <= k < self.method_impls@.len() && self.method_impls@[k] == e;
            if k < before.len() {
                assert(before[k] == e);
                assert(old(self).method_impls@.contains(e));
            } else {
                assert(e == (decl, def));
            }
        }
    }

    // Records the call at a call site, if it is one.
    fn record_reference(&mut self, span: SourceSpan, data: Option<Reference>) -> (r: Visit)
        requires
            old(self).wf(),
        ensures
            final(self).wf(),
            r == reference_outcome(span, data, old(self).context().0),
            final(self).static_set() == static_after(old(self).static_set(), span, data, old(self).context().0),
            final(self).dynamic_set() == dynamic_after(old(self).dynamic_set(), span, data, old(self).context().0),
            final(self).skips_unconnected() == old(self).skips_unconnected(),
            final(self).context() == old(self).context(),
            same_record(*final(self), *old(self)),
    {
        if is_generated(span) {
            return Visit::Skipped;
        }
        match data {
            Some(Reference::Function(t)) => {
                if !is_local(t) {
                    return Visit::Walk;
                }
                match self.cur_fn {
                    Some(c) => {
                        insert_pair(&mut self.static_calls, (c, t));
                        assert(forall|e: Pair| #[trigger] self.static_calls@.contains(e) ==> self.static_calls@.to_set().contains(e));
                        Visit::Recorded
                    },
                    None => Visit::Unattributed,
                }
            },
            Some(Reference::Method(d)) => {
                if !is_local(d) {
                    return Visit::Walk;
                }
                match self.cur_fn {
                    Some(c) => {
                        insert_pair(&mut self.dynamic_calls, (c, d));
                        assert(forall|e: Pair| #[trigger] self.dynamic_calls@.contains(e) ==> self.dynamic_calls@.to_set().contains(e));
                        Visit::Recorded
                    },
                    None => Visit::Unattributed,
                }
            },
            None => Visit::Walk,
        }
    }

    /// Visits a path. A path that names a local function is a definite call
    /// from the current function; one that names a method declaration is a
    /// potential call. Without a current function the call is dropped and
    /// `Unattributed` says that a warning is owed.
    pub fn visit_path(&mut self, span: SourceSpan, data: Option<Reference>) -> (r: Visit)
        requires
            old(self).wf(),
        ensures
            final(self).wf(),
            r == reference_outcome(span, data, old(self).context().0),
            final(self).static_set() == static_after(old(self).static_set(), span, data, old(self).context().0),
            final(self).dynamic_set() == dynamic_after(old(self).dynamic_set(), span, data, old(self).context().0),
            final(self).skips_unconnected() == old(self).skips_unconnected(),
            final(self).context() == old(self).context(),
            same_record(*final(self), *old(self)),
    {
        self.record_reference(span, data)
    }

    /// Visits an expression: a call expression is handled as `visit_path`
    /// handles a path.
    pub fn visit_expr(&mut self, span: SourceSpan, data: Option<Reference>) -> (r: Visit)
        requires
            old(self).wf(),
        ensures
            final(self).wf(),
            r == reference_outcome(span, data, old(self).context().0),
            final(self).static_set() == static_after(old(self).static_set(), span, data, old(self).context().0),
            final(self).dynamic_set() == dynamic_after(old(self).dynamic_set(), span, data, old(self).context().0),
            final(self).skips_unconnected() == old(self).skips_unconnected(),
            final(self).context() == old(self).context(),
            same_record(*final(self), *old(self)),
    {
        self.record_reference(span, data)
    }

    /// Visits an item. A function item with a body is recorded and its body
    /// entered.
    pub fn visit_item(&mut self, span: SourceSpan, data: Option<DefData>) -> (r: Visit)
        requires
            old(self).wf(),
        ensures
            final(self).wf(),
            r == definition_outcome(span, data),
            r == Visit::Entered ==> {
                let d = data.unwrap();
                &&& renamed(old(self).functions(), final(self).functions(), d.id, d.qualname)
                &&& final(self).decls() == old(self).decls()
                &&& final(self).impls() == old(self).impls()
                &&& final(self).context() == entered(old(self).context(), d.id)
                &&& same_calls(*final(self), *old(self))
            },
            r != Visit::Entered ==> *final(self) == *old(self),
    {
        if is_generated(span) {
            return Visit::Skipped;
        }
        match data {
            Some(d) => {
                if d.has_body {
                    let id = d.id;
                    set_name(&mut self.functions, id, d.qualname);
                    self.enter(id);
                    Visit::Entered
                } else {
                    Visit::Walk
                }
            },
            None => Visit::Walk,
        }
    }

    /// Visits a trait item. A method signature without a body is recorded as
    /// a declaration. A method with a default body is a declaration, a
    /// function and an implementation of itself; its body is entered.
    pub fn visit_trait_item(&mut self, span: SourceSpan, data: Option<DefData>) -> (r: Visit)
        requires
            old(self).wf(),
        ensures
            final(self).wf(),
            r == definition_outcome(span, data),
            is_abstract_decl(span, data) ==> {
                let d = data.unwrap();
                &&& renamed(old(self).decls(), final(self).decls(), d.id, d.qualname)
                &&& final(self).functions() == old(self).functions()
                &&& final(self).impls() == old(self).impls()
                &&& final(self).context() == old(self).context()
                &&& same_calls(*final(self), *old(self))
            },
            r == Visit::Entered ==> {
                let d = data.unwrap();
                &&& renamed(old(self).decls(), final(self).decls(), d.id, d.qualname)
                &&& renamed(old(self).functions(), final(self).functions(), d.id, d.qualname)
                &&& final(self).impls() == old(self).impls().push((d.id, d.id))
                &&& final(self).context() == entered(old(self).context(), d.id)
                &&& same_calls(*final(self), *old(self))
            },
            r != Visit::Entered && !is_abstract_decl(span, data) ==> *final(self) == *old(self),
    {
        if is_generated(span) {
            return Visit::Skipped;
        }
        match data {
            Some(d) => {
                let id = d.id;
                if !d.has_body {
                    set_name(&mut self.method_decls, id, d.qualname);
                    Visit::Walk
                } else {
                    let name = d.qualname.clone();
                    set_name(&mut self.method_decls, id, name);
                    set_name(&mut self.functions, id, d.qualname);
                    self.append_method_impl(id, id);
                    self.enter(id);
                    Visit::Entered
                }
            },
            None => Visit::Walk,
        }
    }

    /// Visits an impl item. A method is recorded, registered as an
    /// implementation of its declaration when that declaration is local,
    /// and its body entered.
    pub fn visit_impl_item(&mut self, span: SourceSpan, data: Option<DefData>) -> (r: Visit)
        requires
            old(self).wf(),
        ensures
            final(self).wf(),
            r == definition_outcome(span, data),
            r == Visit::Entered ==> {
                let d = data.unwrap();
                &&& renamed(old(self).functions(), final(self).functions(), d.id, d.qualname)
                &&& final(self).decls() == old(self).decls()
                &&& final(self).impls() == old(self).impls() + impl_registration(d)
                &&& final(self).context() == entered(old(self).context(), d.id)
                &&& same_calls(*final(self), *old(self))
            },
            r != Visit::Entered ==> *final(self) == *old(self),
    {
        if is_generated(span) {
            return Visit::Skipped;
        }
        match data {
            Some(d) => {
                if d.has_body {
                    let id = d.id;
                    set_name(&mut self.functions, id, d.qualname);
                    match d.decl_id {
                        Some(decl) => {
                            if is_local(decl) {
                                self.append_method_impl(decl, id);
                            }
                        },
                        None => {},
                    }
                    assert(self.method_impls@ =~= old(self).method_impls@ + impl_registration(d));
                    self.enter(id);
                    Visit::Entered
                } else {
                    Visit::Walk
                }
            },
            None => Visit::Walk,
        }
    }

    // Adds `id` with its recorded name to `map`, unless `map` holds it.
    fn append_fn(&self, map: &mut Vec<(FunctionId, String)>, id: FunctionId)
        requires
            self.wf(),
            self.fn_ids().contains(id),
            keys_unique(old(map)@),
            forall|x: (FunctionId, String)| #[trigger] old(map)@.contains(x) ==> self.functions@.contains(x),
        ensures
            keys_unique(final(map)@),
            ids_of(final(map)@) == ids_of(old(map)@).insert(id),
            forall|x: (FunctionId, String)| #[trigger] final(map)@.contains(x) ==> self.functions@.contains(x),
    {
        if find_entry(map, id).is_some() {
            assert(ids_of(map@) =~= ids_of(map@).insert(id));
            return;
        }
        match find_entry(&self.functions, id) {
            Some(i) => {
                let name = self.functions[i].1.clone();
                let ghost before = map@;
                map.push((id, name));
                assert(map@[before.len() as int] == self.functions@[i as int]);
                assert forall|x: (FunctionId, String)| #[trigger] map@.contains(x) implies self.functions@.contains(x) by {
                    let k = choose|k: int| 0 <= k < map@.len() && map@[k] == x;
                    if k < before.len() {
                        assert(before[k] == x);
                        assert(before.contains(x));
                    } else {
                        assert(x == self.functions@[i as int]);
                    }
                }
                assert(ids_of(map@) =~= ids_of(before).insert(id)) by {
                    assert(map@[before.len() as int].0 == id);
                    assert forall|f: FunctionId| ids_of(before).contains(f) implies ids_of(map@).contains(f) by {
                        let k = choose|k: int| 0 <= k < before.len() && #[trigger] before[k].0 == f;
                        assert(map@[k].0 == f);
                    }
                    assert forall|f: FunctionId| ids_of(map@).contains(f) implies ids_of(before).insert(id).contains(f) by {
                        let k = choose|k: int| 0 <= k < map@.len() && #[trigger] map@[k].0 == f;
                        if k < before.len() {
                            assert(before[k].0 == f);
                        }
                    }
                }
            },
            None => {},
        }
    }

    // Adds both ends of every edge of `edges` to `map`.
    fn collect_endpoints(&self, map: &mut Vec<(FunctionId, String)>, edges: &Vec<Pair>)
        requires
            self.wf(),
            endpoints(edges@.to_set()).subset_of(self.fn_ids()),
            keys_unique(old(map)@),
            forall|x: (FunctionId, String)| #[trigger] old(map)@.contains(x) ==> self.functions@.contains(x),
        ensures
            keys_unique(final(map)@),
            ids_of(final(map)@) == ids_of(old(map)@).union(endpoints(edges@.to_set())),
            forall|x: (FunctionId, String)| #[trigger] final(map)@.contains(x) ==> self.functions@.contains(x),
    {
        let ghost start = ids_of(map@);
        let mut i: usize = 0;
        while i < edges.len()
            invariant
                self.wf(),
                0 <= i <= edges@.len(),
                endpoints(edges@.to_set()).subset_of(self.fn_ids()),
                keys_unique(map@),
                forall|x: (FunctionId, String)| #[trigger] map@.contains(x) ==> self.functions@.contains(x),
                ids_of(map@) == start.union(prefix_ends(edges@, i as int)),
            decreases edges@.len() - i,
        {
            let (from, to) = edges[i];
            assert(edges@.to_set().contains(edges@[i as int]));
            assert(endpoints(edges@.to_set()).contains(from));
            assert(endpoints(edges@.to_set()).contains(to));
            let ghost mid = ids_of(map@);
            self.append_fn(map, from);
            self.append_fn(map, to);
            assert(prefix_ends(edges@, i + 1) =~= prefix_ends(edges@, i as int).insert(from).insert(to)) by {
                assert(edges@[i as int].0 == from);
                assert(edges@[i as int].1 == to);
                assert forall|f: FunctionId| prefix_ends(edges@, i + 1).contains(f) implies
                    prefix_ends(edges@, i as int).insert(from).insert(to).contains(f) by {
                    let j = choose|j: int| 0 <= j < i + 1 && (#[trigger] edges@[j].0 == f || edges@[j].1 == f);
                    if j < i {
                        assert(prefix_ends(edges@, i as int).contains(f));
                    }
                }
                assert forall|f: FunctionId| prefix_ends(edges@, i as int).contains(f) implies
                    prefix_ends(edges@, i + 1).contains(f) by {
                    let j = choose|j: int| 0 <= j < i && (#[trigger] edges@[j].0 == f || edges@[j].1 == f);
                    assert(0 <= j < i + 1 && (edges@[j].0 == f || edges@[j].1 == f));
                }
            }
            assert(ids_of(map@) =~= start.union(prefix_ends(edges@, i + 1)));
            i += 1;
        }
        assert(prefix_ends(edges@, edges@.len() as int) =~= endpoints(edges@.to_set())) by {
            assert forall|f: FunctionId| endpoints(edges@.to_set()).contains(f) implies prefix_ends(edges@, edges@.len() as int).contains(f) by {
                let e = choose|e: Pair| #[trigger] edges@.to_set().contains(e) && (e.0 == f || e.1 == f);
                let k = choose|k: int| 0 <= k < edges@.len() && edges@[k] == e;
                assert(edges@[k].0 == f || edges@[k].1 == f);
            }
            assert forall|f: FunctionId| prefix_ends(edges@, edges@.len() as int).contains(f) implies endpoints(edges@.to_set()).contains(f) by {
                let k = choose|k: int| 0 <= k < edges@.len() && (#[trigger] edges@[k].0 == f || edges@[k].1 == f);
                assert(edges@.to_set().contains(edges@[k]));
            }
        }
    }

    /// Finishes the walk: expands every potential call into one edge per
    /// registered implementation of its declaration (none when there is
    /// none), keeps the definite calls whose callee is a known function, and,
    /// when skipping unconnected functions, keeps only the functions that
    /// take part in some edge.
    pub fn post_process(self, crate_name: &str) -> (r: FnData)
        requires
            self.wf(),
        ensures
            processed(self, crate_name@, r),
    {
        let ghost dynamic = self.dynamic_calls@;
        let ghost impls = self.method_impls@;
        let ghost target = resolve(self.dynamic_calls@.to_set(), self.method_impls@);
        let mut processed_calls: Vec<Pair> = Vec::new();
        let mut i: usize = 0;
        while i < self.dynamic_calls.len()
            invariant
                0 <= i <= dynamic.len(),
                dynamic == self.dynamic_calls@,
                impls == self.method_impls@,
                target == resolve(self.dynamic_calls@.to_set(), self.method_impls@),
                processed_calls@.no_duplicates(),
                forall|e: Pair| #[trigger] processed_calls@.contains(e) ==> target.contains(e),
                forall|a: int, b: int|
                    #![trigger dynamic[a], impls[b]]
                    0 <= a < i && 0 <= b < impls.len() && impls[b].0 == dynamic[a].1
                        ==> processed_calls@.contains((dynamic[a].0, impls[b].1)),
            decreases dynamic.len() - i,
        {
            let (from, decl) = self.dynamic_calls[i];
            assert(self.dynamic_calls@.to_set().contains((from, decl)));
            let mut j: usize = 0;
            while j < self.method_impls.len()
                invariant
                    0 <= i < dynamic.len(),
                    0 <= j <= impls.len(),
                    dynamic == self.dynamic_calls@,
                    impls == self.method_impls@,
                    dynamic[i as int] == (from, decl),
                    self.dynamic_calls@.to_set().contains((from, decl)),
                    target == resolve(self.dynamic_calls@.to_set(), self.method_impls@),
                    processed_calls@.no_duplicates(),
                    forall|e: Pair| #[trigger] processed_calls@.contains(e) ==> target.contains(e),
                    forall|a: int, b: int|
                        #![trigger dynamic[a], impls[b]]
                        0 <= a < i && 0 <= b < impls.len() && impls[b].0 == dynamic[a].1
                            ==> processed_calls@.contains((dynamic[a].0, impls[b].1)),
                    forall|b: int|
                        0 <= b < j && #[trigger] impls[b].0 == decl ==> processed_calls@.contains((from, impls[b].1)),
                decreases impls.len() - j,
            {
                let (d, to) = self.method_impls[j];
                if d == decl {
                    assert(impls.contains((decl, to))) by {
                        assert(impls[j as int] == (decl, to));
                    }
                    assert(self.dynamic_calls@.to_set().contains(((from, to).0, decl)));
                    assert(target.contains((from, to)));
                    insert_pair(&mut processed_calls, (from, to));
                }
                j += 1;
            }
            i += 1;
        }
        assert(processed_calls@.to_set() =~= target) by {
            assert forall|e: Pair| target.contains(e) implies processed_calls@.contains(e) by {
                let d = choose|d: FunctionId| #[trigger] self.dynamic_calls@.to_set().contains((e.0, d)) && impls.contains((d, e.1));
                let a = choose|a: int| 0 <= a < dynamic.len() && dynamic[a] == (e.0, d);
                let b = choose|b: int| 0 <= b < impls.len() && impls[b] == (d, e.1);
                assert(impls[b].0 == dynamic[a].1);
            }
        }

        let ghost kept = Set::new(|e: Pair| self.static_calls@.to_set().contains(e) && ids_of(self.functions@).contains(e.1));
        let mut static_calls: Vec<Pair> = Vec::new();
        let mut k: usize = 0;
        while k < self.static_calls.len()
            invariant
                0 <= k <= self.static_calls@.len(),
                kept == Set::new(|e: Pair| self.static_calls@.to_set().contains(e) && ids_of(self.functions@).contains(e.1)),
                static_calls@.no_duplicates(),
                forall|e: Pair| #[trigger] static_calls@.contains(e) ==> kept.contains(e),
                forall|c: int|
                    0 <= c < k && ids_of(self.functions@).contains(#[trigger] self.static_calls@[c].1)
                        ==> static_calls@.contains(self.static_calls@[c]),
            decreases self.static_calls@.len() - k,
        {
            let e = self.static_calls[k];
            match find_entry(&self.functions, e.1) {
                Some(idx) => {
                    assert(self.functions@[idx as int].0 == e.1);
                    assert(self.static_calls@.to_set().contains(self.static_calls@[k as int]));
                    assert(kept.contains(e));
                    insert_pair(&mut static_calls, e);
                },
                None => {},
            }
            k += 1;
        }
        assert(static_calls@.to_set() =~= kept) by {
            assert forall|e: Pair| kept.contains(e) implies static_calls@.contains(e) by {
                let c = choose|c: int| 0 <= c < self.static_calls@.len() && self.static_calls@[c] == e;
                assert(ids_of(self.functions@).contains(self.static_calls@[c].1));
            }
        }

        let ghost all_fns = self.functions@;
        proof {
            assert forall|f: FunctionId| endpoints(static_calls@.to_set()).contains(f) implies ids_of(all_fns).contains(f) by {
                let e = choose|e: Pair| #[trigger] static_calls@.to_set().contains(e) && (e.0 == f || e.1 == f);
                assert(self.static_calls@.contains(e));
            }
            assert forall|f: FunctionId| endpoints(processed_calls@.to_set()).contains(f) implies ids_of(all_fns).contains(f) by {
                let e = choose|e: Pair| #[trigger] processed_calls@.to_set().contains(e) && (e.0 == f || e.1 == f);
                assert(target.contains(e));
                let d = choose|d: FunctionId| #[trigger] self.dynamic_calls@.to_set().contains((e.0, d)) && impls.contains((d, e.1));
                assert(self.dynamic_calls@.contains((e.0, d)));
                assert(self.method_impls@.contains((d, e.1)));
            }
        }
        let skip = self.skip_unconnected;
        let functions = if skip {
            let mut map: Vec<(FunctionId, String)> = Vec::new();
            assert(ids_of(map@) =~= Set::empty());
            self.collect_endpoints(&mut map, &static_calls);
            self.collect_endpoints(&mut map, &processed_calls);
            proof {
                let edges = static_calls@.to_set().union(processed_calls@.to_set());
                assert(endpoints(edges) =~= endpoints(static_calls@.to_set()).union(endpoints(processed_calls@.to_set()))) by {
                    assert forall|f: FunctionId| endpoints(edges).contains(f) implies
                        endpoints(static_calls@.to_set()).union(endpoints(processed_calls@.to_set())).contains(f) by {
                        let e = choose|e: Pair| #[trigger] edges.contains(e) && (e.0 == f || e.1 == f);
                        if static_calls@.to_set().contains(e) {
                            assert(endpoints(static_calls@.to_set()).contains(f));
                        } else {
                            assert(endpoints(processed_calls@.to_set()).contains(f));
                        }
                    }
                    assert forall|f: FunctionId| endpoints(static_calls@.to_set()).union(endpoints(processed_calls@.to_set())).contains(f)
                        implies endpoints(edges).contains(f) by {
                        if endpoints(static_calls@.to_set()).contains(f) {
                            let e = choose|e: Pair| #[trigger] static_calls@.to_set().contains(e) && (e.0 == f || e.1 == f);
                            assert(edges.contains(e));
                        } else {
                            let e = choose|e: Pair| #[trigger] processed_calls@.to_set().contains(e) && (e.0 == f || e.1 == f);
                            assert(edges.contains(e));
                        }
                    }
                }
                assert(ids_of(map@) =~= endpoints(edges));
            }
            map
        } else {
            self.functions
        };
        let name = crate_name.to_string();
        let r = FnData { static_calls, dynamic_calls: processed_calls, functions, crate_name: name };
        proof {
            assert forall|f: FunctionId| endpoints(r.edge_set()).contains(f) implies r.node_ids().contains(f) by {
                let e = choose|e: Pair| #[trigger] r.edge_set().contains(e) && (e.0 == f || e.1 == f);
                if static_calls@.to_set().contains(e) {
                    assert(endpoints(static_calls@.to_set()).contains(f));
                } else {
                    assert(endpoints(processed_calls@.to_set()).contains(f));
                }
            }
        }
        r
    }
}

} // verus!
