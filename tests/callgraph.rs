use callgraph::fndata::FnData;
use callgraph::graphviz::{CallKind, EdgeStyle};
use callgraph::ids::{is_generated, is_local, FunctionId, SourceSpan};
use callgraph::visitor::{DefData, FnVisitor, Reference, Visit};

fn id(index: u32) -> FunctionId {
    FunctionId { krate: 0, index }
}

fn span() -> SourceSpan {
    SourceSpan { lo: 10, hi: 20, expanded: false }
}

fn def(index: u32, name: &str) -> Option<DefData> {
    Some(DefData { id: id(index), qualname: name.to_string(), has_body: true, decl_id: None })
}

fn decl(index: u32, name: &str) -> Option<DefData> {
    Some(DefData { id: id(index), qualname: name.to_string(), has_body: false, decl_id: None })
}

fn method(index: u32, name: &str, of: u32) -> Option<DefData> {
    Some(DefData { id: id(index), qualname: name.to_string(), has_body: true, decl_id: Some(id(of)) })
}

fn sorted(v: &[(FunctionId, FunctionId)]) -> Vec<(FunctionId, FunctionId)> {
    let mut v = v.to_vec();
    v.sort();
    v
}

fn node_ids(d: &FnData) -> Vec<FunctionId> {
    let mut v = d.nodes();
    v.sort();
    v
}

#[test]
fn scenario_a_static_call() {
    let mut v = FnVisitor::new(false);
    assert_eq!(v.visit_item(span(), def(1, "f")), Visit::Entered);
    assert_eq!(v.visit_path(span(), Some(Reference::Function(id(2)))), Visit::Recorded);
    assert!(v.leave());
    assert_eq!(v.visit_item(span(), def(2, "g")), Visit::Entered);
    assert!(v.leave());
    let d = v.post_process("unit");
    assert_eq!(sorted(&d.static_calls), vec![(id(1), id(2))]);
    assert!(d.dynamic_calls.is_empty());
    assert_eq!(node_ids(&d), vec![id(1), id(2)]);
}

fn interface_unit(default_body: bool, skip: bool) -> FnData {
    let mut v = FnVisitor::new(skip);
    // trait T { fn m(); }
    if default_body {
        assert_eq!(v.visit_trait_item(span(), def(10, "T::m")), Visit::Entered);
        assert!(v.leave());
    } else {
        assert_eq!(v.visit_trait_item(span(), decl(10, "T::m")), Visit::Walk);
    }
    // impl T for A { fn m() } and impl T for B { fn m() }
    assert_eq!(v.visit_impl_item(span(), method(11, "A::m", 10)), Visit::Entered);
    assert!(v.leave());
    assert_eq!(v.visit_impl_item(span(), method(12, "B::m", 10)), Visit::Entered);
    assert!(v.leave());
    // fn h() { x.m() }
    assert_eq!(v.visit_item(span(), def(20, "h")), Visit::Entered);
    assert_eq!(v.visit_expr(span(), Some(Reference::Method(id(10)))), Visit::Recorded);
    assert!(v.leave());
    v.post_process("unit")
}

#[test]
fn scenario_b_two_implementors() {
    let d = interface_unit(false, false);
    assert_eq!(sorted(&d.dynamic_calls), vec![(id(20), id(11)), (id(20), id(12))]);
    assert!(d.static_calls.is_empty());
}

#[test]
fn scenario_c_default_body_is_a_target() {
    let d = interface_unit(true, false);
    assert_eq!(
        sorted(&d.dynamic_calls),
        vec![(id(20), id(10)), (id(20), id(11)), (id(20), id(12))]
    );
}

#[test]
fn scenario_d_top_level_call() {
    let mut v = FnVisitor::new(false);
    assert_eq!(v.visit_item(span(), def(1, "g")), Visit::Entered);
    assert!(v.leave());
    assert_eq!(v.visit_path(span(), Some(Reference::Function(id(1)))), Visit::Unattributed);
    assert_eq!(v.visit_expr(span(), Some(Reference::Method(id(1)))), Visit::Unattributed);
    let d = v.post_process("unit");
    assert!(d.static_calls.is_empty());
    assert!(d.dynamic_calls.is_empty());
    assert_eq!(node_ids(&d), vec![id(1)]);
}

#[test]
fn default_method_alone_resolves_to_itself() {
    let mut v = FnVisitor::new(false);
    assert_eq!(v.visit_trait_item(span(), def(10, "T::m")), Visit::Entered);
    assert!(v.leave());
    assert_eq!(v.visit_item(span(), def(20, "h")), Visit::Entered);
    assert_eq!(v.visit_expr(span(), Some(Reference::Method(id(10)))), Visit::Recorded);
    assert!(v.leave());
    let d = v.post_process("unit");
    assert_eq!(sorted(&d.dynamic_calls), vec![(id(20), id(10))]);
}

#[test]
fn zero_implementors_give_no_edge() {
    let mut v = FnVisitor::new(false);
    assert_eq!(v.visit_trait_item(span(), decl(10, "T::m")), Visit::Walk);
    assert_eq!(v.visit_item(span(), def(20, "h")), Visit::Entered);
    assert_eq!(v.visit_expr(span(), Some(Reference::Method(id(10)))), Visit::Recorded);
    // A call through a declaration that was never seen at all.
    assert_eq!(v.visit_expr(span(), Some(Reference::Method(id(30)))), Visit::Recorded);
    assert!(v.leave());
    let d = v.post_process("unit");
    assert!(d.dynamic_calls.is_empty());
    assert_eq!(node_ids(&d), vec![id(20)]);
}

#[test]
fn implementations_before_declaration_are_kept() {
    let mut v = FnVisitor::new(false);
    assert_eq!(v.visit_impl_item(span(), method(11, "A::m", 10)), Visit::Entered);
    assert!(v.leave());
    assert_eq!(v.visit_trait_item(span(), decl(10, "T::m")), Visit::Walk);
    assert_eq!(v.visit_item(span(), def(20, "h")), Visit::Entered);
    assert_eq!(v.visit_expr(span(), Some(Reference::Method(id(10)))), Visit::Recorded);
    assert!(v.leave());
    let d = v.post_process("unit");
    assert_eq!(sorted(&d.dynamic_calls), vec![(id(20), id(11))]);
}

fn pruning_unit(skip: bool) -> FnData {
    let mut v = FnVisitor::new(skip);
    assert_eq!(v.visit_item(span(), def(1, "f")), Visit::Entered);
    assert_eq!(v.visit_path(span(), Some(Reference::Function(id(2)))), Visit::Recorded);
    assert!(v.leave());
    assert_eq!(v.visit_item(span(), def(2, "g")), Visit::Entered);
    assert!(v.leave());
    assert_eq!(v.visit_item(span(), def(3, "lonely")), Visit::Entered);
    assert!(v.leave());
    v.post_process("unit")
}

#[test]
fn pruning_enabled_drops_unconnected() {
    let d = pruning_unit(true);
    assert_eq!(node_ids(&d), vec![id(1), id(2)]);
    assert_eq!(sorted(&d.static_calls), vec![(id(1), id(2))]);
}

#[test]
fn pruning_disabled_keeps_unconnected() {
    let d = pruning_unit(false);
    assert_eq!(node_ids(&d), vec![id(1), id(2), id(3)]);
}

#[test]
fn pruning_keeps_dynamic_targets() {
    let d = interface_unit(false, true);
    assert_eq!(node_ids(&d), vec![id(11), id(12), id(20)]);
}

#[test]
fn nested_definition_context() {
    let mut v = FnVisitor::new(false);
    for (i, n) in [(1, "outer"), (2, "inner"), (3, "a"), (4, "b"), (5, "c")] {
        assert_eq!(v.visit_item(span(), def(i, n)), Visit::Entered);
        assert!(v.leave());
    }
    assert_eq!(v.visit_item(span(), def(1, "outer")), Visit::Entered);
    assert_eq!(v.visit_path(span(), Some(Reference::Function(id(3)))), Visit::Recorded);
    assert_eq!(v.visit_item(span(), def(2, "inner")), Visit::Entered);
    assert_eq!(v.visit_path(span(), Some(Reference::Function(id(4)))), Visit::Recorded);
    assert!(v.leave());
    assert_eq!(v.visit_path(span(), Some(Reference::Function(id(5)))), Visit::Recorded);
    assert!(v.leave());
    assert!(!v.leave());
    assert_eq!(v.visit_path(span(), Some(Reference::Function(id(5)))), Visit::Unattributed);
    let d = v.post_process("unit");
    assert_eq!(sorted(&d.static_calls), vec![(id(1), id(3)), (id(1), id(5)), (id(2), id(4))]);
}

#[test]
fn generated_code_is_skipped() {
    let expanded = SourceSpan { lo: 5, hi: 9, expanded: true };
    let dummy = SourceSpan { lo: 0, hi: 0, expanded: false };
    assert!(is_generated(expanded));
    assert!(is_generated(dummy));
    assert!(!is_generated(span()));
    let mut v = FnVisitor::new(false);
    assert_eq!(v.visit_item(expanded, def(1, "f")), Visit::Skipped);
    assert_eq!(v.visit_trait_item(dummy, def(2, "T::m")), Visit::Skipped);
    assert_eq!(v.visit_impl_item(dummy, method(3, "A::m", 2)), Visit::Skipped);
    assert_eq!(v.visit_item(span(), def(4, "h")), Visit::Entered);
    assert_eq!(v.visit_path(expanded, Some(Reference::Function(id(4)))), Visit::Skipped);
    assert_eq!(v.visit_expr(dummy, Some(Reference::Method(id(2)))), Visit::Skipped);
    assert!(v.leave());
    let d = v.post_process("unit");
    assert_eq!(node_ids(&d), vec![id(4)]);
    assert!(d.static_calls.is_empty());
    assert!(d.dynamic_calls.is_empty());
}

#[test]
fn foreign_targets_are_not_edges() {
    let foreign = FunctionId { krate: 3, index: 7 };
    assert!(!is_local(foreign));
    assert!(is_local(id(7)));
    let mut v = FnVisitor::new(false);
    assert_eq!(v.visit_item(span(), def(1, "f")), Visit::Entered);
    assert_eq!(v.visit_path(span(), Some(Reference::Function(foreign))), Visit::Walk);
    assert_eq!(v.visit_expr(span(), Some(Reference::Method(foreign))), Visit::Walk);
    assert_eq!(v.visit_path(span(), None), Visit::Walk);
    assert!(v.leave());
    // An impl of a foreign trait's method registers no implementation.
    assert_eq!(v.visit_impl_item(span(), Some(DefData {
        id: id(2),
        qualname: "A::fmt".to_string(),
        has_body: true,
        decl_id: Some(foreign),
    })), Visit::Entered);
    assert!(v.leave());
    let d = v.post_process("unit");
    assert!(d.static_calls.is_empty());
    assert!(d.dynamic_calls.is_empty());
    assert_eq!(node_ids(&d), vec![id(1), id(2)]);
}

#[test]
fn call_to_unknown_local_function_is_dropped() {
    let mut v = FnVisitor::new(false);
    assert_eq!(v.visit_item(span(), def(1, "f")), Visit::Entered);
    assert_eq!(v.visit_path(span(), Some(Reference::Function(id(9)))), Visit::Recorded);
    assert!(v.leave());
    let d = v.post_process("unit");
    assert!(d.static_calls.is_empty());
}

#[test]
fn repeated_calls_are_one_edge() {
    let mut v = FnVisitor::new(false);
    assert_eq!(v.visit_item(span(), def(1, "f")), Visit::Entered);
    assert_eq!(v.visit_path(span(), Some(Reference::Function(id(1)))), Visit::Recorded);
    assert_eq!(v.visit_path(span(), Some(Reference::Function(id(1)))), Visit::Recorded);
    assert!(v.leave());
    let d = v.post_process("unit");
    assert_eq!(d.static_calls, vec![(id(1), id(1))]);
}

#[test]
fn item_without_body_or_data_is_walked() {
    let mut v = FnVisitor::new(false);
    assert_eq!(v.visit_item(span(), None), Visit::Walk);
    assert_eq!(v.visit_item(span(), decl(1, "extern_fn")), Visit::Walk);
    assert_eq!(v.visit_trait_item(span(), None), Visit::Walk);
    assert_eq!(v.visit_impl_item(span(), None), Visit::Walk);
    let d = v.post_process("unit");
    assert!(d.nodes().is_empty());
}

#[test]
fn redefinition_keeps_one_entry() {
    let mut v = FnVisitor::new(false);
    assert_eq!(v.visit_item(span(), def(1, "old")), Visit::Entered);
    assert!(v.leave());
    assert_eq!(v.visit_item(span(), def(1, "new")), Visit::Entered);
    assert!(v.leave());
    let d = v.post_process("unit");
    assert_eq!(d.nodes(), vec![id(1)]);
    assert_eq!(d.node_label(&id(1)), "new");
}

#[test]
fn graph_ids_and_labels() {
    let d = interface_unit(false, false);
    assert_eq!(d.graph_id(), "Callgraph_for_unit");
    assert_eq!(d.node_id(&id(12)), "n_0_12");
    assert_eq!(d.node_id(&FunctionId { krate: 305, index: 4000000000 }), "n_305_4000000000");
    assert_eq!(d.node_label(&id(11)), "A::m");
    assert_eq!(d.crate_name, "unit");
}

#[test]
fn edges_and_styles() {
    let mut v = FnVisitor::new(false);
    assert_eq!(v.visit_trait_item(span(), decl(10, "T::m")), Visit::Walk);
    assert_eq!(v.visit_impl_item(span(), method(11, "A::m", 10)), Visit::Entered);
    assert!(v.leave());
    assert_eq!(v.visit_item(span(), def(20, "h")), Visit::Entered);
    assert_eq!(v.visit_path(span(), Some(Reference::Function(id(11)))), Visit::Recorded);
    assert_eq!(v.visit_expr(span(), Some(Reference::Method(id(10)))), Visit::Recorded);
    assert!(v.leave());
    let d = v.post_process("unit");
    let edges = d.edges();
    assert_eq!(
        edges,
        vec![(id(20), id(11), CallKind::Definite), (id(20), id(11), CallKind::Potential)]
    );
    assert_eq!(d.edge_style(&edges[0]), EdgeStyle::Plain);
    assert_eq!(d.edge_style(&edges[1]), EdgeStyle::Dotted);
    assert_eq!(d.source(&edges[0]), id(20));
    assert_eq!(d.target(&edges[1]), id(11));
}

#[test]
fn dump_lists_functions_and_calls() {
    let mut v = FnVisitor::new(false);
    assert_eq!(v.visit_trait_item(span(), decl(10, "T::m")), Visit::Walk);
    assert_eq!(v.visit_impl_item(span(), method(11, "A::m", 10)), Visit::Entered);
    assert!(v.leave());
    assert_eq!(v.visit_item(span(), def(20, "h")), Visit::Entered);
    assert_eq!(v.visit_path(span(), Some(Reference::Function(id(11)))), Visit::Recorded);
    assert_eq!(v.visit_expr(span(), Some(Reference::Method(id(10)))), Visit::Recorded);
    assert!(v.leave());
    let d = v.post_process("unit");
    assert_eq!(
        d.dump(),
        vec![
            "Found fns:",
            "0:11: A::m",
            "0:20: h",
            "",
            "Found calls:",
            "0:20 -> 0:11",
            "h -> A::m",
            "",
            "Found potential calls:",
            "h -> A::m",
        ]
    );
}

#[test]
fn every_edge_end_is_a_node() {
    for skip in [false, true] {
        for default_body in [false, true] {
            let d = interface_unit(default_body, skip);
            let nodes = d.nodes();
            for (from, to, _) in d.edges() {
                assert!(nodes.contains(&from));
                assert!(nodes.contains(&to));
            }
        }
    }
}
