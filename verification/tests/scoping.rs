use jscore::semantic::scoping::Scoping;
use jscore::syntax::{NodeId, ReferenceFlags, ScopeId, ScopeKind, SymbolFlags, SymbolId, SymbolKind};
use jscore::traverse::context::TraverseCtx;

fn variable() -> SymbolFlags {
    SymbolFlags::of_kind(SymbolKind::Variable)
}

#[test]
fn find_binding_walks_outward() {
    let mut scoping = Scoping::new(NodeId(0));
    let root = scoping.root_scope_id();
    let function = scoping.add_scope(root, ScopeKind::Function, NodeId(1));
    let block = scoping.add_scope(function, ScopeKind::Block, NodeId(2));
    let x = scoping.declare(function, "x", NodeId(3), variable());
    assert_eq!(scoping.find_binding(block, "x"), Some(x));
    assert_eq!(scoping.find_binding(function, "x"), Some(x));
    assert_eq!(scoping.find_binding(root, "x"), None);
    assert_eq!(scoping.find_binding(block, "y"), None);
    assert_eq!(scoping.parent_scope(block), Some(function));
    assert_eq!(scoping.parent_scope(root), None);
    assert_eq!(scoping.scope_of(x), function);
}

#[test]
fn generate_uid_skips_visible_and_generated_names() {
    let mut scoping = Scoping::new(NodeId(0));
    let root = scoping.root_scope_id();
    let scope = scoping.add_scope(root, ScopeKind::Function, NodeId(1));
    let temp = scoping.declare(scope, "temp", NodeId(2), variable());
    let mut ctx = TraverseCtx::new(scoping);
    let first = ctx.generate_uid("temp", scope);
    let second = ctx.generate_uid("temp", scope);
    assert_eq!(first.name, "temp2");
    assert_eq!(second.name, "temp3");
    assert_ne!(first.symbol_id, temp);
    assert_ne!(first.symbol_id, second.symbol_id);
    let scoping = ctx.into_scoping();
    assert_eq!(scoping.scope_of(first.symbol_id), scope);
    assert_eq!(scoping.scope_of(second.symbol_id), scope);
    assert_eq!(scoping.symbol_flags(first.symbol_id).kind, SymbolKind::Generated);
    assert_eq!(scoping.find_binding(scope, "temp2"), Some(first.symbol_id));
    assert_eq!(scoping.find_binding(scope, "temp3"), Some(second.symbol_id));
    assert_eq!(scoping.find_binding(scope, "temp"), Some(temp));
    assert_eq!(SymbolId(1), first.symbol_id);
    assert_eq!(ScopeId(1), scope);
    let _ = ReferenceFlags::Read;
}

#[test]
fn a_free_base_name_is_handed_out_as_it_is() {
    let mut ctx = TraverseCtx::new(Scoping::new(NodeId(0)));
    let bound = ctx.generate_uid_in_root_scope("temp");
    assert_eq!(bound.name, "temp");
    assert_eq!(bound.symbol_id, SymbolId(0));
    let scoping = ctx.into_scoping();
    assert_eq!(scoping.get_declaration(bound.symbol_id), NodeId::dummy());
    assert_eq!(scoping.get_root_binding("temp"), Some(bound.symbol_id));
}

#[test]
fn a_name_generated_in_one_scope_is_not_generated_again_in_another() {
    let mut scoping = Scoping::new(NodeId(0));
    let root = scoping.root_scope_id();
    let left = scoping.add_scope(root, ScopeKind::Function, NodeId(1));
    let right = scoping.add_scope(root, ScopeKind::Function, NodeId(2));
    let mut ctx = TraverseCtx::new(scoping);
    let first = ctx.generate_uid("ref", left);
    // `ref` is not visible from `right`, but this pass has generated it.
    let second = ctx.generate_uid("ref", right);
    assert_eq!(first.name, "ref");
    assert_eq!(second.name, "ref2");
    ctx.push_scope(right);
    assert_eq!(ctx.current_scope_id(), right);
    assert_eq!(ctx.scope_depth(), 2);
    let third = ctx.generate_uid_in_current_scope("ref");
    assert_eq!(third.name, "ref3");
    ctx.pop_scope();
    assert_eq!(ctx.current_scope_id(), root);
    let scoping = ctx.into_scoping();
    assert_eq!(scoping.scope_of(third.symbol_id), right);

    // A later pass starts with a clean memory: only what is visible counts.
    let mut ctx = TraverseCtx::new(scoping);
    let again = ctx.generate_uid("ref", root);
    assert_eq!(again.name, "ref");
}

#[test]
fn the_search_passes_by_every_taken_name() {
    let mut scoping = Scoping::new(NodeId(0));
    let root = scoping.root_scope_id();
    for name in ["t", "t2", "t3", "t4", "t5", "t6", "t7", "t8", "t9", "t11"] {
        scoping.declare(root, name, NodeId(1), variable());
    }
    let mut ctx = TraverseCtx::new(scoping);
    assert_eq!(ctx.generate_uid("t", root).name, "t10");
    assert_eq!(ctx.generate_uid("t", root).name, "t12");
    assert_eq!(ctx.generate_uid("", root).name, "");
    assert_eq!(ctx.generate_uid("", root).name, "2");
}

#[test]
fn a_pass_registers_the_bindings_and_uses_it_inserts() {
    let mut scoping = Scoping::new(NodeId(0));
    let root = scoping.root_scope_id();
    let inner = scoping.add_scope(root, ScopeKind::Block, NodeId(1));
    let mut ctx = TraverseCtx::new(scoping);
    let bound = ctx.generate_binding("inserted".to_string(), inner, variable());
    assert_eq!(bound.name, "inserted");
    ctx.push_scope(inner);
    let resolved = ctx.create_reference_in_current_scope(
        jscore::span::Span::new(4, 12),
        "inserted".to_string(),
        ReferenceFlags::Write,
    );
    let free = ctx.create_reference_id(
        jscore::span::Span::synthesized(),
        "elsewhere".to_string(),
        None,
        ReferenceFlags::Read,
    );
    assert_eq!(resolved.name, "inserted");
    assert_eq!(resolved.span, jscore::span::Span::new(4, 12));
    assert_eq!(resolved.reference_id, Some(jscore::syntax::ReferenceId(0)));
    assert_eq!(free.reference_id, Some(jscore::syntax::ReferenceId(1)));
    let scoping = ctx.scoping();
    assert_eq!(scoping.references_of(bound.symbol_id), &vec![jscore::syntax::ReferenceId(0)]);
    assert_eq!(scoping.get_reference(jscore::syntax::ReferenceId(0)).flags, ReferenceFlags::Write);
    assert!(scoping.get_reference(jscore::syntax::ReferenceId(1)).is_unresolved());
    // A binding inserted under a name that was generated is not in the
    // way of the name it shadows nothing of.
    assert_eq!(scoping.find_binding(root, "inserted"), None);
}

#[test]
fn an_inserted_function_scoped_binding_is_hoisted() {
    let mut scoping = Scoping::new(NodeId(0));
    let root = scoping.root_scope_id();
    let function = scoping.add_scope(root, ScopeKind::Function, NodeId(1));
    let block = scoping.add_scope(function, ScopeKind::Block, NodeId(2));
    let mut ctx = TraverseCtx::new(scoping);
    let hoisted = ctx.generate_binding(
        "v".to_string(),
        block,
        SymbolFlags { function_scoped: true, ..variable() },
    );
    let local = ctx.generate_binding("l".to_string(), block, variable());
    let scoping = ctx.into_scoping();
    assert_eq!(scoping.scope_of(hoisted.symbol_id), function);
    assert_eq!(scoping.scope_of(local.symbol_id), block);
}
