//! Rule: an effect must not set the state it depends on.
//!
//! A `useEffect` callback that sets a piece of state which is also in the
//! effect's dependency array runs again after every run. The rule finds,
//! for a call of `useEffect`, the state variables among its dependencies
//! together with their setters: the pairs `[state, setState]` that a
//! `useState` call in the same component declared.

use crate::ast::kind::AstKind;
use crate::ast::nodes::{
    ArrayExpression, ArrayExpressionElement, ArrayPattern, BindingIdentifier, BindingPatternKind,
    CallExpression, Expression, IdentifierReference, VariableDeclarator,
};
use crate::linter::ast_util::{get_symbol_id_of_variable, symbol_of_variable};
use crate::linter::context::LintContext;
use crate::semantic::model::ScopingModel;
use crate::semantic::nodes::{AstNode, AstNodes};
use crate::syntax::{ScopeId, SymbolId};
use vstd::prelude::*;

verus! {

/// The rule.
#[derive(Debug, Default, Clone, Copy)]
pub struct NoInfiniteRerenderLoop;

impl NoInfiniteRerenderLoop {
    /// The name of the rule.
    pub const NAME: &'static str = "no-infinite-rerender-loop";
}

/// A state variable and its setter, as one `useState` declaration binds
/// them.
pub struct StateDependency<'a> {
    pub state: &'a BindingIdentifier,
    pub set_state: &'a BindingIdentifier,
}

/// Whether `call` is a call of `useEffect` with a callback and a
/// dependency array: the callee goes by the name `useEffect`, there are
/// two arguments, neither a spread, the first is a function and the
/// second an array, both looked at through parentheses and type
/// annotations.
pub open spec fn is_effect_with_deps(call: CallExpression) -> bool {
    &&& call.spec_callee_name() == Some("useEffect"@)
    &&& call.arguments@.len() == 2
    &&& call.arguments@[0] matches crate::ast::nodes::Argument::Expression(callback)
    &&& call.arguments@[1] matches crate::ast::nodes::Argument::Expression(deps)
    &&& (callback.spec_get_inner_expression() is ArrowFunctionExpression
        || callback.spec_get_inner_expression() is FunctionExpression)
    &&& deps.spec_get_inner_expression() is ArrayExpression
}

/// The identifier at the root of `expression`: the expression itself, or
/// the leftmost object of a chain of member accesses.
pub open spec fn base_object(expression: Expression) -> Option<IdentifierReference>
    decreases expression,
{
    match expression {
        Expression::Identifier(ident) => Some(*ident),
        Expression::ComputedMemberExpression(m) => base_object(m.object),
        Expression::StaticMemberExpression(m) => base_object(m.object),
        Expression::PrivateFieldExpression(m) => base_object(m.object),
        _ => None,
    }
}

/// The identifier that `array` binds at position `index`, where that
/// element is a single identifier.
pub open spec fn id_at(array: ArrayPattern, index: int) -> Option<BindingIdentifier> {
    match array.elements@[index] {
        Some(pattern) => match pattern.kind {
            BindingPatternKind::BindingIdentifier(id) => Some(*id),
            _ => None,
        },
        None => None,
    }
}

/// Whether `declarator` has the form `[state, setState] = useState(..)`,
/// and binds `symbol` as the state.
pub open spec fn declares_state(declarator: VariableDeclarator, symbol: SymbolId) -> bool {
    &&& declarator.id.kind matches BindingPatternKind::ArrayPattern(pattern)
    &&& declarator.init matches Some(Expression::CallExpression(init))
    &&& init.spec_callee_name() == Some("useState"@)
    &&& pattern.elements@.len() == 2
    &&& pattern.rest is None
    &&& id_at(*pattern, 0) is Some
    &&& id_at(*pattern, 1) is Some
    &&& id_at(*pattern, 0).unwrap().symbol_id == Some(symbol)
}

/// The declarator that makes the dependency `dep` a state dependency of
/// an effect used in `component_scope`: `dep` resolved to a binding that
/// lives in that very scope and was declared, as the state, by a
/// declarator of the form `[state, setState] = useState(..)`.
pub open spec fn state_declarator<'a>(
    tables: ScopingModel,
    nodes: Seq<AstNode<'a>>,
    dep: IdentifierReference,
    component_scope: ScopeId,
) -> Option<VariableDeclarator> {
    match symbol_of_variable(tables, dep) {
        Some(symbol) => {
            if !tables.has_symbol(symbol) || tables.binding(symbol).scope != component_scope {
                None
            } else {
                let declaration = tables.binding(symbol).node;
                if declaration.0 >= nodes.len() {
                    None
                } else {
                    match nodes[declaration.0 as int].kind {
                        AstKind::VariableDeclarator(declarator) => if declares_state(
                            *declarator,
                            symbol,
                        ) {
                            Some(*declarator)
                        } else {
                            None
                        },
                        _ => None,
                    }
                }
            }
        },
        None => None,
    }
}

/// Whether `pair` is the state and setter that `declarator` binds.
pub open spec fn is_pair_of(pair: StateDependency<'_>, declarator: VariableDeclarator) -> bool {
    &&& declarator.id.kind matches BindingPatternKind::ArrayPattern(pattern)
    &&& pattern.elements@.len() == 2
    &&& Some(*pair.state) == id_at(*pattern, 0)
    &&& Some(*pair.set_state) == id_at(*pattern, 1)
}

/// The callback and the dependency array of a `useEffect` call. `None`
/// if `expr` is no call of `useEffect`, or has no dependency array.
pub fn use_effect_callback_and_deps<'c>(expr: &'c CallExpression) -> (found: Option<
    (&'c Expression, &'c ArrayExpression),
>)
    ensures
        found is Some == is_effect_with_deps(*expr),
        found is Some ==> {
            &&& expr.arguments@[0] == crate::ast::nodes::Argument::Expression(*found.unwrap().0)
            &&& expr.arguments@[1] matches crate::ast::nodes::Argument::Expression(deps)
            &&& deps.spec_get_inner_expression() == Expression::ArrayExpression(
                Box::new(*found.unwrap().1),
            )
        },
{
    let name = match expr.callee_name() {
        Some(name) => name,
        None => {
            return None;
        },
    };
    if !name.eq("useEffect") {
        return None;
    }
    if expr.arguments.len() != 2 {
        return None;
    }
    let cb = match expr.arguments[0].as_expression() {
        Some(cb) => cb,
        None => {
            return None;
        },
    };
    let deps = match expr.arguments[1].as_expression() {
        Some(deps) => deps,
        None => {
            return None;
        },
    };
    let is_function = match cb.get_inner_expression() {
        Expression::ArrowFunctionExpression(_) => true,
        Expression::FunctionExpression(_) => true,
        _ => false,
    };
    if !is_function {
        return None;
    }
    match deps.get_inner_expression() {
        Expression::ArrayExpression(array) => Some((cb, &**array)),
        _ => None,
    }
}

/// The identifier that `array` binds at position `index`, where that
/// element is a single identifier.
pub fn get_id_at<'arr>(array: &'arr ArrayPattern, index: usize) -> (identifier: Option<
    &'arr BindingIdentifier,
>)
    requires
        index < array.elements@.len(),
    ensures
        identifier is Some == id_at(*array, index as int) is Some,
        identifier is Some ==> *identifier.unwrap() == id_at(*array, index as int).unwrap(),
{
    match &array.elements[index] {
        Some(pattern) => pattern.get_binding_identifier(),
        None => None,
    }
}

/// The identifier at the root of `expr`: `foo` for `foo`, `bar` for
/// `bar.baz.qux`, nothing for anything that is neither an identifier nor
/// a member access.
pub fn get_base_object<'c>(expr: &'c Expression) -> (base: Option<&'c IdentifierReference>)
    ensures
        base is Some == base_object(*expr) is Some,
        base is Some ==> *base.unwrap() == base_object(*expr).unwrap(),
    decreases *expr,
{
    match expr {
        Expression::Identifier(ident) => Some(ident),
        Expression::ComputedMemberExpression(m) => get_base_object(&m.object),
        Expression::StaticMemberExpression(m) => get_base_object(&m.object),
        Expression::PrivateFieldExpression(m) => get_base_object(&m.object),
        _ => None,
    }
}

/// The state and its setter, if the dependency `dep` of an effect used in
/// `component_scope` is a state variable of that component.
///
/// A dependency that is itself the setter is none: calling it does not
/// run the effect again.
pub fn get_state_dependency<'a>(
    ctx: &LintContext<'a>,
    dep: &IdentifierReference,
    component_scope: ScopeId,
) -> (found: Option<StateDependency<'a>>)
    requires
        ctx.wf(),
    ensures
        found is Some == state_declarator(
            ctx.spec_scoping()@,
            ctx.spec_nodes()@,
            *dep,
            component_scope,
        ) is Some,
        found is Some ==> is_pair_of(
            found.unwrap(),
            state_declarator(ctx.spec_scoping()@, ctx.spec_nodes()@, *dep, component_scope).unwrap(),
        ),
{
    let scoping = ctx.scoping();
    let nodes: &'a AstNodes<'a> = ctx.nodes();
    let symbol_id = match get_symbol_id_of_variable(dep, scoping) {
        Some(symbol_id) => symbol_id,
        None => {
            return None;
        },
    };
    if !scoping.contains_symbol(symbol_id) {
        return None;
    }
    if scoping.scope_of(symbol_id) != component_scope {
        return None;
    }
    let declaration_id = scoping.get_declaration(symbol_id);
    if !nodes.contains(declaration_id) {
        return None;
    }
    let decl: &'a VariableDeclarator = match nodes.kind(declaration_id) {
        AstKind::VariableDeclarator(decl) => decl,
        _ => {
            return None;
        },
    };
    let declaration: &'a ArrayPattern = match &decl.id.kind {
        BindingPatternKind::ArrayPattern(pattern) => pattern,
        _ => {
            return None;
        },
    };
    let init = match &decl.init {
        Some(Expression::CallExpression(init)) => init,
        _ => {
            return None;
        },
    };
    let is_use_state = match init.callee_name() {
        Some(name) => name.eq("useState"),
        None => false,
    };
    if !is_use_state || declaration.elements.len() != 2 || declaration.rest.is_some() {
        return None;
    }
    let state = match get_id_at(declaration, 0) {
        Some(state) => state,
        None => {
            return None;
        },
    };
    let set_state = match get_id_at(declaration, 1) {
        Some(set_state) => set_state,
        None => {
            return None;
        },
    };
    match state.symbol_id {
        Some(state_id) => {
            if state_id != symbol_id {
                return None;
            }
        },
        None => {
            return None;
        },
    }
    Some(StateDependency { state, set_state })
}

/// The declarator that makes the element of a dependency array a state
/// dependency: the element is an expression, and the identifier at its
/// root is a state variable of the component.
pub open spec fn element_declarator<'a>(
    tables: ScopingModel,
    nodes: Seq<AstNode<'a>>,
    element: ArrayExpressionElement,
    component_scope: ScopeId,
) -> Option<VariableDeclarator> {
    match element {
        ArrayExpressionElement::Expression(e) => match base_object(e) {
            Some(ident) => state_declarator(tables, nodes, ident, component_scope),
            None => None,
        },
        _ => None,
    }
}

/// The declarators of the state dependencies among `elements`, in the
/// order of the elements.
pub open spec fn state_declarators<'a>(
    tables: ScopingModel,
    nodes: Seq<AstNode<'a>>,
    elements: Seq<ArrayExpressionElement>,
    component_scope: ScopeId,
) -> Seq<VariableDeclarator>
    decreases elements.len(),
{
    if elements.len() == 0 {
        Seq::empty()
    } else {
        let before = state_declarators(tables, nodes, elements.drop_last(), component_scope);
        match element_declarator(tables, nodes, elements.last(), component_scope) {
            Some(declarator) => before.push(declarator),
            None => before,
        }
    }
}

/// Whether `pairs` are the states and setters that `declarators` bind,
/// one for one.
pub open spec fn are_pairs_of(
    pairs: Seq<StateDependency<'_>>,
    declarators: Seq<VariableDeclarator>,
) -> bool {
    &&& pairs.len() == declarators.len()
    &&& forall|i: int| 0 <= i < pairs.len() ==> is_pair_of(#[trigger] pairs[i], declarators[i])
}

/// The declarators of the state dependencies that the rule finds at
/// `node`: those of the dependency array, where `node` is a call of
/// `useEffect` with a callback and a dependency array that stands
/// outside the program scope; none anywhere else.
pub open spec fn found_declarators<'a>(
    tables: ScopingModel,
    nodes: Seq<AstNode<'a>>,
    node: AstNode<'a>,
) -> Seq<VariableDeclarator> {
    match node.kind {
        AstKind::CallExpression(call) => if is_effect_with_deps(*call) && node.scope_id != ScopeId(
            0,
        ) {
            match call.arguments@[1] {
                crate::ast::nodes::Argument::Expression(deps) => match deps.spec_get_inner_expression() {
                    Expression::ArrayExpression(array) => state_declarators(
                        tables,
                        nodes,
                        array.elements@,
                        node.scope_id,
                    ),
                    _ => Seq::empty(),
                },
                _ => Seq::empty(),
            }
        } else {
            Seq::empty()
        },
        _ => Seq::empty(),
    }
}

/// The `[state, setState]` pairs whose state is used in the dependency
/// array `deps` of an effect used in `component_scope`, which is the body
/// of a component or of a custom hook.
///
/// Of each element of the array the identifier at its root counts:
/// `[foo, bar.baz, 'text', ...spread]` is looked at as `[foo, bar]`.
pub fn iter_state_dependencies<'a>(
    ctx: &LintContext<'a>,
    deps: &ArrayExpression,
    component_scope: ScopeId,
) -> (pairs: Vec<StateDependency<'a>>)
    requires
        ctx.wf(),
    ensures
        are_pairs_of(
            pairs@,
            state_declarators(
                ctx.spec_scoping()@,
                ctx.spec_nodes()@,
                deps.elements@,
                component_scope,
            ),
        ),
{
    let mut pairs: Vec<StateDependency<'a>> = Vec::new();
    let mut i: usize = 0;
    proof {
        assert(deps.elements@.take(0) =~= Seq::<ArrayExpressionElement>::empty());
    }
    while i < deps.elements.len()
        invariant
            ctx.wf(),
            i <= deps.elements.len(),
            are_pairs_of(
                pairs@,
                state_declarators(
                    ctx.spec_scoping()@,
                    ctx.spec_nodes()@,
                    deps.elements@.take(i as int),
                    component_scope,
                ),
            ),
        decreases deps.elements.len() - i,
    {
        proof {
            assert(deps.elements@.take(i + 1).drop_last() =~= deps.elements@.take(i as int));
            assert(deps.elements@.take(i + 1).last() == deps.elements@[i as int]);
        }
        match deps.elements[i].as_expression() {
            Some(e) => match get_base_object(e) {
                Some(ident) => match get_state_dependency(ctx, ident, component_scope) {
                    Some(pair) => {
                        pairs.push(pair);
                    },
                    None => {},
                },
                None => {},
            },
            None => {},
        }
        i += 1;
    }
    proof {
        assert(deps.elements@.take(i as int) =~= deps.elements@);
    }
    pairs
}

impl NoInfiniteRerenderLoop {
    /// The `[state, setState]` pairs that the rule finds at `node`: where
    /// `node` is a call of `useEffect` inside a component or a custom
    /// hook, the state variables of that component among the effect's
    /// dependencies, each with its setter.
    pub fn run<'a>(&self, node: &AstNode<'a>, ctx: &LintContext<'a>) -> (pairs: Vec<
        StateDependency<'a>,
    >)
        requires
            ctx.wf(),
        ensures
            are_pairs_of(pairs@, found_declarators(ctx.spec_scoping()@, ctx.spec_nodes()@, *node)),
    {
        let call = match node.kind() {
            AstKind::CallExpression(call) => call,
            _ => {
                return Vec::new();
            },
        };
        let deps = match use_effect_callback_and_deps(call) {
            Some((_, deps)) => deps,
            None => {
                return Vec::new();
            },
        };
        let used_in_scope = node.scope_id();
        if used_in_scope == ctx.scoping().root_scope_id() {
            return Vec::new();
        }
        iter_state_dependencies(ctx, deps, used_in_scope)
    }
}

} // verus!
