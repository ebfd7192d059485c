use jscore::ast::nodes::{Argument, Expression, NumericLiteral, Program};
use jscore::semantic::scoping::Scoping;
use jscore::span::Span;
use jscore::syntax::{
    NodeId, ReferenceFlags, ReferenceId, ScopeId, ScopeKind, SymbolFlags, SymbolId, SymbolKind,
};
use jscore::transformer::helper_loader::options::{
    default_as_module_name, HelperLoaderMode, HelperLoaderOptions,
};
use jscore::transformer::helper_loader::store::{HelperLoader, HelperLoaderStore};
use jscore::transformer::helpers::loader::HelperLoader as ImportingHelperLoader;
use jscore::transformer::module_imports::{ModuleImports, NamedImport};
use jscore::transformer::options::{
    BabelOptions, BabelPlugins, CompilerAssumptions, EnvOptions, JsxOptions, JsxRuntime, Preset,
    ReactRefreshOptions, TransformOptions, TypeScriptOptions,
};
use jscore::transformer::regexp::RegExpOptions;
use jscore::traverse::context::TraverseCtx;
use jscore::traverse::walk::walk_program;
use std::borrow::Cow;

fn options(mode: HelperLoaderMode) -> HelperLoaderOptions {
    HelperLoaderOptions { module_name: Cow::Borrowed("@babel/runtime"), mode }
}

fn name_of(expression: &Expression) -> (&str, Option<ReferenceId>) {
    match expression {
        Expression::Identifier(i) => (i.name.as_str(), i.reference_id),
        other => panic!("not an identifier: {other:?}"),
    }
}

#[test]
fn helper_loader_options_default_to_the_runtime_package() {
    let defaults = HelperLoaderOptions::default();
    assert_eq!(defaults.module_name, "@babel/runtime");
    assert_eq!(defaults.mode, HelperLoaderMode::Runtime);
    assert_eq!(HelperLoaderMode::default(), HelperLoaderMode::Runtime);
    assert_eq!(default_as_module_name(), "@babel/runtime");
}

#[test]
fn a_runtime_helper_is_imported_once_under_a_fresh_name() {
    let mut scoping = Scoping::new(NodeId(0));
    let taken = scoping.declare(
        ScopeId(0),
        "objectSpread",
        NodeId(1),
        SymbolFlags::of_kind(SymbolKind::Variable),
    );
    let inner = scoping.add_scope(ScopeId(0), ScopeKind::Function, NodeId(2));
    let mut ctx = TraverseCtx::new(scoping);
    ctx.push_scope(inner);
    let mut store = HelperLoaderStore::new(&options(HelperLoaderMode::Runtime));
    assert_eq!(store.mode(), HelperLoaderMode::Runtime);

    let first = store.get_callee("objectSpread", &mut ctx);
    let second = store.get_callee("objectSpread", &mut ctx);
    let other = store.get_callee("extends", &mut ctx);
    assert_eq!(name_of(&first), ("objectSpread2", Some(ReferenceId(0))));
    assert_eq!(name_of(&second), ("objectSpread2", Some(ReferenceId(1))));
    assert_eq!(name_of(&other), ("extends", Some(ReferenceId(2))));
    match &first {
        Expression::Identifier(i) => assert_eq!(i.span, Span::synthesized()),
        other => panic!("not an identifier: {other:?}"),
    }

    let imports = store.imports();
    assert_eq!(imports.len(), 2);
    assert_eq!(imports[0].source, "@babel/runtime/helpers/objectSpread");
    assert_eq!(imports[0].import, NamedImport::new("objectSpread2".to_string(), None, SymbolId(1)));
    assert_eq!(imports[1].source, "@babel/runtime/helpers/extends");
    assert_eq!(imports[1].import.imported, "extends");

    let scoping = ctx.into_scoping();
    let helper = SymbolId(1);
    assert_ne!(helper, taken);
    assert_eq!(scoping.scope_of(helper), ScopeId(0));
    assert_eq!(scoping.symbol_flags(helper).kind, SymbolKind::Generated);
    assert_eq!(scoping.references_of(helper), &vec![ReferenceId(0), ReferenceId(1)]);
    assert_eq!(scoping.get_reference(ReferenceId(0)).flags, ReferenceFlags::Read);
    assert_eq!(scoping.get_reference(ReferenceId(2)).symbol_id(), Some(SymbolId(2)));
}

#[test]
fn an_external_helper_is_read_off_the_helper_object() {
    let mut scoping = Scoping::new(NodeId(0));
    let inner = scoping.add_scope(ScopeId(0), ScopeKind::Function, NodeId(1));
    let local = scoping.declare(
        inner,
        "babelHelpers",
        NodeId(2),
        SymbolFlags::of_kind(SymbolKind::Variable),
    );
    let mut ctx = TraverseCtx::new(scoping);
    ctx.push_scope(inner);

    let mut store = HelperLoaderStore::new(&options(HelperLoaderMode::External));
    let call = store.call(
        "extends",
        vec![Argument::Expression(Expression::NumericLiteral(Box::new(NumericLiteral {
            span: Span::new(1, 2),
            raw: "1".to_string(),
        })))],
        &mut ctx,
    );
    assert_eq!(call.span, Span::synthesized());
    assert_eq!(call.arguments.len(), 1);
    assert!(!call.optional);
    let member = match &call.callee {
        Expression::StaticMemberExpression(m) => m,
        other => panic!("not a member access: {other:?}"),
    };
    assert_eq!(member.property.name, "extends");
    assert!(!member.optional);
    assert_eq!(name_of(&member.object), ("babelHelpers", Some(ReferenceId(0))));
    assert!(store.imports().is_empty());

    // The other loader looks only at the program scope, where the name is free.
    let mut importing =
        ImportingHelperLoader::new(&options(HelperLoaderMode::External), ModuleImports::new());
    let expression = importing.call_expr("extends", Vec::new(), &mut ctx);
    let callee = match &expression {
        Expression::CallExpression(call) => &call.callee,
        other => panic!("not a call: {other:?}"),
    };
    let object = match callee {
        Expression::StaticMemberExpression(m) => &m.object,
        other => panic!("not a member access: {other:?}"),
    };
    assert_eq!(name_of(object), ("babelHelpers", Some(ReferenceId(1))));

    let scoping = ctx.into_scoping();
    assert_eq!(scoping.get_reference(ReferenceId(0)).symbol_id(), Some(local));
    assert!(scoping.get_reference(ReferenceId(1)).is_unresolved());
}

#[test]
fn the_importing_loader_asks_for_imports_at_once() {
    let mut ctx = TraverseCtx::new(Scoping::new(NodeId(0)));
    let custom = HelperLoaderOptions {
        module_name: Cow::Owned("my-runtime".to_string()),
        mode: HelperLoaderMode::Runtime,
    };
    let mut loader = ImportingHelperLoader::new(&custom, ModuleImports::new());
    let callee = loader.get_callee("defineProperty", &mut ctx);
    assert_eq!(name_of(&callee).0, "defineProperty");
    loader.get_callee("defineProperty", &mut ctx);
    let asked = loader.module_imports().imports();
    assert_eq!(asked.len(), 1);
    assert_eq!(asked[0].source, "my-runtime/helpers/defineProperty");
    assert_eq!(asked[0].import.symbol_id, SymbolId(0));
}

#[test]
fn imports_are_handed_over_when_the_walk_leaves_the_program() {
    let mut ctx = TraverseCtx::new(Scoping::new(NodeId(0)));
    let mut store = HelperLoaderStore::new(&options(HelperLoaderMode::Runtime));
    store.get_callee("a", &mut ctx);
    store.get_callee("b", &mut ctx);
    store.get_callee("c", &mut ctx);
    let mut imports = ModuleImports::new();
    imports.add_import("first".to_string(), NamedImport::new("x".to_string(), None, SymbolId(9)), false);
    imports.add_import("zeroth".to_string(), NamedImport::new("y".to_string(), None, SymbolId(9)), true);
    let mut pass = HelperLoader::new(store, imports);
    let mut tree =
        Program { span: Span::new(0, 0), source_text: "", body: Vec::new(), scope_id: None };
    walk_program(&mut pass, &mut tree, &mut ctx, 4);
    let sources: Vec<&str> =
        pass.module_imports.imports().iter().map(|e| e.source.as_str()).collect();
    assert_eq!(
        sources,
        vec![
            "zeroth",
            "first",
            "@babel/runtime/helpers/a",
            "@babel/runtime/helpers/b",
            "@babel/runtime/helpers/c",
        ]
    );
    assert!(pass.store.imports().is_empty());
    pass.insert_into_program();
    assert_eq!(pass.module_imports.imports().len(), 5);
}

#[test]
fn enable_all_switches_everything_on() {
    let all = TransformOptions::enable_all();
    assert_eq!(all.cwd, "");
    assert_eq!(all.assumptions, CompilerAssumptions::default());
    assert_eq!(all.typescript, TypeScriptOptions::default());
    assert!(all.jsx.development);
    assert_eq!(all.jsx.refresh, Some(ReactRefreshOptions::default()));
    assert_eq!(
        all.jsx,
        JsxOptions {
            development: true,
            refresh: Some(ReactRefreshOptions::default()),
            ..JsxOptions::default()
        }
    );
    assert_eq!(all.env, EnvOptions::enable_all());
    assert!(all.env.regexp.named_capture_groups && all.env.class_static_block);
    assert_eq!(all.helper_loader.mode, HelperLoaderMode::Runtime);
    assert_eq!(all.helper_loader.module_name, "@babel/runtime");

    let defaults = TransformOptions::default();
    assert_eq!(defaults.env, EnvOptions::default());
    assert_eq!(defaults.env.regexp, RegExpOptions::default());
    assert_eq!(defaults.jsx.runtime, JsxRuntime::Automatic);
    assert!(defaults.jsx.jsx_plugin && defaults.jsx.display_name_plugin && defaults.jsx.pure);
    assert_eq!(defaults.typescript.jsx_pragma, "React.createElement");
    assert_eq!(defaults.typescript.jsx_pragma_frag, "React.Fragment");
    assert_eq!(ReactRefreshOptions::default().refresh_reg, "$RefreshReg$");
    assert_eq!(ReactRefreshOptions::default().refresh_sig, "$RefreshSig$");
}

fn babel() -> BabelOptions {
    BabelOptions {
        cwd: None,
        assumptions: None,
        plugins: BabelPlugins {
            errors: Vec::new(),
            typescript: None,
            react_jsx: None,
            react_jsx_dev: None,
            react_display_name: false,
            react_jsx_self: false,
            react_jsx_source: false,
        },
        typescript_preset: Preset::Absent,
        react_preset: Preset::Absent,
        env: Ok(EnvOptions::default()),
        external_helpers: false,
    }
}

#[test]
fn babel_options_without_faults_give_transform_options() {
    let made = TransformOptions::try_from(babel()).unwrap();
    assert_eq!(made.cwd, "");
    assert_eq!(made.typescript, TypeScriptOptions::default());
    assert_eq!(
        made.jsx,
        JsxOptions { jsx_plugin: false, display_name_plugin: false, ..JsxOptions::default() }
    );
    assert_eq!(made.helper_loader.mode, HelperLoaderMode::Runtime);

    let mut written = babel();
    written.cwd = Some("/work".to_string());
    written.assumptions =
        Some(Ok(CompilerAssumptions { pure_getters: true, ..CompilerAssumptions::default() }));
    written.plugins.typescript =
        Some(TypeScriptOptions { allow_namespaces: true, ..TypeScriptOptions::default() });
    written.plugins.react_jsx =
        Some(JsxOptions { runtime: JsxRuntime::Classic, ..JsxOptions::default() });
    written.plugins.react_jsx_dev =
        Some(JsxOptions { pragma: Some("h".to_string()), ..JsxOptions::default() });
    written.plugins.react_jsx_source = true;
    written.env = Ok(EnvOptions::enable_all());
    written.external_helpers = true;
    let made = TransformOptions::try_from(written).unwrap();
    assert_eq!(made.cwd, "/work");
    assert!(made.assumptions.pure_getters);
    assert!(made.typescript.allow_namespaces);
    assert_eq!(
        made.jsx,
        JsxOptions {
            pragma: Some("h".to_string()),
            development: true,
            jsx_plugin: true,
            display_name_plugin: false,
            jsx_self_plugin: false,
            jsx_source_plugin: true,
            ..JsxOptions::default()
        }
    );
    assert_eq!(made.env, EnvOptions::enable_all());
    assert_eq!(made.helper_loader.mode, HelperLoaderMode::External);
    assert_eq!(made.helper_loader.module_name, "@babel/runtime");

    let mut presets = babel();
    presets.plugins.typescript =
        Some(TypeScriptOptions { allow_namespaces: true, ..TypeScriptOptions::default() });
    presets.typescript_preset = Preset::Bare;
    presets.plugins.react_jsx = Some(JsxOptions::default());
    presets.react_preset =
        Preset::Options(Ok(JsxOptions { pure: false, ..JsxOptions::default() }));
    let made = TransformOptions::try_from(presets).unwrap();
    assert_eq!(made.typescript, TypeScriptOptions::default());
    assert_eq!(made.jsx, JsxOptions { pure: false, ..JsxOptions::default() });

    let mut preset = babel();
    preset.typescript_preset = Preset::Options(Ok(TypeScriptOptions {
        only_remove_type_imports: true,
        ..TypeScriptOptions::default()
    }));
    preset.react_preset = Preset::Bare;
    preset.plugins.react_jsx = Some(JsxOptions::default());
    let made = TransformOptions::try_from(preset).unwrap();
    assert!(made.typescript.only_remove_type_imports);
    assert!(made.jsx.jsx_plugin && !made.jsx.development);

    let mut silent = babel();
    silent.env = Err(Vec::new());
    assert_eq!(TransformOptions::try_from(silent).unwrap().env, EnvOptions::default());
}

#[test]
fn babel_options_with_faults_give_all_the_faults_in_order() {
    let mut faulty = babel();
    faulty.plugins.errors = vec!["unknown plugin a".to_string(), "unknown plugin b".to_string()];
    faulty.assumptions = Some(Err("invalid type: string".to_string()));
    faulty.typescript_preset = Preset::Options(Err("unknown field `x`".to_string()));
    faulty.react_preset = Preset::Options(Err("missing field".to_string()));
    faulty.env = Err(vec!["bad target".to_string(), "bad browser".to_string()]);
    let errors = TransformOptions::try_from(faulty).unwrap_err();
    assert_eq!(
        errors,
        vec![
            "unknown plugin a",
            "unknown plugin b",
            "invalid type: string",
            "preset-typescript: unknown field `x`",
            "preset-react: missing field",
            "bad target",
            "bad browser",
        ]
    );

    let mut one = babel();
    one.react_preset = Preset::Options(Err("nope".to_string()));
    assert_eq!(TransformOptions::try_from(one).unwrap_err(), vec!["preset-react: nope"]);
    let mut one = babel();
    one.env = Err(vec!["bad target".to_string()]);
    assert_eq!(TransformOptions::try_from(one).unwrap_err(), vec!["bad target"]);
}
