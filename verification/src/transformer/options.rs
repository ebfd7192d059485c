//! Options of the transformer, and how they are made from Babel's.

use crate::transformer::helper_loader::options::{HelperLoaderMode, HelperLoaderOptions};
use crate::transformer::regexp::RegExpOptions;
use vstd::prelude::*;
use vstd::string::StringExecFns;

verus! {

/// What the output may take for granted about the program, in order to be
/// smaller.
#[derive(Debug, Clone, Copy, PartialEq, Eq, Structural)]
pub struct CompilerAssumptions {
    pub ignore_function_length: bool,
    pub no_document_all: bool,
    pub object_rest_no_symbols: bool,
    pub pure_getters: bool,
    pub set_public_class_fields: bool,
}

impl CompilerAssumptions {
    /// Nothing is taken for granted.
    pub open spec fn none() -> CompilerAssumptions {
        CompilerAssumptions {
            ignore_function_length: false,
            no_document_all: false,
            object_rest_no_symbols: false,
            pure_getters: false,
            set_public_class_fields: false,
        }
    }
}

impl Default for CompilerAssumptions {
    /// Nothing is taken for granted.
    fn default() -> (assumptions: CompilerAssumptions)
        ensures
            assumptions == CompilerAssumptions::none(),
    {
        CompilerAssumptions {
            ignore_function_length: false,
            no_document_all: false,
            object_rest_no_symbols: false,
            pure_getters: false,
            set_public_class_fields: false,
        }
    }
}

/// Options of the TypeScript transform.
#[derive(Debug, PartialEq)]
pub struct TypeScriptOptions {
    /// What JSX elements compile to calls of.
    pub jsx_pragma: String,
    /// What JSX fragments compile to.
    pub jsx_pragma_frag: String,
    pub only_remove_type_imports: bool,
    pub allow_namespaces: bool,
    pub allow_declare_fields: bool,
    pub optimize_const_enums: bool,
}

impl TypeScriptOptions {
    /// Whether these are the options that apply when none are written.
    pub open spec fn is_default(&self) -> bool {
        &&& self.jsx_pragma@ == "React.createElement"@
        &&& self.jsx_pragma_frag@ == "React.Fragment"@
        &&& !self.only_remove_type_imports
        &&& !self.allow_namespaces
        &&& !self.allow_declare_fields
        &&& !self.optimize_const_enums
    }
}

impl Default for TypeScriptOptions {
    fn default() -> (options: TypeScriptOptions)
        ensures
            options.is_default(),
    {
        TypeScriptOptions {
            jsx_pragma: "React.createElement".to_owned(),
            jsx_pragma_frag: "React.Fragment".to_owned(),
            only_remove_type_imports: false,
            allow_namespaces: false,
            allow_declare_fields: false,
            optimize_const_enums: false,
        }
    }
}

/// Options of the React fast-refresh transform.
#[derive(Debug, PartialEq)]
pub struct ReactRefreshOptions {
    /// The function that components are registered with.
    pub refresh_reg: String,
    /// The function that hook signatures are collected with.
    pub refresh_sig: String,
    pub emit_full_signatures: bool,
}

impl ReactRefreshOptions {
    /// Whether these are the options that apply when none are written.
    pub open spec fn is_default(&self) -> bool {
        &&& self.refresh_reg@ == "$RefreshReg$"@
        &&& self.refresh_sig@ == "$RefreshSig$"@
        &&& !self.emit_full_signatures
    }
}

impl Default for ReactRefreshOptions {
    fn default() -> (options: ReactRefreshOptions)
        ensures
            options.is_default(),
    {
        ReactRefreshOptions {
            refresh_reg: "$RefreshReg$".to_owned(),
            refresh_sig: "$RefreshSig$".to_owned(),
            emit_full_signatures: false,
        }
    }
}

/// Which code JSX compiles to.
#[derive(Debug, Clone, Copy, PartialEq, Eq, Structural)]
pub enum JsxRuntime {
    /// Calls of the pragma.
    Classic,
    /// Calls of functions imported from the JSX runtime.
    Automatic,
}

/// Options of the JSX transform.
#[derive(Debug, PartialEq)]
pub struct JsxOptions {
    /// Whether JSX is compiled at all.
    pub jsx_plugin: bool,
    /// Whether components get a `displayName`.
    pub display_name_plugin: bool,
    /// Whether elements get `__self`.
    pub jsx_self_plugin: bool,
    /// Whether elements get `__source`.
    pub jsx_source_plugin: bool,
    pub runtime: JsxRuntime,
    /// Whether the output is for development.
    pub development: bool,
    pub throw_if_namespace: bool,
    pub pure: bool,
    pub import_source: Option<String>,
    pub pragma: Option<String>,
    pub pragma_frag: Option<String>,
    /// Fast refresh, where it is wanted.
    pub refresh: Option<ReactRefreshOptions>,
}

impl JsxOptions {
    /// Whether these are the options that apply when none are written,
    /// but for the two flags given.
    pub open spec fn is_default_but(&self, development: bool, refresh: bool) -> bool {
        &&& self.jsx_plugin
        &&& self.display_name_plugin
        &&& !self.jsx_self_plugin
        &&& !self.jsx_source_plugin
        &&& self.runtime == JsxRuntime::Automatic
        &&& self.development == development
        &&& self.throw_if_namespace
        &&& self.pure
        &&& self.import_source is None
        &&& self.pragma is None
        &&& self.pragma_frag is None
        &&& if refresh {
            self.refresh is Some && self.refresh.unwrap().is_default()
        } else {
            self.refresh is None
        }
    }

    /// Whether these are the options that apply when none are written.
    pub open spec fn is_default(&self) -> bool {
        self.is_default_but(false, false)
    }
}

impl Default for JsxOptions {
    fn default() -> (options: JsxOptions)
        ensures
            options.is_default(),
    {
        JsxOptions {
            jsx_plugin: true,
            display_name_plugin: true,
            jsx_self_plugin: false,
            jsx_source_plugin: false,
            runtime: JsxRuntime::Automatic,
            development: false,
            throw_if_namespace: true,
            pure: true,
            import_source: None,
            pragma: None,
            pragma_frag: None,
            refresh: None,
        }
    }
}

/// Which language features the target lacks, so that they are compiled
/// away.
#[derive(Debug, Clone, Copy, PartialEq, Eq, Structural)]
pub struct EnvOptions {
    pub regexp: RegExpOptions,
    pub arrow_function: bool,
    pub exponentiation_operator: bool,
    pub async_to_generator: bool,
    pub object_rest_spread: bool,
    pub async_generator_functions: bool,
    pub optional_catch_binding: bool,
    pub nullish_coalescing_operator: bool,
    pub logical_assignment_operators: bool,
    pub class_static_block: bool,
}

impl EnvOptions {
    /// Every feature has the given setting.
    pub open spec fn all(on: bool) -> EnvOptions {
        EnvOptions {
            regexp: RegExpOptions {
                sticky_flag: on,
                unicode_flag: on,
                dot_all_flag: on,
                look_behind_assertions: on,
                named_capture_groups: on,
                unicode_property_escapes: on,
                match_indices: on,
                set_notation: on,
            },
            arrow_function: on,
            exponentiation_operator: on,
            async_to_generator: on,
            object_rest_spread: on,
            async_generator_functions: on,
            optional_catch_binding: on,
            nullish_coalescing_operator: on,
            logical_assignment_operators: on,
            class_static_block: on,
        }
    }

    /// Every feature is compiled away.
    pub fn enable_all() -> (options: EnvOptions)
        ensures
            options == EnvOptions::all(true),
    {
        EnvOptions {
            regexp: RegExpOptions {
                sticky_flag: true,
                unicode_flag: true,
                dot_all_flag: true,
                look_behind_assertions: true,
                named_capture_groups: true,
                unicode_property_escapes: true,
                match_indices: true,
                set_notation: true,
            },
            arrow_function: true,
            exponentiation_operator: true,
            async_to_generator: true,
            object_rest_spread: true,
            async_generator_functions: true,
            optional_catch_binding: true,
            nullish_coalescing_operator: true,
            logical_assignment_operators: true,
            class_static_block: true,
        }
    }
}

impl Default for EnvOptions {
    /// No feature is compiled away.
    fn default() -> (options: EnvOptions)
        ensures
            options == EnvOptions::all(false),
    {
        EnvOptions {
            regexp: RegExpOptions::default(),
            arrow_function: false,
            exponentiation_operator: false,
            async_to_generator: false,
            object_rest_spread: false,
            async_generator_functions: false,
            optional_catch_binding: false,
            nullish_coalescing_operator: false,
            logical_assignment_operators: false,
            class_static_block: false,
        }
    }
}

/// Options of the transformer.
#[derive(Debug)]
pub struct TransformOptions {
    /// The directory that paths in the options are relative to.
    pub cwd: String,
    pub assumptions: CompilerAssumptions,
    pub typescript: TypeScriptOptions,
    pub jsx: JsxOptions,
    pub env: EnvOptions,
    pub helper_loader: HelperLoaderOptions,
}

impl Default for TransformOptions {
    fn default() -> (options: TransformOptions)
        ensures
            options.cwd@ == Seq::<char>::empty(),
            options.assumptions == CompilerAssumptions::none(),
            options.typescript.is_default(),
            options.jsx.is_default(),
            options.env == EnvOptions::all(false),
            options.helper_loader.module_name@ == "@babel/runtime"@,
            options.helper_loader.mode == HelperLoaderMode::Runtime,
    {
        TransformOptions {
            cwd: String::new(),
            assumptions: CompilerAssumptions::default(),
            typescript: TypeScriptOptions::default(),
            jsx: JsxOptions::default(),
            env: EnvOptions::default(),
            helper_loader: HelperLoaderOptions::default(),
        }
    }
}

impl TransformOptions {
    /// Options with every transform that is ready switched on: the JSX
    /// transform in development mode with fast refresh, every language
    /// feature compiled away, helpers imported from the runtime package.
    pub fn enable_all() -> (options: TransformOptions)
        ensures
            options.cwd@ == Seq::<char>::empty(),
            options.assumptions == CompilerAssumptions::none(),
            options.typescript.is_default(),
            options.jsx.is_default_but(true, true),
            options.env == EnvOptions::all(true),
            options.helper_loader.module_name@ == "@babel/runtime"@,
            options.helper_loader.mode == HelperLoaderMode::Runtime,
    {
        let mut jsx = JsxOptions::default();
        jsx.development = true;
        jsx.refresh = Some(ReactRefreshOptions::default());
        let mut helper_loader = HelperLoaderOptions::default();
        helper_loader.mode = HelperLoaderMode::Runtime;
        TransformOptions {
            cwd: String::new(),
            assumptions: CompilerAssumptions::default(),
            typescript: TypeScriptOptions::default(),
            jsx,
            env: EnvOptions::enable_all(),
            helper_loader,
        }
    }
}

/// What a preset of the Babel options holds.
#[derive(Debug)]
pub enum Preset<T> {
    /// The preset is not named.
    Absent,
    /// The preset is named without options.
    Bare,
    /// The preset is named with options: the options as decoded, or what
    /// the decoder said was wrong with them.
    Options(Result<T, String>),
}

/// The plugins that the Babel options name.
#[derive(Debug)]
pub struct BabelPlugins {
    /// What was wrong with the plugin list, one message for each fault.
    pub errors: Vec<String>,
    pub typescript: Option<TypeScriptOptions>,
    pub react_jsx: Option<JsxOptions>,
    pub react_jsx_dev: Option<JsxOptions>,
    pub react_display_name: bool,
    pub react_jsx_self: bool,
    pub react_jsx_source: bool,
}

/// Babel's options, as far as the transformer reads them, with every
/// value that needed decoding already decoded.
#[derive(Debug)]
pub struct BabelOptions {
    pub cwd: Option<String>,
    /// `None` where the options hold no assumptions; otherwise the
    /// assumptions as decoded, or what the decoder said was wrong.
    pub assumptions: Option<Result<CompilerAssumptions, String>>,
    pub plugins: BabelPlugins,
    pub typescript_preset: Preset<TypeScriptOptions>,
    pub react_preset: Preset<JsxOptions>,
    /// The features to compile away as the targets ask, or what was
    /// wrong with the targets.
    pub env: Result<EnvOptions, Vec<String>>,
    pub external_helpers: bool,
}

/// The message for options of the preset `name` that did not decode.
pub open spec fn preset_error(name: Seq<char>, error: Seq<char>) -> Seq<char> {
    "preset-"@ + name + ": "@ + error
}

/// The fault in a decoded value, if there is one.
pub open spec fn fault<T>(decoded: Option<Result<T, String>>) -> Seq<Seq<char>> {
    match decoded {
        Some(Err(error)) => seq![error@],
        _ => Seq::empty(),
    }
}

/// The fault in the options of the preset `name`, if there is one.
pub open spec fn preset_fault<T>(name: Seq<char>, preset: Preset<T>) -> Seq<Seq<char>> {
    match preset {
        Preset::Options(Err(error)) => seq![preset_error(name, error@)],
        _ => Seq::empty(),
    }
}

/// The contents of a list of messages.
pub open spec fn messages(list: Seq<String>) -> Seq<Seq<char>> {
    Seq::new(list.len(), |i: int| list[i]@)
}

impl BabelOptions {
    /// Everything that is wrong with the options: the faults of the
    /// plugin list, of the assumptions, of the TypeScript preset, of the
    /// React preset and of the targets, in this order.
    pub open spec fn faults(self) -> Seq<Seq<char>> {
        messages(self.plugins.errors@) + fault(self.assumptions) + preset_fault(
            "typescript"@,
            self.typescript_preset,
        ) + preset_fault("react"@, self.react_preset) + match self.env {
            Ok(_) => Seq::empty(),
            Err(errors) => messages(errors@),
        }
    }

    /// The TypeScript options that are written: those of the preset
    /// where the preset is named, those of the plugin otherwise.
    pub open spec fn written_typescript(self) -> Option<TypeScriptOptions> {
        match self.typescript_preset {
            Preset::Absent => self.plugins.typescript,
            Preset::Bare => None,
            Preset::Options(Ok(options)) => Some(options),
            Preset::Options(Err(_)) => None,
        }
    }

    /// The JSX options that the plugins start from: those of the
    /// development plugin, else those of the plugin.
    pub open spec fn plugin_jsx(self) -> Option<JsxOptions> {
        match self.plugins.react_jsx_dev {
            Some(options) => Some(options),
            None => self.plugins.react_jsx,
        }
    }

    /// Whether `jsx` are the JSX options that these options ask for. The
    /// options of the React preset are taken as they are. Without them
    /// the options are those that the plugins start from, or the default
    /// ones, with the five switches set from the plugin list.
    pub open spec fn asks_for_jsx(self, jsx: JsxOptions) -> bool {
        match self.react_preset {
            Preset::Options(Ok(options)) => jsx == options,
            Preset::Options(Err(_)) => jsx.is_default(),
            _ => {
                &&& jsx.development == (self.plugins.react_jsx_dev is Some)
                &&& jsx.jsx_plugin == (self.plugins.react_jsx is Some)
                &&& jsx.display_name_plugin == self.plugins.react_display_name
                &&& jsx.jsx_self_plugin == self.plugins.react_jsx_self
                &&& jsx.jsx_source_plugin == self.plugins.react_jsx_source
                &&& match self.plugin_jsx() {
                    Some(base) => {
                        &&& jsx.runtime == base.runtime
                        &&& jsx.throw_if_namespace == base.throw_if_namespace
                        &&& jsx.pure == base.pure
                        &&& jsx.import_source == base.import_source
                        &&& jsx.pragma == base.pragma
                        &&& jsx.pragma_frag == base.pragma_frag
                        &&& jsx.refresh == base.refresh
                    },
                    None => {
                        &&& jsx.runtime == JsxRuntime::Automatic
                        &&& jsx.throw_if_namespace
                        &&& jsx.pure
                        &&& jsx.import_source is None
                        &&& jsx.pragma is None
                        &&& jsx.pragma_frag is None
                        &&& jsx.refresh is None
                    },
                }
            },
        }
    }
}

/// Appends the contents of `more` to `list`.
fn append_messages(list: &mut Vec<String>, more: Vec<String>)
    ensures
        messages(final(list)@) == messages(old(list)@) + messages(more@),
{
    let mut i: usize = 0;
    let ghost start = messages(list@);
    proof {
        assert(messages(more@).take(0) =~= Seq::<Seq<char>>::empty());
        assert(start + Seq::<Seq<char>>::empty() =~= start);
    }
    while i < more.len()
        invariant
            i <= more.len(),
            messages(list@) == start + messages(more@).take(i as int),
        decreases more.len() - i,
    {
        let ghost before = list@;
        let message = more[i].clone();
        list.push(message);
        proof {
            assert(list@ == before.push(message));
            assert(messages(before) == start + messages(more@).take(i as int));
            assert(messages(list@) =~= messages(before).push(message@));
            assert(messages(more@).take(i + 1) =~= messages(more@).take(i as int).push(
                more@[i as int]@,
            ));
            assert(messages(list@) =~= start + messages(more@).take(i + 1));
        }
        i += 1;
    }
    proof {
        assert(messages(more@).take(i as int) =~= messages(more@));
    }
}

/// The message for options of the preset `name` that did not decode.
fn report_error(name: &str, error: &str) -> (message: String)
    ensures
        message@ == preset_error(name@, error@),
{
    let mut message = String::from_str("preset-");
    message.append(name);
    message.append(": ");
    message.append(error);
    message
}

impl TransformOptions {
    /// The transformer's options for Babel's options.
    ///
    /// If anything is wrong with Babel's options, all of it is handed
    /// back, in the order of [`BabelOptions::faults`], and no options
    /// are made. Otherwise the TypeScript options are those written or
    /// the default ones, the JSX options those that
    /// [`BabelOptions::asks_for_jsx`] describes, the features to compile
    /// away those that the targets ask for (none where the targets are
    /// wrong without a message), and helpers are read off the global
    /// helper object if external helpers are asked for, and imported
    /// from the runtime package if not.
    pub fn try_from(options: BabelOptions) -> (made: Result<TransformOptions, Vec<String>>)
        ensures
            made is Err <==> options.faults().len() > 0,
            made matches Err(errors) ==> messages(errors@) == options.faults(),
            made matches Ok(transform) ==> {
                &&& transform.cwd@ == match options.cwd {
                    Some(cwd) => cwd@,
                    None => Seq::empty(),
                }
                &&& transform.assumptions == match options.assumptions {
                    Some(Ok(assumptions)) => assumptions,
                    _ => CompilerAssumptions::none(),
                }
                &&& match options.written_typescript() {
                    Some(typescript) => transform.typescript == typescript,
                    None => transform.typescript.is_default(),
                }
                &&& options.asks_for_jsx(transform.jsx)
                &&& transform.env == match options.env {
                    Ok(env) => env,
                    Err(_) => EnvOptions::all(false),
                }
                &&& transform.helper_loader.module_name@ == "@babel/runtime"@
                &&& transform.helper_loader.mode == if options.external_helpers {
                    HelperLoaderMode::External
                } else {
                    HelperLoaderMode::Runtime
                }
            },
    {
        let ghost faults = options.faults();
        let BabelOptions {
            cwd,
            assumptions,
            plugins,
            typescript_preset,
            react_preset,
            env,
            external_helpers,
        } = options;
        let BabelPlugins {
            errors,
            typescript: plugin_typescript,
            react_jsx,
            react_jsx_dev,
            react_display_name,
            react_jsx_self,
            react_jsx_source,
        } = plugins;
        let mut errors = errors;
        let ghost plugin_faults = messages(errors@);

        let assumptions = match assumptions {
            None => CompilerAssumptions::default(),
            Some(Ok(assumptions)) => assumptions,
            Some(Err(error)) => {
                errors.push(error);
                CompilerAssumptions::default()
            },
        };
        proof {
            assert(messages(errors@) =~= plugin_faults + fault(options.assumptions));
        }
        let ghost so_far = messages(errors@);

        let typescript = match typescript_preset {
            Preset::Absent => plugin_typescript,
            Preset::Bare => None,
            Preset::Options(Ok(typescript)) => Some(typescript),
            Preset::Options(Err(error)) => {
                errors.push(report_error("typescript", error.as_str()));
                None
            },
        };
        let typescript = match typescript {
            Some(typescript) => typescript,
            None => TypeScriptOptions::default(),
        };
        proof {
            assert(messages(errors@) =~= so_far + preset_fault(
                "typescript"@,
                options.typescript_preset,
            ));
        }
        let ghost so_far = messages(errors@);

        let jsx = match react_preset {
            Preset::Options(Ok(jsx)) => jsx,
            Preset::Options(Err(error)) => {
                errors.push(report_error("react", error.as_str()));
                JsxOptions::default()
            },
            _ => {
                let development = react_jsx_dev.is_some();
                let jsx_plugin = react_jsx.is_some();
                let mut jsx = match react_jsx_dev {
                    Some(jsx) => jsx,
                    None => match react_jsx {
                        Some(jsx) => jsx,
                        None => JsxOptions::default(),
                    },
                };
                jsx.development = development;
                jsx.jsx_plugin = jsx_plugin;
                jsx.display_name_plugin = react_display_name;
                jsx.jsx_self_plugin = react_jsx_self;
                jsx.jsx_source_plugin = react_jsx_source;
                jsx
            },
        };
        proof {
            assert(messages(errors@) =~= so_far + preset_fault("react"@, options.react_preset));
        }
        let ghost so_far = messages(errors@);

        let env = match env {
            Ok(env) => Some(env),
            Err(more) => {
                append_messages(&mut errors, more);
                None
            },
        };
        proof {
            assert(messages(errors@) =~= faults);
        }
        if errors.len() > 0 {
            return Err(errors);
        }
        let mut helper_loader = HelperLoaderOptions::default();
        if external_helpers {
            helper_loader.mode = HelperLoaderMode::External;
        }
        let cwd = match cwd {
            Some(cwd) => cwd,
            None => String::new(),
        };
        let env = match env {
            Some(env) => env,
            None => EnvOptions::default(),
        };
        Ok(TransformOptions { cwd, assumptions, typescript, jsx, env, helper_loader })
    }
}

} // verus!
