//! What a host configures.
use vstd::prelude::*;
use crate::collections::Member;
use crate::shorthands::Shorthand;

verus! {

/// The module from which the helper that injects styles is imported.
pub open spec fn default_inject_path() -> Seq<char> {
    "@stylexjs/stylex/lib/stylex-inject"@
}

/// A module under a name of its own: `from` is the module, `as_name` the
/// name under which it exports the styling library.
#[derive(Debug)]
pub struct NamedImportSource {
    pub as_name: String,
    pub from: String,
}

/// A module that the styling library may be imported from.
#[derive(Debug)]
pub enum ImportSources {
    /// The module exports the library as its default.
    Regular(String),
    Named(NamedImportSource),
}

pub ghost enum ImportSourcesView {
    Regular(Seq<char>),
    Named { as_name: Seq<char>, from: Seq<char> },
}

impl View for ImportSources {
    type V = ImportSourcesView;

    open spec fn view(&self) -> ImportSourcesView {
        match self {
            ImportSources::Regular(s) => ImportSourcesView::Regular(s@),
            ImportSources::Named(n) => ImportSourcesView::Named {
                as_name: n.as_name@,
                from: n.from@,
            },
        }
    }
}

impl Clone for ImportSources {
    fn clone(&self) -> (copy: ImportSources)
        ensures
            copy@ == self@,
    {
        match self {
            ImportSources::Regular(s) => ImportSources::Regular(s.clone()),
            ImportSources::Named(n) => ImportSources::Named(
                NamedImportSource { as_name: n.as_name.clone(), from: n.from.clone() },
            ),
        }
    }
}

impl Member for ImportSources {
    fn same(&self, other: &Self) -> (same: bool) {
        match (self, other) {
            (ImportSources::Regular(a), ImportSources::Regular(b)) => *a == *b,
            (ImportSources::Named(a), ImportSources::Named(b)) => a.as_name == b.as_name && a.from
                == b.from,
            _ => false,
        }
    }

    fn copy(&self) -> (copy: Self) {
        self.clone()
    }
}

/// Whether the compiled module injects its styles when it runs, and
/// through which export of the helper module.
#[derive(Debug)]
pub enum RuntimeInjection {
    /// The styles are not injected at run time.
    Off,
    /// Through the default export.
    Default,
    /// Through the export of the given name.
    Named(String),
}

/// How styles are injected at run time.
#[derive(Debug)]
pub enum RuntimeInjectionState {
    /// Through the default export of the module.
    Regular(String),
    Named(NamedImportSource),
}

/// Where themes are looked for.
#[derive(Debug)]
pub struct ModuleResolution {
    pub root_dir: Option<String>,
    /// What the name of a theme file ends in, before its extension;
    /// `.stylex` where it is not given.
    pub theme_file_extension: Option<String>,
}

/// How imports of themes are resolved.
#[derive(Debug)]
pub enum CheckModuleResolution {
    CommonJS(ModuleResolution),
    Haste(ModuleResolution),
    CrossFileParsing(ModuleResolution),
}

/// The options that a host gives.
#[derive(Debug)]
pub struct StyleXOptions {
    pub dev: bool,
    pub test: bool,
    pub gen_conditional_classes: bool,
    pub treeshake_compensation: Option<bool>,
    pub class_name_prefix: String,
    pub runtime_injection: RuntimeInjection,
    pub unstable_module_resolution: Option<CheckModuleResolution>,
    pub import_sources: Vec<ImportSources>,
    /// Names of custom properties with their values.
    pub defined_stylex_css_variables: Vec<(String, String)>,
    /// The shorthand properties, each with the properties it stands for.
    pub shorthands: Vec<Shorthand>,
    /// What a host has rewritten in the path of a file that an import was
    /// found to name: in each pair the first text gives way to the second.
    /// A host that sets none leaves every path as it is.
    pub resolved_path_rewrites: Vec<(String, String)>,
}

/// The options as the state keeps them.
#[derive(Debug)]
pub struct StyleXStateOptions {
    pub dev: bool,
    pub test: bool,
    pub gen_conditional_classes: bool,
    pub treeshake_compensation: Option<bool>,
    pub class_name_prefix: String,
    pub runtime_injection: Option<RuntimeInjectionState>,
    pub unstable_module_resolution: Option<CheckModuleResolution>,
    pub import_sources: Vec<ImportSources>,
    pub defined_stylex_css_variables: Vec<(String, String)>,
    pub shorthands: Vec<Shorthand>,
    pub resolved_path_rewrites: Vec<(String, String)>,
}

/// The views of a list of import sources.
pub open spec fn sources_view(sources: Seq<ImportSources>) -> Seq<ImportSourcesView> {
    Seq::new(sources.len(), |i: int| sources[i]@)
}

impl Default for StyleXOptions {
    /// The options of a host that configures nothing: the class prefix
    /// `x`, the two usual modules as import sources, no injection at run
    /// time.
    fn default() -> (options: StyleXOptions)
        ensures
            !options.dev,
            !options.test,
            !options.gen_conditional_classes,
            options.treeshake_compensation is None,
            options.class_name_prefix@ == "x"@,
            options.runtime_injection is Off,
            options.unstable_module_resolution is None,
            sources_view(options.import_sources@) == seq![
                ImportSourcesView::Regular("stylex"@),
                ImportSourcesView::Regular("@stylexjs/stylex"@),
            ],
            options.defined_stylex_css_variables@.len() == 0,
            options.shorthands@.len() == 0,
            options.resolved_path_rewrites@.len() == 0,
    {
        let mut import_sources: Vec<ImportSources> = Vec::new();
        import_sources.push(ImportSources::Regular("stylex".to_string()));
        import_sources.push(ImportSources::Regular("@stylexjs/stylex".to_string()));
        assert(sources_view(import_sources@) =~= seq![
            ImportSourcesView::Regular("stylex"@),
            ImportSourcesView::Regular("@stylexjs/stylex"@),
        ]);
        StyleXOptions {
            dev: false,
            test: false,
            gen_conditional_classes: false,
            treeshake_compensation: None,
            class_name_prefix: "x".to_string(),
            runtime_injection: RuntimeInjection::Off,
            unstable_module_resolution: None,
            import_sources,
            defined_stylex_css_variables: Vec::new(),
            shorthands: Vec::new(),
            resolved_path_rewrites: Vec::new(),
        }
    }
}

impl StyleXStateOptions {
    /// The options as the state keeps them: all as given; the choice of
    /// injection with the module of the helper.
    pub fn from(options: StyleXOptions) -> (kept: StyleXStateOptions)
        ensures
            kept.dev == options.dev,
            kept.test == options.test,
            kept.gen_conditional_classes == options.gen_conditional_classes,
            kept.treeshake_compensation == options.treeshake_compensation,
            kept.class_name_prefix == options.class_name_prefix,
            kept.unstable_module_resolution == options.unstable_module_resolution,
            kept.import_sources == options.import_sources,
            kept.defined_stylex_css_variables == options.defined_stylex_css_variables,
            kept.shorthands == options.shorthands,
            kept.resolved_path_rewrites == options.resolved_path_rewrites,
            match options.runtime_injection {
                RuntimeInjection::Off => kept.runtime_injection is None,
                RuntimeInjection::Default => kept.runtime_injection matches Some(
                    RuntimeInjectionState::Regular(path),
                ) && path@ == default_inject_path(),
                RuntimeInjection::Named(name) => kept.runtime_injection matches Some(
                    RuntimeInjectionState::Named(source),
                ) && source.as_name == name && source.from@ == default_inject_path(),
            },
    {
        let runtime_injection = match options.runtime_injection {
            RuntimeInjection::Off => None,
            RuntimeInjection::Default => Some(
                RuntimeInjectionState::Regular("@stylexjs/stylex/lib/stylex-inject".to_string()),
            ),
            RuntimeInjection::Named(name) => Some(
                RuntimeInjectionState::Named(
                    NamedImportSource {
                        as_name: name,
                        from: "@stylexjs/stylex/lib/stylex-inject".to_string(),
                    },
                ),
            ),
        };
        StyleXStateOptions {
            dev: options.dev,
            test: options.test,
            gen_conditional_classes: options.gen_conditional_classes,
            treeshake_compensation: options.treeshake_compensation,
            class_name_prefix: options.class_name_prefix,
            runtime_injection,
            unstable_module_resolution: options.unstable_module_resolution,
            import_sources: options.import_sources,
            defined_stylex_css_variables: options.defined_stylex_css_variables,
            shorthands: options.shorthands,
            resolved_path_rewrites: options.resolved_path_rewrites,
        }
    }
}

} // verus!
