//! The import tracker: which local names stand for which functions of the
//! styling library.
use vstd::prelude::*;
use crate::ast::{Id, ImportDecl, ImportDeclView, ImportSpecifier, ImportSpecifierView};
use crate::collections::OrderedSet;
use crate::errors::{diagnostic_of, Diagnostic, Message};
use crate::lookup::imports_view;
use crate::options::{sources_view, ImportSources, ImportSourcesView};
use crate::state::{import_name, source_module, StateManager, TrackedSets};
use crate::text::str_eq;

verus! {

/// A function of the styling library that can be imported by name.
#[derive(Clone, Copy, Debug, PartialEq, Eq, Structural)]
pub enum LibrarySymbol {
    Create,
    Props,
    Attrs,
    Keyframes,
    Include,
    FirstThatWorks,
    DefineVars,
    CreateTheme,
    Types,
}

/// The function that a name exported by the library stands for.
pub open spec fn symbol_of(name: Seq<char>) -> Option<LibrarySymbol> {
    if name == "create"@ {
        Some(LibrarySymbol::Create)
    } else if name == "props"@ {
        Some(LibrarySymbol::Props)
    } else if name == "attrs"@ {
        Some(LibrarySymbol::Attrs)
    } else if name == "keyframes"@ {
        Some(LibrarySymbol::Keyframes)
    } else if name == "include"@ {
        Some(LibrarySymbol::Include)
    } else if name == "firstThatWorks"@ {
        Some(LibrarySymbol::FirstThatWorks)
    } else if name == "defineVars"@ {
        Some(LibrarySymbol::DefineVars)
    } else if name == "createTheme"@ {
        Some(LibrarySymbol::CreateTheme)
    } else if name == "types"@ {
        Some(LibrarySymbol::Types)
    } else {
        None
    }
}

/// The function that a name exported by the library stands for.
pub fn library_symbol(name: &str) -> (symbol: Option<LibrarySymbol>)
    ensures
        symbol == symbol_of(name@),
{
    if str_eq(name, "create") {
        Some(LibrarySymbol::Create)
    } else if str_eq(name, "props") {
        Some(LibrarySymbol::Props)
    } else if str_eq(name, "attrs") {
        Some(LibrarySymbol::Attrs)
    } else if str_eq(name, "keyframes") {
        Some(LibrarySymbol::Keyframes)
    } else if str_eq(name, "include") {
        Some(LibrarySymbol::Include)
    } else if str_eq(name, "firstThatWorks") {
        Some(LibrarySymbol::FirstThatWorks)
    } else if str_eq(name, "defineVars") {
        Some(LibrarySymbol::DefineVars)
    } else if str_eq(name, "createTheme") {
        Some(LibrarySymbol::CreateTheme)
    } else if str_eq(name, "types") {
        Some(LibrarySymbol::Types)
    } else {
        None
    }
}

/// The sets with a local binding of a function of the library.
pub open spec fn with_symbol(sets: TrackedSets, symbol: LibrarySymbol, id: (Seq<char>, u32)) -> TrackedSets {
    match symbol {
        LibrarySymbol::Create => TrackedSets { create: sets.create.insert(id), ..sets },
        LibrarySymbol::Props => TrackedSets { props: sets.props.insert(id), ..sets },
        LibrarySymbol::Attrs => TrackedSets { attrs: sets.attrs.insert(id), ..sets },
        LibrarySymbol::Keyframes => TrackedSets { keyframes: sets.keyframes.insert(id), ..sets },
        LibrarySymbol::Include => TrackedSets { includes: sets.includes.insert(id), ..sets },
        LibrarySymbol::FirstThatWorks => TrackedSets {
            first_that_works: sets.first_that_works.insert(id),
            ..sets
        },
        LibrarySymbol::DefineVars => TrackedSets { define_vars: sets.define_vars.insert(id), ..sets },
        LibrarySymbol::CreateTheme => TrackedSets {
            create_theme: sets.create_theme.insert(id),
            ..sets
        },
        LibrarySymbol::Types => TrackedSets { types: sets.types.insert(id), ..sets },
    }
}

/// The sets with the whole library bound to a local name, imported from
/// the module `path`.
pub open spec fn with_library(sets: TrackedSets, path: Seq<char>, local: Seq<char>) -> TrackedSets {
    TrackedSets {
        import_paths: sets.import_paths.insert(path),
        stylex_import: sets.stylex_import.insert(ImportSourcesView::Regular(local)),
        ..sets
    }
}

/// The sets after a named import from a recognised module.
///
/// Where the module exports the library under a name of its own, the
/// import of that name binds the whole library, and any other import
/// binds nothing. Otherwise the imported name must be a function of the
/// library, and the local name is bound to it.
pub open spec fn tracked_named(
    sets: TrackedSets,
    sources: Seq<ImportSourcesView>,
    src: Seq<char>,
    imported: Seq<char>,
    local: (Seq<char>, u32),
) -> Result<TrackedSets, Diagnostic> {
    match import_name(sources, src) {
        Some(as_name) => if as_name == imported {
            Ok(with_library(sets, as_name, local.0))
        } else {
            Ok(sets)
        },
        None => match symbol_of(imported) {
            Some(symbol) => Ok(
                with_symbol(
                    TrackedSets { import_paths: sets.import_paths.insert(src), ..sets },
                    symbol,
                    local,
                ),
            ),
            None => Err(diagnostic_of(Message::UnknownImport)),
        },
    }
}

/// The sets after one specifier of an import from a recognised module. A
/// default or namespace import binds the whole library, unless the module
/// exports the library under a name of its own.
pub open spec fn tracked_specifier(
    sets: TrackedSets,
    sources: Seq<ImportSourcesView>,
    src: Seq<char>,
    specifier: ImportSpecifierView,
) -> Result<TrackedSets, Diagnostic> {
    match specifier {
        ImportSpecifierView::Default(local) | ImportSpecifierView::Namespace(local) => {
            if import_name(sources, src) is None {
                Ok(with_library(sets, src, local.0))
            } else {
                Ok(sets)
            }
        },
        ImportSpecifierView::Named { local, imported } => tracked_named(
            sets,
            sources,
            src,
            match imported {
                Some(name) => name,
                None => local.0,
            },
            local,
        ),
    }
}

/// The sets after the first `n` specifiers of an import.
pub open spec fn tracked_specifiers(
    sets: TrackedSets,
    sources: Seq<ImportSourcesView>,
    src: Seq<char>,
    specifiers: Seq<ImportSpecifierView>,
    n: nat,
) -> Result<TrackedSets, Diagnostic>
    decreases n,
{
    if n == 0 || n > specifiers.len() {
        Ok(sets)
    } else {
        match tracked_specifiers(sets, sources, src, specifiers, (n - 1) as nat) {
            Ok(before) => tracked_specifier(before, sources, src, specifiers[n - 1]),
            Err(d) => Err(d),
        }
    }
}

/// The module is one of the import sources.
pub open spec fn is_source(sources: Seq<ImportSourcesView>, src: Seq<char>) -> bool {
    exists|i: int| 0 <= i < sources.len() && source_module(#[trigger] sources[i]) == src
}

/// The sets after an import declaration: as before where the declaration
/// imports types only or from a module that is no import source.
pub open spec fn tracked_import(sets: TrackedSets, sources: Seq<ImportSourcesView>, decl: ImportDeclView) -> Result<
    TrackedSets,
    Diagnostic,
> {
    if decl.type_only || !is_source(sources, decl.src) {
        Ok(sets)
    } else {
        tracked_specifiers(sets, sources, decl.src, decl.specifiers, decl.specifiers.len())
    }
}

/// Whether the module is one of the import sources.
pub fn source_is_recognised(sources: &Vec<ImportSources>, src: &str) -> (yes: bool)
    ensures
        yes == is_source(sources_view(sources@), src@),
{
    let ghost all = sources_view(sources@);
    let mut i: usize = 0;
    while i < sources.len()
        invariant
            i <= sources.len(),
            all == sources_view(sources@),
            forall|j: int| 0 <= j < i ==> source_module(#[trigger] all[j]) != src@,
        decreases sources.len() - i,
    {
        assert(all[i as int] == sources[i as int]@);
        let module = match &sources[i] {
            ImportSources::Regular(m) => m,
            ImportSources::Named(n) => &n.from,
        };
        if str_eq(module.as_str(), src) {
            return true;
        }
        i += 1;
    }
    false
}

/// The state `post` is the state `pre` but for the sets of what was
/// imported.
pub open spec fn only_sets_differ(pre: StateManager, post: StateManager) -> bool {
    post == (StateManager {
        import_paths: post.import_paths,
        stylex_import: post.stylex_import,
        stylex_props_import: post.stylex_props_import,
        stylex_attrs_import: post.stylex_attrs_import,
        stylex_create_import: post.stylex_create_import,
        stylex_include_import: post.stylex_include_import,
        stylex_first_that_works_import: post.stylex_first_that_works_import,
        stylex_keyframes_import: post.stylex_keyframes_import,
        stylex_define_vars_import: post.stylex_define_vars_import,
        stylex_create_theme_import: post.stylex_create_theme_import,
        stylex_types_import: post.stylex_types_import,
        ..pre
    })
}

/// The state `post` is the state `pre` but for the sets of what was
/// imported and the import declarations that are remembered.
pub open spec fn only_imports_differ(pre: StateManager, post: StateManager) -> bool {
    only_sets_differ(StateManager { top_imports: post.top_imports, ..pre }, post)
}

impl StateManager {
    /// Binds the whole library to a local name, imported from `path`.
    pub fn track_library(&mut self, path: &str, local: &str)
        requires
            old(self).wf(),
        ensures
            final(self).wf(),
            final(self).sets() == with_library(old(self).sets(), path@, local@),
            *final(self) == (StateManager {
                import_paths: final(self).import_paths,
                stylex_import: final(self).stylex_import,
                ..*old(self)
            }),
    {
        self.import_paths.insert(path.to_string());
        self.stylex_import.insert(ImportSources::Regular(local.to_string()));
    }

    /// Binds a local name to a function of the library.
    pub fn track_symbol(&mut self, symbol: LibrarySymbol, local: &Id)
        requires
            old(self).wf(),
        ensures
            final(self).wf(),
            final(self).sets() == with_symbol(old(self).sets(), symbol, local@),
            only_sets_differ(*old(self), *final(self)),
    {
        match symbol {
            LibrarySymbol::Create => {
                self.stylex_create_import.insert(local.clone());
            },
            LibrarySymbol::Props => {
                self.stylex_props_import.insert(local.clone());
            },
            LibrarySymbol::Attrs => {
                self.stylex_attrs_import.insert(local.clone());
            },
            LibrarySymbol::Keyframes => {
                self.stylex_keyframes_import.insert(local.clone());
            },
            LibrarySymbol::Include => {
                self.stylex_include_import.insert(local.clone());
            },
            LibrarySymbol::FirstThatWorks => {
                self.stylex_first_that_works_import.insert(local.clone());
            },
            LibrarySymbol::DefineVars => {
                self.stylex_define_vars_import.insert(local.clone());
            },
            LibrarySymbol::CreateTheme => {
                self.stylex_create_theme_import.insert(local.clone());
            },
            LibrarySymbol::Types => {
                self.stylex_types_import.insert(local.clone());
            },
        }
    }

    /// Tracks one named import from a recognised module.
    pub fn fill_stylex_create_import(&mut self, source_path: &str, imported_name: String, local: &Id) -> (r:
        Result<(), Diagnostic>)
        requires
            old(self).wf(),
        ensures
            final(self).wf(),
            only_sets_differ(*old(self), *final(self)),
            match tracked_named(
                old(self).sets(),
                sources_view(old(self).options.import_sources@),
                source_path@,
                imported_name@,
                local@,
            ) {
                Ok(sets) => r is Ok && final(self).sets() == sets,
                Err(d) => r == Err::<(), Diagnostic>(d) && *final(self) == *old(self),
            },
    {
        match self.import_as(source_path) {
            Some(as_name) => {
                if as_name == imported_name {
                    self.track_library(as_name.as_str(), local.sym.as_str());
                }
                Ok(())
            },
            None => match library_symbol(imported_name.as_str()) {
                Some(symbol) => {
                    self.import_paths.insert(source_path.to_string());
                    self.track_symbol(symbol, local);
                    Ok(())
                },
                None => Err(Diagnostic::new(Message::UnknownImport)),
            },
        }
    }

    /// Tracks one specifier of an import from a recognised module.
    pub fn track_specifier(&mut self, source_path: &str, specifier: &ImportSpecifier) -> (r: Result<
        (),
        Diagnostic,
    >)
        requires
            old(self).wf(),
        ensures
            final(self).wf(),
            only_sets_differ(*old(self), *final(self)),
            match tracked_specifier(
                old(self).sets(),
                sources_view(old(self).options.import_sources@),
                source_path@,
                specifier@,
            ) {
                Ok(sets) => r is Ok && final(self).sets() == sets,
                Err(d) => r == Err::<(), Diagnostic>(d) && *final(self) == *old(self),
            },
    {
        match specifier {
            ImportSpecifier::Default(local) => {
                if self.import_as(source_path).is_none() {
                    self.track_library(source_path, local.sym.as_str());
                }
                Ok(())
            },
            ImportSpecifier::Namespace(local) => {
                if self.import_as(source_path).is_none() {
                    self.track_library(source_path, local.sym.as_str());
                }
                Ok(())
            },
            ImportSpecifier::Named { local, imported } => {
                let imported_name = match imported {
                    Some(name) => name.clone(),
                    None => local.sym.clone(),
                };
                self.fill_stylex_create_import(source_path, imported_name, local)
            },
        }
    }

    /// Tracks an import declaration: remembers it, unless it imports types
    /// only, and binds what it imports from the styling library. An import
    /// of a name that the library does not export is rejected; the
    /// bindings of the specifiers before it stay.
    pub fn track_import(&mut self, import_decl: &ImportDecl) -> (r: Result<(), Diagnostic>)
        requires
            old(self).wf(),
        ensures
            final(self).wf(),
            only_imports_differ(*old(self), *final(self)),
            import_decl.type_only ==> *final(self) == *old(self),
            imports_view(final(self).top_imports@) == if import_decl.type_only {
                imports_view(old(self).top_imports@)
            } else {
                imports_view(old(self).top_imports@).push(import_decl@)
            },
            match tracked_import(
                old(self).sets(),
                sources_view(old(self).options.import_sources@),
                import_decl@,
            ) {
                Ok(sets) => r is Ok && final(self).sets() == sets,
                Err(d) => r == Err::<(), Diagnostic>(d),
            },
    {
        if import_decl.type_only {
            return Ok(());
        }
        let ghost before = imports_view(self.top_imports@);
        self.top_imports.push(import_decl.clone());
        assert(imports_view(self.top_imports@) =~= before.push(import_decl@));
        if !source_is_recognised(&self.options.import_sources, import_decl.src.as_str()) {
            return Ok(());
        }
        let ghost sources = sources_view(self.options.import_sources@);
        let ghost specifiers = import_decl@.specifiers;
        let mut i: usize = 0;
        while i < import_decl.specifiers.len()
            invariant
                i <= import_decl.specifiers.len(),
                self.wf(),
                only_imports_differ(*old(self), *self),
                imports_view(self.top_imports@) == before.push(import_decl@),
                before == imports_view(old(self).top_imports@),
                !import_decl.type_only,
                is_source(sources, import_decl.src@),
                sources == sources_view(self.options.import_sources@),
                specifiers == import_decl@.specifiers,
                tracked_specifiers(old(self).sets(), sources, import_decl.src@, specifiers, i as nat)
                    == Ok::<TrackedSets, Diagnostic>(self.sets()),
            decreases import_decl.specifiers.len() - i,
        {
            assert(specifiers[i as int] == import_decl.specifiers[i as int]@);
            if let Err(d) = self.track_specifier(import_decl.src.as_str(), &import_decl.specifiers[i]) {
                proof {
                    lemma_tracked_specifiers_fail(
                        old(self).sets(),
                        sources,
                        import_decl.src@,
                        specifiers,
                        (i + 1) as nat,
                        import_decl.specifiers.len() as nat,
                    );
                }
                return Err(d);
            }
            i += 1;
        }
        Ok(())
    }
}

/// Once the specifiers up to some place are rejected, all of them are,
/// with the same diagnostic.
proof fn lemma_tracked_specifiers_fail(
    sets: TrackedSets,
    sources: Seq<ImportSourcesView>,
    src: Seq<char>,
    specifiers: Seq<ImportSpecifierView>,
    i: nat,
    n: nat,
)
    requires
        i <= n <= specifiers.len(),
        tracked_specifiers(sets, sources, src, specifiers, i) is Err,
    ensures
        tracked_specifiers(sets, sources, src, specifiers, n) == tracked_specifiers(
            sets,
            sources,
            src,
            specifiers,
            i,
        ),
    decreases n,
{
    if i < n {
        lemma_tracked_specifiers_fail(sets, sources, src, specifiers, i, (n - 1) as nat);
    }
}

} // verus!
