//! What the transformed module needs in order to inject its styles: the
//! import of the helper, and one call of it for each style.
use vstd::prelude::*;
use indexmap::IndexMap;
use crate::ast::{
    elems_view, items_view, lemma_call_view, CallExpr, Expr, ExprOrSpread, ExprOrSpreadView,
    ExprView, Id, ImportDecl, ImportDeclView, ImportSpecifier, ImportSpecifierView, Lit, LitView,
    ModuleItem, ModuleItemView, Pat, PatView, Span, VarDeclarator, VarDeclaratorView,
};
use crate::collections::{key_index, put_pair, Member, OrderedMap};
use crate::decimal::decimal;
use crate::injected::{
    class_index, has_class, injected_entries, injected_get_index, injected_len, with_class,
    ClassStyle,
};
use crate::number::Number;
use crate::options::default_inject_path;
use crate::rule::{InjectableStyle, InjectableStyleView};
use crate::state::{metadata_views, MetaData, StateManager};
use crate::text::{append_chars, append_str, from_chars, str_eq, to_chars};

verus! {

/// Makes names that no source text has: `_prefix`, `_prefix2`, `_prefix3`
/// and so on.
#[derive(Debug)]
pub struct UidGenerator {
    pub prefix: String,
    /// How many names were made.
    pub count: u64,
}

/// The `n`th name under a prefix.
pub open spec fn uid_name(prefix: Seq<char>, n: nat) -> Seq<char> {
    if n <= 1 {
        "_"@ + prefix
    } else {
        "_"@ + prefix + decimal(n)
    }
}

/// Appends the base-ten numeral of `n`.
fn push_count(out: &mut Vec<char>, n: u64)
    ensures
        final(out)@ == old(out)@ + decimal(n as nat),
    decreases n,
{
    if n >= 10 {
        push_count(out, n / 10);
    }
    let d: u8 = (n % 10) as u8;
    out.push((d + 48) as char);
    assert(final(out)@ =~= old(out)@ + decimal(n as nat));
}

impl UidGenerator {
    /// A generator that has made no name yet.
    pub fn new(prefix: &str) -> (generator: UidGenerator)
        ensures
            generator.prefix@ == prefix@,
            generator.count == 0,
    {
        UidGenerator { prefix: prefix.to_string(), count: 0 }
    }

    /// The next name, as an identifier outside every syntactic context of
    /// the source.
    pub fn generate_ident(&mut self) -> (ident: Id)
        requires
            old(self).count < u64::MAX,
        ensures
            final(self).count == old(self).count + 1,
            final(self).prefix == old(self).prefix,
            ident@ == (uid_name(old(self).prefix@, (old(self).count + 1) as nat), 0u32),
    {
        self.count = self.count + 1;
        let mut name: Vec<char> = Vec::new();
        append_str(&mut name, "_");
        append_str(&mut name, self.prefix.as_str());
        if self.count > 1 {
            push_count(&mut name, self.count);
        }
        assert(name@ =~= uid_name(self.prefix@, self.count as nat));
        Id { sym: from_chars(&name), ctxt: 0 }
    }
}

/// The import of the helper module's default export under a name.
pub open spec fn default_import_item(ident: (Seq<char>, u32)) -> ModuleItemView {
    ModuleItemView::Import(
        ImportDeclView {
            src: default_inject_path(),
            specifiers: seq![ImportSpecifierView::Default(ident)],
            type_only: false,
        },
    )
}

/// The import of an export of the helper module under a name.
pub open spec fn named_import_item(ident: (Seq<char>, u32), imported: (Seq<char>, u32)) -> ModuleItemView {
    ModuleItemView::Import(
        ImportDeclView {
            src: default_inject_path(),
            specifiers: seq![
                ImportSpecifierView::Named { local: ident, imported: Some(imported.0) },
            ],
            type_only: false,
        },
    )
}

/// The import of a module for its effects alone.
pub open spec fn bare_import_item(path: Seq<char>) -> ModuleItemView {
    ModuleItemView::Import(ImportDeclView { src: path, specifiers: Seq::empty(), type_only: false })
}

/// The declaration `var decl = value;`.
pub open spec fn var_decl_item(decl: (Seq<char>, u32), value: (Seq<char>, u32)) -> ModuleItemView {
    ModuleItemView::Var(
        seq![VarDeclaratorView { name: PatView::Ident(decl), init: Some(ExprView::Ident(value)) }],
    )
}

/// The import of the helper module's default export under a name.
pub fn add_inject_default_import_expression(ident: &Id) -> (item: ModuleItem)
    ensures
        item@ == default_import_item(ident@),
{
    let mut specifiers: Vec<ImportSpecifier> = Vec::new();
    specifiers.push(ImportSpecifier::Default(ident.clone()));
    let decl = ImportDecl {
        src: "@stylexjs/stylex/lib/stylex-inject".to_string(),
        specifiers,
        type_only: false,
    };
    assert(decl@.specifiers =~= seq![ImportSpecifierView::Default(ident@)]);
    ModuleItem::Import(decl)
}

/// The import of a module for its effects alone.
pub fn add_import_expression(path: &str) -> (item: ModuleItem)
    ensures
        item@ == bare_import_item(path@),
{
    let decl = ImportDecl { src: path.to_string(), specifiers: Vec::new(), type_only: false };
    assert(decl@.specifiers =~= Seq::<ImportSpecifierView>::empty());
    ModuleItem::Import(decl)
}

/// The import of an export of the helper module under a name.
pub fn add_inject_named_import_expression(ident: &Id, imported_ident: &Id) -> (item: ModuleItem)
    ensures
        item@ == named_import_item(ident@, imported_ident@),
{
    let mut specifiers: Vec<ImportSpecifier> = Vec::new();
    specifiers.push(
        ImportSpecifier::Named { local: ident.clone(), imported: Some(imported_ident.sym.clone()) },
    );
    let decl = ImportDecl {
        src: "@stylexjs/stylex/lib/stylex-inject".to_string(),
        specifiers,
        type_only: false,
    };
    assert(decl@.specifiers =~= seq![
        ImportSpecifierView::Named { local: ident@, imported: Some(imported_ident@.0) },
    ]);
    ModuleItem::Import(decl)
}

/// The declaration `var decl = value;`.
pub fn add_inject_var_decl_expression(decl_ident: &Id, value_ident: &Id) -> (item: ModuleItem)
    ensures
        item@ == var_decl_item(decl_ident@, value_ident@),
{
    let mut decls: Vec<VarDeclarator> = Vec::new();
    decls.push(
        VarDeclarator {
            name: Pat::Ident(decl_ident.clone()),
            init: Some(Box::new(Expr::Ident(value_ident.clone()))),
        },
    );
    assert(crate::ast::decls_view(decls@) =~= seq![
        VarDeclaratorView { name: PatView::Ident(decl_ident@), init: Some(ExprView::Ident(value_ident@)) },
    ]);
    ModuleItem::Var(decls)
}

impl MetaData {
    /// The class of the style.
    pub fn get_class_name(&self) -> (name: &String)
        ensures
            name@ == self@.0,
    {
        &self.class_name
    }

    /// The rule for left-to-right text.
    pub fn get_css(&self) -> (css: &String)
        ensures
            css@ == self@.1.ltr,
    {
        &self.style.ltr
    }

    /// The rule for right-to-left text, where there is one.
    pub fn get_css_rtl(&self) -> (css: &Option<String>)
        ensures
            match self@.1.rtl {
                Some(r) => css is Some && css->0@ == r,
                None => css is None,
            },
    {
        &self.style.rtl
    }

    /// The priority in tenths.
    pub fn get_priority(&self) -> (priority: u64)
        ensures
            priority == self@.1.priority,
    {
        self.style.priority
    }

    /// The styles of the map, in the order of the map.
    pub fn convert_from_injected_styles_map(injected_styles_map: &IndexMap<String, InjectableStyle>) -> (list:
        Vec<MetaData>)
        ensures
            metadata_views(list@) == injected_entries(*injected_styles_map),
    {
        let ghost all = injected_entries(*injected_styles_map);
        let n = injected_len(injected_styles_map);
        let mut list: Vec<MetaData> = Vec::new();
        let mut i: usize = 0;
        while i < n
            invariant
                i <= n,
                n == all.len(),
                all == injected_entries(*injected_styles_map),
                list.len() == i,
                forall|j: int| 0 <= j < i ==> (#[trigger] list[j])@ == all[j],
            decreases n - i,
        {
            match injected_get_index(injected_styles_map, i) {
                Some((class_name, style)) => {
                    list.push(MetaData { class_name: class_name.clone(), style: style.clone() });
                },
                None => {
                    assert(false);
                },
            }
            i += 1;
        }
        assert(metadata_views(list@) =~= all);
        list
    }
}

/// The priority as a number: a tenth for each of its tenths, or the most
/// that can be held where that cannot.
pub open spec fn priority_number(tenths: u64) -> Number {
    match crate::number::ratio(tenths as int, 10) {
        Some(n) => n,
        None => crate::number::whole(i64::MAX as int),
    }
}

/// The arguments with which the helper is called for a style: its CSS,
/// its priority, and, where there is one, its CSS for right-to-left text.
pub open spec fn inject_arguments(style: InjectableStyleView) -> Seq<ExprOrSpreadView> {
    let head = seq![
        ExprOrSpreadView { spread: false, expr: Box::new(ExprView::Lit(LitView::Str(style.ltr))) },
        ExprOrSpreadView {
            spread: false,
            expr: Box::new(ExprView::Lit(LitView::Num(priority_number(style.priority)))),
        },
    ];
    match style.rtl {
        Some(rtl) => head.push(
            ExprOrSpreadView { spread: false, expr: Box::new(ExprView::Lit(LitView::Str(rtl))) },
        ),
        None => head,
    }
}

/// The statement that calls the helper for a style.
pub open spec fn inject_statement(style: InjectableStyleView, helper: (Seq<char>, u32)) -> ModuleItemView {
    ModuleItemView::Stmt(
        ExprView::Call(
            crate::ast::CallExprView {
                span: Span { lo: 0, hi: 0 },
                callee: Box::new(ExprView::Ident(helper)),
                args: inject_arguments(style),
            },
        ),
    )
}

/// A string as an argument.
fn string_argument(text: &String) -> (arg: ExprOrSpread)
    ensures
        arg@ == (ExprOrSpreadView {
            spread: false,
            expr: Box::new(ExprView::Lit(LitView::Str(text@))),
        }),
{
    ExprOrSpread { spread: false, expr: Box::new(Expr::Lit(Lit::Str(text.clone()))) }
}

/// The statement that calls the helper for a style.
pub fn inject_call(metadata: &MetaData, inject_var_ident: &Id) -> (item: ModuleItem)
    ensures
        item@ == inject_statement(metadata@.1, inject_var_ident@),
{
    let priority = match crate::number::make(metadata.style.priority as i128, 10) {
        Some(n) => n,
        None => Number::from_whole(i64::MAX),
    };
    let mut args: Vec<ExprOrSpread> = Vec::new();
    args.push(string_argument(&metadata.style.ltr));
    args.push(ExprOrSpread { spread: false, expr: Box::new(Expr::Lit(Lit::Num(priority))) });
    match &metadata.style.rtl {
        Some(rtl) => {
            args.push(string_argument(rtl));
        },
        None => {},
    }
    assert(elems_view(args@) =~= inject_arguments(metadata@.1));
    let call = CallExpr {
        span: Span { lo: 0, hi: 0 },
        callee: Box::new(Expr::Ident(inject_var_ident.clone())),
        args,
    };
    proof {
        lemma_call_view(call);
    }
    ModuleItem::Stmt(Box::new(Expr::Call(call)))
}

} // verus!
