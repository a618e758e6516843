//! Keyframes: an animation by its frames, under a generated name.
use vstd::prelude::*;
use crate::ast::{
    clone_call, decls_view, elems_view, lemma_call_view, CallExpr, CallExprView, Expr, ExprView,
    Lit, LitView, Pat,
};
use crate::create::{key_text, key_to_string};
use crate::css::{dashed, dashify, transform_value, transformed};
use crate::errors::{diagnostic_of, Diagnostic, Message};
use crate::evaluate::{evaluate, evaluated, Scope, ScopeView};
use crate::flatten::{scalar_text, text_of_scalar};
use crate::functions::{FunctionBindingView, FunctionMap};
use crate::hash::{create_hash, hash_text};
use crate::injected::{
    injected_contains, injected_entries, injected_insert, injected_new, with_class, ClassStyle,
};
use crate::register::{initialised_name, registered};
use crate::rule::{
    mirror_declaration, mirrored_declaration, InjectableStyle, InjectableStyleView,
};
use crate::state::StateManager;
use crate::text::{append_chars, append_str, from_chars, to_chars};
use crate::value::{
    entries_view, lemma_map_view, Key, KeyView, MapEntry, MapEntryView, Value, ValueView,
};
use crate::visitor::{
    at_call, call_is_of, calls_library, find_parent_decl, ModuleTransformVisitor,
};

verus! {

/// The declaration of one property of a frame, with `;` after it: for
/// right-to-left text the mirrored declaration, where there is one.
pub open spec fn frame_decl(key: Seq<char>, text: Seq<char>, rtl: bool) -> Seq<char> {
    let property = dashed(key);
    let value = transformed(key, text);
    let plain = property + ":"@ + value;
    (if rtl {
        match mirrored_declaration(property, value) {
            Some(d) => d,
            None => plain,
        }
    } else {
        plain
    }) + ";"@
}

/// The declarations of the first `n` properties of a frame. A key must be
/// a text, a value a string, a number or a truth value.
pub open spec fn frame_decls(entries: Seq<MapEntryView>, n: nat, rtl: bool) -> Result<Seq<char>, Diagnostic>
    decreases n,
{
    if n == 0 || n > entries.len() {
        Ok(Seq::empty())
    } else {
        match frame_decls(entries, (n - 1) as nat, rtl) {
            Ok(before) => match (entries[n - 1].key, scalar_text(entries[n - 1].value)) {
                (KeyView::Str(key), Some(text)) => Ok(before + frame_decl(key, text, rtl)),
                _ => Err(diagnostic_of(Message::IllegalPropValue)),
            },
            Err(d) => Err(d),
        }
    }
}

/// The text of the first `n` frames: each frame's offset and, in braces,
/// its declarations. A frame must be an object.
pub open spec fn frames_text(frames: Seq<MapEntryView>, n: nat, rtl: bool) -> Result<Seq<char>, Diagnostic>
    decreases n,
{
    if n == 0 || n > frames.len() {
        Ok(Seq::empty())
    } else {
        match frames_text(frames, (n - 1) as nat, rtl) {
            Ok(before) => match frames[n - 1].value {
                ValueView::Object(entries) => match frame_decls(entries, entries.len(), rtl) {
                    Ok(decls) => Ok(before + key_text(frames[n - 1].key) + "{"@ + decls + "}"@),
                    Err(d) => Err(d),
                },
                _ => Err(diagnostic_of(Message::IllegalNamespaceValue)),
            },
            Err(d) => Err(d),
        }
    }
}

/// The name of an animation: the prefix, the hash of its frames, and
/// `-B`.
pub open spec fn animation_name(frames: Seq<char>, prefix: Seq<char>) -> Seq<char> {
    prefix + hash_text(frames) + "-B"@
}

/// The rule of an animation.
pub open spec fn keyframes_rule(name: Seq<char>, frames: Seq<char>) -> Seq<char> {
    "@keyframes "@ + name + "{"@ + frames + "}"@
}

/// What the frames of an animation compile to: the animation's name, and
/// the style of its rule, with a rule for right-to-left text where that
/// differs. The frames must be an object.
pub open spec fn keyframes_of(frames: ValueView, prefix: Seq<char>) -> Result<ClassStyle, Diagnostic> {
    match frames {
        ValueView::Object(entries) => match (
            frames_text(entries, entries.len(), false),
            frames_text(entries, entries.len(), true),
        ) {
            (Ok(ltr), Ok(rtl)) => {
                let name = animation_name(ltr, prefix);
                Ok(
                    (
                        name,
                        InjectableStyleView {
                            ltr: keyframes_rule(name, ltr),
                            rtl: if rtl == ltr {
                                None
                            } else {
                                Some(keyframes_rule(name, rtl))
                            },
                            priority: 10,
                        },
                    ),
                )
            },
            (Err(d), _) => Err(d),
            (_, Err(d)) => Err(d),
        },
        _ => Err(diagnostic_of(Message::NonObjectForStylexCall)),
    }
}

/// Appends the declaration of one property of a frame.
fn push_frame_decl(out: &mut Vec<char>, key: &str, text: &str, rtl: bool)
    ensures
        final(out)@ == old(out)@ + frame_decl(key@, text@, rtl),
{
    let property = to_chars(dashify(key).as_str());
    let value = transform_value(key, text);
    let mirrored = if rtl {
        mirror_declaration(&property, &value)
    } else {
        None
    };
    match mirrored {
        Some(d) => {
            append_chars(out, &d);
            append_str(out, ";");
            assert(out@ =~= old(out)@ + frame_decl(key@, text@, rtl));
        },
        None => {
            append_chars(out, &property);
            append_str(out, ":");
            append_chars(out, &value);
            append_str(out, ";");
            assert(out@ =~= old(out)@ + (property@ + ":"@ + value@ + ";"@));
        },
    }
}

/// The declarations of a frame.
pub fn write_frame(entries: &Vec<MapEntry>, rtl: bool) -> (r: Result<Vec<char>, Diagnostic>)
    ensures
        match frame_decls(entries_view(entries@), entries.len() as nat, rtl) {
            Ok(text) => r is Ok && r->Ok_0@ == text,
            Err(d) => r is Err && r->Err_0 == d,
        },
{
    let ghost all = entries_view(entries@);
    let mut out: Vec<char> = Vec::new();
    let mut i: usize = 0;
    while i < entries.len()
        invariant
            i <= entries.len(),
            all == entries_view(entries@),
            frame_decls(all, i as nat, rtl) == Ok::<Seq<char>, Diagnostic>(out@),
        decreases entries.len() - i,
    {
        assert(all[i as int] == entries[i as int]@);
        match (&entries[i].key, text_of_scalar(&entries[i].value)) {
            (Key::Str(key), Some(text)) => {
                push_frame_decl(&mut out, key.as_str(), text.as_str(), rtl);
            },
            _ => {
                proof {
                    lemma_frame_decls_fail(all, (i + 1) as nat, entries.len() as nat, rtl);
                }
                return Err(Diagnostic::new(Message::IllegalPropValue));
            },
        }
        i += 1;
    }
    Ok(out)
}

/// Once the properties up to some place are rejected, all of them are.
proof fn lemma_frame_decls_fail(entries: Seq<MapEntryView>, i: nat, n: nat, rtl: bool)
    requires
        i <= n <= entries.len(),
        frame_decls(entries, i, rtl) is Err,
    ensures
        frame_decls(entries, n, rtl) == frame_decls(entries, i, rtl),
    decreases n,
{
    if i < n {
        lemma_frame_decls_fail(entries, i, (n - 1) as nat, rtl);
    }
}

/// The text of the frames of an animation.
#[verifier::rlimit(60)]
pub fn write_frames(frames: &Vec<MapEntry>, rtl: bool) -> (r: Result<Vec<char>, Diagnostic>)
    ensures
        match frames_text(entries_view(frames@), frames.len() as nat, rtl) {
            Ok(text) => r is Ok && r->Ok_0@ == text,
            Err(d) => r is Err && r->Err_0 == d,
        },
{
    let ghost all = entries_view(frames@);
    let mut out: Vec<char> = Vec::new();
    let mut i: usize = 0;
    while i < frames.len()
        invariant
            i <= frames.len(),
            all == entries_view(frames@),
            frames_text(all, i as nat, rtl) == Ok::<Seq<char>, Diagnostic>(out@),
        decreases frames.len() - i,
    {
        assert(all[i as int] == frames[i as int]@);
        let decls = match &frames[i].value {
            Value::Object(entries) => {
                proof {
                    lemma_map_view(*entries);
                }
                write_frame(entries, rtl)
            },
            _ => Err(Diagnostic::new(Message::IllegalNamespaceValue)),
        };
        match decls {
            Ok(decls) => {
                let ghost before = out@;
                let offset = key_to_string(&frames[i].key);
                append_str(&mut out, offset.as_str());
                append_str(&mut out, "{");
                append_chars(&mut out, &decls);
                append_str(&mut out, "}");
                assert(out@ =~= before + offset@ + "{"@ + decls@ + "}"@);
            },
            Err(d) => {
                proof {
                    lemma_frames_text_fail(all, (i + 1) as nat, frames.len() as nat, rtl);
                }
                return Err(d);
            },
        }
        i += 1;
    }
    Ok(out)
}

/// Once the frames up to some place are rejected, all of them are.
proof fn lemma_frames_text_fail(frames: Seq<MapEntryView>, i: nat, n: nat, rtl: bool)
    requires
        i <= n <= frames.len(),
        frames_text(frames, i, rtl) is Err,
    ensures
        frames_text(frames, n, rtl) == frames_text(frames, i, rtl),
    decreases n,
{
    if i < n {
        lemma_frames_text_fail(frames, i, (n - 1) as nat, rtl);
    }
}

/// The rule of an animation.
fn write_keyframes_rule(name: &str, frames: &Vec<char>) -> (rule: String)
    ensures
        rule@ == keyframes_rule(name@, frames@),
{
    let mut out: Vec<char> = Vec::new();
    append_str(&mut out, "@keyframes ");
    append_str(&mut out, name);
    append_str(&mut out, "{");
    append_chars(&mut out, frames);
    append_str(&mut out, "}");
    assert(out@ =~= keyframes_rule(name@, frames@));
    from_chars(&out)
}

/// Compiles the frames of an animation to its name and its style.
pub fn stylex_keyframes(frames: &Value, prefix: &str) -> (r: Result<(String, InjectableStyle), Diagnostic>)
    ensures
        match keyframes_of(frames@, prefix@) {
            Ok(style) => r is Ok && (r->Ok_0.0@, r->Ok_0.1@) == style,
            Err(d) => r is Err && r->Err_0 == d,
        },
{
    let entries = match frames {
        Value::Object(entries) => entries,
        _ => {
            return Err(Diagnostic::new(Message::NonObjectForStylexCall));
        },
    };
    proof {
        lemma_map_view(*entries);
    }
    let ltr = match write_frames(entries, false) {
        Ok(text) => text,
        Err(d) => {
            return Err(d);
        },
    };
    let rtl = match write_frames(entries, true) {
        Ok(text) => text,
        Err(d) => {
            return Err(d);
        },
    };
    let hash = create_hash(from_chars(&ltr).as_str());
    let mut name_chars = to_chars(prefix);
    append_str(&mut name_chars, hash.as_str());
    append_str(&mut name_chars, "-B");
    assert(name_chars@ =~= animation_name(ltr@, prefix@));
    let name = from_chars(&name_chars);
    let rtl_rule = if crate::text::same_chars(&rtl, &ltr) {
        None
    } else {
        Some(write_keyframes_rule(name.as_str(), &rtl))
    };
    let style = InjectableStyle {
        ltr: write_keyframes_rule(name.as_str(), &ltr),
        rtl: rtl_rule,
        priority: 10,
    };
    Ok((name, style))
}

/// What a call that defines an animation compiles to: the call must have
/// one argument, not spread, with a static value, and the value must be
/// frames.
pub open spec fn keyframes_compiled(state: StateManager, call: CallExprView) -> Result<ClassStyle, Diagnostic> {
    if call.args.len() != 1 {
        Err(diagnostic_of(Message::IllegalArgumentLength))
    } else if call.args[0].spread {
        Err(diagnostic_of(Message::SpreadNotSupported))
    } else {
        match evaluated(
            *call.args[0].expr,
            ScopeView {
                decls: decls_view(state.declarations@),
                functions: Seq::<FunctionBindingView>::empty(),
                computed: state.computed@,
            },
        ) {
            Ok(frames) => keyframes_of(frames, state.options.class_name_prefix@),
            Err(_) => Err(diagnostic_of(Message::NonStaticValue)),
        }
    }
}

/// The state after a call that defines an animation was rewritten to the
/// animation's name: the animation is kept with the keyframes to inject,
/// unless one of its name is kept already, and its style is registered.
pub open spec fn keyframes_rewritten(pre: StateManager, post: StateManager, call: CallExprView, style: ClassStyle, ast: ExprView) -> bool {
    &&& ast == ExprView::Lit(LitView::Str(style.0))
    &&& exists|mid: StateManager|
        mid == (StateManager { injected_keyframes: mid.injected_keyframes, ..pre })
            && injected_entries(mid.injected_keyframes) == with_class(
            injected_entries(pre.injected_keyframes),
            style,
        ) && #[trigger] registered(
            mid,
            post,
            call,
            seq![style],
            ast,
            initialised_name(decls_view(pre.declarations@), ExprView::Call(call)),
        )
}

/// What rewriting a call that defines an animation gives, and what it
/// does to the state. A call that defines none is left alone; where the
/// call cannot be compiled, the diagnostic comes with the place of the
/// call. In both cases the state is as before.
pub open spec fn keyframes_transformed(
    pre: StateManager,
    post: StateManager,
    call: CallExprView,
    r: Result<Option<Expr>, Diagnostic>,
) -> bool {
    if !calls_library(call, pre.stylex_keyframes_import@, pre.stylex_import.order(), "keyframes"@) {
        r == Ok::<Option<Expr>, Diagnostic>(None) && post == pre
    } else {
        match keyframes_compiled(pre, call) {
            Err(d) => r == Err::<Option<Expr>, Diagnostic>(at_call(d, call)) && post == pre,
            Ok(style) => r matches Ok(Some(ast)) && keyframes_rewritten(pre, post, call, style, ast@),
        }
    }
}

/// Checks, evaluates and compiles a call that defines an animation.
pub fn compile_keyframes(state: &StateManager, call: &CallExpr) -> (r: Result<
    (String, InjectableStyle),
    Diagnostic,
>)
    ensures
        match keyframes_compiled(*state, call@) {
            Ok(style) => r is Ok && (r->Ok_0.0@, r->Ok_0.1@) == style,
            Err(d) => r is Err && r->Err_0 == d,
        },
{
    proof {
        lemma_call_view(*call);
    }
    if call.args.len() != 1 {
        return Err(Diagnostic::new(Message::IllegalArgumentLength));
    }
    assert(elems_view(call.args@)[0] == call.args[0]@);
    if call.args[0].spread {
        return Err(Diagnostic::new(Message::SpreadNotSupported));
    }
    let functions = FunctionMap::new();
    let scope = Scope { decls: &state.declarations, functions: &functions, computed: &state.computed };
    assert(scope@.decls =~= decls_view(state.declarations@));
    let report = evaluate(&call.args[0].expr, &scope);
    match report.value {
        Some(frames) => stylex_keyframes(&frames, state.options.class_name_prefix.as_str()),
        None => Err(Diagnostic::new(Message::NonStaticValue)),
    }
}

impl ModuleTransformVisitor {
    /// Rewrites a call that defines an animation: the call gives way to
    /// the animation's name.
    pub fn transform_stylex_keyframes_call(&mut self, call: &CallExpr) -> (r: Result<Option<Expr>, Diagnostic>)
        ensures
            final(self).cycle == old(self).cycle,
            final(self).props_declaration == old(self).props_declaration,
            final(self).declaration == old(self).declaration,
            final(self).runtime_injection == old(self).runtime_injection,
            keyframes_transformed(old(self).state, final(self).state, call@, r),
    {
        proof {
            lemma_call_view(*call);
        }
        if !call_is_of(call, &self.state.stylex_keyframes_import, &self.state.stylex_import, "keyframes") {
            return Ok(None);
        }
        match compile_keyframes(&self.state, call) {
            Err(d) => Err(d.at(call.span)),
            Ok((name, style)) => {
                let ast = Expr::Lit(Lit::Str(name.clone()));
                let target = Expr::Call(clone_call(call));
                proof {
                    lemma_call_view(target->Call_0);
                }
                let var_name = match find_parent_decl(&self.state.declarations, &target) {
                    Some(decl) => match &decl.name {
                        Pat::Ident(id) => Some(id.sym.clone()),
                        Pat::Other => None,
                    },
                    None => None,
                };
                let ghost pre = self.state;
                if !injected_contains(&self.state.injected_keyframes, name.as_str()) {
                    injected_insert(&mut self.state.injected_keyframes, name.clone(), style.clone());
                }
                let ghost mid = self.state;
                let mut one = injected_new();
                injected_insert(&mut one, name, style);
                assert(injected_entries(one) =~= seq![(name@, style@)]);
                self.state.register_styles(call, &one, &ast, &var_name);
                Ok(Some(ast))
            },
        }
    }
}

} // verus!
