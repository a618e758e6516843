//! What the rewriting of a call that consumes styles gives.
use vstd::prelude::*;
use crate::ast::Expr;
use crate::create::FlatCompiledStyles;
use crate::state::StylesObjectMap;

verus! {

/// Compiled styles, by namespace or of one namespace.
#[derive(Debug)]
pub enum NestedStringObject {
    FlatCompiledStyles(StylesObjectMap),
    FlatCompiledStylesValues(FlatCompiledStyles),
}

/// What the rewriting of a call that consumes styles gives.
#[derive(Debug)]
pub enum FnResult {
    Attrs(NestedStringObject),
    Props(NestedStringObject),
    Stylex(Expr),
}

impl FnResult {
    /// The properties, where the result holds properties.
    pub fn as_props(&self) -> (props: Option<&NestedStringObject>)
        ensures
            match self {
                FnResult::Props(p) => props == Some(p),
                _ => props is None,
            },
    {
        match self {
            FnResult::Props(props) => Some(props),
            _ => None,
        }
    }

    /// The expression, where the result holds one.
    pub fn as_stylex(&self) -> (expr: Option<&Expr>)
        ensures
            match self {
                FnResult::Stylex(e) => expr == Some(e),
                _ => expr is None,
            },
    {
        match self {
            FnResult::Stylex(expr) => Some(expr),
            _ => None,
        }
    }

    /// The attributes, where the result holds attributes.
    pub fn _as_attrs(&self) -> (attrs: Option<&NestedStringObject>)
        ensures
            match self {
                FnResult::Attrs(a) => attrs == Some(a),
                _ => attrs is None,
            },
    {
        match self {
            FnResult::Attrs(attrs) => Some(attrs),
            _ => None,
        }
    }
}

} // verus!
