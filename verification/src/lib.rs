//! Compile-time transformer for atomic CSS-in-source styles.
//!
//! The library models the syntax tree it reads as plain data, evaluates
//! style literals statically, flattens them into atomic rules, compiles
//! each rule to a hashed class name with its CSS text, and records what
//! a host has to inject.
use vstd::prelude::*;

pub mod ast;
pub mod collections;
pub mod common;
pub mod compare;
pub mod convert;
pub mod create;
pub mod css;
pub mod decimal;
pub mod driver;
pub mod errors;
pub mod evaluate;
pub mod factories;
pub mod flatten;
pub mod fn_result;
pub mod functions;
pub mod hash;
pub mod imports;
pub mod inject;
pub mod injected;
pub mod keyframes;
pub mod lookup;
pub mod number;
pub mod operators;
pub mod options;
pub mod paths;
pub mod pre_rule;
pub mod props;
pub mod register;
pub mod rule;
pub mod shorthands;
pub mod state;
pub mod text;
pub mod theme_calls;
pub mod themes;
pub mod validators;
pub mod value;
pub mod visitor;

verus! {

/// Takes a value out of its box.
pub fn unbox<T>(value: Box<T>) -> (inner: T)
    ensures
        inner == *value,
{
    *value
}

/// Takes a boxed value out of an option that is known to hold one.
pub fn _unbox_option<T>(item: Option<Box<T>>) -> (inner: T)
    requires
        item is Some,
    ensures
        inner == *item->0,
{
    match item {
        Some(boxed) => unbox(boxed),
        None => vstd::pervasive::unreached(),
    }
}

} // verus!
