//! Diagnostics: why a module could not be transformed.
use vstd::prelude::*;
use crate::ast::Span;

verus! {

/// The kind of a diagnostic.
#[derive(Clone, Copy, Debug, PartialEq, Eq, Structural)]
pub enum ErrorKind {
    /// An expression that had to be reduced to a value could not be.
    NonStaticValue,
    /// A call of the styling library has arguments of the wrong number or
    /// shape.
    IllegalArgument,
    /// A style holds a value of a kind that it may not hold.
    IllegalValue,
    /// An import could not be resolved where it had to be.
    Unresolved,
}

/// What a diagnostic says.
#[derive(Clone, Copy, Debug, PartialEq, Eq, Structural)]
pub enum Message {
    NonStaticValue,
    IllegalArgumentLength,
    NonObjectForStylexCall,
    UnboundStylexCallValue,
    IllegalNamespaceValue,
    IllegalPropValue,
    IllegalPropArrayValue,
    InvalidPseudoOrAtRule,
    DuplicateConditional,
    OnlyTopLevelIncludes,
    OnlyNamedParametersInDynamicStyleFunctions,
    SpreadNotSupported,
    UnknownImport,
    NotAThemeReference,
    UnresolvedImport,
}

/// A diagnostic: fatal to the module in which it arises.
#[derive(Clone, Copy, Debug, PartialEq, Eq, Structural)]
pub struct Diagnostic {
    pub kind: ErrorKind,
    pub message: Message,
    /// The call at which the diagnostic arose, where it is known.
    pub span: Option<Span>,
}

/// The kind under which a message is reported.
pub open spec fn kind_of(message: Message) -> ErrorKind {
    match message {
        Message::NonStaticValue => ErrorKind::NonStaticValue,
        Message::IllegalNamespaceValue | Message::IllegalPropValue | Message::IllegalPropArrayValue | Message::InvalidPseudoOrAtRule => ErrorKind::IllegalValue,
        Message::UnresolvedImport => ErrorKind::Unresolved,
        _ => ErrorKind::IllegalArgument,
    }
}

/// The diagnostic for a message, without a place.
pub open spec fn diagnostic_of(message: Message) -> Diagnostic {
    Diagnostic { kind: kind_of(message), message, span: None }
}

impl Diagnostic {
    /// The diagnostic for a message, without a place.
    pub fn new(message: Message) -> (d: Diagnostic)
        ensures
            d == diagnostic_of(message),
    {
        let kind = match message {
            Message::NonStaticValue => ErrorKind::NonStaticValue,
            Message::IllegalNamespaceValue | Message::IllegalPropValue | Message::IllegalPropArrayValue | Message::InvalidPseudoOrAtRule => ErrorKind::IllegalValue,
            Message::UnresolvedImport => ErrorKind::Unresolved,
            _ => ErrorKind::IllegalArgument,
        };
        Diagnostic { kind, message, span: None }
    }

    /// The same diagnostic at the given place.
    pub fn at(self, span: Span) -> (d: Diagnostic)
        ensures
            d == (Diagnostic { kind: self.kind, message: self.message, span: Some(span) }),
    {
        Diagnostic { kind: self.kind, message: self.message, span: Some(span) }
    }
}

/// A message in words.
pub open spec fn message_text(message: Message) -> Seq<char> {
    match message {
        Message::NonStaticValue => "Only static values are allowed inside of a stylex.create() call."@,
        Message::IllegalArgumentLength => "stylex.create() should have 1 argument."@,
        Message::NonObjectForStylexCall => "stylex.create() can only accept a style object."@,
        Message::UnboundStylexCallValue => "stylex.create calls must be bound to a bare variable."@,
        Message::IllegalNamespaceValue => "A stylex namespace must be an object."@,
        Message::IllegalPropValue => "A style value can only contain an array, string or number."@,
        Message::IllegalPropArrayValue => "A style array value can only contain strings or numbers."@,
        Message::InvalidPseudoOrAtRule => "Invalid pseudo selector or at-rule."@,
        Message::DuplicateConditional => "The same pseudo selector or at-rule cannot be used more than once."@,
        Message::OnlyTopLevelIncludes => "stylex.include() is only at the top level of a style definition object."@,
        Message::OnlyNamedParametersInDynamicStyleFunctions => "Only named parameters are allowed in Dynamic Style functions. Destructuring, spreading or default values are not allowed."@,
        Message::SpreadNotSupported => "Spread is not supported here."@,
        Message::UnknownImport => "Only the functions of the styling library can be imported from its module."@,
        Message::NotAThemeReference => "Can only override variables theme created with stylex.defineVars()."@,
        Message::UnresolvedImport => "Could not resolve the path to the imported file."@,
    }
}

impl Message {
    /// The message in words.
    pub fn text(&self) -> (words: String)
        ensures
            words@ == message_text(*self),
    {
        match self {
            Message::NonStaticValue => "Only static values are allowed inside of a stylex.create() call.".to_string(),
            Message::IllegalArgumentLength => "stylex.create() should have 1 argument.".to_string(),
            Message::NonObjectForStylexCall => "stylex.create() can only accept a style object.".to_string(),
            Message::UnboundStylexCallValue => "stylex.create calls must be bound to a bare variable.".to_string(),
            Message::IllegalNamespaceValue => "A stylex namespace must be an object.".to_string(),
            Message::IllegalPropValue => "A style value can only contain an array, string or number.".to_string(),
            Message::IllegalPropArrayValue => "A style array value can only contain strings or numbers.".to_string(),
            Message::InvalidPseudoOrAtRule => "Invalid pseudo selector or at-rule.".to_string(),
            Message::DuplicateConditional => "The same pseudo selector or at-rule cannot be used more than once.".to_string(),
            Message::OnlyTopLevelIncludes => "stylex.include() is only at the top level of a style definition object.".to_string(),
            Message::OnlyNamedParametersInDynamicStyleFunctions => "Only named parameters are allowed in Dynamic Style functions. Destructuring, spreading or default values are not allowed.".to_string(),
            Message::SpreadNotSupported => "Spread is not supported here.".to_string(),
            Message::UnknownImport => "Only the functions of the styling library can be imported from its module.".to_string(),
            Message::NotAThemeReference => "Can only override variables theme created with stylex.defineVars().".to_string(),
            Message::UnresolvedImport => "Could not resolve the path to the imported file.".to_string(),
        }
    }
}

} // verus!
