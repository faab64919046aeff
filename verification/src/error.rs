//! The errors that analysis and evaluation report.

use crate::span::Span;
use vstd::prelude::*;

verus! {

/// The kind of a runtime value, as named in error messages.
#[derive(Clone, Copy, Debug, PartialEq, Eq, Structural)]
pub enum ValueKind {
    Integer,
    Boolean,
    Null,
    Void,
    String,
    Array,
    Tuple,
    Object,
    OkResult,
    ErrResult,
    Return,
    Break,
    Continue,
    Function,
    Enum,
    Struct,
    Module,
    Type,
}

/// The four families of error the language distinguishes.
#[derive(Clone, Copy, Debug, PartialEq, Eq, Structural)]
pub enum ErrorCategory {
    SyntaxError,
    TypeError,
    ReferenceError,
    RuntimeError,
}

/// What went wrong, with the names and values the message is made of.
#[derive(Debug)]
pub enum ErrorKind {
    /// A local variable read inside its own initializer.
    OwnInitializer,
    /// An assignment to a binding declared constant.
    ConstantAssignment { name: String },
    /// No binding of that name anywhere up the scope chain.
    VariableNotFound { name: String },
    /// A resolved distance that leads past the outermost scope.
    InvalidScopeDistance { distance: usize, name: String },
    /// No binding of that name in the scope at the resolved distance.
    NotFoundAtDistance { name: String, distance: usize },
    /// An unresolved variable missing from the current scope.
    UnknownVariable { name: String },
    /// An identifier with no binding.
    NotDefined { name: String },
    /// `this` used where nothing is bound to it.
    ThisNotDefined,
    /// A private field or method used outside its struct.
    PrivateMember { member: String },
    /// An index that is not an integer.
    IndexNotInteger { found: ValueKind },
    /// An object key that is not a string.
    KeyNotString { found: ValueKind },
    /// Indexing a value that has no elements.
    NotIndexable { found: ValueKind },
    /// A member access whose property is not a name.
    InvalidPropertyAccess,
    /// A member that a struct instance has neither as field nor as method.
    MemberNotFound { property: String, struct_name: String },
    /// An instance method taken from the struct itself.
    InstanceMethodOnStruct { method: String, struct_name: String },
    /// A method that the struct does not declare.
    MethodNotFound { method: String, struct_name: String },
    /// A module binding that is not public.
    PrivateProperty { property: String },
    /// A name that the module does not bind.
    PropertyNotInModule { property: String },
    /// A member access on an enum value other than `variant` and `name`.
    EnumMemberAccess { enum_name: String, variant: String, property: String },
    /// A member access on a value that has no members.
    NoMemberAccess { found: ValueKind },
    /// A destructured name that the module does not export.
    NotExported { name: String, module: String },
    /// Destructuring a value that is not a module.
    DestructureNonModule,
    /// A `for` loop over a value that cannot be iterated.
    NotIterable { found: ValueKind },
    /// A nested `for` binding over a value that is neither array nor tuple.
    DestructureNonSequence { found: ValueKind },
    /// More arguments than the function has parameters.
    TooManyArguments { expected: usize, found: usize },
    /// An enum constructor given the wrong number of arguments.
    VariantArity { expected: usize, enum_name: String, variant: String, found: usize },
    /// A call of a value that is not a function.
    NotCallable { found: ValueKind },
    /// A parameter with neither argument nor default.
    MissingArgument { parameter: String },
    /// A struct field with neither value nor default.
    MissingField { field: String },
    /// Struct construction where `this` is not a struct.
    NotStructDefinition { found: ValueKind },
    /// An object literal key that is neither a name nor a string.
    PropertyKeyNotString,
    /// A range pattern over integers whose bounds are not integers.
    IntegerRangeBounds,
    /// A range pattern over strings whose bounds are not strings.
    StringRangeBounds,
    /// An assignment whose property is not a name.
    InvalidAssignmentProperty,
    /// An assignment to a property of a constant object.
    ConstantObjectProperty,
    /// An indexed assignment into a constant object.
    ConstantObjectIndex,
    /// An indexed assignment into a constant array.
    ConstantArrayIndex,
    /// An indexed assignment into an object with a key that is not a string.
    ObjectIndexNotString,
    /// A property assignment on a value without properties.
    CannotAssignProperty { found: ValueKind },
    /// An indexed assignment on a value without elements.
    CannotAssignIndex { found: ValueKind },
    /// An assignment to something that is not a variable, property or element.
    InvalidAssignmentTarget,
    /// A control signal met while resolving an assignment target.
    EarlyReturnInTarget,
    /// A string index within the string's bytes but past its characters.
    CharIndexPastEnd { index: i64 },
    /// An index outside a fixed-size array.
    IndexOutOfBounds { index: i64, size: i64 },
    /// A `std:` module that the standard library does not provide.
    StdModuleNotFound { name: String },
    /// A module file that could not be found.
    ModuleFileNotFound { path: String },
    /// A value that does not have the annotated type.
    TypeMismatch { found: ValueKind },
    /// An operator applied to operands it does not support.
    UnsupportedOperands { found: ValueKind },
    /// Integer arithmetic whose result does not fit in 64 bits.
    IntegerOverflow,
    /// Division or remainder by zero.
    DivisionByZero,
    /// An error value that reached the top level or a `?`.
    UncaughtErr,
    /// A call of a native function, which this runtime does not provide.
    NativeUnavailable { name: String },
    /// The evaluation used up its budget of loop iterations.
    StepLimit,
    /// Calls nested deeper than the evaluation allows.
    CallDepthExceeded,
    /// The heap's allocation counter is exhausted.
    AllocationLimit,
}

/// An error with the span it concerns and, once known, the source text and
/// file it came from.
#[derive(Debug)]
pub struct Error {
    pub kind: ErrorKind,
    pub span: Span,
    pub source: Option<String>,
    pub file: Option<String>,
}

/// The family each kind of error belongs to.
pub open spec fn category_of(kind: ErrorKind) -> ErrorCategory {
    match kind {
        ErrorKind::OwnInitializer => ErrorCategory::SyntaxError,
        ErrorKind::VariableNotFound { .. }
        | ErrorKind::NotFoundAtDistance { .. }
        | ErrorKind::UnknownVariable { .. }
        | ErrorKind::NotDefined { .. }
        | ErrorKind::ThisNotDefined
        | ErrorKind::MemberNotFound { .. }
        | ErrorKind::MethodNotFound { .. }
        | ErrorKind::PropertyNotInModule { .. }
        | ErrorKind::NotExported { .. }
        | ErrorKind::StdModuleNotFound { .. }
        | ErrorKind::ModuleFileNotFound { .. } => ErrorCategory::ReferenceError,
        ErrorKind::InvalidScopeDistance { .. }
        | ErrorKind::EarlyReturnInTarget
        | ErrorKind::CharIndexPastEnd { .. }
        | ErrorKind::UncaughtErr
        | ErrorKind::NativeUnavailable { .. }
        | ErrorKind::StepLimit
        | ErrorKind::CallDepthExceeded
        | ErrorKind::AllocationLimit => ErrorCategory::RuntimeError,
        _ => ErrorCategory::TypeError,
    }
}

impl ErrorKind {
    /// The family this error belongs to.
    pub fn category(&self) -> (c: ErrorCategory)
        ensures
            c == category_of(*self),
    {
        match self {
            ErrorKind::OwnInitializer => ErrorCategory::SyntaxError,
            ErrorKind::VariableNotFound { .. }
            | ErrorKind::NotFoundAtDistance { .. }
            | ErrorKind::UnknownVariable { .. }
            | ErrorKind::NotDefined { .. }
            | ErrorKind::ThisNotDefined
            | ErrorKind::MemberNotFound { .. }
            | ErrorKind::MethodNotFound { .. }
            | ErrorKind::PropertyNotInModule { .. }
            | ErrorKind::NotExported { .. }
            | ErrorKind::StdModuleNotFound { .. }
            | ErrorKind::ModuleFileNotFound { .. } => ErrorCategory::ReferenceError,
            ErrorKind::InvalidScopeDistance { .. }
            | ErrorKind::EarlyReturnInTarget
            | ErrorKind::CharIndexPastEnd { .. }
            | ErrorKind::UncaughtErr
            | ErrorKind::NativeUnavailable { .. }
            | ErrorKind::StepLimit
            | ErrorKind::CallDepthExceeded
            | ErrorKind::AllocationLimit => ErrorCategory::RuntimeError,
            _ => ErrorCategory::TypeError,
        }
    }

    /// Attaches a span to this kind, as `ErrorKind::at` does.
    pub fn at(self, span: Span) -> (e: Error)
        ensures
            e.kind == self,
            e.span == span,
            e.source is None,
            e.file is None,
    {
        Error { kind: self, span, source: None, file: None }
    }
}

impl Error {
    /// An error of the given kind at the given span, with no source context yet.
    pub fn new(kind: ErrorKind, span: Span) -> (e: Error)
        ensures
            e.kind == kind,
            e.span == span,
            e.source is None,
            e.file is None,
    {
        Error { kind, span, source: None, file: None }
    }
}

} // verus!
