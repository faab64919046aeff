//! Runtime values. Values that are shared and may change (arrays, objects)
//! or that are large and immutable (tuples, enum payloads, types, struct
//! definitions) live in the heap or the scope arena and are referred to by
//! index, so that copying a value copies a reference, as sharing does.

use crate::ast::{FunctionBody, Parameter, Type};
use crate::error::ValueKind;
use vstd::prelude::*;

verus! {

/// A function's return type: resolved, as an index of the type arena (that
/// of a function declaration or literal), or as written in the syntax tree
/// (that of a struct method).
#[derive(Debug, Clone, Copy)]
pub enum ReturnType<'a> {
    Resolved(usize),
    Declared(&'a Type),
}

/// A function written in the language: its parameters and body in the
/// syntax tree, and its return type, if it declares one.
#[derive(Debug)]
pub struct UserFunction<'a> {
    pub parameters: &'a Vec<Parameter>,
    pub body: &'a FunctionBody,
    pub ty: Option<ReturnType<'a>>,
}

/// The callable values.
#[derive(Debug)]
pub enum Function<'a> {
    /// A function of the standard library, known by name.
    Native { name: String },
    /// A user function with the scope it closes over and, for a bound
    /// method, the instance bound to `this`.
    User { func: UserFunction<'a>, env: Option<usize>, this: Option<Box<Object<'a>>> },
    /// The constructor of an enum variant that carries `field_count` values.
    Enum { name: String, variant: String, field_count: usize },
}

/// A runtime value.
#[derive(Debug)]
pub enum Object<'a> {
    Integer(i64),
    Boolean(bool),
    Null,
    Void,
    String(String),
    /// A mutable array: its elements are heap array `id`, `kind` its type.
    Array { id: usize, kind: usize, constant: bool },
    /// An immutable tuple: its elements are heap tuple `id`.
    Tuple { id: usize },
    /// A mutable object: its properties are heap object `id`; `definition`
    /// is the struct it was constructed from, if any.
    Object { id: usize, definition: Option<usize>, constant: bool },
    /// A successful result.
    OkValue(Box<Object<'a>>),
    /// A failed result.
    ErrValue(Box<Object<'a>>),
    /// The signal of a `return`, carrying the returned value.
    Return(Box<Object<'a>>),
    /// The signal of a `break`.
    Break,
    /// The signal of a `continue`.
    Continue,
    Function(Function<'a>),
    /// A value of an enum; `fields` is the heap tuple of its payload.
    Enum { name: String, variant: String, fields: Option<usize> },
    /// A struct definition, by its index in the heap.
    Struct(usize),
    /// A module: a scope of the scope arena.
    Scope(usize),
    /// A type, by its index in the type arena.
    Type(usize),
}

/// The kind of a value, as error messages name it.
pub open spec fn kind_of(o: Object) -> ValueKind {
    match o {
        Object::Integer(_) => ValueKind::Integer,
        Object::Boolean(_) => ValueKind::Boolean,
        Object::Null => ValueKind::Null,
        Object::Void => ValueKind::Void,
        Object::String(_) => ValueKind::String,
        Object::Array { .. } => ValueKind::Array,
        Object::Tuple { .. } => ValueKind::Tuple,
        Object::Object { .. } => ValueKind::Object,
        Object::OkValue(_) => ValueKind::OkResult,
        Object::ErrValue(_) => ValueKind::ErrResult,
        Object::Return(_) => ValueKind::Return,
        Object::Break => ValueKind::Break,
        Object::Continue => ValueKind::Continue,
        Object::Function(_) => ValueKind::Function,
        Object::Enum { .. } => ValueKind::Enum,
        Object::Struct(_) => ValueKind::Struct,
        Object::Scope(_) => ValueKind::Module,
        Object::Type(_) => ValueKind::Type,
    }
}

/// Whether a value counts as true in a condition: everything but `false`,
/// `null` and the empty value.
pub open spec fn truthy(o: Object) -> bool {
    match o {
        Object::Boolean(b) => b,
        Object::Null => false,
        Object::Void => false,
        _ => true,
    }
}

/// Whether a value is a control signal: a return, break or continue.
pub open spec fn is_control(o: Object) -> bool {
    o is Return || o is Break || o is Continue
}

/// A `return` of an error result, seen as the error itself; any other value
/// is left as it is.
pub open spec fn strip_return_err<'a>(o: Object<'a>) -> Object<'a> {
    match o {
        Object::Return(inner) => if *inner is ErrValue { *inner } else { o },
        _ => o,
    }
}

/// The value a `return` carries; any other value is left as it is.
pub open spec fn strip_return<'a>(o: Object<'a>) -> Object<'a> {
    match o {
        Object::Return(inner) => *inner,
        _ => o,
    }
}

/// The value with its constant flag set to `c`, for arrays and objects;
/// other values carry no flag.
pub open spec fn with_constant<'a>(o: Object<'a>, c: bool) -> Object<'a> {
    match o {
        Object::Array { id, kind, .. } => Object::Array { id, kind, constant: c },
        Object::Object { id, definition, .. } => Object::Object { id, definition, constant: c },
        _ => o,
    }
}

/// A copy of a user function: the same syntax and resolved return type.
pub fn copy_user_function<'a>(f: &UserFunction<'a>) -> (r: UserFunction<'a>)
    ensures
        r == *f,
{
    UserFunction { parameters: f.parameters, body: f.body, ty: f.ty }
}

/// A copy of a function value.
pub fn copy_function<'a>(f: &Function<'a>) -> (r: Function<'a>)
    ensures
        r == *f,
    decreases f,
{
    match f {
        Function::Native { name } => Function::Native { name: name.clone() },
        Function::User { func, env, this } => {
            let this_copy = match this {
                Some(t) => Some(Box::new(copy_object(t))),
                None => None,
            };
            Function::User { func: copy_user_function(func), env: *env, this: this_copy }
        },
        Function::Enum { name, variant, field_count } => Function::Enum {
            name: name.clone(),
            variant: variant.clone(),
            field_count: *field_count,
        },
    }
}

/// A copy of a value. Values in the heap are shared, not duplicated: the
/// copy refers to the same array, tuple or object.
pub fn copy_object<'a>(o: &Object<'a>) -> (r: Object<'a>)
    ensures
        r == *o,
    decreases o,
{
    match o {
        Object::Integer(i) => Object::Integer(*i),
        Object::Boolean(b) => Object::Boolean(*b),
        Object::Null => Object::Null,
        Object::Void => Object::Void,
        Object::String(s) => Object::String(s.clone()),
        Object::Array { id, kind, constant } => Object::Array { id: *id, kind: *kind, constant: *constant },
        Object::Tuple { id } => Object::Tuple { id: *id },
        Object::Object { id, definition, constant } => Object::Object {
            id: *id,
            definition: *definition,
            constant: *constant,
        },
        Object::OkValue(inner) => Object::OkValue(Box::new(copy_object(inner))),
        Object::ErrValue(inner) => Object::ErrValue(Box::new(copy_object(inner))),
        Object::Return(inner) => Object::Return(Box::new(copy_object(inner))),
        Object::Break => Object::Break,
        Object::Continue => Object::Continue,
        Object::Function(f) => Object::Function(copy_function(f)),
        Object::Enum { name, variant, fields } => Object::Enum {
            name: name.clone(),
            variant: variant.clone(),
            fields: *fields,
        },
        Object::Struct(id) => Object::Struct(*id),
        Object::Scope(id) => Object::Scope(*id),
        Object::Type(id) => Object::Type(*id),
    }
}

impl<'a> Object<'a> {
    /// The kind of this value, as error messages name it.
    pub fn value_kind(&self) -> (k: ValueKind)
        ensures
            k == kind_of(*self),
    {
        match self {
            Object::Integer(_) => ValueKind::Integer,
            Object::Boolean(_) => ValueKind::Boolean,
            Object::Null => ValueKind::Null,
            Object::Void => ValueKind::Void,
            Object::String(_) => ValueKind::String,
            Object::Array { .. } => ValueKind::Array,
            Object::Tuple { .. } => ValueKind::Tuple,
            Object::Object { .. } => ValueKind::Object,
            Object::OkValue(_) => ValueKind::OkResult,
            Object::ErrValue(_) => ValueKind::ErrResult,
            Object::Return(_) => ValueKind::Return,
            Object::Break => ValueKind::Break,
            Object::Continue => ValueKind::Continue,
            Object::Function(_) => ValueKind::Function,
            Object::Enum { .. } => ValueKind::Enum,
            Object::Struct(_) => ValueKind::Struct,
            Object::Scope(_) => ValueKind::Module,
            Object::Type(_) => ValueKind::Type,
        }
    }

    /// Whether this value counts as true in a condition.
    pub fn is_truthy(&self) -> (b: bool)
        ensures
            b == truthy(*self),
    {
        match self {
            Object::Boolean(b) => *b,
            Object::Null => false,
            Object::Void => false,
            _ => true,
        }
    }

    /// Whether this value is a return, break or continue signal.
    pub fn is_control_signal(&self) -> (b: bool)
        ensures
            b == is_control(*self),
    {
        match self {
            Object::Return(_) | Object::Break | Object::Continue => true,
            _ => false,
        }
    }

    /// Whether this value is an error result.
    pub fn is_result_err(&self) -> (b: bool)
        ensures
            b == (*self is ErrValue),
    {
        match self {
            Object::ErrValue(_) => true,
            _ => false,
        }
    }

    /// A `return` of an error result seen as the error itself.
    pub fn unwrap_return_err(&self) -> (r: &Object<'a>)
        ensures
            *r == strip_return_err(*self),
    {
        match self {
            Object::Return(inner) => {
                if inner.is_result_err() {
                    inner
                } else {
                    self
                }
            },
            _ => self,
        }
    }

    /// The value a `return` carries, or this value when it is not a return.
    pub fn unwrap_return(&self) -> (r: &Object<'a>)
        ensures
            *r == strip_return(*self),
    {
        match self {
            Object::Return(inner) => inner,
            _ => self,
        }
    }

    /// Sets the constant flag of an array or object.
    pub fn set_constant(&mut self, constant: bool)
        ensures
            *final(self) == with_constant(*old(self), constant),
    {
        match self {
            Object::Array { constant: c, .. } => {
                *c = constant;
            },
            Object::Object { constant: c, .. } => {
                *c = constant;
            },
            _ => {},
        }
    }
}

} // verus!
