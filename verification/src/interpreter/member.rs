//! Member access (`value.name`) and the function values that user
//! functions and struct methods become.

use crate::ast::{Expression, ExpressionKind, FunctionBody, Parameter, StructMethod};
use crate::error::{Error, ErrorKind};
use crate::interpreter::eval::error_at;
use crate::interpreter::Interpreter;
use crate::memory::heap::{last_field_named, last_method_named, prop_get, props_get};
use crate::memory::stack::find_local;
use crate::object::{copy_object, kind_of, Function, Object, ReturnType, UserFunction};
use crate::span::Span;
use vstd::prelude::*;

verus! {

/// Whether `r` is the function value of method `m`, bound to `this` if given:
/// it has the method's parameters, body and return type as written, and no
/// closure scope.
pub open spec fn is_method_value<'a>(r: Object<'a>, m: StructMethod, this: Option<Object<'a>>) -> bool {
    &&& r matches Object::Function(Function::User { func, env, this: t })
    &&& *func.parameters == m.parameters
    &&& *func.body == m.body
    &&& match func.ty {
        Some(ReturnType::Declared(t)) => m.ty == Some(*t),
        Some(ReturnType::Resolved(_)) => false,
        None => m.ty is None,
    }
    &&& env is None
    &&& match this {
        Some(o) => t == Some(Box::new(o)),
        None => t is None,
    }
}

/// A method's return type as written, if it declares one.
fn declared_type<'a>(method: &'a StructMethod) -> (r: Option<ReturnType<'a>>)
    ensures
        match r {
            Some(ReturnType::Declared(t)) => method.ty == Some(*t),
            Some(ReturnType::Resolved(_)) => false,
            None => method.ty is None,
        },
{
    match &method.ty {
        Some(t) => Some(ReturnType::Declared(t)),
        None => None,
    }
}

/// A private member may be used only while a method of its own struct runs,
/// which is when `__current_struct__` names that struct.
pub open spec fn accessible(it: Interpreter, public: bool, struct_name: Seq<char>) -> bool {
    public || (it.stack.lookup("__current_struct__"@) matches Some(Object::String(n)) && n@ == struct_name)
}

/// What `object.property` gives, as `eval_access_expression` says, where
/// it is a value or an error: `None` where it is a method's function
/// value, which `is_method_value` describes.
pub open spec fn access_outcome<'a>(it: Interpreter<'a>, object: Object<'a>, property: Expression, span: Span) -> Option<
    Result<Object<'a>, Error>,
> {
    match property.kind {
        ExpressionKind::Identifier(pname) => match object {
            Object::Object { id, definition, .. } => {
                let props = if id < it.heap.objects.len() {
                    it.heap.objects@[id as int]@
                } else {
                    Seq::empty()
                };
                let def = match definition {
                    Some(d) => if d < it.heap.structs.len() {
                        Some(it.heap.structs@[d as int])
                    } else {
                        None
                    },
                    None => None,
                };
                match prop_get(props, pname@) {
                    Some(v) => match def {
                        Some(sd) => match last_field_named(sd.fields@, pname@, sd.fields@.len() as int) {
                            Some(i) => if accessible(it, sd.fields@[i].public, sd.name@) {
                                Some(Ok(v))
                            } else {
                                Some(Err(error_at(ErrorKind::PrivateMember { member: pname }, span)))
                            },
                            None => Some(Ok(v)),
                        },
                        None => Some(Ok(v)),
                    },
                    None => match def {
                        Some(sd) => match last_method_named(sd.methods@, pname@, sd.methods@.len() as int) {
                            Some(i) => if accessible(it, sd.methods@[i].public, sd.name@) {
                                None
                            } else {
                                Some(Err(error_at(ErrorKind::PrivateMember { member: pname }, span)))
                            },
                            None => Some(
                                Err(error_at(ErrorKind::MemberNotFound { property: pname, struct_name: sd.name }, span)),
                            ),
                        },
                        None => Some(Ok(Object::Void)),
                    },
                }
            },
            Object::Struct(d) => if d < it.heap.structs.len() {
                let sd = it.heap.structs@[d as int];
                match last_method_named(sd.methods@, pname@, sd.methods@.len() as int) {
                    Some(i) => if !accessible(it, sd.methods@[i].public, sd.name@) {
                        Some(Err(error_at(ErrorKind::PrivateMember { member: pname }, span)))
                    } else if sd.methods@[i].instance {
                        Some(
                            Err(
                                error_at(ErrorKind::InstanceMethodOnStruct { method: pname, struct_name: sd.name }, span),
                            ),
                        )
                    } else {
                        None
                    },
                    None => Some(Err(error_at(ErrorKind::MethodNotFound { method: pname, struct_name: sd.name }, span))),
                }
            } else {
                Some(Err(error_at(ErrorKind::NoMemberAccess { found: kind_of(object) }, span)))
            },
            Object::Scope(s) => {
                let bs = if s < it.stack.scopes.len() {
                    it.stack.scopes@[s as int].bindings@
                } else {
                    Seq::empty()
                };
                match find_local(bs, pname@) {
                    Some(b) => if bs[b].public {
                        Some(Ok(bs[b].value))
                    } else {
                        Some(Err(error_at(ErrorKind::PrivateProperty { property: pname }, span)))
                    },
                    None => Some(Err(error_at(ErrorKind::PropertyNotInModule { property: pname }, span))),
                }
            },
            Object::Enum { name, variant, .. } => if pname@ == "variant"@ {
                Some(Ok(Object::String(variant)))
            } else if pname@ == "name"@ {
                Some(Ok(Object::String(name)))
            } else {
                Some(Err(error_at(ErrorKind::EnumMemberAccess { enum_name: name, variant, property: pname }, span)))
            },
            _ => Some(Err(error_at(ErrorKind::NoMemberAccess { found: kind_of(object) }, span))),
        },
        _ => Some(Err(error_at(ErrorKind::InvalidPropertyAccess, span))),
    }
}

impl<'a> Interpreter<'a> {
    /// A user function value closing over the current scope.
    pub fn alloc_user_function(&self, parameters: &'a Vec<Parameter>, body: &'a FunctionBody, ty: Option<usize>) -> (o: Object<'a>)
        requires
            self.wf(),
        ensures
            o == Object::Function(Function::User {
                func: UserFunction {
                    parameters,
                    body,
                    ty: match ty {
                        Some(k) => Some(ReturnType::Resolved(k)),
                        None => None,
                    },
                },
                env: Some(self.stack.current_index() as usize),
                this: None,
            }),
    {
        let env = self.stack.current();
        let ty = match ty {
            Some(k) => Some(ReturnType::Resolved(k)),
            None => None,
        };
        Object::Function(Function::User { func: UserFunction { parameters, body, ty }, env: Some(env), this: None })
    }

    /// The function value of a static method: no closure scope, no `this`.
    pub fn from_method(method: &'a StructMethod) -> (o: Object<'a>)
        ensures
            is_method_value(o, *method, None),
    {
        Object::Function(Function::User {
            func: UserFunction { parameters: &method.parameters, body: &method.body, ty: declared_type(method) },
            env: None,
            this: None,
        })
    }

    /// The function value of an instance method bound to `instance`.
    pub fn bind_method(method: &'a StructMethod, instance: Object<'a>) -> (o: Object<'a>)
        ensures
            is_method_value(o, *method, Some(instance)),
    {
        Object::Function(Function::User {
            func: UserFunction { parameters: &method.parameters, body: &method.body, ty: declared_type(method) },
            env: None,
            this: Some(Box::new(instance)),
        })
    }

    /// Evaluates `object.property`.
    ///
    /// The property must be a name (`InvalidPropertyAccess`). On an object,
    /// a property it has is returned, after a visibility check when the
    /// object's struct declares a field of that name; otherwise a method of
    /// its struct is returned, bound to the object when it is an instance
    /// method; otherwise the member is `MemberNotFound` for a struct
    /// instance and the empty value for a plain object. On a struct, a static
    /// method is returned; an instance method is `InstanceMethodOnStruct`, an
    /// unknown one `MethodNotFound`. On a module, a public binding is
    /// returned; a private one is `PrivateProperty`, a missing one
    /// `PropertyNotInModule`. An enum value has `variant` and `name`; other
    /// members are `EnumMemberAccess`. Other values have no members
    /// (`NoMemberAccess`).
    pub fn eval_access_expression(&self, object: Object<'a>, property: &Expression, span: Span) -> (res: Result<Object<'a>, Error>)
        requires
            self.wf(),
        ensures
            res matches Err(e) ==> e.span == span && e.source is None && e.file is None,
            access_outcome(*self, object, *property, span) matches Some(r) ==> res == r,
            !(property.kind is Identifier) ==> (res matches Err(e) && e.kind == ErrorKind::InvalidPropertyAccess),
            property.kind matches ExpressionKind::Identifier(pname) ==> match object {
                Object::Object { id, definition, .. } => {
                    let props = if id < self.heap.objects.len() { self.heap.objects@[id as int]@ } else { Seq::empty() };
                    let def = match definition {
                        Some(d) => if d < self.heap.structs.len() { Some(self.heap.structs@[d as int]) } else { None },
                        None => None,
                    };
                    match prop_get(props, pname@) {
                        Some(v) => match def {
                            Some(sd) => match last_field_named(sd.fields@, pname@, sd.fields@.len() as int) {
                                Some(i) => if accessible(*self, sd.fields@[i].public, sd.name@) {
                                    res == Ok::<Object<'a>, Error>(v)
                                } else {
                                    res matches Err(e) && e.kind == (ErrorKind::PrivateMember { member: pname })
                                },
                                None => res == Ok::<Object<'a>, Error>(v),
                            },
                            None => res == Ok::<Object<'a>, Error>(v),
                        },
                        None => match def {
                            Some(sd) => match last_method_named(sd.methods@, pname@, sd.methods@.len() as int) {
                                Some(i) => if accessible(*self, sd.methods@[i].public, sd.name@) {
                                    res matches Ok(r) && is_method_value(r, sd.methods@[i],
                                        if sd.methods@[i].instance { Some(object) } else { None })
                                } else {
                                    res matches Err(e) && e.kind == (ErrorKind::PrivateMember { member: pname })
                                },
                                None => res matches Err(e) && e.kind == (ErrorKind::MemberNotFound {
                                    property: pname,
                                    struct_name: sd.name,
                                }),
                            },
                            None => res == Ok::<Object<'a>, Error>(Object::Void),
                        },
                    }
                },
                Object::Struct(d) => if d < self.heap.structs.len() {
                    let sd = self.heap.structs@[d as int];
                    match last_method_named(sd.methods@, pname@, sd.methods@.len() as int) {
                        Some(i) => if !accessible(*self, sd.methods@[i].public, sd.name@) {
                            res matches Err(e) && e.kind == (ErrorKind::PrivateMember { member: pname })
                        } else if sd.methods@[i].instance {
                            res matches Err(e) && e.kind == (ErrorKind::InstanceMethodOnStruct {
                                method: pname,
                                struct_name: sd.name,
                            })
                        } else {
                            res matches Ok(r) && is_method_value(r, sd.methods@[i], None)
                        },
                        None => res matches Err(e) && e.kind == (ErrorKind::MethodNotFound {
                            method: pname,
                            struct_name: sd.name,
                        }),
                    }
                } else {
                    res matches Err(e) && e.kind == (ErrorKind::NoMemberAccess { found: kind_of(object) })
                },
                Object::Scope(s) => {
                    let bs = if s < self.stack.scopes.len() { self.stack.scopes@[s as int].bindings@ } else { Seq::empty() };
                    match find_local(bs, pname@) {
                        Some(b) => if bs[b].public {
                            res == Ok::<Object<'a>, Error>(bs[b].value)
                        } else {
                            res matches Err(e) && e.kind == (ErrorKind::PrivateProperty { property: pname })
                        },
                        None => res matches Err(e) && e.kind == (ErrorKind::PropertyNotInModule { property: pname }),
                    }
                },
                Object::Enum { name, variant, .. } => if pname@ == "variant"@ {
                    res == Ok::<Object<'a>, Error>(Object::String(variant))
                } else if pname@ == "name"@ {
                    res == Ok::<Object<'a>, Error>(Object::String(name))
                } else {
                    res matches Err(e) && e.kind == (ErrorKind::EnumMemberAccess { enum_name: name, variant, property: pname })
                },
                _ => res matches Err(e) && e.kind == (ErrorKind::NoMemberAccess { found: kind_of(object) }),
            },
    {
        let pname = match &property.kind {
            ExpressionKind::Identifier(n) => n,
            _ => {
                return Err(Error::new(ErrorKind::InvalidPropertyAccess, span));
            },
        };
        match &object {
            Object::Object { id, definition, .. } => {
                let found = if *id < self.heap.objects.len() {
                    props_get(&self.heap.objects[*id], pname)
                } else {
                    None
                };
                let def = match definition {
                    Some(d) => if *d < self.heap.structs.len() { Some(*d) } else { None },
                    None => None,
                };
                match found {
                    Some(v) => {
                        match def {
                            Some(d) => match self.heap.structs[d].field_index(pname) {
                                Some(i) => {
                                    let public = self.heap.structs[d].fields[i].public;
                                    self.ensure_accessible(public, pname, &self.heap.structs[d].name, span)?;
                                },
                                None => {},
                            },
                            None => {},
                        }
                        Ok(v)
                    },
                    None => match def {
                        Some(d) => {
                            let methods: &'a Vec<StructMethod> = self.heap.structs[d].methods;
                            match self.heap.structs[d].method_index(pname) {
                                Some(i) => {
                                    let method: &'a StructMethod = &methods[i];
                                    self.ensure_accessible(method.public, pname, &self.heap.structs[d].name, span)?;
                                    if method.instance {
                                        Ok(Self::bind_method(method, copy_object(&object)))
                                    } else {
                                        Ok(Self::from_method(method))
                                    }
                                },
                                None => Err(Error::new(
                                    ErrorKind::MemberNotFound {
                                        property: pname.clone(),
                                        struct_name: self.heap.structs[d].name.clone(),
                                    },
                                    span,
                                )),
                            }
                        },
                        None => Ok(Object::Void),
                    },
                }
            },
            Object::Struct(d) => {
                if *d >= self.heap.structs.len() {
                    return Err(Error::new(ErrorKind::NoMemberAccess { found: object.value_kind() }, span));
                }
                let methods: &'a Vec<StructMethod> = self.heap.structs[*d].methods;
                match self.heap.structs[*d].method_index(pname) {
                    Some(i) => {
                        let method: &'a StructMethod = &methods[i];
                        self.ensure_accessible(method.public, pname, &self.heap.structs[*d].name, span)?;
                        if method.instance {
                            Err(Error::new(
                                ErrorKind::InstanceMethodOnStruct {
                                    method: pname.clone(),
                                    struct_name: self.heap.structs[*d].name.clone(),
                                },
                                span,
                            ))
                        } else {
                            Ok(Self::from_method(method))
                        }
                    },
                    None => Err(Error::new(
                        ErrorKind::MethodNotFound { method: pname.clone(), struct_name: self.heap.structs[*d].name.clone() },
                        span,
                    )),
                }
            },
            Object::Scope(s) => {
                if *s >= self.stack.scopes.len() {
                    return Err(Error::new(ErrorKind::PropertyNotInModule { property: pname.clone() }, span));
                }
                match self.stack.scopes[*s].find(pname) {
                    Some(b) => {
                        if self.stack.scopes[*s].bindings[b].public {
                            Ok(copy_object(&self.stack.scopes[*s].bindings[b].value))
                        } else {
                            Err(Error::new(ErrorKind::PrivateProperty { property: pname.clone() }, span))
                        }
                    },
                    None => Err(Error::new(ErrorKind::PropertyNotInModule { property: pname.clone() }, span)),
                }
            },
            Object::Enum { name, variant, .. } => {
                if *pname == String::from_str("variant") {
                    return Ok(Object::String(variant.clone()));
                }
                if *pname == String::from_str("name") {
                    return Ok(Object::String(name.clone()));
                }
                Err(Error::new(
                    ErrorKind::EnumMemberAccess { enum_name: name.clone(), variant: variant.clone(), property: pname.clone() },
                    span,
                ))
            },
            _ => Err(Error::new(ErrorKind::NoMemberAccess { found: object.value_kind() }, span)),
        }
    }
}

} // verus!
