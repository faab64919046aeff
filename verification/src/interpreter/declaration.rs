//! Declarations: functions, enums, structs and type aliases, and the values
//! that enum variants construct.

use crate::ast::{EnumVariant, FunctionBody, Parameter, StructField, StructMethod, Type};
use crate::error::{Error, ErrorKind};
use crate::interpreter::types::denotes;
use crate::interpreter::{context_kept, Interpreter};
use crate::memory::heap::{copy_objects, lemma_prop_insert_get, prop_get, prop_insert, props_insert, Properties, StructDef};
use crate::object::{Function, Object};
use crate::memory::stack::binds_here;
use crate::span::Span;
use vstd::prelude::*;

verus! {

/// The value an enum declaration gives a variant: the constructor of a
/// variant with fields, else the variant's value itself.
pub open spec fn variant_value<'a>(enum_name: String, v: EnumVariant) -> Object<'a> {
    match v.fields {
        Some(fs) => Object::Function(Function::Enum { name: enum_name, variant: v.name, field_count: fs@.len() as usize }),
        None => Object::Enum { name: enum_name, variant: v.name, fields: None },
    }
}

/// The properties of an enum object after its first `n` variants: each
/// variant under its name, in declaration order, a repeated name keeping
/// its first place and its last value.
pub open spec fn enum_props<'a>(enum_name: String, vs: Seq<EnumVariant>, n: int) -> Seq<(String, Object<'a>)>
    decreases n,
{
    if n <= 0 || n > vs.len() {
        Seq::empty()
    } else {
        prop_insert(enum_props(enum_name, vs, n - 1), vs[n - 1].name, variant_value(enum_name, vs[n - 1]))
    }
}

/// The index of the last of the first `n` variants named `name`.
pub open spec fn last_variant_named(vs: Seq<EnumVariant>, name: Seq<char>, n: int) -> Option<int>
    decreases n,
{
    if n <= 0 || n > vs.len() {
        None
    } else if vs[n - 1].name@ == name {
        Some(n - 1)
    } else {
        last_variant_named(vs, name, n - 1)
    }
}

/// After an enum declaration, a member of the enum object (whose
/// properties are `props`) is the value of the last variant of that name;
/// a name that no variant has is no member.
pub proof fn lemma_enum_member<'a>(enum_name: String, vs: Seq<EnumVariant>, n: int, key: Seq<char>, props: Seq<(String, Object<'a>)>)
    requires
        0 <= n <= vs.len(),
        props == enum_props::<'a>(enum_name, vs, n),
    ensures
        prop_get(props, key) == match last_variant_named(vs, key, n) {
            Some(j) => Some(variant_value::<'a>(enum_name, vs[j])),
            None => None,
        },
    decreases n,
{
    if n > 0 {
        let before: Seq<(String, Object<'a>)> = enum_props(enum_name, vs, n - 1);
        lemma_enum_member(enum_name, vs, n - 1, key, before);
        let v: Object<'a> = variant_value(enum_name, vs[n - 1]);
        lemma_prop_insert_get(before, vs[n - 1].name, v, key);
    }
}

impl<'a> Interpreter<'a> {
    /// `fn name(...)`: binds the function, closing over the current scope,
    /// as a constant; its return type, if annotated, is resolved first.
    pub fn eval_function_statement(
        &mut self,
        name: &String,
        parameters: &'a Vec<Parameter>,
        body: &'a FunctionBody,
        public: bool,
        ty: Option<&Type>,
    ) -> (res: Result<Object<'a>, Error>)
        requires
            old(self).wf(),
        ensures
            final(self).wf(),
            context_kept(*old(self), *final(self)),
            crate::interpreter::arenas_grown(*old(self), *final(self)),
            final(self).stack.frames@ == old(self).stack.frames@,
            res == Ok::<Object<'a>, Error>(Object::Void),
            binds_here(final(self).stack, name@, final(self).stack.lookup(name@)->Some_0, public, true),
            final(self).stack.lookup(name@) matches Some(Object::Function(Function::User { func, env, this }))
                && func.parameters == parameters && func.body == body && env == Some(old(self).stack.current_index() as usize)
                && this is None && match ty {
                    Some(t) => func.ty matches Some(crate::object::ReturnType::Resolved(k)) && denotes(final(self).heap.types@, old(self).stack, k as int, *t),
                    None => func.ty is None,
                },
            forall|m: Seq<char>| m != name@ ==> #[trigger] final(self).stack.lookup(m) == old(self).stack.lookup(m),
    {
        let resolved = match ty {
            Some(t) => Some(self.resolve_type(t)?),
            None => None,
        };
        let function = self.alloc_user_function(parameters, body, resolved);
        self.stack.define(name.clone(), function, public, true);
        Ok(Object::Void)
    }

    /// `enum Name { ... }`: binds, as a constant, a constant object holding
    /// each variant (see `enum_props`).
    pub fn eval_enum_statement(&mut self, name: &String, variants: &Vec<EnumVariant>, public: bool, span: Span) -> (res: Result<
        Object<'a>,
        Error,
    >)
        requires
            old(self).wf(),
        ensures
            final(self).wf(),
            context_kept(*old(self), *final(self)),
            crate::interpreter::arenas_grown(*old(self), *final(self)),
            final(self).stack.frames@ == old(self).stack.frames@,
            old(self).heap.allocations == usize::MAX ==> (res matches Err(e) && e.kind == ErrorKind::AllocationLimit
                && e.span == span && *final(self) == *old(self)),
            old(self).heap.allocations < usize::MAX ==> (res == Ok::<Object<'a>, Error>(Object::Void)
                && final(self).heap.objects@.len() == old(self).heap.objects@.len() + 1
                && final(self).heap.objects@.drop_last() == old(self).heap.objects@
                && final(self).heap.objects@.last()@ == enum_props::<'a>(*name, variants@, variants@.len() as int)
                && final(self).heap.allocations == old(self).heap.allocations + 1
                && final(self).heap.arrays@ == old(self).heap.arrays@
                && final(self).heap.tuples@ == old(self).heap.tuples@
                && final(self).heap.structs@ == old(self).heap.structs@
                && final(self).heap.types@ == old(self).heap.types@
                && final(self).stack.lookup(name@) == Some(Object::Object {
                    id: old(self).heap.objects.len() as usize,
                    definition: None,
                    constant: true,
                })
                && binds_here(final(self).stack, name@, Object::Object {
                    id: old(self).heap.objects.len() as usize,
                    definition: None,
                    constant: true,
                }, public, true)
                && forall|m: Seq<char>| m != name@ ==> #[trigger] final(self).stack.lookup(m) == old(self).stack.lookup(m)),
    {
        if self.heap.allocations == usize::MAX {
            return Err(Error::new(ErrorKind::AllocationLimit, span));
        }
        let mut props: Properties<'a> = Vec::new();
        let mut i: usize = 0;
        while i < variants.len()
            invariant
                i <= variants.len(),
                props@ == enum_props::<'a>(*name, variants@, i as int),
            decreases variants.len() - i,
        {
            let v = &variants[i];
            let value = match &v.fields {
                Some(fs) => Object::Function(Function::Enum { name: name.clone(), variant: v.name.clone(), field_count: fs.len() }),
                None => Object::Enum { name: name.clone(), variant: v.name.clone(), fields: None },
            };
            props_insert(&mut props, v.name.clone(), value);
            i += 1;
        }
        let object = self.heap.alloc_object(props, None, true);
        self.stack.define(name.clone(), object, public, true);
        Ok(Object::Void)
    }

    /// `struct Name { ... }`: records the definition and binds it as a constant.
    pub fn eval_struct_statement(
        &mut self,
        name: &String,
        fields: &'a Vec<StructField>,
        methods: &'a Vec<StructMethod>,
        public: bool,
    ) -> (res: Result<Object<'a>, Error>)
        requires
            old(self).wf(),
        ensures
            final(self).wf(),
            context_kept(*old(self), *final(self)),
            crate::interpreter::arenas_grown(*old(self), *final(self)),
            final(self).stack.frames@ == old(self).stack.frames@,
            res == Ok::<Object<'a>, Error>(Object::Void),
            final(self).heap.structs@ == old(self).heap.structs@.push(StructDef { name: *name, fields, methods }),
            final(self).heap.allocations == old(self).heap.allocations,
            final(self).heap.arrays@ == old(self).heap.arrays@,
            final(self).heap.tuples@ == old(self).heap.tuples@,
            final(self).heap.objects@ == old(self).heap.objects@,
            final(self).heap.types@ == old(self).heap.types@,
            final(self).stack.lookup(name@) == Some(Object::Struct(old(self).heap.structs.len() as usize)),
            binds_here(final(self).stack, name@, Object::Struct(old(self).heap.structs.len() as usize), public, true),
            forall|m: Seq<char>| m != name@ ==> #[trigger] final(self).stack.lookup(m) == old(self).stack.lookup(m),
    {
        let id = self.heap.add_struct(StructDef { name: name.clone(), fields, methods });
        self.stack.define(name.clone(), Object::Struct(id), public, true);
        Ok(Object::Void)
    }

    /// `type Name = ...`: resolves the type and binds it as a constant.
    pub fn eval_type_statement(&mut self, name: &String, ty: &Type, public: bool) -> (res: Result<Object<'a>, Error>)
        requires
            old(self).wf(),
        ensures
            final(self).wf(),
            context_kept(*old(self), *final(self)),
            crate::interpreter::arenas_grown(*old(self), *final(self)),
            final(self).stack.frames@ == old(self).stack.frames@,
            res == Ok::<Object<'a>, Error>(Object::Void),
            binds_here(final(self).stack, name@, final(self).stack.lookup(name@)->Some_0, public, true),
            final(self).stack.lookup(name@) matches Some(Object::Type(k)) && denotes(final(self).heap.types@, old(self).stack,
                k as int, *ty),
            forall|m: Seq<char>| m != name@ ==> #[trigger] final(self).stack.lookup(m) == old(self).stack.lookup(m),
    {
        let resolved = self.resolve_type(ty)?;
        self.stack.define(name.clone(), Object::Type(resolved), public, true);
        Ok(Object::Void)
    }

    /// Applies an enum constructor: exactly `field_count` arguments make a
    /// value of the variant whose payload is a new tuple of them; another
    /// number is `VariantArity`.
    pub fn construct_variant(
        &mut self,
        enum_name: &String,
        variant: &String,
        field_count: usize,
        arguments: &Vec<Object<'a>>,
        span: Span,
    ) -> (res: Result<Object<'a>, Error>)
        requires
            old(self).wf(),
        ensures
            final(self).wf(),
            context_kept(*old(self), *final(self)),
            final(self).stack == old(self).stack,
            arguments.len() != field_count ==> (res matches Err(e) && e.kind == (ErrorKind::VariantArity {
                expected: field_count,
                enum_name: *enum_name,
                variant: *variant,
                found: arguments.len(),
            }) && e.span == span && *final(self) == *old(self)),
            arguments.len() == field_count && old(self).heap.allocations == usize::MAX ==> (res matches Err(e)
                && e.kind == ErrorKind::AllocationLimit && *final(self) == *old(self)),
            arguments.len() == field_count && old(self).heap.allocations < usize::MAX ==> (res == Ok::<Object<'a>, Error>(
                Object::Enum { name: *enum_name, variant: *variant, fields: Some(old(self).heap.tuples.len() as usize) })
                && final(self).heap.tuples@ == old(self).heap.tuples@.push(final(self).heap.tuples@.last())
                && final(self).heap.tuples@.last()@ == arguments@
                && final(self).heap.allocations == old(self).heap.allocations + 1
                && final(self).heap.arrays@ == old(self).heap.arrays@
                && final(self).heap.objects@ == old(self).heap.objects@
                && final(self).heap.structs@ == old(self).heap.structs@
                && final(self).heap.types@ == old(self).heap.types@),
    {
        if arguments.len() != field_count {
            return Err(Error::new(
                ErrorKind::VariantArity {
                    expected: field_count,
                    enum_name: enum_name.clone(),
                    variant: variant.clone(),
                    found: arguments.len(),
                },
                span,
            ));
        }
        if self.heap.allocations == usize::MAX {
            return Err(Error::new(ErrorKind::AllocationLimit, span));
        }
        let payload = self.heap.alloc_tuple(copy_objects(arguments));
        let id = match payload {
            Object::Tuple { id } => id,
            _ => 0,
        };
        Ok(Object::Enum { name: enum_name.clone(), variant: variant.clone(), fields: Some(id) })
    }
}

} // verus!
