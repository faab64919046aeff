//! Type annotations: resolving them against the type definitions in scope,
//! and checking values against resolved types.

use crate::ast::{Literal, Type, TypeKind, TypeProperty};
use crate::error::{Error, ErrorKind};
use crate::interpreter::{only_types_grew, Interpreter};
use crate::memory::heap::{prop_get, props_find, Heap, TypeNode};
use crate::memory::stack::Stack;
use crate::object::{kind_of, Object};
use crate::span::Span;
use vstd::prelude::*;

verus! {

/// The fixed size an array annotation gives: its integer literal, if any.
pub open spec fn literal_size(size: Option<Literal>) -> Option<i64> {
    match size {
        Some(Literal::Integer(n)) => Some(n),
        _ => None,
    }
}

/// Type `id` of `types` is what annotation `t` resolves to, with the type
/// definitions that `st` binds: a name bound to a type is that type; an
/// unbound name stays a name; arrays, tuples and object types resolve
/// component by component.
pub open spec fn denotes(types: Seq<TypeNode>, st: Stack, id: int, t: Type) -> bool
    decreases t,
{
    match t.kind {
        TypeKind::Identifier(name) => match st.lookup(name@) {
            Some(Object::Type(a)) => id == a,
            _ => 0 <= id < types.len() && (types[id] matches TypeNode::Named(n) && n@ == name@),
        },
        TypeKind::Integer => 0 <= id < types.len() && types[id] is Integer,
        TypeKind::String => 0 <= id < types.len() && types[id] is String,
        TypeKind::Boolean => 0 <= id < types.len() && types[id] is Boolean,
        TypeKind::Null => 0 <= id < types.len() && types[id] is Null,
        TypeKind::Void => 0 <= id < types.len() && types[id] is Void,
        TypeKind::Any => 0 <= id < types.len() && types[id] is Any,
        TypeKind::Array { element, size } => 0 <= id < types.len() && match types[id] {
            TypeNode::Array { element: e, size: s } => s == literal_size(size) && denotes(types, st, e as int, *element),
            _ => false,
        },
        TypeKind::Tuple(ts) => 0 <= id < types.len() && match types[id] {
            TypeNode::Tuple(ids) => ids@.len() == ts@.len() && forall|i: int|
                0 <= i < ts@.len() ==> denotes(types, st, #[trigger] ids@[i] as int, ts@[i]),
            _ => false,
        },
        TypeKind::Object(ps) => 0 <= id < types.len() && match types[id] {
            TypeNode::Object(qs) => qs@.len() == ps@.len() && forall|i: int|
                0 <= i < ps@.len() ==> (#[trigger] qs@[i]).0@ == ps@[i].0@ && qs@[i].2 == ps@[i].1.optional
                    && denotes(types, st, qs@[i].1 as int, ps@[i].1.ty),
            _ => false,
        },
    }
}

/// Resolutions stay valid when more types are added to the arena.
pub proof fn lemma_denotes_extend(t1: Seq<TypeNode>, t2: Seq<TypeNode>, st: Stack, id: int, t: Type)
    requires
        t1.len() <= t2.len(),
        t2.subrange(0, t1.len() as int) == t1,
        denotes(t1, st, id, t),
    ensures
        denotes(t2, st, id, t),
    decreases t,
{
    if 0 <= id < t1.len() {
        assert(t2[id] == t2.subrange(0, t1.len() as int)[id]);
    }
    match t.kind {
        TypeKind::Array { element, size } => {
            match t1[id] {
                TypeNode::Array { element: e, .. } => {
                    lemma_denotes_extend(t1, t2, st, e as int, *element);
                },
                _ => {},
            }
        },
        TypeKind::Tuple(ts) => {
            match t1[id] {
                TypeNode::Tuple(ids) => {
                    assert forall|i: int| 0 <= i < ts@.len() implies denotes(t2, st, #[trigger] ids@[i] as int, ts@[i]) by {
                        lemma_denotes_extend(t1, t2, st, ids@[i] as int, ts@[i]);
                    }
                },
                _ => {},
            }
        },
        TypeKind::Object(ps) => {
            match t1[id] {
                TypeNode::Object(qs) => {
                    assert forall|i: int| 0 <= i < ps@.len() implies (#[trigger] qs@[i]).0@ == ps@[i].0@
                        && qs@[i].2 == ps@[i].1.optional && denotes(t2, st, qs@[i].1 as int, ps@[i].1.ty) by {
                        lemma_denotes_extend(t1, t2, st, qs@[i].1 as int, ps@[i].1.ty);
                    }
                },
                _ => {},
            }
        },
        _ => {},
    }
}

/// Whether value `v` has resolved type `tid`. `Any` admits everything; a
/// primitive type admits its own kind; a name admits an instance of the
/// struct of that name or a value of the enum of that name; an array type
/// admits arrays of its size, if fixed, whose elements have its element
/// type; a tuple type admits tuples of its length whose elements have the
/// component types; an object type admits objects whose present properties
/// have their types and that lack only optional ones.
pub open spec fn type_ok(h: Heap, tid: int, v: Object) -> bool
    decreases tid,
{
    if tid < 0 || tid >= h.types.len() {
        true
    } else {
        match h.types@[tid] {
            TypeNode::Any => true,
            TypeNode::Integer => v is Integer,
            TypeNode::String => v is String,
            TypeNode::Boolean => v is Boolean,
            TypeNode::Null => v is Null,
            TypeNode::Void => v is Void,
            TypeNode::Named(n) => match v {
                Object::Object { definition: Some(d), .. } => d < h.structs.len() && h.structs@[d as int].name@ == n@,
                Object::Enum { name, .. } => name@ == n@,
                _ => false,
            },
            TypeNode::Array { element, size } => match v {
                Object::Array { id, .. } => id < h.arrays.len() && (size matches Some(k) ==> h.arrays@[id as int]@.len() == k)
                    && forall|i: int| 0 <= i < h.arrays@[id as int]@.len() ==> (element as int) < tid
                        ==> type_ok(h, element as int, #[trigger] h.arrays@[id as int]@[i]),
                _ => false,
            },
            TypeNode::Tuple(ids) => match v {
                Object::Tuple { id } => id < h.tuples.len() && h.tuples@[id as int]@.len() == ids@.len()
                    && forall|i: int| 0 <= i < ids@.len() ==> (ids@[i] as int) < tid
                        ==> type_ok(h, ids@[i] as int, #[trigger] h.tuples@[id as int]@[i]),
                _ => false,
            },
            TypeNode::Object(ps) => match v {
                Object::Object { id, .. } => id < h.objects.len() && forall|j: int| 0 <= j < ps@.len() ==>
                    match prop_get(h.objects@[id as int]@, (#[trigger] ps@[j]).0@) {
                        Some(x) => (ps@[j].1 as int) < tid ==> type_ok(h, ps@[j].1 as int, x),
                        None => ps@[j].2,
                    },
                _ => false,
            },
        }
    }
}

/// An array type admits only arrays each of whose elements has its element
/// type (resolved before it, as resolution always makes it): so an array
/// type of integers admits no array holding anything but integers, and one
/// of strings none holding anything but strings.
pub proof fn lemma_array_type_checks_elements<'a>(h: Heap<'a>, tid: int, element: usize, size: Option<i64>, v: Object<'a>)
    requires
        0 <= tid < h.types.len(),
        h.types@[tid] == (TypeNode::Array { element, size }),
        (element as int) < tid,
        type_ok(h, tid, v),
    ensures
        v matches Object::Array { id, .. } && id < h.arrays.len() && forall|i: int| 0 <= i < h.arrays@[id as int]@.len()
            ==> type_ok(h, element as int, #[trigger] h.arrays@[id as int]@[i]),
        h.types@[element as int] is Integer ==> (v matches Object::Array { id, .. } && forall|i: int|
            0 <= i < h.arrays@[id as int]@.len() ==> #[trigger] h.arrays@[id as int]@[i] is Integer),
        h.types@[element as int] is String ==> (v matches Object::Array { id, .. } && forall|i: int|
            0 <= i < h.arrays@[id as int]@.len() ==> #[trigger] h.arrays@[id as int]@[i] is String),
        size matches Some(k) ==> (v matches Object::Array { id, .. } && h.arrays@[id as int]@.len() == k),
{
    match v {
        Object::Array { id, .. } => {
            assert forall|i: int| 0 <= i < h.arrays@[id as int]@.len() implies type_ok(
                h,
                element as int,
                #[trigger] h.arrays@[id as int]@[i],
            ) by {}
        },
        _ => {},
    }
}

/// A tuple type admits only tuples of its length whose every component has
/// the component type at its position (each resolved before the tuple
/// type).
pub proof fn lemma_tuple_type_checks_components<'a>(h: Heap<'a>, tid: int, ids: Vec<usize>, v: Object<'a>)
    requires
        0 <= tid < h.types.len(),
        h.types@[tid] == TypeNode::Tuple(ids),
        forall|k: int| 0 <= k < ids@.len() ==> (#[trigger] ids@[k] as int) < tid,
        type_ok(h, tid, v),
    ensures
        v matches Object::Tuple { id } && id < h.tuples.len() && h.tuples@[id as int]@.len() == ids@.len() && forall|k: int|
            0 <= k < ids@.len() ==> type_ok(h, ids@[k] as int, #[trigger] h.tuples@[id as int]@[k]),
{
    match v {
        Object::Tuple { id } => {
            assert forall|k: int| 0 <= k < ids@.len() implies type_ok(h, ids@[k] as int, #[trigger] h.tuples@[id as int]@[k]) by {
                assert((ids@[k] as int) < tid);
            }
        },
        _ => {},
    }
}

/// An object type admits only objects in which each of its properties is
/// either present with the property's type or absent and optional; and a
/// primitive type admits only values of its own kind.
pub proof fn lemma_object_and_primitive_types<'a>(h: Heap<'a>, tid: int, v: Object<'a>)
    requires
        0 <= tid < h.types.len(),
        type_ok(h, tid, v),
    ensures
        h.types@[tid] matches TypeNode::Object(ps) ==> (v matches Object::Object { id, .. } && id < h.objects.len()
            && forall|j: int| 0 <= j < ps@.len() && (ps@[j].1 as int) < tid ==> match prop_get(
                h.objects@[id as int]@,
                (#[trigger] ps@[j]).0@,
            ) {
                Some(x) => type_ok(h, ps@[j].1 as int, x),
                None => ps@[j].2,
            }),
        h.types@[tid] is Integer ==> v is Integer,
        h.types@[tid] is String ==> v is String,
        h.types@[tid] is Boolean ==> v is Boolean,
        h.types@[tid] is Null ==> v is Null,
        h.types@[tid] is Void ==> v is Void,
{
}

/// Checks that `value` has resolved type `tid`; a value that does not is
/// `TypeMismatch`, reported at `span`.
pub fn check_type<'a>(heap: &Heap<'a>, tid: usize, value: &Object<'a>, span: Span) -> (res: Result<(), Error>)
    ensures
        res is Ok <==> type_ok(*heap, tid as int, *value),
        res matches Err(e) ==> e.kind == (ErrorKind::TypeMismatch { found: kind_of(*value) }) && e.span == span
            && e.source is None && e.file is None,
    decreases tid,
{
    if tid >= heap.types.len() {
        return Ok(());
    }
    let ok = match &heap.types[tid] {
        TypeNode::Any => true,
        TypeNode::Integer => matches!(value, Object::Integer(_)),
        TypeNode::String => matches!(value, Object::String(_)),
        TypeNode::Boolean => matches!(value, Object::Boolean(_)),
        TypeNode::Null => matches!(value, Object::Null),
        TypeNode::Void => matches!(value, Object::Void),
        TypeNode::Named(n) => match value {
            Object::Object { definition: Some(d), .. } => *d < heap.structs.len() && heap.structs[*d].name == *n,
            Object::Enum { name, .. } => *name == *n,
            _ => false,
        },
        TypeNode::Array { element, size } => match value {
            Object::Array { id, .. } => {
                if *id >= heap.arrays.len() {
                    false
                } else {
                    let elems = &heap.arrays[*id];
                    let size_ok = match size {
                        Some(k) => elems.len() as i128 == *k as i128,
                        None => true,
                    };
                    if !size_ok {
                        false
                    } else {
                        let mut i: usize = 0;
                        let mut all = true;
                        while i < elems.len()
                            invariant
                                i <= elems.len(),
                                elems@ == heap.arrays@[*id as int]@,
                                tid < heap.types.len(),
                                heap.types@[tid as int] == (TypeNode::Array { element: *element, size: *size }),
                                all == forall|k: int| 0 <= k < i ==> (*element as int) < tid
                                    ==> type_ok(*heap, *element as int, #[trigger] elems@[k]),
                            decreases elems.len() - i,
                        {
                            if *element < tid {
                                let r = check_type(heap, *element, &elems[i], span);
                                if r.is_err() {
                                    all = false;
                                }
                            }
                            i += 1;
                        }
                        all
                    }
                }
            },
            _ => false,
        },
        TypeNode::Tuple(ids) => match value {
            Object::Tuple { id } => {
                if *id >= heap.tuples.len() || heap.tuples[*id].len() != ids.len() {
                    false
                } else {
                    let elems = &heap.tuples[*id];
                    let mut i: usize = 0;
                    let mut all = true;
                    while i < ids.len()
                        invariant
                            i <= ids.len(),
                            elems@.len() == ids@.len(),
                            elems@ == heap.tuples@[*id as int]@,
                            tid < heap.types.len(),
                            all == forall|k: int| 0 <= k < i ==> (ids@[k] as int) < tid
                                ==> type_ok(*heap, ids@[k] as int, #[trigger] elems@[k]),
                        decreases ids.len() - i,
                    {
                        if ids[i] < tid {
                            let r = check_type(heap, ids[i], &elems[i], span);
                            if r.is_err() {
                                all = false;
                            }
                        }
                        i += 1;
                    }
                    all
                }
            },
            _ => false,
        },
        TypeNode::Object(ps) => match value {
            Object::Object { id, .. } => {
                if *id >= heap.objects.len() {
                    false
                } else {
                    let props = &heap.objects[*id];
                    let mut j: usize = 0;
                    let mut all = true;
                    while j < ps.len()
                        invariant
                            j <= ps.len(),
                            props@ == heap.objects@[*id as int]@,
                            tid < heap.types.len(),
                            all == forall|k: int| 0 <= k < j ==> match prop_get(props@, (#[trigger] ps@[k]).0@) {
                                Some(x) => (ps@[k].1 as int) < tid ==> type_ok(*heap, ps@[k].1 as int, x),
                                None => ps@[k].2,
                            },
                        decreases ps.len() - j,
                    {
                        match props_find(props, &ps[j].0) {
                            Some(p) => {
                                if ps[j].1 < tid {
                                    let r = check_type(heap, ps[j].1, &props[p].1, span);
                                    if r.is_err() {
                                        all = false;
                                    }
                                }
                            },
                            None => {
                                if !ps[j].2 {
                                    all = false;
                                }
                            },
                        }
                        j += 1;
                    }
                    all
                }
            },
            _ => false,
        },
    };
    if ok {
        Ok(())
    } else {
        Err(Error::new(ErrorKind::TypeMismatch { found: value.value_kind() }, span))
    }
}

/// Extending an extension of a sequence extends the sequence.
pub proof fn lemma_prefix_trans(a: Seq<TypeNode>, b: Seq<TypeNode>, c: Seq<TypeNode>)
    requires
        a.len() <= b.len() <= c.len(),
        b.subrange(0, a.len() as int) == a,
        c.subrange(0, b.len() as int) == b,
    ensures
        c.subrange(0, a.len() as int) == a,
{
    assert forall|k: int| 0 <= k < a.len() implies c[k] == a[k] by {
        assert(c[k] == c.subrange(0, b.len() as int)[k]);
        assert(b[k] == b.subrange(0, a.len() as int)[k]);
    }
    assert(c.subrange(0, a.len() as int) =~= a);
}

impl<'a> Interpreter<'a> {
    /// Resolves a type annotation into the type arena: names bound to type
    /// definitions become those types, and composite types are resolved
    /// component by component. Resolution always succeeds.
    pub fn resolve_type(&mut self, node: &Type) -> (res: Result<usize, Error>)
        requires
            old(self).wf(),
        ensures
            final(self).wf(),
            only_types_grew(*old(self), *final(self)),
            res matches Ok(id) && denotes(final(self).heap.types@, final(self).stack, id as int, *node),
        decreases node,
    {
        let ghost old_types = self.heap.types@;
        match &node.kind {
            TypeKind::Identifier(name) => {
                match self.stack.get(name) {
                    Some(Object::Type(id)) => {
                        assert(self.heap.types@.subrange(0, old_types.len() as int) =~= old_types);
                        return Ok(id);
                    },
                    _ => {},
                }
                let id = self.heap.add_type(TypeNode::Named(name.clone()));
                assert(self.heap.types@.subrange(0, old_types.len() as int) =~= old_types);
                Ok(id)
            },
            TypeKind::Array { element, size } => {
                let e = match self.resolve_type(element) {
                    Ok(e) => e,
                    Err(err) => {
                        return Err(err);
                    },
                };
                let ghost mid_types = self.heap.types@;
                let s = match size {
                    Some(Literal::Integer(n)) => Some(*n),
                    _ => None,
                };
                let id = self.heap.add_type(TypeNode::Array { element: e, size: s });
                proof {
                    assert(self.heap.types@.subrange(0, mid_types.len() as int) =~= mid_types);
                    lemma_denotes_extend(mid_types, self.heap.types@, self.stack, e as int, **element);
                    assert(self.heap.types@.subrange(0, old_types.len() as int) =~= old_types);
                }
                Ok(id)
            },
            TypeKind::Tuple(ts) => {
                let ids = match self.resolve_types(ts) {
                    Ok(ids) => ids,
                    Err(err) => {
                        return Err(err);
                    },
                };
                let ghost mid_types = self.heap.types@;
                let id = self.heap.add_type(TypeNode::Tuple(ids));
                proof {
                    assert(self.heap.types@.subrange(0, mid_types.len() as int) =~= mid_types);
                    assert forall|k: int| 0 <= k < ts@.len() implies denotes(self.heap.types@, self.stack, #[trigger] ids@[k] as int, ts@[k]) by {
                        lemma_denotes_extend(mid_types, self.heap.types@, self.stack, ids@[k] as int, ts@[k]);
                    }
                    lemma_prefix_trans(old_types, mid_types, self.heap.types@);
                }
                Ok(id)
            },
            TypeKind::Object(ps) => {
                let qs = match self.resolve_props(ps) {
                    Ok(qs) => qs,
                    Err(err) => {
                        return Err(err);
                    },
                };
                let ghost mid_types = self.heap.types@;
                let id = self.heap.add_type(TypeNode::Object(qs));
                proof {
                    assert(self.heap.types@.subrange(0, mid_types.len() as int) =~= mid_types);
                    assert forall|k: int| 0 <= k < ps@.len() implies (#[trigger] qs@[k]).0@ == ps@[k].0@
                        && qs@[k].2 == ps@[k].1.optional && denotes(self.heap.types@, self.stack, qs@[k].1 as int, ps@[k].1.ty) by {
                        lemma_denotes_extend(mid_types, self.heap.types@, self.stack, qs@[k].1 as int, ps@[k].1.ty);
                    }
                    lemma_prefix_trans(old_types, mid_types, self.heap.types@);
                }
                Ok(id)
            },
            TypeKind::Integer => self.add_simple(TypeNode::Integer),
            TypeKind::String => self.add_simple(TypeNode::String),
            TypeKind::Boolean => self.add_simple(TypeNode::Boolean),
            TypeKind::Null => self.add_simple(TypeNode::Null),
            TypeKind::Void => self.add_simple(TypeNode::Void),
            TypeKind::Any => self.add_simple(TypeNode::Any),
        }
    }
}


impl<'a> Interpreter<'a> {
    fn add_simple(&mut self, node: TypeNode) -> (res: Result<usize, Error>)
        ensures
            final(self).heap.types@ == old(self).heap.types@.push(node),
            only_types_grew(*old(self), *final(self)),
            res == Ok::<usize, Error>(old(self).heap.types.len() as usize),
    {
        let id = self.heap.add_type(node);
        assert(self.heap.types@.subrange(0, old(self).heap.types@.len() as int) =~= old(self).heap.types@);
        Ok(id)
    }

    fn resolve_types(&mut self, ts: &Vec<Type>) -> (res: Result<Vec<usize>, Error>)
        requires
            old(self).wf(),
        ensures
            final(self).wf(),
            only_types_grew(*old(self), *final(self)),
            res matches Ok(ids) && ids@.len() == ts@.len() && forall|k: int| 0 <= k < ts@.len()
                ==> denotes(final(self).heap.types@, final(self).stack, #[trigger] ids@[k] as int, ts@[k]),
        decreases ts, 1nat,
    {
        let ghost old_types = self.heap.types@;
        let mut ids: Vec<usize> = Vec::new();
        let mut i: usize = 0;
        assert(self.heap.types@.subrange(0, old_types.len() as int) =~= old_types);
        while i < ts.len()
            invariant
                self.wf(),
                i <= ts.len(),
                ids@.len() == i,
                old_types == old(self).heap.types@,
                only_types_grew(*old(self), *self),
                forall|k: int| 0 <= k < i ==> denotes(self.heap.types@, self.stack, #[trigger] ids@[k] as int, ts@[k]),
            decreases ts.len() - i,
        {
            let ghost before = self.heap.types@;
            let t = match self.resolve_type(&ts[i]) {
                Ok(t) => t,
                Err(err) => {
                    return Err(err);
                },
            };
            proof {
                assert forall|k: int| 0 <= k < i implies denotes(self.heap.types@, self.stack, #[trigger] ids@[k] as int, ts@[k]) by {
                    lemma_denotes_extend(before, self.heap.types@, self.stack, ids@[k] as int, ts@[k]);
                }
                lemma_prefix_trans(old_types, before, self.heap.types@);
            }
            ids.push(t);
            i += 1;
        }
        Ok(ids)
    }

    fn resolve_props(&mut self, ps: &Vec<(String, TypeProperty)>) -> (res: Result<Vec<(String, usize, bool)>, Error>)
        requires
            old(self).wf(),
        ensures
            final(self).wf(),
            only_types_grew(*old(self), *final(self)),
            res matches Ok(qs) && qs@.len() == ps@.len() && forall|k: int| 0 <= k < ps@.len()
                ==> (#[trigger] qs@[k]).0@ == ps@[k].0@ && qs@[k].2 == ps@[k].1.optional
                    && denotes(final(self).heap.types@, final(self).stack, qs@[k].1 as int, ps@[k].1.ty),
        decreases ps, 1nat,
    {
        let ghost old_types = self.heap.types@;
        let mut qs: Vec<(String, usize, bool)> = Vec::new();
        let mut i: usize = 0;
        assert(self.heap.types@.subrange(0, old_types.len() as int) =~= old_types);
        while i < ps.len()
            invariant
                self.wf(),
                i <= ps.len(),
                qs@.len() == i,
                old_types == old(self).heap.types@,
                only_types_grew(*old(self), *self),
                forall|k: int| 0 <= k < i ==> (#[trigger] qs@[k]).0@ == ps@[k].0@ && qs@[k].2 == ps@[k].1.optional
                    && denotes(self.heap.types@, self.stack, qs@[k].1 as int, ps@[k].1.ty),
            decreases ps.len() - i,
        {
            let ghost before = self.heap.types@;
            let t = match self.resolve_type(&ps[i].1.ty) {
                Ok(t) => t,
                Err(err) => {
                    return Err(err);
                },
            };
            proof {
                assert forall|k: int| 0 <= k < i implies (#[trigger] qs@[k]).0@ == ps@[k].0@ && qs@[k].2 == ps@[k].1.optional
                    && denotes(self.heap.types@, self.stack, qs@[k].1 as int, ps@[k].1.ty) by {
                    lemma_denotes_extend(before, self.heap.types@, self.stack, qs@[k].1 as int, ps@[k].1.ty);
                }
                lemma_prefix_trans(old_types, before, self.heap.types@);
            }
            qs.push((ps[i].0.clone(), t, ps[i].1.optional));
            i += 1;
        }
        Ok(qs)
    }
}

} // verus!
