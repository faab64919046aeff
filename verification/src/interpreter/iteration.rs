//! `for` loops: the elements a value yields, the bindings of each element,
//! and how a loop reacts to the signal its body ends with.

use crate::ast::Iteration;
use crate::error::{Error, ErrorKind};
use crate::interpreter::index::char_string;
use crate::interpreter::{context_kept, Interpreter};
use crate::memory::heap::copy_objects;
use crate::memory::stack::binds_here;
use crate::object::{copy_object, is_control, kind_of, Object};
use crate::span::Span;
use vstd::prelude::*;
use vstd::string::StrSliceExecFns;

verus! {

/// What a loop does after its body ended with `result`: `Some(v)` stops the
/// loop with `v`, `None` goes on. A `break` stops with the empty value, a
/// `continue` goes on, a `return` of an error result goes on too, any other
/// `return` stops with it; a value that is no signal goes on.
pub open spec fn loop_control<'a>(result: Object<'a>) -> Option<Object<'a>> {
    if is_control(result) {
        match result {
            Object::Break => Some(Object::Void),
            Object::Continue => None,
            Object::Return(inner) => if *inner is ErrValue { None } else { Some(result) },
            _ => Some(result),
        }
    } else {
        None
    }
}

/// How a loop treats the way its body ended: only a `break`, which stops
/// it with the empty value, and a `return` that carries no error result,
/// which stops it with that `return`, end the loop; a `continue`, a
/// `return` of an error result and any plain value let it go on.
pub proof fn lemma_loop_control_signals<'a>(result: Object<'a>)
    ensures
        loop_control(Object::Continue) is None,
        loop_control(Object::Break) == Some(Object::Void),
        loop_control(result) is Some <==> (result is Break || (result matches Object::Return(inner) && !(*inner is ErrValue))),
        (result matches Object::Return(inner) && !(*inner is ErrValue)) ==> loop_control(result) == Some(result),
        !(result is Break || result is Continue || result is Return) ==> loop_control(result) is None,
{
}

/// The name an iteration binding binds, when it is a plain name.
pub open spec fn bound_name(b: Iteration) -> Option<Seq<char>> {
    match b {
        Iteration::Identifier(n) => Some(n@),
        _ => None,
    }
}

/// Whether every binding of `bs` is a plain name.
pub open spec fn plain_names(bs: Seq<Iteration>) -> bool {
    forall|i: int| 0 <= i < bs.len() ==> (#[trigger] bs[i]) is Identifier
}

/// Whether no binding after the `i`th binds the same name.
pub open spec fn last_binding(bs: Seq<Iteration>, i: int) -> bool {
    forall|j: int| i < j < bs.len() ==> bound_name(#[trigger] bs[j]) != bound_name(bs[i])
}

/// The element at position `i`, or the empty value past the end.
pub open spec fn element_or_void<'a>(elements: Seq<Object<'a>>, i: int) -> Object<'a> {
    if 0 <= i < elements.len() {
        elements[i]
    } else {
        Object::Void
    }
}

/// The elements an array or tuple value holds in the heap of `it` (none
/// for a handle outside the heap).
pub open spec fn sequence_elements<'a>(it: Interpreter<'a>, value: Object<'a>) -> Seq<Object<'a>> {
    match value {
        Object::Array { id, .. } => if id < it.heap.arrays.len() {
            it.heap.arrays@[id as int]@
        } else {
            Seq::empty()
        },
        Object::Tuple { id } => if id < it.heap.tuples.len() {
            it.heap.tuples@[id as int]@
        } else {
            Seq::empty()
        },
        _ => Seq::empty(),
    }
}

impl<'a> Interpreter<'a> {
    /// Decides whether a loop stops after a body that ended with `result`.
    pub fn handle_loop_control(&self, result: Object<'a>) -> (r: Option<Object<'a>>)
        ensures
            r == loop_control(result),
            result is Continue ==> r is None,
            result is Break ==> r == Some(Object::Void),
            (result matches Object::Return(inner) && !(*inner is ErrValue)) ==> r == Some(result),
            !(result is Break || result is Continue || result is Return) ==> r is None,
    {
        if result.is_control_signal() {
            match result {
                Object::Break => Some(Object::Void),
                Object::Continue => None,
                Object::Return(inner) => {
                    if inner.is_result_err() {
                        None
                    } else {
                        Some(Object::Return(inner))
                    }
                },
                other => Some(other),
            }
        } else {
            None
        }
    }

    /// The elements a `for` loop runs over: an array's or tuple's elements;
    /// a string's characters, each as a string; an object's keys, or, when
    /// the loop binds two names, a new `(key, value)` tuple per property.
    /// Any other value is `NotIterable`.
    pub fn collect_iterable_elements(&mut self, iterable: &Object<'a>, binding: &Iteration, span: Span) -> (res: Result<Vec<Object<'a>>, Error>)
        requires
            old(self).wf(),
        ensures
            final(self).wf(),
            context_kept(*old(self), *final(self)),
            final(self).stack == old(self).stack,
            final(self).heap.arrays@ == old(self).heap.arrays@,
            final(self).heap.objects@ == old(self).heap.objects@,
            final(self).heap.types@ == old(self).heap.types@,
            final(self).heap.structs@ == old(self).heap.structs@,
            final(self).heap.tuples@.len() >= old(self).heap.tuples@.len(),
            final(self).heap.tuples@.subrange(0, old(self).heap.tuples@.len() as int) == old(self).heap.tuples@,
            final(self).heap.allocations >= old(self).heap.allocations,
            *iterable matches Object::Array { id, .. } ==> (res matches Ok(v) && v@ == (if id < old(self).heap.arrays.len() {
                old(self).heap.arrays@[id as int]@
            } else {
                Seq::empty()
            })),
            *iterable matches Object::Tuple { id } ==> (res matches Ok(v) && v@ == (if id < old(self).heap.tuples.len() {
                old(self).heap.tuples@[id as int]@
            } else {
                Seq::empty()
            })),
            *iterable matches Object::String(s) ==> (res matches Ok(v) && v@.len() == s@.len() && forall|i: int|
                0 <= i < s@.len() ==> (#[trigger] v@[i] matches Object::String(c) && c@ == seq![s@[i]])),
            *iterable matches Object::Object { id, .. } ==> (id < old(self).heap.objects.len() && !(*binding matches Iteration::Array(bs) && bs@.len() == 2)
                ==> (res matches Ok(v) && v@.len() == old(self).heap.objects@[id as int]@.len() && forall|i: int|
                    0 <= i < v@.len() ==> #[trigger] v@[i] == Object::String(old(self).heap.objects@[id as int]@[i].0))),
            *iterable matches Object::Object { id, .. } ==> (id < old(self).heap.objects.len() && (*binding matches Iteration::Array(bs) && bs@.len() == 2)
                ==> (res matches Ok(v) ==> v@.len() == old(self).heap.objects@[id as int]@.len() && forall|i: int|
                    0 <= i < v@.len() ==> (#[trigger] v@[i] matches Object::Tuple { id: t } && t < final(self).heap.tuples.len()
                    && final(self).heap.tuples@[t as int]@ == seq![Object::String(old(self).heap.objects@[id as int]@[i].0),
                        old(self).heap.objects@[id as int]@[i].1]))
                && (res matches Err(e) ==> e.kind == ErrorKind::AllocationLimit)
                && (old(self).heap.allocations + old(self).heap.objects@[id as int]@.len() <= usize::MAX ==> res is Ok)),
            *iterable matches Object::Object { id, .. } ==> (id >= old(self).heap.objects.len() ==> (res matches Ok(v) && v@.len() == 0)),
            !(iterable is Array || iterable is Tuple || iterable is String || iterable is Object) ==> (res matches Err(e)
                && e.kind == (ErrorKind::NotIterable { found: kind_of(*iterable) }) && e.span == span),
            !(iterable is Object) ==> *final(self) == *old(self),
    {
        match iterable {
            Object::Array { id, .. } => {
                if *id < self.heap.arrays.len() {
                    Ok(copy_objects(&self.heap.arrays[*id]))
                } else {
                    Ok(Vec::new())
                }
            },
            Object::Tuple { id } => {
                if *id < self.heap.tuples.len() {
                    Ok(copy_objects(&self.heap.tuples[*id]))
                } else {
                    Ok(Vec::new())
                }
            },
            Object::String(s) => {
                let text = s.as_str();
                let n = text.unicode_len();
                let mut out: Vec<Object<'a>> = Vec::new();
                let mut i: usize = 0;
                while i < n
                    invariant
                        n == s@.len(),
                        text@ == s@,
                        i <= n,
                        out@.len() == i,
                        forall|k: int| 0 <= k < i ==> (#[trigger] out@[k] matches Object::String(c) && c@ == seq![s@[k]]),
                    decreases n - i,
                {
                    let c = text.get_char(i);
                    out.push(Object::String(char_string(c)));
                    i += 1;
                }
                Ok(out)
            },
            Object::Object { id, .. } => {
                if *id >= self.heap.objects.len() {
                    return Ok(Vec::new());
                }
                let pairs = match binding {
                    Iteration::Array(bs) => bs.len() == 2,
                    _ => false,
                };
                let count = self.heap.objects[*id].len();
                let ghost props = self.heap.objects@[*id as int]@;
                let ghost t0 = self.heap.tuples@;
                let mut out: Vec<Object<'a>> = Vec::new();
                let mut i: usize = 0;
                while i < count
                    invariant
                        self.wf(),
                        context_kept(*old(self), *self),
                        (*iterable matches Object::Object { id: oid, .. } && oid == *id),
                        pairs == (*binding matches Iteration::Array(bs) && bs@.len() == 2),
                        *id < self.heap.objects.len(),
                        props == self.heap.objects@[*id as int]@,
                        count == props.len(),
                        i <= count,
                        out@.len() == i,
                        self.stack == old(self).stack,
                        self.heap.arrays@ == old(self).heap.arrays@,
                        self.heap.objects@ == old(self).heap.objects@,
                        self.heap.types@ == old(self).heap.types@,
                        self.heap.structs@ == old(self).heap.structs@,
                        t0 == old(self).heap.tuples@,
                        self.heap.tuples@.len() >= t0.len(),
                        self.heap.tuples@.subrange(0, t0.len() as int) == t0,
                        self.heap.allocations == old(self).heap.allocations + (if pairs { i } else { 0 }),
                        !pairs ==> forall|k: int| 0 <= k < i ==> #[trigger] out@[k] == Object::String(props[k].0),
                        pairs ==> forall|k: int| 0 <= k < i ==> (#[trigger] out@[k] matches Object::Tuple { id: t }
                            && t < self.heap.tuples.len()
                            && self.heap.tuples@[t as int]@ == seq![Object::String(props[k].0), props[k].1]),
                    decreases count - i,
                {
                    let key = self.heap.objects[*id][i].0.clone();
                    if pairs {
                        if self.heap.allocations == usize::MAX {
                            return Err(Error::new(ErrorKind::AllocationLimit, span));
                        }
                        let value = copy_object(&self.heap.objects[*id][i].1);
                        let mut elements: Vec<Object<'a>> = Vec::new();
                        elements.push(Object::String(key));
                        elements.push(value);
                        let ghost before = self.heap.tuples@;
                        let t = self.heap.alloc_tuple(elements);
                        proof {
                            assert(self.heap.tuples@[before.len() as int]@ =~= seq![Object::String(props[i as int].0), props[i as int].1]);
                            assert forall|k: int| 0 <= k < i implies (#[trigger] out@[k] matches Object::Tuple { id: t }
                                && t < self.heap.tuples.len()
                                && self.heap.tuples@[t as int]@ == seq![Object::String(props[k].0), props[k].1]) by {
                                match out@[k] {
                                    Object::Tuple { id: t } => {
                                        assert(self.heap.tuples@[t as int] == before[t as int]);
                                    },
                                    _ => {},
                                }
                            }
                            assert(self.heap.tuples@.subrange(0, t0.len() as int) =~= t0) by {
                                assert forall|k: int| 0 <= k < t0.len() implies self.heap.tuples@[k] == t0[k] by {
                                    assert(before[k] == before.subrange(0, t0.len() as int)[k]);
                                }
                            }
                        }
                        out.push(t);
                    } else {
                        out.push(Object::String(key));
                    }
                    i += 1;
                }
                Ok(out)
            },
            _ => Err(Error::new(ErrorKind::NotIterable { found: iterable.value_kind() }, span)),
        }
    }

    /// Binds a `for` loop's binding to one element: a name is bound in the
    /// current scope, mutable and private; a list of bindings takes the
    /// elements of an array or tuple in order, the empty value where they
    /// run out. Any other value is `DestructureNonSequence`.
    pub fn assign_for_binding(&mut self, binding: &Iteration, value: Object<'a>, span: Span) -> (res: Result<(), Error>)
        requires
            old(self).wf(),
        ensures
            final(self).wf(),
            context_kept(*old(self), *final(self)),
            final(self).stack.frames@ == old(self).stack.frames@,
            final(self).heap == old(self).heap,
            *binding matches Iteration::Identifier(name) ==> (res is Ok && final(self).stack.lookup(name@) == Some(value)
                && forall|m: Seq<char>| m != name@ ==> #[trigger] final(self).stack.lookup(m) == old(self).stack.lookup(m)),
            *binding matches Iteration::Identifier(name) ==> *final(self) == (Interpreter { stack: final(self).stack, ..*old(self) })
                && final(self).stack.scopes@[old(self).stack.current_index()].parent == old(self).stack.scopes@[old(self).stack.current_index()].parent
                && (old(self).stack.scopes@[old(self).stack.current_index()].bindings@.len() == 0 ==> final(self).stack.scopes@[old(self).stack.current_index()].bindings@.len() == 1),
            *binding matches Iteration::Identifier(name) ==> forall|m: Seq<char>, v: Object<'a>, p: bool, c: bool| m != name@
                && binds_here(old(self).stack, m, v, p, c) ==> #[trigger] binds_here(final(self).stack, m, v, p, c),
            *binding matches Iteration::Identifier(name) ==> binds_here(final(self).stack, name@, value, false, false)
                && final(self).stack.scopes@.len() == old(self).stack.scopes@.len() && forall|t: int|
                0 <= t < old(self).stack.scopes@.len() && t != old(self).stack.current_index() ==> #[trigger] final(
                self).stack.scopes@[t] == old(self).stack.scopes@[t],
            *binding matches Iteration::Array(_) ==> (!(value is Array || value is Tuple) ==> (res matches Err(e)
                && e.kind == (ErrorKind::DestructureNonSequence { found: kind_of(value) }) && e.span == span
                && final(self).stack == old(self).stack)),
            *binding matches Iteration::Array(bs) ==> ((value is Array || value is Tuple) && plain_names(bs@) ==> res is Ok
                && forall|i: int| 0 <= i < bs@.len() && last_binding(bs@, i) ==> final(self).stack.lookup(
                bound_name(#[trigger] bs@[i])->Some_0) == Some(element_or_void(sequence_elements(*old(self), value), i))
                && binds_here(final(self).stack, bound_name(bs@[i])->Some_0, element_or_void(sequence_elements(*old(self), value), i), false, false)),
        decreases binding, 0nat,
    {
        match binding {
            Iteration::Identifier(name) => {
                self.stack.define(name.clone(), value, false, false);
                Ok(())
            },
            Iteration::Array(bindings) => {
                let elements = match &value {
                    Object::Array { id, .. } => match self.heap.array_elements(*id) {
                        Some(v) => v,
                        None => Vec::new(),
                    },
                    Object::Tuple { id } => match self.heap.tuple_elements(*id) {
                        Some(v) => v,
                        None => Vec::new(),
                    },
                    _ => {
                        return Err(Error::new(ErrorKind::DestructureNonSequence { found: value.value_kind() }, span));
                    },
                };
                self.assign_for_bindings(bindings, &elements, span)
            },
        }
    }

    /// Binds each of `bindings` to the element at its position, the empty
    /// value past the end of `elements`; stops at the first error.
    fn assign_for_bindings(&mut self, bindings: &Vec<Iteration>, elements: &Vec<Object<'a>>, span: Span) -> (res: Result<(), Error>)
        requires
            old(self).wf(),
        ensures
            final(self).wf(),
            context_kept(*old(self), *final(self)),
            final(self).stack.frames@ == old(self).stack.frames@,
            final(self).heap == old(self).heap,
            plain_names(bindings@) ==> res is Ok && forall|i: int| 0 <= i < bindings@.len() && last_binding(bindings@, i)
                ==> final(self).stack.lookup(bound_name(#[trigger] bindings@[i])->Some_0) == Some(
                element_or_void(elements@, i)) && binds_here(final(self).stack, bound_name(bindings@[i])->Some_0, element_or_void(elements@, i), false, false),
        decreases bindings, 1nat,
    {
        let mut i: usize = 0;
        while i < bindings.len()
            invariant
                self.wf(),
                context_kept(*old(self), *self),
                i <= bindings.len(),
                self.stack.frames@ == old(self).stack.frames@,
                self.heap == old(self).heap,
                plain_names(bindings@) ==> forall|k: int| 0 <= k < i && (forall|j: int| k < j < i ==> bound_name(
                    #[trigger] bindings@[j]) != bound_name(bindings@[k])) ==> self.stack.lookup(
                    bound_name(#[trigger] bindings@[k])->Some_0) == Some(element_or_void(elements@, k)) && binds_here(
                    self.stack, bound_name(bindings@[k])->Some_0, element_or_void(elements@, k), false, false),
            decreases bindings.len() - i,
        {
            let val = if i < elements.len() {
                copy_object(&elements[i])
            } else {
                Object::Void
            };
            proof {
                if plain_names(bindings@) {
                    assert(bindings@[i as int] is Identifier);
                }
            }
            match self.assign_for_binding(&bindings[i], val, span) {
                Ok(()) => {},
                Err(e) => {
                    return Err(e);
                },
            }
            proof {
                if plain_names(bindings@) {
                    let nm = bound_name(bindings@[i as int])->Some_0;
                    assert forall|k: int| 0 <= k < i + 1 && (forall|j: int| k < j < i + 1 ==> bound_name(
                        #[trigger] bindings@[j]) != bound_name(bindings@[k])) implies self.stack.lookup(
                        bound_name(#[trigger] bindings@[k])->Some_0) == Some(element_or_void(elements@, k)) && binds_here(
                        self.stack, bound_name(bindings@[k])->Some_0, element_or_void(elements@, k), false, false) by {
                        if k < i {
                            assert(bound_name(bindings@[i as int]) != bound_name(bindings@[k]));
                            assert(bindings@[k] is Identifier);
                            assert forall|j: int| k < j < i implies bound_name(#[trigger] bindings@[j]) != bound_name(
                                bindings@[k]) by {
                            }
                        }
                    }
                }
            }
            i += 1;
        }
        Ok(())
    }
}

} // verus!
