//! Assignment targets: reading the value a target holds and storing a new one.

use crate::ast::Expression;
use crate::error::{Error, ErrorKind};
use crate::interpreter::index::{element_at, index_of};
use crate::interpreter::lookup::identifier_value;
use crate::interpreter::{context_kept, Interpreter};
use crate::memory::heap::{prop_get, prop_insert, props_get, props_insert, Properties, TypeNode};
use crate::memory::stack::{ancestor, find_local, lemma_update_keeps_chains, Stack, Variable};
use crate::object::Object;
use crate::span::Span;
use vstd::prelude::*;

verus! {

/// A place that an assignment can store into.
#[derive(Debug)]
pub enum LValue {
    /// A variable, with the scope distance that analysis resolved, if any.
    Variable { name: String, distance: Option<usize> },
    /// Property `name` of heap object `object`.
    Property { object: usize, name: String },
    /// Element `index` of heap array `array`; `fixed_size` is the size that
    /// the array's type fixes, if any.
    Index { array: usize, index: i64, fixed_size: Option<i64> },
}

/// The elements of an array after storing `value` at `index`: an index in
/// range replaces that element; a non-negative index past the end extends
/// the array with empty values up to it; a negative one out of range
/// changes nothing.
pub open spec fn array_store<'a>(elems: Seq<Object<'a>>, index: int, value: Object<'a>) -> Seq<Object<'a>> {
    match index_of(index, elems.len() as int) {
        Some(i) => elems.update(i, value),
        None => if index >= 0 {
            (elems + Seq::new((index - elems.len()) as nat, |k: int| Object::Void)).push(value)
        } else {
            elems
        },
    }
}

/// Whether `index` falls outside an array of fixed size `size`, counting a
/// negative index from the end.
pub open spec fn outside_fixed(index: int, size: int) -> bool {
    let check = if index < 0 { size + index } else { index };
    check < 0 || check >= size
}

/// Why storing into the variable `name` fails, given the scope distance
/// that analysis resolved for it, if any; `None` when the store succeeds.
/// At a distance, that scope must exist (`InvalidScopeDistance`) and bind
/// the name (`NotFoundAtDistance`), not as a constant
/// (`ConstantAssignment`); without one, the current scope must bind it
/// (`UnknownVariable`), not as a constant.
pub open spec fn store_error(st: Stack, distance: Option<usize>, name: String) -> Option<ErrorKind> {
    match distance {
        Some(d) => match ancestor(st.scopes@, st.current_index(), d as nat) {
            None => Some(ErrorKind::InvalidScopeDistance { distance: d, name }),
            Some(s) => match find_local(st.scopes@[s].bindings@, name@) {
                None => Some(ErrorKind::NotFoundAtDistance { name, distance: d }),
                Some(b) => if st.scopes@[s].bindings@[b].constant {
                    Some(ErrorKind::ConstantAssignment { name })
                } else {
                    None
                },
            },
        },
        None => match find_local(st.scopes@[st.current_index()].bindings@, name@) {
            None => Some(ErrorKind::UnknownVariable { name }),
            Some(b) => if st.scopes@[st.current_index()].bindings@[b].constant {
                Some(ErrorKind::ConstantAssignment { name })
            } else {
                None
            },
        },
    }
}

/// The size that the type at `kind` fixes for arrays, if any.
pub open spec fn fixed_size_of(types: Seq<TypeNode>, kind: int) -> Option<i64> {
    if 0 <= kind < types.len() {
        match types[kind] {
            TypeNode::Array { size, .. } => size,
            _ => None,
        }
    } else {
        None
    }
}

/// Reading an element back after storing it gives the stored value, for
/// every index that the store does not ignore (one in range, or one that is
/// not negative); a store in range leaves every other element as it was.
pub proof fn lemma_array_store_get<'a>(elems: Seq<Object<'a>>, index: int, value: Object<'a>, other: int)
    requires
        index >= 0 || index_of(index, elems.len() as int) is Some,
    ensures
        element_at(array_store(elems, index, value), index) == value,
        index_of(index, elems.len() as int) matches Some(i) ==> (index_of(other, elems.len() as int) matches Some(j)
            && j != i ==> element_at(array_store(elems, index, value), other) == element_at(elems, other)),
{
    let stored = array_store(elems, index, value);
    match index_of(index, elems.len() as int) {
        Some(i) => {
            assert(stored.len() == elems.len());
        },
        None => {
            assert(stored.len() == index + 1);
            assert(index_of(index, stored.len() as int) == Some(index));
        },
    }
}

impl<'a> Interpreter<'a> {
    /// The size that array type `kind` fixes, if any.
    pub fn fixed_size(&self, kind: usize) -> (r: Option<i64>)
        ensures
            r == fixed_size_of(self.heap.types@, kind as int),
    {
        if kind < self.heap.types.len() {
            match &self.heap.types[kind] {
                TypeNode::Array { size, .. } => *size,
                _ => None,
            }
        } else {
            None
        }
    }

    /// The value a target holds now: a variable's value as an identifier
    /// reads it; a missing property or element is the empty value.
    pub fn get_lvalue_value(&self, target: &LValue, expr: &Expression, span: Span) -> (res: Result<Object<'a>, Error>)
        requires
            self.wf(),
        ensures
            match *target {
                LValue::Variable { name, .. } => match identifier_value(*self, *expr, name@) {
                    Some(v) => res == Ok::<Object<'a>, Error>(v),
                    None => res matches Err(e) && e.kind == (ErrorKind::NotDefined { name }) && e.span == span,
                },
                LValue::Property { object, name } => res == Ok::<Object<'a>, Error>(
                    if object < self.heap.objects.len() {
                        match prop_get(self.heap.objects@[object as int]@, name@) {
                            Some(v) => v,
                            None => Object::Void,
                        }
                    } else {
                        Object::Void
                    },
                ),
                LValue::Index { array, index, .. } => res == Ok::<Object<'a>, Error>(
                    if array < self.heap.arrays.len() {
                        element_at(self.heap.arrays@[array as int]@, index as int)
                    } else {
                        Object::Void
                    },
                ),
            },
    {
        match target {
            LValue::Variable { name, .. } => self.eval_identifier(expr, name, span),
            LValue::Property { object, name } => {
                if *object < self.heap.objects.len() {
                    match props_get(&self.heap.objects[*object], name) {
                        Some(v) => Ok(v),
                        None => Ok(Object::Void),
                    }
                } else {
                    Ok(Object::Void)
                }
            },
            LValue::Index { array, index, .. } => {
                if *array < self.heap.arrays.len() {
                    Ok(self.get_by_index(&self.heap.arrays[*array], *index))
                } else {
                    Ok(Object::Void)
                }
            },
        }
    }

    /// Stores `value` into a target. A variable with a resolved distance is
    /// assigned there (see `assign_at`); one without is looked up in the
    /// current scope only: a constant is refused with `ConstantAssignment`,
    /// a missing one is `UnknownVariable`. A property is inserted into its
    /// object. An element is stored as `array_store` says, after a fixed
    /// size, if any, has been checked (`IndexOutOfBounds`).
    pub fn set_lvalue_value(&mut self, target: LValue, value: Object<'a>, span: Span) -> (res: Result<(), Error>)
        requires
            old(self).wf(),
        ensures
            final(self).wf(),
            final(self).stack.frames@ == old(self).stack.frames@,
            final(self).stack.scopes@.len() == old(self).stack.scopes@.len(),
            final(self).heap.allocations == old(self).heap.allocations,
            final(self).heap.tuples@ == old(self).heap.tuples@,
            final(self).heap.structs@ == old(self).heap.structs@,
            final(self).heap.types@ == old(self).heap.types@,
            final(self).heap.arrays@.len() == old(self).heap.arrays@.len(),
            final(self).heap.objects@.len() == old(self).heap.objects@.len(),
            context_kept(*old(self), *final(self)),
            target matches LValue::Variable { name, distance: Some(d) } ==> crate::interpreter::lookup::assigned_at(
                old(self).stack, final(self).stack, d, name, value, res, span),
            target matches LValue::Variable { name, distance: None } ==> match find_local(
                old(self).stack.scopes@[old(self).stack.current_index()].bindings@, name@) {
                None => res matches Err(e) && e.kind == (ErrorKind::UnknownVariable { name }) && e.span == span
                    && final(self).stack == old(self).stack,
                Some(b) => if old(self).stack.scopes@[old(self).stack.current_index()].bindings@[b].constant {
                    res matches Err(e) && e.kind == (ErrorKind::ConstantAssignment { name }) && e.span == span
                        && final(self).stack == old(self).stack
                } else {
                    res is Ok && final(self).stack.scopes@[old(self).stack.current_index()].bindings@
                        == old(self).stack.scopes@[old(self).stack.current_index()].bindings@.update(
                        b,
                        Variable { value, ..old(self).stack.scopes@[old(self).stack.current_index()].bindings@[b] },
                    )
                },
            },
            target matches LValue::Variable { name, distance: None } ==> (res is Ok ==> final(self).stack.lookup(name@) == Some(
                value)),
            target matches LValue::Variable { .. } ==> final(self).heap == old(self).heap,
            target matches LValue::Variable { name, distance } ==> match store_error(old(self).stack, distance, name) {
                None => res is Ok,
                Some(k) => res matches Err(e) && e.kind == k && e.span == span,
            },
            target matches LValue::Property { object, name } ==> (res is Ok && final(self).stack == old(self).stack
                && final(self).heap.arrays@ == old(self).heap.arrays@
                && forall|o: int| 0 <= o < old(self).heap.objects.len() && o != object
                    ==> #[trigger] final(self).heap.objects@[o] == old(self).heap.objects@[o])
                && (object < old(self).heap.objects.len() ==> final(self).heap.objects@[object as int]@ == prop_insert(
                    old(self).heap.objects@[object as int]@, name, value)),
            target matches LValue::Index { array, index, fixed_size } ==> final(self).stack == old(self).stack
                && final(self).heap.objects@ == old(self).heap.objects@
                && forall|o: int| 0 <= o < old(self).heap.arrays.len() && o != array
                    ==> #[trigger] final(self).heap.arrays@[o] == old(self).heap.arrays@[o],
            target matches LValue::Index { array, index, fixed_size: Some(size) } ==> (outside_fixed(index as int, size as int)
                <==> (res matches Err(e) && e.kind == (ErrorKind::IndexOutOfBounds { index, size }) && e.span == span)),
            target matches LValue::Index { array, index, fixed_size } ==> (res is Ok ==> (array < old(self).heap.arrays.len()
                ==> final(self).heap.arrays@[array as int]@ == array_store(old(self).heap.arrays@[array as int]@, index as int, value))),
            target matches LValue::Index { array, index, fixed_size } ==> (res is Err ==> final(self).heap == old(self).heap),
            target matches LValue::Index { array, index, fixed_size } ==> (res is Err <==> (fixed_size matches Some(size)
                && outside_fixed(index as int, size as int))),
    {
        match target {
            LValue::Variable { name, distance } => {
                match distance {
                    Some(d) => self.assign_at(d, &name, value, span),
                    None => {
                        let cur = self.stack.current();
                        match self.stack.scopes[cur].find(&name) {
                            Some(b) => {
                                if self.stack.scopes[cur].bindings[b].constant {
                                    return Err(Error::new(ErrorKind::ConstantAssignment { name }, span));
                                }
                                let ghost before = self.stack;
                                self.stack.update_value(cur, b, value);
                                proof {
                                    lemma_update_keeps_chains(before, self.stack, cur as int, b as int, name@);
                                }
                                Ok(())
                            },
                            None => Err(Error::new(ErrorKind::UnknownVariable { name }, span)),
                        }
                    },
                }
            },
            LValue::Property { object, name } => {
                if object < self.heap.objects.len() {
                    let ghost old_objects = self.heap.objects@;
                    let mut props: Properties<'a> = Vec::new();
                    std::mem::swap(&mut props, &mut self.heap.objects[object]);
                    props_insert(&mut props, name, value);
                    self.heap.objects.set(object, props);
                    assert forall|o: int| 0 <= o < old_objects.len() && o != object implies #[trigger] self.heap.objects@[o]
                        == old_objects[o] by {}
                }
                Ok(())
            },
            LValue::Index { array, index, fixed_size } => {
                match fixed_size {
                    Some(size) => {
                        let check: i128 = if index < 0 { size as i128 + index as i128 } else { index as i128 };
                        if check < 0 || check >= size as i128 {
                            return Err(Error::new(ErrorKind::IndexOutOfBounds { index, size }, span));
                        }
                    },
                    None => {},
                }
                if array < self.heap.arrays.len() {
                    let ghost old_arrays = self.heap.arrays@;
                    let mut elems: Vec<Object<'a>> = Vec::new();
                    std::mem::swap(&mut elems, &mut self.heap.arrays[array]);
                    let ghost before = elems@;
                    match self.resolve_index(index, elems.len()) {
                        Some(i) => {
                            elems.set(i, value);
                        },
                        None => {
                            if index >= 0 {
                                let target_len = index as u64;
                                while (elems.len() as u64) < target_len
                                    invariant
                                        before.len() <= elems@.len() <= target_len,
                                        target_len == index,
                                        elems@ == before + Seq::new((elems@.len() - before.len()) as nat, |k: int| Object::Void),
                                    decreases target_len - elems@.len(),
                                {
                                    elems.push(Object::Void);
                                }
                                elems.push(value);
                                assert(elems@ =~= array_store(before, index as int, value));
                            }
                        },
                    }
                    self.heap.arrays.set(array, elems);
                    assert forall|o: int| 0 <= o < old_arrays.len() && o != array implies #[trigger] self.heap.arrays@[o]
                        == old_arrays[o] by {}
                }
                Ok(())
            },
        }
    }
}

} // verus!
