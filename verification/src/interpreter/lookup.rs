//! Variable access: by resolved distance, by name up the scope chain, and
//! the visibility check for struct members.

use crate::ast::Expression;
use crate::error::{Error, ErrorKind};
use crate::interpreter::Interpreter;
use crate::maps::{hashed_distance_entries, hashed_distances_get};
use crate::memory::stack::{ancestor, find_local, Stack, Variable};
use crate::object::{copy_object, Object};
use crate::span::Span;
use vstd::prelude::*;

verus! {

/// The value of `name` in the scope `d` steps up the chain from the current
/// one, if that scope exists and binds it.
pub open spec fn value_at<'a>(st: Stack<'a>, d: nat, name: Seq<char>) -> Option<Object<'a>> {
    match ancestor(st.scopes@, st.current_index(), d) {
        Some(s) => match find_local(st.scopes@[s].bindings@, name) {
            Some(b) => Some(st.scopes@[s].bindings@[b].value),
            None => None,
        },
        None => None,
    }
}

/// Two stacks whose scopes have the same parents have the same ancestors.
pub proof fn lemma_ancestor_same(a: Stack, b: Stack, s: int, d: nat)
    requires
        a.scopes.len() == b.scopes.len(),
        forall|t: int| 0 <= t < a.scopes.len() ==> #[trigger] a.scopes@[t].parent == b.scopes@[t].parent,
    ensures
        ancestor(a.scopes@, s, d) == ancestor(b.scopes@, s, d),
    decreases d,
{
    if 0 <= s < a.scopes.len() && d > 0 {
        assert(a.scopes@[s].parent == b.scopes@[s].parent);
        match a.scopes@[s].parent {
            Some(p) => {
                lemma_ancestor_same(a, b, p as int, (d - 1) as nat);
            },
            None => {},
        }
    }
}

/// The distance that analysis resolved for an identifier, if any.
pub open spec fn resolved_distance(it: Interpreter, e: Expression) -> Option<usize> {
    if hashed_distance_entries(it.locals).contains_key((e.span.start, e.span.end)) {
        Some(hashed_distance_entries(it.locals)[(e.span.start, e.span.end)])
    } else {
        None
    }
}

/// The value an identifier evaluates to: the binding at its resolved
/// distance when that exists, else the nearest binding up the chain.
pub open spec fn identifier_value<'a>(it: Interpreter<'a>, e: Expression, name: Seq<char>) -> Option<Object<'a>> {
    match resolved_distance(it, e) {
        Some(d) => match value_at(it.stack, d as nat, name) {
            Some(v) => Some(v),
            None => it.stack.lookup(name),
        },
        None => it.stack.lookup(name),
    }
}

/// What assigning `value` to `name` in the scope `distance` steps up from
/// the current one does to the stack: a distance beyond the outermost scope
/// is `InvalidScopeDistance`, a name that scope does not bind
/// `NotFoundAtDistance`, a constant binding `ConstantAssignment`, each
/// leaving the scopes as they were; otherwise that binding alone takes the
/// value.
pub open spec fn assigned_at<'a>(
    before: Stack<'a>,
    after: Stack<'a>,
    distance: usize,
    name: String,
    value: Object<'a>,
    res: Result<(), Error>,
    span: Span,
) -> bool {
    match ancestor(before.scopes@, before.current_index(), distance as nat) {
        None => res matches Err(e) && e.kind == (ErrorKind::InvalidScopeDistance { distance, name })
            && e.span == span && after.scopes@ == before.scopes@,
        Some(s) => match find_local(before.scopes@[s].bindings@, name@) {
            None => res matches Err(e) && e.kind == (ErrorKind::NotFoundAtDistance { name, distance })
                && e.span == span && after.scopes@ == before.scopes@,
            Some(b) => if before.scopes@[s].bindings@[b].constant {
                res matches Err(e) && e.kind == (ErrorKind::ConstantAssignment { name })
                    && e.span == span && after.scopes@ == before.scopes@
            } else {
                &&& res is Ok
                &&& after.scopes@.len() == before.scopes@.len()
                &&& forall|t: int| 0 <= t < before.scopes.len() && t != s
                    ==> #[trigger] after.scopes@[t] == before.scopes@[t]
                &&& after.scopes@[s].bindings@ == before.scopes@[s].bindings@.update(
                    b,
                    Variable { value, ..before.scopes@[s].bindings@[b] },
                )
                &&& value_at(after, distance as nat, name@) == Some(value)
            },
        },
    }
}

impl<'a> Interpreter<'a> {
    /// Walks `distance` steps up the chain from the current scope.
    fn scope_at(&self, distance: usize) -> (r: Option<usize>)
        requires
            self.wf(),
        ensures
            r matches Some(s) ==> ancestor(self.stack.scopes@, self.stack.current_index(), distance as nat) == Some(s as int)
                && s < self.stack.scopes.len(),
            r is None ==> ancestor(self.stack.scopes@, self.stack.current_index(), distance as nat) is None,
    {
        let mut cur = self.stack.current();
        let mut k: usize = 0;
        while k < distance
            invariant
                self.wf(),
                k <= distance,
                cur < self.stack.scopes.len(),
                ancestor(self.stack.scopes@, self.stack.current_index(), distance as nat)
                    == ancestor(self.stack.scopes@, cur as int, (distance - k) as nat),
            decreases distance - k,
        {
            match self.stack.scopes[cur].parent {
                Some(p) => {
                    assert(self.stack.scopes@[cur as int].parent matches Some(q) ==> (q as int) < cur);
                    cur = p;
                },
                None => {
                    return None;
                },
            }
            k += 1;
        }
        Some(cur)
    }

    /// Retrieves a variable's value from the scope at the given distance.
    pub fn get_at(&self, distance: usize, name: &String) -> (r: Option<Object<'a>>)
        requires
            self.wf(),
        ensures
            r == value_at(self.stack, distance as nat, name@),
    {
        match self.scope_at(distance) {
            Some(s) => match self.stack.scopes[s].get_local(name) {
                Some(b) => Some(copy_object(&b.value)),
                None => None,
            },
            None => None,
        }
    }

    /// Assigns to a variable in the scope at the given distance. A distance
    /// beyond the outermost scope is `InvalidScopeDistance`; a constant
    /// binding is `ConstantAssignment`; a missing one `NotFoundAtDistance`.
    pub fn assign_at(&mut self, distance: usize, name: &String, value: Object<'a>, span: Span) -> (res: Result<(), Error>)
        requires
            old(self).wf(),
        ensures
            final(self).wf(),
            final(self).stack.frames@ == old(self).stack.frames@,
            final(self).heap == old(self).heap,
            final(self).locals == old(self).locals,
            final(self).modules@ == old(self).modules@,
            final(self).steps == old(self).steps,
            final(self).path == old(self).path,
            assigned_at(old(self).stack, final(self).stack, distance, *name, value, res, span),
    {
        let s = match self.scope_at(distance) {
            Some(s) => s,
            None => {
                return Err(Error::new(ErrorKind::InvalidScopeDistance { distance, name: name.clone() }, span));
            },
        };
        match self.stack.scopes[s].find(name) {
            Some(b) => {
                if self.stack.scopes[s].bindings[b].constant {
                    return Err(Error::new(ErrorKind::ConstantAssignment { name: name.clone() }, span));
                }
                let ghost old_stack = self.stack;
                self.stack.update_value(s, b, value);
                proof {
                    assert forall|t: int| 0 <= t < old_stack.scopes.len() implies #[trigger] old_stack.scopes@[t].parent
                        == self.stack.scopes@[t].parent by {
                        if t != s {
                            assert(self.stack.scopes@[t] == old_stack.scopes@[t]);
                        }
                    }
                    lemma_ancestor_same(old_stack, self.stack, old_stack.current_index(), distance as nat);
                    let nb = self.stack.scopes@[s as int].bindings@;
                    let ob = old_stack.scopes@[s as int].bindings@;
                    crate::memory::stack::lemma_find_from_spec(ob, name@, 0);
                    assert forall|k: int| 0 <= k < b implies nb[k].name@ != name@ by {
                        assert(nb[k] == ob[k]);
                    }
                    crate::memory::stack::lemma_find_first(nb, name@, b as int);
                }
                Ok(())
            },
            None => Err(Error::new(ErrorKind::NotFoundAtDistance { name: name.clone(), distance }, span)),
        }
    }

    /// The resolved scope distance of an identifier, if analysis found one.
    pub fn get_resolved_distance(&self, expr: &Expression) -> (r: Option<usize>)
        ensures
            r == (if hashed_distance_entries(self.locals).contains_key((expr.span.start, expr.span.end)) {
                Some(hashed_distance_entries(self.locals)[(expr.span.start, expr.span.end)])
            } else {
                None::<usize>
            }),
    {
        hashed_distances_get(&self.locals, expr.span.key())
    }

    /// Evaluates an identifier: through its resolved distance when there is
    /// one and it yields a value, else by name up the scope chain.
    pub fn eval_identifier(&self, expression: &Expression, name: &String, span: Span) -> (res: Result<Object<'a>, Error>)
        requires
            self.wf(),
        ensures
            res matches Ok(v) ==> identifier_value(*self, *expression, name@) == Some(v),
            res matches Err(e) ==> identifier_value(*self, *expression, name@) is None
                && e.kind == (ErrorKind::NotDefined { name: *name }) && e.span == span && e.source is None && e.file is None,
    {
        match self.get_resolved_distance(expression) {
            Some(distance) => match self.get_at(distance, name) {
                Some(value) => {
                    return Ok(value);
                },
                None => {},
            },
            None => {},
        }
        match self.stack.get(name) {
            Some(v) => Ok(v),
            None => Err(Error::new(ErrorKind::NotDefined { name: name.clone() }, span)),
        }
    }
}

} // verus!
