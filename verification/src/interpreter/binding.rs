//! Bindings made by statements: `let`/`const` bindings and module
//! destructuring, `for` loop bindings and the elements a loop runs over.

use crate::ast::{Binding, DestructureItem};
use crate::error::{Error, ErrorKind};
use crate::interpreter::{context_kept, Interpreter};
use crate::memory::stack::{binds_here, find_local, Stack};
use crate::object::{copy_object, Object};
use crate::span::Span;
use vstd::prelude::*;

verus! {

/// The name an item of a destructuring binds: its renaming, if any.
pub open spec fn item_target(item: DestructureItem) -> Seq<char> {
    match item.alias {
        Some(a) => a@,
        None => item.name@,
    }
}

/// What module scope `sid` exports under `name`, if it binds it.
pub open spec fn export_of<'a>(st: Stack<'a>, sid: int, name: Seq<char>) -> Option<Object<'a>> {
    if 0 <= sid < st.scopes.len() {
        match find_local(st.scopes@[sid].bindings@, name) {
            Some(b) => Some(st.scopes@[sid].bindings@[b].value),
            None => None,
        }
    } else {
        None
    }
}

impl<'a> Interpreter<'a> {
    /// Binds the names of a `let` or `const`: a plain name to the value, or
    /// names destructured out of a module.
    pub fn apply_binding(&mut self, binding: &Binding, value: Object<'a>, public: bool, span: Span, constant: bool) -> (res: Result<(), Error>)
        requires
            old(self).wf(),
        ensures
            final(self).wf(),
            context_kept(*old(self), *final(self)),
            crate::interpreter::arenas_grown(*old(self), *final(self)),
            final(self).stack.frames@ == old(self).stack.frames@,
            final(self).heap == old(self).heap,
            *binding matches Binding::Identifier(name) ==> res is Ok && final(self).stack.lookup(name@) == Some(value)
                && binds_here(final(self).stack, name@, value, public, constant)
                && forall|m: Seq<char>| m != name@ ==> #[trigger] final(self).stack.lookup(m) == old(self).stack.lookup(m),
            *binding matches Binding::Destructure(items) ==> destructured(*old(self), *final(self), None, items@, value, res, span),
            *binding matches Binding::ModuleAndDestructure { alias, items } ==> destructured(
                *old(self), *final(self), Some(alias@), items@, value, res, span),
    {
        match binding {
            Binding::Identifier(name) => {
                self.stack.define(name.clone(), value, public, constant);
                Ok(())
            },
            Binding::Destructure(items) => self.apply_destructuring(None, items, value, public, span, constant),
            Binding::ModuleAndDestructure { alias, items } => self.apply_destructuring(Some(alias), items, value, public, span, constant),
        }
    }

    /// Destructures a module: binds the module itself under `alias`, if
    /// given, then each item's export under the item's name or renaming.
    /// An item the module does not bind is `NotExported`; a value that is
    /// not a module is `DestructureNonModule`.
    pub fn apply_destructuring(
        &mut self,
        alias: Option<&String>,
        items: &Vec<DestructureItem>,
        value: Object<'a>,
        public: bool,
        span: Span,
        constant: bool,
    ) -> (res: Result<(), Error>)
        requires
            old(self).wf(),
        ensures
            final(self).wf(),
            context_kept(*old(self), *final(self)),
            crate::interpreter::arenas_grown(*old(self), *final(self)),
            final(self).stack.frames@ == old(self).stack.frames@,
            final(self).heap == old(self).heap,
            destructured(*old(self), *final(self), match alias {
                Some(a) => Some(a@),
                None => None,
            }, items@, value, res, span),
            value matches Object::Scope(sid) ==> (sid != old(self).stack.current_index() ==> (res is Ok ==> forall|i: int|
                0 <= i < items@.len() && last_to_bind(items@, i) ==> #[trigger] binds_here(
                final(self).stack,
                item_target(items@[i]),
                export_of(old(self).stack, sid as int, items@[i].name@)->Some_0,
                public,
                constant,
            ))),
    {
        let sid = match &value {
            Object::Scope(sid) => *sid,
            _ => {
                return Err(Error::new(ErrorKind::DestructureNonModule, span));
            },
        };
        match alias {
            Some(alias_name) => {
                self.stack.define(alias_name.clone(), copy_object(&value), public, constant);
            },
            None => {},
        }
        let ghost st0 = self.stack;
        let ghost other = sid != old(self).stack.current_index();
        let mut i: usize = 0;
        while i < items.len()
            invariant
                self.wf(),
                context_kept(*old(self), *self),
                i <= items.len(),
                self.stack.frames@ == st0.frames@,
                st0.frames@ == old(self).stack.frames@,
                value == Object::Scope(sid),
                self.stack.scopes@.len() == st0.scopes@.len(),
                st0.scopes@.len() == old(self).stack.scopes@.len(),
                self.stack.current_index() == old(self).stack.current_index(),
                other == (sid != old(self).stack.current_index()),
                self.heap == old(self).heap,
                forall|k: int| 0 <= k < i ==> self.stack.lookup(item_target(#[trigger] items@[k])) is Some,
                alias matches Some(a) ==> self.stack.lookup(a@) is Some,
                other ==> (sid < old(self).stack.scopes.len() ==> self.stack.scopes@[sid as int] == old(self).stack.scopes@[sid as int]),
                other ==> forall|k: int| 0 <= k < i ==> export_of(old(self).stack, sid as int, (#[trigger] items@[k]).name@) is Some,
                other ==> forall|k: int| 0 <= k < i && (forall|j: int| k < j < i ==> item_target(#[trigger] items@[j]) != item_target(items@[k]))
                    ==> self.stack.lookup(item_target(#[trigger] items@[k])) == export_of(old(self).stack, sid as int, items@[k].name@),
                other ==> (alias matches Some(a) ==> (forall|k: int| 0 <= k < i ==> item_target(#[trigger] items@[k]) != a@)
                    ==> self.stack.lookup(a@) == Some(value)),
                other ==> forall|k: int| 0 <= k < i && (forall|j: int| k < j < i ==> item_target(#[trigger] items@[j]) != item_target(items@[k]))
                    ==> #[trigger] binds_here(self.stack, item_target(items@[k]), export_of(old(self).stack, sid as int, items@[k].name@)->Some_0, public, constant),
            decreases items.len() - i,
        {
            let export_value = if sid < self.stack.scopes.len() {
                match self.stack.scopes[sid].get_local(&items[i].name) {
                    Some(b) => Some(copy_object(&b.value)),
                    None => None,
                }
            } else {
                None
            };
            match export_value {
                Some(val) => {
                    let name = match &items[i].alias {
                        Some(a) => a.clone(),
                        None => items[i].name.clone(),
                    };
                    let ghost nm = name@;
                    let ghost before_define = self.stack;
                    assert(nm == item_target(items@[i as int]));
                    self.stack.define(name, val, public, constant);
                    proof {
                        if other && sid < old(self).stack.scopes.len() {
                            assert(self.stack.scopes@[sid as int] == before_define.scopes@[sid as int]);
                        }
                        assert forall|k: int| 0 <= k < i + 1 implies self.stack.lookup(item_target(#[trigger] items@[k])) is Some by {
                            if item_target(items@[k]) != nm {
                            }
                        }
                        match alias {
                            Some(a) => {
                                if a@ != nm {
                                }
                            },
                            None => {},
                        }
                        if other {
                            assert forall|k: int| 0 <= k < i + 1 && (forall|j: int| k < j < i + 1 ==> item_target(#[trigger] items@[j]) != item_target(items@[k]))
                                implies self.stack.lookup(item_target(#[trigger] items@[k])) == export_of(old(self).stack, sid as int, items@[k].name@) by {
                                if k < i {
                                    assert(item_target(items@[i as int]) != item_target(items@[k]));
                                    assert forall|j: int| k < j < i implies item_target(#[trigger] items@[j]) != item_target(items@[k]) by {
                                    }
                                }
                            }
                            assert forall|k: int| 0 <= k < i + 1 implies export_of(old(self).stack, sid as int, (#[trigger] items@[k]).name@) is Some by {
                            }
                            assert forall|k: int| 0 <= k < i + 1 && (forall|j: int| k < j < i + 1 ==> item_target(#[trigger] items@[j]) != item_target(items@[k]))
                                implies #[trigger] binds_here(self.stack, item_target(items@[k]), export_of(old(self).stack, sid as int, items@[k].name@)->Some_0, public, constant) by {
                                if k < i {
                                    assert(item_target(items@[i as int]) != item_target(items@[k]));
                                    assert forall|j: int| k < j < i implies item_target(#[trigger] items@[j]) != item_target(items@[k]) by {
                                    }
                                    assert(binds_here(before_define, item_target(items@[k]), export_of(old(self).stack, sid as int, items@[k].name@)->Some_0, public, constant));
                                }
                            }
                        }
                    }
                },
                None => {
                    let module = if sid < self.stack.scopes.len() {
                        match &self.stack.scopes[sid].name {
                            Some(n) => n.clone(),
                            None => String::from_str("<anonymous>"),
                        }
                    } else {
                        String::from_str("<anonymous>")
                    };
                    let e = Error::new(ErrorKind::NotExported { name: items[i].name.clone(), module }, span);
                    assert(items@[i as int].name == items[i as int].name);
                    proof {
                        if other {
                            assert(export_of(old(self).stack, sid as int, items@[i as int].name@) is None);
                        }
                    }
                    return Err(e);
                },
            }
            i += 1;
        }
        Ok(())
    }
}

/// Whether no item after the `i`th binds the same name: the `i`th item's
/// binding is the one that stays.
pub open spec fn last_to_bind(items: Seq<DestructureItem>, i: int) -> bool {
    forall|j: int| i < j < items.len() ==> item_target(#[trigger] items[j]) != item_target(items[i])
}

/// What destructuring `value` into `items`, after binding the module
/// under `alias`, does: a value that is not a module is refused with the
/// stack unchanged. For a module other than the current scope, it succeeds
/// exactly when the module binds every item's name; an error then names
/// the first item it does not bind (`NotExported`); success binds each
/// item's name or renaming to the module's value of that name (where names
/// repeat, the last item wins), and the alias, unless an item rebinds it,
/// to the module.
pub open spec fn destructured<'a>(
    before: Interpreter<'a>,
    after: Interpreter<'a>,
    alias: Option<Seq<char>>,
    items: Seq<DestructureItem>,
    value: Object<'a>,
    res: Result<(), Error>,
    span: Span,
) -> bool {
    match value {
        Object::Scope(sid) => {
            &&& res is Ok ==> (forall|i: int| 0 <= i < items.len() ==> after.stack.lookup(item_target(#[trigger] items[i])) is Some)
            &&& res is Ok ==> (alias matches Some(a) ==> after.stack.lookup(a) is Some)
            &&& res matches Err(e) ==> (e.kind matches ErrorKind::NotExported { name, .. }
                && exists|i: int| 0 <= i < items.len() && (#[trigger] items[i]).name == name) && e.span == span
            &&& sid != before.stack.current_index() ==> {
                &&& res is Ok <==> forall|i: int| 0 <= i < items.len() ==> export_of(before.stack, sid as int, (#[trigger] items[i]).name@) is Some
                &&& res is Ok ==> forall|i: int| 0 <= i < items.len() && last_to_bind(items, i) ==> after.stack.lookup(
                    item_target(#[trigger] items[i])) == export_of(before.stack, sid as int, items[i].name@)
                &&& res is Ok ==> (alias matches Some(a) ==> (forall|i: int| 0 <= i < items.len() ==> item_target(#[trigger] items[i]) != a)
                    ==> after.stack.lookup(a) == Some(value))
                &&& res matches Err(e) ==> exists|i: int| 0 <= i < items.len() && export_of(before.stack, sid as int, (#[trigger] items[i]).name@) is None
                    && (forall|k: int| 0 <= k < i ==> export_of(before.stack, sid as int, (#[trigger] items[k]).name@) is Some)
                    && (e.kind matches ErrorKind::NotExported { name, .. } && name == items[i].name)
            }
        },
        _ => res matches Err(e) && e.kind == ErrorKind::DestructureNonModule && e.span == span
            && after.stack == before.stack,
    }
}

} // verus!
