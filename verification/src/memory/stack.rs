//! The scope arena and the stack of active frames.

use crate::error::{Error, ErrorKind};
use crate::object::{copy_object, Object};
use crate::span::Span;
use vstd::prelude::*;

verus! {

/// A named binding of a scope.
#[derive(Debug)]
pub struct Variable<'a> {
    pub name: String,
    pub value: Object<'a>,
    pub public: bool,
    pub constant: bool,
}

/// A scope: its bindings, in the order they were first made, and the scope
/// it is nested in.
#[derive(Debug)]
pub struct Scope<'a> {
    pub name: Option<String>,
    pub bindings: Vec<Variable<'a>>,
    pub parent: Option<usize>,
}

/// The index of the first of `bs[i..]` named `name`.
pub open spec fn find_from(bs: Seq<Variable>, name: Seq<char>, i: int) -> Option<int>
    decreases bs.len() - i,
{
    if i < 0 || i >= bs.len() {
        None
    } else if bs[i].name@ == name {
        Some(i)
    } else {
        find_from(bs, name, i + 1)
    }
}

/// The index of the binding named `name` in a scope's bindings.
pub open spec fn find_local(bs: Seq<Variable>, name: Seq<char>) -> Option<int> {
    find_from(bs, name, 0)
}

/// The nearest binding of `name` seen from scope `s` up its chain of
/// parents: the scope that holds it and its index there.
pub open spec fn chain_find(scopes: Seq<Scope>, s: int, name: Seq<char>) -> Option<(int, int)>
    decreases s,
{
    if s < 0 || s >= scopes.len() {
        None
    } else {
        match find_local(scopes[s].bindings@, name) {
            Some(b) => Some((s, b)),
            None => match scopes[s].parent {
                Some(p) => if (p as int) < s {
                    chain_find(scopes, p as int, name)
                } else {
                    None
                },
                None => None,
            },
        }
    }
}

/// The bindings after `set` of `name`: the first binding of that name gets
/// the new value and flags; without one, a binding is appended.
pub open spec fn set_binding<'a>(
    bs: Seq<Variable<'a>>,
    name: Seq<char>,
    value: Object<'a>,
    public: bool,
    constant: bool,
) -> Seq<Variable<'a>> {
    match find_local(bs, name) {
        Some(i) => bs.update(i, Variable { name: bs[i].name, value, public, constant }),
        None => bs,
    }
}

/// The scope that `d` steps up the chain from scope `s` leads to.
pub open spec fn ancestor(scopes: Seq<Scope>, s: int, d: nat) -> Option<int>
    decreases d,
{
    if s < 0 || s >= scopes.len() {
        None
    } else if d == 0 {
        Some(s)
    } else {
        match scopes[s].parent {
            Some(p) => ancestor(scopes, p as int, (d - 1) as nat),
            None => None,
        }
    }
}

impl<'a> Scope<'a> {
    /// A scope with no bindings.
    pub fn new(name: Option<String>, parent: Option<usize>) -> (s: Scope<'a>)
        ensures
            s.name == name,
            s.parent == parent,
            s.bindings@ == Seq::<Variable<'a>>::empty(),
    {
        Scope { name, bindings: Vec::new(), parent }
    }

    /// The index of this scope's own binding of `name`, if any.
    pub fn find(&self, name: &String) -> (r: Option<usize>)
        ensures
            r matches Some(i) ==> i < self.bindings.len() && find_local(self.bindings@, name@) == Some(i as int),
            r is None ==> find_local(self.bindings@, name@) is None,
    {
        proof {
            lemma_find_from_spec(self.bindings@, name@, 0);
        }
        let mut i: usize = 0;
        while i < self.bindings.len()
            invariant
                i <= self.bindings.len(),
                find_local(self.bindings@, name@) == find_from(self.bindings@, name@, i as int),
                find_local(self.bindings@, name@) matches Some(j) ==> j < self.bindings.len(),
            decreases self.bindings.len() - i,
        {
            if self.bindings[i].name == *name {
                return Some(i);
            }
            i += 1;
        }
        None
    }

    /// This scope's own binding of `name`, not looking at its parents.
    pub fn get_local(&self, name: &String) -> (r: Option<&Variable<'a>>)
        ensures
            r matches Some(v) ==> (find_local(self.bindings@, name@) matches Some(i)
                && *v == self.bindings@[i]),
            r is None ==> find_local(self.bindings@, name@) is None,
    {
        match self.find(name) {
            Some(i) => Some(&self.bindings[i]),
            None => None,
        }
    }

    /// Binds `name` in this scope, replacing the value and flags of an
    /// existing binding of that name or adding one after the others.
    pub fn set(&mut self, name: String, value: Object<'a>, public: bool, constant: bool)
        ensures
            final(self).name == old(self).name,
            final(self).parent == old(self).parent,
            find_local(old(self).bindings@, name@) is Some ==> final(self).bindings@ == set_binding(
                old(self).bindings@,
                name@,
                value,
                public,
                constant,
            ),
            find_local(old(self).bindings@, name@) is None ==> final(self).bindings@
                == old(self).bindings@.push(Variable { name, value, public, constant }),
    {
        match self.find(&name) {
            Some(i) => {
                let old_name = self.bindings[i].name.clone();
                self.bindings.set(i, Variable { name: old_name, value, public, constant });
            },
            None => {
                self.bindings.push(Variable { name, value, public, constant });
            },
        }
    }
}

/// The call stack: an arena of scopes and the stack of active frames, each
/// an index of the arena; the last frame is the current scope.
#[derive(Debug)]
pub struct Stack<'a> {
    pub scopes: Vec<Scope<'a>>,
    pub frames: Vec<usize>,
}

/// `b` is `a` after entering a new, empty scope named `name`: a scope is
/// added to the arena, nested in `parent` when given, else in the current
/// scope, and becomes the current frame.
pub open spec fn pushed<'a>(a: Stack<'a>, b: Stack<'a>, name: String, parent: Option<usize>) -> bool {
    &&& b.frames@ == a.frames@.push(a.scopes.len() as usize)
    &&& b.scopes@ == a.scopes@.push(Scope {
        name: Some(name),
        bindings: b.scopes@.last().bindings,
        parent: Some(match parent {
            Some(p) => p,
            None => a.current_index() as usize,
        }),
    })
    &&& b.scopes@.last().bindings@.len() == 0
}

/// Whether the current scope of `st` binds `name` itself, to `value`, with
/// these flags.
pub open spec fn binds_here<'a>(st: Stack<'a>, name: Seq<char>, value: Object<'a>, public: bool, constant: bool) -> bool {
    scope_binds(st.scopes@[st.current_index()], name, value, public, constant)
}

/// Whether `scope` binds `name` itself, to `value`, with these flags.
pub open spec fn scope_binds<'a>(scope: Scope<'a>, name: Seq<char>, value: Object<'a>, public: bool, constant: bool) -> bool {
    &&& find_local(scope.bindings@, name) matches Some(b)
    &&& scope.bindings@[b].value == value
    &&& scope.bindings@[b].public == public
    &&& scope.bindings@[b].constant == constant
}

/// `b` is `a` after leaving the current scope: the last frame is dropped,
/// unless it is the only one; the arena is kept.
pub open spec fn popped<'a>(a: Stack<'a>, b: Stack<'a>) -> bool {
    &&& b.scopes@ == a.scopes@
    &&& a.frames.len() > 1 ==> b.frames@ == a.frames@.drop_last()
    &&& a.frames.len() <= 1 ==> b.frames@ == a.frames@
}

impl<'a> Stack<'a> {
    /// The arena is non-empty, every frame is a scope of it, the first frame
    /// is the global scope, and every scope's parent comes before it.
    pub open spec fn wf(&self) -> bool {
        &&& self.scopes.len() >= 1
        &&& self.frames.len() >= 1
        &&& self.frames@[0] == 0
        &&& forall|i: int| 0 <= i < self.frames.len() ==> #[trigger] self.frames@[i] < self.scopes.len()
        &&& forall|s: int| 0 <= s < self.scopes.len() ==> (#[trigger] self.scopes@[s].parent matches Some(p)
            ==> (p as int) < s)
    }

    /// The current scope.
    pub open spec fn current_index(&self) -> int {
        self.frames@.last() as int
    }

    /// The value that `name` has, seen from the current scope.
    pub open spec fn lookup(&self, name: Seq<char>) -> Option<Object<'a>> {
        match chain_find(self.scopes@, self.current_index(), name) {
            Some((s, b)) => Some(self.scopes@[s].bindings@[b].value),
            None => None,
        }
    }

    /// A stack holding only the global scope, named `global`.
    pub fn new() -> (st: Stack<'a>)
        ensures
            st.wf(),
            st.frames@ == seq![0usize],
            st.scopes@.len() == 1,
            st.scopes@[0].bindings@.len() == 0,
            st.scopes@[0].parent is None,
    {
        let mut scopes: Vec<Scope<'a>> = Vec::new();
        scopes.push(Scope::new(Some(String::from_str("global")), None));
        let mut frames: Vec<usize> = Vec::new();
        frames.push(0);
        Stack { scopes, frames }
    }

    /// The current scope.
    pub fn current(&self) -> (s: usize)
        requires
            self.wf(),
        ensures
            s == self.current_index(),
            s < self.scopes.len(),
    {
        self.frames[self.frames.len() - 1]
    }

    /// Enters a new, empty scope named `name`. Its parent is `parent` when
    /// given (a closure's scope), else the current scope.
    pub fn push(&mut self, name: String, parent: Option<usize>)
        requires
            old(self).wf(),
            parent matches Some(p) ==> p < old(self).scopes.len(),
        ensures
            final(self).wf(),
            pushed(*old(self), *final(self), name, parent),
    {
        let parent_scope = match parent {
            Some(p) => p,
            None => self.current(),
        };
        let index = self.scopes.len();
        self.scopes.push(Scope::new(Some(name), Some(parent_scope)));
        self.frames.push(index);
        assert forall|s: int| 0 <= s < self.scopes.len() implies (#[trigger] self.scopes@[s].parent matches Some(
            p,
        ) ==> (p as int) < s) by {
            if s < index {
                assert(self.scopes@[s] == old(self).scopes@[s]);
            }
        }
    }

    /// Enters a new scope with no parent, from which no name outside it is
    /// seen.
    pub fn push_root(&mut self, name: String)
        requires
            old(self).wf(),
        ensures
            final(self).wf(),
            final(self).frames@ == old(self).frames@.push(old(self).scopes.len() as usize),
            final(self).scopes@.len() == old(self).scopes@.len() + 1,
            final(self).scopes@.drop_last() == old(self).scopes@,
            final(self).scopes@.last().name == Some(name),
            final(self).scopes@.last().parent is None,
            final(self).scopes@.last().bindings@.len() == 0,
    {
        let index = self.scopes.len();
        self.scopes.push(Scope::new(Some(name), None));
        self.frames.push(index);
        assert forall|s: int| 0 <= s < self.scopes.len() implies (#[trigger] self.scopes@[s].parent matches Some(
            p,
        ) ==> (p as int) < s) by {
            if s < index {
                assert(self.scopes@[s] == old(self).scopes@[s]);
            }
        }
        assert(self.scopes@.drop_last() =~= old(self).scopes@);
    }

    /// Leaves the current scope; the global frame is never left.
    pub fn pop(&mut self)
        requires
            old(self).wf(),
        ensures
            final(self).wf(),
            popped(*old(self), *final(self)),
    {
        if self.frames.len() > 1 {
            self.frames.pop();
        }
    }

    /// The number of frames above the global one.
    pub fn depth(&self) -> (d: usize)
        requires
            self.wf(),
        ensures
            d == self.frames.len() - 1,
    {
        self.frames.len() - 1
    }

    /// The nearest binding of `name` from scope `start` up the chain.
    pub fn find_binding(&self, start: usize, name: &String) -> (r: Option<(usize, usize)>)
        requires
            self.wf(),
            start < self.scopes.len(),
        ensures
            r matches Some((s, b)) ==> chain_find(self.scopes@, start as int, name@) == Some((s as int, b as int))
                && s < self.scopes.len() && b < self.scopes@[s as int].bindings.len(),
            r is None ==> chain_find(self.scopes@, start as int, name@) is None,
    {
        let mut s = start;
        loop
            invariant
                self.wf(),
                s < self.scopes.len(),
                chain_find(self.scopes@, start as int, name@) == chain_find(self.scopes@, s as int, name@),
            decreases s,
        {
            match self.scopes[s].find(name) {
                Some(b) => {
                    return Some((s, b));
                },
                None => {},
            }
            match self.scopes[s].parent {
                Some(p) => {
                    assert(self.scopes@[s as int].parent matches Some(q) ==> (q as int) < s);
                    s = p;
                },
                None => {
                    return None;
                },
            }
        }
    }

    /// The value of `name`, searched from the current scope up the chain.
    pub fn get(&self, name: &String) -> (r: Option<Object<'a>>)
        requires
            self.wf(),
        ensures
            r == self.lookup(name@),
    {
        let cur = self.current();
        match self.find_binding(cur, name) {
            Some((s, b)) => Some(copy_object(&self.scopes[s].bindings[b].value)),
            None => None,
        }
    }

    /// Assigns to the nearest binding of `name` up the chain from the
    /// current scope. A constant binding is refused with `ConstantAssignment`,
    /// a name bound nowhere with `VariableNotFound`; either way nothing changes.
    pub fn set(&mut self, name: &String, value: Object<'a>, span: Span) -> (res: Result<(), Error>)
        requires
            old(self).wf(),
        ensures
            final(self).wf(),
            final(self).frames@ == old(self).frames@,
            res is Ok ==> final(self).lookup(name@) == Some(value),
            res is Ok ==> forall|m: Seq<char>| m != name@ ==> #[trigger] final(self).lookup(m) == old(self).lookup(m),
            match chain_find(old(self).scopes@, old(self).current_index(), name@) {
                Some((s, b)) => if old(self).scopes@[s].bindings@[b].constant {
                    &&& res matches Err(e) && e.kind == (ErrorKind::ConstantAssignment { name: *name }) && e.span == span
                    &&& final(self).scopes@ == old(self).scopes@
                } else {
                    &&& res is Ok
                    &&& final(self).scopes@ == old(self).scopes@.update(
                        s,
                        Scope {
                            name: old(self).scopes@[s].name,
                            bindings: final(self).scopes@[s].bindings,
                            parent: old(self).scopes@[s].parent,
                        },
                    )
                    &&& final(self).scopes@[s].bindings@ == old(self).scopes@[s].bindings@.update(
                        b,
                        Variable { value, ..old(self).scopes@[s].bindings@[b] },
                    )
                },
                None => {
                    &&& res matches Err(e) && e.kind == (ErrorKind::VariableNotFound { name: *name }) && e.span == span
                    &&& final(self).scopes@ == old(self).scopes@
                },
            },
    {
        let cur = self.current();
        match self.find_binding(cur, name) {
            Some((s, b)) => {
                if self.scopes[s].bindings[b].constant {
                    return Err(Error::new(ErrorKind::ConstantAssignment { name: name.clone() }, span));
                }
                let ghost old_stack = *self;
                self.update_value(s, b, value);
                proof {
                    lemma_update_keeps_chains(old_stack, *self, s as int, b as int, name@);
                    lemma_chain_find_valid(old_stack.scopes@, old_stack.current_index(), name@);
                    lemma_find_from_spec(old_stack.scopes@[s as int].bindings@, name@, 0);
                    assert forall|m: Seq<char>| m != name@ implies #[trigger] self.lookup(m) == old_stack.lookup(m) by {
                        lemma_update_keeps_chains(old_stack, *self, s as int, b as int, m);
                    }
                }
                Ok(())
            },
            None => Err(Error::new(ErrorKind::VariableNotFound { name: name.clone() }, span)),
        }
    }

    /// Replaces the value of binding `b` of scope `s`, keeping its name and flags.
    pub fn update_value(&mut self, s: usize, b: usize, value: Object<'a>)
        requires
            old(self).wf(),
            s < old(self).scopes.len(),
            b < old(self).scopes@[s as int].bindings.len(),
        ensures
            final(self).wf(),
            final(self).frames@ == old(self).frames@,
            final(self).scopes@ == old(self).scopes@.update(
                s as int,
                Scope {
                    name: old(self).scopes@[s as int].name,
                    bindings: final(self).scopes@[s as int].bindings,
                    parent: old(self).scopes@[s as int].parent,
                },
            ),
            final(self).scopes@[s as int].bindings@ == old(self).scopes@[s as int].bindings@.update(
                b as int,
                Variable { value, ..old(self).scopes@[s as int].bindings@[b as int] },
            ),
    {
        let ghost old_scopes = self.scopes@;
        let mut scope = Scope::new(None, None);
        std::mem::swap(&mut scope, &mut self.scopes[s]);
        let var_name = scope.bindings[b].name.clone();
        let var_public = scope.bindings[b].public;
        let var_constant = scope.bindings[b].constant;
        scope.bindings.set(b, Variable { name: var_name, value, public: var_public, constant: var_constant });
        self.scopes.set(s, scope);
        assert forall|t: int| 0 <= t < self.scopes.len() implies (#[trigger] self.scopes@[t].parent matches Some(
            p,
        ) ==> (p as int) < t) by {
            if t != s {
                assert(self.scopes@[t] == old_scopes[t]);
            } else {
                assert(self.scopes@[t].parent == old_scopes[t].parent);
            }
        }
    }

    /// Binds `name` in the current scope, as `Scope::set` does.
    pub fn define(&mut self, name: String, value: Object<'a>, public: bool, constant: bool)
        requires
            old(self).wf(),
        ensures
            final(self).wf(),
            final(self).frames@ == old(self).frames@,
            final(self).scopes@.len() == old(self).scopes@.len(),
            forall|t: int| 0 <= t < old(self).scopes.len() && t != old(self).current_index()
                ==> #[trigger] final(self).scopes@[t] == old(self).scopes@[t],
            final(self).scopes@[old(self).current_index()].parent == old(self).scopes@[old(self).current_index()].parent,
            final(self).scopes@[old(self).current_index()].name == old(self).scopes@[old(self).current_index()].name,
            find_local(old(self).scopes@[old(self).current_index()].bindings@, name@) is Some ==>
                final(self).scopes@[old(self).current_index()].bindings@ == set_binding(
                    old(self).scopes@[old(self).current_index()].bindings@, name@, value, public, constant),
            find_local(old(self).scopes@[old(self).current_index()].bindings@, name@) is None ==>
                final(self).scopes@[old(self).current_index()].bindings@
                    == old(self).scopes@[old(self).current_index()].bindings@.push(
                    Variable { name, value, public, constant }),
            final(self).lookup(name@) == Some(value),
            binds_here(*final(self), name@, value, public, constant),
            forall|m: Seq<char>, v: Object<'a>, p: bool, c: bool| m != name@ && binds_here(*old(self), m, v, p, c)
                ==> #[trigger] binds_here(*final(self), m, v, p, c),
            forall|m: Seq<char>| m != name@ ==> #[trigger] final(self).lookup(m) == old(self).lookup(m),
    {
        let ghost old_scopes = self.scopes@;
        let ghost old_self = *self;
        let ghost nm = name@;
        let cur = self.current();
        let mut scope = Scope::new(None, None);
        std::mem::swap(&mut scope, &mut self.scopes[cur]);
        scope.set(name, value, public, constant);
        self.scopes.set(cur, scope);
        assert forall|t: int| 0 <= t < self.scopes.len() implies (#[trigger] self.scopes@[t].parent matches Some(
            p,
        ) ==> (p as int) < t) by {
            if t != cur {
                assert(self.scopes@[t] == old_scopes[t]);
            }
        }
        proof {
            let bs = self.scopes@[cur as int].bindings@;
            if find_local(old_scopes[cur as int].bindings@, nm) is None {
                assert(bs.subrange(0, old_scopes[cur as int].bindings@.len() as int) =~= old_scopes[cur as int].bindings@);
            }
            lemma_find_after_set(old_scopes[cur as int].bindings@, nm, value, public, constant, bs);
            let obs = old_scopes[cur as int].bindings@;
            assert forall|m: Seq<char>, v: Object<'a>, p: bool, c: bool| m != nm && binds_here(old_self, m, v, p, c)
                implies #[trigger] binds_here(*self, m, v, p, c) by {
                lemma_find_from_spec(obs, nm, 0);
                lemma_find_other(obs, nm, m, bs, 0);
                let b = find_local(obs, m)->Some_0;
                lemma_find_from_spec(obs, m, 0);
                assert(bs[b] == obs[b]);
            }
            assert forall|m: Seq<char>| m != nm implies #[trigger] self.lookup(m) == old_self.lookup(m) by {
                lemma_define_other(old_self, *self, nm, m, value, public, constant);
            }
        }
    }

    /// The public bindings of the current scope, in binding order.
    pub fn get_public_bindings(&self) -> (r: Vec<(String, Object<'a>)>)
        requires
            self.wf(),
        ensures
            r@ == public_pairs(self.scopes@[self.current_index()].bindings@, 0),
    {
        let cur = self.current();
        let bs = &self.scopes[cur].bindings;
        let mut out: Vec<(String, Object<'a>)> = Vec::new();
        let mut i: usize = bs.len();
        while i > 0
            invariant
                i <= bs.len(),
                bs@ == self.scopes@[cur as int].bindings@,
                out@ == public_pairs(bs@, i as int),
            decreases i,
        {
            i -= 1;
            if bs[i].public {
                let mut rest: Vec<(String, Object<'a>)> = Vec::new();
                rest.push((bs[i].name.clone(), copy_object(&bs[i].value)));
                rest.append(&mut out);
                out = rest;
            }
        }
        out
    }
}

/// The public bindings of `bs[i..]` as name-value pairs, in order.
pub open spec fn public_pairs<'a>(bs: Seq<Variable<'a>>, i: int) -> Seq<(String, Object<'a>)>
    decreases bs.len() - i,
{
    if i < 0 || i >= bs.len() {
        Seq::empty()
    } else if bs[i].public {
        seq![(bs[i].name, bs[i].value)] + public_pairs(bs, i + 1)
    } else {
        public_pairs(bs, i + 1)
    }
}

/// Each binding from `i` on that is public is among `public_pairs(bs, i)`.
pub proof fn lemma_public_pairs_has<'a>(bs: Seq<Variable<'a>>, i: int, j: int)
    requires
        0 <= i <= j < bs.len(),
        bs[j].public,
    ensures
        exists|k: int| 0 <= k < public_pairs(bs, i).len() && #[trigger] public_pairs(bs, i)[k] == (bs[j].name, bs[j].value),
    decreases j - i,
{
    if i == j {
        assert(public_pairs(bs, i) == seq![(bs[i].name, bs[i].value)] + public_pairs(bs, i + 1));
        assert(public_pairs(bs, i)[0] == (bs[j].name, bs[j].value));
    } else {
        lemma_public_pairs_has(bs, i + 1, j);
        let k = choose|k: int| 0 <= k < public_pairs(bs, i + 1).len() && #[trigger] public_pairs(bs, i + 1)[k] == (
            bs[j].name,
            bs[j].value,
        );
        if bs[i].public {
            assert(public_pairs(bs, i) == seq![(bs[i].name, bs[i].value)] + public_pairs(bs, i + 1));
            assert(public_pairs(bs, i)[k + 1] == public_pairs(bs, i + 1)[k]);
            assert(0 <= k + 1 < public_pairs(bs, i).len());
        } else {
            assert(public_pairs(bs, i) == public_pairs(bs, i + 1));
            assert(public_pairs(bs, i)[k] == (bs[j].name, bs[j].value));
        }
    }
}

/// Each pair of `public_pairs(bs, i)` is a public binding from `i` on.
pub proof fn lemma_public_pairs_from<'a>(bs: Seq<Variable<'a>>, i: int, k: int)
    requires
        0 <= i,
        0 <= k < public_pairs(bs, i).len(),
    ensures
        exists|j: int| i <= j < bs.len() && (#[trigger] bs[j]).public && public_pairs(bs, i)[k] == (bs[j].name, bs[j].value),
    decreases bs.len() - i,
{
    if i < bs.len() {
        if bs[i].public {
            if k == 0 {
                assert(bs[i].public && public_pairs(bs, i)[k] == (bs[i].name, bs[i].value));
            } else {
                lemma_public_pairs_from(bs, i + 1, k - 1);
                assert(public_pairs(bs, i)[k] == public_pairs(bs, i + 1)[k - 1]);
            }
        } else {
            lemma_public_pairs_from(bs, i + 1, k);
        }
    }
}

/// What `get_public_bindings` gives after `Stack::define` of `name` in the
/// same scope: with `public`, a pair of that name and the defined value;
/// and every public pair of another name that it gave before.
pub proof fn lemma_public_bindings_after_define<'a>(
    before: Seq<Variable<'a>>,
    after: Seq<Variable<'a>>,
    name: String,
    value: Object<'a>,
    public: bool,
    constant: bool,
)
    requires
        find_local(before, name@) is Some ==> after == set_binding(before, name@, value, public, constant),
        find_local(before, name@) is None ==> after == before.push(Variable { name, value, public, constant }),
    ensures
        public ==> exists|k: int| 0 <= k < public_pairs(after, 0).len() && (#[trigger] public_pairs(after, 0)[k]).0@
            == name@ && public_pairs(after, 0)[k].1 == value,
        forall|k: int| 0 <= k < public_pairs(before, 0).len() && (#[trigger] public_pairs(before, 0)[k]).0@ != name@
            ==> exists|m: int| 0 <= m < public_pairs(after, 0).len() && #[trigger] public_pairs(after, 0)[m]
            == public_pairs(before, 0)[k],
{
    match find_local(before, name@) {
        Some(b) => {
            lemma_find_from_spec(before, name@, 0);
            if public {
                lemma_public_pairs_has(after, 0, b);
            }
        },
        None => {
            if public {
                lemma_public_pairs_has(after, 0, before.len() as int);
            }
        },
    }
    assert forall|k: int| 0 <= k < public_pairs(before, 0).len() && (#[trigger] public_pairs(before, 0)[k]).0@ != name@
        implies exists|m: int| 0 <= m < public_pairs(after, 0).len() && #[trigger] public_pairs(after, 0)[m]
        == public_pairs(before, 0)[k] by {
        lemma_public_pairs_from(before, 0, k);
        let j = choose|j: int| 0 <= j < before.len() && (#[trigger] before[j]).public && public_pairs(before, 0)[k] == (
            before[j].name,
            before[j].value,
        );
        assert(after[j] == before[j]);
        lemma_public_pairs_has(after, 0, j);
    }
}

/// `find_from` returns an index at or after its start, whose name matches,
/// with no match between.
pub proof fn lemma_find_from_spec(bs: Seq<Variable>, name: Seq<char>, i: int)
    requires
        0 <= i,
    ensures
        find_from(bs, name, i) matches Some(j) ==> i <= j < bs.len() && bs[j].name@ == name
            && forall|k: int| i <= k < j ==> bs[k].name@ != name,
        find_from(bs, name, i) is None ==> forall|k: int| i <= k < bs.len() ==> bs[k].name@ != name,
    decreases bs.len() - i,
{
    if i < bs.len() && bs[i].name@ != name {
        lemma_find_from_spec(bs, name, i + 1);
    }
}

/// Scanning from the start finds the first binding with the name.
pub proof fn lemma_find_first(bs: Seq<Variable>, name: Seq<char>, j: int)
    requires
        0 <= j < bs.len(),
        bs[j].name@ == name,
        forall|k: int| 0 <= k < j ==> bs[k].name@ != name,
    ensures
        find_local(bs, name) == Some(j),
{
    lemma_find_from_spec(bs, name, 0);
    match find_local(bs, name) {
        Some(x) => {
            if x < j {
            } else if x > j {
            }
        },
        None => {},
    }
}

/// After `Scope::set`, the name is found, with the value just set.
pub proof fn lemma_find_after_set<'a>(
    old_bs: Seq<Variable<'a>>,
    name: Seq<char>,
    value: Object<'a>,
    public: bool,
    constant: bool,
    new_bs: Seq<Variable<'a>>,
)
    requires
        find_local(old_bs, name) is Some ==> new_bs == set_binding(old_bs, name, value, public, constant),
        find_local(old_bs, name) is None ==> new_bs.len() == old_bs.len() + 1
            && new_bs.subrange(0, old_bs.len() as int) == old_bs
            && new_bs.last().name@ == name && new_bs.last().value == value && new_bs.last().public == public
            && new_bs.last().constant == constant,
    ensures
        find_local(new_bs, name) matches Some(j) && new_bs[j].value == value && new_bs[j].public == public
            && new_bs[j].constant == constant,
{
    lemma_find_from_spec(old_bs, name, 0);
    match find_local(old_bs, name) {
        Some(j) => {
            lemma_find_first(new_bs, name, j);
        },
        None => {
            let j = old_bs.len() as int;
            assert forall|k: int| 0 <= k < j implies new_bs[k].name@ != name by {
                assert(new_bs[k] == new_bs.subrange(0, j)[k]);
            }
            lemma_find_first(new_bs, name, j);
        },
    }
}

/// Chains that only pass through scopes `0..=s` see the same bindings in
/// two arenas that agree on those scopes.
pub proof fn lemma_chain_prefix(a: Seq<Scope>, b: Seq<Scope>, s: int, m: Seq<char>)
    requires
        0 <= s < a.len(),
        s < b.len(),
        forall|t: int| 0 <= t <= s ==> #[trigger] a[t] == b[t],
    ensures
        chain_find(a, s, m) == chain_find(b, s, m),
    decreases s,
{
    assert(a[s] == b[s]);
    match find_local(a[s].bindings@, m) {
        Some(_) => {},
        None => match a[s].parent {
            Some(p) => if (p as int) < s {
                lemma_chain_prefix(a, b, p as int, m);
            },
            None => {},
        },
    }
}

/// The scope a chain search ends in is at or before where it started.
pub proof fn lemma_chain_find_le(a: Seq<Scope>, s: int, m: Seq<char>)
    ensures
        chain_find(a, s, m) matches Some((t, _)) ==> 0 <= t <= s,
    decreases s,
{
    if 0 <= s < a.len() {
        match find_local(a[s].bindings@, m) {
            Some(_) => {},
            None => match a[s].parent {
                Some(p) => if (p as int) < s {
                    lemma_chain_find_le(a, p as int, m);
                },
                None => {},
            },
        }
    }
}

/// Setting a binding does not move the first binding of any other name.
pub proof fn lemma_find_other<'a>(bs: Seq<Variable<'a>>, n: Seq<char>, m: Seq<char>, nb: Seq<Variable<'a>>, i: int)
    requires
        n != m,
        0 <= i,
        nb.len() >= bs.len(),
        forall|k: int| 0 <= k < bs.len() ==> (#[trigger] nb[k]).name@ == bs[k].name@,
        forall|k: int| 0 <= k < bs.len() && bs[k].name@ != n ==> #[trigger] nb[k] == bs[k],
        forall|k: int| bs.len() <= k < nb.len() ==> (#[trigger] nb[k]).name@ == n,
    ensures
        find_from(nb, m, i) == find_from(bs, m, i),
    decreases nb.len() - i,
{
    if i < nb.len() {
        lemma_find_other(bs, n, m, nb, i + 1);
    }
}

/// Defining a name leaves the value that every other name has unchanged.
pub proof fn lemma_define_other<'a>(
    before: Stack<'a>,
    after: Stack<'a>,
    n: Seq<char>,
    m: Seq<char>,
    value: Object<'a>,
    public: bool,
    constant: bool,
)
    requires
        before.wf(),
        after.wf(),
        n != m,
        after.frames@ == before.frames@,
        after.scopes@.len() == before.scopes@.len(),
        forall|t: int| 0 <= t < before.scopes.len() && t != before.current_index()
            ==> #[trigger] after.scopes@[t] == before.scopes@[t],
        after.scopes@[before.current_index()].parent == before.scopes@[before.current_index()].parent,
        find_local(before.scopes@[before.current_index()].bindings@, n) is Some ==>
            after.scopes@[before.current_index()].bindings@ == set_binding(
                before.scopes@[before.current_index()].bindings@, n, value, public, constant),
        find_local(before.scopes@[before.current_index()].bindings@, n) is None ==>
            after.scopes@[before.current_index()].bindings@ == before.scopes@[before.current_index()].bindings@.push(
                Variable { name: after.scopes@[before.current_index()].bindings@.last().name, value, public, constant })
            && after.scopes@[before.current_index()].bindings@.last().name@ == n,
    ensures
        after.lookup(m) == before.lookup(m),
{
    let c = before.current_index();
    let bs = before.scopes@[c].bindings@;
    let nb = after.scopes@[c].bindings@;
    lemma_find_from_spec(bs, n, 0);
    lemma_find_from_spec(bs, m, 0);
    assert forall|k: int| 0 <= k < bs.len() implies (#[trigger] nb[k]).name@ == bs[k].name@ by {
        if find_local(bs, n) is None {
            assert(nb[k] == bs[k]);
        }
    }
    assert forall|k: int| 0 <= k < bs.len() && bs[k].name@ != n implies #[trigger] nb[k] == bs[k] by {
        if find_local(bs, n) is None {
            assert(nb[k] == bs[k]);
        }
    }
    lemma_find_other(bs, n, m, nb, 0);
    assert(0 <= c < before.scopes.len());
    match find_local(bs, m) {
        Some(b) => {
            assert(nb[b] == bs[b]);
            assert(chain_find(after.scopes@, c, m) == Some((c, b)));
            assert(chain_find(before.scopes@, c, m) == Some((c, b)));
            assert(after.current_index() == c);
            assert(after.lookup(m) == Some(nb[b].value));
            assert(before.lookup(m) == Some(bs[b].value));
        },
        None => {
            match before.scopes@[c].parent {
                Some(p) => {
                    if (p as int) < c {
                        assert forall|t: int| 0 <= t <= p implies #[trigger] before.scopes@[t] == after.scopes@[t] by {
                            assert(t != c);
                        }
                        lemma_chain_prefix(before.scopes@, after.scopes@, p as int, m);
                        lemma_chain_find_le(before.scopes@, p as int, m);
                        match chain_find(before.scopes@, p as int, m) {
                            Some((s, b)) => {
                                assert(before.scopes@[s] == after.scopes@[s]);
                            },
                            None => {},
                        }
                    }
                    assert(chain_find(after.scopes@, c, m) == chain_find(before.scopes@, c, m));
                },
                None => {
                    assert(chain_find(after.scopes@, c, m) == chain_find(before.scopes@, c, m));
                },
            }
        },
    }
}

impl<'a> Default for Stack<'a> {
    /// A stack holding only the global scope, as `Stack::new` makes it.
    fn default() -> (st: Stack<'a>)
        ensures
            st.wf(),
            st.frames@ == seq![0usize],
            st.scopes@.len() == 1,
            st.scopes@[0].bindings@.len() == 0,
            st.scopes@[0].parent is None,
    {
        Stack::new()
    }
}

/// Replacing the value of one binding keeps every name's binding where it
/// was, and the replaced binding reads as the new value.
pub proof fn lemma_update_keeps_chains<'a>(a: Stack<'a>, b: Stack<'a>, s: int, k: int, m: Seq<char>)
    requires
        a.wf(),
        0 <= s < a.scopes.len(),
        0 <= k < a.scopes@[s].bindings.len(),
        b.frames@ == a.frames@,
        b.scopes@ == a.scopes@.update(s, Scope {
            name: a.scopes@[s].name,
            bindings: b.scopes@[s].bindings,
            parent: a.scopes@[s].parent,
        }),
        b.scopes@[s].bindings@ == a.scopes@[s].bindings@.update(k, Variable { value: b.scopes@[s].bindings@[k].value, ..a.scopes@[s].bindings@[k] }),
    ensures
        chain_find(b.scopes@, b.current_index(), m) == chain_find(a.scopes@, a.current_index(), m),
        chain_find(a.scopes@, a.current_index(), m) matches Some((t, j)) ==> (if t == s && j == k {
            b.lookup(m) == Some(b.scopes@[s].bindings@[k].value)
        } else {
            b.lookup(m) == a.lookup(m)
        }),
        m != a.scopes@[s].bindings@[k].name@ ==> b.lookup(m) == a.lookup(m),
{
    lemma_chain_same_names(a, b, s, k, a.current_index(), m);
    lemma_chain_find_valid(a.scopes@, a.current_index(), m);
    match chain_find(a.scopes@, a.current_index(), m) {
        Some((t, j)) => {
            lemma_find_from_spec(a.scopes@[t].bindings@, m, 0);
            if t == s {
                if j != k {
                    assert(b.scopes@[s].bindings@[j] == a.scopes@[s].bindings@[j]);
                }
            } else {
                assert(b.scopes@[t] == a.scopes@[t]);
            }
        },
        None => {},
    }
}

/// What `chain_find` returns is a scope of the arena and the index there
/// of the binding's first occurrence.
pub proof fn lemma_chain_find_valid(a: Seq<Scope>, s: int, m: Seq<char>)
    ensures
        chain_find(a, s, m) matches Some((t, j)) ==> 0 <= t < a.len() && find_local(a[t].bindings@, m) == Some(j),
    decreases s,
{
    if 0 <= s < a.len() {
        match find_local(a[s].bindings@, m) {
            Some(_) => {},
            None => match a[s].parent {
                Some(p) => if (p as int) < s {
                    lemma_chain_find_valid(a, p as int, m);
                },
                None => {},
            },
        }
    }
}

/// As `lemma_update_keeps_chains`, from any scope `t`.
pub proof fn lemma_chain_same_names<'a>(a: Stack<'a>, b: Stack<'a>, s: int, k: int, t: int, m: Seq<char>)
    requires
        a.wf(),
        0 <= s < a.scopes.len(),
        0 <= k < a.scopes@[s].bindings.len(),
        b.scopes@ == a.scopes@.update(s, Scope {
            name: a.scopes@[s].name,
            bindings: b.scopes@[s].bindings,
            parent: a.scopes@[s].parent,
        }),
        b.scopes@[s].bindings@ == a.scopes@[s].bindings@.update(k, Variable { value: b.scopes@[s].bindings@[k].value, ..a.scopes@[s].bindings@[k] }),
    ensures
        chain_find(b.scopes@, t, m) == chain_find(a.scopes@, t, m),
    decreases t,
{
    if 0 <= t < a.scopes.len() {
        let ab = a.scopes@[t].bindings@;
        let bb = b.scopes@[t].bindings@;
        assert(ab.len() == bb.len());
        assert forall|i: int| 0 <= i < ab.len() implies #[trigger] ab[i].name@ == bb[i].name@ by {
            if t == s && i == k {
            } else if t == s {
                assert(bb[i] == ab[i]);
            }
        }
        lemma_find_same_names(ab, bb, m, 0);
        assert(b.scopes@[t].parent == a.scopes@[t].parent);
        match a.scopes@[t].parent {
            Some(p) => {
                if (p as int) < t {
                    lemma_chain_same_names(a, b, s, k, p as int, m);
                }
            },
            None => {},
        }
    }
}

/// Bindings with the same names, in the same order, find the same binding.
pub proof fn lemma_find_same_names<'a>(xs: Seq<Variable<'a>>, ys: Seq<Variable<'a>>, m: Seq<char>, i: int)
    requires
        xs.len() == ys.len(),
        forall|j: int| 0 <= j < xs.len() ==> #[trigger] xs[j].name@ == ys[j].name@,
    ensures
        find_from(xs, m, i) == find_from(ys, m, i),
    decreases xs.len() - i,
{
    if 0 <= i < xs.len() {
        assert(xs[i].name@ == ys[i].name@);
        lemma_find_same_names(xs, ys, m, i + 1);
    }
}

/// Leaving a scope undoes entering it: the frames are those before, and the
/// arena keeps the scope that was entered.
pub proof fn lemma_pop_undoes_push<'a>(s0: Stack<'a>, s1: Stack<'a>, s2: Stack<'a>, name: String, parent: Option<usize>)
    requires
        s0.wf(),
        pushed(s0, s1, name, parent),
        popped(s1, s2),
    ensures
        s2.frames@ == s0.frames@,
        s2.current_index() == s0.current_index(),
        s2.scopes@ == s1.scopes@,
        s2.scopes@.len() == s0.scopes@.len() + 1,
        s2.scopes@.drop_last() == s0.scopes@,
{
    assert(s1.frames@.drop_last() =~= s0.frames@);
    assert(s1.scopes@.drop_last() =~= s0.scopes@);
}

} // verus!
