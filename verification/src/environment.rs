//! A simple form of scope: a store of named values, each public or not,
//! nested in an optional outer environment that lookups fall back to. The
//! store maps each name to the slot of its value among the environment's
//! values and to whether it is public.

use crate::maps::{no_entries, store_entries, store_get, store_insert, store_keys, store_new};
use crate::object::{copy_object, Function, Object};
use ahash::AHashMap;
use vstd::prelude::*;

verus! {

/// An environment: its own bindings and the environment it is nested in.
pub struct Environment<'a, 'e> {
    pub store: AHashMap<String, (usize, bool)>,
    pub values: Vec<Object<'a>>,
    pub outer: Option<&'e Environment<'a, 'e>>,
}

/// The value of the binding `name` has in `env` itself, if any.
pub open spec fn env_local<'a, 'e>(env: Environment<'a, 'e>, name: Seq<char>) -> Option<Object<'a>> {
    if store_entries(env.store).contains_key(name) && store_entries(env.store)[name].0 < env.values.len() {
        Some(env.values@[store_entries(env.store)[name].0 as int])
    } else {
        None
    }
}

/// Whether `name` is bound in `env` itself, publicly.
pub open spec fn env_public(env: Environment, name: Seq<char>) -> bool {
    env_local(env, name) is Some && store_entries(env.store)[name].1
}

/// The value `name` has in `env`: its own binding, else the outer
/// environment's, and so on outwards.
pub open spec fn env_lookup<'a, 'e>(env: Environment<'a, 'e>, name: Seq<char>) -> Option<Object<'a>>
    decreases env,
{
    match env_local(env, name) {
        Some(v) => Some(v),
        None => match env.outer {
            Some(o) => env_lookup(*o, name),
            None => None,
        },
    }
}

impl<'a, 'e> Environment<'a, 'e> {
    /// Every name of the store has a slot among the values.
    pub open spec fn wf(&self) -> bool {
        forall|k: Seq<char>| store_entries(self.store).contains_key(k) ==> #[trigger] store_entries(self.store)[k].0
            < self.values.len()
    }

    /// An environment with no bindings and no outer environment.
    pub fn new() -> (env: Environment<'a, 'e>)
        ensures
            env.wf(),
            store_entries(env.store) == no_entries(),
            forall|k: Seq<char>| #[trigger] env_local(env, k) is None,
            env.outer is None,
    {
        Environment { store: store_new(), values: Vec::new(), outer: None }
    }

    /// An outermost environment in which each of the given native functions
    /// is bound, public, under its name.
    pub fn with_globals(globals: &Vec<String>) -> (env: Environment<'a, 'e>)
        ensures
            env.wf(),
            env.outer is None,
            forall|k: Seq<char>| (#[trigger] env_local(env, k) is Some) <==> exists|i: int|
                0 <= i < globals@.len() && #[trigger] globals@[i]@ == k,
            forall|i: int| 0 <= i < globals@.len() ==> (#[trigger] env_local(env, globals@[i]@) matches Some(
                Object::Function(Function::Native { name }),
            ) && name@ == globals@[i]@ && env_public(env, globals@[i]@)),
    {
        let mut env = Environment::new();
        let mut i: usize = 0;
        while i < globals.len()
            invariant
                env.wf(),
                i <= globals.len(),
                env.outer is None,
                forall|k: Seq<char>| (#[trigger] env_local(env, k) is Some) <==> exists|j: int|
                    0 <= j < i && #[trigger] globals@[j]@ == k,
                forall|j: int| 0 <= j < i ==> (#[trigger] env_local(env, globals@[j]@) matches Some(
                    Object::Function(Function::Native { name }),
                ) && name@ == globals@[j]@ && env_public(env, globals@[j]@)),
            decreases globals.len() - i,
        {
            let name = globals[i].clone();
            let ghost before = env;
            env.set(globals[i].clone(), Object::Function(Function::Native { name }), true);
            proof {
                assert forall|k: Seq<char>| (#[trigger] env_local(env, k) is Some) implies exists|j: int|
                    0 <= j < i + 1 && #[trigger] globals@[j]@ == k by {
                    if k == globals@[i as int]@ {
                        assert(globals@[i as int]@ == k);
                    } else {
                        assert(env_local(before, k) is Some);
                    }
                }
                assert forall|k: Seq<char>| (exists|j: int| 0 <= j < i + 1 && #[trigger] globals@[j]@ == k) implies
                    #[trigger] env_local(env, k) is Some by {
                    if k != globals@[i as int]@ {
                        let j = choose|j: int| 0 <= j < i + 1 && #[trigger] globals@[j]@ == k;
                        assert(globals@[j]@ == k);
                        assert(env_local(before, k) is Some);
                    }
                }
                assert forall|j: int| 0 <= j < i + 1 implies (#[trigger] env_local(env, globals@[j]@) matches Some(
                    Object::Function(Function::Native { name }),
                ) && name@ == globals@[j]@ && env_public(env, globals@[j]@)) by {
                    if globals@[j]@ != globals@[i as int]@ {
                        assert(env_local(before, globals@[j]@) == env_local(env, globals@[j]@));
                    }
                }
            }
            i += 1;
        }
        env
    }

    /// An empty environment nested in `outer`.
    pub fn new_enclosed(outer: &'e Environment<'a, 'e>) -> (env: Environment<'a, 'e>)
        ensures
            env.wf(),
            store_entries(env.store) == no_entries(),
            forall|k: Seq<char>| #[trigger] env_local(env, k) is None,
            env.outer == Some(outer),
    {
        Environment { store: store_new(), values: Vec::new(), outer: Some(outer) }
    }

    /// The value of this environment's own binding of `name`, if any.
    pub fn get_local(&self, name: &String) -> (r: Option<Object<'a>>)
        requires
            self.wf(),
        ensures
            r == env_local(*self, name@),
    {
        match store_get(&self.store, name) {
            Some((slot, _)) => Some(copy_object(&self.values[slot])),
            None => None,
        }
    }

    /// The value of `name` here or in the nearest outer environment that
    /// binds it.
    pub fn get(&self, name: &String) -> (r: Option<Object<'a>>)
        requires
            self.wf(),
            env_chain_wf(*self),
        ensures
            r == env_lookup(*self, name@),
        decreases *self,
    {
        proof {
            reveal_with_fuel(env_chain_wf, 2);
        }
        match self.get_local(name) {
            Some(v) => Some(v),
            None => match self.outer {
                Some(o) => o.get(name),
                None => None,
            },
        }
    }

    /// Binds `name` in this environment, replacing its own binding if any.
    pub fn set(&mut self, name: String, value: Object<'a>, public: bool)
        requires
            old(self).wf(),
        ensures
            final(self).wf(),
            final(self).outer == old(self).outer,
            env_local(*final(self), name@) == Some(value),
            store_entries(final(self).store)[name@].1 == public,
            forall|k: Seq<char>| k != name@ ==> #[trigger] env_local(*final(self), k) == env_local(*old(self), k)
                && (store_entries(old(self).store).contains_key(k) ==> store_entries(final(self).store)[k]
                == store_entries(old(self).store)[k]),
    {
        let slot = self.values.len();
        self.values.push(value);
        let ghost old_store = store_entries(self.store);
        store_insert(&mut self.store, name, (slot, public));
        proof {
            assert forall|k: Seq<char>| store_entries(self.store).contains_key(k) implies #[trigger] store_entries(
                self.store,
            )[k].0 < self.values.len() by {
                if k != name@ {
                    assert(old_store.contains_key(k));
                }
            }
        }
    }

    /// This environment's own public bindings, each name once.
    pub fn get_public_bindings(&self) -> (r: Vec<(String, Object<'a>)>)
        requires
            self.wf(),
        ensures
            forall|i: int| 0 <= i < r@.len() ==> env_public(*self, (#[trigger] r@[i]).0@) && env_local(*self, r@[i].0@)
                == Some(r@[i].1),
            forall|k: Seq<char>| env_public(*self, k) ==> exists|i: int| 0 <= i < r@.len() && (#[trigger] r@[i]).0@ == k,
            forall|i: int, j: int| 0 <= i < j < r@.len() ==> r@[i].0@ != r@[j].0@,
    {
        let keys = store_keys(&self.store);
        let mut out: Vec<(String, Object<'a>)> = Vec::new();
        let ghost mut taken: Seq<int> = Seq::empty();
        let mut i: usize = 0;
        while i < keys.len()
            invariant
                self.wf(),
                i <= keys.len(),
                forall|j: int| 0 <= j < keys@.len() ==> store_entries(self.store).contains_key(#[trigger] keys@[j]@),
                forall|k: Seq<char>| store_entries(self.store).contains_key(k) ==> exists|j: int|
                    0 <= j < keys@.len() && #[trigger] keys@[j]@ == k,
                forall|a: int, b: int| 0 <= a < b < keys@.len() ==> keys@[a]@ != keys@[b]@,
                taken.len() == out@.len(),
                forall|m: int| 0 <= m < out@.len() ==> 0 <= #[trigger] taken[m] < i && keys@[taken[m]]@ == out@[m].0@,
                forall|m: int, n: int| 0 <= m < n < out@.len() ==> taken[m] < taken[n],
                forall|m: int| 0 <= m < out@.len() ==> env_public(*self, (#[trigger] out@[m]).0@) && env_local(*self, out@[m].0@)
                    == Some(out@[m].1),
                forall|j: int| 0 <= j < i && env_public(*self, #[trigger] keys@[j]@) ==> exists|m: int|
                    0 <= m < out@.len() && out@[m].0@ == keys@[j]@,
            decreases keys.len() - i,
        {
            let ghost old_out = out@;
            match store_get(&self.store, &keys[i]) {
                Some((slot, public)) => {
                    if public {
                        out.push((keys[i].clone(), copy_object(&self.values[slot])));
                        proof {
                            taken = taken.push(i as int);
                        }
                    }
                },
                None => {},
            }
            proof {
                assert forall|j: int| 0 <= j < i + 1 && env_public(*self, #[trigger] keys@[j]@) implies exists|m: int|
                    0 <= m < out@.len() && out@[m].0@ == keys@[j]@ by {
                    if j == i {
                        assert(out@[out@.len() - 1].0@ == keys@[j]@);
                    } else {
                        let m = choose|m: int| 0 <= m < old_out.len() && old_out[m].0@ == keys@[j]@;
                        assert(out@[m] == old_out[m]);
                    }
                }
            }
            i += 1;
        }
        proof {
            assert forall|k: Seq<char>| env_public(*self, k) implies exists|m: int| 0 <= m < out@.len() && (
            #[trigger] out@[m]).0@ == k by {
                let j = choose|j: int| 0 <= j < keys@.len() && #[trigger] keys@[j]@ == k;
                assert(env_public(*self, keys@[j]@));
            }
            assert forall|a: int, b: int| 0 <= a < b < out@.len() implies out@[a].0@ != out@[b].0@ by {
                assert(taken[a] < taken[b]);
            }
        }
        out
    }
}

/// Every environment of the chain from `env` outwards is well formed.
pub open spec fn env_chain_wf(env: Environment) -> bool
    decreases env,
{
    env.wf() && match env.outer {
        Some(o) => env_chain_wf(*o),
        None => true,
    }
}

} // verus!
