//! The hash maps of the `indexmap` and `ahash` crates that static analysis
//! and the interpreter keep, with what each call used does to their contents.

use ahash::AHashMap;
use indexmap::IndexMap;
use vstd::prelude::*;

verus! {

#[verifier::external_type_specification]
#[verifier::external_body]
#[verifier::reject_recursive_types(K)]
#[verifier::reject_recursive_types(V)]
#[verifier::reject_recursive_types(S)]
pub struct ExIndexMap<K, V, S>(IndexMap<K, V, S>);

#[verifier::external_type_specification]
#[verifier::external_body]
#[verifier::reject_recursive_types(K)]
#[verifier::reject_recursive_types(V)]
#[verifier::reject_recursive_types(S)]
pub struct ExAHashMap<K, V, S>(AHashMap<K, V, S>);

#[verifier::external_type_specification]
#[verifier::external_body]
pub struct ExAHashRandomState(ahash::RandomState);

/// What a block scope of the checker holds: each declared name and whether
/// its definition is complete.
pub uninterp spec fn flag_entries(m: IndexMap<String, bool>) -> Map<Seq<char>, bool>;

/// What the checker's table of resolutions holds: for each identifier's span,
/// as `(start, end)`, the number of scopes between its use and its binding.
pub uninterp spec fn distance_entries(m: IndexMap<(usize, usize), usize>) -> Map<(usize, usize), usize>;

/// What the interpreter's table of resolutions holds, keyed as above.
pub uninterp spec fn hashed_distance_entries(m: AHashMap<(usize, usize), usize>) -> Map<(usize, usize), usize>;

/// What a block scope of the resolver holds, as `flag_entries` does for
/// the checker.
pub uninterp spec fn hashed_flag_entries(m: AHashMap<String, bool>) -> Map<Seq<char>, bool>;

/// What an environment's store holds: for each name, the slot of its value
/// and whether it is public.
pub uninterp spec fn store_entries(m: AHashMap<String, (usize, bool)>) -> Map<Seq<char>, (usize, bool)>;

/// The empty store.
pub open spec fn no_entries() -> Map<Seq<char>, (usize, bool)> {
    Map::empty()
}

/// The empty scope table.
pub open spec fn no_flags() -> Map<Seq<char>, bool> {
    Map::empty()
}

/// The empty table of resolutions.
pub open spec fn no_distances() -> Map<(usize, usize), usize> {
    Map::empty()
}

/// `IndexMap::new` on a scope table: the map starts empty.
#[verifier::external_body]
pub(crate) fn flags_new() -> (r: IndexMap<String, bool>)
    ensures
        flag_entries(r) == no_flags(),
{
    IndexMap::new()
}

/// `IndexMap::insert` on a scope table: afterwards the key maps to the value,
/// every other key keeps its entry.
#[verifier::external_body]
pub(crate) fn flags_insert(m: &mut IndexMap<String, bool>, key: String, value: bool)
    ensures
        flag_entries(*final(m)) == flag_entries(*old(m)).insert(key@, value),
{
    m.insert(key, value);
}

/// `IndexMap::get` on a scope table: the value stored under the key, if any.
#[verifier::external_body]
pub(crate) fn flags_get(m: &IndexMap<String, bool>, key: &String) -> (r: Option<bool>)
    ensures
        r == (if flag_entries(*m).contains_key(key@) {
            Some(flag_entries(*m)[key@])
        } else {
            None::<bool>
        }),
{
    m.get(key).copied()
}

/// `IndexMap::new` on a resolution table: the map starts empty.
#[verifier::external_body]
pub(crate) fn distances_new() -> (r: IndexMap<(usize, usize), usize>)
    ensures
        distance_entries(r) == no_distances(),
{
    IndexMap::new()
}

/// `IndexMap::insert` on a resolution table.
#[verifier::external_body]
pub(crate) fn distances_insert(m: &mut IndexMap<(usize, usize), usize>, key: (usize, usize), value: usize)
    ensures
        distance_entries(*final(m)) == distance_entries(*old(m)).insert(key, value),
{
    m.insert(key, value);
}

/// `IndexMap::clone` on a resolution table: the copy holds the same entries.
#[verifier::external_body]
pub(crate) fn distances_clone(m: &IndexMap<(usize, usize), usize>) -> (r: IndexMap<(usize, usize), usize>)
    ensures
        distance_entries(r) == distance_entries(*m),
{
    m.clone()
}

/// `AHashMap::new` on the interpreter's resolution table: it starts empty.
#[verifier::external_body]
pub(crate) fn hashed_distances_new() -> (r: AHashMap<(usize, usize), usize>)
    ensures
        hashed_distance_entries(r) == no_distances(),
{
    AHashMap::new()
}

/// Collecting a checker's resolution table into an `AHashMap`
/// (`FromIterator` of `AHashMap`): the same entries, hashed.
#[verifier::external_body]
pub(crate) fn hashed_distances_from(m: &IndexMap<(usize, usize), usize>) -> (r: AHashMap<(usize, usize), usize>)
    ensures
        hashed_distance_entries(r) == distance_entries(*m),
{
    m.iter().map(|(k, v)| (*k, *v)).collect()
}

/// `HashMap::get` (through `AHashMap`'s `Deref`) on the interpreter's
/// resolution table: the distance stored under the key, if any.
#[verifier::external_body]
pub(crate) fn hashed_distances_get(m: &AHashMap<(usize, usize), usize>, key: (usize, usize)) -> (r: Option<usize>)
    ensures
        r == (if hashed_distance_entries(*m).contains_key(key) {
            Some(hashed_distance_entries(*m)[key])
        } else {
            None::<usize>
        }),
{
    m.get(&key).copied()
}

/// `AHashMap::new` on a resolver scope: the map starts empty.
#[verifier::external_body]
pub(crate) fn hashed_flags_new() -> (r: AHashMap<String, bool>)
    ensures
        hashed_flag_entries(r) == no_flags(),
{
    AHashMap::new()
}

/// `HashMap::insert` (through `AHashMap`'s `DerefMut`) on a resolver scope:
/// afterwards the key maps to the value, every other key keeps its entry.
#[verifier::external_body]
pub(crate) fn hashed_flags_insert(m: &mut AHashMap<String, bool>, key: String, value: bool)
    ensures
        hashed_flag_entries(*final(m)) == hashed_flag_entries(*old(m)).insert(key@, value),
{
    m.insert(key, value);
}

/// `HashMap::get` on a resolver scope: the value stored under the key, if any.
#[verifier::external_body]
pub(crate) fn hashed_flags_get(m: &AHashMap<String, bool>, key: &String) -> (r: Option<bool>)
    ensures
        r == (if hashed_flag_entries(*m).contains_key(key@) {
            Some(hashed_flag_entries(*m)[key@])
        } else {
            None::<bool>
        }),
{
    m.get(key).copied()
}

/// `HashMap::insert` on a resolution table kept in an `AHashMap`.
#[verifier::external_body]
pub(crate) fn hashed_distances_insert(m: &mut AHashMap<(usize, usize), usize>, key: (usize, usize), value: usize)
    ensures
        hashed_distance_entries(*final(m)) == hashed_distance_entries(*old(m)).insert(key, value),
{
    m.insert(key, value);
}

/// `AHashMap::clone` on a resolution table: the copy holds the same entries.
#[verifier::external_body]
pub(crate) fn hashed_distances_clone(m: &AHashMap<(usize, usize), usize>) -> (r: AHashMap<(usize, usize), usize>)
    ensures
        hashed_distance_entries(r) == hashed_distance_entries(*m),
{
    m.clone()
}

/// `AHashMap::new` on an environment's store: it starts empty.
#[verifier::external_body]
pub(crate) fn store_new() -> (r: AHashMap<String, (usize, bool)>)
    ensures
        store_entries(r) == no_entries(),
{
    AHashMap::new()
}

/// `HashMap::insert` on an environment's store.
#[verifier::external_body]
pub(crate) fn store_insert(m: &mut AHashMap<String, (usize, bool)>, key: String, value: (usize, bool))
    ensures
        store_entries(*final(m)) == store_entries(*old(m)).insert(key@, value),
{
    m.insert(key, value);
}

/// `HashMap::get` on an environment's store: the entry under the key, if any.
#[verifier::external_body]
pub(crate) fn store_get(m: &AHashMap<String, (usize, bool)>, key: &String) -> (r: Option<(usize, bool)>)
    ensures
        r == (if store_entries(*m).contains_key(key@) {
            Some(store_entries(*m)[key@])
        } else {
            None::<(usize, bool)>
        }),
{
    m.get(key).copied()
}

/// `HashMap::keys` on an environment's store, collected: each name once, in
/// the map's iteration order.
#[verifier::external_body]
pub(crate) fn store_keys(m: &AHashMap<String, (usize, bool)>) -> (r: Vec<String>)
    ensures
        forall|i: int| 0 <= i < r@.len() ==> store_entries(*m).contains_key(#[trigger] r@[i]@),
        forall|k: Seq<char>| store_entries(*m).contains_key(k) ==> exists|i: int| 0 <= i < r@.len() && #[trigger] r@[i]@ == k,
        forall|i: int, j: int| 0 <= i < j < r@.len() ==> r@[i]@ != r@[j]@,
{
    m.keys().cloned().collect()
}

} // verus!
