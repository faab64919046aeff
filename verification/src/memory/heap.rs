//! The heap: the arenas that arrays, tuples, objects, struct definitions and
//! resolved types live in, and the count of allocations made.

use crate::ast::{StructField, StructMethod};
use crate::object::{copy_object, Object};
use vstd::prelude::*;

verus! {

/// A resolved type. Component types are indices of the same arena.
#[derive(Debug)]
pub enum TypeNode {
    Integer,
    String,
    Boolean,
    Null,
    Void,
    Any,
    /// A name that no type definition was found for.
    Named(String),
    /// An array type, of fixed size when `size` holds one.
    Array { element: usize, size: Option<i64> },
    Tuple(Vec<usize>),
    /// An object type: each property's name, type, and whether it may be absent.
    Object(Vec<(String, usize, bool)>),
}

/// A struct definition: its name and, in the syntax tree, its fields and methods.
#[derive(Debug)]
pub struct StructDef<'a> {
    pub name: String,
    pub fields: &'a Vec<StructField>,
    pub methods: &'a Vec<StructMethod>,
}

/// The properties of an object, in insertion order.
pub type Properties<'a> = Vec<(String, Object<'a>)>;

/// The index of the first property named `key` in `ps[i..]`.
pub open spec fn find_key_from(ps: Seq<(String, Object)>, key: Seq<char>, i: int) -> Option<int>
    decreases ps.len() - i,
{
    if i < 0 || i >= ps.len() {
        None
    } else if ps[i].0@ == key {
        Some(i)
    } else {
        find_key_from(ps, key, i + 1)
    }
}

/// The value of property `key`, if the object has it.
pub open spec fn prop_get<'a>(ps: Seq<(String, Object<'a>)>, key: Seq<char>) -> Option<Object<'a>> {
    match find_key_from(ps, key, 0) {
        Some(i) => Some(ps[i].1),
        None => None,
    }
}

/// The properties after inserting `key`: an existing property keeps its
/// place and takes the new value; a new one is added last.
pub open spec fn prop_insert<'a>(ps: Seq<(String, Object<'a>)>, key: String, value: Object<'a>) -> Seq<(String, Object<'a>)> {
    match find_key_from(ps, key@, 0) {
        Some(i) => ps.update(i, (ps[i].0, value)),
        None => ps.push((key, value)),
    }
}

/// The index of the last of the first `j` named items called `name`: the
/// entry that a name-to-index table built in order ends up with.
pub open spec fn last_field_named(fields: Seq<StructField>, name: Seq<char>, j: int) -> Option<int>
    decreases j,
{
    if j <= 0 || j > fields.len() {
        None
    } else if fields[j - 1].name@ == name {
        Some(j - 1)
    } else {
        last_field_named(fields, name, j - 1)
    }
}

/// As `last_field_named`, for methods.
pub open spec fn last_method_named(methods: Seq<StructMethod>, name: Seq<char>, j: int) -> Option<int>
    decreases j,
{
    if j <= 0 || j > methods.len() {
        None
    } else if methods[j - 1].name@ == name {
        Some(j - 1)
    } else {
        last_method_named(methods, name, j - 1)
    }
}

/// A copy of a sequence of values.
pub fn copy_objects<'a>(v: &Vec<Object<'a>>) -> (r: Vec<Object<'a>>)
    ensures
        r@ == v@,
{
    let mut r: Vec<Object<'a>> = Vec::new();
    let mut i: usize = 0;
    while i < v.len()
        invariant
            i <= v.len(),
            r@ == v@.subrange(0, i as int),
        decreases v.len() - i,
    {
        r.push(copy_object(&v[i]));
        i += 1;
        assert(r@ =~= v@.subrange(0, i as int));
    }
    assert(r@ =~= v@);
    r
}

/// Looks up property `key` of an object's properties.
pub fn props_find<'a>(ps: &Properties<'a>, key: &String) -> (r: Option<usize>)
    ensures
        r matches Some(i) ==> i < ps.len() && find_key_from(ps@, key@, 0) == Some(i as int),
        r is None ==> find_key_from(ps@, key@, 0) is None,
{
    proof {
        lemma_find_key_bound(ps@, key@, 0);
    }
    let mut i: usize = 0;
    while i < ps.len()
        invariant
            i <= ps.len(),
            find_key_from(ps@, key@, 0) == find_key_from(ps@, key@, i as int),
            find_key_from(ps@, key@, 0) matches Some(j) ==> j < ps.len(),
        decreases ps.len() - i,
    {
        if ps[i].0 == *key {
            return Some(i);
        }
        i += 1;
    }
    None
}

/// The value of property `key`, copied.
pub fn props_get<'a>(ps: &Properties<'a>, key: &String) -> (r: Option<Object<'a>>)
    ensures
        r == prop_get(ps@, key@),
{
    match props_find(ps, key) {
        Some(i) => Some(copy_object(&ps[i].1)),
        None => None,
    }
}

/// Inserts property `key`, as `IndexMap::insert` orders it.
pub fn props_insert<'a>(ps: &mut Properties<'a>, key: String, value: Object<'a>)
    ensures
        final(ps)@ == prop_insert(old(ps)@, key, value),
{
    match props_find(ps, &key) {
        Some(i) => {
            let k = ps[i].0.clone();
            ps.set(i, (k, value));
        },
        None => {
            ps.push((key, value));
        },
    }
}

/// `find_key_from` only returns indices of the sequence.
pub proof fn lemma_find_key_bound(ps: Seq<(String, Object)>, key: Seq<char>, i: int)
    ensures
        find_key_from(ps, key, i) matches Some(j) ==> i <= j < ps.len() && ps[j].0@ == key,
    decreases ps.len() - i,
{
    if 0 <= i < ps.len() && ps[i].0@ != key {
        lemma_find_key_bound(ps, key, i + 1);
    }
}

/// `find_key_from` finds the first property named `key` from `i` on: the
/// one it returns is named `key` and none before it (from `i`) is.
pub proof fn lemma_find_key_first(ps: Seq<(String, Object)>, key: Seq<char>, i: int, j: int)
    requires
        0 <= i <= j < ps.len(),
        ps[j].0@ == key,
        forall|k: int| i <= k < j ==> ps[k].0@ != key,
    ensures
        find_key_from(ps, key, i) == Some(j),
    decreases j - i,
{
    if i < j {
        lemma_find_key_first(ps, key, i + 1, j);
    }
}

/// No property from `i` on is named `key` when `find_key_from` finds none.
pub proof fn lemma_find_key_none(ps: Seq<(String, Object)>, key: Seq<char>, i: int)
    requires
        0 <= i,
        find_key_from(ps, key, i) is None,
    ensures
        forall|k: int| i <= k < ps.len() ==> ps[k].0@ != key,
    decreases ps.len() - i,
{
    if i < ps.len() {
        lemma_find_key_none(ps, key, i + 1);
    }
}

/// Changing the values but not the names of properties finds the same
/// property for every key.
pub proof fn lemma_find_key_same_names<'a>(ps: Seq<(String, Object<'a>)>, qs: Seq<(String, Object<'a>)>, key: Seq<char>, i: int)
    requires
        ps.len() == qs.len(),
        forall|k: int| 0 <= k < ps.len() ==> #[trigger] ps[k].0@ == qs[k].0@,
    ensures
        find_key_from(ps, key, i) == find_key_from(qs, key, i),
    decreases ps.len() - i,
{
    if 0 <= i < ps.len() {
        assert(ps[i].0@ == qs[i].0@);
        lemma_find_key_same_names(ps, qs, key, i + 1);
    }
}

/// Reading a property back after inserting it gives the inserted value;
/// every other property reads as before.
pub proof fn lemma_prop_insert_get<'a>(ps: Seq<(String, Object<'a>)>, key: String, value: Object<'a>, other: Seq<char>)
    ensures
        prop_get(prop_insert(ps, key, value), key@) == Some(value),
        other != key@ ==> prop_get(prop_insert(ps, key, value), other) == prop_get(ps, other),
{
    let qs = prop_insert(ps, key, value);
    lemma_find_key_bound(ps, key@, 0);
    lemma_find_key_bound(ps, other, 0);
    match find_key_from(ps, key@, 0) {
        Some(i) => {
            lemma_find_key_same_names(ps, qs, key@, 0);
            lemma_find_key_same_names(ps, qs, other, 0);
        },
        None => {
            lemma_find_key_none(ps, key@, 0);
            lemma_find_key_first(qs, key@, 0, ps.len() as int);
            match find_key_from(ps, other, 0) {
                Some(j) => {
                    assert forall|k: int| 0 <= k < j implies qs[k].0@ != other by {
                        lemma_find_key_none_before(ps, other, 0, j, k);
                    }
                    lemma_find_key_first(qs, other, 0, j);
                },
                None => {
                    lemma_find_key_none(ps, other, 0);
                    if other != key@ {
                        lemma_find_key_none_push(ps, other, key, value);
                    }
                },
            }
        },
    }
}

/// Before the property that `find_key_from` returns, none is named `key`.
pub proof fn lemma_find_key_none_before(ps: Seq<(String, Object)>, key: Seq<char>, i: int, j: int, k: int)
    requires
        0 <= i <= k < j,
        find_key_from(ps, key, i) == Some(j),
    ensures
        ps[k].0@ != key,
    decreases k - i,
{
    if i < k {
        lemma_find_key_none_before(ps, key, i + 1, j, k);
    }
}

/// Appending a property of another name keeps a key absent.
pub proof fn lemma_find_key_none_push<'a>(ps: Seq<(String, Object<'a>)>, key: Seq<char>, name: String, value: Object<'a>)
    requires
        forall|k: int| 0 <= k < ps.len() ==> ps[k].0@ != key,
        name@ != key,
    ensures
        find_key_from(ps.push((name, value)), key, 0) is None,
{
    let qs = ps.push((name, value));
    assert forall|k: int| 0 <= k < qs.len() implies qs[k].0@ != key by {
        if k < ps.len() {
            assert(qs[k] == ps[k]);
        }
    }
    lemma_find_key_absent(qs, key, 0);
}

/// A key that no property has is not found.
pub proof fn lemma_find_key_absent(ps: Seq<(String, Object)>, key: Seq<char>, i: int)
    requires
        0 <= i,
        forall|k: int| 0 <= k < ps.len() ==> ps[k].0@ != key,
    ensures
        find_key_from(ps, key, i) is None,
    decreases ps.len() - i,
{
    if i < ps.len() {
        lemma_find_key_absent(ps, key, i + 1);
    }
}

impl<'a> StructDef<'a> {
    /// The index of field `name`; with repeated names, the last one.
    pub fn field_index(&self, name: &String) -> (r: Option<usize>)
        ensures
            r matches Some(i) ==> i < self.fields.len() && last_field_named(self.fields@, name@, self.fields.len() as int) == Some(i as int),
            r is None ==> last_field_named(self.fields@, name@, self.fields.len() as int) is None,
    {
        let mut j = self.fields.len();
        while j > 0
            invariant
                j <= self.fields.len(),
                last_field_named(self.fields@, name@, self.fields.len() as int) == last_field_named(self.fields@, name@, j as int),
            decreases j,
        {
            if self.fields[j - 1].name == *name {
                return Some(j - 1);
            }
            j -= 1;
        }
        None
    }

    /// The index of method `name`; with repeated names, the last one.
    pub fn method_index(&self, name: &String) -> (r: Option<usize>)
        ensures
            r matches Some(i) ==> i < self.methods.len() && last_method_named(self.methods@, name@, self.methods.len() as int) == Some(i as int),
            r is None ==> last_method_named(self.methods@, name@, self.methods.len() as int) is None,
    {
        let mut j = self.methods.len();
        while j > 0
            invariant
                j <= self.methods.len(),
                last_method_named(self.methods@, name@, self.methods.len() as int) == last_method_named(self.methods@, name@, j as int),
            decreases j,
        {
            if self.methods[j - 1].name == *name {
                return Some(j - 1);
            }
            j -= 1;
        }
        None
    }
}

/// The heap allocator. Arrays, tuples and objects are allocated here and
/// counted; struct definitions and resolved types are kept here too.
#[derive(Debug)]
pub struct Heap<'a> {
    /// Total number of objects, tuples and arrays allocated.
    pub allocations: usize,
    pub arrays: Vec<Vec<Object<'a>>>,
    pub tuples: Vec<Vec<Object<'a>>>,
    pub objects: Vec<Properties<'a>>,
    pub structs: Vec<StructDef<'a>>,
    pub types: Vec<TypeNode>,
}

impl<'a> Heap<'a> {
    /// The allocation counter counts exactly the arrays, tuples and objects
    /// allocated so far.
    pub open spec fn wf(&self) -> bool {
        self.allocations == self.arrays@.len() + self.tuples@.len() + self.objects@.len()
    }

    /// An empty heap.
    pub fn new() -> (h: Heap<'a>)
        ensures
            h.wf(),
            h.allocations == 0,
            h.arrays@.len() == 0,
            h.tuples@.len() == 0,
            h.objects@.len() == 0,
            h.structs@.len() == 0,
            h.types@.len() == 0,
    {
        Heap {
            allocations: 0,
            arrays: Vec::new(),
            tuples: Vec::new(),
            objects: Vec::new(),
            structs: Vec::new(),
            types: Vec::new(),
        }
    }

    /// Allocates an object with the given properties.
    pub fn alloc_object(&mut self, properties: Properties<'a>, definition: Option<usize>, constant: bool) -> (o: Object<'a>)
        requires
            old(self).allocations < usize::MAX,
        ensures
            old(self).wf() ==> final(self).wf(),
            o == (Object::Object { id: old(self).objects.len() as usize, definition, constant }),
            final(self).allocations == old(self).allocations + 1,
            final(self).objects@ == old(self).objects@.push(properties),
            final(self).arrays@ == old(self).arrays@,
            final(self).tuples@ == old(self).tuples@,
            final(self).structs@ == old(self).structs@,
            final(self).types@ == old(self).types@,
    {
        self.allocations += 1;
        let id = self.objects.len();
        self.objects.push(properties);
        Object::Object { id, definition, constant }
    }

    /// Allocates a tuple of the given elements.
    pub fn alloc_tuple(&mut self, elements: Vec<Object<'a>>) -> (o: Object<'a>)
        requires
            old(self).allocations < usize::MAX,
        ensures
            old(self).wf() ==> final(self).wf(),
            o == (Object::Tuple { id: old(self).tuples.len() as usize }),
            final(self).allocations == old(self).allocations + 1,
            final(self).tuples@ == old(self).tuples@.push(elements),
            final(self).arrays@ == old(self).arrays@,
            final(self).objects@ == old(self).objects@,
            final(self).structs@ == old(self).structs@,
            final(self).types@ == old(self).types@,
    {
        self.allocations += 1;
        let id = self.tuples.len();
        self.tuples.push(elements);
        Object::Tuple { id }
    }

    /// Allocates an array of the given elements and type.
    pub fn alloc_array(&mut self, elements: Vec<Object<'a>>, kind: usize, constant: bool) -> (o: Object<'a>)
        requires
            old(self).allocations < usize::MAX,
        ensures
            old(self).wf() ==> final(self).wf(),
            o == (Object::Array { id: old(self).arrays.len() as usize, kind, constant }),
            final(self).allocations == old(self).allocations + 1,
            final(self).arrays@ == old(self).arrays@.push(elements),
            final(self).tuples@ == old(self).tuples@,
            final(self).objects@ == old(self).objects@,
            final(self).structs@ == old(self).structs@,
            final(self).types@ == old(self).types@,
    {
        self.allocations += 1;
        let id = self.arrays.len();
        self.arrays.push(elements);
        Object::Array { id, kind, constant }
    }

    /// A string value; strings are values, so nothing is allocated or counted.
    pub fn alloc_string(&mut self, s: String) -> (o: Object<'a>)
        ensures
            o == Object::String(s),
            *final(self) == *old(self),
    {
        Object::String(s)
    }

    /// Adds a struct definition and returns its index.
    pub fn add_struct(&mut self, def: StructDef<'a>) -> (id: usize)
        ensures
            id == old(self).structs.len(),
            final(self).structs@ == old(self).structs@.push(def),
            final(self).allocations == old(self).allocations,
            final(self).arrays@ == old(self).arrays@,
            final(self).tuples@ == old(self).tuples@,
            final(self).objects@ == old(self).objects@,
            final(self).types@ == old(self).types@,
    {
        let id = self.structs.len();
        self.structs.push(def);
        id
    }

    /// Adds a resolved type and returns its index.
    pub fn add_type(&mut self, node: TypeNode) -> (id: usize)
        ensures
            id == old(self).types.len(),
            final(self).types@ == old(self).types@.push(node),
            final(self).allocations == old(self).allocations,
            final(self).arrays@ == old(self).arrays@,
            final(self).tuples@ == old(self).tuples@,
            final(self).objects@ == old(self).objects@,
            final(self).structs@ == old(self).structs@,
    {
        let id = self.types.len();
        self.types.push(node);
        id
    }

    /// The elements of array `id`, copied, if there is such an array.
    pub fn array_elements(&self, id: usize) -> (r: Option<Vec<Object<'a>>>)
        ensures
            id < self.arrays.len() ==> (r matches Some(v) && v@ == self.arrays@[id as int]@),
            id >= self.arrays.len() ==> r is None,
    {
        if id < self.arrays.len() {
            Some(copy_objects(&self.arrays[id]))
        } else {
            None
        }
    }

    /// The elements of tuple `id`, copied, if there is such a tuple.
    pub fn tuple_elements(&self, id: usize) -> (r: Option<Vec<Object<'a>>>)
        ensures
            id < self.tuples.len() ==> (r matches Some(v) && v@ == self.tuples@[id as int]@),
            id >= self.tuples.len() ==> r is None,
    {
        if id < self.tuples.len() {
            Some(copy_objects(&self.tuples[id]))
        } else {
            None
        }
    }
}

} // verus!
