//! The interpreter: its state and the operations that evaluation is built from.

pub mod binding;
pub mod declaration;
pub mod eval;
pub mod import;
pub mod index;
pub mod iteration;
pub mod lookup;
pub mod lvalue;
pub mod member;
pub mod operators;
pub mod program;
pub mod types;

use crate::error::Error;
use crate::maps::{hashed_distance_entries, hashed_distances_new};
use crate::memory::heap::Heap;
use crate::memory::stack::Stack;
use crate::object::Object;
use ahash::AHashMap;
use vstd::prelude::*;

verus! {

/// The default bound on nested calls of user functions.
pub const MAX_CALL_DEPTH: usize = 2048;

/// The interpreter's state: the file being run, the module cache, the scope
/// stack, the heap, the resolved distances of local variables, and the
/// budget of loop iterations left.
pub struct Interpreter<'a> {
    /// Path to the file being executed, if any.
    pub path: Option<String>,
    /// Modules loaded so far, by resolved name.
    pub modules: Vec<(String, Object<'a>)>,
    /// The call stack.
    pub stack: Stack<'a>,
    /// The heap allocator.
    pub heap: Heap<'a>,
    /// Map of identifier spans to their resolved scope distance.
    pub locals: AHashMap<(usize, usize), usize>,
    /// Loop iterations left before evaluation stops with `StepLimit`.
    pub steps: u64,
    /// The directory that relative paths are resolved against; the host
    /// sets it (an absolute path makes import paths absolute).
    pub working_dir: String,
}

/// `b` is `a` with only more types resolved: the type arena has grown and
/// nothing else has changed.
pub open spec fn only_types_grew<'a>(a: Interpreter<'a>, b: Interpreter<'a>) -> bool {
    &&& b.stack == a.stack
    &&& b.heap.types@.len() >= a.heap.types@.len()
    &&& b.heap.types@.subrange(0, a.heap.types@.len() as int) == a.heap.types@
    &&& b.heap.arrays@ == a.heap.arrays@
    &&& b.heap.tuples@ == a.heap.tuples@
    &&& b.heap.objects@ == a.heap.objects@
    &&& b.heap.structs@ == a.heap.structs@
    &&& b.heap.allocations == a.heap.allocations
    &&& b.modules@ == a.modules@
    &&& b.locals == a.locals
    &&& b.steps == a.steps
    &&& b.path == a.path
}

/// `b`'s arenas hold all of `a`'s: no scope or heap item has gone, so
/// every handle valid in `a` is valid in `b`.
pub open spec fn arenas_grown<'a>(a: Interpreter<'a>, b: Interpreter<'a>) -> bool {
    &&& b.stack.scopes@.len() >= a.stack.scopes@.len()
    &&& b.heap.arrays@.len() >= a.heap.arrays@.len()
    &&& b.heap.tuples@.len() >= a.heap.tuples@.len()
    &&& b.heap.objects@.len() >= a.heap.objects@.len()
    &&& b.heap.structs@.len() >= a.heap.structs@.len()
    &&& b.heap.types@.len() >= a.heap.types@.len()
}

/// `b` has the same resolutions, modules, budget and path as `a`.
pub open spec fn context_kept<'a>(a: Interpreter<'a>, b: Interpreter<'a>) -> bool {
    &&& b.locals == a.locals
    &&& b.modules@ == a.modules@
    &&& b.steps == a.steps
    &&& b.path == a.path
}

impl<'a> Interpreter<'a> {
    /// The interpreter's stack is well formed, and its heap's allocation
    /// counter counts what was allocated.
    pub open spec fn wf(&self) -> bool {
        self.stack.wf() && self.heap.wf()
    }

    /// A new interpreter with only the global scope, an empty heap, no
    /// modules and no resolutions.
    pub fn new(path: Option<String>) -> (it: Interpreter<'a>)
        ensures
            it.wf(),
            it.path == path,
            it.stack.frames@ == seq![0usize],
            it.stack.scopes@.len() == 1,
            it.stack.scopes@[0].bindings@.len() == 0,
            it.heap.allocations == 0,
            it.modules@.len() == 0,
            hashed_distance_entries(it.locals) == Map::<(usize, usize), usize>::empty(),
            it.steps == u64::MAX,
            it.working_dir@.len() == 0,
    {
        Interpreter {
            path,
            modules: Vec::new(),
            stack: Stack::new(),
            heap: Heap::new(),
            locals: hashed_distances_new(),
            steps: u64::MAX,
            working_dir: String::new(),
        }
    }

    /// The current scope.
    pub fn current_scope(&self) -> (s: usize)
        requires
            self.wf(),
        ensures
            s == self.stack.current_index(),
    {
        self.stack.current()
    }

    /// Gives an error the source text and file it came from, unless it
    /// already has source context. A run without a path is `<unknown>`.
    pub fn ensure_error_context(&self, e: Error, source: &String) -> (r: Error)
        ensures
            r.kind == e.kind,
            r.span == e.span,
            e.source is Some ==> r.source == e.source && r.file == e.file,
            e.source is None ==> r.source == Some(*source),
            e.source is None && self.path is Some ==> r.file == self.path,
            e.source is None && self.path is None ==> (r.file matches Some(f) && f@ == "<unknown>"@),
    {
        let mut e = e;
        if e.source.is_none() {
            e.source = Some(source.clone());
            e.file = match &self.path {
                Some(p) => Some(p.clone()),
                None => Some(String::from_str("<unknown>")),
            };
        }
        e
    }
}

} // verus!
