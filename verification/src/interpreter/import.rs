//! `import`: standard modules by name, file modules by path, and the cache
//! that makes each module load once.

use crate::analysis::checker::{check_stmts, initial_view};
use crate::ast::Statement;
use crate::error::{Error, ErrorKind};
use crate::maps::{hashed_distance_entries, hashed_distances_clone};
use crate::interpreter::Interpreter;
use crate::interpreter::eval::pure_statements;
use crate::memory::stack::{public_pairs, Scope, Variable};
use crate::object::{copy_object, strip_return_err, Object};
use crate::span::Span;
use std::path::{Path, PathBuf};
use vstd::prelude::*;
use vstd::string::StrSliceExecFns;

verus! {

/// The directory part of a path (`Path::parent`), empty when it has none.
pub uninterp spec fn parent_of(path: Seq<char>) -> Seq<char>;

/// `base` joined with `rel` (`Path::join`).
pub uninterp spec fn joined(base: Seq<char>, rel: Seq<char>) -> Seq<char>;

/// The lexically cleaned form of a path (`path_clean::clean`).
pub uninterp spec fn cleaned(path: Seq<char>) -> Seq<char>;

/// A path with its extension replaced by, or extended with, `ext`
/// (`PathBuf::with_extension`).
pub uninterp spec fn extension_replaced(path: Seq<char>, ext: Seq<char>) -> Seq<char>;

/// The parent directory of `path` (`std::path::Path::parent`); a path
/// without one gives the empty path.
#[verifier::external_body]
fn path_parent(path: &String) -> (r: String)
    ensures
        r@ == parent_of(path@),
{
    match Path::new(path.as_str()).parent() {
        Some(p) => p.to_string_lossy().into_owned(),
        None => String::new(),
    }
}

/// Whether a path is absolute: it starts at the root, `/`.
pub open spec fn is_absolute(path: Seq<char>) -> bool {
    path.len() > 0 && path[0] == '/'
}

/// `base` joined with `rel` (`std::path::Path::join`): `rel` itself when it
/// is absolute, else `rel` appended to `base`, so that the result is
/// absolute when `base` is.
#[verifier::external_body]
fn path_join(base: &String, rel: &String) -> (r: String)
    ensures
        r@ == joined(base@, rel@),
        is_absolute(base@) ==> is_absolute(r@),
{
    Path::new(base.as_str()).join(rel.as_str()).to_string_lossy().into_owned()
}

/// `path_clean::clean`: removes `.` components, resolves `..` against the
/// component before it and collapses repeated separators, lexically; the
/// result is never empty (`.` stands for the empty path).
#[verifier::external_body]
fn path_cleaned(path: &String) -> (r: String)
    ensures
        r@ == cleaned(path@),
        r@.len() > 0,
        is_absolute(path@) ==> is_absolute(r@),
{
    path_clean::clean(path.as_str()).to_string_lossy().into_owned()
}

/// `std::path::PathBuf::with_extension`, for an extension without a path
/// separator (one with a separator panics): only the last component's
/// extension changes, so an absolute path stays absolute.
#[verifier::external_body]
fn path_with_extension(path: &String, ext: &String) -> (r: String)
    requires
        !ext@.contains('/'),
    ensures
        r@ == extension_replaced(path@, ext@),
        is_absolute(path@) ==> is_absolute(r@),
{
    PathBuf::from(path.as_str()).with_extension(ext.as_str()).to_string_lossy().into_owned()
}

/// `mid` is `before` ready to run a module's statements: `key` as the path,
/// the statements' own analysis as the table of resolutions, and a new
/// scope with no parent and no bindings entered; all else as before.
pub open spec fn module_entered<'a>(before: Interpreter<'a>, mid: Interpreter<'a>, key: String, statements: Seq<Statement>) -> bool {
    &&& mid == (Interpreter { stack: mid.stack, path: Some(key), locals: mid.locals, ..before })
    &&& hashed_distance_entries(mid.locals) == check_stmts(initial_view(), statements, 0).locals
    &&& mid.stack.frames@ == before.stack.frames@.push(before.stack.scopes.len() as usize)
    &&& mid.stack.scopes@.len() == before.stack.scopes@.len() + 1
    &&& mid.stack.scopes@.drop_last() == before.stack.scopes@
    &&& mid.stack.scopes@.last().parent is None
    &&& mid.stack.scopes@.last().bindings@.len() == 0
}

/// Whether a module's scope holds exactly `pairs`, in order, as public
/// constants.
pub open spec fn module_holds<'a>(scope: Scope<'a>, pairs: Seq<(String, Object<'a>)>) -> bool {
    &&& scope.bindings@.len() == pairs.len()
    &&& forall|i: int| 0 <= i < pairs.len() ==> #[trigger] scope.bindings@[i] == (Variable {
        name: pairs[i].0,
        value: pairs[i].1,
        public: true,
        constant: true,
    })
}

/// Whether every binding of a module's scope is public and constant.
pub open spec fn exported(scope: Scope) -> bool {
    forall|i: int| 0 <= i < scope.bindings@.len() ==> (#[trigger] scope.bindings@[i]).public && scope.bindings@[i].constant
}

/// The module cached under `key`: the first entry with that key.
pub open spec fn cached_from<'a>(modules: Seq<(String, Object<'a>)>, key: Seq<char>, i: int) -> Option<Object<'a>>
    decreases modules.len() - i,
{
    if i < 0 || i >= modules.len() {
        None
    } else if modules[i].0@ == key {
        Some(modules[i].1)
    } else {
        cached_from(modules, key, i + 1)
    }
}

/// Whether `path` names a standard module (`std:` prefix).
pub open spec fn is_std_path(path: Seq<char>) -> bool {
    path.len() >= 4 && path.subrange(0, 4) == "std:"@
}

/// The two files an import of `path` may refer to, in the order they are
/// tried: `path` resolved against the importing file's directory, then
/// against the working directory, and cleaned; then the same with the `km`
/// extension.
pub open spec fn import_candidates(importer: Option<String>, working_dir: Seq<char>, path: Seq<char>) -> (Seq<char>, Seq<char>) {
    let base = match importer {
        Some(p) => parent_of(p@),
        None => Seq::empty(),
    };
    let first = cleaned(joined(working_dir, joined(base, path)));
    (first, extension_replaced(first, "km"@))
}

/// A module registered under a key that nothing was cached under before is
/// what the cache then serves for that key; a key cached before keeps its
/// first module.
pub proof fn lemma_register_then_cached<'a>(modules: Seq<(String, Object<'a>)>, key: String, m: Object<'a>)
    ensures
        cached_from(modules, key@, 0) is None ==> cached_from(modules.push((key, m)), key@, 0) == Some(m),
        cached_from(modules, key@, 0) is Some ==> cached_from(modules.push((key, m)), key@, 0) == cached_from(modules, key@, 0),
{
    lemma_cached_push(modules, key, m, 0);
}

/// Appending an entry changes the search from `i` only where it found nothing.
pub proof fn lemma_cached_push<'a>(modules: Seq<(String, Object<'a>)>, key: String, m: Object<'a>, i: int)
    requires
        0 <= i,
    ensures
        cached_from(modules, key@, i) is None && i <= modules.len() ==> cached_from(modules.push((key, m)), key@, i) == Some(m),
        cached_from(modules, key@, i) is Some ==> cached_from(modules.push((key, m)), key@, i) == cached_from(modules, key@, i),
    decreases modules.len() - i,
{
    let pushed = modules.push((key, m));
    if i < modules.len() {
        assert(pushed[i] == modules[i]);
        lemma_cached_push(modules, key, m, i + 1);
    } else if i == modules.len() {
        assert(pushed[i] == (key, m));
    }
}

impl<'a> Interpreter<'a> {
    /// The module cached under `key`, if any.
    pub fn cached_module(&self, key: &String) -> (r: Option<Object<'a>>)
        ensures
            r == cached_from(self.modules@, key@, 0),
    {
        let mut i: usize = 0;
        while i < self.modules.len()
            invariant
                i <= self.modules.len(),
                cached_from(self.modules@, key@, 0) == cached_from(self.modules@, key@, i as int),
            decreases self.modules.len() - i,
        {
            if self.modules[i].0 == *key {
                return Some(copy_object(&self.modules[i].1));
            }
            i += 1;
        }
        None
    }

    /// The files that an import of `path` refers to, in the order tried.
    pub fn resolve_import_path(&self, path: &String) -> (r: (String, String))
        ensures
            (r.0@, r.1@) == import_candidates(self.path, self.working_dir@, path@),
            is_absolute(self.working_dir@) ==> is_absolute(r.0@) && is_absolute(r.1@),
    {
        let base = match &self.path {
            Some(p) => path_parent(p),
            None => String::new(),
        };
        let first = path_cleaned(&path_join(&self.working_dir, &path_join(&base, path)));
        let ext = String::from_str("km");
        proof {
            reveal_strlit("km");
            assert(ext@ == seq!['k', 'm']);
            assert(!ext@.contains('/')) by {
                assert(ext@[0] != '/' && ext@[1] != '/');
            }
        }
        let second = path_with_extension(&first, &ext);
        (first, second)
    }

    /// Runs a module file's parsed statements and caches the module under
    /// `key`: the statements run as a program (see `eval`), with `key` as
    /// the file's path and with their own static analysis, in a new scope
    /// that sees no name outside it; the module then holds that scope's
    /// public bindings, as constants (see `register_module`). Afterwards the
    /// path and the table of resolutions are the importer's again. The load
    /// succeeds exactly when the run does: where the run's outcome is
    /// decided without changing anything (`pure_statements`, in the state
    /// `module_entered` describes), a run that ends in a value that is no
    /// error result registers the module, and one that fails gives its
    /// error (`UncaughtErr` for an uncaught error result). On any error no
    /// module is registered.
    pub fn load_module(&mut self, key: String, statements: &'a Vec<Statement>, source: &String) -> (res: Result<
        Object<'a>,
        Error,
    >)
        requires
            old(self).wf(),
        ensures
            final(self).wf(),
            final(self).path == old(self).path,
            hashed_distance_entries(final(self).locals) == hashed_distance_entries(old(self).locals),
            final(self).steps <= old(self).steps,
            crate::interpreter::arenas_grown(*old(self), *final(self)),
            res is Ok ==> final(self).stack.frames@ == old(self).stack.frames@,
            res matches Ok(m) ==> m == Object::Scope((final(self).stack.scopes@.len() - 1) as usize)
                && final(self).modules@ == old(self).modules@.push((key, m))
                && final(self).stack.scopes@.last().parent is None && exported(final(self).stack.scopes@.last())
                && module_holds(
                final(self).stack.scopes@.last(),
                public_pairs(final(self).stack.scopes@[old(self).stack.scopes.len() as int].bindings@, 0),
            ),
            res is Err ==> final(self).modules@ == old(self).modules@,
            statements@.len() == 0 ==> res is Ok,
            exists|mid: Interpreter<'a>| #[trigger] module_entered(*old(self), mid, key, statements@) && (pure_statements(
                mid,
                statements@,
                0,
                Object::Void,
            ) matches Some(r) ==> match r {
                Ok(v) => if strip_return_err(v) is ErrValue {
                    res matches Err(e) && e.kind == ErrorKind::UncaughtErr
                } else {
                    res is Ok
                },
                Err(e) => res == Err::<Object<'a>, Error>(e),
            }),
    {
        let saved_locals = hashed_distances_clone(&self.locals);
        let saved_path = match &self.path {
            Some(p) => Some(p.clone()),
            None => None,
        };
        self.path = Some(key.clone());
        self.stack.push_root(String::from_str("module"));
        let ghost pre = *self;
        let result = self.eval(statements, source);
        let ghost mid = Interpreter { locals: self.locals, ..pre };
        assert(pre.stack.scopes@.drop_last() == old(self).stack.scopes@);
        assert(module_entered(*old(self), mid, key, statements@));
        let bindings = self.stack.get_public_bindings();
        self.stack.pop();
        self.locals = saved_locals;
        self.path = saved_path;
        match result {
            Ok(_) => Ok(self.register_module(key, bindings)),
            Err(e) => Err(e),
        }
    }

    /// Makes a module of `bindings`, public and constant, in a scope of its
    /// own with no parent, caches it under `key` and returns it.
    pub fn register_module(&mut self, key: String, bindings: Vec<(String, Object<'a>)>) -> (m: Object<'a>)
        requires
            old(self).wf(),
        ensures
            final(self).wf(),
            m == Object::Scope(old(self).stack.scopes.len() as usize),
            final(self).stack.frames@ == old(self).stack.frames@,
            final(self).stack.scopes@.len() == old(self).stack.scopes@.len() + 1,
            final(self).stack.scopes@.drop_last() == old(self).stack.scopes@,
            final(self).stack.scopes@.last().parent is None,
            final(self).stack.scopes@.last().bindings@.len() == bindings@.len(),
            forall|i: int| 0 <= i < bindings@.len() ==> #[trigger] final(self).stack.scopes@.last().bindings@[i] == (Variable {
                name: bindings@[i].0,
                value: bindings@[i].1,
                public: true,
                constant: true,
            }),
            final(self).modules@ == old(self).modules@.push((key, m)),
            final(self).heap == old(self).heap,
            final(self).locals == old(self).locals,
            final(self).steps == old(self).steps,
            final(self).path == old(self).path,
    {
        let mut vars: Vec<Variable<'a>> = Vec::new();
        let mut i: usize = 0;
        while i < bindings.len()
            invariant
                i <= bindings.len(),
                vars@.len() == i,
                forall|k: int| 0 <= k < i ==> #[trigger] vars@[k] == (Variable {
                    name: bindings@[k].0,
                    value: bindings@[k].1,
                    public: true,
                    constant: true,
                }),
            decreases bindings.len() - i,
        {
            vars.push(Variable {
                name: bindings[i].0.clone(),
                value: copy_object(&bindings[i].1),
                public: true,
                constant: true,
            });
            i += 1;
        }
        let id = self.stack.scopes.len();
        let ghost old_scopes = self.stack.scopes@;
        self.stack.scopes.push(Scope { name: Some(key.clone()), bindings: vars, parent: None });
        assert forall|s: int| 0 <= s < self.stack.scopes.len() implies (#[trigger] self.stack.scopes@[s].parent matches Some(p)
            ==> (p as int) < s) by {
            if s < id {
                assert(self.stack.scopes@[s] == old_scopes[s]);
            }
        }
        assert(self.stack.scopes@.drop_last() =~= old_scopes);
        self.modules.push((key, Object::Scope(id)));
        Object::Scope(id)
    }

    /// `import path`. A `std:` path names a standard module, served from
    /// the cache or else `StdModuleNotFound`; this runtime provides no
    /// standard modules of its own. Any other path names a file module,
    /// served from the cache under the first of its two candidate paths that
    /// is cached (see `import_candidates`), or else `ModuleFileNotFound`:
    /// reading and running a module's file is the host's part, which then
    /// registers the module (`register_module`).
    pub fn eval_import(&self, path: &String, span: Span) -> (res: Result<Object<'a>, Error>)
        ensures
            res matches Err(e) ==> e.span == span,
            is_std_path(path@) ==> match cached_from(self.modules@, path@.subrange(4, path@.len() as int), 0) {
                Some(m) => res == Ok::<Object<'a>, Error>(m),
                None => res matches Err(e) && e.kind matches ErrorKind::StdModuleNotFound { name }
                    && name@ == path@.subrange(4, path@.len() as int),
            },
            !is_std_path(path@) ==> match cached_from(self.modules@, import_candidates(self.path, self.working_dir@, path@).0, 0) {
                Some(m) => res == Ok::<Object<'a>, Error>(m),
                None => match cached_from(self.modules@, import_candidates(self.path, self.working_dir@, path@).1, 0) {
                    Some(m) => res == Ok::<Object<'a>, Error>(m),
                    None => res matches Err(e) && e.kind == (ErrorKind::ModuleFileNotFound { path: *path }),
                },
            },
    {
        let text = path.as_str();
        let n = text.unicode_len();
        let std_prefix = n >= 4 && text.get_char(0) == 's' && text.get_char(1) == 't' && text.get_char(2) == 'd'
            && text.get_char(3) == ':';
        proof {
            reveal_strlit("std:");
            if n >= 4 {
                if std_prefix {
                    assert(path@.subrange(0, 4) =~= "std:"@);
                } else {
                    assert(path@.subrange(0, 4)[0] == path@[0]);
                    assert(path@.subrange(0, 4)[1] == path@[1]);
                    assert(path@.subrange(0, 4)[2] == path@[2]);
                    assert(path@.subrange(0, 4)[3] == path@[3]);
                }
            }
        }
        if std_prefix {
            self.eval_std_module(&String::from_str(text.substring_char(4, n)), span)
        } else {
            self.eval_file_module(path, span)
        }
    }

    /// A standard module by name: served from the cache, else
    /// `StdModuleNotFound`.
    pub fn eval_std_module(&self, name: &String, span: Span) -> (res: Result<Object<'a>, Error>)
        ensures
            match cached_from(self.modules@, name@, 0) {
                Some(m) => res == Ok::<Object<'a>, Error>(m),
                None => res matches Err(e) && e.kind == (ErrorKind::StdModuleNotFound { name: *name }) && e.span == span,
            },
    {
        match self.cached_module(name) {
            Some(m) => Ok(m),
            None => Err(Error::new(ErrorKind::StdModuleNotFound { name: name.clone() }, span)),
        }
    }

    /// A file module: served from the cache under the first of its
    /// candidate paths that is cached, else `ModuleFileNotFound`.
    pub fn eval_file_module(&self, path: &String, span: Span) -> (res: Result<Object<'a>, Error>)
        ensures
            match cached_from(self.modules@, import_candidates(self.path, self.working_dir@, path@).0, 0) {
                Some(m) => res == Ok::<Object<'a>, Error>(m),
                None => match cached_from(self.modules@, import_candidates(self.path, self.working_dir@, path@).1, 0) {
                    Some(m) => res == Ok::<Object<'a>, Error>(m),
                    None => res matches Err(e) && e.kind == (ErrorKind::ModuleFileNotFound { path: *path }) && e.span == span,
                },
            },
    {
        let (first, second) = self.resolve_import_path(path);
        match self.cached_module(&first) {
            Some(m) => Ok(m),
            None => match self.cached_module(&second) {
                Some(m) => Ok(m),
                None => Err(Error::new(ErrorKind::ModuleFileNotFound { path: path.clone() }, span)),
            },
        }
    }
}

} // verus!
