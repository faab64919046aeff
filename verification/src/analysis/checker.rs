//! Static scope analysis: for every identifier that names a local binding,
//! the number of scopes between its use and the scope that binds it.

use crate::ast::{
    Binding, DestructureItem, Expression, ExpressionKind, FunctionBody, Iteration, MatchArm,
    Parameter, Pattern, Statement, StatementBlock, StatementKind, StructField, StructMethod,
};
use crate::error::{Error, ErrorKind};
use crate::maps::{
    distance_entries, distances_clone, distances_insert, distances_new, flag_entries, flags_get,
    flags_insert, flags_new,
};
use crate::span::Span;
use indexmap::IndexMap;
use vstd::prelude::*;

verus! {

/// What the checker knows: its block scopes, innermost last, and the
/// distances resolved so far, keyed by the span of each identifier.
pub struct CheckView {
    pub scopes: Seq<Map<Seq<char>, bool>>,
    pub locals: Map<(usize, usize), usize>,
}

/// Marks `name` as defined in the innermost scope, if there is one.
pub open spec fn define_in(v: CheckView, name: Seq<char>) -> CheckView {
    if v.scopes.len() > 0 {
        CheckView {
            scopes: v.scopes.update(v.scopes.len() - 1, v.scopes.last().insert(name, true)),
            locals: v.locals,
        }
    } else {
        v
    }
}

/// Opens a new, empty innermost scope.
pub open spec fn enter(v: CheckView) -> CheckView {
    CheckView { scopes: v.scopes.push(Map::empty()), locals: v.locals }
}

/// Closes the innermost scope, if there is one.
pub open spec fn leave(v: CheckView) -> CheckView {
    if v.scopes.len() > 0 {
        CheckView { scopes: v.scopes.drop_last(), locals: v.locals }
    } else {
        v
    }
}

/// The index of the innermost of the first `j` scopes that binds `name`.
pub open spec fn innermost(scopes: Seq<Map<Seq<char>, bool>>, name: Seq<char>, j: int) -> Option<int>
    decreases j,
{
    if j <= 0 {
        None
    } else if scopes[j - 1].contains_key(name) {
        Some(j - 1)
    } else {
        innermost(scopes, name, j - 1)
    }
}

/// Records, for a use of `name` at `key`, the distance to the innermost
/// scope that binds it; a name bound in no scope is left unrecorded.
pub open spec fn record_use(v: CheckView, key: (usize, usize), name: Seq<char>) -> CheckView {
    match innermost(v.scopes, name, v.scopes.len() as int) {
        Some(i) => CheckView {
            scopes: v.scopes,
            locals: v.locals.insert(key, (v.scopes.len() - 1 - i) as usize),
        },
        None => v,
    }
}

/// Defines the names that a `let` or `const` binding introduces: a module
/// alias first, then each destructured name (not its renaming).
pub open spec fn define_binding(v: CheckView, b: Binding) -> CheckView {
    match b {
        Binding::Identifier(name) => define_in(v, name@),
        Binding::Destructure(items) => define_items(v, items@, 0),
        Binding::ModuleAndDestructure { alias, items } => define_items(define_in(v, alias@), items@, 0),
    }
}

/// Defines the names of `items[i..]` in order.
pub open spec fn define_items(v: CheckView, items: Seq<DestructureItem>, i: int) -> CheckView
    decreases items.len() - i,
{
    if 0 <= i < items.len() {
        define_items(define_in(v, items[i].name@), items, i + 1)
    } else {
        v
    }
}

/// Defines the names of `params[i..]` in order.
pub open spec fn define_params(v: CheckView, params: Seq<Parameter>, i: int) -> CheckView
    decreases params.len() - i,
{
    if 0 <= i < params.len() {
        define_params(define_in(v, params[i].name@), params, i + 1)
    } else {
        v
    }
}

/// Defines every name of a `for` binding, depth first.
pub open spec fn define_iteration(v: CheckView, b: Iteration) -> CheckView
    decreases b, 0nat,
{
    match b {
        Iteration::Identifier(name) => define_in(v, name@),
        Iteration::Array(bs) => define_iterations(v, bs@, 0),
    }
}

/// Defines the names of the bindings `bs[i..]` in order.
pub open spec fn define_iterations(v: CheckView, bs: Seq<Iteration>, i: int) -> CheckView
    decreases bs, (bs.len() - i) as nat,
{
    if 0 <= i < bs.len() {
        define_iterations(define_iteration(v, bs[i]), bs, i + 1)
    } else {
        v
    }
}

/// The analysis of one expression.
pub open spec fn check_expr(v: CheckView, e: Expression) -> CheckView
    decreases e, 0nat,
{
    match e.kind {
        ExpressionKind::Identifier(name) => record_use(v, (e.span.start, e.span.end), name@),
        ExpressionKind::Assignment { left, right, .. } => check_expr(check_expr(v, *right), *left),
        ExpressionKind::Update { argument, .. } => check_expr(v, *argument),
        ExpressionKind::Binary { left, right, .. } => check_expr(check_expr(v, *left), *right),
        ExpressionKind::Unary { right, .. } => check_expr(v, *right),
        ExpressionKind::Call { function, arguments } => check_exprs(check_expr(v, *function), arguments@, 0),
        ExpressionKind::Member { object, property } => check_expr(check_expr(v, *object), *property),
        ExpressionKind::Index { object, index } => check_expr(check_expr(v, *object), *index),
        ExpressionKind::If { condition, then_branch, else_branch } => {
            let after = check_expr(check_expr(v, *condition), *then_branch);
            match else_branch {
                Some(other) => check_expr(after, *other),
                None => after,
            }
        },
        ExpressionKind::Match { subject, arms } => check_arms(check_expr(v, *subject), arms@, 0),
        ExpressionKind::Block(block) => leave(check_stmts(enter(v), block.statements@, 0)),
        ExpressionKind::Fn { parameters, body, .. } => check_function(v, parameters@, body),
        ExpressionKind::Collection { elements } => check_exprs(v, elements@, 0),
        ExpressionKind::Typed { expr, .. } => check_expr(v, *expr),
        ExpressionKind::Object { properties } => check_pairs(v, properties@, 0),
        ExpressionKind::StructConstruction { properties } => check_pairs(v, properties@, 0),
        ExpressionKind::Try(inner) => check_expr(v, *inner),
        _ => v,
    }
}

/// The analysis of `es[i..]` in order.
pub open spec fn check_exprs(v: CheckView, es: Seq<Expression>, i: int) -> CheckView
    decreases es, (es.len() - i) as nat,
{
    if 0 <= i < es.len() {
        check_exprs(check_expr(v, es[i]), es, i + 1)
    } else {
        v
    }
}

/// The analysis of the key-value pairs `ps[i..]`, key before value.
pub open spec fn check_pairs(v: CheckView, ps: Seq<(Expression, Expression)>, i: int) -> CheckView
    decreases ps, (ps.len() - i) as nat,
{
    if 0 <= i < ps.len() {
        check_pairs(check_expr(check_expr(v, ps[i].0), ps[i].1), ps, i + 1)
    } else {
        v
    }
}

/// The analysis of the patterns `ps[i..]` of an arm.
pub open spec fn check_patterns(v: CheckView, ps: Seq<Pattern>, i: int) -> CheckView
    decreases ps, (ps.len() - i) as nat,
{
    if 0 <= i < ps.len() {
        let next = match ps[i] {
            Pattern::Expression(e) => check_expr(v, e),
            Pattern::Range(start, end) => check_expr(check_expr(v, start), end),
            Pattern::Else => v,
        };
        check_patterns(next, ps, i + 1)
    } else {
        v
    }
}

/// The analysis of the arms `arms[i..]`: each arm's patterns, then its body
/// in a scope of its own.
pub open spec fn check_arms(v: CheckView, arms: Seq<MatchArm>, i: int) -> CheckView
    decreases arms, (arms.len() - i) as nat,
{
    if 0 <= i < arms.len() {
        let after_patterns = check_patterns(v, arms[i].patterns@, 0);
        check_arms(leave(check_body(enter(after_patterns), arms[i].body)), arms, i + 1)
    } else {
        v
    }
}

/// The analysis of a function or arm body, in the current scope.
pub open spec fn check_body(v: CheckView, body: FunctionBody) -> CheckView
    decreases body, 0nat,
{
    match body {
        FunctionBody::Block(block) => check_stmts(v, block.statements@, 0),
        FunctionBody::Expression(e) => check_expr(v, *e),
    }
}

/// A function: in a new scope, its parameters are defined and its body analysed.
pub open spec fn check_function(v: CheckView, params: Seq<Parameter>, body: FunctionBody) -> CheckView
    decreases body, 1nat,
{
    leave(check_body(define_params(enter(v), params, 0), body))
}

/// The analysis of the statements `ss[i..]` in order.
pub open spec fn check_stmts(v: CheckView, ss: Seq<Statement>, i: int) -> CheckView
    decreases ss, (ss.len() - i) as nat,
{
    if 0 <= i < ss.len() {
        check_stmts(check_stmt(v, ss[i]), ss, i + 1)
    } else {
        v
    }
}

/// The analysis of the default values of `fields[i..]`.
pub open spec fn check_field_defaults(v: CheckView, fields: Seq<StructField>, i: int) -> CheckView
    decreases fields, (fields.len() - i) as nat,
{
    if 0 <= i < fields.len() {
        let next = match fields[i].default {
            Some(e) => check_expr(v, e),
            None => v,
        };
        check_field_defaults(next, fields, i + 1)
    } else {
        v
    }
}

/// The analysis of the methods `methods[i..]`, each as a function.
pub open spec fn check_methods(v: CheckView, methods: Seq<StructMethod>, i: int) -> CheckView
    decreases methods, (methods.len() - i) as nat,
{
    if 0 <= i < methods.len() {
        check_methods(check_function(v, methods[i].parameters@, methods[i].body), methods, i + 1)
    } else {
        v
    }
}

/// The analysis of one statement.
pub open spec fn check_stmt(v: CheckView, s: Statement) -> CheckView
    decreases s, 0nat,
{
    match s.kind {
        StatementKind::Expression { expression } => check_expr(v, expression),
        StatementKind::Let { name, value, .. } => define_binding(check_expr(v, value), name),
        StatementKind::Const { binding, value, .. } => define_binding(check_expr(v, value), binding),
        StatementKind::Fn { name, parameters, body, .. } => check_function(define_in(v, name@), parameters@, body),
        StatementKind::Enum { name, .. } => define_in(v, name@),
        StatementKind::Type { name, .. } => define_in(v, name@),
        StatementKind::Struct { name, fields, methods, .. } => {
            check_methods(check_field_defaults(define_in(v, name@), fields@, 0), methods@, 0)
        },
        StatementKind::Return { value } => match value {
            Some(e) => check_expr(v, *e),
            None => v,
        },
        StatementKind::While { condition, body } => check_stmts(check_expr(v, condition), body.statements@, 0),
        StatementKind::For { binding, iterable, body } => {
            leave(check_stmts(define_iteration(enter(check_expr(v, iterable)), binding), body.statements@, 0))
        },
        StatementKind::Test { body, .. } => leave(check_stmts(enter(v), body.statements@, 0)),
        StatementKind::Break => v,
        StatementKind::Continue => v,
    }
}

/// The view of a new checker: one empty scope, nothing resolved.
pub open spec fn initial_view() -> CheckView {
    CheckView { scopes: seq![Map::<Seq<char>, bool>::empty()], locals: Map::<(usize, usize), usize>::empty() }
}

/// Every name in every scope is marked defined.
pub open spec fn all_defined(v: CheckView) -> bool {
    forall|i: int, k: Seq<char>|
        0 <= i < v.scopes.len() && #[trigger] v.scopes[i].contains_key(k) ==> v.scopes[i][k]
}

/// The static checker. It keeps a stack of block scopes and the table of
/// resolved distances that the interpreter uses for fast variable access.
pub struct Checker {
    scopes: Vec<IndexMap<String, bool>>,
    locals: IndexMap<(usize, usize), usize>,
}

impl Checker {
    /// The scopes and resolutions of this checker.
    pub closed spec fn view(&self) -> CheckView {
        CheckView {
            scopes: self.scopes@.map_values(|m: IndexMap<String, bool>| flag_entries(m)),
            locals: distance_entries(self.locals),
        }
    }

    /// A checker with one empty (global) scope and no resolutions.
    pub fn new() -> (c: Checker)
        ensures
            c.view().scopes == seq![Map::<Seq<char>, bool>::empty()],
            c.view().locals == Map::<(usize, usize), usize>::empty(),
            all_defined(c.view()),
    {
        let mut scopes: Vec<IndexMap<String, bool>> = Vec::new();
        scopes.push(flags_new());
        let c = Checker { scopes, locals: distances_new() };
        assert(c.view().scopes =~= seq![Map::<Seq<char>, bool>::empty()]);
        c
    }

    /// Analyses a program's statements in order and returns the table of
    /// resolved distances. The analysis always succeeds.
    pub fn check(&mut self, statements: &Vec<Statement>) -> (res: Result<IndexMap<(usize, usize), usize>, Error>)
        requires
            all_defined(old(self).view()),
        ensures
            final(self).view() == check_stmts(old(self).view(), statements@, 0),
            all_defined(final(self).view()),
            res matches Ok(locals) && distance_entries(locals) == final(self).view().locals,
    {
        let r = self.check_statements(statements);
        match r {
            Ok(()) => {},
            Err(e) => { return Err(e); },
        }
        Ok(distances_clone(&self.locals))
    }

    fn define_var(&mut self, name: String)
        ensures
            final(self).view() == define_in(old(self).view(), name@),
            all_defined(old(self).view()) ==> all_defined(final(self).view()),
    {
        let n = self.scopes.len();
        if n > 0 {
            let ghost v0 = self.view();
            let mut last = self.scopes.pop().unwrap();
            flags_insert(&mut last, name, true);
            self.scopes.push(last);
            assert(self.view().scopes =~= v0.scopes.update(v0.scopes.len() - 1, v0.scopes.last().insert(name@, true)));
            proof {
                if all_defined(v0) {
                    assert forall|i: int, k: Seq<char>|
                        0 <= i < self.view().scopes.len() && #[trigger] self.view().scopes[i].contains_key(k)
                        implies self.view().scopes[i][k] by {
                        if i < n - 1 {
                            assert(self.view().scopes[i] == v0.scopes[i]);
                        }
                    }
                }
            }
        }
    }

    fn begin_scope(&mut self)
        ensures
            final(self).view() == enter(old(self).view()),
            all_defined(old(self).view()) ==> all_defined(final(self).view()),
    {
        let ghost v0 = self.view();
        self.scopes.push(flags_new());
        assert(self.view().scopes =~= v0.scopes.push(Map::empty()));
    }

    fn end_scope(&mut self)
        ensures
            final(self).view() == leave(old(self).view()),
            all_defined(old(self).view()) ==> all_defined(final(self).view()),
    {
        let ghost v0 = self.view();
        if self.scopes.len() > 0 {
            self.scopes.pop();
            assert(self.view().scopes =~= v0.scopes.drop_last());
        }
    }

    fn check_local(&mut self, span: Span, name: &String)
        ensures
            final(self).view() == record_use(old(self).view(), (span.start, span.end), name@),
            all_defined(old(self).view()) ==> all_defined(final(self).view()),
    {
        let ghost v0 = self.view();
        let n = self.scopes.len();
        let mut j = n;
        while j > 0
            invariant
                j <= n,
                n == self.scopes.len(),
                self.view() == v0,
                v0 == old(self).view(),
                innermost(v0.scopes, name@, n as int) == innermost(v0.scopes, name@, j as int),
            decreases j,
        {
            let found = flags_get(&self.scopes[j - 1], name);
            assert(v0.scopes[j - 1] == flag_entries(self.scopes@[j - 1]));
            if found.is_some() {
                assert(v0.scopes[j - 1].contains_key(name@));
                assert(innermost(v0.scopes, name@, j as int) == Some(j as int - 1));
                distances_insert(&mut self.locals, span.key(), n - 1 - (j - 1));
                assert(self.view().scopes =~= v0.scopes);
                return;
            }
            j = j - 1;
        }
    }

    fn define_items(&mut self, items: &Vec<DestructureItem>)
        ensures
            final(self).view() == define_items(old(self).view(), items@, 0),
            all_defined(old(self).view()) ==> all_defined(final(self).view()),
    {
        let mut i: usize = 0;
        while i < items.len()
            invariant
                i <= items.len(),
                define_items(old(self).view(), items@, 0) == define_items(self.view(), items@, i as int),
                all_defined(old(self).view()) ==> all_defined(self.view()),
            decreases items.len() - i,
        {
            self.define_var(items[i].name.clone());
            i += 1;
        }
    }

    fn define_binding(&mut self, binding: &Binding)
        ensures
            final(self).view() == define_binding(old(self).view(), *binding),
            all_defined(old(self).view()) ==> all_defined(final(self).view()),
    {
        match binding {
            Binding::Identifier(name) => self.define_var(name.clone()),
            Binding::Destructure(items) => self.define_items(items),
            Binding::ModuleAndDestructure { alias, items } => {
                self.define_var(alias.clone());
                self.define_items(items);
            },
        }
    }

    fn define_params(&mut self, params: &Vec<Parameter>)
        ensures
            final(self).view() == define_params(old(self).view(), params@, 0),
            all_defined(old(self).view()) ==> all_defined(final(self).view()),
    {
        let mut i: usize = 0;
        while i < params.len()
            invariant
                i <= params.len(),
                define_params(old(self).view(), params@, 0) == define_params(self.view(), params@, i as int),
                all_defined(old(self).view()) ==> all_defined(self.view()),
            decreases params.len() - i,
        {
            self.define_var(params[i].name.clone());
            i += 1;
        }
    }

    fn declare_for_binding(&mut self, binding: &Iteration)
        ensures
            final(self).view() == define_iteration(old(self).view(), *binding),
            all_defined(old(self).view()) ==> all_defined(final(self).view()),
        decreases binding, 0nat,
    {
        match binding {
            Iteration::Identifier(name) => self.define_var(name.clone()),
            Iteration::Array(bindings) => self.declare_for_bindings(bindings),
        }
    }

    fn declare_for_bindings(&mut self, bindings: &Vec<Iteration>)
        ensures
            final(self).view() == define_iterations(old(self).view(), bindings@, 0),
            all_defined(old(self).view()) ==> all_defined(final(self).view()),
        decreases bindings, 1nat,
    {
        let mut i: usize = 0;
        while i < bindings.len()
            invariant
                i <= bindings.len(),
                define_iterations(old(self).view(), bindings@, 0) == define_iterations(self.view(), bindings@, i as int),
                all_defined(old(self).view()) ==> all_defined(self.view()),
            decreases bindings.len() - i,
        {
            self.declare_for_binding(&bindings[i]);
            i += 1;
        }
    }

    fn check_statements(&mut self, statements: &Vec<Statement>) -> (res: Result<(), Error>)
        requires
            all_defined(old(self).view()),
        ensures
            res is Ok,
            final(self).view() == check_stmts(old(self).view(), statements@, 0),
            all_defined(final(self).view()),
        decreases statements, 1nat,
    {
        let mut i: usize = 0;
        while i < statements.len()
            invariant
                i <= statements.len(),
                check_stmts(old(self).view(), statements@, 0) == check_stmts(self.view(), statements@, i as int),
                all_defined(self.view()),
            decreases statements.len() - i,
        {
            let r = self.check_statement(&statements[i]);
            i += 1;
        }
        Ok(())
    }

    /// The statements of a block, in the current scope.
    fn check_block_content(&mut self, block: &StatementBlock) -> (res: Result<(), Error>)
        requires
            all_defined(old(self).view()),
        ensures
            res is Ok,
            final(self).view() == check_stmts(old(self).view(), block.statements@, 0),
            all_defined(final(self).view()),
        decreases block, 2nat,
    {
        self.check_statements(&block.statements)
    }

    /// The statements of a block, in a scope of their own.
    fn check_block(&mut self, block: &StatementBlock) -> (res: Result<(), Error>)
        requires
            all_defined(old(self).view()),
        ensures
            res is Ok,
            final(self).view() == leave(check_stmts(enter(old(self).view()), block.statements@, 0)),
            all_defined(final(self).view()),
        decreases block, 3nat,
    {
        self.begin_scope();
        let r = self.check_block_content(block);
        self.end_scope();
        Ok(())
    }

    fn check_expressions(&mut self, expressions: &Vec<Expression>) -> (res: Result<(), Error>)
        requires
            all_defined(old(self).view()),
        ensures
            res is Ok,
            final(self).view() == check_exprs(old(self).view(), expressions@, 0),
            all_defined(final(self).view()),
        decreases expressions, 1nat,
    {
        let mut i: usize = 0;
        while i < expressions.len()
            invariant
                i <= expressions.len(),
                check_exprs(old(self).view(), expressions@, 0) == check_exprs(self.view(), expressions@, i as int),
                all_defined(self.view()),
            decreases expressions.len() - i,
        {
            let r = self.check_expression(&expressions[i]);
            i += 1;
        }
        Ok(())
    }

    fn check_pairs(&mut self, pairs: &Vec<(Expression, Expression)>) -> (res: Result<(), Error>)
        requires
            all_defined(old(self).view()),
        ensures
            res is Ok,
            final(self).view() == check_pairs(old(self).view(), pairs@, 0),
            all_defined(final(self).view()),
        decreases pairs, 1nat,
    {
        let mut i: usize = 0;
        while i < pairs.len()
            invariant
                i <= pairs.len(),
                check_pairs(old(self).view(), pairs@, 0) == check_pairs(self.view(), pairs@, i as int),
                all_defined(self.view()),
            decreases pairs.len() - i,
        {
            let r = self.check_expression(&pairs[i].0);
            let r = self.check_expression(&pairs[i].1);
            i += 1;
        }
        Ok(())
    }

    fn check_patterns(&mut self, patterns: &Vec<Pattern>) -> (res: Result<(), Error>)
        requires
            all_defined(old(self).view()),
        ensures
            res is Ok,
            final(self).view() == check_patterns(old(self).view(), patterns@, 0),
            all_defined(final(self).view()),
        decreases patterns, 1nat,
    {
        let mut i: usize = 0;
        while i < patterns.len()
            invariant
                i <= patterns.len(),
                check_patterns(old(self).view(), patterns@, 0) == check_patterns(self.view(), patterns@, i as int),
                all_defined(self.view()),
            decreases patterns.len() - i,
        {
            match &patterns[i] {
                Pattern::Expression(e) => {
                    let r = self.check_expression(e);
                },
                Pattern::Range(start, end) => {
                    let r = self.check_expression(start);
                    let r = self.check_expression(end);
                },
                Pattern::Else => {},
            }
            i += 1;
        }
        Ok(())
    }

    fn check_arms(&mut self, arms: &Vec<MatchArm>) -> (res: Result<(), Error>)
        requires
            all_defined(old(self).view()),
        ensures
            res is Ok,
            final(self).view() == check_arms(old(self).view(), arms@, 0),
            all_defined(final(self).view()),
        decreases arms, 1nat,
    {
        let mut i: usize = 0;
        while i < arms.len()
            invariant
                i <= arms.len(),
                check_arms(old(self).view(), arms@, 0) == check_arms(self.view(), arms@, i as int),
                all_defined(self.view()),
            decreases arms.len() - i,
        {
            let r = self.check_patterns(&arms[i].patterns);
            self.begin_scope();
            let r = self.check_body(&arms[i].body);
            self.end_scope();
            i += 1;
        }
        Ok(())
    }

    fn check_body(&mut self, body: &FunctionBody) -> (res: Result<(), Error>)
        requires
            all_defined(old(self).view()),
        ensures
            res is Ok,
            final(self).view() == check_body(old(self).view(), *body),
            all_defined(final(self).view()),
        decreases body, 0nat,
    {
        match body {
            FunctionBody::Block(block) => self.check_statements(&block.statements),
            FunctionBody::Expression(e) => self.check_expression(e),
        }
    }

    fn check_function(&mut self, parameters: &Vec<Parameter>, body: &FunctionBody) -> (res: Result<(), Error>)
        requires
            all_defined(old(self).view()),
        ensures
            res is Ok,
            final(self).view() == check_function(old(self).view(), parameters@, *body),
            all_defined(final(self).view()),
        decreases body, 1nat,
    {
        self.begin_scope();
        self.define_params(parameters);
        let r = self.check_body(body);
        self.end_scope();
        Ok(())
    }

    fn check_field_defaults(&mut self, fields: &Vec<StructField>) -> (res: Result<(), Error>)
        requires
            all_defined(old(self).view()),
        ensures
            res is Ok,
            final(self).view() == check_field_defaults(old(self).view(), fields@, 0),
            all_defined(final(self).view()),
        decreases fields, 1nat,
    {
        let mut i: usize = 0;
        while i < fields.len()
            invariant
                i <= fields.len(),
                check_field_defaults(old(self).view(), fields@, 0) == check_field_defaults(self.view(), fields@, i as int),
                all_defined(self.view()),
            decreases fields.len() - i,
        {
            match &fields[i].default {
                Some(default) => {
                    let r = self.check_expression(default);
                },
                None => {},
            }
            i += 1;
        }
        Ok(())
    }

    fn check_methods(&mut self, methods: &Vec<StructMethod>) -> (res: Result<(), Error>)
        requires
            all_defined(old(self).view()),
        ensures
            res is Ok,
            final(self).view() == check_methods(old(self).view(), methods@, 0),
            all_defined(final(self).view()),
        decreases methods, 1nat,
    {
        let mut i: usize = 0;
        while i < methods.len()
            invariant
                i <= methods.len(),
                check_methods(old(self).view(), methods@, 0) == check_methods(self.view(), methods@, i as int),
                all_defined(self.view()),
            decreases methods.len() - i,
        {
            let r = self.check_function(&methods[i].parameters, &methods[i].body);
            i += 1;
        }
        Ok(())
    }

    fn check_statement(&mut self, statement: &Statement) -> (res: Result<(), Error>)
        requires
            all_defined(old(self).view()),
        ensures
            res is Ok,
            final(self).view() == check_stmt(old(self).view(), *statement),
            all_defined(final(self).view()),
        decreases statement, 0nat,
    {
        match &statement.kind {
            StatementKind::Expression { expression } => {
                let r = self.check_expression(expression);
            },
            StatementKind::Let { name, value, .. } => {
                let r = self.check_expression(value);
                self.define_binding(name);
            },
            StatementKind::Const { binding, value, .. } => {
                let r = self.check_expression(value);
                self.define_binding(binding);
            },
            StatementKind::Fn { name, parameters, body, .. } => {
                self.define_var(name.clone());
                let r = self.check_function(parameters, body);
            },
            StatementKind::Enum { name, .. } => self.define_var(name.clone()),
            StatementKind::Type { name, .. } => self.define_var(name.clone()),
            StatementKind::Struct { name, fields, methods, .. } => {
                self.define_var(name.clone());
                let r = self.check_field_defaults(fields);
                let r = self.check_methods(methods);
            },
            StatementKind::Return { value } => {
                match value {
                    Some(e) => {
                        let r = self.check_expression(e);
                    },
                    None => {},
                }
            },
            StatementKind::While { condition, body } => {
                let r = self.check_expression(condition);
                // The body of a while loop runs in the enclosing scope.
                let r = self.check_block_content(body);
            },
            StatementKind::For { binding, iterable, body } => {
                let r = self.check_expression(iterable);
                self.begin_scope();
                self.declare_for_binding(binding);
                let r = self.check_statements(&body.statements);
                self.end_scope();
            },
            StatementKind::Test { body, .. } => {
                let r = self.check_block(body);
            },
            StatementKind::Break => {},
            StatementKind::Continue => {},
        }
        Ok(())
    }

    fn check_expression(&mut self, expression: &Expression) -> (res: Result<(), Error>)
        requires
            all_defined(old(self).view()),
        ensures
            res is Ok,
            final(self).view() == check_expr(old(self).view(), *expression),
            all_defined(final(self).view()),
        decreases expression, 0nat,
    {
        match &expression.kind {
            ExpressionKind::Identifier(name) => {
                let n = self.scopes.len();
                if n > 0 {
                    let flag = flags_get(&self.scopes[n - 1], name);
                    if flag == Some(false) {
                        assert(self.view().scopes[n - 1] == flag_entries(self.scopes@[n - 1]));
                        return Err(Error::new(ErrorKind::OwnInitializer, expression.span));
                    }
                }
                self.check_local(expression.span, name);
            },
            ExpressionKind::Assignment { left, right, .. } => {
                let r = self.check_expression(right);
                let r = self.check_expression(left);
            },
            ExpressionKind::Update { argument, .. } => {
                let r = self.check_expression(argument);
            },
            ExpressionKind::Binary { left, right, .. } => {
                let r = self.check_expression(left);
                let r = self.check_expression(right);
            },
            ExpressionKind::Unary { right, .. } => {
                let r = self.check_expression(right);
            },
            ExpressionKind::Call { function, arguments } => {
                let r = self.check_expression(function);
                let r = self.check_expressions(arguments);
            },
            ExpressionKind::Member { object, property } => {
                let r = self.check_expression(object);
                let r = self.check_expression(property);
            },
            ExpressionKind::Index { object, index } => {
                let r = self.check_expression(object);
                let r = self.check_expression(index);
            },
            ExpressionKind::If { condition, then_branch, else_branch } => {
                let r = self.check_expression(condition);
                let r = self.check_expression(then_branch);
                match else_branch {
                    Some(other) => {
                        let r = self.check_expression(other);
                    },
                    None => {},
                }
            },
            ExpressionKind::Match { subject, arms } => {
                let r = self.check_expression(subject);
                let r = self.check_arms(arms);
            },
            ExpressionKind::Block(block) => {
                let r = self.check_block(block);
            },
            ExpressionKind::Fn { parameters, body, .. } => {
                let r = self.check_function(parameters, body);
            },
            ExpressionKind::Collection { elements } => {
                let r = self.check_expressions(elements);
            },
            ExpressionKind::Typed { expr, .. } => {
                let r = self.check_expression(expr);
            },
            ExpressionKind::Object { properties } => {
                let r = self.check_pairs(properties);
            },
            ExpressionKind::StructConstruction { properties } => {
                let r = self.check_pairs(properties);
            },
            ExpressionKind::Try(inner) => {
                let r = self.check_expression(inner);
            },
            _ => {},
        }
        Ok(())
    }
}

impl Default for Checker {
    /// A new checker, as `Checker::new` makes it.
    fn default() -> (c: Checker)
        ensures
            c.view() == initial_view(),
    {
        let c = Checker::new();
        assert(c.view().scopes =~= initial_view().scopes);
        c
    }
}

} // verus!
