//! A lighter scope analysis: like the checker, it records for every
//! identifier that names a local binding the number of scopes between its
//! use and its binding, but it knows fewer forms of statement and
//! expression. Declarations of enums, structs and types, `for` loops, struct
//! construction, `this` and `?` resolve nothing.

use crate::analysis::checker::{
    all_defined, check_arms, check_body, check_expr, check_exprs, check_function, check_pairs, check_patterns, check_stmt,
    check_stmts,
    define_binding, define_in, define_items, define_params, enter, initial_view, innermost, leave, record_use, CheckView,
};
use crate::ast::{
    Binding, DestructureItem, Expression, ExpressionKind, FunctionBody, MatchArm, Parameter, Pattern, Statement,
    StatementKind,
};
use crate::error::{Error, ErrorKind};
use crate::maps::{
    hashed_distance_entries, hashed_distances_clone, hashed_distances_insert, hashed_distances_new,
    hashed_flag_entries, hashed_flags_get, hashed_flags_insert, hashed_flags_new,
};
use crate::span::Span;
use ahash::AHashMap;
use vstd::prelude::*;

verus! {

/// The resolution of one expression.
pub open spec fn resolve_expr(v: CheckView, e: Expression) -> CheckView
    decreases e, 0nat,
{
    match e.kind {
        ExpressionKind::Identifier(name) => record_use(v, (e.span.start, e.span.end), name@),
        ExpressionKind::Assignment { left, right, .. } => resolve_expr(resolve_expr(v, *right), *left),
        ExpressionKind::Update { argument, .. } => resolve_expr(v, *argument),
        ExpressionKind::Binary { left, right, .. } => resolve_expr(resolve_expr(v, *left), *right),
        ExpressionKind::Unary { right, .. } => resolve_expr(v, *right),
        ExpressionKind::Call { function, arguments } => resolve_exprs(resolve_expr(v, *function), arguments@, 0),
        ExpressionKind::Member { object, property } => resolve_expr(resolve_expr(v, *object), *property),
        ExpressionKind::Index { object, index } => resolve_expr(resolve_expr(v, *object), *index),
        ExpressionKind::If { condition, then_branch, else_branch } => {
            let after = resolve_expr(resolve_expr(v, *condition), *then_branch);
            match else_branch {
                Some(other) => resolve_expr(after, *other),
                None => after,
            }
        },
        ExpressionKind::Match { subject, arms } => resolve_arms(resolve_expr(v, *subject), arms@, 0),
        ExpressionKind::Block(block) => leave(resolve_stmts(enter(v), block.statements@, 0)),
        ExpressionKind::Fn { parameters, body, .. } => resolve_function(v, parameters@, body),
        ExpressionKind::Collection { elements } => resolve_exprs(v, elements@, 0),
        ExpressionKind::Typed { expr, .. } => resolve_expr(v, *expr),
        ExpressionKind::Object { properties } => resolve_pairs(v, properties@, 0),
        _ => v,
    }
}

/// The resolution of `es[i..]` in order.
pub open spec fn resolve_exprs(v: CheckView, es: Seq<Expression>, i: int) -> CheckView
    decreases es, (es.len() - i) as nat,
{
    if 0 <= i < es.len() {
        resolve_exprs(resolve_expr(v, es[i]), es, i + 1)
    } else {
        v
    }
}

/// The resolution of the key-value pairs `ps[i..]`, key before value.
pub open spec fn resolve_pairs(v: CheckView, ps: Seq<(Expression, Expression)>, i: int) -> CheckView
    decreases ps, (ps.len() - i) as nat,
{
    if 0 <= i < ps.len() {
        resolve_pairs(resolve_expr(resolve_expr(v, ps[i].0), ps[i].1), ps, i + 1)
    } else {
        v
    }
}

/// The resolution of the patterns `ps[i..]` of an arm.
pub open spec fn resolve_patterns(v: CheckView, ps: Seq<Pattern>, i: int) -> CheckView
    decreases ps, (ps.len() - i) as nat,
{
    if 0 <= i < ps.len() {
        let next = match ps[i] {
            Pattern::Expression(e) => resolve_expr(v, e),
            Pattern::Range(start, end) => resolve_expr(resolve_expr(v, start), end),
            Pattern::Else => v,
        };
        resolve_patterns(next, ps, i + 1)
    } else {
        v
    }
}

/// The resolution of the arms `arms[i..]`: each arm's patterns, then its body
/// in a scope of its own.
pub open spec fn resolve_arms(v: CheckView, arms: Seq<MatchArm>, i: int) -> CheckView
    decreases arms, (arms.len() - i) as nat,
{
    if 0 <= i < arms.len() {
        let after_patterns = resolve_patterns(v, arms[i].patterns@, 0);
        resolve_arms(leave(resolve_body(enter(after_patterns), arms[i].body)), arms, i + 1)
    } else {
        v
    }
}

/// The resolution of a function or arm body, in the current scope.
pub open spec fn resolve_body(v: CheckView, body: FunctionBody) -> CheckView
    decreases body, 0nat,
{
    match body {
        FunctionBody::Block(block) => resolve_stmts(v, block.statements@, 0),
        FunctionBody::Expression(e) => resolve_expr(v, *e),
    }
}

/// A function: in a new scope, its parameters are defined and its body analysed.
pub open spec fn resolve_function(v: CheckView, params: Seq<Parameter>, body: FunctionBody) -> CheckView
    decreases body, 1nat,
{
    leave(resolve_body(define_params(enter(v), params, 0), body))
}

/// The resolution of the statements `ss[i..]` in order.
pub open spec fn resolve_stmts(v: CheckView, ss: Seq<Statement>, i: int) -> CheckView
    decreases ss, (ss.len() - i) as nat,
{
    if 0 <= i < ss.len() {
        resolve_stmts(resolve_stmt(v, ss[i]), ss, i + 1)
    } else {
        v
    }
}

/// The resolution of one statement.
pub open spec fn resolve_stmt(v: CheckView, s: Statement) -> CheckView
    decreases s, 0nat,
{
    match s.kind {
        StatementKind::Expression { expression } => resolve_expr(v, expression),
        StatementKind::Let { name, value, .. } => define_binding(resolve_expr(v, value), name),
        StatementKind::Const { binding, value, .. } => define_binding(resolve_expr(v, value), binding),
        StatementKind::Fn { name, parameters, body, .. } => resolve_function(define_in(v, name@), parameters@, body),
        StatementKind::Return { value } => match value {
            Some(e) => resolve_expr(v, *e),
            None => v,
        },
        StatementKind::While { condition, body } => resolve_stmts(resolve_expr(v, condition), body.statements@, 0),
        StatementKind::Test { body, .. } => leave(resolve_stmts(enter(v), body.statements@, 0)),
        _ => v,
    }
}


/// An expression that holds none of the forms the resolver does not know:
/// no struct construction and no `?`, at any depth.
pub open spec fn plain_expr(e: Expression) -> bool
    decreases e, 0nat,
{
    match e.kind {
        ExpressionKind::StructConstruction { .. } => false,
        ExpressionKind::Try(_) => false,
        ExpressionKind::Assignment { left, right, .. } => plain_expr(*right) && plain_expr(*left),
        ExpressionKind::Update { argument, .. } => plain_expr(*argument),
        ExpressionKind::Binary { left, right, .. } => plain_expr(*left) && plain_expr(*right),
        ExpressionKind::Unary { right, .. } => plain_expr(*right),
        ExpressionKind::Call { function, arguments } => plain_expr(*function) && plain_exprs(arguments@, 0),
        ExpressionKind::Member { object, property } => plain_expr(*object) && plain_expr(*property),
        ExpressionKind::Index { object, index } => plain_expr(*object) && plain_expr(*index),
        ExpressionKind::If { condition, then_branch, else_branch } => plain_expr(*condition) && plain_expr(*then_branch)
            && match else_branch {
            Some(other) => plain_expr(*other),
            None => true,
        },
        ExpressionKind::Match { subject, arms } => plain_expr(*subject) && plain_arms(arms@, 0),
        ExpressionKind::Block(block) => plain_stmts(block.statements@, 0),
        ExpressionKind::Fn { body, .. } => plain_body(body),
        ExpressionKind::Collection { elements } => plain_exprs(elements@, 0),
        ExpressionKind::Typed { expr, .. } => plain_expr(*expr),
        ExpressionKind::Object { properties } => plain_pairs(properties@, 0),
        _ => true,
    }
}

/// `plain_expr` of `es[i..]`.
pub open spec fn plain_exprs(es: Seq<Expression>, i: int) -> bool
    decreases es, (es.len() - i) as nat,
{
    if 0 <= i < es.len() {
        plain_expr(es[i]) && plain_exprs(es, i + 1)
    } else {
        true
    }
}

/// `plain_expr` of the keys and values of `ps[i..]`.
pub open spec fn plain_pairs(ps: Seq<(Expression, Expression)>, i: int) -> bool
    decreases ps, (ps.len() - i) as nat,
{
    if 0 <= i < ps.len() {
        plain_expr(ps[i].0) && plain_expr(ps[i].1) && plain_pairs(ps, i + 1)
    } else {
        true
    }
}

/// `plain_expr` of the expressions of the patterns `ps[i..]`.
pub open spec fn plain_patterns(ps: Seq<Pattern>, i: int) -> bool
    decreases ps, (ps.len() - i) as nat,
{
    if 0 <= i < ps.len() {
        (match ps[i] {
            Pattern::Expression(e) => plain_expr(e),
            Pattern::Range(start, end) => plain_expr(start) && plain_expr(end),
            Pattern::Else => true,
        }) && plain_patterns(ps, i + 1)
    } else {
        true
    }
}

/// The patterns and bodies of `arms[i..]` are plain.
pub open spec fn plain_arms(arms: Seq<MatchArm>, i: int) -> bool
    decreases arms, (arms.len() - i) as nat,
{
    if 0 <= i < arms.len() {
        plain_patterns(arms[i].patterns@, 0) && plain_body(arms[i].body) && plain_arms(arms, i + 1)
    } else {
        true
    }
}

/// A function or arm body that is plain.
pub open spec fn plain_body(body: FunctionBody) -> bool
    decreases body, 0nat,
{
    match body {
        FunctionBody::Block(block) => plain_stmts(block.statements@, 0),
        FunctionBody::Expression(e) => plain_expr(*e),
    }
}

/// `plain_stmt` of `ss[i..]`.
pub open spec fn plain_stmts(ss: Seq<Statement>, i: int) -> bool
    decreases ss, (ss.len() - i) as nat,
{
    if 0 <= i < ss.len() {
        plain_stmt(ss[i]) && plain_stmts(ss, i + 1)
    } else {
        true
    }
}

/// A statement that is no enum, struct or type declaration and no `for`
/// loop, and whose parts are plain.
pub open spec fn plain_stmt(s: Statement) -> bool
    decreases s, 0nat,
{
    match s.kind {
        StatementKind::Expression { expression } => plain_expr(expression),
        StatementKind::Let { value, .. } => plain_expr(value),
        StatementKind::Const { value, .. } => plain_expr(value),
        StatementKind::Fn { body, .. } => plain_body(body),
        StatementKind::Return { value } => match value {
            Some(e) => plain_expr(*e),
            None => true,
        },
        StatementKind::While { condition, body } => plain_expr(condition) && plain_stmts(body.statements@, 0),
        StatementKind::Test { body, .. } => plain_stmts(body.statements@, 0),
        StatementKind::Break => true,
        StatementKind::Continue => true,
        _ => false,
    }
}

/// On a plain expression the resolver and the checker record the same
/// distances and leave the same scopes.
pub proof fn lemma_resolve_expr_agrees(v: CheckView, e: Expression)
    requires
        plain_expr(e),
    ensures
        resolve_expr(v, e) == check_expr(v, e),
    decreases e, 0nat,
{
    match e.kind {
        ExpressionKind::Assignment { left, right, .. } => {
            lemma_resolve_expr_agrees(v, *right);
            lemma_resolve_expr_agrees(check_expr(v, *right), *left);
        },
        ExpressionKind::Update { argument, .. } => lemma_resolve_expr_agrees(v, *argument),
        ExpressionKind::Binary { left, right, .. } => {
            lemma_resolve_expr_agrees(v, *left);
            lemma_resolve_expr_agrees(check_expr(v, *left), *right);
        },
        ExpressionKind::Unary { right, .. } => lemma_resolve_expr_agrees(v, *right),
        ExpressionKind::Call { function, arguments } => {
            lemma_resolve_expr_agrees(v, *function);
            lemma_resolve_exprs_agree(check_expr(v, *function), arguments@, 0);
        },
        ExpressionKind::Member { object, property } => {
            lemma_resolve_expr_agrees(v, *object);
            lemma_resolve_expr_agrees(check_expr(v, *object), *property);
        },
        ExpressionKind::Index { object, index } => {
            lemma_resolve_expr_agrees(v, *object);
            lemma_resolve_expr_agrees(check_expr(v, *object), *index);
        },
        ExpressionKind::If { condition, then_branch, else_branch } => {
            lemma_resolve_expr_agrees(v, *condition);
            lemma_resolve_expr_agrees(check_expr(v, *condition), *then_branch);
            match else_branch {
                Some(other) => lemma_resolve_expr_agrees(check_expr(check_expr(v, *condition), *then_branch), *other),
                None => {},
            }
        },
        ExpressionKind::Match { subject, arms } => {
            lemma_resolve_expr_agrees(v, *subject);
            lemma_resolve_arms_agree(check_expr(v, *subject), arms@, 0);
        },
        ExpressionKind::Block(block) => lemma_resolve_stmts_agree(enter(v), block.statements@, 0),
        ExpressionKind::Fn { parameters, body, .. } => {
            lemma_resolve_body_agrees(define_params(enter(v), parameters@, 0), body);
            assert(resolve_function(v, parameters@, body) == leave(resolve_body(define_params(enter(v), parameters@, 0), body)));
            assert(check_function(v, parameters@, body) == leave(check_body(define_params(enter(v), parameters@, 0), body)));
        },
        ExpressionKind::Collection { elements } => lemma_resolve_exprs_agree(v, elements@, 0),
        ExpressionKind::Typed { expr, .. } => lemma_resolve_expr_agrees(v, *expr),
        ExpressionKind::Object { properties } => lemma_resolve_pairs_agree(v, properties@, 0),
        _ => {},
    }
}

/// `lemma_resolve_expr_agrees` for `es[i..]`.
pub proof fn lemma_resolve_exprs_agree(v: CheckView, es: Seq<Expression>, i: int)
    requires
        plain_exprs(es, i),
    ensures
        resolve_exprs(v, es, i) == check_exprs(v, es, i),
    decreases es, (es.len() - i) as nat,
{
    if 0 <= i < es.len() {
        lemma_resolve_expr_agrees(v, es[i]);
        lemma_resolve_exprs_agree(check_expr(v, es[i]), es, i + 1);
    }
}

/// `lemma_resolve_expr_agrees` for the pairs `ps[i..]`.
pub proof fn lemma_resolve_pairs_agree(v: CheckView, ps: Seq<(Expression, Expression)>, i: int)
    requires
        plain_pairs(ps, i),
    ensures
        resolve_pairs(v, ps, i) == check_pairs(v, ps, i),
    decreases ps, (ps.len() - i) as nat,
{
    if 0 <= i < ps.len() {
        lemma_resolve_expr_agrees(v, ps[i].0);
        lemma_resolve_expr_agrees(check_expr(v, ps[i].0), ps[i].1);
        lemma_resolve_pairs_agree(check_expr(check_expr(v, ps[i].0), ps[i].1), ps, i + 1);
    }
}

/// `lemma_resolve_expr_agrees` for the patterns `ps[i..]`.
pub proof fn lemma_resolve_patterns_agree(v: CheckView, ps: Seq<Pattern>, i: int)
    requires
        plain_patterns(ps, i),
    ensures
        resolve_patterns(v, ps, i) == check_patterns(v, ps, i),
    decreases ps, (ps.len() - i) as nat,
{
    if 0 <= i < ps.len() {
        let next = match ps[i] {
            Pattern::Expression(e) => {
                lemma_resolve_expr_agrees(v, e);
                check_expr(v, e)
            },
            Pattern::Range(start, end) => {
                lemma_resolve_expr_agrees(v, start);
                lemma_resolve_expr_agrees(check_expr(v, start), end);
                check_expr(check_expr(v, start), end)
            },
            Pattern::Else => v,
        };
        lemma_resolve_patterns_agree(next, ps, i + 1);
    }
}

/// `lemma_resolve_expr_agrees` for the arms `arms[i..]`.
pub proof fn lemma_resolve_arms_agree(v: CheckView, arms: Seq<MatchArm>, i: int)
    requires
        plain_arms(arms, i),
    ensures
        resolve_arms(v, arms, i) == check_arms(v, arms, i),
    decreases arms, (arms.len() - i) as nat,
{
    if 0 <= i < arms.len() {
        lemma_resolve_patterns_agree(v, arms[i].patterns@, 0);
        let after = check_patterns(v, arms[i].patterns@, 0);
        lemma_resolve_body_agrees(enter(after), arms[i].body);
        lemma_resolve_arms_agree(leave(check_body(enter(after), arms[i].body)), arms, i + 1);
    }
}

/// `lemma_resolve_expr_agrees` for a body.
pub proof fn lemma_resolve_body_agrees(v: CheckView, body: FunctionBody)
    requires
        plain_body(body),
    ensures
        resolve_body(v, body) == check_body(v, body),
    decreases body, 0nat,
{
    match body {
        FunctionBody::Block(block) => lemma_resolve_stmts_agree(v, block.statements@, 0),
        FunctionBody::Expression(e) => lemma_resolve_expr_agrees(v, *e),
    }
}

/// `lemma_resolve_stmt_agrees` for `ss[i..]`.
pub proof fn lemma_resolve_stmts_agree(v: CheckView, ss: Seq<Statement>, i: int)
    requires
        plain_stmts(ss, i),
    ensures
        resolve_stmts(v, ss, i) == check_stmts(v, ss, i),
    decreases ss, (ss.len() - i) as nat,
{
    if 0 <= i < ss.len() {
        lemma_resolve_stmt_agrees(v, ss[i]);
        lemma_resolve_stmts_agree(check_stmt(v, ss[i]), ss, i + 1);
    }
}

/// On a plain statement the resolver and the checker agree.
pub proof fn lemma_resolve_stmt_agrees(v: CheckView, s: Statement)
    requires
        plain_stmt(s),
    ensures
        resolve_stmt(v, s) == check_stmt(v, s),
    decreases s, 0nat,
{
    match s.kind {
        StatementKind::Expression { expression } => lemma_resolve_expr_agrees(v, expression),
        StatementKind::Let { value, .. } => lemma_resolve_expr_agrees(v, value),
        StatementKind::Const { value, .. } => lemma_resolve_expr_agrees(v, value),
        StatementKind::Fn { name, parameters, body, .. } => lemma_resolve_body_agrees(
            define_params(enter(define_in(v, name@)), parameters@, 0),
            body,
        ),
        StatementKind::Return { value } => match value {
            Some(e) => lemma_resolve_expr_agrees(v, *e),
            None => {},
        },
        StatementKind::While { condition, body } => {
            lemma_resolve_expr_agrees(v, condition);
            lemma_resolve_stmts_agree(check_expr(v, condition), body.statements@, 0);
        },
        StatementKind::Test { body, .. } => lemma_resolve_stmts_agree(enter(v), body.statements@, 0),
        _ => {},
    }
}

/// On a program made only of the forms the resolver knows, it computes the
/// checker's table of distances, from any starting scopes.
pub proof fn lemma_resolver_agrees_with_checker(v: CheckView, program: Seq<Statement>)
    requires
        plain_stmts(program, 0),
    ensures
        resolve_stmts(v, program, 0) == check_stmts(v, program, 0),
{
    lemma_resolve_stmts_agree(v, program, 0);
}

/// The resolver: a stack of block scopes, each mapping a declared name to
/// whether its definition is complete, and the table of resolved distances.
pub struct Resolver {
    scopes: Vec<AHashMap<String, bool>>,
    locals: AHashMap<(usize, usize), usize>,
}

impl Resolver {
    /// The scopes and resolutions of this resolver.
    pub closed spec fn view(&self) -> CheckView {
        CheckView {
            scopes: self.scopes@.map_values(|m: AHashMap<String, bool>| hashed_flag_entries(m)),
            locals: hashed_distance_entries(self.locals),
        }
    }

    /// A resolver with one empty (global) scope and no resolutions.
    pub fn new() -> (r: Resolver)
        ensures
            r.view().scopes == seq![Map::<Seq<char>, bool>::empty()],
            r.view().locals == Map::<(usize, usize), usize>::empty(),
            all_defined(r.view()),
    {
        let mut scopes: Vec<AHashMap<String, bool>> = Vec::new();
        scopes.push(hashed_flags_new());
        let r = Resolver { scopes, locals: hashed_distances_new() };
        assert(r.view().scopes =~= seq![Map::<Seq<char>, bool>::empty()]);
        r
    }

    /// Resolves a program's statements in order and returns the table of
    /// resolved distances. Resolution always succeeds: a name is never read
    /// while it is declared but not yet defined.
    pub fn resolve(&mut self, statements: &Vec<Statement>) -> (res: Result<AHashMap<(usize, usize), usize>, Error>)
        requires
            all_defined(old(self).view()),
        ensures
            final(self).view() == resolve_stmts(old(self).view(), statements@, 0),
            all_defined(final(self).view()),
            res matches Ok(locals) && hashed_distance_entries(locals) == final(self).view().locals,
    {
        let r = self.resolve_statements(statements);
        match r {
            Ok(()) => {},
            Err(e) => {
                return Err(e);
            },
        }
        Ok(hashed_distances_clone(&self.locals))
    }

    /// Marks `name` declared, not yet defined, in the innermost scope.
    fn declare(&mut self, name: String)
        ensures
            final(self).view().locals == old(self).view().locals,
            old(self).view().scopes.len() > 0 ==> final(self).view().scopes == old(self).view().scopes.update(
                old(self).view().scopes.len() - 1,
                old(self).view().scopes.last().insert(name@, false),
            ),
            old(self).view().scopes.len() == 0 ==> final(self).view() == old(self).view(),
    {
        let n = self.scopes.len();
        if n > 0 {
            let ghost v0 = self.view();
            let mut last = self.scopes.pop().unwrap();
            hashed_flags_insert(&mut last, name, false);
            self.scopes.push(last);
            assert(self.view().scopes =~= v0.scopes.update(v0.scopes.len() - 1, v0.scopes.last().insert(name@, false)));
        }
    }

    /// Marks `name` defined in the innermost scope.
    fn define(&mut self, name: String)
        ensures
            final(self).view() == define_in(old(self).view(), name@),
    {
        let n = self.scopes.len();
        if n > 0 {
            let ghost v0 = self.view();
            let mut last = self.scopes.pop().unwrap();
            hashed_flags_insert(&mut last, name, true);
            self.scopes.push(last);
            assert(self.view().scopes =~= v0.scopes.update(v0.scopes.len() - 1, v0.scopes.last().insert(name@, true)));
        }
    }

    /// Declares and then defines `name`: the name ends up defined.
    fn bind(&mut self, name: &String)
        ensures
            final(self).view() == define_in(old(self).view(), name@),
            all_defined(old(self).view()) ==> all_defined(final(self).view()),
    {
        let ghost v0 = self.view();
        self.declare(name.clone());
        self.define(name.clone());
        proof {
            if v0.scopes.len() > 0 {
                let last = v0.scopes.last();
                assert(last.insert(name@, false).insert(name@, true) =~= last.insert(name@, true));
                assert(self.view().scopes =~= define_in(v0, name@).scopes);
                if all_defined(v0) {
                    assert forall|i: int, k: Seq<char>|
                        0 <= i < self.view().scopes.len() && #[trigger] self.view().scopes[i].contains_key(k)
                        implies self.view().scopes[i][k] by {
                        if i < v0.scopes.len() - 1 {
                            assert(self.view().scopes[i] == v0.scopes[i]);
                        }
                    }
                }
            }
        }
    }

    /// Opens a new, empty innermost scope.
    fn begin_scope(&mut self)
        ensures
            final(self).view() == enter(old(self).view()),
            all_defined(old(self).view()) ==> all_defined(final(self).view()),
    {
        let ghost v0 = self.view();
        self.scopes.push(hashed_flags_new());
        assert(self.view().scopes =~= v0.scopes.push(Map::empty()));
    }

    /// Closes the innermost scope.
    fn end_scope(&mut self)
        ensures
            final(self).view() == leave(old(self).view()),
            all_defined(old(self).view()) ==> all_defined(final(self).view()),
    {
        let ghost v0 = self.view();
        if self.scopes.len() > 0 {
            self.scopes.pop();
            assert(self.view().scopes =~= v0.scopes.drop_last());
        }
    }

    /// Records the distance to the innermost scope that binds `name`, if any.
    fn resolve_local(&mut self, span: Span, name: &String)
        ensures
            final(self).view() == record_use(old(self).view(), (span.start, span.end), name@),
            all_defined(old(self).view()) ==> all_defined(final(self).view()),
    {
        let ghost v0 = self.view();
        let n = self.scopes.len();
        let mut j = n;
        while j > 0
            invariant
                j <= n,
                n == self.scopes.len(),
                self.view() == v0,
                v0 == old(self).view(),
                innermost(v0.scopes, name@, n as int) == innermost(v0.scopes, name@, j as int),
            decreases j,
        {
            let found = hashed_flags_get(&self.scopes[j - 1], name);
            assert(v0.scopes[j - 1] == hashed_flag_entries(self.scopes@[j - 1]));
            if found.is_some() {
                assert(v0.scopes[j - 1].contains_key(name@));
                assert(innermost(v0.scopes, name@, j as int) == Some(j as int - 1));
                hashed_distances_insert(&mut self.locals, span.key(), n - 1 - (j - 1));
                assert(self.view().scopes =~= v0.scopes);
                return;
            }
            j = j - 1;
        }
    }

    fn define_items(&mut self, items: &Vec<DestructureItem>)
        ensures
            final(self).view() == define_items(old(self).view(), items@, 0),
            all_defined(old(self).view()) ==> all_defined(final(self).view()),
    {
        let mut i: usize = 0;
        while i < items.len()
            invariant
                i <= items.len(),
                define_items(old(self).view(), items@, 0) == define_items(self.view(), items@, i as int),
                all_defined(old(self).view()) ==> all_defined(self.view()),
            decreases items.len() - i,
        {
            self.bind(&items[i].name);
            i += 1;
        }
    }

    fn define_binding(&mut self, binding: &Binding)
        ensures
            final(self).view() == define_binding(old(self).view(), *binding),
            all_defined(old(self).view()) ==> all_defined(final(self).view()),
    {
        match binding {
            Binding::Identifier(name) => self.bind(name),
            Binding::Destructure(items) => self.define_items(items),
            Binding::ModuleAndDestructure { alias, items } => {
                self.bind(alias);
                self.define_items(items);
            },
        }
    }

    fn define_params(&mut self, params: &Vec<Parameter>)
        ensures
            final(self).view() == define_params(old(self).view(), params@, 0),
            all_defined(old(self).view()) ==> all_defined(final(self).view()),
    {
        let mut i: usize = 0;
        while i < params.len()
            invariant
                i <= params.len(),
                define_params(old(self).view(), params@, 0) == define_params(self.view(), params@, i as int),
                all_defined(old(self).view()) ==> all_defined(self.view()),
            decreases params.len() - i,
        {
            self.bind(&params[i].name);
            i += 1;
        }
    }

    fn resolve_statements(&mut self, statements: &Vec<Statement>) -> (res: Result<(), Error>)
        requires
            all_defined(old(self).view()),
        ensures
            res is Ok,
            final(self).view() == resolve_stmts(old(self).view(), statements@, 0),
            all_defined(final(self).view()),
        decreases statements, 1nat,
    {
        let mut i: usize = 0;
        while i < statements.len()
            invariant
                i <= statements.len(),
                resolve_stmts(old(self).view(), statements@, 0) == resolve_stmts(self.view(), statements@, i as int),
                all_defined(self.view()),
            decreases statements.len() - i,
        {
            let r = self.resolve_statement(&statements[i]);
            i += 1;
        }
        Ok(())
    }

    fn resolve_expressions(&mut self, expressions: &Vec<Expression>) -> (res: Result<(), Error>)
        requires
            all_defined(old(self).view()),
        ensures
            res is Ok,
            final(self).view() == resolve_exprs(old(self).view(), expressions@, 0),
            all_defined(final(self).view()),
        decreases expressions, 1nat,
    {
        let mut i: usize = 0;
        while i < expressions.len()
            invariant
                i <= expressions.len(),
                resolve_exprs(old(self).view(), expressions@, 0) == resolve_exprs(self.view(), expressions@, i as int),
                all_defined(self.view()),
            decreases expressions.len() - i,
        {
            let r = self.resolve_expression(&expressions[i]);
            i += 1;
        }
        Ok(())
    }

    fn resolve_pairs(&mut self, pairs: &Vec<(Expression, Expression)>) -> (res: Result<(), Error>)
        requires
            all_defined(old(self).view()),
        ensures
            res is Ok,
            final(self).view() == resolve_pairs(old(self).view(), pairs@, 0),
            all_defined(final(self).view()),
        decreases pairs, 1nat,
    {
        let mut i: usize = 0;
        while i < pairs.len()
            invariant
                i <= pairs.len(),
                resolve_pairs(old(self).view(), pairs@, 0) == resolve_pairs(self.view(), pairs@, i as int),
                all_defined(self.view()),
            decreases pairs.len() - i,
        {
            let r = self.resolve_expression(&pairs[i].0);
            let r = self.resolve_expression(&pairs[i].1);
            i += 1;
        }
        Ok(())
    }

    fn resolve_patterns(&mut self, patterns: &Vec<Pattern>) -> (res: Result<(), Error>)
        requires
            all_defined(old(self).view()),
        ensures
            res is Ok,
            final(self).view() == resolve_patterns(old(self).view(), patterns@, 0),
            all_defined(final(self).view()),
        decreases patterns, 1nat,
    {
        let mut i: usize = 0;
        while i < patterns.len()
            invariant
                i <= patterns.len(),
                resolve_patterns(old(self).view(), patterns@, 0) == resolve_patterns(self.view(), patterns@, i as int),
                all_defined(self.view()),
            decreases patterns.len() - i,
        {
            match &patterns[i] {
                Pattern::Expression(e) => {
                    let r = self.resolve_expression(e);
                },
                Pattern::Range(start, end) => {
                    let r = self.resolve_expression(start);
                    let r = self.resolve_expression(end);
                },
                Pattern::Else => {},
            }
            i += 1;
        }
        Ok(())
    }

    fn resolve_arms(&mut self, arms: &Vec<MatchArm>) -> (res: Result<(), Error>)
        requires
            all_defined(old(self).view()),
        ensures
            res is Ok,
            final(self).view() == resolve_arms(old(self).view(), arms@, 0),
            all_defined(final(self).view()),
        decreases arms, 1nat,
    {
        let mut i: usize = 0;
        while i < arms.len()
            invariant
                i <= arms.len(),
                resolve_arms(old(self).view(), arms@, 0) == resolve_arms(self.view(), arms@, i as int),
                all_defined(self.view()),
            decreases arms.len() - i,
        {
            let r = self.resolve_patterns(&arms[i].patterns);
            self.begin_scope();
            let r = self.resolve_body(&arms[i].body);
            self.end_scope();
            i += 1;
        }
        Ok(())
    }

    fn resolve_body(&mut self, body: &FunctionBody) -> (res: Result<(), Error>)
        requires
            all_defined(old(self).view()),
        ensures
            res is Ok,
            final(self).view() == resolve_body(old(self).view(), *body),
            all_defined(final(self).view()),
        decreases body, 0nat,
    {
        match body {
            FunctionBody::Block(block) => self.resolve_statements(&block.statements),
            FunctionBody::Expression(e) => self.resolve_expression(e),
        }
    }

    fn resolve_function(&mut self, parameters: &Vec<Parameter>, body: &FunctionBody) -> (res: Result<(), Error>)
        requires
            all_defined(old(self).view()),
        ensures
            res is Ok,
            final(self).view() == resolve_function(old(self).view(), parameters@, *body),
            all_defined(final(self).view()),
        decreases body, 1nat,
    {
        self.begin_scope();
        self.define_params(parameters);
        let r = self.resolve_body(body);
        self.end_scope();
        Ok(())
    }

    fn resolve_statement(&mut self, statement: &Statement) -> (res: Result<(), Error>)
        requires
            all_defined(old(self).view()),
        ensures
            res is Ok,
            final(self).view() == resolve_stmt(old(self).view(), *statement),
            all_defined(final(self).view()),
        decreases statement, 0nat,
    {
        match &statement.kind {
            StatementKind::Expression { expression } => {
                let r = self.resolve_expression(expression);
            },
            StatementKind::Let { name, value, .. } => {
                let r = self.resolve_expression(value);
                self.define_binding(name);
            },
            StatementKind::Const { binding, value, .. } => {
                let r = self.resolve_expression(value);
                self.define_binding(binding);
            },
            StatementKind::Fn { name, parameters, body, .. } => {
                self.bind(name);
                let r = self.resolve_function(parameters, body);
            },
            StatementKind::Return { value } => {
                match value {
                    Some(e) => {
                        let r = self.resolve_expression(e);
                    },
                    None => {},
                }
            },
            StatementKind::While { condition, body } => {
                let r = self.resolve_expression(condition);
                // The body of a while loop runs in the enclosing scope.
                let r = self.resolve_statements(&body.statements);
            },
            StatementKind::Test { body, .. } => {
                self.begin_scope();
                let r = self.resolve_statements(&body.statements);
                self.end_scope();
            },
            _ => {},
        }
        Ok(())
    }

    fn resolve_expression(&mut self, expression: &Expression) -> (res: Result<(), Error>)
        requires
            all_defined(old(self).view()),
        ensures
            res is Ok,
            final(self).view() == resolve_expr(old(self).view(), *expression),
            all_defined(final(self).view()),
        decreases expression, 0nat,
    {
        match &expression.kind {
            ExpressionKind::Identifier(name) => {
                let n = self.scopes.len();
                if n > 0 {
                    let flag = hashed_flags_get(&self.scopes[n - 1], name);
                    if flag == Some(false) {
                        assert(self.view().scopes[n - 1] == hashed_flag_entries(self.scopes@[n - 1]));
                        return Err(Error::new(ErrorKind::OwnInitializer, expression.span));
                    }
                }
                self.resolve_local(expression.span, name);
            },
            ExpressionKind::Assignment { left, right, .. } => {
                let r = self.resolve_expression(right);
                let r = self.resolve_expression(left);
            },
            ExpressionKind::Update { argument, .. } => {
                let r = self.resolve_expression(argument);
            },
            ExpressionKind::Binary { left, right, .. } => {
                let r = self.resolve_expression(left);
                let r = self.resolve_expression(right);
            },
            ExpressionKind::Unary { right, .. } => {
                let r = self.resolve_expression(right);
            },
            ExpressionKind::Call { function, arguments } => {
                let r = self.resolve_expression(function);
                let r = self.resolve_expressions(arguments);
            },
            ExpressionKind::Member { object, property } => {
                let r = self.resolve_expression(object);
                let r = self.resolve_expression(property);
            },
            ExpressionKind::Index { object, index } => {
                let r = self.resolve_expression(object);
                let r = self.resolve_expression(index);
            },
            ExpressionKind::If { condition, then_branch, else_branch } => {
                let r = self.resolve_expression(condition);
                let r = self.resolve_expression(then_branch);
                match else_branch {
                    Some(other) => {
                        let r = self.resolve_expression(other);
                    },
                    None => {},
                }
            },
            ExpressionKind::Match { subject, arms } => {
                let r = self.resolve_expression(subject);
                let r = self.resolve_arms(arms);
            },
            ExpressionKind::Block(block) => {
                self.begin_scope();
                let r = self.resolve_statements(&block.statements);
                self.end_scope();
            },
            ExpressionKind::Fn { parameters, body, .. } => {
                let r = self.resolve_function(parameters, body);
            },
            ExpressionKind::Collection { elements } => {
                let r = self.resolve_expressions(elements);
            },
            ExpressionKind::Typed { expr, .. } => {
                let r = self.resolve_expression(expr);
            },
            ExpressionKind::Object { properties } => {
                let r = self.resolve_pairs(properties);
            },
            _ => {},
        }
        Ok(())
    }
}

impl Default for Resolver {
    /// A new resolver, as `Resolver::new` makes it.
    fn default() -> (r: Resolver)
        ensures
            r.view() == initial_view(),
    {
        let r = Resolver::new();
        assert(r.view().scopes =~= initial_view().scopes);
        r
    }
}

} // verus!
