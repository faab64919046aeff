//! What the scope analysis keeps: the checker and the resolver close every
//! scope they open, so that an expression leaves the block scopes as they
//! were and a statement changes only the innermost one.

use crate::analysis::checker::{
    check_arms, check_body, check_expr, check_exprs, check_field_defaults, check_function, check_methods, check_pairs,
    check_patterns, check_stmt, check_stmts, define_binding, innermost, define_in, define_items, define_iteration,
    define_iterations, define_params, enter, leave, CheckView,
};
use crate::analysis::resolver::{
    resolve_arms, resolve_body, resolve_expr, resolve_exprs, resolve_function, resolve_pairs, resolve_patterns,
    resolve_stmt, resolve_stmts,
};
use crate::ast::{
    Binding, DestructureItem, Expression, ExpressionKind, FunctionBody, Iteration, MatchArm, Parameter, Pattern, Statement,
    StatementKind, StructField, StructMethod,
};
use vstd::prelude::*;

verus! {

/// Whether two scope stacks have the same number of scopes and agree on
/// all but the innermost.
pub open spec fn same_outer(a: Seq<Map<Seq<char>, bool>>, b: Seq<Map<Seq<char>, bool>>) -> bool {
    a.len() == b.len() && a.drop_last() == b.drop_last()
}

/// Whether every identifier use that `a` has a distance for still has one
/// in `b`: an analysis only adds resolutions.
pub open spec fn keeps_keys(a: CheckView, b: CheckView) -> bool {
    a.locals.dom().subset_of(b.locals.dom())
}

/// Defining a name touches only the innermost scope.
pub proof fn lemma_define_in_outer(v: CheckView, n: Seq<char>)
    requires
        v.scopes.len() > 0,
    ensures
        same_outer(define_in(v, n).scopes, v.scopes),
        define_in(v, n).locals == v.locals,
{
    assert(define_in(v, n).scopes.drop_last() =~= v.scopes.drop_last());
}

/// As `lemma_define_in_outer`, for the names of `items[i..]`.
pub proof fn lemma_define_items_outer(v: CheckView, items: Seq<DestructureItem>, i: int)
    requires
        v.scopes.len() > 0,
    ensures
        same_outer(define_items(v, items, i).scopes, v.scopes),
        define_items(v, items, i).locals == v.locals,
    decreases items.len() - i,
{
    if 0 <= i < items.len() {
        lemma_define_in_outer(v, items[i].name@);
        lemma_define_items_outer(define_in(v, items[i].name@), items, i + 1);
    }
}

/// As `lemma_define_in_outer`, for the parameters `params[i..]`.
pub proof fn lemma_define_params_outer(v: CheckView, params: Seq<Parameter>, i: int)
    requires
        v.scopes.len() > 0,
    ensures
        same_outer(define_params(v, params, i).scopes, v.scopes),
        define_params(v, params, i).locals == v.locals,
    decreases params.len() - i,
{
    if 0 <= i < params.len() {
        lemma_define_in_outer(v, params[i].name@);
        lemma_define_params_outer(define_in(v, params[i].name@), params, i + 1);
    }
}

/// As `lemma_define_in_outer`, for the names of a `let` or `const`.
pub proof fn lemma_define_binding_outer(v: CheckView, b: Binding)
    requires
        v.scopes.len() > 0,
    ensures
        same_outer(define_binding(v, b).scopes, v.scopes),
        define_binding(v, b).locals == v.locals,
{
    match b {
        Binding::Identifier(name) => lemma_define_in_outer(v, name@),
        Binding::Destructure(items) => lemma_define_items_outer(v, items@, 0),
        Binding::ModuleAndDestructure { alias, items } => {
            lemma_define_in_outer(v, alias@);
            lemma_define_items_outer(define_in(v, alias@), items@, 0);
        },
    }
}

/// As `lemma_define_in_outer`, for the names of a `for` binding.
pub proof fn lemma_define_iteration_outer(v: CheckView, b: Iteration)
    requires
        v.scopes.len() > 0,
    ensures
        same_outer(define_iteration(v, b).scopes, v.scopes),
        define_iteration(v, b).locals == v.locals,
    decreases b, 0nat,
{
    match b {
        Iteration::Identifier(name) => lemma_define_in_outer(v, name@),
        Iteration::Array(bs) => lemma_define_iterations_outer(v, bs@, 0),
    }
}

/// `lemma_define_iteration_outer` for the bindings `bs[i..]`.
pub proof fn lemma_define_iterations_outer(v: CheckView, bs: Seq<Iteration>, i: int)
    requires
        v.scopes.len() > 0,
    ensures
        same_outer(define_iterations(v, bs, i).scopes, v.scopes),
        define_iterations(v, bs, i).locals == v.locals,
    decreases bs, (bs.len() - i) as nat,
{
    if 0 <= i < bs.len() {
        lemma_define_iteration_outer(v, bs[i]);
        lemma_define_iterations_outer(define_iteration(v, bs[i]), bs, i + 1);
    }
}

/// Entering a scope and leaving it again, around an analysis that touches
/// only the innermost scope, gives back the scopes before.
pub proof fn lemma_enter_leave(v: CheckView, w: CheckView)
    requires
        same_outer(w.scopes, enter(v).scopes),
    ensures
        leave(w).scopes == v.scopes,
{
    assert(enter(v).scopes.drop_last() =~= v.scopes);
}

/// The checker's analysis of an expression leaves the block scopes as they
/// were: a block, function or match arm inside it opens a scope and closes
/// it again, and only records distances.
pub proof fn lemma_check_expr_restores_scopes(v: CheckView, e: Expression)
    requires
        v.scopes.len() > 0,
    ensures
        check_expr(v, e).scopes == v.scopes,
        keeps_keys(v, check_expr(v, e)),
    decreases e, 0nat,
{
    match e.kind {
        ExpressionKind::Assignment { left, right, .. } => {
            lemma_check_expr_restores_scopes(v, *right);
            lemma_check_expr_restores_scopes(check_expr(v, *right), *left);
        },
        ExpressionKind::Update { argument, .. } => lemma_check_expr_restores_scopes(v, *argument),
        ExpressionKind::Binary { left, right, .. } => {
            lemma_check_expr_restores_scopes(v, *left);
            lemma_check_expr_restores_scopes(check_expr(v, *left), *right);
        },
        ExpressionKind::Unary { right, .. } => lemma_check_expr_restores_scopes(v, *right),
        ExpressionKind::Call { function, arguments } => {
            lemma_check_expr_restores_scopes(v, *function);
            lemma_check_exprs_restore_scopes(check_expr(v, *function), arguments@, 0);
        },
        ExpressionKind::Member { object, property } => {
            lemma_check_expr_restores_scopes(v, *object);
            lemma_check_expr_restores_scopes(check_expr(v, *object), *property);
        },
        ExpressionKind::Index { object, index } => {
            lemma_check_expr_restores_scopes(v, *object);
            lemma_check_expr_restores_scopes(check_expr(v, *object), *index);
        },
        ExpressionKind::If { condition, then_branch, else_branch } => {
            lemma_check_expr_restores_scopes(v, *condition);
            lemma_check_expr_restores_scopes(check_expr(v, *condition), *then_branch);
            match else_branch {
                Some(other) => lemma_check_expr_restores_scopes(check_expr(check_expr(v, *condition), *then_branch), *other),
                None => {},
            }
        },
        ExpressionKind::Match { subject, arms } => {
            lemma_check_expr_restores_scopes(v, *subject);
            lemma_check_arms_restore_scopes(check_expr(v, *subject), arms@, 0);
        },
        ExpressionKind::Block(block) => {
            lemma_check_stmts_outer(enter(v), block.statements@, 0);
            lemma_enter_leave(v, check_stmts(enter(v), block.statements@, 0));
        },
        ExpressionKind::Fn { parameters, body, .. } => lemma_check_function_restores_scopes(v, parameters@, body),
        ExpressionKind::Collection { elements } => lemma_check_exprs_restore_scopes(v, elements@, 0),
        ExpressionKind::Typed { expr, .. } => lemma_check_expr_restores_scopes(v, *expr),
        ExpressionKind::Object { properties } => lemma_check_pairs_restore_scopes(v, properties@, 0),
        ExpressionKind::StructConstruction { properties } => lemma_check_pairs_restore_scopes(v, properties@, 0),
        ExpressionKind::Try(inner) => lemma_check_expr_restores_scopes(v, *inner),
        _ => {},
    }
}

/// `lemma_check_expr_restores_scopes` for `es[i..]`.
pub proof fn lemma_check_exprs_restore_scopes(v: CheckView, es: Seq<Expression>, i: int)
    requires
        v.scopes.len() > 0,
    ensures
        check_exprs(v, es, i).scopes == v.scopes,
        keeps_keys(v, check_exprs(v, es, i)),
    decreases es, (es.len() - i) as nat,
{
    if 0 <= i < es.len() {
        lemma_check_expr_restores_scopes(v, es[i]);
        lemma_check_exprs_restore_scopes(check_expr(v, es[i]), es, i + 1);
    }
}

/// `lemma_check_expr_restores_scopes` for the pairs `ps[i..]`.
pub proof fn lemma_check_pairs_restore_scopes(v: CheckView, ps: Seq<(Expression, Expression)>, i: int)
    requires
        v.scopes.len() > 0,
    ensures
        check_pairs(v, ps, i).scopes == v.scopes,
        keeps_keys(v, check_pairs(v, ps, i)),
    decreases ps, (ps.len() - i) as nat,
{
    if 0 <= i < ps.len() {
        lemma_check_expr_restores_scopes(v, ps[i].0);
        lemma_check_expr_restores_scopes(check_expr(v, ps[i].0), ps[i].1);
        lemma_check_pairs_restore_scopes(check_expr(check_expr(v, ps[i].0), ps[i].1), ps, i + 1);
    }
}

/// `lemma_check_expr_restores_scopes` for the patterns `ps[i..]`.
pub proof fn lemma_check_patterns_restore_scopes(v: CheckView, ps: Seq<Pattern>, i: int)
    requires
        v.scopes.len() > 0,
    ensures
        check_patterns(v, ps, i).scopes == v.scopes,
        keeps_keys(v, check_patterns(v, ps, i)),
    decreases ps, (ps.len() - i) as nat,
{
    if 0 <= i < ps.len() {
        let next = match ps[i] {
            Pattern::Expression(e) => {
                lemma_check_expr_restores_scopes(v, e);
                check_expr(v, e)
            },
            Pattern::Range(start, end) => {
                lemma_check_expr_restores_scopes(v, start);
                lemma_check_expr_restores_scopes(check_expr(v, start), end);
                check_expr(check_expr(v, start), end)
            },
            Pattern::Else => v,
        };
        lemma_check_patterns_restore_scopes(next, ps, i + 1);
    }
}

/// `lemma_check_expr_restores_scopes` for the arms `arms[i..]`.
pub proof fn lemma_check_arms_restore_scopes(v: CheckView, arms: Seq<MatchArm>, i: int)
    requires
        v.scopes.len() > 0,
    ensures
        check_arms(v, arms, i).scopes == v.scopes,
        keeps_keys(v, check_arms(v, arms, i)),
    decreases arms, (arms.len() - i) as nat,
{
    if 0 <= i < arms.len() {
        lemma_check_patterns_restore_scopes(v, arms[i].patterns@, 0);
        let after = check_patterns(v, arms[i].patterns@, 0);
        lemma_check_body_outer(enter(after), arms[i].body);
        lemma_enter_leave(after, check_body(enter(after), arms[i].body));
        lemma_check_arms_restore_scopes(leave(check_body(enter(after), arms[i].body)), arms, i + 1);
    }
}

/// The analysis of a body touches only the innermost scope.
pub proof fn lemma_check_body_outer(v: CheckView, body: FunctionBody)
    requires
        v.scopes.len() > 0,
    ensures
        same_outer(check_body(v, body).scopes, v.scopes),
        keeps_keys(v, check_body(v, body)),
    decreases body, 0nat,
{
    match body {
        FunctionBody::Block(block) => lemma_check_stmts_outer(v, block.statements@, 0),
        FunctionBody::Expression(e) => lemma_check_expr_restores_scopes(v, *e),
    }
}

/// The analysis of a function leaves the scopes as they were.
pub proof fn lemma_check_function_restores_scopes(v: CheckView, params: Seq<Parameter>, body: FunctionBody)
    requires
        v.scopes.len() > 0,
    ensures
        check_function(v, params, body).scopes == v.scopes,
        keeps_keys(v, check_function(v, params, body)),
    decreases body, 1nat,
{
    lemma_define_params_outer(enter(v), params, 0);
    lemma_check_body_outer(define_params(enter(v), params, 0), body);
    lemma_enter_leave(v, check_body(define_params(enter(v), params, 0), body));
}

/// `lemma_check_stmt_outer` for `ss[i..]`.
pub proof fn lemma_check_stmts_outer(v: CheckView, ss: Seq<Statement>, i: int)
    requires
        v.scopes.len() > 0,
    ensures
        same_outer(check_stmts(v, ss, i).scopes, v.scopes),
        keeps_keys(v, check_stmts(v, ss, i)),
    decreases ss, (ss.len() - i) as nat,
{
    if 0 <= i < ss.len() {
        lemma_check_stmt_outer(v, ss[i]);
        lemma_check_stmts_outer(check_stmt(v, ss[i]), ss, i + 1);
    }
}

/// The default values of `fields[i..]` leave the scopes as they were.
pub proof fn lemma_check_field_defaults_restore_scopes(v: CheckView, fields: Seq<StructField>, i: int)
    requires
        v.scopes.len() > 0,
    ensures
        check_field_defaults(v, fields, i).scopes == v.scopes,
        keeps_keys(v, check_field_defaults(v, fields, i)),
    decreases fields, (fields.len() - i) as nat,
{
    if 0 <= i < fields.len() {
        let next = match fields[i].default {
            Some(e) => {
                lemma_check_expr_restores_scopes(v, e);
                check_expr(v, e)
            },
            None => v,
        };
        lemma_check_field_defaults_restore_scopes(next, fields, i + 1);
    }
}

/// The methods `methods[i..]` leave the scopes as they were.
pub proof fn lemma_check_methods_restore_scopes(v: CheckView, methods: Seq<StructMethod>, i: int)
    requires
        v.scopes.len() > 0,
    ensures
        check_methods(v, methods, i).scopes == v.scopes,
        keeps_keys(v, check_methods(v, methods, i)),
    decreases methods, (methods.len() - i) as nat,
{
    if 0 <= i < methods.len() {
        lemma_check_function_restores_scopes(v, methods[i].parameters@, methods[i].body);
        lemma_check_methods_restore_scopes(
            check_function(v, methods[i].parameters@, methods[i].body),
            methods,
            i + 1,
        );
    }
}

/// The checker's analysis of a statement changes only the innermost scope,
/// where the statement's declarations go; every scope that a block, loop,
/// test or function inside it opens is closed again.
pub proof fn lemma_check_stmt_outer(v: CheckView, s: Statement)
    requires
        v.scopes.len() > 0,
    ensures
        same_outer(check_stmt(v, s).scopes, v.scopes),
        keeps_keys(v, check_stmt(v, s)),
    decreases s, 0nat,
{
    match s.kind {
        StatementKind::Expression { expression } => lemma_check_expr_restores_scopes(v, expression),
        StatementKind::Let { name, value, .. } => {
            lemma_check_expr_restores_scopes(v, value);
            lemma_define_binding_outer(check_expr(v, value), name);
        },
        StatementKind::Const { binding, value, .. } => {
            lemma_check_expr_restores_scopes(v, value);
            lemma_define_binding_outer(check_expr(v, value), binding);
        },
        StatementKind::Fn { name, parameters, body, .. } => {
            lemma_define_in_outer(v, name@);
            lemma_check_function_restores_scopes(define_in(v, name@), parameters@, body);
        },
        StatementKind::Enum { name, .. } => lemma_define_in_outer(v, name@),
        StatementKind::Type { name, .. } => lemma_define_in_outer(v, name@),
        StatementKind::Struct { name, fields, methods, .. } => {
            lemma_define_in_outer(v, name@);
            lemma_check_field_defaults_restore_scopes(define_in(v, name@), fields@, 0);
            lemma_check_methods_restore_scopes(check_field_defaults(define_in(v, name@), fields@, 0), methods@, 0);
        },
        StatementKind::Return { value } => match value {
            Some(e) => lemma_check_expr_restores_scopes(v, *e),
            None => {},
        },
        StatementKind::While { condition, body } => {
            lemma_check_expr_restores_scopes(v, condition);
            lemma_check_stmts_outer(check_expr(v, condition), body.statements@, 0);
        },
        StatementKind::For { binding, iterable, body } => {
            lemma_check_expr_restores_scopes(v, iterable);
            let entered = enter(check_expr(v, iterable));
            lemma_define_iteration_outer(entered, binding);
            lemma_check_stmts_outer(define_iteration(entered, binding), body.statements@, 0);
            lemma_enter_leave(check_expr(v, iterable), check_stmts(define_iteration(entered, binding), body.statements@, 0));
        },
        StatementKind::Test { body, .. } => {
            lemma_check_stmts_outer(enter(v), body.statements@, 0);
            lemma_enter_leave(v, check_stmts(enter(v), body.statements@, 0));
        },
        StatementKind::Break => {},
        StatementKind::Continue => {},
    }
}

/// The resolver's analysis of an expression leaves the block scopes as they
/// were: a block, function or match arm inside it opens a scope and closes
/// it again, and only records distances.
pub proof fn lemma_resolve_expr_restores_scopes(v: CheckView, e: Expression)
    requires
        v.scopes.len() > 0,
    ensures
        resolve_expr(v, e).scopes == v.scopes,
        keeps_keys(v, resolve_expr(v, e)),
    decreases e, 0nat,
{
    match e.kind {
        ExpressionKind::Assignment { left, right, .. } => {
            lemma_resolve_expr_restores_scopes(v, *right);
            lemma_resolve_expr_restores_scopes(resolve_expr(v, *right), *left);
        },
        ExpressionKind::Update { argument, .. } => lemma_resolve_expr_restores_scopes(v, *argument),
        ExpressionKind::Binary { left, right, .. } => {
            lemma_resolve_expr_restores_scopes(v, *left);
            lemma_resolve_expr_restores_scopes(resolve_expr(v, *left), *right);
        },
        ExpressionKind::Unary { right, .. } => lemma_resolve_expr_restores_scopes(v, *right),
        ExpressionKind::Call { function, arguments } => {
            lemma_resolve_expr_restores_scopes(v, *function);
            lemma_resolve_exprs_restore_scopes(resolve_expr(v, *function), arguments@, 0);
        },
        ExpressionKind::Member { object, property } => {
            lemma_resolve_expr_restores_scopes(v, *object);
            lemma_resolve_expr_restores_scopes(resolve_expr(v, *object), *property);
        },
        ExpressionKind::Index { object, index } => {
            lemma_resolve_expr_restores_scopes(v, *object);
            lemma_resolve_expr_restores_scopes(resolve_expr(v, *object), *index);
        },
        ExpressionKind::If { condition, then_branch, else_branch } => {
            lemma_resolve_expr_restores_scopes(v, *condition);
            lemma_resolve_expr_restores_scopes(resolve_expr(v, *condition), *then_branch);
            match else_branch {
                Some(other) => lemma_resolve_expr_restores_scopes(resolve_expr(resolve_expr(v, *condition), *then_branch), *other),
                None => {},
            }
        },
        ExpressionKind::Match { subject, arms } => {
            lemma_resolve_expr_restores_scopes(v, *subject);
            lemma_resolve_arms_restore_scopes(resolve_expr(v, *subject), arms@, 0);
        },
        ExpressionKind::Block(block) => {
            lemma_resolve_stmts_outer(enter(v), block.statements@, 0);
            lemma_enter_leave(v, resolve_stmts(enter(v), block.statements@, 0));
        },
        ExpressionKind::Fn { parameters, body, .. } => lemma_resolve_function_restores_scopes(v, parameters@, body),
        ExpressionKind::Collection { elements } => lemma_resolve_exprs_restore_scopes(v, elements@, 0),
        ExpressionKind::Typed { expr, .. } => lemma_resolve_expr_restores_scopes(v, *expr),
        ExpressionKind::Object { properties } => lemma_resolve_pairs_restore_scopes(v, properties@, 0),
        _ => {},
    }
}

/// `lemma_resolve_expr_restores_scopes` for `es[i..]`.
pub proof fn lemma_resolve_exprs_restore_scopes(v: CheckView, es: Seq<Expression>, i: int)
    requires
        v.scopes.len() > 0,
    ensures
        resolve_exprs(v, es, i).scopes == v.scopes,
        keeps_keys(v, resolve_exprs(v, es, i)),
    decreases es, (es.len() - i) as nat,
{
    if 0 <= i < es.len() {
        lemma_resolve_expr_restores_scopes(v, es[i]);
        lemma_resolve_exprs_restore_scopes(resolve_expr(v, es[i]), es, i + 1);
    }
}

/// `lemma_resolve_expr_restores_scopes` for the pairs `ps[i..]`.
pub proof fn lemma_resolve_pairs_restore_scopes(v: CheckView, ps: Seq<(Expression, Expression)>, i: int)
    requires
        v.scopes.len() > 0,
    ensures
        resolve_pairs(v, ps, i).scopes == v.scopes,
        keeps_keys(v, resolve_pairs(v, ps, i)),
    decreases ps, (ps.len() - i) as nat,
{
    if 0 <= i < ps.len() {
        lemma_resolve_expr_restores_scopes(v, ps[i].0);
        lemma_resolve_expr_restores_scopes(resolve_expr(v, ps[i].0), ps[i].1);
        lemma_resolve_pairs_restore_scopes(resolve_expr(resolve_expr(v, ps[i].0), ps[i].1), ps, i + 1);
    }
}

/// `lemma_resolve_expr_restores_scopes` for the patterns `ps[i..]`.
pub proof fn lemma_resolve_patterns_restore_scopes(v: CheckView, ps: Seq<Pattern>, i: int)
    requires
        v.scopes.len() > 0,
    ensures
        resolve_patterns(v, ps, i).scopes == v.scopes,
        keeps_keys(v, resolve_patterns(v, ps, i)),
    decreases ps, (ps.len() - i) as nat,
{
    if 0 <= i < ps.len() {
        let next = match ps[i] {
            Pattern::Expression(e) => {
                lemma_resolve_expr_restores_scopes(v, e);
                resolve_expr(v, e)
            },
            Pattern::Range(start, end) => {
                lemma_resolve_expr_restores_scopes(v, start);
                lemma_resolve_expr_restores_scopes(resolve_expr(v, start), end);
                resolve_expr(resolve_expr(v, start), end)
            },
            Pattern::Else => v,
        };
        lemma_resolve_patterns_restore_scopes(next, ps, i + 1);
    }
}

/// `lemma_resolve_expr_restores_scopes` for the arms `arms[i..]`.
pub proof fn lemma_resolve_arms_restore_scopes(v: CheckView, arms: Seq<MatchArm>, i: int)
    requires
        v.scopes.len() > 0,
    ensures
        resolve_arms(v, arms, i).scopes == v.scopes,
        keeps_keys(v, resolve_arms(v, arms, i)),
    decreases arms, (arms.len() - i) as nat,
{
    if 0 <= i < arms.len() {
        lemma_resolve_patterns_restore_scopes(v, arms[i].patterns@, 0);
        let after = resolve_patterns(v, arms[i].patterns@, 0);
        lemma_resolve_body_outer(enter(after), arms[i].body);
        lemma_enter_leave(after, resolve_body(enter(after), arms[i].body));
        lemma_resolve_arms_restore_scopes(leave(resolve_body(enter(after), arms[i].body)), arms, i + 1);
    }
}

/// The analysis of a body touches only the innermost scope.
pub proof fn lemma_resolve_body_outer(v: CheckView, body: FunctionBody)
    requires
        v.scopes.len() > 0,
    ensures
        same_outer(resolve_body(v, body).scopes, v.scopes),
        keeps_keys(v, resolve_body(v, body)),
    decreases body, 0nat,
{
    match body {
        FunctionBody::Block(block) => lemma_resolve_stmts_outer(v, block.statements@, 0),
        FunctionBody::Expression(e) => lemma_resolve_expr_restores_scopes(v, *e),
    }
}

/// The analysis of a function leaves the scopes as they were.
pub proof fn lemma_resolve_function_restores_scopes(v: CheckView, params: Seq<Parameter>, body: FunctionBody)
    requires
        v.scopes.len() > 0,
    ensures
        resolve_function(v, params, body).scopes == v.scopes,
        keeps_keys(v, resolve_function(v, params, body)),
    decreases body, 1nat,
{
    lemma_define_params_outer(enter(v), params, 0);
    lemma_resolve_body_outer(define_params(enter(v), params, 0), body);
    lemma_enter_leave(v, resolve_body(define_params(enter(v), params, 0), body));
}

/// `lemma_resolve_stmt_outer` for `ss[i..]`.
pub proof fn lemma_resolve_stmts_outer(v: CheckView, ss: Seq<Statement>, i: int)
    requires
        v.scopes.len() > 0,
    ensures
        same_outer(resolve_stmts(v, ss, i).scopes, v.scopes),
        keeps_keys(v, resolve_stmts(v, ss, i)),
    decreases ss, (ss.len() - i) as nat,
{
    if 0 <= i < ss.len() {
        lemma_resolve_stmt_outer(v, ss[i]);
        lemma_resolve_stmts_outer(resolve_stmt(v, ss[i]), ss, i + 1);
    }
}

/// The resolver's analysis of a statement changes only the innermost scope,
/// where the statement's declarations go; every scope that a block, test
/// or function inside it opens is closed again.
pub proof fn lemma_resolve_stmt_outer(v: CheckView, s: Statement)
    requires
        v.scopes.len() > 0,
    ensures
        same_outer(resolve_stmt(v, s).scopes, v.scopes),
        keeps_keys(v, resolve_stmt(v, s)),
    decreases s, 0nat,
{
    match s.kind {
        StatementKind::Expression { expression } => lemma_resolve_expr_restores_scopes(v, expression),
        StatementKind::Let { name, value, .. } => {
            lemma_resolve_expr_restores_scopes(v, value);
            lemma_define_binding_outer(resolve_expr(v, value), name);
        },
        StatementKind::Const { binding, value, .. } => {
            lemma_resolve_expr_restores_scopes(v, value);
            lemma_define_binding_outer(resolve_expr(v, value), binding);
        },
        StatementKind::Fn { name, parameters, body, .. } => {
            lemma_define_in_outer(v, name@);
            lemma_resolve_function_restores_scopes(define_in(v, name@), parameters@, body);
        },
        StatementKind::Return { value } => match value {
            Some(e) => lemma_resolve_expr_restores_scopes(v, *e),
            None => {},
        },
        StatementKind::While { condition, body } => {
            lemma_resolve_expr_restores_scopes(v, condition);
            lemma_resolve_stmts_outer(resolve_expr(v, condition), body.statements@, 0);
        },
        StatementKind::Test { body, .. } => {
            lemma_resolve_stmts_outer(enter(v), body.statements@, 0);
            lemma_enter_leave(v, resolve_stmts(enter(v), body.statements@, 0));
        },
        _ => {},
    }
}


/// Whether `e` uses the name `name` at the span `key` (as `(start, end)`)
/// in the scope it is analysed in: as an identifier, or inside an
/// assignment, update, operator, call, member access, index, condition,
/// match subject, collection, typed expression or object literal, but not
/// inside a block, function or match arm, which open scopes of their own.
pub open spec fn uses_name(e: Expression, key: (usize, usize), name: Seq<char>) -> bool
    decreases e, 0nat,
{
    match e.kind {
        ExpressionKind::Identifier(n) => (e.span.start, e.span.end) == key && n@ == name,
        ExpressionKind::Assignment { left, right, .. } => uses_name(*right, key, name) || uses_name(*left, key, name),
        ExpressionKind::Update { argument, .. } => uses_name(*argument, key, name),
        ExpressionKind::Binary { left, right, .. } => uses_name(*left, key, name) || uses_name(*right, key, name),
        ExpressionKind::Unary { right, .. } => uses_name(*right, key, name),
        ExpressionKind::Call { function, arguments } => uses_name(*function, key, name) || uses_name_in(
            arguments@,
            0,
            key,
            name,
        ),
        ExpressionKind::Member { object, property } => uses_name(*object, key, name) || uses_name(*property, key, name),
        ExpressionKind::Index { object, index } => uses_name(*object, key, name) || uses_name(*index, key, name),
        ExpressionKind::If { condition, then_branch, else_branch } => uses_name(*condition, key, name) || uses_name(
            *then_branch,
            key,
            name,
        ) || match else_branch {
            Some(other) => uses_name(*other, key, name),
            None => false,
        },
        ExpressionKind::Match { subject, .. } => uses_name(*subject, key, name),
        ExpressionKind::Collection { elements } => uses_name_in(elements@, 0, key, name),
        ExpressionKind::Typed { expr, .. } => uses_name(*expr, key, name),
        ExpressionKind::Object { properties } => uses_name_in_pairs(properties@, 0, key, name),
        _ => false,
    }
}

/// Whether one of `es[i..]` uses `name` at `key`, as `uses_name` says.
pub open spec fn uses_name_in(es: Seq<Expression>, i: int, key: (usize, usize), name: Seq<char>) -> bool
    decreases es, (es.len() - i) as nat,
{
    if 0 <= i < es.len() {
        uses_name(es[i], key, name) || uses_name_in(es, i + 1, key, name)
    } else {
        false
    }
}

/// Whether a key or value of the pairs `ps[i..]` uses `name` at `key`.
pub open spec fn uses_name_in_pairs(ps: Seq<(Expression, Expression)>, i: int, key: (usize, usize), name: Seq<char>) -> bool
    decreases ps, (ps.len() - i) as nat,
{
    if 0 <= i < ps.len() {
        uses_name(ps[i].0, key, name) || uses_name(ps[i].1, key, name) || uses_name_in_pairs(ps, i + 1, key, name)
    } else {
        false
    }
}

/// The checker records a distance for every use of a name that an enclosing
/// scope binds, wherever the use stands in the expression (see
/// `uses_name`): in an operand, an argument, an index, a member access or
/// a condition alike.
pub proof fn lemma_check_records_every_use(v: CheckView, e: Expression, key: (usize, usize), name: Seq<char>)
    requires
        v.scopes.len() > 0,
        uses_name(e, key, name),
        innermost(v.scopes, name, v.scopes.len() as int) is Some,
    ensures
        check_expr(v, e).locals.dom().contains(key),
    decreases e, 0nat,
{
    match e.kind {
        ExpressionKind::Identifier(_) => {},
        ExpressionKind::Assignment { left, right, .. } => {
            lemma_check_expr_restores_scopes(v, *right);
            if uses_name(*right, key, name) {
                lemma_check_records_every_use(v, *right, key, name);
                lemma_check_expr_restores_scopes(check_expr(v, *right), *left);
            } else {
                lemma_check_records_every_use(check_expr(v, *right), *left, key, name);
            }
        },
        ExpressionKind::Update { argument, .. } => lemma_check_records_every_use(v, *argument, key, name),
        ExpressionKind::Binary { left, right, .. } => {
            lemma_check_expr_restores_scopes(v, *left);
            if uses_name(*left, key, name) {
                lemma_check_records_every_use(v, *left, key, name);
                lemma_check_expr_restores_scopes(check_expr(v, *left), *right);
            } else {
                lemma_check_records_every_use(check_expr(v, *left), *right, key, name);
            }
        },
        ExpressionKind::Unary { right, .. } => lemma_check_records_every_use(v, *right, key, name),
        ExpressionKind::Call { function, arguments } => {
            lemma_check_expr_restores_scopes(v, *function);
            if uses_name(*function, key, name) {
                lemma_check_records_every_use(v, *function, key, name);
                lemma_check_exprs_restore_scopes(check_expr(v, *function), arguments@, 0);
            } else {
                lemma_check_expr_restores_scopes(v, *function);
                lemma_check_list_records_every_use(check_expr(v, *function), arguments@, 0, key, name);
            }
        },
        ExpressionKind::Member { object, property } => {
            lemma_check_expr_restores_scopes(v, *object);
            if uses_name(*object, key, name) {
                lemma_check_records_every_use(v, *object, key, name);
                lemma_check_expr_restores_scopes(check_expr(v, *object), *property);
            } else {
                lemma_check_records_every_use(check_expr(v, *object), *property, key, name);
            }
        },
        ExpressionKind::Index { object, index } => {
            lemma_check_expr_restores_scopes(v, *object);
            if uses_name(*object, key, name) {
                lemma_check_records_every_use(v, *object, key, name);
                lemma_check_expr_restores_scopes(check_expr(v, *object), *index);
            } else {
                lemma_check_records_every_use(check_expr(v, *object), *index, key, name);
            }
        },
        ExpressionKind::If { condition, then_branch, else_branch } => {
            lemma_check_expr_restores_scopes(v, *condition);
            lemma_check_expr_restores_scopes(check_expr(v, *condition), *then_branch);
            let after = check_expr(check_expr(v, *condition), *then_branch);
            if uses_name(*condition, key, name) {
                lemma_check_records_every_use(v, *condition, key, name);
            } else if uses_name(*then_branch, key, name) {
                lemma_check_records_every_use(check_expr(v, *condition), *then_branch, key, name);
            }
            match else_branch {
                Some(other) => {
                    lemma_check_expr_restores_scopes(after, *other);
                    if !uses_name(*condition, key, name) && !uses_name(*then_branch, key, name) {
                        lemma_check_records_every_use(after, *other, key, name);
                    }
                },
                None => {},
            }
        },
        ExpressionKind::Match { subject, arms } => {
            lemma_check_records_every_use(v, *subject, key, name);
            lemma_check_expr_restores_scopes(v, *subject);
            lemma_check_arms_restore_scopes(check_expr(v, *subject), arms@, 0);
        },
        ExpressionKind::Collection { elements } => lemma_check_list_records_every_use(v, elements@, 0, key, name),
        ExpressionKind::Typed { expr, .. } => lemma_check_records_every_use(v, *expr, key, name),
        ExpressionKind::Object { properties } => lemma_check_pairs_record_every_use(v, properties@, 0, key, name),
        _ => {},
    }
}

/// `lemma_check_records_every_use` for `es[i..]`.
pub proof fn lemma_check_list_records_every_use(v: CheckView, es: Seq<Expression>, i: int, key: (usize, usize), name: Seq<char>)
    requires
        v.scopes.len() > 0,
        uses_name_in(es, i, key, name),
        innermost(v.scopes, name, v.scopes.len() as int) is Some,
    ensures
        check_exprs(v, es, i).locals.dom().contains(key),
    decreases es, (es.len() - i) as nat,
{
    if 0 <= i < es.len() {
        lemma_check_expr_restores_scopes(v, es[i]);
        if uses_name(es[i], key, name) {
            lemma_check_records_every_use(v, es[i], key, name);
            lemma_check_exprs_restore_scopes(check_expr(v, es[i]), es, i + 1);
        } else {
            lemma_check_list_records_every_use(check_expr(v, es[i]), es, i + 1, key, name);
        }
    }
}

/// `lemma_check_records_every_use` for the pairs `ps[i..]`.
pub proof fn lemma_check_pairs_record_every_use(
    v: CheckView,
    ps: Seq<(Expression, Expression)>,
    i: int,
    key: (usize, usize),
    name: Seq<char>,
)
    requires
        v.scopes.len() > 0,
        uses_name_in_pairs(ps, i, key, name),
        innermost(v.scopes, name, v.scopes.len() as int) is Some,
    ensures
        check_pairs(v, ps, i).locals.dom().contains(key),
    decreases ps, (ps.len() - i) as nat,
{
    if 0 <= i < ps.len() {
        let first = check_expr(v, ps[i].0);
        let both = check_expr(first, ps[i].1);
        lemma_check_expr_restores_scopes(v, ps[i].0);
        lemma_check_expr_restores_scopes(first, ps[i].1);
        if uses_name(ps[i].0, key, name) {
            lemma_check_records_every_use(v, ps[i].0, key, name);
            lemma_check_pairs_restore_scopes(both, ps, i + 1);
        } else if uses_name(ps[i].1, key, name) {
            lemma_check_records_every_use(first, ps[i].1, key, name);
            lemma_check_pairs_restore_scopes(both, ps, i + 1);
        } else {
            lemma_check_pairs_record_every_use(both, ps, i + 1, key, name);
        }
    }
}

/// The resolver records a distance for every use of a name that an enclosing
/// scope binds, wherever the use stands in the expression (see
/// `uses_name`): in an operand, an argument, an index, a member access or
/// a condition alike.
pub proof fn lemma_resolve_records_every_use(v: CheckView, e: Expression, key: (usize, usize), name: Seq<char>)
    requires
        v.scopes.len() > 0,
        uses_name(e, key, name),
        innermost(v.scopes, name, v.scopes.len() as int) is Some,
    ensures
        resolve_expr(v, e).locals.dom().contains(key),
    decreases e, 0nat,
{
    match e.kind {
        ExpressionKind::Identifier(_) => {},
        ExpressionKind::Assignment { left, right, .. } => {
            lemma_resolve_expr_restores_scopes(v, *right);
            if uses_name(*right, key, name) {
                lemma_resolve_records_every_use(v, *right, key, name);
                lemma_resolve_expr_restores_scopes(resolve_expr(v, *right), *left);
            } else {
                lemma_resolve_records_every_use(resolve_expr(v, *right), *left, key, name);
            }
        },
        ExpressionKind::Update { argument, .. } => lemma_resolve_records_every_use(v, *argument, key, name),
        ExpressionKind::Binary { left, right, .. } => {
            lemma_resolve_expr_restores_scopes(v, *left);
            if uses_name(*left, key, name) {
                lemma_resolve_records_every_use(v, *left, key, name);
                lemma_resolve_expr_restores_scopes(resolve_expr(v, *left), *right);
            } else {
                lemma_resolve_records_every_use(resolve_expr(v, *left), *right, key, name);
            }
        },
        ExpressionKind::Unary { right, .. } => lemma_resolve_records_every_use(v, *right, key, name),
        ExpressionKind::Call { function, arguments } => {
            lemma_resolve_expr_restores_scopes(v, *function);
            if uses_name(*function, key, name) {
                lemma_resolve_records_every_use(v, *function, key, name);
                lemma_resolve_exprs_restore_scopes(resolve_expr(v, *function), arguments@, 0);
            } else {
                lemma_resolve_expr_restores_scopes(v, *function);
                lemma_resolve_list_records_every_use(resolve_expr(v, *function), arguments@, 0, key, name);
            }
        },
        ExpressionKind::Member { object, property } => {
            lemma_resolve_expr_restores_scopes(v, *object);
            if uses_name(*object, key, name) {
                lemma_resolve_records_every_use(v, *object, key, name);
                lemma_resolve_expr_restores_scopes(resolve_expr(v, *object), *property);
            } else {
                lemma_resolve_records_every_use(resolve_expr(v, *object), *property, key, name);
            }
        },
        ExpressionKind::Index { object, index } => {
            lemma_resolve_expr_restores_scopes(v, *object);
            if uses_name(*object, key, name) {
                lemma_resolve_records_every_use(v, *object, key, name);
                lemma_resolve_expr_restores_scopes(resolve_expr(v, *object), *index);
            } else {
                lemma_resolve_records_every_use(resolve_expr(v, *object), *index, key, name);
            }
        },
        ExpressionKind::If { condition, then_branch, else_branch } => {
            lemma_resolve_expr_restores_scopes(v, *condition);
            lemma_resolve_expr_restores_scopes(resolve_expr(v, *condition), *then_branch);
            let after = resolve_expr(resolve_expr(v, *condition), *then_branch);
            if uses_name(*condition, key, name) {
                lemma_resolve_records_every_use(v, *condition, key, name);
            } else if uses_name(*then_branch, key, name) {
                lemma_resolve_records_every_use(resolve_expr(v, *condition), *then_branch, key, name);
            }
            match else_branch {
                Some(other) => {
                    lemma_resolve_expr_restores_scopes(after, *other);
                    if !uses_name(*condition, key, name) && !uses_name(*then_branch, key, name) {
                        lemma_resolve_records_every_use(after, *other, key, name);
                    }
                },
                None => {},
            }
        },
        ExpressionKind::Match { subject, arms } => {
            lemma_resolve_records_every_use(v, *subject, key, name);
            lemma_resolve_expr_restores_scopes(v, *subject);
            lemma_resolve_arms_restore_scopes(resolve_expr(v, *subject), arms@, 0);
        },
        ExpressionKind::Collection { elements } => lemma_resolve_list_records_every_use(v, elements@, 0, key, name),
        ExpressionKind::Typed { expr, .. } => lemma_resolve_records_every_use(v, *expr, key, name),
        ExpressionKind::Object { properties } => lemma_resolve_pairs_record_every_use(v, properties@, 0, key, name),
        _ => {},
    }
}

/// `lemma_resolve_records_every_use` for `es[i..]`.
pub proof fn lemma_resolve_list_records_every_use(v: CheckView, es: Seq<Expression>, i: int, key: (usize, usize), name: Seq<char>)
    requires
        v.scopes.len() > 0,
        uses_name_in(es, i, key, name),
        innermost(v.scopes, name, v.scopes.len() as int) is Some,
    ensures
        resolve_exprs(v, es, i).locals.dom().contains(key),
    decreases es, (es.len() - i) as nat,
{
    if 0 <= i < es.len() {
        lemma_resolve_expr_restores_scopes(v, es[i]);
        if uses_name(es[i], key, name) {
            lemma_resolve_records_every_use(v, es[i], key, name);
            lemma_resolve_exprs_restore_scopes(resolve_expr(v, es[i]), es, i + 1);
        } else {
            lemma_resolve_list_records_every_use(resolve_expr(v, es[i]), es, i + 1, key, name);
        }
    }
}

/// `lemma_resolve_records_every_use` for the pairs `ps[i..]`.
pub proof fn lemma_resolve_pairs_record_every_use(
    v: CheckView,
    ps: Seq<(Expression, Expression)>,
    i: int,
    key: (usize, usize),
    name: Seq<char>,
)
    requires
        v.scopes.len() > 0,
        uses_name_in_pairs(ps, i, key, name),
        innermost(v.scopes, name, v.scopes.len() as int) is Some,
    ensures
        resolve_pairs(v, ps, i).locals.dom().contains(key),
    decreases ps, (ps.len() - i) as nat,
{
    if 0 <= i < ps.len() {
        let first = resolve_expr(v, ps[i].0);
        let both = resolve_expr(first, ps[i].1);
        lemma_resolve_expr_restores_scopes(v, ps[i].0);
        lemma_resolve_expr_restores_scopes(first, ps[i].1);
        if uses_name(ps[i].0, key, name) {
            lemma_resolve_records_every_use(v, ps[i].0, key, name);
            lemma_resolve_pairs_restore_scopes(both, ps, i + 1);
        } else if uses_name(ps[i].1, key, name) {
            lemma_resolve_records_every_use(first, ps[i].1, key, name);
            lemma_resolve_pairs_restore_scopes(both, ps, i + 1);
        } else {
            lemma_resolve_pairs_record_every_use(both, ps, i + 1, key, name);
        }
    }
}


/// Whether statement `s` uses `name` at `key` in the scope it is analysed
/// in: in the expression of an expression statement, the value of a `let`
/// or `const`, a returned value, or a `while` condition (see `uses_name`).
pub open spec fn stmt_uses_name(s: Statement, key: (usize, usize), name: Seq<char>) -> bool {
    match s.kind {
        StatementKind::Expression { expression } => uses_name(expression, key, name),
        StatementKind::Let { value, .. } => uses_name(value, key, name),
        StatementKind::Const { value, .. } => uses_name(value, key, name),
        StatementKind::Return { value: Some(e) } => uses_name(*e, key, name),
        StatementKind::While { condition, .. } => uses_name(condition, key, name),
        _ => false,
    }
}

/// Whether one of the statements `ss[i..]` uses `name` at `key`, as
/// `stmt_uses_name` says.
pub open spec fn stmts_use_name(ss: Seq<Statement>, i: int, key: (usize, usize), name: Seq<char>) -> bool
    decreases ss.len() - i,
{
    if 0 <= i < ss.len() {
        stmt_uses_name(ss[i], key, name) || stmts_use_name(ss, i + 1, key, name)
    } else {
        false
    }
}

/// Scope stacks that agree on their first `j` scopes find the same
/// innermost binding among them.
pub proof fn lemma_innermost_prefix(a: Seq<Map<Seq<char>, bool>>, b: Seq<Map<Seq<char>, bool>>, name: Seq<char>, j: int)
    requires
        j <= a.len(),
        j <= b.len(),
        forall|k: int| 0 <= k < j ==> #[trigger] a[k] == b[k],
    ensures
        innermost(a, name, j) == innermost(b, name, j),
    decreases j,
{
    if j > 0 {
        assert(a[j - 1] == b[j - 1]);
        lemma_innermost_prefix(a, b, name, j - 1);
    }
}

/// A name bound among the first `j` scopes is bound among the first
/// `j + 1`.
pub proof fn lemma_innermost_widen(a: Seq<Map<Seq<char>, bool>>, name: Seq<char>, j: int)
    requires
        0 <= j,
        innermost(a, name, j) is Some,
    ensures
        innermost(a, name, j + 1) is Some,
{
}

/// The checker records a distance for every use of a bound name in the
/// expressions a statement analyses in its own scope (`stmt_uses_name`).
pub proof fn lemma_check_stmt_records_every_use(v: CheckView, s: Statement, key: (usize, usize), name: Seq<char>)
    requires
        v.scopes.len() > 0,
        stmt_uses_name(s, key, name),
        innermost(v.scopes, name, v.scopes.len() as int) is Some,
    ensures
        check_stmt(v, s).locals.dom().contains(key),
{
    match s.kind {
        StatementKind::Expression { expression } => lemma_check_records_every_use(v, expression, key, name),
        StatementKind::Let { name: b, value, .. } => {
            lemma_check_records_every_use(v, value, key, name);
            lemma_check_expr_restores_scopes(v, value);
            lemma_define_binding_outer(check_expr(v, value), b);
        },
        StatementKind::Const { binding, value, .. } => {
            lemma_check_records_every_use(v, value, key, name);
            lemma_check_expr_restores_scopes(v, value);
            lemma_define_binding_outer(check_expr(v, value), binding);
        },
        StatementKind::Return { value: Some(e) } => lemma_check_records_every_use(v, *e, key, name),
        StatementKind::While { condition, body } => {
            lemma_check_records_every_use(v, condition, key, name);
            lemma_check_expr_restores_scopes(v, condition);
            lemma_check_stmts_outer(check_expr(v, condition), body.statements@, 0);
        },
        _ => {},
    }
}

/// The checker records a distance for every such use in a list of
/// statements, of a name that a scope outside the innermost binds: the
/// declarations of earlier statements, which go to the innermost scope,
/// cannot hide it.
pub proof fn lemma_check_stmts_record_every_use(v: CheckView, ss: Seq<Statement>, i: int, key: (usize, usize), name: Seq<char>)
    requires
        v.scopes.len() > 1,
        stmts_use_name(ss, i, key, name),
        innermost(v.scopes, name, v.scopes.len() - 1) is Some,
    ensures
        check_stmts(v, ss, i).locals.dom().contains(key),
    decreases ss.len() - i,
{
    if 0 <= i < ss.len() {
        lemma_innermost_widen(v.scopes, name, v.scopes.len() - 1);
        lemma_check_stmt_outer(v, ss[i]);
        let next = check_stmt(v, ss[i]);
        if stmt_uses_name(ss[i], key, name) {
            lemma_check_stmt_records_every_use(v, ss[i], key, name);
            lemma_check_stmts_outer(next, ss, i + 1);
        } else {
            assert forall|k: int| 0 <= k < v.scopes.len() - 1 implies #[trigger] next.scopes[k] == v.scopes[k] by {
                assert(next.scopes[k] == next.scopes.drop_last()[k]);
                assert(v.scopes[k] == v.scopes.drop_last()[k]);
            }
            lemma_innermost_prefix(next.scopes, v.scopes, name, v.scopes.len() - 1);
            lemma_check_stmts_record_every_use(next, ss, i + 1, key, name);
        }
    }
}

/// The resolver records a distance for every use of a bound name in the
/// expressions a statement analyses in its own scope (`stmt_uses_name`).
pub proof fn lemma_resolve_stmt_records_every_use(v: CheckView, s: Statement, key: (usize, usize), name: Seq<char>)
    requires
        v.scopes.len() > 0,
        stmt_uses_name(s, key, name),
        innermost(v.scopes, name, v.scopes.len() as int) is Some,
    ensures
        resolve_stmt(v, s).locals.dom().contains(key),
{
    match s.kind {
        StatementKind::Expression { expression } => lemma_resolve_records_every_use(v, expression, key, name),
        StatementKind::Let { name: b, value, .. } => {
            lemma_resolve_records_every_use(v, value, key, name);
            lemma_resolve_expr_restores_scopes(v, value);
            lemma_define_binding_outer(resolve_expr(v, value), b);
        },
        StatementKind::Const { binding, value, .. } => {
            lemma_resolve_records_every_use(v, value, key, name);
            lemma_resolve_expr_restores_scopes(v, value);
            lemma_define_binding_outer(resolve_expr(v, value), binding);
        },
        StatementKind::Return { value: Some(e) } => lemma_resolve_records_every_use(v, *e, key, name),
        StatementKind::While { condition, body } => {
            lemma_resolve_records_every_use(v, condition, key, name);
            lemma_resolve_expr_restores_scopes(v, condition);
            lemma_resolve_stmts_outer(resolve_expr(v, condition), body.statements@, 0);
        },
        _ => {},
    }
}

/// The resolver records a distance for every such use in a list of
/// statements, of a name that a scope outside the innermost binds: the
/// declarations of earlier statements, which go to the innermost scope,
/// cannot hide it.
pub proof fn lemma_resolve_stmts_record_every_use(v: CheckView, ss: Seq<Statement>, i: int, key: (usize, usize), name: Seq<char>)
    requires
        v.scopes.len() > 1,
        stmts_use_name(ss, i, key, name),
        innermost(v.scopes, name, v.scopes.len() - 1) is Some,
    ensures
        resolve_stmts(v, ss, i).locals.dom().contains(key),
    decreases ss.len() - i,
{
    if 0 <= i < ss.len() {
        lemma_innermost_widen(v.scopes, name, v.scopes.len() - 1);
        lemma_resolve_stmt_outer(v, ss[i]);
        let next = resolve_stmt(v, ss[i]);
        if stmt_uses_name(ss[i], key, name) {
            lemma_resolve_stmt_records_every_use(v, ss[i], key, name);
            lemma_resolve_stmts_outer(next, ss, i + 1);
        } else {
            assert forall|k: int| 0 <= k < v.scopes.len() - 1 implies #[trigger] next.scopes[k] == v.scopes[k] by {
                assert(next.scopes[k] == next.scopes.drop_last()[k]);
                assert(v.scopes[k] == v.scopes.drop_last()[k]);
            }
            lemma_innermost_prefix(next.scopes, v.scopes, name, v.scopes.len() - 1);
            lemma_resolve_stmts_record_every_use(next, ss, i + 1, key, name);
        }
    }
}

} // verus!
