//! The evaluator: expressions and statements, calls, pattern matching and
//! loops.
//!
//! Every evaluation function takes a `depth`, the number of nested user
//! function calls still allowed; a call at depth zero is
//! `CallDepthExceeded`. Loops of `while` draw on the interpreter's budget of
//! steps; a loop that finds it spent is `StepLimit`. With these two bounds
//! every evaluation terminates.

use crate::ast::{
    AssignmentOperator, Binding, BinaryOperator, Expression, ExpressionKind, FunctionBody, Iteration, Literal, MatchArm, Pattern, Statement,
    StatementBlock, StatementKind, StructField, Type,
};
use crate::error::{Error, ErrorKind};
use crate::interpreter::lvalue::LValue;
use crate::interpreter::operators::{
    same_value, assignment_binary, binary_of_assignment, binary_of_update, binary_op, binary_op_result, string_less, unary_op,
    update_binary, values_equal,
};
use crate::interpreter::iteration::sequence_elements;
use crate::interpreter::types::check_type;
use crate::interpreter::Interpreter;
use crate::memory::heap::{props_get, props_insert, Properties, TypeNode};
use crate::memory::stack::{binds_here, popped, pushed, scope_binds, Stack};
use crate::object::{copy_object, kind_of, strip_return, strip_return_err, with_constant, Function, Object, UserFunction};
use crate::span::Span;
use vstd::prelude::*;
use vstd::string::StrSliceExecFns;

verus! {

/// What every evaluation keeps: a well-formed stack, the resolutions, the
/// path and the module cache, a budget of steps that only shrinks, and
/// arenas that only grow, so that every handle to a scope or a heap item
/// stays valid.
pub open spec fn evolved<'a>(a: Interpreter<'a>, b: Interpreter<'a>) -> bool {
    &&& b.wf()
    &&& b.steps <= a.steps
    &&& b.locals == a.locals
    &&& b.path == a.path
    &&& b.modules@ == a.modules@
    &&& crate::interpreter::arenas_grown(a, b)
}

/// The value a literal denotes.
pub open spec fn literal_object<'a>(l: Literal) -> Object<'a> {
    match l {
        Literal::Integer(i) => Object::Integer(i),
        Literal::String(s) => Object::String(s),
        Literal::Boolean(b) => Object::Boolean(b),
        Literal::Null => Object::Null,
    }
}

/// A value as an expression gives it: an error result leaves as a `return`.
pub open spec fn returned<'a>(v: Object<'a>) -> Object<'a> {
    if v is ErrValue {
        Object::Return(Box::new(v))
    } else {
        v
    }
}

/// An error of `kind` at `span`, with no source context.
pub open spec fn error_at(kind: ErrorKind, span: Span) -> Error {
    Error { kind, span, source: None, file: None }
}

/// The outcome of evaluating an expression made only of literals, names,
/// `this`, unary and binary operators, `if`, member access and indexing:
/// such an evaluation changes nothing. A name reads as `identifier_value`
/// says, `this` as the innermost binding of that name;
/// `&&` and `||` give their left value when it is a control signal or
/// decides, else their right value; the other operators combine both
/// values, left first, as `binary_op_result` and `unary_op_result` say, an
/// error being reported at the operator's expression; member access and
/// indexing go as `access_outcome` and `index_outcome` say. `None` for any
/// other expression, for the joining of two strings, for a method's
/// function value and for a character of a string.
pub open spec fn pure_eval<'a>(it: Interpreter<'a>, e: Expression) -> Option<Result<Object<'a>, Error>>
    decreases e,
{
    match e.kind {
        ExpressionKind::Literal(l) => Some(Ok(literal_object(l))),
        ExpressionKind::Identifier(name) => Some(
            match crate::interpreter::lookup::identifier_value(it, e, name@) {
                Some(v) => Ok(returned(v)),
                None => Err(error_at(ErrorKind::NotDefined { name }, e.span)),
            },
        ),
        ExpressionKind::Unary { operator, right } => match pure_eval(it, *right) {
            Some(Ok(r)) => Some(
                match unary_op_result(operator, r) {
                    Ok(v) => Ok(returned(v)),
                    Err(k) => Err(error_at(k, e.span)),
                },
            ),
            Some(Err(err)) => Some(Err(err)),
            None => None,
        },
        ExpressionKind::Binary { left, operator, right } => match pure_eval(it, *left) {
            Some(Ok(l)) => if operator == BinaryOperator::LogicalOr || operator == BinaryOperator::LogicalAnd {
                if crate::object::is_control(l) || crate::object::truthy(l) == (operator == BinaryOperator::LogicalOr) {
                    Some(Ok(returned(l)))
                } else {
                    match pure_eval(it, *right) {
                        Some(Ok(r)) => Some(Ok(returned(r))),
                        other => other,
                    }
                }
            } else {
                match pure_eval(it, *right) {
                    Some(Ok(r)) => match binary_op_result(l, operator, r) {
                        Some(Ok(v)) => Some(Ok(returned(v))),
                        Some(Err(k)) => Some(Err(error_at(k, e.span))),
                        None => None,
                    },
                    other => other,
                }
            },
            Some(Err(err)) => Some(Err(err)),
            None => None,
        },
        ExpressionKind::If { condition, then_branch, else_branch } => match pure_eval(it, *condition) {
            Some(Ok(c)) => if crate::object::truthy(c) {
                pure_eval(it, *then_branch)
            } else {
                match else_branch {
                    Some(other) => pure_eval(it, *other),
                    None => Some(Ok(Object::Void)),
                }
            },
            Some(Err(err)) => Some(Err(err)),
            None => None,
        },
        ExpressionKind::This => Some(
            match it.stack.lookup("this"@) {
                Some(v) => Ok(returned(v)),
                None => Err(error_at(ErrorKind::ThisNotDefined, e.span)),
            },
        ),
        ExpressionKind::Member { object, property } => match pure_eval(it, *object) {
            Some(Ok(o)) => match crate::interpreter::member::access_outcome(it, o, *property, e.span) {
                Some(Ok(v)) => Some(Ok(returned(v))),
                Some(Err(err)) => Some(Err(err)),
                None => None,
            },
            other => other,
        },
        ExpressionKind::Index { object, index } => match pure_eval(it, *object) {
            Some(Ok(o)) => match pure_eval(it, *index) {
                Some(Ok(i)) => match crate::interpreter::index::index_outcome(it, o, i, e.span) {
                    Some(Ok(v)) => Some(Ok(returned(v))),
                    Some(Err(err)) => Some(Err(err)),
                    None => None,
                },
                other => other,
            },
            other => other,
        },
        _ => None,
    }
}

/// The values of `es[i..]` when `pure_eval` decides each of them as a
/// value; `None` otherwise.
pub open spec fn pure_values<'a>(it: Interpreter<'a>, es: Seq<Expression>, i: int) -> Option<Seq<Object<'a>>>
    decreases es.len() - i,
{
    if i < 0 || i >= es.len() {
        Some(Seq::empty())
    } else {
        match pure_eval(it, es[i]) {
            Some(Ok(v)) => match pure_values(it, es, i + 1) {
                Some(rest) => Some(seq![v] + rest),
                None => None,
            },
            _ => None,
        }
    }
}

/// `pure_values` gives one value per expression, the one `pure_eval` gives.
pub proof fn lemma_pure_values<'a>(it: Interpreter<'a>, es: Seq<Expression>, i: int)
    requires
        0 <= i <= es.len(),
    ensures
        pure_values(it, es, i) matches Some(vs) ==> vs.len() == es.len() - i && forall|k: int|
            0 <= k < vs.len() ==> pure_eval(it, #[trigger] es[i + k]) == Some(Ok::<Object<'a>, Error>(vs[k])),
    decreases es.len() - i,
{
    if i < es.len() {
        lemma_pure_values(it, es, i + 1);
        match pure_values(it, es, i) {
            Some(vs) => {
                let rest = pure_values(it, es, i + 1)->Some_0;
                assert forall|k: int| 0 <= k < vs.len() implies pure_eval(it, #[trigger] es[i + k]) == Some(
                    Ok::<Object<'a>, Error>(vs[k]),
                ) by {
                    if k > 0 {
                        assert(vs[k] == rest[k - 1]);
                        assert(es[i + k] == es[(i + 1) + (k - 1)]);
                    }
                }
            },
            None => {},
        }
    }
}

/// What `pure_eval` decides is never a bare error result: such a value
/// leaves as a `return`.
pub proof fn lemma_pure_not_err<'a>(it: Interpreter<'a>, e: Expression)
    ensures
        pure_eval(it, e) matches Some(Ok(v)) ==> !(v is ErrValue),
        pure_eval(it, e) is Some ==> !(e.kind is Assignment || e.kind is Try || e.kind is Call),
    decreases e,
{
    match e.kind {
        ExpressionKind::Unary { right, .. } => lemma_pure_not_err(it, *right),
        ExpressionKind::Binary { left, right, .. } => {
            lemma_pure_not_err(it, *left);
            lemma_pure_not_err(it, *right);
        },
        ExpressionKind::If { condition, then_branch, else_branch } => {
            lemma_pure_not_err(it, *condition);
            lemma_pure_not_err(it, *then_branch);
            match else_branch {
                Some(other) => lemma_pure_not_err(it, *other),
                None => {},
            }
        },
        ExpressionKind::Member { object, .. } => lemma_pure_not_err(it, *object),
        ExpressionKind::Index { object, index } => {
            lemma_pure_not_err(it, *object);
            lemma_pure_not_err(it, *index);
        },
        _ => {},
    }
}

/// `pure_eval` does not read the budget of steps: two interpreters that
/// differ only there decide the same outcome.
pub proof fn lemma_pure_eval_ignores_steps<'a>(a: Interpreter<'a>, b: Interpreter<'a>, e: Expression)
    requires
        b == (Interpreter { steps: b.steps, ..a }),
    ensures
        pure_eval(a, e) == pure_eval(b, e),
    decreases e,
{
    match e.kind {
        ExpressionKind::Unary { right, .. } => lemma_pure_eval_ignores_steps(a, b, *right),
        ExpressionKind::Binary { left, right, .. } => {
            lemma_pure_eval_ignores_steps(a, b, *left);
            lemma_pure_eval_ignores_steps(a, b, *right);
        },
        ExpressionKind::If { condition, then_branch, else_branch } => {
            lemma_pure_eval_ignores_steps(a, b, *condition);
            lemma_pure_eval_ignores_steps(a, b, *then_branch);
            match else_branch {
                Some(other) => lemma_pure_eval_ignores_steps(a, b, *other),
                None => {},
            }
        },
        ExpressionKind::Member { object, .. } => lemma_pure_eval_ignores_steps(a, b, *object),
        ExpressionKind::Index { object, index } => {
            lemma_pure_eval_ignores_steps(a, b, *object);
            lemma_pure_eval_ignores_steps(a, b, *index);
        },
        _ => {},
    }
}

/// `pure_eval` does not read the type arena: an interpreter with only more
/// types resolved decides the same outcome.
pub proof fn lemma_pure_eval_types_grow<'a>(a: Interpreter<'a>, b: Interpreter<'a>, e: Expression)
    requires
        a == b || crate::interpreter::only_types_grew(a, b),
    ensures
        pure_eval(a, e) == pure_eval(b, e),
    decreases e,
{
    match e.kind {
        ExpressionKind::Unary { right, .. } => lemma_pure_eval_types_grow(a, b, *right),
        ExpressionKind::Binary { left, right, .. } => {
            lemma_pure_eval_types_grow(a, b, *left);
            lemma_pure_eval_types_grow(a, b, *right);
        },
        ExpressionKind::If { condition, then_branch, else_branch } => {
            lemma_pure_eval_types_grow(a, b, *condition);
            lemma_pure_eval_types_grow(a, b, *then_branch);
            match else_branch {
                Some(other) => lemma_pure_eval_types_grow(a, b, *other),
                None => {},
            }
        },
        ExpressionKind::Member { object, .. } => lemma_pure_eval_types_grow(a, b, *object),
        ExpressionKind::Index { object, index } => {
            lemma_pure_eval_types_grow(a, b, *object);
            lemma_pure_eval_types_grow(a, b, *index);
        },
        _ => {},
    }
}

/// Whether an expression reads nothing of the interpreter: literals
/// combined by unary and binary operators and `if`.
pub open spec fn literal_expr(e: Expression) -> bool
    decreases e,
{
    match e.kind {
        ExpressionKind::Literal(_) => true,
        ExpressionKind::Unary { right, .. } => literal_expr(*right),
        ExpressionKind::Binary { left, right, .. } => literal_expr(*left) && literal_expr(*right),
        ExpressionKind::If { condition, then_branch, else_branch } => literal_expr(*condition) && literal_expr(*then_branch)
            && match else_branch {
            Some(other) => literal_expr(*other),
            None => true,
        },
        _ => false,
    }
}

/// Whether each of `ss[i..]` reads nothing of the interpreter: an
/// expression statement or a `return` of such an expression, a `return`
/// without a value, `break` or `continue`.
pub open spec fn literal_stmts(ss: Seq<Statement>, i: int) -> bool
    decreases ss.len() - i,
{
    if i < 0 || i >= ss.len() {
        true
    } else {
        (match ss[i].kind {
            StatementKind::Expression { expression } => literal_expr(expression),
            StatementKind::Return { value: Some(e) } => literal_expr(*e),
            StatementKind::Return { value: None } => true,
            StatementKind::Break => true,
            StatementKind::Continue => true,
            _ => false,
        }) && literal_stmts(ss, i + 1)
    }
}

/// Such an expression has the same outcome in every interpreter.
pub proof fn lemma_literal_expr<'a>(a: Interpreter<'a>, b: Interpreter<'a>, e: Expression)
    requires
        literal_expr(e),
    ensures
        pure_eval(a, e) == pure_eval(b, e),
    decreases e,
{
    match e.kind {
        ExpressionKind::Unary { right, .. } => lemma_literal_expr(a, b, *right),
        ExpressionKind::Binary { left, right, .. } => {
            lemma_literal_expr(a, b, *left);
            lemma_literal_expr(a, b, *right);
        },
        ExpressionKind::If { condition, then_branch, else_branch } => {
            lemma_literal_expr(a, b, *condition);
            lemma_literal_expr(a, b, *then_branch);
            match else_branch {
                Some(other) => lemma_literal_expr(a, b, *other),
                None => {},
            }
        },
        _ => {},
    }
}

/// Such statements have the same outcome in every interpreter.
pub proof fn lemma_literal_stmts<'a>(a: Interpreter<'a>, b: Interpreter<'a>, ss: Seq<Statement>, i: int, last: Object<'a>)
    requires
        literal_stmts(ss, i),
    ensures
        pure_statements(a, ss, i, last) == pure_statements(b, ss, i, last),
    decreases ss.len() - i,
{
    if 0 <= i < ss.len() {
        match ss[i].kind {
            StatementKind::Expression { expression } => {
                lemma_literal_expr(a, b, expression);
                lemma_literal_not_match(a, expression);
                lemma_literal_not_match(b, expression);
            },
            StatementKind::Return { value: Some(e) } => lemma_literal_expr(a, b, *e),
            _ => {},
        }
        match pure_statement(a, ss[i]) {
            Some(Ok(v)) => lemma_literal_stmts(a, b, ss, i + 1, v),
            _ => {},
        }
    }
}

/// `pure_match` decides nothing for an expression that is no `match`.
pub proof fn lemma_literal_not_match<'a>(it: Interpreter<'a>, e: Expression)
    requires
        literal_expr(e),
    ensures
        pure_match(it, e) is None,
{
}

/// Whether `res` is the outcome `r` up to the source context of an error:
/// the same value, or an error of the same kind at the same span.
pub open spec fn outcome_is<T>(res: Result<T, Error>, r: Result<T, Error>) -> bool {
    match r {
        Ok(v) => res == Ok::<T, Error>(v),
        Err(e) => res matches Err(f) && f.kind == e.kind && f.span == e.span,
    }
}

/// Where an assignment to a property or element stores, when the parts of
/// the target are expressions that `pure_eval` decides; `None` otherwise.
pub open spec fn pure_target<'a>(it: Interpreter<'a>, target: Expression, span: Span) -> Option<Result<LValue, Error>> {
    match target.kind {
        ExpressionKind::Member { object, property } => match pure_eval(it, *object) {
            Some(Err(e)) => Some(Err(e)),
            Some(Ok(v)) => Some(
                if crate::object::is_control(v) {
                    Err(error_at(ErrorKind::EarlyReturnInTarget, span))
                } else {
                    match property.kind {
                        ExpressionKind::Identifier(n) => match v {
                            Object::Object { id, constant, .. } => if constant {
                                Err(error_at(ErrorKind::ConstantObjectProperty, span))
                            } else {
                                Ok(LValue::Property { object: id, name: n })
                            },
                            _ => Err(error_at(ErrorKind::CannotAssignProperty { found: kind_of(v) }, span)),
                        },
                        _ => Err(error_at(ErrorKind::InvalidAssignmentProperty, span)),
                    }
                },
            ),
            None => None,
        },
        ExpressionKind::Index { object, index } => match pure_eval(it, *object) {
            Some(Err(e)) => Some(Err(e)),
            Some(Ok(v)) => if crate::object::is_control(v) {
                Some(Err(error_at(ErrorKind::EarlyReturnInTarget, span)))
            } else {
                match pure_eval(it, *index) {
                    Some(Err(e)) => Some(Err(e)),
                    Some(Ok(k)) => Some(
                        if crate::object::is_control(k) {
                            Err(error_at(ErrorKind::EarlyReturnInTarget, span))
                        } else {
                            match v {
                                Object::Object { id, constant, .. } => if constant {
                                    Err(error_at(ErrorKind::ConstantObjectIndex, span))
                                } else {
                                    match k {
                                        Object::String(key) => Ok(LValue::Property { object: id, name: key }),
                                        _ => Err(error_at(ErrorKind::ObjectIndexNotString, span)),
                                    }
                                },
                                Object::Array { id, kind, constant } => if constant {
                                    Err(error_at(ErrorKind::ConstantArrayIndex, span))
                                } else {
                                    match k {
                                        Object::Integer(i) => Ok(LValue::Index {
                                            array: id,
                                            index: i,
                                            fixed_size: crate::interpreter::lvalue::fixed_size_of(it.heap.types@, kind as int),
                                        }),
                                        _ => Err(error_at(ErrorKind::IndexNotInteger { found: kind_of(k) }, span)),
                                    }
                                },
                                _ => Err(error_at(ErrorKind::CannotAssignIndex { found: kind_of(v) }, span)),
                            }
                        },
                    ),
                    None => None,
                }
            },
            None => None,
        },
        _ => None,
    }
}

/// The properties that `ps[i..]` add to `acc`, in order, each as
/// `prop_insert` says, when each key is a name or an expression that
/// `pure_eval` decides, and each value an expression that it decides; a
/// key that is no string is `PropertyKeyNotString` at the key. `None` when
/// a part is not such an expression.
pub open spec fn pure_props<'a>(it: Interpreter<'a>, ps: Seq<(Expression, Expression)>, i: int, acc: Seq<(String, Object<'a>)>) -> Option<
    Result<Seq<(String, Object<'a>)>, Error>,
>
    decreases ps.len() - i,
{
    if i < 0 || i >= ps.len() {
        Some(Ok(acc))
    } else {
        let key: Option<Result<String, Error>> = match ps[i].0.kind {
            ExpressionKind::Identifier(name) => Some(Ok(name)),
            _ => match pure_eval(it, ps[i].0) {
                Some(Ok(Object::String(k))) => Some(Ok(k)),
                Some(Ok(_)) => Some(Err(error_at(ErrorKind::PropertyKeyNotString, ps[i].0.span))),
                Some(Err(e)) => Some(Err(e)),
                None => None,
            },
        };
        match key {
            Some(Ok(k)) => match pure_eval(it, ps[i].1) {
                Some(Ok(v)) => pure_props(it, ps, i + 1, crate::memory::heap::prop_insert(acc, k, v)),
                Some(Err(e)) => Some(Err(e)),
                None => None,
            },
            Some(Err(e)) => Some(Err(e)),
            None => None,
        }
    }
}

/// The value called by a call whose callee is no member access and, like
/// each argument, an expression that `pure_eval` decides as a value;
/// `None` otherwise.
pub open spec fn pure_callee<'a>(it: Interpreter<'a>, function: Expression, arguments: Seq<Expression>) -> Option<Object<'a>> {
    if function.kind is Member || pure_values(it, arguments, 0) is None {
        None
    } else {
        match pure_eval(it, function) {
            Some(Ok(f)) => Some(f),
            _ => None,
        }
    }
}

/// The outcome of an expression that `pure_eval` or `pure_match` decides.
pub open spec fn pure_expr<'a>(it: Interpreter<'a>, e: Expression) -> Option<Result<Object<'a>, Error>> {
    match pure_eval(it, e) {
        Some(r) => Some(r),
        None => pure_match(it, e),
    }
}

/// `mid` is `before` having entered a new block scope named `name`
/// (`block`), nested in the current one, where the block's statements run.
pub open spec fn entered_block<'a>(before: Interpreter<'a>, mid: Interpreter<'a>, name: String) -> bool {
    &&& name@ == "block"@
    &&& crate::memory::stack::pushed(before.stack, mid.stack, name, None)
    &&& mid == (Interpreter { stack: mid.stack, ..before })
}

/// The outcome of one statement that changes nothing when it runs: an
/// expression statement whose expression `pure_expr` decides, `break`,
/// `continue`, and `return` with no value or a value `pure_eval` decides as
/// one. `None` for any other statement.
pub open spec fn pure_statement<'a>(it: Interpreter<'a>, s: Statement) -> Option<Result<Object<'a>, Error>> {
    match s.kind {
        StatementKind::Expression { expression } => pure_expr(it, expression),
        StatementKind::Break => Some(Ok(Object::Break)),
        StatementKind::Continue => Some(Ok(Object::Continue)),
        StatementKind::Return { value: None } => Some(Ok(Object::Return(Box::new(Object::Void)))),
        StatementKind::Return { value: Some(e) } => match pure_eval(it, *e) {
            Some(Ok(v)) => Some(Ok(Object::Return(Box::new(v)))),
            _ => None,
        },
        _ => None,
    }
}

/// The outcome of the statements `ss[i..]`, `last` being the value of the
/// one before, when each is a statement `pure_statement` decides: the first
/// error or control signal ends the sequence, else the last value is its
/// value. `None` when one of them is not such a statement.
pub open spec fn pure_statements<'a>(it: Interpreter<'a>, ss: Seq<Statement>, i: int, last: Object<'a>) -> Option<
    Result<Object<'a>, Error>,
>
    decreases ss.len() - i,
{
    if i < 0 || i >= ss.len() {
        Some(Ok(last))
    } else {
        match pure_statement(it, ss[i]) {
            Some(Ok(v)) => if crate::object::is_control(v) {
                Some(Ok(v))
            } else {
                pure_statements(it, ss, i + 1, v)
            },
            Some(Err(e)) => Some(Err(e)),
            None => None,
        }
    }
}

/// A pattern `Ok(name)` or `Err(name)`: whether it is `Ok`, and the name
/// it binds.
pub open spec fn result_binding_pattern(pattern: Expression) -> Option<(bool, String)> {
    match pattern.kind {
        ExpressionKind::Call { function, arguments } => match function.kind {
            ExpressionKind::Identifier(f) => if (f@ == "Ok"@ || f@ == "Err"@) && arguments@.len() == 1 {
                match arguments@[0].kind {
                    ExpressionKind::Identifier(bind) => Some((f@ == "Ok"@, bind)),
                    _ => None,
                }
            } else {
                None
            },
            _ => None,
        },
        _ => None,
    }
}

/// How a pattern expression matches `subject`, where that changes nothing:
/// `Ok(name)` or `Err(name)` matches a result of that kind and binds the
/// name to its payload; a pattern that is no call, and that `pure_eval`
/// decides, matches an equal value and binds nothing. `Ok(None)` for no
/// match, an error for a pattern whose evaluation fails; `None` for any
/// other pattern.
pub open spec fn pattern_outcome<'a>(it: Interpreter<'a>, subject: Object<'a>, pattern: Expression) -> Option<
    Result<Option<Seq<(String, Object<'a>)>>, Error>,
> {
    match result_binding_pattern(pattern) {
        Some((ok, bind)) => Some(
            Ok(
                match subject {
                    Object::OkValue(v) => if ok {
                        Some(seq![(bind, *v)])
                    } else {
                        None
                    },
                    Object::ErrValue(v) => if !ok {
                        Some(seq![(bind, *v)])
                    } else {
                        None
                    },
                    _ => None,
                },
            ),
        ),
        None => if pattern.kind is Call {
            None
        } else {
            match pure_eval(it, pattern) {
                Some(Ok(v)) => Some(Ok(if same_value(v, subject) { Some(Seq::empty()) } else { None })),
                Some(Err(e)) => Some(Err(e)),
                None => None,
            }
        },
    }
}

/// Whether a match result is the outcome `r`, its bindings taken as a
/// sequence.
pub open spec fn bindings_outcome<'a>(res: Result<Option<Bindings<'a>>, Error>, r: Result<Option<Seq<(String, Object<'a>)>>, Error>) -> bool {
    match r {
        Ok(Some(bs)) => res matches Ok(Some(b)) && b@ == bs,
        Ok(None) => res == Ok::<Option<Bindings<'a>>, Error>(None),
        Err(e) => res == Err::<Option<Bindings<'a>>, Error>(e),
    }
}

/// Names bound by a successful pattern match, with their values.
pub type Bindings<'a> = Vec<(String, Object<'a>)>;

impl<'a> Interpreter<'a> {
    /// The value of a literal.
    pub fn eval_literal(&self, literal: &Literal) -> (o: Object<'a>)
        ensures
            o == literal_object(*literal),
    {
        match literal {
            Literal::Integer(i) => Object::Integer(*i),
            Literal::String(s) => Object::String(s.clone()),
            Literal::Boolean(b) => Object::Boolean(*b),
            Literal::Null => Object::Null,
        }
    }

    /// Applies a unary operator to an evaluated operand; an unsupported
    /// operand is reported at `span`.
    pub fn eval_unary_expression(&self, operator: crate::ast::UnaryOperator, right: Object<'a>, span: Span) -> (res: Result<Object<'a>, Error>)
        ensures
            match unary_op_result(operator, right) {
                Ok(v) => res == Ok::<Object<'a>, Error>(v),
                Err(k) => res == Err::<Object<'a>, Error>(error_at(k, span)),
            },
    {
        match unary_op(operator, &right) {
            Ok(v) => Ok(v),
            Err(k) => Err(k.at(span)),
        }
    }

    /// `object[index]` on evaluated operands, where a string index that
    /// falls inside the string's bytes but past its characters is
    /// `CharIndexPastEnd`; otherwise as `eval_index_expression`.
    pub fn eval_checked_index(&self, object: Object<'a>, index: Object<'a>, span: Span) -> (res: Result<Object<'a>, Error>)
        ensures
            object matches Object::String(s) ==> (index matches Object::Integer(i) ==> (!crate::interpreter::index::string_index_ok(s, i as int)
                <==> (res matches Err(e) && e.kind == (ErrorKind::CharIndexPastEnd { index: i }) && e.span == span))),
            res matches Err(e) ==> e.span == span,
            crate::interpreter::index::index_outcome(*self, object, index, span) matches Some(r) ==> res == r,
    {
        match (&object, &index) {
            (Object::String(s), Object::Integer(i)) => {
                match self.resolve_index(*i, s.as_str().len()) {
                    Some(k) => {
                        if k >= s.as_str().unicode_len() {
                            return Err(Error::new(ErrorKind::CharIndexPastEnd { index: *i }, span));
                        }
                    },
                    None => {},
                }
            },
            _ => {},
        }
        self.eval_index_expression(object, index, span)
    }

    /// Evaluates an expression. `ty` is the resolved type the value is
    /// expected to have, which decides what a collection literal builds. A
    /// value that is an error result, except one that `?` produced, is
    /// returned wrapped in a `return` signal, so that it leaves the enclosing
    /// function.
    pub fn eval_expression(&mut self, expression: &'a Expression, ty: Option<usize>, depth: usize) -> (res: Result<Object<'a>, Error>)
        requires
            old(self).wf(),
        ensures
            evolved(*old(self), *final(self)),
            res is Ok ==> final(self).stack.frames@ == old(self).stack.frames@,
            expression.kind matches ExpressionKind::Literal(l) ==> res == Ok::<Object<'a>, Error>(literal_object(l))
                && *final(self) == *old(self),
            expression.kind matches ExpressionKind::Identifier(name) ==> (match crate::interpreter::lookup::identifier_value(
                *old(self), *expression, name@) {
                Some(v) => res == Ok::<Object<'a>, Error>(if v is ErrValue { Object::Return(Box::new(v)) } else { v }),
                None => res matches Err(e) && e.kind == (ErrorKind::NotDefined { name }) && e.span == expression.span,
            }) && *final(self) == *old(self),
            !(expression.kind is Try) ==> (res matches Ok(v) ==> !(v is ErrValue)),
            pure_eval(*old(self), *expression) matches Some(r) ==> res == r && *final(self) == *old(self),
            pure_match(*old(self), *expression) matches Some(r) ==> res == r && *final(self) == *old(self),
            expression.kind matches ExpressionKind::Call { function, arguments } ==> (pure_callee(
                *old(self),
                *function,
                arguments@,
            ) matches Some(f) ==> call_outcome(
                *old(self),
                *final(self),
                f,
                pure_values(*old(self), arguments@, 0)->Some_0,
                depth,
                expression.span,
                res,
            )),
        decreases depth, 2nat, expression, 2nat,
    {
        proof {
            lemma_pure_not_err(*old(self), *expression);
            lemma_pure_match_not_err(*old(self), *expression);
        }
        let span = expression.span;
        let result = match &expression.kind {
            ExpressionKind::Literal(literal) => Ok(self.eval_literal(literal)),
            ExpressionKind::Identifier(name) => self.eval_identifier(expression, name, span),
            ExpressionKind::This => self.get_this(span),
            ExpressionKind::StructConstruction { .. } => self.eval_struct_construction(expression, depth),
            ExpressionKind::Object { .. } => self.eval_object_literal(expression, depth),
            ExpressionKind::Collection { .. } => self.eval_collection(expression, ty, depth),
            ExpressionKind::Unary { operator, right } => {
                match self.eval_expression(right, None, depth) {
                    Ok(r) => self.eval_unary_expression(*operator, r, span),
                    Err(e) => Err(e),
                }
            },
            ExpressionKind::Binary { .. } => self.eval_binary_expression(expression, depth),
            ExpressionKind::Assignment { .. } => self.eval_assignment_expression(expression, depth),
            ExpressionKind::Update { .. } => self.eval_update_expression(expression, depth),
            ExpressionKind::Member { object, property } => {
                match self.eval_expression(object, None, depth) {
                    Ok(o) => self.eval_access_expression(o, property, span),
                    Err(e) => Err(e),
                }
            },
            ExpressionKind::Index { object, index } => {
                match self.eval_expression(object, None, depth) {
                    Ok(o) => match self.eval_expression(index, None, depth) {
                        Ok(i) => self.eval_checked_index(o, i, span),
                        Err(e) => Err(e),
                    },
                    Err(e) => Err(e),
                }
            },
            ExpressionKind::Call { .. } => self.eval_call(expression, depth),
            ExpressionKind::If { .. } => self.eval_if_expression(expression, ty, depth),
            ExpressionKind::Match { .. } => self.eval_match_expression(expression, depth),
            ExpressionKind::Block(block) => self.eval_block_statement_with_new_scope(block, depth),
            ExpressionKind::Fn { parameters, body, kind } => {
                let resolved = match kind {
                    Some(t) => match self.resolve_type(t) {
                        Ok(k) => Some(k),
                        Err(e) => {
                            return Err(e);
                        },
                    },
                    None => None,
                };
                Ok(self.alloc_user_function(parameters, body, resolved))
            },
            ExpressionKind::Typed { expr, kind } => self.eval_and_check_type(expr, Some(kind), depth),
            ExpressionKind::Import { path } => self.eval_import(path, span),
            ExpressionKind::Try(inner) => self.eval_result(inner, span, depth),
        };
        let value = match result {
            Ok(v) => v,
            Err(e) => {
                return Err(e);
            },
        };
        let is_try = match &expression.kind {
            ExpressionKind::Try(_) => true,
            _ => false,
        };
        if !is_try && value.is_result_err() {
            Ok(Object::Return(Box::new(value)))
        } else {
            Ok(value)
        }
    }

    /// Evaluates each expression in order, stopping at the first error.
    pub fn eval_arguments(&mut self, arguments: &'a Vec<Expression>, depth: usize) -> (res: Result<Vec<Object<'a>>, Error>)
        requires
            old(self).wf(),
        ensures
            evolved(*old(self), *final(self)),
            res is Ok ==> final(self).stack.frames@ == old(self).stack.frames@,
            res matches Ok(vs) ==> vs@.len() == arguments@.len(),
            pure_values(*old(self), arguments@, 0) matches Some(vs) ==> (res matches Ok(r) && r@ == vs) && *final(self)
                == *old(self),
        decreases depth, 2nat, arguments, 2nat,
    {
        let mut values: Vec<Object<'a>> = Vec::new();
        let mut i: usize = 0;
        proof {
            lemma_pure_values(*old(self), arguments@, 0);
        }
        while i < arguments.len()
            invariant
                evolved(*old(self), *self),
                self.stack.frames@ == old(self).stack.frames@,
                i <= arguments.len(),
                values@.len() == i,
                pure_values(*old(self), arguments@, 0) matches Some(vs) ==> *self == *old(self)
                    && values@ == vs.subrange(0, i as int) && vs.len() == arguments@.len()
                    && forall|k: int| 0 <= k < vs.len() ==> pure_eval(*old(self), #[trigger] arguments@[0 + k])
                    == Some(Ok::<Object<'a>, Error>(vs[k])),
            decreases arguments.len() - i,
        {
            proof {
                if pure_values(*old(self), arguments@, 0) is Some {
                    assert(arguments@[i as int] == arguments@[0 + i]);
                }
            }
            let v = self.eval_expression(&arguments[i], None, depth)?;
            values.push(v);
            i += 1;
        }
        Ok(values)
    }

    /// `left op right`. `&&` and `||` short-circuit: the left value is the
    /// result when it is a control signal or already decides, else the
    /// right value is. Other operators evaluate both sides, left first, and
    /// apply the operator (errors reported at the expression's span).
    pub fn eval_binary_expression(&mut self, expression: &'a Expression, depth: usize) -> (res: Result<Object<'a>, Error>)
        requires
            old(self).wf(),
            expression.kind is Binary,
        ensures
            evolved(*old(self), *final(self)),
            res is Ok ==> final(self).stack.frames@ == old(self).stack.frames@,
            pure_eval(*old(self), *expression) matches Some(r) ==> (match r {
                Ok(v) => res matches Ok(w) && returned(w) == v,
                Err(err) => res == Err::<Object<'a>, Error>(err),
            }) && *final(self) == *old(self),
        decreases depth, 2nat, expression, 1nat,
    {
        let span = expression.span;
        match &expression.kind {
            ExpressionKind::Binary { left, operator, right } => {
                if *operator == BinaryOperator::LogicalOr || *operator == BinaryOperator::LogicalAnd {
                    let left_val = self.eval_expression(left, None, depth)?;
                    if left_val.is_control_signal() {
                        return Ok(left_val);
                    }
                    if left_val.is_truthy() == (*operator == BinaryOperator::LogicalOr) {
                        return Ok(left_val);
                    }
                    return self.eval_expression(right, None, depth);
                }
                let l = self.eval_expression(left, None, depth)?;
                let r = self.eval_expression(right, None, depth)?;
                match binary_op(&l, *operator, &r) {
                    Ok(v) => Ok(v),
                    Err(k) => Err(k.at(span)),
                }
            },
            _ => Ok(Object::Void),
        }
    }

    /// `target op= value`. The right side is evaluated first; a control
    /// signal there is the result. For a compound operator the target's
    /// current value is combined with it. The final value is stored and is
    /// the result.
    pub fn eval_assignment_expression(&mut self, expression: &'a Expression, depth: usize) -> (res: Result<Object<'a>, Error>)
        requires
            old(self).wf(),
            expression.kind is Assignment,
        ensures
            evolved(*old(self), *final(self)),
            res is Ok ==> final(self).stack.frames@ == old(self).stack.frames@,
            expression.kind matches ExpressionKind::Assignment { left, operator: AssignmentOperator::Assign, right } ==> (
            left.kind matches ExpressionKind::Identifier(n) ==> (pure_eval(*old(self), *right) matches Some(Ok(v)) ==> (
            !crate::object::is_control(v) ==> stores(*old(self), *final(self), *left, n, v, v, res, expression.span)))),
            expression.kind matches ExpressionKind::Assignment { left, operator, right } ==> (operator
                != AssignmentOperator::Assign ==> (left.kind matches ExpressionKind::Identifier(n) ==> (pure_eval(
                *old(self),
                *right,
            ) matches Some(Ok(v)) ==> (stored_value(*old(self), *left, n@, assignment_binary(operator), v) matches Some(nv)
                ==> stores(*old(self), *final(self), *left, n, nv, nv, res, expression.span))))),
        decreases depth, 2nat, expression, 1nat,
    {
        let span = expression.span;
        match &expression.kind {
            ExpressionKind::Assignment { left, operator, right } => {
                let right_val = self.eval_expression(right, None, depth)?;
                if right_val.is_control_signal() {
                    return Ok(right_val);
                }
                let target = self.resolve_lvalue(left, span, depth)?;
                let final_val = if *operator == AssignmentOperator::Assign {
                    right_val
                } else {
                    let left_val = self.get_lvalue_value(&target, left, span)?;
                    if left_val.is_control_signal() {
                        return Ok(left_val);
                    }
                    match binary_op(&left_val, binary_of_assignment(*operator), &right_val) {
                        Ok(v) => v,
                        Err(k) => {
                            return Err(k.at(span));
                        },
                    }
                };
                self.set_lvalue_value(target, copy_object(&final_val), span)?;
                Ok(final_val)
            },
            _ => Ok(Object::Void),
        }
    }

    /// `++x`, `x++`, `--x`, `x--`: stores the value plus or minus one and
    /// gives the new value (prefix) or the old one (postfix).
    pub fn eval_update_expression(&mut self, expression: &'a Expression, depth: usize) -> (res: Result<Object<'a>, Error>)
        requires
            old(self).wf(),
            expression.kind is Update,
        ensures
            evolved(*old(self), *final(self)),
            res is Ok ==> final(self).stack.frames@ == old(self).stack.frames@,
            expression.kind matches ExpressionKind::Update { operator, argument, prefix } ==> (argument.kind matches ExpressionKind::Identifier(n)
                ==> (stored_value(*old(self), *argument, n@, update_binary(operator), Object::Integer(1)) matches Some(nv)
                ==> stores(
                *old(self),
                *final(self),
                *argument,
                n,
                nv,
                if prefix {
                    nv
                } else {
                    crate::interpreter::lookup::identifier_value(*old(self), *argument, n@)->Some_0
                },
                res,
                expression.span,
            ))),
        decreases depth, 2nat, expression, 1nat,
    {
        let span = expression.span;
        match &expression.kind {
            ExpressionKind::Update { operator, argument, prefix } => {
                let target = self.resolve_lvalue(argument, span, depth)?;
                let old_value = self.get_lvalue_value(&target, argument, span)?;
                if old_value.is_control_signal() {
                    return Ok(old_value);
                }
                let new_value = match binary_op(&old_value, binary_of_update(*operator), &Object::Integer(1)) {
                    Ok(v) => v,
                    Err(k) => {
                        return Err(k.at(span));
                    },
                };
                self.set_lvalue_value(target, copy_object(&new_value), span)?;
                Ok(if *prefix { new_value } else { old_value })
            },
            _ => Ok(Object::Void),
        }
    }

    /// The place an assignment stores into: a variable, with its resolved
    /// distance; a property of an object, which must not be constant; an
    /// element of an array, which must not be constant, at an integer index;
    /// a string key of an object. A control signal while evaluating the
    /// target's parts is `EarlyReturnInTarget`.
    pub fn resolve_lvalue(&mut self, target: &'a Expression, span: Span, depth: usize) -> (res: Result<LValue, Error>)
        requires
            old(self).wf(),
        ensures
            evolved(*old(self), *final(self)),
            res is Ok ==> final(self).stack.frames@ == old(self).stack.frames@,
            target.kind matches ExpressionKind::Identifier(name) ==> res == Ok::<LValue, Error>(LValue::Variable {
                name,
                distance: crate::interpreter::lookup::resolved_distance(*old(self), *target),
            }) && *final(self) == *old(self),
            !(target.kind is Identifier || target.kind is Member || target.kind is Index) ==> (res matches Err(e)
                && e.kind == ErrorKind::InvalidAssignmentTarget && e.span == span),
            pure_target(*old(self), *target, span) matches Some(r) ==> outcome_is(res, r) && *final(self) == *old(self),
            target.kind matches ExpressionKind::Member { property, .. } ==> (!(property.kind is Identifier) ==> res is Err),
            target.kind matches ExpressionKind::Member { property, .. } ==> (res matches Ok(lv) ==> (lv matches LValue::Property {
                name,
                ..
            } && property.kind == ExpressionKind::Identifier(name))),
            target.kind is Index ==> (res matches Ok(lv) ==> (lv is Property || lv is Index)),
        decreases depth, 2nat, target, 2nat,
    {
        match &target.kind {
            ExpressionKind::Identifier(name) => Ok(LValue::Variable {
                name: name.clone(),
                distance: self.get_resolved_distance(target),
            }),
            ExpressionKind::Member { object, property } => {
                let obj_val = self.eval_expression(object, None, depth)?;
                if obj_val.is_control_signal() {
                    return Err(Error::new(ErrorKind::EarlyReturnInTarget, span));
                }
                let name = match &property.kind {
                    ExpressionKind::Identifier(n) => n,
                    _ => {
                        return Err(Error::new(ErrorKind::InvalidAssignmentProperty, span));
                    },
                };
                match obj_val {
                    Object::Object { id, constant, .. } => {
                        if constant {
                            return Err(Error::new(ErrorKind::ConstantObjectProperty, span));
                        }
                        Ok(LValue::Property { object: id, name: name.clone() })
                    },
                    _ => Err(Error::new(ErrorKind::CannotAssignProperty { found: obj_val.value_kind() }, span)),
                }
            },
            ExpressionKind::Index { object, index } => {
                let obj_val = self.eval_expression(object, None, depth)?;
                if obj_val.is_control_signal() {
                    return Err(Error::new(ErrorKind::EarlyReturnInTarget, span));
                }
                let index_val = self.eval_expression(index, None, depth)?;
                if index_val.is_control_signal() {
                    return Err(Error::new(ErrorKind::EarlyReturnInTarget, span));
                }
                match obj_val {
                    Object::Object { id, constant, .. } => {
                        if constant {
                            return Err(Error::new(ErrorKind::ConstantObjectIndex, span));
                        }
                        match index_val {
                            Object::String(key) => Ok(LValue::Property { object: id, name: key }),
                            _ => Err(Error::new(ErrorKind::ObjectIndexNotString, span)),
                        }
                    },
                    Object::Array { id, kind, constant } => {
                        if constant {
                            return Err(Error::new(ErrorKind::ConstantArrayIndex, span));
                        }
                        let index = self.ensure_int_index(&index_val, span)?;
                        let fixed_size = self.fixed_size(kind);
                        Ok(LValue::Index { array: id, index, fixed_size })
                    },
                    _ => Err(Error::new(ErrorKind::CannotAssignIndex { found: obj_val.value_kind() }, span)),
                }
            },
            _ => Err(Error::new(ErrorKind::InvalidAssignmentTarget, span)),
        }
    }

    /// `f(args)`. A method call `object.name(args)` passes `object` as
    /// `this`, unless the method value is already bound to an instance.
    /// Arguments are evaluated in order before the call.
    pub fn eval_call(&mut self, expression: &'a Expression, depth: usize) -> (res: Result<Object<'a>, Error>)
        requires
            old(self).wf(),
            expression.kind is Call,
        ensures
            evolved(*old(self), *final(self)),
            res is Ok ==> final(self).stack.frames@ == old(self).stack.frames@,
            expression.kind matches ExpressionKind::Call { function, arguments } ==> (pure_callee(
                *old(self),
                *function,
                arguments@,
            ) matches Some(f) ==> call_outcome(
                *old(self),
                *final(self),
                f,
                pure_values(*old(self), arguments@, 0)->Some_0,
                depth,
                expression.span,
                res,
            )),
        decreases depth, 2nat, expression, 1nat,
    {
        let span = expression.span;
        match &expression.kind {
            ExpressionKind::Call { function, arguments } => {
                let (func_obj, this_binding) = match &function.kind {
                    ExpressionKind::Member { object, property } => {
                        let obj_val = self.eval_expression(object, None, depth)?;
                        let func = self.eval_access_expression(copy_object(&obj_val), property, span)?;
                        let bound_this = match &func {
                            Object::Function(Function::User { this: Some(t), .. }) => copy_object(t),
                            _ => obj_val,
                        };
                        (func, bound_this)
                    },
                    _ => (self.eval_expression(function, None, depth)?, Object::Void),
                };
                let evaluated = self.eval_arguments(arguments, depth)?;
                self.eval_call_with_this(func_obj, &evaluated, this_binding, span, depth)
            },
            _ => Ok(Object::Void),
        }
    }

    /// Calls a function value. A user function runs with its own bound
    /// instance as `this` if it has one, else with `this`; an enum
    /// constructor builds a variant value; a native function is not
    /// provided by this runtime (`NativeUnavailable`); any other value is
    /// `NotCallable`.
    pub fn eval_call_with_this(
        &mut self,
        function: Object<'a>,
        arguments: &Vec<Object<'a>>,
        this: Object<'a>,
        span: Span,
        depth: usize,
    ) -> (res: Result<Object<'a>, Error>)
        requires
            old(self).wf(),
        ensures
            evolved(*old(self), *final(self)),
            res is Ok ==> final(self).stack.frames@ == old(self).stack.frames@,
            call_outcome(*old(self), *final(self), function, arguments@, depth, span, res),
        decreases depth, 1nat, function, 0nat,
    {
        match function {
            Object::Function(f) => match f {
                Function::Native { name } => Err(Error::new(ErrorKind::NativeUnavailable { name }, span)),
                Function::User { func, env, this: bound } => {
                    let effective_this = match bound {
                        Some(t) => *t,
                        None => this,
                    };
                    self.eval_user_function_call_with_this(&func, env, arguments, effective_this, span, depth)
                },
                Function::Enum { name, variant, field_count } => self.construct_variant(
                    &name,
                    &variant,
                    field_count,
                    arguments,
                    span,
                ),
            },
            _ => Err(Error::new(ErrorKind::NotCallable { found: function.value_kind() }, span)),
        }
    }

    /// Runs a user function. More arguments than parameters are
    /// `TooManyArguments`; at depth zero the call is `CallDepthExceeded`.
    /// The function runs in a new scope nested in its closure scope (or the
    /// current one), where `this`, when given, and the name of `this`'s
    /// struct as `__current_struct__` are bound first, then each parameter
    /// to its argument, else its default evaluated in that scope, else
    /// `MissingArgument`; a parameter's annotated type is checked. The body's
    /// value, with a `return` unwrapped, is the result.
    #[verifier::rlimit(40)]
    #[verifier::loop_isolation(false)]
    pub fn eval_user_function_call_with_this(
        &mut self,
        user_fn: &UserFunction<'a>,
        closure_env: Option<usize>,
        arguments: &Vec<Object<'a>>,
        this: Object<'a>,
        span: Span,
        depth: usize,
    ) -> (res: Result<Object<'a>, Error>)
        requires
            old(self).wf(),
        ensures
            evolved(*old(self), *final(self)),
            res is Ok ==> final(self).stack.frames@ == old(self).stack.frames@,
            arguments.len() > user_fn.parameters.len() ==> (res matches Err(e) && e.kind == (ErrorKind::TooManyArguments {
                expected: user_fn.parameters.len(),
                found: arguments.len(),
            }) && e.span == span && *final(self) == *old(self)),
            arguments.len() <= user_fn.parameters.len() && depth == 0 ==> (res matches Err(e) && e.kind
                == ErrorKind::CallDepthExceeded && e.span == span && *final(self) == *old(self)),
            missing_first(user_fn.parameters@, arguments@.len()) && depth > 0 ==> (res matches Err(e) && e.kind
                == (ErrorKind::MissingArgument { parameter: user_fn.parameters@[arguments@.len() as int].name })
                && e.span == span),
            arguments.len() == user_fn.parameters.len() && depth > 0 && untyped(user_fn.parameters@) ==> (literal_body(
                *user_fn.body,
            ) matches Some(l) ==> res == Ok::<Object<'a>, Error>(literal_object(l))),
            forall|k: int|
                #![trigger first_typed(user_fn.parameters@, k)]
                arguments.len() == user_fn.parameters.len() && depth > 0 && first_typed(user_fn.parameters@, k)
                    && primitive_admits(user_fn.parameters@[k].ty->Some_0.kind, arguments@[k]) == Some(false) ==> (res matches Err(
                    e,
                ) && e.kind == (ErrorKind::TypeMismatch { found: kind_of(arguments@[k]) })),
            filled(user_fn.parameters@, arguments@.len()) && depth > 0 && untyped(user_fn.parameters@)
                ==> exists|mid: Interpreter<'a>| #[trigger] call_frame(*old(self), mid, call_parent(*old(self), closure_env))
                && this_bound(mid, this, user_fn.parameters@)
                && params_bound(mid.stack, user_fn.parameters@, call_values(user_fn.parameters@, arguments@)) && (body_outcome(mid, *user_fn.body) matches Some(
                r,
            ) ==> res == match r {
                Ok(v) => Ok::<Object<'a>, Error>(strip_return(v)),
                Err(e) => Err::<Object<'a>, Error>(e),
            } && final(self).stack.frames@ == old(self).stack.frames@ && final(self).stack.scopes@ == mid.stack.scopes@),
        decreases depth, 0nat, this, 0nat,
    {
        let parameters: &'a Vec<crate::ast::Parameter> = user_fn.parameters;
        let body: &'a FunctionBody = user_fn.body;
        if arguments.len() > parameters.len() {
            return Err(Error::new(ErrorKind::TooManyArguments { expected: parameters.len(), found: arguments.len() }, span));
        }
        if depth == 0 {
            return Err(Error::new(ErrorKind::CallDepthExceeded, span));
        }
        let env = match closure_env {
            Some(e) => if e < self.stack.scopes.len() { Some(e) } else { None },
            None => None,
        };
        let ghost frames0 = self.stack.frames@;
        self.stack.push(String::from_str("function_call"), env);
        let ghost frames1 = self.stack.frames@;
        let ghost simple = filled(parameters@, arguments@.len()) && untyped(parameters@);
        let ghost values = call_values(parameters@, arguments@);
        let ghost parent = call_parent(*old(self), closure_env);
        assert(self.stack.scopes@.drop_last() =~= old(self).stack.scopes@);
        proof {
            reveal_strlit("this");
            reveal_strlit("__current_struct__");
            assert("this"@ != "__current_struct__"@) by {
                assert("this"@.len() != "__current_struct__"@.len());
            }
        }
        let ghost opened = *self;
        match &this {
            Object::Void => {},
            _ => {
                self.stack.define(String::from_str("this"), copy_object(&this), false, true);
                let struct_name = match &this {
                    Object::Object { definition: Some(d), .. } => if *d < self.heap.structs.len() {
                        Some(self.heap.structs[*d].name.clone())
                    } else {
                        None
                    },
                    Object::Struct(d) => if *d < self.heap.structs.len() {
                        Some(self.heap.structs[*d].name.clone())
                    } else {
                        None
                    },
                    _ => None,
                };
                assert(struct_name == current_struct(self.heap, this));
                match struct_name {
                    Some(n) => {
                        self.stack.define(String::from_str("__current_struct__"), Object::String(n), false, true);
                    },
                    None => {},
                }
            },
        }
        proof {
            assert(self.stack.scopes@.drop_last() =~= old(self).stack.scopes@) by {
                assert forall|t: int| 0 <= t < old(self).stack.scopes@.len() implies self.stack.scopes@[t]
                    == old(self).stack.scopes@[t] by {
                    assert(opened.stack.scopes@[t] == opened.stack.scopes@.drop_last()[t]);
                }
            }
        }
        let mut i: usize = 0;
        while i < parameters.len()
            invariant
                evolved(*old(self), *self),
                self.stack.frames@ == frames1,
                frames1 == frames0.push(frames1.last()),
                frames0 == old(self).stack.frames@,
                depth > 0,
                i <= parameters.len(),
                missing_first(parameters@, arguments@.len()) ==> i <= arguments.len(),
                simple == (filled(parameters@, arguments@.len()) && untyped(parameters@)),
                values == call_values(parameters@, arguments@),
                forall|k: int|
                    #![trigger first_typed(parameters@, k)]
                    arguments.len() == parameters.len() && first_typed(parameters@, k) && primitive_admits(
                        parameters@[k].ty->Some_0.kind,
                        arguments@[k],
                    ) == Some(false) ==> i <= k,
                parent == call_parent(*old(self), closure_env),
                simple ==> call_frame(*old(self), *self, parent),
                simple && !(this is Void) && unshadowed(parameters@.subrange(0, i as int), "this"@) ==> binds_here(
                    self.stack,
                    "this"@,
                    this,
                    false,
                    true,
                ),
                simple && !(this is Void) && unshadowed(parameters@.subrange(0, i as int), "__current_struct__"@) ==> (current_struct(
                    self.heap,
                    this,
                ) matches Some(n) ==> binds_here(self.stack, "__current_struct__"@, Object::String(n), false, true)),
                simple ==> self.heap == old(self).heap,
                "this"@ != "__current_struct__"@,
                simple ==> forall|k: int|
                    0 <= k < i && (forall|j: int| k < j < i ==> (#[trigger] parameters@[j]).name@ != parameters@[k].name@)
                        ==> #[trigger] binds_here(self.stack, parameters@[k].name@, values[k], false, false),
            decreases parameters.len() - i,
        {
            let param = &parameters[i];
            let value = if i < arguments.len() {
                copy_object(&arguments[i])
            } else {
                match &param.default {
                    Some(default) => self.eval_expression(default, None, depth - 1)?,
                    None => {
                        return Err(Error::new(ErrorKind::MissingArgument { parameter: param.name.clone() }, span));
                    },
                }
            };
            proof {
                if simple {
                    assert(value == values[i as int]);
                }
            }
            match &param.ty {
                Some(param_type) => {
                    let tid = self.resolve_type(param_type)?;
                    check_type(&self.heap, tid, &value, param_type.span)?;
                },
                None => {},
            }
            let ghost st_before = self.stack;
            self.stack.define(param.name.clone(), value, false, false);
            proof {
                if simple && !(this is Void) {
                    let upto = parameters@.subrange(0, i + 1);
                    let before_i = parameters@.subrange(0, i as int);
                    assert(upto[i as int] == parameters@[i as int]);
                    assert forall|k: int| 0 <= k < i implies #[trigger] before_i[k] == upto[k] by {}
                }
                if simple {
                    let cur = st_before.current_index();
                    assert(self.stack.scopes@.drop_last() =~= old(self).stack.scopes@) by {
                        assert forall|t: int| 0 <= t < old(self).stack.scopes@.len() implies self.stack.scopes@[t]
                            == old(self).stack.scopes@[t] by {
                            assert(st_before.scopes@[t] == st_before.scopes@.drop_last()[t]);
                        }
                    }
                    let nm = parameters@[i as int].name@;
                    assert forall|k: int|
                        0 <= k < i + 1 && (forall|j: int| k < j < i + 1 ==> (#[trigger] parameters@[j]).name@
                            != parameters@[k].name@) implies #[trigger] binds_here(
                        self.stack,
                        parameters@[k].name@,
                        values[k],
                        false,
                        false,
                    ) by {
                        if k < i {
                            assert(parameters@[i as int].name@ != parameters@[k].name@);
                            assert forall|j: int| k < j < i implies (#[trigger] parameters@[j]).name@ != parameters@[k].name@ by {
                            }
                            assert(binds_here(st_before, parameters@[k].name@, values[k], false, false));
                        }
                    }
                }
            }
            i += 1;
        }
        proof {
            assert(parameters@.subrange(0, parameters@.len() as int) =~= parameters@);
        }
        let ghost mid = *self;
        let result = match body {
            FunctionBody::Block(block) => self.eval_statements(&block.statements, depth - 1),
            FunctionBody::Expression(expr) => self.eval_expression(expr, None, depth - 1),
        };
        self.stack.pop();
        proof {
            if simple {
                assert(call_frame(*old(self), mid, parent) && params_bound(mid.stack, parameters@, values));
                assert(this_bound(mid, this, parameters@));
            }
        }
        match result {
            Ok(v) => Ok(copy_object(v.unwrap_return())),
            Err(e) => Err(e),
        }
    }

    /// `[a, b, ...]`. With an expected array type the elements are evaluated
    /// against its element type and make an array of that type; with an
    /// expected tuple type they make a tuple; otherwise no elements make an
    /// empty array and some make a tuple.
    #[verifier::loop_isolation(false)]
    pub fn eval_collection(&mut self, expression: &'a Expression, ty: Option<usize>, depth: usize) -> (res: Result<Object<'a>, Error>)
        requires
            old(self).wf(),
            expression.kind is Collection,
        ensures
            evolved(*old(self), *final(self)),
            res is Ok ==> final(self).stack.frames@ == old(self).stack.frames@,
            ty is None ==> (expression.kind matches ExpressionKind::Collection { elements } ==> (pure_values(
                *old(self), elements@, 0) matches Some(vs) ==> final(self).stack == old(self).stack
                && (old(self).heap.allocations == usize::MAX ==> (res matches Err(e) && e.kind == ErrorKind::AllocationLimit))
                && (old(self).heap.allocations < usize::MAX && vs.len() > 0 ==> res == Ok::<Object<'a>, Error>(
                    Object::Tuple { id: old(self).heap.tuples.len() as usize }) && final(self).heap.tuples@.len()
                    == old(self).heap.tuples@.len() + 1 && final(self).heap.tuples@.last()@ == vs
                    && final(self).heap.arrays@ == old(self).heap.arrays@)
                && (old(self).heap.allocations < usize::MAX && vs.len() == 0 ==> (res matches Ok(
                    Object::Array { id, kind, constant: false }) && id == old(self).heap.arrays.len()
                    && final(self).heap.arrays@.last()@.len() == 0 && (final(self).heap.types@[kind as int] matches TypeNode::Array {
                    element,
                    size: None,
                } && final(self).heap.types@[element as int] is Void))))),
        decreases depth, 2nat, expression, 1nat,
    {
        let span = expression.span;
        match &expression.kind {
            ExpressionKind::Collection { elements } => {
                let (el_hint, hint_is_array, hint_is_tuple) = match ty {
                    Some(t) => if t < self.heap.types.len() {
                        match &self.heap.types[t] {
                            TypeNode::Array { element, .. } => (Some(*element), true, false),
                            TypeNode::Tuple(_) => (None, false, true),
                            _ => (None, false, false),
                        }
                    } else {
                        (None, false, false)
                    },
                    None => (None, false, false),
                };
                let mut results: Vec<Object<'a>> = Vec::new();
                let mut i: usize = 0;
                proof {
                    lemma_pure_values(*old(self), elements@, 0);
                }
                while i < elements.len()
                    invariant
                        evolved(*old(self), *self),
                        self.stack.frames@ == old(self).stack.frames@,
                        i <= elements.len(),
                        pure_values(*old(self), elements@, 0) matches Some(vs) ==> *self == *old(self)
                            && results@ == vs.subrange(0, i as int) && vs.len() == elements@.len()
                            && forall|k: int| 0 <= k < vs.len() ==> pure_eval(*old(self), #[trigger] elements@[0 + k])
                            == Some(Ok::<Object<'a>, Error>(vs[k])),
                    decreases elements.len() - i,
                {
                    let v = self.eval_expression(&elements[i], el_hint, depth)?;
                    proof {
                        if pure_values(*old(self), elements@, 0) is Some {
                            assert(elements@[i as int] == elements@[0 + i]);
                        }
                    }
                    results.push(v);
                    i += 1;
                }
                if self.heap.allocations == usize::MAX {
                    return Err(Error::new(ErrorKind::AllocationLimit, span));
                }
                if hint_is_array {
                    let t = match ty {
                        Some(t) => t,
                        None => 0,
                    };
                    Ok(self.heap.alloc_array(results, t, false))
                } else if hint_is_tuple {
                    Ok(self.heap.alloc_tuple(results))
                } else if results.len() == 0 {
                    let void = self.heap.add_type(TypeNode::Void);
                    let kind = self.heap.add_type(TypeNode::Array { element: void, size: None });
                    Ok(self.heap.alloc_array(results, kind, false))
                } else {
                    Ok(self.heap.alloc_tuple(results))
                }
            },
            _ => Ok(Object::Void),
        }
    }

    /// The properties of an object or struct literal, in order: a key that
    /// is a name stands for itself, any other key must evaluate to a string
    /// (`PropertyKeyNotString`, at the key's span).
    pub fn eval_properties(&mut self, properties: &'a Vec<(Expression, Expression)>, depth: usize) -> (res: Result<
        Properties<'a>,
        Error,
    >)
        requires
            old(self).wf(),
        ensures
            evolved(*old(self), *final(self)),
            res is Ok ==> final(self).stack.frames@ == old(self).stack.frames@,
            pure_props(*old(self), properties@, 0, Seq::empty()) matches Some(r) ==> *final(self) == *old(self) && match r {
                Ok(ps) => res matches Ok(f) && f@ == ps,
                Err(e) => res == Err::<Properties<'a>, Error>(e),
            },
        decreases depth, 2nat, properties, 2nat,
    {
        let mut fields: Properties<'a> = Vec::new();
        let mut i: usize = 0;
        while i < properties.len()
            invariant
                evolved(*old(self), *self),
                self.stack.frames@ == old(self).stack.frames@,
                i <= properties.len(),
                pure_props(*old(self), properties@, 0, Seq::empty()) is Some ==> *self == *old(self) && pure_props(
                    *old(self),
                    properties@,
                    i as int,
                    fields@,
                ) == pure_props(*old(self), properties@, 0, Seq::empty()),
            decreases properties.len() - i,
        {
            let key_expr = &properties[i].0;
            let value_expr = &properties[i].1;
            let key = match &key_expr.kind {
                ExpressionKind::Identifier(name) => name.clone(),
                _ => {
                    let key_obj = self.eval_expression(key_expr, None, depth)?;
                    match key_obj {
                        Object::String(s) => s,
                        _ => {
                            return Err(Error::new(ErrorKind::PropertyKeyNotString, key_expr.span));
                        },
                    }
                },
            };
            let value = self.eval_expression(value_expr, None, depth)?;
            props_insert(&mut fields, key, value);
            i += 1;
        }
        Ok(fields)
    }

    /// `{ key: value, ... }`: a new, mutable plain object.
    pub fn eval_object_literal(&mut self, expression: &'a Expression, depth: usize) -> (res: Result<Object<'a>, Error>)
        requires
            old(self).wf(),
            expression.kind is Object,
        ensures
            evolved(*old(self), *final(self)),
            res is Ok ==> final(self).stack.frames@ == old(self).stack.frames@,
            res matches Ok(v) ==> (v matches Object::Object { definition: None, constant: false, .. }),
            expression.kind matches ExpressionKind::Object { properties } ==> (pure_props(
                *old(self),
                properties@,
                0,
                Seq::empty(),
            ) matches Some(r) ==> match r {
                Ok(ps) => if old(self).heap.allocations == usize::MAX {
                    res == Err::<Object<'a>, Error>(error_at(ErrorKind::AllocationLimit, expression.span)) && *final(self)
                        == *old(self)
                } else {
                    res == Ok::<Object<'a>, Error>(
                        Object::Object { id: old(self).heap.objects.len() as usize, definition: None, constant: false },
                    ) && final(self).stack == old(self).stack && final(self).heap.objects@.len() == old(self).heap.objects@.len()
                        + 1 && final(self).heap.objects@.subrange(0, old(self).heap.objects@.len() as int)
                        == old(self).heap.objects@ && final(self).heap.objects@.last()@ == ps
                },
                Err(e) => res == Err::<Object<'a>, Error>(e) && *final(self) == *old(self),
            }),
        decreases depth, 2nat, expression, 1nat,
    {
        match &expression.kind {
            ExpressionKind::Object { properties } => {
                let fields = self.eval_properties(properties, depth)?;
                if self.heap.allocations == usize::MAX {
                    return Err(Error::new(ErrorKind::AllocationLimit, expression.span));
                }
                Ok(self.heap.alloc_object(fields, None, false))
            },
            _ => Ok(Object::Object { id: 0, definition: None, constant: false }),
        }
    }

    /// Struct construction, inside a struct's static method where `this` is
    /// the struct. Every declared field takes the given value, else its
    /// default (evaluated one call level deeper), else is `MissingField`;
    /// each is checked against its type. Given properties that the struct
    /// does not declare are dropped.
    #[verifier::loop_isolation(false)]
    pub fn eval_struct_construction(&mut self, expression: &'a Expression, depth: usize) -> (res: Result<Object<'a>, Error>)
        requires
            old(self).wf(),
            expression.kind is StructConstruction,
        ensures
            evolved(*old(self), *final(self)),
            res is Ok ==> final(self).stack.frames@ == old(self).stack.frames@,
            res matches Ok(v) ==> (v matches Object::Object { definition: Some(_), constant: false, .. }),
            match old(self).stack.lookup("this"@) {
                None => res == Err::<Object<'a>, Error>(error_at(ErrorKind::ThisNotDefined, expression.span)) && *final(self)
                    == *old(self),
                Some(t) => !(t matches Object::Struct(d) && d < old(self).heap.structs.len()) ==> (res matches Err(e)
                    && e.kind == (ErrorKind::NotStructDefinition { found: kind_of(t) }) && e.span == expression.span
                    && *final(self) == *old(self)),
            },
            expression.kind matches ExpressionKind::StructConstruction { properties } ==> (this_struct(*old(self)) matches Some(
                d,
            ) ==> (pure_props(*old(self), properties@, 0, Seq::empty()) matches Some(Ok(given)) ==> (struct_fields(
                *old(self),
                old(self).heap.structs@[d as int].fields@,
                given,
                0,
                Seq::empty(),
                expression.span,
                depth,
            ) matches Some(r) ==> constructed(*old(self), *final(self), d, r, expression.span, res)))),
        decreases depth, 2nat, expression, 1nat,
    {
        let span = expression.span;
        match &expression.kind {
            ExpressionKind::StructConstruction { properties } => {
                let this_obj = self.get_this(span)?;
                let d = match this_obj {
                    Object::Struct(d) => if d < self.heap.structs.len() {
                        d
                    } else {
                        return Err(Error::new(ErrorKind::NotStructDefinition { found: this_obj.value_kind() }, span));
                    },
                    _ => {
                        return Err(Error::new(ErrorKind::NotStructDefinition { found: this_obj.value_kind() }, span));
                    },
                };
                let field_defs: &'a Vec<StructField> = self.heap.structs[d].fields;
                let given = self.eval_properties(properties, depth)?;
                let ghost decided = pure_props(*old(self), properties@, 0, Seq::empty()) matches Some(Ok(gv)) && struct_fields(
                    *old(self),
                    field_defs@,
                    gv,
                    0,
                    Seq::empty(),
                    span,
                    depth,
                ) is Some;
                let mut final_fields: Properties<'a> = Vec::new();
                let mut i: usize = 0;
                while i < field_defs.len()
                    invariant
                        evolved(*old(self), *self),
                        self.stack.frames@ == old(self).stack.frames@,
                        i <= field_defs.len(),
                        decided ==> (*self == *old(self) || crate::interpreter::only_types_grew(*old(self), *self))
                            && struct_fields(*old(self), field_defs@, given@, i as int, final_fields@, span, depth)
                            == struct_fields(*old(self), field_defs@, given@, 0, Seq::empty(), span, depth)
                            && self.heap.objects@ == old(self).heap.objects@
                            && self.heap.allocations == old(self).heap.allocations,
                    decreases field_defs.len() - i,
                {
                    let field = &field_defs[i];
                    let value = match props_get(&given, &field.name) {
                        Some(v) => v,
                        None => match &field.default {
                            Some(default) => {
                                if depth == 0 {
                                    return Err(Error::new(ErrorKind::CallDepthExceeded, span));
                                }
                                proof {
                                    if decided {
                                        lemma_pure_eval_types_grow(*old(self), *self, *default);
                                    }
                                }
                                self.eval_expression(default, None, depth - 1)?
                            },
                            None => {
                                return Err(Error::new(ErrorKind::MissingField { field: field.name.clone() }, span));
                            },
                        },
                    };
                    let ghost prev = *self;
                    let tid = self.resolve_type(&field.kind)?;
                    proof {
                        if decided && prev != *old(self) {
                            crate::interpreter::types::lemma_prefix_trans(
                                old(self).heap.types@,
                                prev.heap.types@,
                                self.heap.types@,
                            );
                        }
                    }
                    check_type(&self.heap, tid, &value, field.kind.span)?;
                    props_insert(&mut final_fields, field.name.clone(), value);
                    i += 1;
                }
                if self.heap.allocations == usize::MAX {
                    return Err(Error::new(ErrorKind::AllocationLimit, span));
                }
                Ok(self.heap.alloc_object(final_fields, Some(d), false))
            },
            _ => Ok(Object::Object { id: 0, definition: Some(0), constant: false }),
        }
    }

    /// `if`. A condition that is a pattern assignment (`Ok(x) = value`)
    /// that matches runs the `then` branch in a new scope holding the bound
    /// names. Otherwise the condition is evaluated: a truthy value runs the
    /// `then` branch, else the `else` branch if any, else the result is the
    /// empty value.
    pub fn eval_if_expression(&mut self, expression: &'a Expression, ty: Option<usize>, depth: usize) -> (res: Result<Object<'a>, Error>)
        requires
            old(self).wf(),
            expression.kind is If,
        ensures
            evolved(*old(self), *final(self)),
            res is Ok ==> final(self).stack.frames@ == old(self).stack.frames@,
            pure_eval(*old(self), *expression) matches Some(r) ==> res == r && *final(self) == *old(self),
        decreases depth, 2nat, expression, 1nat,
    {
        match &expression.kind {
            ExpressionKind::If { condition, then_branch, else_branch } => {
                proof {
                    lemma_pure_not_err(*old(self), **condition);
                }
                match self.try_match_assignment(condition, depth)? {
                    Some(bindings) => {
                        self.stack.push(String::from_str("if_binding"), None);
                        self.define_bindings(bindings);
                        let result = self.eval_expression(then_branch, ty, depth);
                        self.stack.pop();
                        return result;
                    },
                    None => {},
                }
                let condition_val = self.eval_expression(condition, None, depth)?;
                if condition_val.is_truthy() {
                    self.eval_expression(then_branch, ty, depth)
                } else {
                    match else_branch {
                        Some(e) => self.eval_expression(e, ty, depth),
                        None => Ok(Object::Void),
                    }
                }
            },
            _ => Ok(Object::Void),
        }
    }

    /// Binds each name to its value in the current scope, mutable and private.
    pub fn define_bindings(&mut self, bindings: Bindings<'a>)
        requires
            old(self).wf(),
        ensures
            final(self).wf(),
            final(self).stack.frames@ == old(self).stack.frames@,
            final(self).stack.scopes@.len() == old(self).stack.scopes@.len(),
            final(self).heap == old(self).heap,
            final(self).locals == old(self).locals,
            final(self).steps == old(self).steps,
            final(self).path == old(self).path,
            final(self).modules@ == old(self).modules@,
            forall|i: int| 0 <= i < bindings@.len() && last_named(bindings@, i) ==> final(self).stack.lookup(
                (#[trigger] bindings@[i]).0@) == Some(bindings@[i].1),
            forall|m: Seq<char>| (forall|i: int| 0 <= i < bindings@.len() ==> (#[trigger] bindings@[i]).0@ != m) ==> #[trigger] final(
                self).stack.lookup(m) == old(self).stack.lookup(m),
    {
        let mut i: usize = 0;
        while i < bindings.len()
            invariant
                forall|k: int| 0 <= k < i && (forall|j: int| k < j < i ==> (#[trigger] bindings@[j]).0@ != bindings@[k].0@)
                    ==> self.stack.lookup((#[trigger] bindings@[k]).0@) == Some(bindings@[k].1),
                forall|m: Seq<char>| (forall|k: int| 0 <= k < i ==> (#[trigger] bindings@[k]).0@ != m) ==> #[trigger] self.stack.lookup(
                    m) == old(self).stack.lookup(m),
                self.wf(),
                self.stack.frames@ == old(self).stack.frames@,
                self.stack.scopes@.len() == old(self).stack.scopes@.len(),
                self.heap == old(self).heap,
                self.locals == old(self).locals,
                self.steps == old(self).steps,
                self.path == old(self).path,
                self.modules@ == old(self).modules@,
                i <= bindings.len(),
            decreases bindings.len() - i,
        {
            let ghost before = self.stack;
            self.stack.define(bindings[i].0.clone(), copy_object(&bindings[i].1), false, false);
            proof {
                let nm = bindings@[i as int].0@;
                assert forall|k: int| 0 <= k < i + 1 && (forall|j: int| k < j < i + 1 ==> (#[trigger] bindings@[j]).0@
                    != bindings@[k].0@) implies self.stack.lookup((#[trigger] bindings@[k]).0@) == Some(bindings@[k].1) by {
                    if k < i {
                        assert(bindings@[i as int].0@ != bindings@[k].0@);
                        assert forall|j: int| k < j < i implies (#[trigger] bindings@[j]).0@ != bindings@[k].0@ by {
                        }
                    }
                }
                assert forall|m: Seq<char>| (forall|k: int| 0 <= k < i + 1 ==> (#[trigger] bindings@[k]).0@ != m) implies #[trigger] self.stack.lookup(
                    m) == old(self).stack.lookup(m) by {
                    assert(bindings@[i as int].0@ != m);
                    assert forall|k: int| 0 <= k < i implies (#[trigger] bindings@[k]).0@ != m by {
                    }
                }
            }
            i += 1;
        }
    }

    /// For a pattern assignment `Ok(p) = value` or `Err(p) = value`:
    /// evaluates the value, sees a `return` of an error as the error, and
    /// matches it against the pattern (see `match_pattern_internal`). Any
    /// other condition is no pattern assignment (`None`, with nothing
    /// evaluated).
    pub fn try_match_assignment(&mut self, condition: &'a Expression, depth: usize) -> (res: Result<Option<Bindings<'a>>, Error>)
        requires
            old(self).wf(),
        ensures
            evolved(*old(self), *final(self)),
            res is Ok ==> final(self).stack.frames@ == old(self).stack.frames@,
            !pattern_assignment(*condition) ==> res == Ok::<Option<Bindings<'a>>, Error>(None) && *final(self) == *old(self),
            condition.kind matches ExpressionKind::Assignment { left, operator: AssignmentOperator::Assign, right } ==> (
            pattern_assignment(*condition) ==> (pure_eval(*old(self), *right) matches Some(rv) ==> match rv {
                Err(e) => res == Err::<Option<Bindings<'a>>, Error>(e) && *final(self) == *old(self),
                Ok(v) => pattern_outcome(*old(self), strip_return_err(v), *left) matches Some(r) ==> *final(self)
                    == *old(self) && bindings_outcome(res, r),
            })),
            condition.kind matches ExpressionKind::Assignment { left, operator: AssignmentOperator::Assign, .. } ==> (
            result_binding_pattern(*left) matches Some((_, bind)) ==> (res matches Ok(Some(b)) ==> b@.len() == 1 && b@[0].0@
                == bind@)),
        decreases depth, 2nat, condition, 2nat,
    {
        match &condition.kind {
            ExpressionKind::Assignment { left, operator, right } => {
                if *operator == AssignmentOperator::Assign && is_result_pattern(left) {
                    let right_val = self.eval_expression(right, None, depth)?;
                    let effective = copy_object(right_val.unwrap_return_err());
                    return self.match_pattern_internal(&effective, left, condition.span, depth);
                }
                Ok(None)
            },
            _ => Ok(None),
        }
    }

    /// Matches a value against a pattern expression. `Ok(p)` and `Err(p)`
    /// match a result of that kind: a name `p` binds the payload, any other
    /// `p` is evaluated and must equal it. Any other pattern is evaluated and
    /// matches an equal value, binding nothing.
    pub fn match_pattern_internal(&mut self, subject: &Object<'a>, pattern: &'a Expression, span: Span, depth: usize) -> (res: Result<
        Option<Bindings<'a>>,
        Error,
    >)
        requires
            old(self).wf(),
        ensures
            evolved(*old(self), *final(self)),
            res is Ok ==> final(self).stack.frames@ == old(self).stack.frames@,
            !(pattern.kind is Call) ==> (pure_eval(*old(self), *pattern) matches Some(r) ==> *final(self) == *old(self)
                && match r {
                Ok(v) => if same_value(v, *subject) {
                    res matches Ok(Some(b)) && b@.len() == 0
                } else {
                    res matches Ok(None)
                },
                Err(e) => res == Err::<Option<Bindings<'a>>, Error>(e),
            }),
            result_binding_pattern(*pattern) matches Some((ok, bind)) ==> *final(self) == *old(self) && match *subject {
                Object::OkValue(v) => if ok {
                    res matches Ok(Some(b)) && b@.len() == 1 && b@[0].0@ == bind@ && b@[0].1 == *v
                } else {
                    res matches Ok(None)
                },
                Object::ErrValue(v) => if !ok {
                    res matches Ok(Some(b)) && b@.len() == 1 && b@[0].0@ == bind@ && b@[0].1 == *v
                } else {
                    res matches Ok(None)
                },
                _ => res matches Ok(None),
            },
            pattern_outcome(*old(self), *subject, *pattern) matches Some(r) ==> *final(self) == *old(self) && bindings_outcome(
                res,
                r,
            ),
            res matches Ok(Some(b)) && b@.len() != 0 ==> result_binding_pattern(*pattern) is Some,
        decreases depth, 2nat, pattern, 3nat,
    {
        match &pattern.kind {
            ExpressionKind::Call { function, arguments } => {
                match &function.kind {
                    ExpressionKind::Identifier(name) => {
                        proof {
                            reveal_strlit("Ok");
                            reveal_strlit("Err");
                            assert("Ok"@.len() == 2);
                            assert("Err"@.len() == 3);
                            assert("Ok"@ != "Err"@);
                        }
                        let is_ok = *name == String::from_str("Ok");
                        let is_err = *name == String::from_str("Err");
                        if (is_ok || is_err) && arguments.len() == 1 {
                            let inner = match subject {
                                Object::OkValue(v) => if is_ok { Some(copy_object(v)) } else { None },
                                Object::ErrValue(v) => if is_err { Some(copy_object(v)) } else { None },
                                _ => None,
                            };
                            match inner {
                                Some(inner_val) => {
                                    let arg = &arguments[0];
                                    match &arg.kind {
                                        ExpressionKind::Identifier(bind_name) => {
                                            let mut bindings: Bindings<'a> = Vec::new();
                                            bindings.push((bind_name.clone(), inner_val));
                                            return Ok(Some(bindings));
                                        },
                                        _ => {
                                            let arg_val = self.eval_expression(arg, None, depth)?;
                                            if values_equal(&arg_val, &inner_val) {
                                                return Ok(Some(Vec::new()));
                                            }
                                        },
                                    }
                                },
                                None => {},
                            }
                            return Ok(None);
                        }
                    },
                    _ => {},
                }
            },
            _ => {},
        }
        let pattern_val = self.eval_expression(pattern, None, depth)?;
        if values_equal(&pattern_val, subject) {
            Ok(Some(Vec::new()))
        } else {
            Ok(None)
        }
    }

    /// Matches a value against one pattern of a `match` arm. A range
    /// `start..end` matches an integer, or a string, between its bounds
    /// inclusive; its bounds must then be integers (`IntegerRangeBounds`),
    /// or strings (`StringRangeBounds`). `else` matches anything.
    pub fn eval_match_pattern(&mut self, subject: &Object<'a>, pattern: &'a Pattern, span: Span, depth: usize) -> (res: Result<
        Option<Bindings<'a>>,
        Error,
    >)
        requires
            old(self).wf(),
        ensures
            evolved(*old(self), *final(self)),
            res is Ok ==> final(self).stack.frames@ == old(self).stack.frames@,
            *pattern matches Pattern::Expression(e) ==> (pattern_outcome(*old(self), *subject, e) matches Some(r)
                ==> *final(self) == *old(self) && bindings_outcome(res, r)),
            pure_pattern(*old(self), *subject, *pattern, span) matches Some(r) ==> *final(self) == *old(self) && match r {
                Ok(m) => if m {
                    res matches Ok(Some(b)) && b@.len() == 0
                } else {
                    res == Ok::<Option<Bindings<'a>>, Error>(None)
                },
                Err(e) => res == Err::<Option<Bindings<'a>>, Error>(e),
            },
            res matches Ok(Some(b)) && b@.len() != 0 ==> (*pattern matches Pattern::Expression(e) && result_binding_pattern(e) is Some),
            *pattern is Range && !(*subject is Integer || *subject is String) ==> res == Ok::<Option<Bindings<'a>>, Error>(None)
                && *final(self) == *old(self),
        decreases depth, 2nat, pattern, 2nat,
    {
        match pattern {
            Pattern::Expression(e) => self.match_pattern_internal(subject, e, span, depth),
            Pattern::Range(start, end) => {
                match subject {
                    Object::Integer(i) => {
                        let start_val = self.eval_expression(start, None, depth)?;
                        let end_val = self.eval_expression(end, None, depth)?;
                        match (start_val, end_val) {
                            (Object::Integer(lo), Object::Integer(hi)) => {
                                if *i >= lo && *i <= hi {
                                    Ok(Some(Vec::new()))
                                } else {
                                    Ok(None)
                                }
                            },
                            _ => Err(Error::new(ErrorKind::IntegerRangeBounds, span)),
                        }
                    },
                    Object::String(s) => {
                        let start_val = self.eval_expression(start, None, depth)?;
                        let end_val = self.eval_expression(end, None, depth)?;
                        match (start_val, end_val) {
                            (Object::String(lo), Object::String(hi)) => {
                                if !string_less(s, &lo) && !string_less(&hi, s) {
                                    Ok(Some(Vec::new()))
                                } else {
                                    Ok(None)
                                }
                            },
                            _ => Err(Error::new(ErrorKind::StringRangeBounds, span)),
                        }
                    },
                    _ => Ok(None),
                }
            },
            Pattern::Else => Ok(Some(Vec::new())),
        }
    }

    /// `match subject { ... }`. The subject, a `return` of an error seen as
    /// the error, is tried against the arms' patterns in order. The first
    /// match runs its arm, in a new scope holding the bound names if there
    /// are any. The arm's value is the result, except that a `break` or
    /// `continue` becomes the empty value. No match gives the empty value.
    #[verifier::rlimit(100)]
    #[verifier::loop_isolation(false)]
    pub fn eval_match_expression(&mut self, expression: &'a Expression, depth: usize) -> (res: Result<Object<'a>, Error>)
        requires
            old(self).wf(),
            expression.kind is Match,
        ensures
            evolved(*old(self), *final(self)),
            res is Ok ==> final(self).stack.frames@ == old(self).stack.frames@,
            res matches Ok(v) ==> !(v is Break || v is Continue),
            pure_match(*old(self), *expression) matches Some(r) ==> res == r && *final(self) == *old(self),
        decreases depth, 2nat, expression, 1nat,
    {
        let span = expression.span;
        match &expression.kind {
            ExpressionKind::Match { subject, arms } => {
                let subject_val = self.eval_expression(subject, None, depth)?;
                let effective = copy_object(subject_val.unwrap_return_err());
                let ghost decided = pure_match(*old(self), *expression) is Some;
                let mut i: usize = 0;
                while i < arms.len()
                    invariant
                        evolved(*old(self), *self),
                        self.stack.frames@ == old(self).stack.frames@,
                        i <= arms.len(),
                        decided ==> *self == *old(self) && pure_arm(*old(self), effective, arms@, i as int, 0, span)
                            == pure_arm(*old(self), effective, arms@, 0, 0, span),
                    decreases arms.len() - i,
                {
                    let arm = &arms[i];
                    let mut j: usize = 0;
                    while j < arm.patterns.len()
                        invariant
                            evolved(*old(self), *self),
                            self.stack.frames@ == old(self).stack.frames@,
                            j <= arm.patterns.len(),
                            decided ==> *self == *old(self) && pure_arm(*old(self), effective, arms@, i as int, j as int, span)
                                == pure_arm(*old(self), effective, arms@, 0, 0, span),
                        decreases arm.patterns.len() - j,
                    {
                        match self.eval_match_pattern(&effective, &arm.patterns[j], span, depth)? {
                            Some(bindings) => {
                                let scoped = bindings.len() > 0;
                                if scoped {
                                    self.stack.push(String::from_str("match_arm"), None);
                                    self.define_bindings(bindings);
                                }
                                let result = match &arm.body {
                                    FunctionBody::Block(block) => self.eval_block_statement_with_new_scope(block, depth),
                                    FunctionBody::Expression(e) => self.eval_expression(e, None, depth),
                                };
                                if scoped {
                                    self.stack.pop();
                                }
                                let value = result?;
                                if value.is_control_signal() {
                                    match value {
                                        Object::Return(_) => {
                                            return Ok(value);
                                        },
                                        _ => {
                                            return Ok(Object::Void);
                                        },
                                    }
                                }
                                return Ok(value);
                            },
                            None => {},
                        }
                        j += 1;
                    }
                    i += 1;
                }
                Ok(Object::Void)
            },
            _ => Ok(Object::Void),
        }
    }

    /// `value?`: the value, with a `return` of an error unwrapped to the
    /// error itself.
    pub fn eval_result(&mut self, inner: &'a Expression, span: Span, depth: usize) -> (res: Result<Object<'a>, Error>)
        requires
            old(self).wf(),
        ensures
            evolved(*old(self), *final(self)),
            res is Ok ==> final(self).stack.frames@ == old(self).stack.frames@,
            pure_eval(*old(self), *inner) matches Some(r) ==> *final(self) == *old(self) && res == match r {
                Ok(v) => Ok::<Object<'a>, Error>(strip_return_err(v)),
                Err(e) => Err::<Object<'a>, Error>(e),
            },
        decreases depth, 2nat, inner, 3nat,
    {
        let val = self.eval_expression(inner, None, depth)?;
        Ok(copy_object(val.unwrap_return_err()))
    }

    /// Evaluates an expression against an optional type annotation: the
    /// annotation is resolved, guides the evaluation, and the value is
    /// checked against it (`TypeMismatch`, at the annotation's span).
    pub fn eval_and_check_type(&mut self, expression: &'a Expression, ty: Option<&Type>, depth: usize) -> (res: Result<
        Object<'a>,
        Error,
    >)
        requires
            old(self).wf(),
        ensures
            evolved(*old(self), *final(self)),
            res is Ok ==> final(self).stack.frames@ == old(self).stack.frames@,
            ty is None ==> (pure_eval(*old(self), *expression) matches Some(r) ==> res == r && *final(self) == *old(self)),
            ty matches Some(t) ==> (pure_eval(*old(self), *expression) matches Some(Ok(v)) ==> final(self).stack
                == old(self).stack && match res {
                Ok(w) => w == v,
                Err(e) => e.kind == (ErrorKind::TypeMismatch { found: kind_of(v) }) && e.span == t.span,
            }),
        decreases depth, 2nat, expression, 3nat,
    {
        let ghost before = *self;
        let resolved = match ty {
            Some(t) => Some(self.resolve_type(t)?),
            None => None,
        };
        proof {
            lemma_pure_eval_types_grow(before, *self, *expression);
        }
        let value = self.eval_expression(expression, resolved, depth)?;
        match (resolved, ty) {
            (Some(tid), Some(t)) => {
                check_type(&self.heap, tid, &value, t.span)?;
            },
            _ => {},
        }
        Ok(value)
    }

    /// Evaluates statements in order. The first control signal stops the
    /// sequence and is its value; otherwise the value of the last statement
    /// is, or the empty value for none.
    pub fn eval_statements(&mut self, statements: &'a Vec<Statement>, depth: usize) -> (res: Result<Object<'a>, Error>)
        requires
            old(self).wf(),
        ensures
            evolved(*old(self), *final(self)),
            res is Ok ==> final(self).stack.frames@ == old(self).stack.frames@,
            pure_statements(*old(self), statements@, 0, Object::Void) matches Some(r) ==> res == r && *final(self)
                == *old(self),
        decreases depth, 2nat, statements, 2nat,
    {
        let mut result = Object::Void;
        let mut i: usize = 0;
        while i < statements.len()
            invariant
                evolved(*old(self), *self),
                self.stack.frames@ == old(self).stack.frames@,
                i <= statements.len(),
                pure_statements(*old(self), statements@, 0, Object::Void) is Some ==> *self == *old(self)
                    && pure_statements(*old(self), statements@, i as int, result) == pure_statements(
                    *old(self),
                    statements@,
                    0,
                    Object::Void,
                ),
            decreases statements.len() - i,
        {
            result = self.eval_statement(&statements[i], depth)?;
            if result.is_control_signal() {
                return Ok(result);
            }
            i += 1;
        }
        Ok(result)
    }

    /// A block's statements in the current scope.
    pub fn eval_block_statement(&mut self, block: &'a StatementBlock, depth: usize) -> (res: Result<Object<'a>, Error>)
        requires
            old(self).wf(),
        ensures
            evolved(*old(self), *final(self)),
            res is Ok ==> final(self).stack.frames@ == old(self).stack.frames@,
            pure_statements(*old(self), block.statements@, 0, Object::Void) matches Some(r) ==> res == r
                && *final(self) == *old(self),
        decreases depth, 2nat, block, 2nat,
    {
        self.eval_statements(&block.statements, depth)
    }

    /// A block's statements in a new scope, left afterwards.
    pub fn eval_block_statement_with_new_scope(&mut self, block: &'a StatementBlock, depth: usize) -> (res: Result<
        Object<'a>,
        Error,
    >)
        requires
            old(self).wf(),
        ensures
            evolved(*old(self), *final(self)),
            res is Ok ==> final(self).stack.frames@ == old(self).stack.frames@,
            final(self).stack.scopes@.len() > old(self).stack.scopes@.len(),
            block.statements@.len() == 0 ==> res == Ok::<Object<'a>, Error>(Object::Void),
            exists|mid: Interpreter<'a>, name: String| #[trigger] entered_block(*old(self), mid, name) && (pure_statements(
                mid,
                block.statements@,
                0,
                Object::Void,
            ) matches Some(r) ==> res == r && *final(self) == (Interpreter { stack: final(self).stack, ..mid })
                && final(self).stack.scopes@ == mid.stack.scopes@ && final(self).stack.frames@ == old(self).stack.frames@),
        decreases depth, 2nat, block, 2nat,
    {
        let name = String::from_str("block");
        let ghost nm = name;
        self.stack.push(name, None);
        let ghost mid = *self;
        let result = self.eval_statements(&block.statements, depth);
        self.stack.pop();
        assert(entered_block(*old(self), mid, nm));
        result
    }

    /// `let binding = value`: the value, checked against the annotation if
    /// any, is bound mutable and private.
    pub fn eval_let_statement(&mut self, binding: &Binding, value_expr: &'a Expression, ty: Option<&Type>, depth: usize) -> (res:
        Result<Object<'a>, Error>)
        requires
            old(self).wf(),
        ensures
            evolved(*old(self), *final(self)),
            res is Ok ==> final(self).stack.frames@ == old(self).stack.frames@,
            res matches Ok(v) ==> v == Object::Void,
            ty is None ==> (*binding matches Binding::Identifier(name) ==> (pure_eval(*old(self), *value_expr) matches Some(Ok(v))
                ==> res == Ok::<Object<'a>, Error>(Object::Void) && final(self).stack.lookup(name@) == Some(with_constant(v, false))
                && binds_here(final(self).stack, name@, with_constant(v, false), false, false)
                && forall|m: Seq<char>| m != name@ ==> #[trigger] final(self).stack.lookup(m) == old(self).stack.lookup(m))),
            *binding matches Binding::Identifier(n) ==> (res is Ok ==> exists|v: Object<'a>| #[trigger] binds_here(
                final(self).stack,
                n@,
                v,
                false,
                false,
            ) && v == with_constant(v, false)),
            ty is Some ==> (*binding matches Binding::Identifier(n) ==> (pure_eval(*old(self), *value_expr) matches Some(Ok(v))
                ==> match res {
                Ok(_) => final(self).stack.lookup(n@) == Some(with_constant(v, false)),
                Err(e) => e.kind == (ErrorKind::TypeMismatch { found: kind_of(v) }) && final(self).stack == old(self).stack,
            })),
        decreases depth, 2nat, value_expr, 4nat,
    {
        let mut value = self.eval_and_check_type(value_expr, ty, depth)?;
        value.set_constant(false);
        let ghost gv = value;
        self.apply_binding(binding, value, false, value_expr.span, false)?;
        proof {
            if binding is Identifier {
                assert(binds_here(self.stack, binding->Identifier_0@, gv, false, false));
            }
        }
        Ok(Object::Void)
    }

    /// `const binding = value`: as `let`, but bound constant, and public
    /// when declared so.
    pub fn eval_const_statement(
        &mut self,
        binding: &Binding,
        value_expr: &'a Expression,
        public: bool,
        ty: Option<&Type>,
        span: Span,
        depth: usize,
    ) -> (res: Result<Object<'a>, Error>)
        requires
            old(self).wf(),
        ensures
            evolved(*old(self), *final(self)),
            res is Ok ==> final(self).stack.frames@ == old(self).stack.frames@,
            res matches Ok(v) ==> v == Object::Void,
            ty is None ==> (*binding matches Binding::Identifier(name) ==> (pure_eval(*old(self), *value_expr) matches Some(Ok(v))
                ==> res == Ok::<Object<'a>, Error>(Object::Void) && final(self).stack.lookup(name@) == Some(with_constant(v, true))
                && binds_here(final(self).stack, name@, with_constant(v, true), public, true)
                && forall|m: Seq<char>| m != name@ ==> #[trigger] final(self).stack.lookup(m) == old(self).stack.lookup(m))),
            *binding matches Binding::Identifier(n) ==> (res is Ok ==> exists|v: Object<'a>| #[trigger] binds_here(
                final(self).stack,
                n@,
                v,
                public,
                true,
            ) && v == with_constant(v, true)),
            ty is Some ==> (*binding matches Binding::Identifier(n) ==> (pure_eval(*old(self), *value_expr) matches Some(Ok(v))
                ==> match res {
                Ok(_) => final(self).stack.lookup(n@) == Some(with_constant(v, true)),
                Err(e) => e.kind == (ErrorKind::TypeMismatch { found: kind_of(v) }) && final(self).stack == old(self).stack,
            })),
        decreases depth, 2nat, value_expr, 4nat,
    {
        let mut value = self.eval_and_check_type(value_expr, ty, depth)?;
        value.set_constant(true);
        let ghost gv = value;
        self.apply_binding(binding, value, public, span, true)?;
        proof {
            if binding is Identifier {
                assert(binds_here(self.stack, binding->Identifier_0@, gv, public, true));
            }
        }
        Ok(Object::Void)
    }

    /// Evaluates one statement.
    pub fn eval_statement(&mut self, statement: &'a Statement, depth: usize) -> (res: Result<Object<'a>, Error>)
        requires
            old(self).wf(),
        ensures
            evolved(*old(self), *final(self)),
            res is Ok ==> final(self).stack.frames@ == old(self).stack.frames@,
            statement.kind is While || statement.kind is For ==> (res matches Ok(v) ==> loop_value(v)),
            pure_statement(*old(self), *statement) matches Some(r) ==> res == r && *final(self) == *old(self),
            statement.kind is Break ==> res == Ok::<Object<'a>, Error>(Object::Break) && *final(self) == *old(self),
            statement.kind is Continue ==> res == Ok::<Object<'a>, Error>(Object::Continue) && *final(self) == *old(self),
            statement.kind matches StatementKind::Return { value: None } ==> res == Ok::<Object<'a>, Error>(
                Object::Return(Box::new(Object::Void))) && *final(self) == *old(self),
            statement.kind matches StatementKind::Return { value: Some(e) } ==> (pure_eval(*old(self), *e) matches Some(Ok(v))
                ==> res == Ok::<Object<'a>, Error>(Object::Return(Box::new(v))) && *final(self) == *old(self)),
            statement.kind matches StatementKind::Expression { expression } ==> (pure_expr(*old(self), expression) matches Some(r)
                ==> res == r && *final(self) == *old(self)),
            statement.kind matches StatementKind::Let { name: Binding::Identifier(n), value, kind: None } ==> (pure_eval(
                *old(self), value) matches Some(Ok(v)) ==> res == Ok::<Object<'a>, Error>(Object::Void)
                && final(self).stack.lookup(n@) == Some(with_constant(v, false))
                && binds_here(final(self).stack, n@, with_constant(v, false), false, false)
                && forall|m: Seq<char>| m != n@ ==> #[trigger] final(self).stack.lookup(m) == old(self).stack.lookup(m)),
            statement.kind matches StatementKind::Const { binding: Binding::Identifier(n), value, kind: None, public } ==> (pure_eval(
                *old(self), value) matches Some(Ok(v)) ==> res == Ok::<Object<'a>, Error>(Object::Void)
                && final(self).stack.lookup(n@) == Some(with_constant(v, true))
                && binds_here(final(self).stack, n@, with_constant(v, true), public, true)
                && forall|m: Seq<char>| m != n@ ==> #[trigger] final(self).stack.lookup(m) == old(self).stack.lookup(m)),
            statement.kind matches StatementKind::Let { name: Binding::Identifier(n), .. } ==> (res is Ok ==> exists|v: Object<'a>|
                #[trigger] binds_here(final(self).stack, n@, v, false, false) && v == with_constant(v, false)),
            statement.kind matches StatementKind::Const { binding: Binding::Identifier(n), public, .. } ==> (res is Ok ==> exists|
                v: Object<'a>,
            | #[trigger] binds_here(final(self).stack, n@, v, public, true) && v == with_constant(v, true)),
            statement.kind matches StatementKind::Let { name: Binding::Identifier(n), value, kind: Some(_) } ==> (pure_eval(
                *old(self),
                value,
            ) matches Some(Ok(v)) ==> match res {
                Ok(_) => final(self).stack.lookup(n@) == Some(with_constant(v, false)),
                Err(e) => e.kind == (ErrorKind::TypeMismatch { found: kind_of(v) }) && final(self).stack == old(self).stack,
            }),
            statement.kind matches StatementKind::For { binding, iterable, body } ==> (binding is Identifier && literal_stmts(
                body.statements@,
                0,
            ) ==> (pure_eval(*old(self), iterable) matches Some(Ok(v)) ==> ((v is Array || v is Tuple || v is String)
                && !yields_nothing(*old(self), v) ==> (pure_statements(*old(self), body.statements@, 0, Object::Void) matches Some(
                r,
            ) ==> res == every_round(r) && final(self).stack.frames@ == old(self).stack.frames@)))),
            statement.kind matches StatementKind::For { binding, iterable, body } ==> (per_element(
                *old(self),
                binding,
                iterable,
                body,
            ) ==> res == Ok::<Object<'a>, Error>(Object::Void) && ran_per_element(
                *old(self),
                *final(self),
                binding->Identifier_0@,
                sequence_elements(*old(self), pure_eval(*old(self), iterable)->Some_0->Ok_0),
            )),
            statement.kind matches StatementKind::While { condition, body } ==> (endless(*old(self), condition, body) ==> (res matches Err(
                e,
            ) && e.kind == ErrorKind::StepLimit && e.span == statement.span) && *final(self) == (Interpreter {
                steps: 0,
                ..*old(self)
            })),
            statement.kind matches StatementKind::Struct { name, .. } ==> res == Ok::<Object<'a>, Error>(Object::Void)
                && final(self).stack.lookup(name@) == Some(Object::Struct(old(self).heap.structs.len() as usize)),
            statement.kind matches StatementKind::Fn { name, parameters, body, kind, .. } ==> res == Ok::<Object<'a>, Error>(
                Object::Void) && (final(self).stack.lookup(name@) matches Some(Object::Function(Function::User { func, env, this }))
                && *func.parameters == parameters && *func.body == body && env == Some(
                old(self).stack.current_index() as usize,
            ) && this is None && (kind is None ==> func.ty is None)),
            statement.kind matches StatementKind::Enum { name, .. } ==> (if old(self).heap.allocations == usize::MAX {
                res matches Err(e) && e.kind == ErrorKind::AllocationLimit && e.span == statement.span && *final(self)
                    == *old(self)
            } else {
                res == Ok::<Object<'a>, Error>(Object::Void) && final(self).stack.lookup(name@) == Some(
                    Object::Object { id: old(self).heap.objects.len() as usize, definition: None, constant: true },
                )
            }),
            statement.kind matches StatementKind::Type { name, .. } ==> res == Ok::<Object<'a>, Error>(Object::Void)
                && final(self).stack.lookup(name@) matches Some(Object::Type(_)),
            statement.kind is While && old(self).steps == 0 ==> (res matches Err(e) && e.kind == ErrorKind::StepLimit
                && e.span == statement.span),
            statement.kind matches StatementKind::While { condition, .. } ==> (ends_at_once(*old(self), condition) ==> res
                == Ok::<Object<'a>, Error>(Object::Void) && *final(self) == (Interpreter {
                steps: (old(self).steps - 1) as u64,
                ..*old(self)
            })),
            statement.kind matches StatementKind::While { condition, body } ==> (first_round(*old(self), condition, body)
                matches Some(r) ==> res == r && *final(self) == (Interpreter {
                steps: (old(self).steps - 1) as u64,
                ..*old(self)
            })),
            statement.kind matches StatementKind::For { iterable, .. } ==> (pure_eval(*old(self), iterable) matches Some(Ok(v))
                ==> (yields_nothing(*old(self), v) ==> res == Ok::<Object<'a>, Error>(Object::Void) && *final(self)
                == *old(self))),
        decreases depth, 2nat, statement, 2nat,
    {
        let span = statement.span;
        match &statement.kind {
            StatementKind::Expression { expression } => self.eval_expression(expression, None, depth),
            StatementKind::Let { name, value, kind } => {
                let ty = match kind {
                    Some(t) => Some(t),
                    None => None,
                };
                self.eval_let_statement(name, value, ty, depth)
            },
            StatementKind::Const { binding, value, public, kind } => {
                let ty = match kind {
                    Some(t) => Some(t),
                    None => None,
                };
                self.eval_const_statement(binding, value, *public, ty, span, depth)
            },
            StatementKind::Fn { name, parameters, body, public, kind } => {
                let ty = match kind {
                    Some(t) => Some(t),
                    None => None,
                };
                self.eval_function_statement(name, parameters, body, *public, ty)
            },
            StatementKind::Enum { public, name, variants } => self.eval_enum_statement(name, variants, *public, span),
            StatementKind::Struct { public, name, fields, methods } => self.eval_struct_statement(name, fields, methods, *public),
            StatementKind::Type { public, name, kind } => self.eval_type_statement(name, kind, *public),
            StatementKind::Return { .. } => self.eval_return_statement(statement, depth),
            StatementKind::Break => Ok(Object::Break),
            StatementKind::Continue => Ok(Object::Continue),
            StatementKind::While { .. } => self.eval_while_statement(statement, depth),
            StatementKind::For { .. } => self.eval_for_statement(statement, depth),
            StatementKind::Test { body, .. } => self.eval_block_statement_with_new_scope(body, depth),
        }
    }

    /// `return value`: the value (empty when omitted) in a `return` signal.
    pub fn eval_return_statement(&mut self, statement: &'a Statement, depth: usize) -> (res: Result<Object<'a>, Error>)
        requires
            old(self).wf(),
            statement.kind is Return,
        ensures
            evolved(*old(self), *final(self)),
            res is Ok ==> final(self).stack.frames@ == old(self).stack.frames@,
            res matches Ok(v) ==> v is Return,
            statement.kind matches StatementKind::Return { value: None } ==> res == Ok::<Object<'a>, Error>(
                Object::Return(Box::new(Object::Void))) && *final(self) == *old(self),
            statement.kind matches StatementKind::Return { value: Some(e) } ==> (pure_eval(*old(self), *e) matches Some(Ok(v))
                ==> res == Ok::<Object<'a>, Error>(Object::Return(Box::new(v))) && *final(self) == *old(self)),
        decreases depth, 2nat, statement, 1nat,
    {
        match &statement.kind {
            StatementKind::Return { value } => {
                let v = match value {
                    Some(e) => self.eval_expression(e, None, depth)?,
                    None => Object::Void,
                };
                Ok(Object::Return(Box::new(v)))
            },
            _ => Ok(Object::Return(Box::new(Object::Void))),
        }
    }

    /// `while condition { body }`. Each round costs one step of the budget
    /// (`StepLimit` when none is left). A pattern assignment condition that
    /// matches binds its names in the current scope and runs the body; one
    /// that does not, with an `Ok(..)` or `Err(..)` pattern, ends the loop.
    /// Otherwise a falsy condition ends the loop. After the body, a `break`
    /// ends the loop with the empty value, a `return` (except one of an
    /// error result) ends it with that signal.
    #[verifier::rlimit(40)]
    #[verifier::loop_isolation(false)]
    pub fn eval_while_statement(&mut self, statement: &'a Statement, depth: usize) -> (res: Result<Object<'a>, Error>)
        requires
            old(self).wf(),
            statement.kind is While,
        ensures
            evolved(*old(self), *final(self)),
            res is Ok ==> final(self).stack.frames@ == old(self).stack.frames@,
            res matches Ok(v) ==> loop_value(v),
            old(self).steps == 0 ==> (res matches Err(e) && e.kind == ErrorKind::StepLimit && e.span == statement.span),
            statement.kind matches StatementKind::While { condition, .. } ==> (ends_at_once(*old(self), condition) ==> res
                == Ok::<Object<'a>, Error>(Object::Void) && *final(self) == (Interpreter {
                steps: (old(self).steps - 1) as u64,
                ..*old(self)
            })),
            statement.kind matches StatementKind::While { condition, body } ==> (first_round(*old(self), condition, body)
                matches Some(r) ==> res == r && *final(self) == (Interpreter {
                steps: (old(self).steps - 1) as u64,
                ..*old(self)
            })),
            statement.kind matches StatementKind::While { condition, body } ==> (endless(*old(self), condition, body) ==> (res matches Err(
                e,
            ) && e.kind == ErrorKind::StepLimit && e.span == statement.span) && *final(self) == (Interpreter {
                steps: 0,
                ..*old(self)
            })),
        decreases depth, 2nat, statement, 1nat,
    {
        let span = statement.span;
        match &statement.kind {
            StatementKind::While { condition, body } => {
                let ghost mut first = true;
                loop
                    invariant
                        evolved(*old(self), *self),
                        self.stack.frames@ == old(self).stack.frames@,
                        old(self).steps == 0 ==> self.steps == 0,
                        first ==> *self == *old(self),
                        !first ==> !ends_at_once(*old(self), *condition),
                        !first ==> first_round(*old(self), *condition, *body) is None,
                        endless(*old(self), *condition, *body) ==> *self == (Interpreter { steps: self.steps, ..*old(self) }),
                    decreases self.steps,
                {
                    if self.steps == 0 {
                        return Err(Error::new(ErrorKind::StepLimit, span));
                    }
                    self.steps = self.steps - 1;
                    proof {
                        if first || endless(*old(self), *condition, *body) {
                            lemma_pure_eval_ignores_steps(*old(self), *self, *condition);
                            lemma_pure_not_err(*self, *condition);
                        }
                    }
                    match self.try_match_assignment(condition, depth)? {
                        Some(bindings) => {
                            self.define_bindings(bindings);
                        },
                        None => {
                            if is_result_pattern_assignment(condition) {
                                break;
                            }
                            let c = self.eval_expression(condition, None, depth)?;
                            if !c.is_truthy() {
                                break;
                            }
                        },
                    }
                    proof {
                        if endless(*old(self), *condition, *body) {
                            lemma_literal_stmts(*old(self), *self, body.statements@, 0, Object::Void);
                        }
                    }
                    let result = self.eval_block_statement(body, depth)?;
                    proof {
                        first = false;
                    }
                    match self.handle_loop_control(result) {
                        Some(ctrl) => {
                            return Ok(ctrl);
                        },
                        None => {},
                    }
                }
                Ok(Object::Void)
            },
            _ => Ok(Object::Void),
        }
    }

    /// `for binding in iterable { body }`. Each element (see
    /// `collect_iterable_elements`) is bound in a new scope of its own, where
    /// the body runs; a `break` ends the loop with the empty value, a
    /// `return` (except one of an error result) ends it with that signal.
    #[verifier::rlimit(40)]
    #[verifier::loop_isolation(false)]
    pub fn eval_for_statement(&mut self, statement: &'a Statement, depth: usize) -> (res: Result<Object<'a>, Error>)
        requires
            old(self).wf(),
            statement.kind is For,
        ensures
            evolved(*old(self), *final(self)),
            res is Ok ==> final(self).stack.frames@ == old(self).stack.frames@,
            res matches Ok(v) ==> loop_value(v),
            statement.kind matches StatementKind::For { iterable, .. } ==> (pure_eval(*old(self), iterable) matches Some(r)
                ==> (match r {
                Ok(v) => (yields_nothing(*old(self), v) ==> res == Ok::<Object<'a>, Error>(Object::Void) && *final(self)
                    == *old(self)) && (!(v is Array || v is Tuple || v is String || v is Object) ==> (res matches Err(e)
                    && e.kind == (ErrorKind::NotIterable { found: kind_of(v) }) && e.span == statement.span) && *final(self)
                    == *old(self)),
                Err(e) => res == Err::<Object<'a>, Error>(e) && *final(self) == *old(self),
            })),
            statement.kind matches StatementKind::For { binding, iterable, body } ==> (binding is Identifier && literal_stmts(
                body.statements@,
                0,
            ) ==> (pure_eval(*old(self), iterable) matches Some(Ok(v)) ==> ((v is Array || v is Tuple || v is String)
                && !yields_nothing(*old(self), v) ==> (pure_statements(*old(self), body.statements@, 0, Object::Void) matches Some(
                r,
            ) ==> res == every_round(r) && final(self).stack.frames@ == old(self).stack.frames@)))),
            statement.kind matches StatementKind::For { binding, iterable, body } ==> (per_element(
                *old(self),
                binding,
                iterable,
                body,
            ) ==> res == Ok::<Object<'a>, Error>(Object::Void) && ran_per_element(
                *old(self),
                *final(self),
                binding->Identifier_0@,
                sequence_elements(*old(self), pure_eval(*old(self), iterable)->Some_0->Ok_0),
            )),
        decreases depth, 2nat, statement, 1nat,
    {
        let span = statement.span;
        match &statement.kind {
            StatementKind::For { binding, iterable, body } => {
                let iterable_val = self.eval_expression(iterable, None, depth)?;
                let elements = self.collect_iterable_elements(&iterable_val, binding, span)?;
                let ghost before = *self;
                let ghost fixed = binding is Identifier && literal_stmts(body.statements@, 0) && pure_statements(
                    *old(self),
                    body.statements@,
                    0,
                    Object::Void,
                ) is Some;
                let ghost per = per_element(*old(self), *binding, *iterable, *body);
                let ghost base = before.stack.scopes@.len();
                proof {
                    if per {
                        assert(elements@ == sequence_elements(*old(self), iterable_val));
                        assert(before.stack.scopes@.subrange(0, base as int) =~= before.stack.scopes@);
                        assert(elements@.subrange(0, 0) =~= Seq::<Object<'a>>::empty());
                    }
                }
                let mut i: usize = 0;
                while i < elements.len()
                    invariant
                        evolved(*old(self), *self),
                        self.stack.frames@ == old(self).stack.frames@,
                        i <= elements.len(),
                        i == 0 ==> *self == before,
                        fixed == (binding is Identifier && literal_stmts(body.statements@, 0) && pure_statements(
                            *old(self),
                            body.statements@,
                            0,
                            Object::Void,
                        ) is Some),
                        fixed && i > 0 ==> every_round(pure_statements(*old(self), body.statements@, 0, Object::Void)->Some_0)
                            == Ok::<Object<'a>, Error>(Object::Void),
                        per == per_element(*old(self), *binding, *iterable, *body),
                        per ==> before == *old(self) && elements@ == sequence_elements(*old(self), pure_eval(
                            *old(self),
                            *iterable,
                        )->Some_0->Ok_0),
                        per ==> ran_per_element(before, *self, binding->Identifier_0@, elements@.subrange(0, i as int)),
                    decreases elements.len() - i,
                {
                    let ghost start = *self;
                    let frame_name = String::from_str("for_loop_iter");
                    let ghost frame_name_kept = frame_name;
                    self.stack.push(frame_name, None);
                    let ghost pushed_state = *self;
                    self.assign_for_binding(binding, copy_object(&elements[i]), span)?;
                    proof {
                        if fixed {
                            lemma_literal_stmts(*old(self), *self, body.statements@, 0, Object::Void);
                        }
                    }
                    let ghost entered = *self;
                    let result = self.eval_block_statement(body, depth);
                    self.stack.pop();
                    proof {
                        if per {
                            lemma_literal_stmts(*old(self), entered, body.statements@, 0, Object::Void);
                            lemma_per_element_step(
                                before,
                                start,
                                pushed_state,
                                entered,
                                *self,
                                frame_name_kept,
                                binding->Identifier_0@,
                                elements@,
                                i as int,
                            );
                        }
                    }
                    let value = result?;
                    match self.handle_loop_control(value) {
                        Some(ctrl) => {
                            return Ok(ctrl);
                        },
                        None => {},
                    }
                    i += 1;
                }
                Ok(Object::Void)
            },
            _ => Ok(Object::Void),
        }
    }
}

/// Whether no binding after the `i`th has the same name: the `i`th is the
/// one that stays.
pub open spec fn last_named<'a>(bindings: Seq<(String, Object<'a>)>, i: int) -> bool {
    forall|j: int| i < j < bindings.len() ==> (#[trigger] bindings[j]).0@ != bindings[i].0@
}

/// What storing `stored` into the variable `name` (the identifier
/// `target`) does when the value has been computed without changing
/// anything: where `store_error` names no error, `result` is given and the
/// name then reads as `stored`; else that error, at `span`.
pub open spec fn stores<'a>(
    before: Interpreter<'a>,
    after: Interpreter<'a>,
    target: Expression,
    name: String,
    stored: Object<'a>,
    result: Object<'a>,
    res: Result<Object<'a>, Error>,
    span: Span,
) -> bool {
    match crate::interpreter::lvalue::store_error(
        before.stack,
        crate::interpreter::lookup::resolved_distance(before, target),
        name,
    ) {
        None => res == Ok::<Object<'a>, Error>(result) && crate::interpreter::lookup::identifier_value(after, target, name@)
            == Some(stored),
        Some(k) => res matches Err(e) && e.kind == k && e.span == span,
    }
}

/// What `name op= v` stores, and `++`/`--` with `v` the integer 1: the
/// name's value combined with `v` as `binary_op_result` says, when the name
/// holds a value that is no control signal, `v` is none either, and the
/// operator applies; `None` otherwise.
pub open spec fn stored_value<'a>(it: Interpreter<'a>, target: Expression, name: Seq<char>, op: BinaryOperator, v: Object<'a>) -> Option<
    Object<'a>,
> {
    match crate::interpreter::lookup::identifier_value(it, target, name) {
        Some(lv) => if crate::object::is_control(lv) || crate::object::is_control(v) {
            None
        } else {
            match binary_op_result(lv, op, v) {
                Some(Ok(nv)) => Some(nv),
                _ => None,
            }
        },
        None => None,
    }
}

/// How a pattern of a `match` arm decides against `subject` when it binds no
/// name and changes nothing: `else` matches anything; an expression pattern
/// that is no call, and that `pure_eval` decides, matches an equal value; a
/// range matches an integer or string between its bounds inclusive, the
/// bounds being decided by `pure_eval` in order and required to be integers
/// (`IntegerRangeBounds`) or strings (`StringRangeBounds`), and matches no
/// other value. `Some(Err(..))` for an error, `None` for any other pattern.
pub open spec fn pure_pattern<'a>(it: Interpreter<'a>, subject: Object<'a>, pattern: Pattern, span: Span) -> Option<
    Result<bool, Error>,
> {
    match pattern {
        Pattern::Else => Some(Ok(true)),
        Pattern::Expression(e) => if e.kind is Call {
            None
        } else {
            match pure_eval(it, e) {
                Some(Ok(v)) => Some(Ok(same_value(v, subject))),
                Some(Err(err)) => Some(Err(err)),
                None => None,
            }
        },
        Pattern::Range(start, end) => if subject is Integer || subject is String {
            match pure_eval(it, start) {
                Some(Ok(lo)) => match pure_eval(it, end) {
                    Some(Ok(hi)) => Some(
                        match (subject, lo, hi) {
                            (Object::Integer(i), Object::Integer(a), Object::Integer(b)) => Ok(a <= i && i <= b),
                            (Object::Integer(_), _, _) => Err(error_at(ErrorKind::IntegerRangeBounds, span)),
                            (Object::String(x), Object::String(a), Object::String(b)) => Ok(
                                !crate::interpreter::operators::chars_less(x@, a@)
                                    && !crate::interpreter::operators::chars_less(b@, x@),
                            ),
                            _ => Err(error_at(ErrorKind::StringRangeBounds, span)),
                        },
                    ),
                    Some(Err(err)) => Some(Err(err)),
                    None => None,
                },
                Some(Err(err)) => Some(Err(err)),
                None => None,
            }
        } else {
            Some(Ok(false))
        },
    }
}

/// The arm that `subject` selects, trying the patterns of `arms[i..]` in
/// order, from pattern `j` on in arm `i`, when each pattern tried is one
/// that `pure_pattern` decides: `Ok(Some(k))` for arm `k`, `Ok(None)` when
/// no pattern matches, the first error otherwise; `None` when a pattern
/// tried is not such a pattern.
pub open spec fn pure_arm<'a>(it: Interpreter<'a>, subject: Object<'a>, arms: Seq<MatchArm>, i: int, j: int, span: Span) -> Option<
    Result<Option<int>, Error>,
>
    decreases arms.len() - i, if 0 <= i < arms.len() {
        arms[i].patterns@.len() - j
    } else {
        0
    },
{
    if i < 0 || i >= arms.len() {
        Some(Ok(None))
    } else if j < 0 || j >= arms[i].patterns@.len() {
        pure_arm(it, subject, arms, i + 1, 0, span)
    } else {
        match pure_pattern(it, subject, arms[i].patterns@[j], span) {
            Some(Ok(true)) => Some(Ok(Some(i))),
            Some(Ok(false)) => pure_arm(it, subject, arms, i, j + 1, span),
            Some(Err(e)) => Some(Err(e)),
            None => None,
        }
    }
}

/// The outcome of a `match` expression that changes nothing: its subject
/// is decided by `pure_eval` (a `return` of an error seen as the error),
/// the patterns tried by `pure_pattern`, and the selected arm, if any, has
/// an expression body that `pure_eval` decides; a `break` or `continue` it
/// gives becomes the empty value, and no match gives the empty value.
/// `None` otherwise.
pub open spec fn pure_match<'a>(it: Interpreter<'a>, e: Expression) -> Option<Result<Object<'a>, Error>> {
    match e.kind {
        ExpressionKind::Match { subject, arms } => match pure_eval(it, *subject) {
            Some(Ok(sv)) => match pure_arm(it, strip_return_err(sv), arms@, 0, 0, e.span) {
                Some(Ok(Some(k))) => match arms@[k].body {
                    FunctionBody::Expression(b) => match pure_eval(it, *b) {
                        Some(Ok(v)) => Some(Ok(if v is Break || v is Continue { Object::Void } else { v })),
                        other => other,
                    },
                    _ => None,
                },
                Some(Ok(None)) => Some(Ok(Object::Void)),
                Some(Err(err)) => Some(Err(err)),
                None => None,
            },
            Some(Err(err)) => Some(Err(err)),
            None => None,
        },
        _ => None,
    }
}

/// What `pure_match` decides is never a bare error result.
pub proof fn lemma_pure_match_not_err<'a>(it: Interpreter<'a>, e: Expression)
    ensures
        pure_match(it, e) matches Some(Ok(v)) ==> !(v is ErrValue),
{
    match e.kind {
        ExpressionKind::Match { subject, arms } => match pure_eval(it, *subject) {
            Some(Ok(sv)) => match pure_arm(it, strip_return_err(sv), arms@, 0, 0, e.span) {
                Some(Ok(Some(k))) => match arms@[k].body {
                    FunctionBody::Expression(b) => lemma_pure_not_err(it, *b),
                    _ => {},
                },
                _ => {},
            },
            _ => {},
        },
        _ => {},
    }
}

/// Whether a `while` with this condition ends in its first round: a step is
/// left for the round, and the condition is no assignment and an expression
/// that `pure_eval` decides as a falsy value.
pub open spec fn ends_at_once<'a>(it: Interpreter<'a>, condition: Expression) -> bool {
    &&& it.steps > 0
    &&& !(condition.kind is Assignment)
    &&& match pure_eval(it, condition) {
        Some(Ok(c)) => !crate::object::truthy(c),
        _ => false,
    }
}

/// Whether a call with `given` arguments stops at the first parameter
/// without an argument: it has no default, and no parameter up to it has a
/// type annotation to check.
pub open spec fn missing_first(parameters: Seq<crate::ast::Parameter>, given: nat) -> bool {
    &&& given < parameters.len()
    &&& parameters[given as int].default is None
    &&& forall|k: int| 0 <= k <= given ==> (#[trigger] parameters[k]).ty is None
}

/// What calling the value `f` with `arguments` at `span` gives, with
/// `depth` nested calls still allowed, where the call's outcome does not
/// depend on running a body: a value that is no function is `NotCallable`
/// and a native function `NativeUnavailable`, with nothing changed; an enum
/// constructor given its number of fields makes a variant value whose
/// payload is one new tuple of the arguments (`AllocationLimit` when the
/// heap's counter is spent), and given another number is `VariantArity`;
/// a user function that takes exactly these arguments, checks no parameter
/// type and whose body is a literal gives that literal.
pub open spec fn call_outcome<'a>(
    before: Interpreter<'a>,
    after: Interpreter<'a>,
    f: Object<'a>,
    arguments: Seq<Object<'a>>,
    depth: usize,
    span: Span,
    res: Result<Object<'a>, Error>,
) -> bool {
    match f {
        Object::Function(Function::Native { name }) => res matches Err(e) && e.kind == (ErrorKind::NativeUnavailable { name })
            && e.span == span && after == before,
        Object::Function(Function::Enum { name, variant, field_count }) => if arguments.len() != field_count {
            res matches Err(e) && e.kind == (ErrorKind::VariantArity {
                expected: field_count,
                enum_name: name,
                variant,
                found: arguments.len() as usize,
            }) && e.span == span
        } else if before.heap.allocations < usize::MAX {
            &&& res == Ok::<Object<'a>, Error>(Object::Enum { name, variant, fields: Some(before.heap.tuples.len() as usize) })
            &&& after.heap.tuples@.len() == before.heap.tuples@.len() + 1
            &&& after.heap.tuples@.last()@ == arguments
        } else {
            res matches Err(e) && e.kind == ErrorKind::AllocationLimit
        },
        Object::Function(Function::User { func, .. }) => arguments.len() == func.parameters.len() && depth > 0 && untyped(
            func.parameters@,
        ) ==> (literal_body(*func.body) matches Some(l) ==> res == Ok::<Object<'a>, Error>(literal_object(l))),
        _ => res matches Err(e) && e.kind == (ErrorKind::NotCallable { found: kind_of(f) }) && e.span == span && after
            == before,
    }
}

/// The scope a call's frame is nested in: the function's closure scope
/// when it is one of the arena's, else the caller's current scope.
pub open spec fn call_parent<'a>(it: Interpreter<'a>, closure_env: Option<usize>) -> usize {
    match closure_env {
        Some(e) => if e < it.stack.scopes.len() {
            e
        } else {
            it.stack.current_index() as usize
        },
        None => it.stack.current_index() as usize,
    }
}

/// `mid` is `before` with a new frame entered for a call: a new scope,
/// nested in `parent`, at the top of the frames; everything else as before
/// but the new scope's bindings.
pub open spec fn call_frame<'a>(before: Interpreter<'a>, mid: Interpreter<'a>, parent: usize) -> bool {
    &&& mid == (Interpreter { stack: mid.stack, ..before })
    &&& mid.stack.frames@ == before.stack.frames@.push(before.stack.scopes.len() as usize)
    &&& mid.stack.scopes@.len() == before.stack.scopes@.len() + 1
    &&& mid.stack.scopes@.drop_last() == before.stack.scopes@
    &&& mid.stack.scopes@.last().parent == Some(parent)
}

/// The name of the struct that `this` is an instance or the definition of,
/// when it is one whose definition is in the heap.
pub open spec fn current_struct<'a>(heap: crate::memory::heap::Heap<'a>, this: Object<'a>) -> Option<String> {
    match this {
        Object::Object { definition: Some(d), .. } => if d < heap.structs.len() {
            Some(heap.structs@[d as int].name)
        } else {
            None
        },
        Object::Struct(d) => if d < heap.structs.len() {
            Some(heap.structs@[d as int].name)
        } else {
            None
        },
        _ => None,
    }
}

/// Whether no parameter is named `name`.
pub open spec fn unshadowed(parameters: Seq<crate::ast::Parameter>, name: Seq<char>) -> bool {
    forall|k: int| 0 <= k < parameters.len() ==> (#[trigger] parameters[k]).name@ != name
}

/// Whether the current scope of `it`, a call frame, binds what a method
/// sees of its receiver: unless `this` is the empty value, `this` to it and
/// `__current_struct__` to the name of the struct it is an instance or the
/// definition of, when it is one; each private and constant, and each
/// unless a parameter takes the name.
pub open spec fn this_bound<'a>(it: Interpreter<'a>, this: Object<'a>, parameters: Seq<crate::ast::Parameter>) -> bool {
    !(this is Void) ==> {
        &&& unshadowed(parameters, "this"@) ==> binds_here(it.stack, "this"@, this, false, true)
        &&& unshadowed(parameters, "__current_struct__"@) ==> (current_struct(it.heap, this) matches Some(n) ==> binds_here(
            it.stack,
            "__current_struct__"@,
            Object::String(n),
            false,
            true,
        ))
    }
}

/// Whether each parameter (the last of a repeated name) is bound, in the
/// current scope of `st`, to its argument, neither public nor constant.
pub open spec fn params_bound<'a>(st: Stack<'a>, parameters: Seq<crate::ast::Parameter>, arguments: Seq<Object<'a>>) -> bool {
    forall|k: int|
        0 <= k < parameters.len() && (forall|j: int| k < j < parameters.len() ==> (#[trigger] parameters[j]).name@
            != parameters[k].name@) ==> #[trigger] binds_here(st, parameters[k].name@, arguments[k], false, false)
}

/// The outcome of a function body that `pure_eval` or `pure_statements`
/// decides in `it`.
pub open spec fn body_outcome<'a>(it: Interpreter<'a>, body: FunctionBody) -> Option<Result<Object<'a>, Error>> {
    match body {
        FunctionBody::Expression(b) => pure_eval(it, *b),
        FunctionBody::Block(block) => pure_statements(it, block.statements@, 0, Object::Void),
    }
}

/// The literal a parameter's default is, when it has one that is a literal.
pub open spec fn default_literal(p: crate::ast::Parameter) -> Option<Literal> {
    match p.default {
        Some(d) => match d.kind {
            ExpressionKind::Literal(l) => Some(l),
            _ => None,
        },
        None => None,
    }
}

/// Whether `given` arguments leave no parameter without a value: each
/// parameter past them has a literal default.
pub open spec fn filled(parameters: Seq<crate::ast::Parameter>, given: nat) -> bool {
    &&& given <= parameters.len()
    &&& forall|k: int| given <= k < parameters.len() ==> default_literal(#[trigger] parameters[k]) is Some
}

/// The value each parameter takes in a call: its argument, or past the
/// arguments the value of its literal default.
pub open spec fn call_values<'a>(parameters: Seq<crate::ast::Parameter>, arguments: Seq<Object<'a>>) -> Seq<Object<'a>> {
    Seq::new(
        parameters.len(),
        |k: int|
            if k < arguments.len() {
                arguments[k]
            } else {
                literal_object(default_literal(parameters[k])->Some_0)
            },
    )
}

/// Whether `v` has the type a primitive annotation (`int`, `string`,
/// `bool`, `null`, `void` or `any`) names; `None` for any other annotation.
pub open spec fn primitive_admits<'a>(t: crate::ast::TypeKind, v: Object<'a>) -> Option<bool> {
    match t {
        crate::ast::TypeKind::Integer => Some(v is Integer),
        crate::ast::TypeKind::String => Some(v is String),
        crate::ast::TypeKind::Boolean => Some(v is Boolean),
        crate::ast::TypeKind::Null => Some(v is Null),
        crate::ast::TypeKind::Void => Some(v is Void),
        crate::ast::TypeKind::Any => Some(true),
        _ => None,
    }
}

/// Whether parameter `k` is the first with a type annotation.
pub open spec fn first_typed(parameters: Seq<crate::ast::Parameter>, k: int) -> bool {
    &&& 0 <= k < parameters.len()
    &&& parameters[k].ty is Some
    &&& forall|j: int| 0 <= j < k ==> (#[trigger] parameters[j]).ty is None
}

/// Whether no parameter has a type annotation to check.
pub open spec fn untyped(parameters: Seq<crate::ast::Parameter>) -> bool {
    forall|k: int| 0 <= k < parameters.len() ==> (#[trigger] parameters[k]).ty is None
}

/// The literal a function body is, when it is a single literal expression.
pub open spec fn literal_body(body: FunctionBody) -> Option<Literal> {
    match body {
        FunctionBody::Expression(b) => match b.kind {
            ExpressionKind::Literal(l) => Some(l),
            _ => None,
        },
        _ => None,
    }
}

/// The outcome of a `while` that its first round decides, when that round
/// changes nothing but the budget: a step is left; in the interpreter with
/// that step spent, the condition is an expression that `pure_eval`
/// decides (an error ends the loop with it) as a truthy value, and the body
/// consists of statements that `pure_statements` decides, ending in an
/// error or in a signal that stops the loop (`loop_control`): a `break`
/// gives the empty value, a `return` itself. `None` otherwise.
pub open spec fn first_round<'a>(it: Interpreter<'a>, condition: Expression, body: StatementBlock) -> Option<
    Result<Object<'a>, Error>,
> {
    if it.steps == 0 {
        None
    } else {
        let spent = Interpreter { steps: (it.steps - 1) as u64, ..it };
        match pure_eval(spent, condition) {
            Some(Ok(c)) => if crate::object::truthy(c) {
                match pure_statements(spent, body.statements@, 0, Object::Void) {
                    Some(Ok(v)) => match crate::interpreter::iteration::loop_control(v) {
                        Some(x) => Some(Ok(x)),
                        None => None,
                    },
                    Some(Err(e)) => Some(Err(e)),
                    None => None,
                }
            } else {
                None
            },
            Some(Err(e)) => Some(Err(e)),
            None => None,
        }
    }
}

/// Whether a `while` never ends by itself: its condition is an expression
/// that `pure_eval` decides as a truthy value, and its body, whose
/// statements read nothing of the interpreter, runs without error and
/// without a signal that stops the loop. Such a loop spends the whole
/// budget and ends with `StepLimit`.
pub open spec fn endless<'a>(it: Interpreter<'a>, condition: Expression, body: StatementBlock) -> bool {
    &&& match pure_eval(it, condition) {
        Some(Ok(c)) => crate::object::truthy(c),
        _ => false,
    }
    &&& literal_stmts(body.statements@, 0)
    &&& match pure_statements(it, body.statements@, 0, Object::Void) {
        Some(Ok(v)) => crate::interpreter::iteration::loop_control(v) is None,
        _ => false,
    }
}

/// What a loop gives when every round of its body has the outcome `r`: the
/// error, the signal that stops it (`loop_control`), or else, once its
/// rounds run out, the empty value.
pub open spec fn every_round<'a>(r: Result<Object<'a>, Error>) -> Result<Object<'a>, Error> {
    match r {
        Ok(x) => Ok(
            match crate::interpreter::iteration::loop_control(x) {
                Some(c) => c,
                None => Object::Void,
            },
        ),
        Err(e) => Err(e),
    }
}

/// Whether a `for` loop over `elements` whose body changes nothing ran it
/// once per element, in order: `b` is `a` with one scope more per element,
/// opened after `a`'s scopes under the scope current in `a` and left
/// afterwards, the `k`th binding `name` alone to the `k`th element, mutable
/// and private.
pub open spec fn ran_per_element<'a>(a: Interpreter<'a>, b: Interpreter<'a>, name: Seq<char>, elements: Seq<Object<'a>>) -> bool {
    &&& b == (Interpreter { stack: b.stack, ..a })
    &&& b.stack.frames@ == a.stack.frames@
    &&& b.stack.scopes@.len() == a.stack.scopes@.len() + elements.len()
    &&& b.stack.scopes@.subrange(0, a.stack.scopes@.len() as int) == a.stack.scopes@
    &&& forall|k: int| 0 <= k < elements.len() ==> {
        &&& #[trigger] b.stack.scopes@[a.stack.scopes@.len() + k].parent == Some(a.stack.current_index() as usize)
        &&& b.stack.scopes@[a.stack.scopes@.len() + k].bindings@.len() == 1
        &&& scope_binds(b.stack.scopes@[a.stack.scopes@.len() + k], name, elements[k], false, false)
    }
}

/// One round of a `for` loop whose body changes nothing keeps
/// `ran_per_element`: the scope opened for the `i`th element binds it and is
/// left, and no earlier scope changes.
pub proof fn lemma_per_element_step<'a>(
    before: Interpreter<'a>,
    start: Interpreter<'a>,
    opened: Interpreter<'a>,
    entered: Interpreter<'a>,
    after: Interpreter<'a>,
    scope_name: String,
    name: Seq<char>,
    elements: Seq<Object<'a>>,
    i: int,
)
    requires
        0 <= i < elements.len(),
        ran_per_element(before, start, name, elements.subrange(0, i)),
        start.stack.wf(),
        opened == (Interpreter { stack: opened.stack, ..start }),
        pushed(start.stack, opened.stack, scope_name, None),
        entered == (Interpreter { stack: entered.stack, ..opened }),
        entered.stack.frames@ == opened.stack.frames@,
        entered.stack.scopes@.len() == opened.stack.scopes@.len(),
        forall|t: int| 0 <= t < opened.stack.scopes@.len() && t != opened.stack.current_index() ==> #[trigger] entered.stack.scopes@[t]
            == opened.stack.scopes@[t],
        entered.stack.scopes@[opened.stack.current_index()].parent == opened.stack.scopes@[opened.stack.current_index()].parent,
        entered.stack.scopes@[opened.stack.current_index()].bindings@.len() == 1,
        binds_here(entered.stack, name, elements[i], false, false),
        after == (Interpreter { stack: after.stack, ..entered }),
        popped(entered.stack, after.stack),
    ensures
        ran_per_element(before, after, name, elements.subrange(0, i + 1)),
{
    assert(opened.stack.scopes@.drop_last() =~= start.stack.scopes@);
    let base = before.stack.scopes@.len();
    let done = elements.subrange(0, i + 1);
    let prev = elements.subrange(0, i);
    assert(opened.stack.current_index() == base + i);
    assert(opened.stack.scopes@.last() == opened.stack.scopes@[base + i]);
    assert(after.stack.frames@ =~= before.stack.frames@);
    assert(after.stack.scopes@.subrange(0, base as int) =~= before.stack.scopes@) by {
        assert forall|t: int| 0 <= t < base implies after.stack.scopes@[t] == before.stack.scopes@[t] by {
            assert(start.stack.scopes@[t] == start.stack.scopes@.subrange(0, base as int)[t]);
            assert(opened.stack.scopes@[t] == opened.stack.scopes@.drop_last()[t]);
            assert(entered.stack.scopes@[t] == opened.stack.scopes@[t]);
        }
    }
    assert forall|k: int| 0 <= k < done.len() implies {
        &&& #[trigger] after.stack.scopes@[base + k].parent == Some(before.stack.current_index() as usize)
        &&& after.stack.scopes@[base + k].bindings@.len() == 1
        &&& scope_binds(after.stack.scopes@[base + k], name, done[k], false, false)
    } by {
        if k < i {
            assert(opened.stack.scopes@[base + k] == opened.stack.scopes@.drop_last()[base + k]);
            assert(entered.stack.scopes@[base + k] == opened.stack.scopes@[base + k]);
            assert(done[k] == prev[k]);
        } else {
            assert(done[k] == elements[i]);
        }
    }
}

/// Whether a `for` loop with this binding and body, over what `iterable`
/// gives, runs the body once per element and changes nothing else: the
/// binding is a name, the body's statements are literals whose outcome
/// neither fails nor stops the loop, and the iterable, decided without
/// changing anything, is an array or a tuple.
pub open spec fn per_element<'a>(it: Interpreter<'a>, binding: Iteration, iterable: Expression, body: StatementBlock) -> bool {
    &&& binding is Identifier
    &&& literal_stmts(body.statements@, 0)
    &&& pure_statements(it, body.statements@, 0, Object::Void) matches Some(Ok(x))
        && crate::interpreter::iteration::loop_control(x) is None
    &&& pure_eval(it, iterable) matches Some(Ok(v)) && (v is Array || v is Tuple)
}

/// A `for` loop whose body, literal statements, ends every round with
/// `continue` goes on after each element: it runs the body once per
/// element of an array or tuple and gives the empty value (the
/// `per_element` law of `eval_for_statement` applies).
pub proof fn lemma_continue_runs_per_element<'a>(it: Interpreter<'a>, binding: Iteration, iterable: Expression, body: StatementBlock)
    requires
        binding is Identifier,
        literal_stmts(body.statements@, 0),
        pure_statements(it, body.statements@, 0, Object::Void) == Some(Ok::<Object<'a>, Error>(Object::Continue)),
        pure_eval(it, iterable) matches Some(Ok(v)) && (v is Array || v is Tuple),
    ensures
        per_element(it, binding, iterable, body),
{
}

/// What a loop gives: the empty value, when its condition turns falsy, its
/// elements run out or its body breaks, or the `return` its body ended
/// with, which never carries an error result. Never a `break` or
/// `continue`.
pub open spec fn loop_value<'a>(v: Object<'a>) -> bool {
    v is Void || (v matches Object::Return(inner) && !(*inner is ErrValue))
}

/// The properties that a struct construction builds from the declared
/// `fields[i..]`, added to `acc` in declaration order, when its outcome does
/// not depend on more than `pure_eval`: each field takes its value from
/// `given`, else from its default (which needs a call level left,
/// `CallDepthExceeded`), else is `MissingField`; the first error ends it.
/// `None` when a default is not decided by `pure_eval`, or when a field
/// whose value is found has a type other than `any` to check.
pub open spec fn struct_fields<'a>(
    it: Interpreter<'a>,
    fields: Seq<StructField>,
    given: Seq<(String, Object<'a>)>,
    i: int,
    acc: Seq<(String, Object<'a>)>,
    span: Span,
    depth: usize,
) -> Option<Result<Seq<(String, Object<'a>)>, Error>>
    decreases fields.len() - i,
{
    if i < 0 || i >= fields.len() {
        Some(Ok(acc))
    } else {
        let value: Option<Result<Object<'a>, Error>> = match crate::memory::heap::prop_get(given, fields[i].name@) {
            Some(v) => Some(Ok(v)),
            None => match fields[i].default {
                Some(d) => if depth == 0 {
                    Some(Err(error_at(ErrorKind::CallDepthExceeded, span)))
                } else {
                    pure_eval(it, d)
                },
                None => Some(Err(error_at(ErrorKind::MissingField { field: fields[i].name }, span))),
            },
        };
        match value {
            Some(Ok(v)) => if fields[i].kind.kind is Any {
                struct_fields(it, fields, given, i + 1, crate::memory::heap::prop_insert(acc, fields[i].name, v), span, depth)
            } else {
                None
            },
            Some(Err(e)) => Some(Err(e)),
            None => None,
        }
    }
}

/// The struct that `this` names in `it`, if it names one.
pub open spec fn this_struct<'a>(it: Interpreter<'a>) -> Option<usize> {
    match it.stack.lookup("this"@) {
        Some(Object::Struct(d)) => if d < it.heap.structs.len() {
            Some(d)
        } else {
            None
        },
        _ => None,
    }
}

/// The outcome of a struct construction where `struct_fields` decides it:
/// a new, mutable object of struct `d` holding the built properties, or
/// `AllocationLimit` when the heap's counter is spent; or the first error.
pub open spec fn constructed<'a>(
    before: Interpreter<'a>,
    after: Interpreter<'a>,
    d: usize,
    r: Result<Seq<(String, Object<'a>)>, Error>,
    span: Span,
    res: Result<Object<'a>, Error>,
) -> bool {
    match r {
        Ok(ps) => if before.heap.allocations == usize::MAX {
            res == Err::<Object<'a>, Error>(error_at(ErrorKind::AllocationLimit, span))
        } else {
            &&& res == Ok::<Object<'a>, Error>(
                Object::Object { id: before.heap.objects.len() as usize, definition: Some(d), constant: false },
            )
            &&& after.heap.objects@.len() == before.heap.objects@.len() + 1
            &&& after.heap.objects@.last()@ == ps
        },
        Err(e) => res == Err::<Object<'a>, Error>(e),
    }
}

/// Whether a value is one a `for` loop runs over without a single round:
/// an empty array, tuple or string.
pub open spec fn yields_nothing<'a>(it: Interpreter<'a>, v: Object<'a>) -> bool {
    match v {
        Object::Array { id, .. } => id >= it.heap.arrays@.len() || it.heap.arrays@[id as int]@.len() == 0,
        Object::Tuple { id } => id >= it.heap.tuples@.len() || it.heap.tuples@[id as int]@.len() == 0,
        Object::String(s) => s@.len() == 0,
        _ => false,
    }
}

/// Whether a pattern is `Ok(p)` or `Err(p)`, with one argument.
pub open spec fn result_pattern(e: Expression) -> bool {
    e.kind matches ExpressionKind::Call { function, arguments } && function.kind matches ExpressionKind::Identifier(n)
        && (n@ == "Ok"@ || n@ == "Err"@) && arguments@.len() == 1
}

/// Whether a condition is a pattern assignment: a plain assignment whose
/// left side is `Ok(p)` or `Err(p)`.
pub open spec fn pattern_assignment(condition: Expression) -> bool {
    condition.kind matches ExpressionKind::Assignment { left, operator: AssignmentOperator::Assign, .. } && result_pattern(
        *left,
    )
}

/// Whether a pattern is `Ok(p)` or `Err(p)`, with one argument.
pub fn is_result_pattern(e: &Expression) -> (b: bool)
    ensures
        b == result_pattern(*e),
{
    match &e.kind {
        ExpressionKind::Call { function, arguments } => match &function.kind {
            ExpressionKind::Identifier(n) => (*n == String::from_str("Ok") || *n == String::from_str("Err"))
                && arguments.len() == 1,
            _ => false,
        },
        _ => false,
    }
}

/// Whether a condition is a plain assignment to an `Ok(..)` or `Err(..)`
/// pattern: a `while` whose pattern does not match ends there.
pub open spec fn result_pattern_assignment(condition: Expression) -> bool {
    condition.kind matches ExpressionKind::Assignment { left, operator: AssignmentOperator::Assign, .. }
        && left.kind matches ExpressionKind::Call { function, .. }
        && function.kind matches ExpressionKind::Identifier(name)
        && (name@ == "Ok"@ || name@ == "Err"@)
}

/// Decides `result_pattern_assignment`.
pub fn is_result_pattern_assignment(condition: &Expression) -> (b: bool)
    ensures
        b == result_pattern_assignment(*condition),
{
    match &condition.kind {
        ExpressionKind::Assignment { left, operator, .. } => {
            if *operator != AssignmentOperator::Assign {
                return false;
            }
            match &left.kind {
                ExpressionKind::Call { function, .. } => match &function.kind {
                    ExpressionKind::Identifier(name) => *name == String::from_str("Ok") || *name == String::from_str("Err"),
                    _ => false,
                },
                _ => false,
            }
        },
        _ => false,
    }
}

/// The result of a unary operator, as an error kind or a value.
pub open spec fn unary_op_result<'a>(op: crate::ast::UnaryOperator, right: Object<'a>) -> Result<Object<'a>, ErrorKind> {
    match op {
        crate::ast::UnaryOperator::Not => Ok(Object::Boolean(!crate::object::truthy(right))),
        crate::ast::UnaryOperator::Negate => match right {
            Object::Integer(x) => if x == i64::MIN {
                Err(ErrorKind::IntegerOverflow)
            } else {
                Ok(Object::Integer((-x) as i64))
            },
            _ => Err(ErrorKind::UnsupportedOperands { found: kind_of(right) }),
        },
    }
}

} // verus!
