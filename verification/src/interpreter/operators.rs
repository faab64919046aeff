//! The operators on values: equality, ordering of strings, arithmetic on
//! integers, and the unary operators.

use crate::ast::{AssignmentOperator, BinaryOperator, UnaryOperator, UpdateOperator};
use crate::error::{ErrorKind, ValueKind};
use crate::object::{kind_of, truthy, Object};
use vstd::prelude::*;
use vstd::string::StrSliceExecFns;

verus! {

/// Whether two values are equal: scalars and strings by value, results and
/// returns by what they carry, heap values, struct definitions, modules and
/// types by identity, enum values by name, variant and payload. Functions
/// are never equal.
pub open spec fn same_value(a: Object, b: Object) -> bool
    decreases a,
{
    match (a, b) {
        (Object::Integer(x), Object::Integer(y)) => x == y,
        (Object::Boolean(x), Object::Boolean(y)) => x == y,
        (Object::Null, Object::Null) => true,
        (Object::Void, Object::Void) => true,
        (Object::String(x), Object::String(y)) => x@ == y@,
        (Object::Array { id: x, .. }, Object::Array { id: y, .. }) => x == y,
        (Object::Tuple { id: x }, Object::Tuple { id: y }) => x == y,
        (Object::Object { id: x, .. }, Object::Object { id: y, .. }) => x == y,
        (Object::OkValue(x), Object::OkValue(y)) => same_value(*x, *y),
        (Object::ErrValue(x), Object::ErrValue(y)) => same_value(*x, *y),
        (Object::Return(x), Object::Return(y)) => same_value(*x, *y),
        (Object::Break, Object::Break) => true,
        (Object::Continue, Object::Continue) => true,
        (Object::Enum { name: n1, variant: v1, fields: f1 }, Object::Enum { name: n2, variant: v2, fields: f2 }) =>
            n1@ == n2@ && v1@ == v2@ && f1 == f2,
        (Object::Struct(x), Object::Struct(y)) => x == y,
        (Object::Scope(x), Object::Scope(y)) => x == y,
        (Object::Type(x), Object::Type(y)) => x == y,
        _ => false,
    }
}

/// Whether `a` comes before `b` in lexicographic order of characters.
pub open spec fn chars_less(a: Seq<char>, b: Seq<char>) -> bool
    decreases a.len(),
{
    if a.len() == 0 {
        b.len() > 0
    } else if b.len() == 0 {
        false
    } else if a[0] < b[0] {
        true
    } else if a[0] > b[0] {
        false
    } else {
        chars_less(a.drop_first(), b.drop_first())
    }
}

/// Equality of values is symmetric.
pub proof fn lemma_same_value_symmetric(a: Object, b: Object)
    ensures
        same_value(a, b) == same_value(b, a),
    decreases a,
{
    match (a, b) {
        (Object::OkValue(x), Object::OkValue(y)) => lemma_same_value_symmetric(*x, *y),
        (Object::ErrValue(x), Object::ErrValue(y)) => lemma_same_value_symmetric(*x, *y),
        (Object::Return(x), Object::Return(y)) => lemma_same_value_symmetric(*x, *y),
        _ => {},
    }
}

/// Two enum values are equal exactly when they have the same enum name, the
/// same variant and the same payload: different variants of one enum, such
/// as `Color.Red` and `Color.Blue`, are never equal.
pub proof fn lemma_enum_values_equal<'a>(
    n1: String,
    v1: String,
    f1: Option<usize>,
    n2: String,
    v2: String,
    f2: Option<usize>,
)
    ensures
        same_value(
            Object::Enum { name: n1, variant: v1, fields: f1 },
            Object::Enum { name: n2, variant: v2, fields: f2 },
        ) ==> n1@ == n2@ && v1@ == v2@ && f1 == f2,
        n1@ == n2@ && v1@ == v2@ && f1 == f2 ==> same_value(
            Object::Enum { name: n1, variant: v1, fields: f1 },
            Object::Enum { name: n2, variant: v2, fields: f2 },
        ),
        v1@ != v2@ ==> !same_value(
            Object::Enum { name: n1, variant: v1, fields: f1 },
            Object::Enum { name: n2, variant: v2, fields: f2 },
        ),
{
}

/// Plain values are equal by content: integers and booleans by value,
/// strings by their characters, results of one kind by their payloads; a
/// success never equals a failure.
pub proof fn lemma_plain_values_equal<'a>(
    i1: i64,
    i2: i64,
    b1: bool,
    b2: bool,
    s1: String,
    s2: String,
    x: Object<'a>,
    y: Object<'a>,
)
    ensures
        same_value(Object::Integer(i1), Object::Integer(i2)) <==> i1 == i2,
        same_value(Object::Boolean(b1), Object::Boolean(b2)) <==> b1 == b2,
        same_value(Object::String(s1), Object::String(s2)) <==> s1@ == s2@,
        same_value(Object::OkValue(Box::new(x)), Object::OkValue(Box::new(y))) <==> same_value(x, y),
        same_value(Object::ErrValue(Box::new(x)), Object::ErrValue(Box::new(y))) <==> same_value(x, y),
        !same_value(Object::OkValue(Box::new(x)), Object::ErrValue(Box::new(y))),
{
}

/// Whether a value holds no function, itself or as a result's or a
/// `return`'s payload: functions compare equal to nothing.
pub open spec fn function_free(a: Object) -> bool
    decreases a,
{
    match a {
        Object::Function(_) => false,
        Object::OkValue(x) => function_free(*x),
        Object::ErrValue(x) => function_free(*x),
        Object::Return(x) => function_free(*x),
        _ => true,
    }
}

/// Every value that holds no function equals itself, and equal values are
/// of the same kind.
pub proof fn lemma_same_value_reflexive<'a>(a: Object<'a>, b: Object<'a>)
    ensures
        function_free(a) ==> same_value(a, a),
        same_value(a, b) ==> kind_of(a) == kind_of(b),
    decreases a,
{
    match a {
        Object::OkValue(x) => {
            lemma_same_value_reflexive(*x, *x);
            assert(same_value(a, a) == same_value(*x, *x));
        },
        Object::ErrValue(x) => {
            lemma_same_value_reflexive(*x, *x);
            assert(same_value(a, a) == same_value(*x, *x));
        },
        Object::Return(x) => {
            lemma_same_value_reflexive(*x, *x);
            assert(same_value(a, a) == same_value(*x, *x));
        },
        _ => {},
    }
}

/// The order of strings is a strict total order: of two different strings
/// exactly one comes first, and no string comes before itself.
pub proof fn lemma_chars_less_trichotomy(a: Seq<char>, b: Seq<char>)
    ensures
        chars_less(a, b) ==> !chars_less(b, a) && a != b,
        a != b ==> chars_less(a, b) || chars_less(b, a),
        !chars_less(a, a),
        !chars_less(b, b),
    decreases a.len(),
{
    lemma_chars_less_irreflexive(a);
    lemma_chars_less_irreflexive(b);
    if a.len() > 0 && b.len() > 0 {
        if a[0] == b[0] {
            lemma_chars_less_trichotomy(a.drop_first(), b.drop_first());
            if a.drop_first() == b.drop_first() {
                assert(a =~= seq![a[0]] + a.drop_first());
                assert(b =~= seq![b[0]] + b.drop_first());
            } else {
                assert(a != b) by {
                    if a == b {
                        assert(a.drop_first() == b.drop_first());
                    }
                }
            }
        } else {
            assert(a != b) by {
                if a == b {
                    assert(a[0] == b[0]);
                }
            }
        }
    } else if a.len() == 0 && b.len() == 0 {
        assert(a =~= b);
    } else {
        assert(a != b) by {
            if a == b {
                assert(a.len() == b.len());
            }
        }
    }
}

/// No string comes before itself.
pub proof fn lemma_chars_less_irreflexive(a: Seq<char>)
    ensures
        !chars_less(a, a),
    decreases a.len(),
{
    if a.len() > 0 {
        lemma_chars_less_irreflexive(a.drop_first());
    }
}

/// Compares two values for equality.
pub fn values_equal(a: &Object, b: &Object) -> (r: bool)
    ensures
        r == same_value(*a, *b),
    decreases a,
{
    match (a, b) {
        (Object::Integer(x), Object::Integer(y)) => *x == *y,
        (Object::Boolean(x), Object::Boolean(y)) => *x == *y,
        (Object::Null, Object::Null) => true,
        (Object::Void, Object::Void) => true,
        (Object::String(x), Object::String(y)) => *x == *y,
        (Object::Array { id: x, .. }, Object::Array { id: y, .. }) => *x == *y,
        (Object::Tuple { id: x }, Object::Tuple { id: y }) => *x == *y,
        (Object::Object { id: x, .. }, Object::Object { id: y, .. }) => *x == *y,
        (Object::OkValue(x), Object::OkValue(y)) => values_equal(x, y),
        (Object::ErrValue(x), Object::ErrValue(y)) => values_equal(x, y),
        (Object::Return(x), Object::Return(y)) => values_equal(x, y),
        (Object::Break, Object::Break) => true,
        (Object::Continue, Object::Continue) => true,
        (Object::Enum { name: n1, variant: v1, fields: f1 }, Object::Enum { name: n2, variant: v2, fields: f2 }) =>
            *n1 == *n2 && *v1 == *v2 && *f1 == *f2,
        (Object::Struct(x), Object::Struct(y)) => *x == *y,
        (Object::Scope(x), Object::Scope(y)) => *x == *y,
        (Object::Type(x), Object::Type(y)) => *x == *y,
        _ => false,
    }
}

/// Compares two strings in lexicographic order of characters, which is the
/// order of their UTF-8 bytes.
pub fn string_less(a: &String, b: &String) -> (r: bool)
    ensures
        r == chars_less(a@, b@),
{
    let sa = a.as_str();
    let sb = b.as_str();
    let na = sa.unicode_len();
    let nb = sb.unicode_len();
    let mut i: usize = 0;
    assert(a@.subrange(0, na as int) =~= a@);
    assert(b@.subrange(0, nb as int) =~= b@);
    while i < na && i < nb
        invariant
            na == a@.len(),
            nb == b@.len(),
            sa@ == a@,
            sb@ == b@,
            i <= na,
            i <= nb,
            chars_less(a@, b@) == chars_less(a@.subrange(i as int, na as int), b@.subrange(i as int, nb as int)),
        decreases na - i,
    {
        let ca = sa.get_char(i);
        let cb = sb.get_char(i);
        let ghost ra = a@.subrange(i as int, na as int);
        let ghost rb = b@.subrange(i as int, nb as int);
        assert(ra[0] == ca && rb[0] == cb);
        if ca < cb {
            return true;
        }
        if ca > cb {
            return false;
        }
        assert(ra.drop_first() =~= a@.subrange(i + 1, na as int));
        assert(rb.drop_first() =~= b@.subrange(i + 1, nb as int));
        i += 1;
    }
    i == na && i < nb
}

/// The binary operator that a compound assignment applies.
pub open spec fn assignment_binary(op: AssignmentOperator) -> BinaryOperator {
    match op {
        AssignmentOperator::Assign => BinaryOperator::Equal,
        AssignmentOperator::AddAssign => BinaryOperator::Add,
        AssignmentOperator::SubtractAssign => BinaryOperator::Subtract,
        AssignmentOperator::MultiplyAssign => BinaryOperator::Multiply,
        AssignmentOperator::DivideAssign => BinaryOperator::Divide,
        AssignmentOperator::ModuloAssign => BinaryOperator::Modulo,
    }
}

/// The binary operator that a compound assignment applies.
pub fn binary_of_assignment(op: AssignmentOperator) -> (r: BinaryOperator)
    ensures
        r == assignment_binary(op),
{
    match op {
        AssignmentOperator::Assign => BinaryOperator::Equal,
        AssignmentOperator::AddAssign => BinaryOperator::Add,
        AssignmentOperator::SubtractAssign => BinaryOperator::Subtract,
        AssignmentOperator::MultiplyAssign => BinaryOperator::Multiply,
        AssignmentOperator::DivideAssign => BinaryOperator::Divide,
        AssignmentOperator::ModuloAssign => BinaryOperator::Modulo,
    }
}

/// The binary operator that `++` or `--` applies with the operand 1.
pub open spec fn update_binary(op: UpdateOperator) -> BinaryOperator {
    match op {
        UpdateOperator::Increment => BinaryOperator::Add,
        UpdateOperator::Decrement => BinaryOperator::Subtract,
    }
}

/// The binary operator that `++` or `--` applies with the operand 1.
pub fn binary_of_update(op: UpdateOperator) -> (r: BinaryOperator)
    ensures
        r == update_binary(op),
{
    match op {
        UpdateOperator::Increment => BinaryOperator::Add,
        UpdateOperator::Decrement => BinaryOperator::Subtract,
    }
}

/// The result of integer arithmetic, when it fits in 64 bits and divides
/// by a non-zero value.
pub open spec fn int_arith(op: BinaryOperator, x: i64, y: i64) -> Option<i64> {
    match op {
        BinaryOperator::Add => x.checked_add(y),
        BinaryOperator::Subtract => x.checked_sub(y),
        BinaryOperator::Multiply => x.checked_mul(y),
        BinaryOperator::Divide => x.checked_div(y),
        BinaryOperator::Modulo => x.checked_rem(y),
        _ => None,
    }
}

/// Whether an operator is one of the five arithmetic ones.
pub open spec fn is_arith(op: BinaryOperator) -> bool {
    op == BinaryOperator::Add || op == BinaryOperator::Subtract || op == BinaryOperator::Multiply
        || op == BinaryOperator::Divide || op == BinaryOperator::Modulo
}

/// Whether an operator is one of the four orderings.
pub open spec fn is_order(op: BinaryOperator) -> bool {
    op == BinaryOperator::Less || op == BinaryOperator::LessEqual || op == BinaryOperator::Greater
        || op == BinaryOperator::GreaterEqual
}

/// Whether `x op y` holds for an ordering `op`, given whether `x < y` and `x == y`.
pub open spec fn order_holds(op: BinaryOperator, less: bool, equal: bool) -> bool {
    match op {
        BinaryOperator::Less => less,
        BinaryOperator::LessEqual => less || equal,
        BinaryOperator::Greater => !less && !equal,
        _ => !less,
    }
}

fn order_result(op: BinaryOperator, less: bool, equal: bool) -> (r: bool)
    ensures
        r == order_holds(op, less, equal),
{
    match op {
        BinaryOperator::Less => less,
        BinaryOperator::LessEqual => less || equal,
        BinaryOperator::Greater => !less && !equal,
        _ => !less,
    }
}

/// What a binary operator gives for two values, in every case but the
/// joining of two strings (`None` there, as the joined string is described
/// by its characters only).
pub open spec fn binary_op_result<'a>(left: Object<'a>, op: BinaryOperator, right: Object<'a>) -> Option<Result<Object<'a>, ErrorKind>> {
    if op == BinaryOperator::Equal {
        Some(Ok(Object::Boolean(same_value(left, right))))
    } else if op == BinaryOperator::NotEqual {
        Some(Ok(Object::Boolean(!same_value(left, right))))
    } else if op == BinaryOperator::LogicalAnd {
        Some(Ok(Object::Boolean(truthy(left) && truthy(right))))
    } else if op == BinaryOperator::LogicalOr {
        Some(Ok(Object::Boolean(truthy(left) || truthy(right))))
    } else if is_order(op) {
        match (left, right) {
            (Object::Integer(x), Object::Integer(y)) => Some(Ok(Object::Boolean(order_holds(op, x < y, x == y)))),
            (Object::String(x), Object::String(y)) => Some(Ok(Object::Boolean(order_holds(op, chars_less(x@, y@), x@ == y@)))),
            _ => Some(Err(ErrorKind::UnsupportedOperands { found: kind_of(left) })),
        }
    } else {
        match (left, right) {
            (Object::Integer(x), Object::Integer(y)) => Some(match int_arith(op, x, y) {
                Some(z) => Ok(Object::Integer(z)),
                None => if (op == BinaryOperator::Divide || op == BinaryOperator::Modulo) && y == 0 {
                    Err(ErrorKind::DivisionByZero)
                } else {
                    Err(ErrorKind::IntegerOverflow)
                },
            }),
            (Object::String(x), Object::String(y)) => if op == BinaryOperator::Add {
                None
            } else {
                Some(Err(ErrorKind::UnsupportedOperands { found: ValueKind::String }))
            },
            _ => Some(Err(ErrorKind::UnsupportedOperands { found: kind_of(left) })),
        }
    }
}

/// Applies a binary operator to two values. Integers take the arithmetic
/// operators, an overflow being `IntegerOverflow` and a zero divisor
/// `DivisionByZero`; `+` also joins two strings. Any two values compare
/// with `==` and `!=`; integers, and strings in lexicographic order, with
/// the orderings. `&&` and `||` combine truthiness. Other operands are
/// `UnsupportedOperands`, naming the kind of the left one.
pub fn binary_op<'a>(left: &Object<'a>, op: BinaryOperator, right: &Object<'a>) -> (res: Result<Object<'a>, ErrorKind>)
    ensures
        binary_op_result(*left, op, *right) matches Some(r) ==> res == r,
        op == BinaryOperator::Equal ==> res == Ok::<Object<'a>, ErrorKind>(Object::Boolean(same_value(*left, *right))),
        op == BinaryOperator::NotEqual ==> res == Ok::<Object<'a>, ErrorKind>(Object::Boolean(!same_value(*left, *right))),
        op == BinaryOperator::LogicalAnd ==> res == Ok::<Object<'a>, ErrorKind>(Object::Boolean(truthy(*left) && truthy(*right))),
        op == BinaryOperator::LogicalOr ==> res == Ok::<Object<'a>, ErrorKind>(Object::Boolean(truthy(*left) || truthy(*right))),
        is_arith(op) ==> match (*left, *right) {
            (Object::Integer(x), Object::Integer(y)) => match int_arith(op, x, y) {
                Some(z) => res == Ok::<Object<'a>, ErrorKind>(Object::Integer(z)),
                None => if (op == BinaryOperator::Divide || op == BinaryOperator::Modulo) && y == 0 {
                    res == Err::<Object<'a>, ErrorKind>(ErrorKind::DivisionByZero)
                } else {
                    res == Err::<Object<'a>, ErrorKind>(ErrorKind::IntegerOverflow)
                },
            },
            (Object::String(x), Object::String(y)) => if op == BinaryOperator::Add {
                res matches Ok(Object::String(z)) && z@ == x@ + y@
            } else {
                res == Err::<Object<'a>, ErrorKind>(ErrorKind::UnsupportedOperands { found: ValueKind::String })
            },
            _ => res == Err::<Object<'a>, ErrorKind>(ErrorKind::UnsupportedOperands { found: kind_of(*left) }),
        },
        is_order(op) ==> match (*left, *right) {
            (Object::Integer(x), Object::Integer(y)) => res == Ok::<Object<'a>, ErrorKind>(Object::Boolean(order_holds(op, x < y, x == y))),
            (Object::String(x), Object::String(y)) => res == Ok::<Object<'a>, ErrorKind>(
                Object::Boolean(order_holds(op, chars_less(x@, y@), x@ == y@))),
            _ => res == Err::<Object<'a>, ErrorKind>(ErrorKind::UnsupportedOperands { found: kind_of(*left) }),
        },
{
    match op {
        BinaryOperator::Equal => Ok(Object::Boolean(values_equal(left, right))),
        BinaryOperator::NotEqual => Ok(Object::Boolean(!values_equal(left, right))),
        BinaryOperator::LogicalAnd => Ok(Object::Boolean(left.is_truthy() && right.is_truthy())),
        BinaryOperator::LogicalOr => Ok(Object::Boolean(left.is_truthy() || right.is_truthy())),
        BinaryOperator::Less | BinaryOperator::LessEqual | BinaryOperator::Greater | BinaryOperator::GreaterEqual => {
            match (left, right) {
                (Object::Integer(x), Object::Integer(y)) => Ok(Object::Boolean(order_result(op, *x < *y, *x == *y))),
                (Object::String(x), Object::String(y)) => {
                    let less = string_less(x, y);
                    let equal = *x == *y;
                    Ok(Object::Boolean(order_result(op, less, equal)))
                },
                _ => Err(ErrorKind::UnsupportedOperands { found: left.value_kind() }),
            }
        },
        _ => {
            match (left, right) {
                (Object::Integer(x), Object::Integer(y)) => {
                    let r = match op {
                        BinaryOperator::Add => x.checked_add(*y),
                        BinaryOperator::Subtract => x.checked_sub(*y),
                        BinaryOperator::Multiply => x.checked_mul(*y),
                        BinaryOperator::Divide => x.checked_div(*y),
                        _ => x.checked_rem(*y),
                    };
                    match r {
                        Some(z) => Ok(Object::Integer(z)),
                        None => {
                            if (op == BinaryOperator::Divide || op == BinaryOperator::Modulo) && *y == 0 {
                                Err(ErrorKind::DivisionByZero)
                            } else {
                                Err(ErrorKind::IntegerOverflow)
                            }
                        },
                    }
                },
                (Object::String(x), Object::String(y)) => {
                    if op == BinaryOperator::Add {
                        let mut z = x.clone();
                        z.append(y.as_str());
                        Ok(Object::String(z))
                    } else {
                        Err(ErrorKind::UnsupportedOperands { found: ValueKind::String })
                    }
                },
                _ => Err(ErrorKind::UnsupportedOperands { found: left.value_kind() }),
            }
        },
    }
}

/// Applies a unary operator: `-` negates an integer (overflowing only on
/// the smallest one), `!` negates truthiness.
pub fn unary_op<'a>(op: UnaryOperator, right: &Object<'a>) -> (res: Result<Object<'a>, ErrorKind>)
    ensures
        op == UnaryOperator::Not ==> res == Ok::<Object<'a>, ErrorKind>(Object::Boolean(!truthy(*right))),
        op == UnaryOperator::Negate ==> match *right {
            Object::Integer(x) => if x == i64::MIN {
                res == Err::<Object<'a>, ErrorKind>(ErrorKind::IntegerOverflow)
            } else {
                res == Ok::<Object<'a>, ErrorKind>(Object::Integer((-x) as i64))
            },
            _ => res == Err::<Object<'a>, ErrorKind>(ErrorKind::UnsupportedOperands { found: kind_of(*right) }),
        },
{
    match op {
        UnaryOperator::Not => Ok(Object::Boolean(!right.is_truthy())),
        UnaryOperator::Negate => match right {
            Object::Integer(x) => {
                if *x == i64::MIN {
                    Err(ErrorKind::IntegerOverflow)
                } else {
                    Ok(Object::Integer(-*x))
                }
            },
            _ => Err(ErrorKind::UnsupportedOperands { found: right.value_kind() }),
        },
    }
}

} // verus!
