use krama_runtime::ast::{
    Binding, BinaryOperator, DestructureItem, Expression, ExpressionKind, Literal, Statement, StatementKind, Type,
    TypeKind, TypeProperty, UnaryOperator,
};
use krama_runtime::error::{ErrorCategory, ErrorKind, ValueKind};
use krama_runtime::interpreter::lvalue::LValue;
use krama_runtime::interpreter::operators::{binary_op, string_less, unary_op, values_equal};
use krama_runtime::interpreter::types::check_type;
use krama_runtime::interpreter::Interpreter;
use krama_runtime::object::{Function, Object};
use krama_runtime::span::Span;

fn ty(kind: TypeKind) -> Type {
    Type { kind, span: Span::new(7, 8) }
}

fn name_expr(n: &str, at: usize) -> Expression {
    Expression { kind: ExpressionKind::Identifier(n.to_string()), span: Span::new(at, at + 1) }
}

#[test]
fn binary_operators_on_values() {
    assert!(matches!(binary_op(&Object::Integer(7), BinaryOperator::Modulo, &Object::Integer(3)), Ok(Object::Integer(1))));
    assert!(matches!(binary_op(&Object::Integer(-7), BinaryOperator::Divide, &Object::Integer(2)), Ok(Object::Integer(-3))));
    assert!(matches!(binary_op(&Object::Integer(i64::MIN), BinaryOperator::Divide, &Object::Integer(-1)), Err(ErrorKind::IntegerOverflow)));
    assert!(matches!(binary_op(&Object::Integer(1), BinaryOperator::Modulo, &Object::Integer(0)), Err(ErrorKind::DivisionByZero)));
    assert!(matches!(binary_op(&Object::Integer(2), BinaryOperator::GreaterEqual, &Object::Integer(2)), Ok(Object::Boolean(true))));
    assert!(matches!(binary_op(&Object::Null, BinaryOperator::Equal, &Object::Null), Ok(Object::Boolean(true))));
    assert!(matches!(binary_op(&Object::Null, BinaryOperator::NotEqual, &Object::Void), Ok(Object::Boolean(true))));
    assert!(matches!(
        binary_op(&Object::Boolean(true), BinaryOperator::Add, &Object::Integer(1)),
        Err(ErrorKind::UnsupportedOperands { found: ValueKind::Boolean })
    ));
    assert!(matches!(
        binary_op(&Object::String("a".to_string()), BinaryOperator::Subtract, &Object::String("b".to_string())),
        Err(ErrorKind::UnsupportedOperands { found: ValueKind::String })
    ));
    assert!(matches!(unary_op(UnaryOperator::Not, &Object::Null), Ok(Object::Boolean(true))));
    assert!(matches!(unary_op(UnaryOperator::Negate, &Object::Integer(i64::MIN)), Err(ErrorKind::IntegerOverflow)));
}

#[test]
fn equality_and_string_order() {
    assert!(values_equal(&Object::Tuple { id: 3 }, &Object::Tuple { id: 3 }));
    assert!(!values_equal(&Object::Tuple { id: 3 }, &Object::Tuple { id: 4 }));
    let f = Object::Function(Function::Native { name: "len".to_string() });
    assert!(!values_equal(&f, &f));
    assert!(values_equal(&Object::OkValue(Box::new(Object::Integer(1))), &Object::OkValue(Box::new(Object::Integer(1)))));
    assert!(string_less(&"ab".to_string(), &"b".to_string()));
    assert!(string_less(&"a".to_string(), &"ab".to_string()));
    assert!(!string_less(&"ab".to_string(), &"ab".to_string()));
    assert!(!string_less(&"é".to_string(), &"z".to_string()));
}

#[test]
fn negative_indices_count_from_the_end() {
    let it = Interpreter::new(None);
    assert_eq!(it.resolve_index(-1, 3), Some(2));
    assert_eq!(it.resolve_index(-4, 3), None);
    assert_eq!(it.resolve_index(3, 3), None);
    assert_eq!(it.resolve_index(0, 0), None);
}

#[test]
fn resolved_types_check_values() {
    let mut it = Interpreter::new(None);
    let int_type = it.resolve_type(&ty(TypeKind::Integer)).unwrap();
    assert!(check_type(&it.heap, int_type, &Object::Integer(1), Span::new(0, 1)).is_ok());
    let err = check_type(&it.heap, int_type, &Object::Null, Span::new(5, 6)).unwrap_err();
    assert!(matches!(err.kind, ErrorKind::TypeMismatch { .. }));
    assert_eq!(err.span, Span::new(5, 6));
    assert_eq!(err.kind.category(), ErrorCategory::TypeError);

    // type Point = { x: int, label?: string }
    let object_type = ty(TypeKind::Object(vec![
        ("x".to_string(), TypeProperty { ty: ty(TypeKind::Integer), optional: false }),
        ("label".to_string(), TypeProperty { ty: ty(TypeKind::String), optional: true }),
    ]));
    it.eval_type_statement(&"Point".to_string(), &object_type, false).unwrap();
    let alias = it.resolve_type(&ty(TypeKind::Identifier("Point".to_string()))).unwrap();
    let good = it.heap.alloc_object(vec![("x".to_string(), Object::Integer(1))], None, false);
    let bad = it.heap.alloc_object(vec![("label".to_string(), Object::String("p".to_string()))], None, false);
    assert!(check_type(&it.heap, alias, &good, Span::new(0, 1)).is_ok());
    assert!(check_type(&it.heap, alias, &bad, Span::new(0, 1)).is_err());

    let any = it.resolve_type(&ty(TypeKind::Any)).unwrap();
    assert!(check_type(&it.heap, any, &bad, Span::new(0, 1)).is_ok());
}

#[test]
fn lvalues_store_and_read_back() {
    let mut it = Interpreter::new(None);
    let obj = it.heap.alloc_object(Vec::new(), None, false);
    let id = match obj {
        Object::Object { id, .. } => id,
        _ => unreachable!(),
    };
    let target = LValue::Property { object: id, name: "k".to_string() };
    let expr = name_expr("unused", 1);
    assert!(matches!(it.get_lvalue_value(&target, &expr, Span::new(0, 1)), Ok(Object::Void)));
    it.set_lvalue_value(target, Object::Integer(9), Span::new(0, 1)).unwrap();
    let target = LValue::Property { object: id, name: "k".to_string() };
    assert!(matches!(it.get_lvalue_value(&target, &expr, Span::new(0, 1)), Ok(Object::Integer(9))));

    let arr = it.heap.alloc_array(vec![Object::Integer(1), Object::Integer(2)], 0, false);
    let aid = match arr {
        Object::Array { id, .. } => id,
        _ => unreachable!(),
    };
    it.set_lvalue_value(LValue::Index { array: aid, index: -1, fixed_size: None }, Object::Integer(5), Span::new(0, 1)).unwrap();
    it.set_lvalue_value(LValue::Index { array: aid, index: 4, fixed_size: None }, Object::Integer(8), Span::new(0, 1)).unwrap();
    it.set_lvalue_value(LValue::Index { array: aid, index: -9, fixed_size: None }, Object::Integer(0), Span::new(0, 1)).unwrap();
    let elements = it.heap.array_elements(aid).unwrap();
    assert_eq!(elements.len(), 5);
    assert!(matches!(elements[1], Object::Integer(5)));
    assert!(matches!(elements[2], Object::Void));
    assert!(matches!(elements[4], Object::Integer(8)));
    let err = it
        .set_lvalue_value(LValue::Index { array: aid, index: -3, fixed_size: Some(2) }, Object::Integer(0), Span::new(0, 1))
        .unwrap_err();
    assert!(matches!(err.kind, ErrorKind::IndexOutOfBounds { index: -3, size: 2 }));

    it.stack.define("c".to_string(), Object::Integer(1), false, true);
    let err = it
        .set_lvalue_value(LValue::Variable { name: "c".to_string(), distance: None }, Object::Integer(2), Span::new(0, 1))
        .unwrap_err();
    assert!(matches!(err.kind, ErrorKind::ConstantAssignment { .. }));
    let err = it
        .set_lvalue_value(LValue::Variable { name: "zz".to_string(), distance: None }, Object::Integer(2), Span::new(0, 1))
        .unwrap_err();
    assert!(matches!(err.kind, ErrorKind::UnknownVariable { .. }));
    let err = it
        .set_lvalue_value(LValue::Variable { name: "c".to_string(), distance: Some(3) }, Object::Integer(2), Span::new(0, 1))
        .unwrap_err();
    assert!(matches!(err.kind, ErrorKind::InvalidScopeDistance { distance: 3, .. }));
}

#[test]
fn member_access_on_modules_and_enums() {
    let mut it = Interpreter::new(None);
    let module = it.register_module(
        "m".to_string(),
        vec![("pub_value".to_string(), Object::Integer(3))],
    );
    let prop = name_expr("pub_value", 1);
    assert!(matches!(it.eval_access_expression(module, &prop, Span::new(0, 1)), Ok(Object::Integer(3))));
    let module = it.cached_module(&"m".to_string()).unwrap();
    let missing = name_expr("other", 2);
    let err = it.eval_access_expression(module, &missing, Span::new(0, 1)).unwrap_err();
    assert!(matches!(err.kind, ErrorKind::PropertyNotInModule { .. }));

    let value = Object::Enum { name: "Color".to_string(), variant: "Red".to_string(), fields: None };
    match it.eval_access_expression(value, &name_expr("name", 3), Span::new(0, 1)) {
        Ok(Object::String(s)) => assert_eq!(s, "Color"),
        other => panic!("{:?}", other),
    }
    let value = Object::Enum { name: "Color".to_string(), variant: "Red".to_string(), fields: None };
    let err = it.eval_access_expression(value, &name_expr("hue", 4), Span::new(0, 1)).unwrap_err();
    assert!(matches!(err.kind, ErrorKind::EnumMemberAccess { .. }));
    let err = it.eval_access_expression(Object::Integer(1), &name_expr("x", 5), Span::new(0, 1)).unwrap_err();
    assert!(matches!(err.kind, ErrorKind::NoMemberAccess { found: ValueKind::Integer }));
    let literal = Expression { kind: ExpressionKind::Literal(Literal::Integer(1)), span: Span::new(6, 7) };
    let err = it.eval_access_expression(Object::Null, &literal, Span::new(0, 1)).unwrap_err();
    assert!(matches!(err.kind, ErrorKind::InvalidPropertyAccess));
    assert!(matches!(it.eval_access_expression(Object::Object { id: 99, definition: None, constant: false }, &name_expr("x", 8), Span::new(0, 1)), Ok(Object::Void)));
}

#[test]
fn destructuring_a_module() {
    let mut it = Interpreter::new(None);
    let module = it.register_module(
        "m".to_string(),
        vec![("a".to_string(), Object::Integer(1)), ("b".to_string(), Object::Integer(2))],
    );
    let binding = Binding::ModuleAndDestructure {
        alias: "m".to_string(),
        items: vec![DestructureItem { name: "a".to_string(), alias: Some("first".to_string()) }],
    };
    it.apply_binding(&binding, module, false, Span::new(0, 1), true).unwrap();
    assert!(matches!(it.stack.get(&"first".to_string()), Some(Object::Integer(1))));
    assert!(matches!(it.stack.get(&"m".to_string()), Some(Object::Scope(_))));
    assert!(it.stack.get(&"a".to_string()).is_none());

    let module = it.cached_module(&"m".to_string()).unwrap();
    let binding = Binding::Destructure(vec![DestructureItem { name: "zzz".to_string(), alias: None }]);
    let err = it.apply_binding(&binding, module, false, Span::new(0, 1), true).unwrap_err();
    assert!(matches!(err.kind, ErrorKind::NotExported { .. }));
    let err = it.apply_binding(&binding, Object::Integer(1), false, Span::new(0, 1), true).unwrap_err();
    assert!(matches!(err.kind, ErrorKind::DestructureNonModule));
}

#[test]
fn analysis_table_is_kept_for_the_run() {
    // let x = 1; { x }
    let use_x = name_expr("x", 20);
    let program = vec![
        Statement {
            kind: StatementKind::Let {
                name: Binding::Identifier("x".to_string()),
                value: Expression { kind: ExpressionKind::Literal(Literal::Integer(1)), span: Span::new(10, 11) },
                kind: None,
            },
            span: Span::new(9, 12),
        },
        Statement {
            kind: StatementKind::Expression {
                expression: Expression {
                    kind: ExpressionKind::Block(krama_runtime::ast::StatementBlock {
                        statements: vec![Statement { kind: StatementKind::Expression { expression: use_x }, span: Span::new(19, 22) }],
                    }),
                    span: Span::new(18, 23),
                },
            },
            span: Span::new(17, 24),
        },
    ];
    let mut it = Interpreter::new(None);
    it.check(&program, &"src".to_string()).unwrap();
    assert_eq!(it.get_resolved_distance(&name_expr("x", 20)), Some(1));
    assert_eq!(it.get_resolved_distance(&name_expr("x", 30)), None);
}

#[test]
fn destructuring_binds_the_last_item_and_names_the_first_missing() {
    let mut it = Interpreter::new(None);
    let module = it.register_module(
        "m".to_string(),
        vec![("a".to_string(), Object::Integer(1)), ("b".to_string(), Object::Integer(2))],
    );
    let binding = Binding::Destructure(vec![
        DestructureItem { name: "a".to_string(), alias: Some("x".to_string()) },
        DestructureItem { name: "b".to_string(), alias: Some("x".to_string()) },
    ]);
    it.apply_binding(&binding, module, false, Span::new(0, 1), false).unwrap();
    assert!(matches!(it.stack.get(&"x".to_string()), Some(Object::Integer(2))));

    let module = it.cached_module(&"m".to_string()).unwrap();
    let binding = Binding::Destructure(vec![
        DestructureItem { name: "a".to_string(), alias: None },
        DestructureItem { name: "p".to_string(), alias: None },
        DestructureItem { name: "q".to_string(), alias: None },
    ]);
    let err = it.apply_binding(&binding, module, false, Span::new(0, 1), false).unwrap_err();
    assert!(matches!(err.kind, ErrorKind::NotExported { ref name, .. } if name == "p"));
}
