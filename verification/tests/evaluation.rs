use krama_runtime::ast::{
    AssignmentOperator, BinaryOperator, Binding, EnumVariant, Expression, ExpressionKind, FunctionBody, Iteration,
    Literal, MatchArm, Parameter, Pattern, Statement, StatementBlock, StatementKind, StructField, StructMethod, Type,
    TypeKind, UnaryOperator, UpdateOperator,
};
use krama_runtime::error::{ErrorKind, ValueKind};
use krama_runtime::interpreter::Interpreter;
use krama_runtime::object::{Object, UserFunction};
use krama_runtime::span::Span;
use std::sync::atomic::{AtomicUsize, Ordering};

/// The next free source offset: each node gets a span of its own, so that
/// static analysis keys every identifier apart.
static NEXT: AtomicUsize = AtomicUsize::new(1);

fn span() -> Span {
    let v = NEXT.fetch_add(2, Ordering::SeqCst);
    Span::new(v, v + 1)
}

fn e(kind: ExpressionKind) -> Expression {
    Expression { kind, span: span() }
}

fn num(i: i64) -> Expression {
    e(ExpressionKind::Literal(Literal::Integer(i)))
}

fn string(s: &str) -> Expression {
    e(ExpressionKind::Literal(Literal::String(s.to_string())))
}

fn boolean(b: bool) -> Expression {
    e(ExpressionKind::Literal(Literal::Boolean(b)))
}

fn name(n: &str) -> Expression {
    e(ExpressionKind::Identifier(n.to_string()))
}

fn bin(l: Expression, op: BinaryOperator, r: Expression) -> Expression {
    e(ExpressionKind::Binary { left: Box::new(l), operator: op, right: Box::new(r) })
}

fn assign(l: Expression, op: AssignmentOperator, r: Expression) -> Expression {
    e(ExpressionKind::Assignment { left: Box::new(l), operator: op, right: Box::new(r) })
}

fn call(f: Expression, args: Vec<Expression>) -> Expression {
    e(ExpressionKind::Call { function: Box::new(f), arguments: args })
}

fn member(o: Expression, p: &str) -> Expression {
    e(ExpressionKind::Member { object: Box::new(o), property: Box::new(name(p)) })
}

fn index(o: Expression, i: Expression) -> Expression {
    e(ExpressionKind::Index { object: Box::new(o), index: Box::new(i) })
}

fn s(kind: StatementKind) -> Statement {
    Statement { kind, span: span() }
}

fn expr_stmt(x: Expression) -> Statement {
    s(StatementKind::Expression { expression: x })
}

fn let_(n: &str, v: Expression) -> Statement {
    s(StatementKind::Let { name: Binding::Identifier(n.to_string()), value: v, kind: None })
}

fn const_(n: &str, v: Expression) -> Statement {
    s(StatementKind::Const { binding: Binding::Identifier(n.to_string()), value: v, public: false, kind: None })
}

fn block(statements: Vec<Statement>) -> StatementBlock {
    StatementBlock { statements }
}

fn ty(kind: TypeKind) -> Type {
    Type { kind, span: span() }
}

fn param(n: &str, default: Option<Expression>) -> Parameter {
    Parameter { name: n.to_string(), ty: None, default }
}

fn fn_stmt(n: &str, params: Vec<Parameter>, body: Vec<Statement>) -> Statement {
    s(StatementKind::Fn {
        name: n.to_string(),
        parameters: params,
        body: FunctionBody::Block(block(body)),
        public: false,
        kind: None,
    })
}

fn ret(v: Expression) -> Statement {
    s(StatementKind::Return { value: Some(Box::new(v)) })
}

fn run(program: &Vec<Statement>) -> Result<Object<'_>, krama_runtime::error::Error> {
    let mut it = Interpreter::new(None);
    it.eval(program, &"source".to_string())
}

fn int_of(o: &Object) -> i64 {
    match o {
        Object::Integer(i) => *i,
        other => panic!("not an integer: {:?}", other),
    }
}

#[test]
fn arithmetic_and_variables() {
    let program = vec![let_("x", num(40)), expr_stmt(bin(name("x"), BinaryOperator::Add, num(2)))];
    assert_eq!(int_of(&run(&program).unwrap()), 42);
}

#[test]
fn operator_errors_carry_kind() {
    let program = vec![expr_stmt(bin(num(1), BinaryOperator::Divide, num(0)))];
    let err = run(&program).unwrap_err();
    assert!(matches!(err.kind, ErrorKind::DivisionByZero));
    let program = vec![expr_stmt(bin(num(i64::MAX), BinaryOperator::Add, num(1)))];
    assert!(matches!(run(&program).unwrap_err().kind, ErrorKind::IntegerOverflow));
    let program = vec![expr_stmt(e(ExpressionKind::Unary { operator: UnaryOperator::Negate, right: Box::new(string("a")) }))];
    assert!(matches!(run(&program).unwrap_err().kind, ErrorKind::UnsupportedOperands { found: ValueKind::String }));
}

#[test]
fn string_concatenation_and_comparison() {
    let program = vec![expr_stmt(bin(string("ab"), BinaryOperator::Add, string("cd")))];
    match run(&program).unwrap() {
        Object::String(v) => assert_eq!(v, "abcd"),
        other => panic!("{:?}", other),
    }
    let program = vec![expr_stmt(bin(string("abc"), BinaryOperator::Less, string("abd")))];
    assert!(matches!(run(&program).unwrap(), Object::Boolean(true)));
}

#[test]
fn logical_operators_short_circuit() {
    // `false && undefined` never reads `undefined`.
    let program = vec![expr_stmt(bin(boolean(false), BinaryOperator::LogicalAnd, name("undefined")))];
    assert!(matches!(run(&program).unwrap(), Object::Boolean(false)));
    let program = vec![expr_stmt(bin(num(7), BinaryOperator::LogicalOr, name("undefined")))];
    assert_eq!(int_of(&run(&program).unwrap()), 7);
    let program = vec![expr_stmt(bin(boolean(false), BinaryOperator::LogicalOr, name("undefined")))];
    assert!(matches!(run(&program).unwrap_err().kind, ErrorKind::NotDefined { .. }));
}

#[test]
fn constant_cannot_be_assigned() {
    let program = vec![const_("c", num(1)), expr_stmt(assign(name("c"), AssignmentOperator::Assign, num(2)))];
    let err = run(&program).unwrap_err();
    assert!(matches!(err.kind, ErrorKind::ConstantAssignment { ref name } if name == "c"));
}

#[test]
fn compound_assignment_and_update() {
    let program = vec![
        let_("x", num(5)),
        expr_stmt(assign(name("x"), AssignmentOperator::MultiplyAssign, num(3))),
        expr_stmt(e(ExpressionKind::Update { operator: UpdateOperator::Increment, argument: Box::new(name("x")), prefix: false })),
        expr_stmt(name("x")),
    ];
    assert_eq!(int_of(&run(&program).unwrap()), 16);
    let program = vec![
        let_("y", num(5)),
        expr_stmt(e(ExpressionKind::Update { operator: UpdateOperator::Decrement, argument: Box::new(name("y")), prefix: true })),
    ];
    assert_eq!(int_of(&run(&program).unwrap()), 4);
}

#[test]
fn while_loop_counts() {
    let program = vec![
        let_("i", num(0)),
        let_("sum", num(0)),
        s(StatementKind::While {
            condition: bin(name("i"), BinaryOperator::Less, num(5)),
            body: block(vec![
                expr_stmt(assign(name("sum"), AssignmentOperator::AddAssign, name("i"))),
                expr_stmt(assign(name("i"), AssignmentOperator::AddAssign, num(1))),
            ]),
        }),
        expr_stmt(name("sum")),
    ];
    assert_eq!(int_of(&run(&program).unwrap()), 10);
}

#[test]
fn while_loop_break_and_step_limit() {
    let program = vec![
        let_("i", num(0)),
        s(StatementKind::While {
            condition: boolean(true),
            body: block(vec![
                expr_stmt(assign(name("i"), AssignmentOperator::AddAssign, num(1))),
                s(StatementKind::Break),
            ]),
        }),
        expr_stmt(name("i")),
    ];
    assert_eq!(int_of(&run(&program).unwrap()), 1);

    let program = vec![s(StatementKind::While { condition: boolean(true), body: block(vec![]) })];
    let mut it = Interpreter::new(None);
    it.steps = 100;
    let err = it.eval(&program, &"source".to_string()).unwrap_err();
    assert!(matches!(err.kind, ErrorKind::StepLimit));
    assert_eq!(it.steps, 0);
}

#[test]
fn for_loop_over_array_and_string() {
    let program = vec![
        let_("sum", num(0)),
        s(StatementKind::For {
            binding: Iteration::Identifier("v".to_string()),
            iterable: e(ExpressionKind::Collection { elements: vec![num(1), num(2), num(3)] }),
            body: block(vec![expr_stmt(assign(name("sum"), AssignmentOperator::AddAssign, name("v")))]),
        }),
        expr_stmt(name("sum")),
    ];
    assert_eq!(int_of(&run(&program).unwrap()), 6);

    let program = vec![
        let_("out", string("")),
        s(StatementKind::For {
            binding: Iteration::Identifier("c".to_string()),
            iterable: string("hé!"),
            body: block(vec![expr_stmt(assign(name("out"), AssignmentOperator::Assign, bin(name("c"), BinaryOperator::Add, name("out"))))]),
        }),
        expr_stmt(name("out")),
    ];
    match run(&program).unwrap() {
        Object::String(v) => assert_eq!(v, "!éh"),
        other => panic!("{:?}", other),
    }
}

#[test]
fn for_loop_over_integer_is_not_iterable() {
    let program = vec![s(StatementKind::For {
        binding: Iteration::Identifier("v".to_string()),
        iterable: num(3),
        body: block(vec![]),
    })];
    assert!(matches!(run(&program).unwrap_err().kind, ErrorKind::NotIterable { found: ValueKind::Integer }));
}

#[test]
fn functions_with_defaults_and_recursion() {
    // fn add(a, b = 10) { return a + b }  add(1) + add(1, 2)
    let program = vec![
        fn_stmt("add", vec![param("a", None), param("b", Some(num(10)))], vec![ret(bin(name("a"), BinaryOperator::Add, name("b")))]),
        expr_stmt(bin(call(name("add"), vec![num(1)]), BinaryOperator::Add, call(name("add"), vec![num(1), num(2)]))),
    ];
    assert_eq!(int_of(&run(&program).unwrap()), 14);

    // fn fact(n) { if n < 2 { return 1 } return n * fact(n - 1) }  fact(10)
    let program = vec![
        fn_stmt(
            "fact",
            vec![param("n", None)],
            vec![
                expr_stmt(e(ExpressionKind::If {
                    condition: Box::new(bin(name("n"), BinaryOperator::Less, num(2))),
                    then_branch: Box::new(e(ExpressionKind::Block(block(vec![ret(num(1))])))),
                    else_branch: None,
                })),
                ret(bin(name("n"), BinaryOperator::Multiply, call(name("fact"), vec![bin(name("n"), BinaryOperator::Subtract, num(1))]))),
            ],
        ),
        expr_stmt(call(name("fact"), vec![num(10)])),
    ];
    assert_eq!(int_of(&run(&program).unwrap()), 3628800);
}

#[test]
fn call_errors() {
    let program = vec![
        fn_stmt("f", vec![param("a", None)], vec![ret(name("a"))]),
        expr_stmt(call(name("f"), vec![num(1), num(2)])),
    ];
    assert!(matches!(run(&program).unwrap_err().kind, ErrorKind::TooManyArguments { expected: 1, found: 2 }));
    let program = vec![fn_stmt("f", vec![param("a", None)], vec![ret(name("a"))]), expr_stmt(call(name("f"), vec![]))];
    assert!(matches!(run(&program).unwrap_err().kind, ErrorKind::MissingArgument { ref parameter } if parameter == "a"));
    let program = vec![expr_stmt(call(num(3), vec![]))];
    assert!(matches!(run(&program).unwrap_err().kind, ErrorKind::NotCallable { found: ValueKind::Integer }));
}

#[test]
fn unbounded_recursion_hits_call_depth() {
    let program = vec![fn_stmt("f", vec![], vec![ret(call(name("f"), vec![]))]), expr_stmt(call(name("f"), vec![]))];
    let mut it = Interpreter::new(None);
    it.parse_and_check(&program, &"source".to_string()).unwrap();
    let err = it.eval_statements(&program, 50).unwrap_err();
    assert!(matches!(err.kind, ErrorKind::CallDepthExceeded));
}

#[test]
fn closures_capture_their_scope() {
    // fn make() { let n = 5; return fn() { return n } }  make()()
    let inner = e(ExpressionKind::Fn {
        parameters: vec![],
        body: FunctionBody::Block(block(vec![ret(name("n"))])),
        kind: None,
    });
    let program = vec![
        fn_stmt("make", vec![], vec![let_("n", num(5)), ret(inner)]),
        expr_stmt(call(call(name("make"), vec![]), vec![])),
    ];
    assert_eq!(int_of(&run(&program).unwrap()), 5);
}

#[test]
fn arrays_tuples_and_indexing() {
    let program = vec![
        let_("a", e(ExpressionKind::Collection { elements: vec![num(1), num(2), num(3)] })),
        expr_stmt(index(name("a"), num(-1))),
    ];
    // Without an annotation, a non-empty collection is a tuple.
    assert_eq!(int_of(&run(&program).unwrap()), 3);
    let program = vec![expr_stmt(index(string("héllo"), num(1)))];
    match run(&program).unwrap() {
        Object::String(v) => assert_eq!(v, "é"),
        other => panic!("{:?}", other),
    }
    let program = vec![expr_stmt(index(num(1), num(0)))];
    assert!(matches!(run(&program).unwrap_err().kind, ErrorKind::NotIndexable { found: ValueKind::Integer }));
    let program = vec![expr_stmt(index(string("ab"), string("x")))];
    assert!(matches!(run(&program).unwrap_err().kind, ErrorKind::IndexNotInteger { found: ValueKind::String }));
}

#[test]
fn string_index_inside_bytes_past_characters() {
    // "é!" has 3 bytes and 2 characters: index 2 is past the characters.
    let program = vec![expr_stmt(index(string("é!"), num(2)))];
    assert!(matches!(run(&program).unwrap_err().kind, ErrorKind::CharIndexPastEnd { index: 2 }));
    let program = vec![expr_stmt(index(string("é!"), num(3)))];
    assert!(matches!(run(&program).unwrap(), Object::Void));
}

#[test]
fn typed_array_assignment_grows_and_checks_size() {
    let array_type = ty(TypeKind::Array { element: Box::new(ty(TypeKind::Integer)), size: None });
    let program = vec![
        s(StatementKind::Let {
            name: Binding::Identifier("a".to_string()),
            value: e(ExpressionKind::Collection { elements: vec![num(1)] }),
            kind: Some(array_type),
        }),
        expr_stmt(assign(index(name("a"), num(3)), AssignmentOperator::Assign, num(9))),
        expr_stmt(index(name("a"), num(2))),
    ];
    assert!(matches!(run(&program).unwrap(), Object::Void));

    let fixed = ty(TypeKind::Array { element: Box::new(ty(TypeKind::Integer)), size: Some(Literal::Integer(2)) });
    let program = vec![
        s(StatementKind::Let {
            name: Binding::Identifier("a".to_string()),
            value: e(ExpressionKind::Collection { elements: vec![num(1), num(2)] }),
            kind: Some(fixed),
        }),
        expr_stmt(assign(index(name("a"), num(2)), AssignmentOperator::Assign, num(9))),
    ];
    assert!(matches!(run(&program).unwrap_err().kind, ErrorKind::IndexOutOfBounds { index: 2, size: 2 }));
}

#[test]
fn type_annotation_mismatch() {
    let program = vec![s(StatementKind::Let {
        name: Binding::Identifier("x".to_string()),
        value: string("no"),
        kind: Some(ty(TypeKind::Integer)),
    })];
    assert!(matches!(run(&program).unwrap_err().kind, ErrorKind::TypeMismatch { .. }));
}

#[test]
fn objects_and_properties() {
    let obj = e(ExpressionKind::Object { properties: vec![(name("a"), num(1)), (string("b"), num(2))] });
    let program = vec![
        let_("o", obj),
        expr_stmt(assign(member(name("o"), "a"), AssignmentOperator::AddAssign, num(10))),
        expr_stmt(bin(member(name("o"), "a"), BinaryOperator::Add, index(name("o"), string("b")))),
    ];
    assert_eq!(int_of(&run(&program).unwrap()), 13);
    let obj = e(ExpressionKind::Object { properties: vec![(name("a"), num(1))] });
    let program = vec![const_("o", obj), expr_stmt(assign(member(name("o"), "a"), AssignmentOperator::Assign, num(2)))];
    assert!(matches!(run(&program).unwrap_err().kind, ErrorKind::ConstantObjectProperty));
}

#[test]
fn match_with_ranges_and_else() {
    let arms = vec![
        MatchArm { patterns: vec![Pattern::Range(num(0), num(9))], body: FunctionBody::Expression(Box::new(string("digit"))) },
        MatchArm { patterns: vec![Pattern::Expression(num(42))], body: FunctionBody::Expression(Box::new(string("answer"))) },
        MatchArm { patterns: vec![Pattern::Else], body: FunctionBody::Expression(Box::new(string("other"))) },
    ];
    let program = vec![expr_stmt(e(ExpressionKind::Match { subject: Box::new(num(42)), arms }))];
    match run(&program).unwrap() {
        Object::String(v) => assert_eq!(v, "answer"),
        other => panic!("{:?}", other),
    }
    let arms = vec![MatchArm {
        patterns: vec![Pattern::Range(string("a"), num(9))],
        body: FunctionBody::Expression(Box::new(num(1))),
    }];
    let program = vec![expr_stmt(e(ExpressionKind::Match { subject: Box::new(num(3)), arms }))];
    assert!(matches!(run(&program).unwrap_err().kind, ErrorKind::IntegerRangeBounds));
}

#[test]
fn enums_and_variant_constructors() {
    let program = vec![
        s(StatementKind::Enum {
            public: false,
            name: "Shape".to_string(),
            variants: vec![
                EnumVariant { name: "Point".to_string(), fields: None },
                EnumVariant { name: "Circle".to_string(), fields: Some(vec![ty(TypeKind::Integer)]) },
            ],
        }),
        let_("c", call(member(name("Shape"), "Circle"), vec![num(3)])),
        expr_stmt(member(name("c"), "variant")),
    ];
    match run(&program).unwrap() {
        Object::String(v) => assert_eq!(v, "Circle"),
        other => panic!("{:?}", other),
    }
    let program = vec![
        s(StatementKind::Enum {
            public: false,
            name: "Shape".to_string(),
            variants: vec![EnumVariant { name: "Circle".to_string(), fields: Some(vec![ty(TypeKind::Integer)]) }],
        }),
        expr_stmt(call(member(name("Shape"), "Circle"), vec![])),
    ];
    assert!(matches!(run(&program).unwrap_err().kind, ErrorKind::VariantArity { expected: 1, found: 0, .. }));
}

#[test]
fn structs_with_methods_and_privacy() {
    // struct P { x: int = 1, secret: int = 2 (private); fn new() { P {} }; fn get(this) { this.secret } }
    let fields = vec![
        StructField { name: "x".to_string(), kind: ty(TypeKind::Integer), default: Some(num(1)), public: true },
        StructField { name: "secret".to_string(), kind: ty(TypeKind::Integer), default: Some(num(2)), public: false },
    ];
    let methods = vec![
        StructMethod {
            name: "new".to_string(),
            parameters: vec![],
            body: FunctionBody::Expression(Box::new(e(ExpressionKind::StructConstruction { properties: vec![] }))),
            ty: None,
            public: true,
            instance: false,
        },
        StructMethod {
            name: "get".to_string(),
            parameters: vec![],
            body: FunctionBody::Expression(Box::new(member(e(ExpressionKind::This), "secret"))),
            ty: None,
            public: true,
            instance: true,
        },
    ];
    let program = vec![
        s(StatementKind::Struct { public: false, name: "P".to_string(), fields, methods }),
        let_("p", call(member(name("P"), "new"), vec![])),
        expr_stmt(bin(member(name("p"), "x"), BinaryOperator::Add, call(member(name("p"), "get"), vec![]))),
    ];
    assert_eq!(int_of(&run(&program).unwrap()), 3);
}

#[test]
fn private_field_outside_struct() {
    let fields = vec![StructField { name: "secret".to_string(), kind: ty(TypeKind::Integer), default: Some(num(2)), public: false }];
    let methods = vec![StructMethod {
        name: "new".to_string(),
        parameters: vec![],
        body: FunctionBody::Expression(Box::new(e(ExpressionKind::StructConstruction { properties: vec![] }))),
        ty: None,
        public: true,
        instance: false,
    }];
    let program = vec![
        s(StatementKind::Struct { public: false, name: "P".to_string(), fields, methods }),
        let_("p", call(member(name("P"), "new"), vec![])),
        expr_stmt(member(name("p"), "secret")),
    ];
    assert!(matches!(run(&program).unwrap_err().kind, ErrorKind::PrivateMember { ref member } if member == "secret"));
}

#[test]
fn runtime_errors_have_no_source_context() {
    // Errors raised while running are returned as they were raised.
    let program = vec![expr_stmt(call(member(name("R"), "E"), vec![num(1)]))];
    let mut it = Interpreter::new(Some("dir/main.km".to_string()));
    let err = it.eval(&program, &"the source".to_string()).unwrap_err();
    assert!(matches!(err.kind, ErrorKind::NotDefined { .. }));
    assert_eq!(err.source, None);
}

#[test]
fn tests_report_pass_and_fail() {
    let program = vec![
        let_("x", num(1)),
        s(StatementKind::Test { name: string("passes"), body: block(vec![expr_stmt(name("x"))]) }),
        s(StatementKind::Test { name: num(3), body: block(vec![expr_stmt(name("missing"))]) }),
    ];
    let mut it = Interpreter::new(None);
    let results = it.run_tests(&program).unwrap();
    assert_eq!(results.len(), 2);
    assert_eq!(results[0].name, "passes");
    assert!(results[0].passed);
    assert_eq!(results[1].name, "Unnamed test");
    assert!(!results[1].passed);
    assert!(matches!(results[1].error.as_ref().unwrap().kind, ErrorKind::NotDefined { .. }));
}

fn err_value(i: i64) -> Object<'static> {
    Object::ErrValue(Box::new(Object::Integer(i)))
}

#[test]
fn error_result_reaching_the_top_is_uncaught() {
    let program = vec![expr_stmt(name("failure"))];
    let mut it = Interpreter::new(Some("dir/main.km".to_string()));
    it.stack.define("failure".to_string(), err_value(3), false, false);
    let err = it.eval(&program, &"the source".to_string()).unwrap_err();
    assert!(matches!(err.kind, ErrorKind::UncaughtErr));
    assert_eq!(err.source, Some("the source".to_string()));
    assert_eq!(err.file, Some("dir/main.km".to_string()));
    assert_eq!(err.span, Span::new(0, 0));

    let program = vec![expr_stmt(e(ExpressionKind::Try(Box::new(name("failure")))))];
    let mut it = Interpreter::new(None);
    it.stack.define("failure".to_string(), err_value(3), false, false);
    let err = it.eval(&program, &"src".to_string()).unwrap_err();
    assert!(matches!(err.kind, ErrorKind::UncaughtErr));
    assert_eq!(err.file, Some("<unknown>".to_string()));
}

#[test]
fn error_result_returns_from_function() {
    // fn f() { failure; 5 }  let r = f()  — the error value leaves f as its
    // result, and the call's value is that error as a `return` signal.
    let program = vec![
        fn_stmt("f", vec![], vec![expr_stmt(name("failure")), expr_stmt(num(5))]),
        let_("r", call(name("f"), vec![])),
        expr_stmt(num(1)),
    ];
    let mut it = Interpreter::new(None);
    it.stack.define("failure".to_string(), err_value(9), false, false);
    assert_eq!(int_of(&it.eval(&program, &"src".to_string()).unwrap()), 1);
    match it.stack.get(&"r".to_string()) {
        Some(Object::Return(inner)) => assert!(matches!(*inner, Object::ErrValue(_))),
        other => panic!("{:?}", other),
    }
}

#[test]
fn match_binds_result_payloads() {
    let arms = vec![
        MatchArm {
            patterns: vec![Pattern::Expression(call(name("Ok"), vec![name("v")]))],
            body: FunctionBody::Expression(Box::new(name("v"))),
        },
        MatchArm {
            patterns: vec![Pattern::Expression(call(name("Err"), vec![name("x")]))],
            body: FunctionBody::Expression(Box::new(bin(name("x"), BinaryOperator::Multiply, num(10)))),
        },
    ];
    let program = vec![expr_stmt(e(ExpressionKind::Match { subject: Box::new(name("failure")), arms }))];
    let mut it = Interpreter::new(None);
    it.stack.define("failure".to_string(), err_value(4), false, false);
    assert_eq!(int_of(&it.eval(&program, &"src".to_string()).unwrap()), 40);
}

#[test]
fn if_with_pattern_assignment() {
    // if Ok(v) = good { v } else { 0 }
    let cond = assign(call(name("Ok"), vec![name("v")]), AssignmentOperator::Assign, name("good"));
    let program = vec![expr_stmt(e(ExpressionKind::If {
        condition: Box::new(cond),
        then_branch: Box::new(name("v")),
        else_branch: Some(Box::new(num(0))),
    }))];
    let mut it = Interpreter::new(None);
    it.stack.define("good".to_string(), Object::OkValue(Box::new(Object::Integer(8))), false, false);
    assert_eq!(int_of(&it.eval(&program, &"src".to_string()).unwrap()), 8);
}

#[test]
fn plain_assignment_then_read() {
    let program = vec![
        let_("x", num(1)),
        expr_stmt(e(ExpressionKind::Block(block(vec![expr_stmt(assign(name("x"), AssignmentOperator::Assign, num(12)))])))),
        expr_stmt(name("x")),
    ];
    assert_eq!(int_of(&run(&program).unwrap()), 12);
    let program = vec![expr_stmt(assign(num(1), AssignmentOperator::Assign, num(2)))];
    assert!(matches!(run(&program).unwrap_err().kind, ErrorKind::InvalidAssignmentTarget));
}

#[test]
fn equality_operators_are_complementary() {
    let program = vec![expr_stmt(bin(
        bin(string("a"), BinaryOperator::Equal, string("a")),
        BinaryOperator::LogicalAnd,
        bin(num(1), BinaryOperator::NotEqual, num(2)),
    ))];
    assert!(matches!(run(&program).unwrap(), Object::Boolean(true)));
}

#[test]
fn while_with_false_condition_spends_one_step() {
    let statement = s(StatementKind::While {
        condition: boolean(false),
        body: block(vec![expr_stmt(call(name("missing"), vec![]))]),
    });
    let mut it = Interpreter::new(None);
    it.steps = 7;
    let v = it.eval_while_statement(&statement, 16).unwrap();
    assert!(matches!(v, Object::Void));
    assert_eq!(it.steps, 6);
}

#[test]
fn statements_stop_at_the_first_control_signal() {
    let statements = vec![
        expr_stmt(num(1)),
        s(StatementKind::Break),
        expr_stmt(name("never_reached")),
    ];
    let mut it = Interpreter::new(None);
    assert!(matches!(it.eval_statements(&statements, 16).unwrap(), Object::Break));

    let statements = vec![expr_stmt(num(1)), expr_stmt(bin(num(2), BinaryOperator::Multiply, num(21)))];
    assert_eq!(int_of(&it.eval_statements(&statements, 16).unwrap()), 42);

    let statements = vec![];
    assert!(matches!(it.eval_statements(&statements, 16).unwrap(), Object::Void));
}

#[test]
fn for_over_empty_string_runs_no_round() {
    let statement = s(StatementKind::For {
        binding: Iteration::Identifier("c".to_string()),
        iterable: string(""),
        body: block(vec![expr_stmt(call(name("missing"), vec![]))]),
    });
    let mut it = Interpreter::new(None);
    assert!(matches!(it.eval_for_statement(&statement, 16).unwrap(), Object::Void));
    assert_eq!(it.heap.allocations, 0);
}

#[test]
fn match_without_a_matching_arm_is_empty() {
    let arms = vec![MatchArm {
        patterns: vec![Pattern::Range(num(0), num(9)), Pattern::Expression(num(50))],
        body: FunctionBody::Expression(Box::new(num(1))),
    }];
    let program = vec![expr_stmt(e(ExpressionKind::Match { subject: Box::new(num(100)), arms }))];
    assert!(matches!(run(&program).unwrap(), Object::Void));

    let arms = vec![MatchArm {
        patterns: vec![Pattern::Range(string("a"), string("z"))],
        body: FunctionBody::Expression(Box::new(num(1))),
    }];
    let program = vec![expr_stmt(e(ExpressionKind::Match { subject: Box::new(string("m")), arms }))];
    assert_eq!(int_of(&run(&program).unwrap()), 1);

    let arms = vec![MatchArm {
        patterns: vec![Pattern::Range(string("a"), num(3))],
        body: FunctionBody::Expression(Box::new(num(1))),
    }];
    let program = vec![expr_stmt(e(ExpressionKind::Match { subject: Box::new(string("m")), arms }))];
    assert!(matches!(run(&program).unwrap_err().kind, ErrorKind::StringRangeBounds));
}

#[test]
fn object_literal_keys_must_be_strings() {
    let obj = e(ExpressionKind::Object { properties: vec![(num(1), num(2))] });
    let program = vec![expr_stmt(obj)];
    assert!(matches!(run(&program).unwrap_err().kind, ErrorKind::PropertyKeyNotString));

    let obj = e(ExpressionKind::Object { properties: vec![(name("a"), num(1)), (string("a"), num(5))] });
    let program = vec![let_("o", obj), expr_stmt(member(name("o"), "a"))];
    assert_eq!(int_of(&run(&program).unwrap()), 5);
}

#[test]
fn for_loop_destructures_pairs_padding_with_empty() {
    let pairs = e(ExpressionKind::Collection {
        elements: vec![
            e(ExpressionKind::Collection { elements: vec![num(1), num(2)] }),
            e(ExpressionKind::Collection { elements: vec![num(3)] }),
        ],
    });
    let program = vec![
        let_("sum", num(0)),
        let_("empties", num(0)),
        s(StatementKind::For {
            binding: Iteration::Array(vec![Iteration::Identifier("a".to_string()), Iteration::Identifier("b".to_string())]),
            iterable: pairs,
            body: block(vec![
                expr_stmt(assign(name("sum"), AssignmentOperator::AddAssign, name("a"))),
                expr_stmt(e(ExpressionKind::If {
                    condition: Box::new(name("b")),
                    then_branch: Box::new(assign(name("sum"), AssignmentOperator::AddAssign, name("b"))),
                    else_branch: Some(Box::new(assign(name("empties"), AssignmentOperator::AddAssign, num(1)))),
                })),
            ]),
        }),
        expr_stmt(bin(bin(name("sum"), BinaryOperator::Multiply, num(10)), BinaryOperator::Add, name("empties"))),
    ];
    assert_eq!(int_of(&run(&program).unwrap()), 61);
}

#[test]
fn top_level_return_gives_the_program_value() {
    let program = vec![expr_stmt(num(1)), ret(num(5)), expr_stmt(name("never_read"))];
    assert_eq!(int_of(&run(&program).unwrap()), 5);
}

#[test]
fn pattern_assignment_conditions() {
    let mut it = Interpreter::new(None);
    let plain_assignment = assign(num(1), AssignmentOperator::Assign, num(1));
    assert!(matches!(it.try_match_assignment(&plain_assignment, 16), Ok(None)));
    it.define_bindings(vec![("r".to_string(), Object::OkValue(Box::new(Object::Integer(7))))]);
    let ok_pattern = assign(call(name("Ok"), vec![name("v")]), AssignmentOperator::Assign, name("r"));
    match it.try_match_assignment(&ok_pattern, 16) {
        Ok(Some(b)) => {
            assert_eq!(b.len(), 1);
            assert_eq!(b[0].0, "v");
            assert!(matches!(b[0].1, Object::Integer(7)));
        },
        other => panic!("{:?}", other),
    }
    let err_pattern = assign(call(name("Err"), vec![name("v")]), AssignmentOperator::Assign, name("r"));
    assert!(matches!(it.try_match_assignment(&err_pattern, 16), Ok(None)));
    let plain = num(1);
    assert!(matches!(it.try_match_assignment(&plain, 16), Ok(None)));
}

#[test]
fn defined_bindings_read_back_the_last_value() {
    let mut it = Interpreter::new(None);
    it.define_bindings(vec![
        ("a".to_string(), Object::Integer(1)),
        ("b".to_string(), Object::Integer(3)),
        ("a".to_string(), Object::Integer(2)),
    ]);
    assert!(matches!(it.stack.get(&"a".to_string()), Some(Object::Integer(2))));
    assert!(matches!(it.stack.get(&"b".to_string()), Some(Object::Integer(3))));
}

#[test]
fn block_in_a_new_scope() {
    let mut it = Interpreter::new(None);
    let scopes = it.stack.scopes.len();
    let b = block(vec![expr_stmt(num(3))]);
    assert_eq!(int_of(&it.eval_block_statement_with_new_scope(&b, 16).unwrap()), 3);
    assert_eq!(it.stack.scopes.len(), scopes + 1);
    let empty = block(vec![]);
    assert!(matches!(it.eval_block_statement_with_new_scope(&empty, 16).unwrap(), Object::Void));
}

#[test]
fn test_setup_runs_declarations_and_reports_errors() {
    let statements = vec![
        fn_stmt("f", vec![], vec![ret(num(1))]),
        s(StatementKind::Test { name: string("t"), body: block(vec![]) }),
    ];
    let mut it = Interpreter::new(None);
    let tests = it.process_statements_for_tests(&statements).unwrap();
    assert_eq!(tests.len(), 1);
    let statements = vec![expr_stmt(name("missing"))];
    let err = it.run_tests(&statements).unwrap_err();
    assert!(matches!(err.kind, ErrorKind::NotDefined { .. }));
}

#[test]
fn literal_test_bodies_pass_or_report_their_error() {
    let statements = vec![
        s(StatementKind::Test { name: string("ok"), body: block(vec![expr_stmt(bin(num(1), BinaryOperator::Add, num(2)))]) }),
        s(StatementKind::Test {
            name: string("bad"),
            body: block(vec![expr_stmt(bin(num(1), BinaryOperator::Divide, num(0)))]),
        }),
    ];
    let mut it = Interpreter::new(None);
    let results = it.run_tests(&statements).unwrap();
    assert!(results[0].passed && results[0].error.is_none());
    assert!(!results[1].passed);
    assert!(matches!(results[1].error.as_ref().unwrap().kind, ErrorKind::DivisionByZero));
}

#[test]
fn typed_let_with_a_wrong_value_binds_nothing() {
    let statement = s(StatementKind::Let {
        name: Binding::Identifier("x".to_string()),
        value: string("text"),
        kind: Some(ty(TypeKind::Integer)),
    });
    let mut it = Interpreter::new(None);
    let err = it.eval_statement(&statement, 16).unwrap_err();
    assert!(matches!(err.kind, ErrorKind::TypeMismatch { found: ValueKind::String }));
    assert!(it.stack.get(&"x".to_string()).is_none());
}

#[test]
fn while_true_with_break_runs_one_round() {
    let statement = s(StatementKind::While { condition: boolean(true), body: block(vec![s(StatementKind::Break)]) });
    let mut it = Interpreter::new(None);
    it.steps = 5;
    assert!(matches!(it.eval_statement(&statement, 16).unwrap(), Object::Void));
    assert_eq!(it.steps, 4);
}

#[test]
fn struct_construction_takes_given_values_then_defaults() {
    let fields = vec![
        StructField { name: "a".to_string(), kind: ty(TypeKind::Any), default: Some(num(1)), public: true },
        StructField { name: "b".to_string(), kind: ty(TypeKind::Any), default: None, public: true },
    ];
    let make = |props: Vec<(Expression, Expression)>| StructMethod {
        name: "make".to_string(),
        parameters: vec![],
        body: FunctionBody::Expression(Box::new(e(ExpressionKind::StructConstruction { properties: props }))),
        ty: None,
        public: true,
        instance: false,
    };
    let program = vec![
        s(StatementKind::Struct { public: false, name: "Q".to_string(), fields, methods: vec![make(vec![(name("b"), num(5))])] }),
        let_("q", call(member(name("Q"), "make"), vec![])),
        expr_stmt(bin(member(name("q"), "a"), BinaryOperator::Add, member(name("q"), "b"))),
    ];
    assert_eq!(int_of(&run(&program).unwrap()), 6);

    let fields = vec![StructField { name: "b".to_string(), kind: ty(TypeKind::Any), default: None, public: true }];
    let program = vec![
        s(StatementKind::Struct { public: false, name: "R".to_string(), fields, methods: vec![make(vec![])] }),
        expr_stmt(call(member(name("R"), "make"), vec![])),
    ];
    assert!(matches!(run(&program).unwrap_err().kind, ErrorKind::MissingField { ref field } if field == "b"));
}

#[test]
fn for_loop_with_a_fixed_body() {
    let statement = s(StatementKind::For {
        binding: Iteration::Identifier("c".to_string()),
        iterable: string("ab"),
        body: block(vec![ret(num(7))]),
    });
    let mut it = Interpreter::new(None);
    match it.eval_for_statement(&statement, 16).unwrap() {
        Object::Return(v) => assert!(matches!(*v, Object::Integer(7))),
        other => panic!("{:?}", other),
    }
    let statement = s(StatementKind::For {
        binding: Iteration::Identifier("c".to_string()),
        iterable: string("ab"),
        body: block(vec![expr_stmt(num(1)), s(StatementKind::Continue)]),
    });
    assert!(matches!(it.eval_for_statement(&statement, 16).unwrap(), Object::Void));
}

#[test]
fn for_loop_opens_one_scope_per_element() {
    let program = vec![
        let_("a", e(ExpressionKind::Collection { elements: vec![num(4), num(5), num(6)] })),
        s(StatementKind::For {
            binding: Iteration::Identifier("x".to_string()),
            iterable: name("a"),
            body: block(vec![expr_stmt(num(1))]),
        }),
    ];
    let mut it = Interpreter::new(None);
    let frames = it.stack.frames.clone();
    it.eval(&program, &"source".to_string()).unwrap();
    assert_eq!(it.stack.frames, frames);
    let n = it.stack.scopes.len();
    assert!(n >= 4);
    for (k, want) in [4i64, 5, 6].iter().enumerate() {
        let scope = &it.stack.scopes[n - 3 + k];
        assert_eq!(scope.parent, Some(frames[frames.len() - 1]));
        assert_eq!(scope.bindings.len(), 1);
        assert_eq!(scope.bindings[0].name, "x");
        assert_eq!(int_of(&scope.bindings[0].value), *want);
        assert!(!scope.bindings[0].public && !scope.bindings[0].constant);
    }
}

#[test]
fn endless_while_spends_the_whole_budget() {
    let statement = s(StatementKind::While { condition: boolean(true), body: block(vec![expr_stmt(num(1))]) });
    let mut it = Interpreter::new(None);
    it.steps = 3;
    let err = it.eval_statement(&statement, 16).unwrap_err();
    assert!(matches!(err.kind, ErrorKind::StepLimit));
    assert_eq!(err.span, statement.span);
    assert_eq!(it.steps, 0);
}

#[test]
fn a_call_binds_its_receiver_as_a_private_constant() {
    let parameters: Vec<Parameter> = vec![];
    let body = FunctionBody::Expression(Box::new(e(ExpressionKind::This)));
    let f = UserFunction { parameters: &parameters, body: &body, ty: None };
    let mut it = Interpreter::new(None);
    let got = it.eval_user_function_call_with_this(&f, None, &vec![], Object::Integer(9), span(), 8).unwrap();
    assert_eq!(int_of(&got), 9);
    let scope = it.stack.scopes.last().unwrap();
    let this = scope.bindings.iter().find(|v| v.name == "this").unwrap();
    assert!(!this.public && this.constant);
    assert_eq!(int_of(&this.value), 9);
}

#[test]
fn let_and_const_bind_with_their_flags() {
    let mut it = Interpreter::new(None);
    let first = let_("a", num(1));
    let second = s(StatementKind::Const {
        binding: Binding::Identifier("b".to_string()),
        value: num(2),
        public: true,
        kind: None,
    });
    it.eval_statement(&first, 8).unwrap();
    it.eval_statement(&second, 8).unwrap();
    let scope = &it.stack.scopes[it.stack.frames[it.stack.frames.len() - 1]];
    let a = scope.bindings.iter().find(|v| v.name == "a").unwrap();
    let b = scope.bindings.iter().find(|v| v.name == "b").unwrap();
    assert!(!a.public && !a.constant);
    assert!(b.public && b.constant);
    assert_eq!(int_of(&a.value), 1);
    assert_eq!(int_of(&b.value), 2);
}

#[test]
fn a_call_binds_arguments_then_literal_defaults() {
    let parameters = vec![param("a", None), param("b", Some(num(5)))];
    let body = FunctionBody::Expression(Box::new(num(0)));
    let f = UserFunction { parameters: &parameters, body: &body, ty: None };
    let mut it = Interpreter::new(None);
    let frames = it.stack.frames.clone();
    let got = it.eval_user_function_call_with_this(&f, None, &vec![Object::Integer(1)], Object::Void, span(), 8).unwrap();
    assert_eq!(int_of(&got), 0);
    assert_eq!(it.stack.frames, frames);
    let scope = it.stack.scopes.last().unwrap();
    assert_eq!(scope.parent, Some(frames[frames.len() - 1]));
    let a = scope.bindings.iter().find(|v| v.name == "a").unwrap();
    let b = scope.bindings.iter().find(|v| v.name == "b").unwrap();
    assert_eq!(int_of(&a.value), 1);
    assert_eq!(int_of(&b.value), 5);
    assert!(!a.public && !a.constant && !b.public && !b.constant);
}

#[test]
fn a_typed_parameter_rejects_an_argument_of_another_kind() {
    let parameters = vec![
        param("a", None),
        Parameter { name: "b".to_string(), ty: Some(ty(TypeKind::Integer)), default: None },
    ];
    let body = FunctionBody::Expression(Box::new(num(0)));
    let f = UserFunction { parameters: &parameters, body: &body, ty: None };
    let mut it = Interpreter::new(None);
    let args = vec![Object::Integer(1), Object::String("x".to_string())];
    let err = it.eval_user_function_call_with_this(&f, None, &args, Object::Void, span(), 8).unwrap_err();
    assert!(matches!(err.kind, ErrorKind::TypeMismatch { found: ValueKind::String }));
    let args = vec![Object::Integer(1), Object::Integer(2)];
    assert_eq!(int_of(&it.eval_user_function_call_with_this(&f, None, &args, Object::Void, span(), 8).unwrap()), 0);
}
