use krama_runtime::analysis::checker::Checker;
use krama_runtime::analysis::resolver::Resolver;
use krama_runtime::ast::{
    Binding, Expression, ExpressionKind, FunctionBody, Iteration, Literal, Parameter, Statement, StatementBlock,
    StatementKind,
};
use krama_runtime::span::Span;

fn at(start: usize) -> Span {
    Span::new(start, start + 1)
}

fn name_at(n: &str, start: usize) -> Expression {
    Expression { kind: ExpressionKind::Identifier(n.to_string()), span: at(start) }
}

fn lit(i: i64, start: usize) -> Expression {
    Expression { kind: ExpressionKind::Literal(Literal::Integer(i)), span: at(start) }
}

fn stmt(kind: StatementKind, start: usize) -> Statement {
    Statement { kind, span: at(start) }
}

fn let_at(n: &str, value: Expression, start: usize) -> Statement {
    stmt(StatementKind::Let { name: Binding::Identifier(n.to_string()), value, kind: None }, start)
}

fn use_at(n: &str, start: usize) -> Statement {
    stmt(StatementKind::Expression { expression: name_at(n, start) }, start + 1000)
}

fn block_at(statements: Vec<Statement>, start: usize) -> Statement {
    stmt(
        StatementKind::Expression {
            expression: Expression { kind: ExpressionKind::Block(StatementBlock { statements }), span: at(start) },
        },
        start + 1000,
    )
}

/// let x = 1; x; { x; let y = 2; y }; fn f(p) { p; x }; undefined
fn sample() -> Vec<Statement> {
    vec![
        let_at("x", lit(1, 1), 2),
        use_at("x", 10),
        block_at(vec![use_at("x", 20), let_at("y", lit(2, 21), 22), use_at("y", 23)], 24),
        stmt(
            StatementKind::Fn {
                name: "f".to_string(),
                parameters: vec![Parameter { name: "p".to_string(), ty: None, default: None }],
                body: FunctionBody::Block(StatementBlock { statements: vec![use_at("p", 30), use_at("x", 31)] }),
                public: false,
                kind: None,
            },
            32,
        ),
        use_at("undefined", 40),
    ]
}

#[test]
fn checker_resolves_scope_distances() {
    let program = sample();
    let mut checker = Checker::new();
    let locals = checker.check(&program).unwrap();
    assert_eq!(locals.get(&(10, 11)), Some(&0));
    assert_eq!(locals.get(&(20, 21)), Some(&1));
    assert_eq!(locals.get(&(23, 24)), Some(&0));
    assert_eq!(locals.get(&(30, 31)), Some(&0));
    assert_eq!(locals.get(&(31, 32)), Some(&1));
    assert_eq!(locals.get(&(40, 41)), None);
}

#[test]
fn resolver_resolves_scope_distances() {
    let program = sample();
    let mut resolver = Resolver::default();
    let locals = resolver.resolve(&program).unwrap();
    assert_eq!(locals.get(&(10, 11)), Some(&0));
    assert_eq!(locals.get(&(20, 21)), Some(&1));
    assert_eq!(locals.get(&(31, 32)), Some(&1));
    assert_eq!(locals.get(&(40, 41)), None);
}

#[test]
fn checker_handles_for_bindings_and_resolver_does_not() {
    // for [a, b] in x { a }
    let program = vec![
        let_at("x", lit(1, 1), 2),
        stmt(
            StatementKind::For {
                binding: Iteration::Array(vec![Iteration::Identifier("a".to_string()), Iteration::Identifier("b".to_string())]),
                iterable: name_at("x", 50),
                body: StatementBlock { statements: vec![use_at("a", 51)] },
            },
            52,
        ),
    ];
    let mut checker = Checker::default();
    let locals = checker.check(&program).unwrap();
    assert_eq!(locals.get(&(50, 51)), Some(&0));
    assert_eq!(locals.get(&(51, 52)), Some(&0));
    let mut resolver = Resolver::new();
    let locals = resolver.resolve(&program).unwrap();
    assert_eq!(locals.get(&(50, 51)), None);
    assert_eq!(locals.get(&(51, 52)), None);
}

#[test]
fn resolver_and_checker_agree_on_plain_programs() {
    let program = sample();
    let checked = Checker::new().check(&program).unwrap();
    let resolved = Resolver::new().resolve(&program).unwrap();
    assert_eq!(checked.len(), resolved.len());
    for (key, distance) in checked.iter() {
        assert_eq!(resolved.get(key), Some(distance));
    }
}
