use krama_runtime::ast::{BinaryOperator, Binding, Expression, ExpressionKind, Literal, Statement, StatementKind};
use krama_runtime::error::ErrorKind;
use krama_runtime::interpreter::Interpreter;
use krama_runtime::object::Object;
use krama_runtime::span::Span;

#[test]
fn import_candidates_are_cleaned_and_given_the_extension() {
    let it = Interpreter::new(Some("project/src/main.km".to_string()));
    let (first, second) = it.resolve_import_path(&"./lib/../util".to_string());
    assert_eq!(first, "project/src/util");
    assert_eq!(second, "project/src/util.km");
    let it = Interpreter::new(None);
    let (first, second) = it.resolve_import_path(&"a//b/./c.txt".to_string());
    assert_eq!(first, "a/b/c.txt");
    assert_eq!(second, "a/b/c.km");
}

#[test]
fn std_module_not_found() {
    let it = Interpreter::new(None);
    let err = it.eval_import(&"std:math".to_string(), Span::new(2, 3)).unwrap_err();
    assert!(matches!(err.kind, ErrorKind::StdModuleNotFound { ref name } if name == "math"));
    assert_eq!(err.span, Span::new(2, 3));
}

#[test]
fn file_module_served_from_cache_after_registration() {
    let mut it = Interpreter::new(Some("main.km".to_string()));
    let err = it.eval_import(&"util".to_string(), Span::new(0, 1)).unwrap_err();
    assert!(matches!(err.kind, ErrorKind::ModuleFileNotFound { ref path } if path == "util"));
    let (_, with_ext) = it.resolve_import_path(&"util".to_string());
    let module = it.register_module(with_ext, vec![("answer".to_string(), Object::Integer(42))]);
    let imported = it.eval_import(&"util".to_string(), Span::new(0, 1)).unwrap();
    match (&module, &imported) {
        (Object::Scope(a), Object::Scope(b)) => assert_eq!(a, b),
        other => panic!("{:?}", other),
    }
    let cached = it.register_module("std".to_string(), vec![]);
    let std_mod = it.eval_import(&"std:std".to_string(), Span::new(0, 1)).unwrap();
    assert!(matches!((cached, std_mod), (Object::Scope(a), Object::Scope(b)) if a == b));
}

#[test]
fn import_paths_are_absolute_under_an_absolute_working_dir() {
    let mut it = Interpreter::new(Some("src/main.km".to_string()));
    it.working_dir = "/home/user/project".to_string();
    let (first, second) = it.resolve_import_path(&"lib/util".to_string());
    assert_eq!(first, "/home/user/project/src/lib/util");
    assert_eq!(second, "/home/user/project/src/lib/util.km");
    let (first, _) = it.resolve_import_path(&"/opt/mod".to_string());
    assert_eq!(first, "/opt/mod");
}

#[test]
fn a_loaded_module_exports_its_public_bindings() {
    let lit = |i: i64, at: usize| Expression { kind: ExpressionKind::Literal(Literal::Integer(i)), span: Span::new(at, at + 1) };
    let statements = vec![
        Statement {
            kind: StatementKind::Const {
                binding: Binding::Identifier("answer".to_string()),
                value: lit(42, 10),
                public: true,
                kind: None,
            },
            span: Span::new(0, 20),
        },
        Statement {
            kind: StatementKind::Const {
                binding: Binding::Identifier("hidden".to_string()),
                value: lit(7, 30),
                public: false,
                kind: None,
            },
            span: Span::new(21, 40),
        },
    ];
    let mut it = Interpreter::new(Some("main.km".to_string()));
    let frames = it.stack.frames.len();
    let (_, key) = it.resolve_import_path(&"util".to_string());
    let module = it.load_module(key, &statements, &"source".to_string()).unwrap();
    assert_eq!(it.stack.frames.len(), frames);
    assert_eq!(it.path.as_deref(), Some("main.km"));
    let imported = it.eval_import(&"util".to_string(), Span::new(0, 1)).unwrap();
    assert!(matches!((&module, &imported), (Object::Scope(a), Object::Scope(b)) if a == b));
    let answer = Expression { kind: ExpressionKind::Identifier("answer".to_string()), span: Span::new(50, 51) };
    assert!(matches!(it.eval_access_expression(imported, &answer, Span::new(0, 1)), Ok(Object::Integer(42))));
    assert!(it.stack.get(&"answer".to_string()).is_none());
}

#[test]
fn a_module_that_fails_is_not_cached() {
    let lit = |i: i64, at: usize| Expression { kind: ExpressionKind::Literal(Literal::Integer(i)), span: Span::new(at, at + 1) };
    let division = Expression {
        kind: ExpressionKind::Binary { left: Box::new(lit(1, 2)), operator: BinaryOperator::Divide, right: Box::new(lit(0, 6)) },
        span: Span::new(2, 7),
    };
    let statements = vec![Statement { kind: StatementKind::Expression { expression: division }, span: Span::new(0, 8) }];
    let mut it = Interpreter::new(Some("main.km".to_string()));
    let frames = it.stack.frames.clone();
    let cached = it.modules.len();
    let err = it.load_module("util.km".to_string(), &statements, &"source".to_string()).unwrap_err();
    assert!(matches!(err.kind, ErrorKind::DivisionByZero));
    assert_eq!(it.modules.len(), cached);
    assert_eq!(it.path.as_deref(), Some("main.km"));
    assert_eq!(it.stack.frames, frames);
}
