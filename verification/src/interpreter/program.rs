//! Whole programs: static analysis before a run, running a program to its
//! value, and running its tests.

use crate::analysis::checker::{check_stmts, initial_view, Checker};
use crate::ast::{ExpressionKind, Literal, Statement, StatementKind};
use crate::error::{Error, ErrorKind};
use crate::interpreter::eval::{evolved, lemma_literal_stmts, literal_stmts, pure_statement, pure_statements};
use crate::interpreter::{Interpreter, MAX_CALL_DEPTH};
use crate::maps::{hashed_distance_entries, hashed_distances_from};
use crate::object::{copy_object, strip_return, strip_return_err, Object};
use crate::span::Span;
use vstd::prelude::*;

verus! {

/// The outcome of one test: its name, whether its body ran without error,
/// and the error if not.
#[derive(Debug)]
pub struct TestResult {
    pub name: String,
    pub passed: bool,
    pub error: Option<Error>,
}

impl<'a> Interpreter<'a> {
    /// Runs the static analysis on a parsed program and keeps its table of
    /// resolved distances for the run that follows. The analysis always
    /// succeeds.
    pub fn parse_and_check(&mut self, statements: &Vec<Statement>, source: &String) -> (res: Result<(), Error>)
        requires
            old(self).wf(),
        ensures
            final(self).wf(),
            res is Ok,
            final(self).stack == old(self).stack,
            final(self).heap == old(self).heap,
            final(self).steps == old(self).steps,
            final(self).path == old(self).path,
            final(self).modules@ == old(self).modules@,
            *final(self) == (Interpreter { locals: final(self).locals, ..*old(self) }),
            hashed_distance_entries(final(self).locals) == check_stmts(initial_view(), statements@, 0).locals,
    {
        let mut checker = Checker::new();
        let locals = match checker.check(statements) {
            Ok(l) => l,
            Err(e) => {
                return Err(self.ensure_error_context(e, source));
            },
        };
        self.locals = hashed_distances_from(&locals);
        Ok(())
    }

    /// Performs the static analysis of a parsed program without running it.
    pub fn check(&mut self, statements: &Vec<Statement>, source: &String) -> (res: Result<(), Error>)
        requires
            old(self).wf(),
        ensures
            final(self).wf(),
            res is Ok,
            final(self).stack == old(self).stack,
            final(self).heap == old(self).heap,
            final(self).modules@ == old(self).modules@,
            final(self).steps == old(self).steps,
            final(self).path == old(self).path,
            hashed_distance_entries(final(self).locals) == check_stmts(initial_view(), statements@, 0).locals,
    {
        self.parse_and_check(statements, source)
    }

    /// Runs a parsed program: analysis, then its statements in the current
    /// scope. The program's value is that of its statements, with a `return`
    /// unwrapped; an error result that reaches the top (directly or by
    /// `return`) is `UncaughtErr`, given this source as context.
    pub fn eval(&mut self, statements: &'a Vec<Statement>, source: &String) -> (res: Result<Object<'a>, Error>)
        requires
            old(self).wf(),
        ensures
            final(self).wf(),
            final(self).steps <= old(self).steps,
            final(self).path == old(self).path,
            final(self).modules@ == old(self).modules@,
            crate::interpreter::arenas_grown(*old(self), *final(self)),
            res matches Ok(v) ==> !(v is ErrValue) && final(self).stack.frames@ == old(self).stack.frames@,
            hashed_distance_entries(final(self).locals) == check_stmts(initial_view(), statements@, 0).locals,
            pure_statements(Interpreter { locals: final(self).locals, ..*old(self) }, statements@, 0, Object::Void) matches Some(
                r,
            ) ==> *final(self) == (Interpreter { locals: final(self).locals, ..*old(self) }) && match r {
                Ok(v) => if strip_return_err(v) is ErrValue {
                    res matches Err(e) && e.kind == ErrorKind::UncaughtErr && e.span.start == 0 && e.span.end == 0
                        && e.source == Some(*source)
                } else {
                    res == Ok::<Object<'a>, Error>(strip_return(v))
                },
                Err(e) => res == Err::<Object<'a>, Error>(e),
            },
    {
        match self.parse_and_check(statements, source) {
            Ok(()) => {},
            Err(e) => {
                return Err(e);
            },
        }
        let result = self.eval_statements(statements, MAX_CALL_DEPTH)?;
        let effective = result.unwrap_return_err();
        match effective {
            Object::ErrValue(_) => {
                return Err(self.ensure_error_context(ErrorKind::UncaughtErr.at(Span::empty()), source));
            },
            _ => {},
        }
        Ok(copy_object(result.unwrap_return()))
    }

    /// Runs a parsed program's tests: first every other statement, in order
    /// (an error there ends the run with that error), then each test in
    /// order, each reporting whether its body ran without error.
    pub fn run_tests(&mut self, statements: &'a Vec<Statement>) -> (res: Result<Vec<TestResult>, Error>)
        requires
            old(self).wf(),
        ensures
            final(self).wf(),
            final(self).steps <= old(self).steps,
            crate::interpreter::arenas_grown(*old(self), *final(self)),
            (forall|k: int| 0 <= k < statements@.len() ==> always_runs(#[trigger] statements@[k])) ==> res is Ok,
            pure_setup(*old(self), statements@, 0) matches Some(r) ==> match r {
                Ok(_) => res is Ok,
                Err(e) => res matches Err(f) && f == e,
            },
            res matches Ok(results) ==> results@.len() == test_statements(statements@, 0).len() && forall|k: int|
                0 <= k < results@.len() ==> (#[trigger] results@[k]).passed == results@[k].error is None && literal_test_name(
                test_statements(statements@, 0)[k],
                results@[k].name,
            ),
    {
        let tests = self.process_statements_for_tests(statements)?;
        Ok(self.execute_tests(&tests))
    }

    /// Evaluates every statement that is not a test, in order, and returns
    /// the tests, in order.
    pub fn process_statements_for_tests(&mut self, statements: &'a Vec<Statement>) -> (res: Result<Vec<&'a Statement>, Error>)
        requires
            old(self).wf(),
        ensures
            evolved(*old(self), *final(self)),
            res matches Ok(tests) ==> pointed(tests@) == test_statements(statements@, 0) && forall|k: int|
                0 <= k < tests@.len() ==> (#[trigger] tests@[k]).kind is Test,
            (forall|k: int| 0 <= k < statements@.len() ==> always_runs(#[trigger] statements@[k])) ==> res is Ok,
            pure_setup(*old(self), statements@, 0) matches Some(r) ==> *final(self) == *old(self) && match r {
                Ok(_) => res is Ok,
                Err(e) => res matches Err(f) && f == e,
            },
    {
        let mut tests: Vec<&'a Statement> = Vec::new();
        let mut i: usize = 0;
        let ghost all_run = forall|k: int| 0 <= k < statements@.len() ==> always_runs(#[trigger] statements@[k]);
        while i < statements.len()
            invariant
                all_run == forall|k: int| 0 <= k < statements@.len() ==> always_runs(#[trigger] statements@[k]),
                pure_setup(*old(self), statements@, 0) is Some ==> *self == *old(self) && pure_setup(
                    *old(self),
                    statements@,
                    i as int,
                ) == pure_setup(*old(self), statements@, 0),
                evolved(*old(self), *self),
                i <= statements.len(),
                test_statements(statements@, 0) == pointed(tests@) + test_statements(statements@, i as int),
                forall|k: int| 0 <= k < tests@.len() ==> (#[trigger] tests@[k]).kind is Test,
            decreases statements.len() - i,
        {
            let statement = &statements[i];
            match &statement.kind {
                StatementKind::Test { .. } => {
                    let ghost before = pointed(tests@);
                    tests.push(statement);
                    proof {
                        assert(pointed(tests@) == before.push(statements@[i as int]));
                        assert(before + test_statements(statements@, i as int) == pointed(tests@) + test_statements(
                            statements@,
                            i + 1,
                        ));
                    }
                },
                _ => {
                    proof {
                        if all_run {
                            assert(always_runs(statements@[i as int]));
                        }
                    }
                    self.eval_statement(statement, MAX_CALL_DEPTH)?;
                },
            }
            i += 1;
        }
        Ok(tests)
    }

    /// Runs each test: its name is the value of its name expression when
    /// that is a string, else `Unnamed test`; its body runs as a function of
    /// no parameters would, in a new scope, and passes when it runs without
    /// error.
    pub fn execute_tests(&mut self, tests: &Vec<&'a Statement>) -> (results: Vec<TestResult>)
        requires
            old(self).wf(),
            forall|k: int| 0 <= k < tests@.len() ==> (#[trigger] tests@[k]).kind is Test,
        ensures
            final(self).wf(),
            final(self).steps <= old(self).steps,
            crate::interpreter::arenas_grown(*old(self), *final(self)),
            results@.len() == tests@.len(),
            forall|k: int| 0 <= k < results@.len() ==> (#[trigger] results@[k]).passed == results@[k].error is None,
            forall|k: int| 0 <= k < results@.len() ==> literal_test_name(*tests@[k], #[trigger] results@[k].name),
            forall|k: int| 0 <= k < results@.len() ==> literal_test_outcome(*old(self), *tests@[k], #[trigger] results@[k]),
    {
        let mut results: Vec<TestResult> = Vec::new();
        let mut i: usize = 0;
        while i < tests.len()
            invariant
                self.wf(),
                self.steps <= old(self).steps,
                crate::interpreter::arenas_grown(*old(self), *self),
                forall|k: int| 0 <= k < tests@.len() ==> (#[trigger] tests@[k]).kind is Test,
                i <= tests.len(),
                results@.len() == i,
                forall|k: int| 0 <= k < results@.len() ==> (#[trigger] results@[k]).passed == results@[k].error is None,
                forall|k: int| 0 <= k < results@.len() ==> literal_test_name(*tests@[k], #[trigger] results@[k].name),
                forall|k: int| 0 <= k < results@.len() ==> literal_test_outcome(*old(self), *tests@[k], #[trigger] results@[k]),
            decreases tests.len() - i,
        {
            let statement: &'a Statement = tests[i];
            match &statement.kind {
                StatementKind::Test { name, body } => {
                    let test_name = match self.eval_expression(name, None, MAX_CALL_DEPTH) {
                        Ok(Object::String(s)) => s,
                        _ => String::from_str("Unnamed test"),
                    };
                    self.stack.push(String::from_str("function_call"), None);
                    proof {
                        if literal_stmts(body.statements@, 0) {
                            lemma_literal_stmts(*old(self), *self, body.statements@, 0, Object::Void);
                        }
                    }
                    let result = self.eval_statements(&body.statements, MAX_CALL_DEPTH - 1);
                    self.stack.pop();
                    match result {
                        Ok(_) => {
                            results.push(TestResult { name: test_name, passed: true, error: None });
                        },
                        Err(e) => {
                            results.push(TestResult { name: test_name, passed: false, error: Some(e) });
                        },
                    }
                },
                _ => {},
            }
            i += 1;
        }
        results
    }
}

/// A test's name as its result reports it, where the name is a literal:
/// the string itself, or `Unnamed test` for a literal of another kind.
pub open spec fn literal_test_name(test: Statement, reported: String) -> bool {
    test.kind matches StatementKind::Test { name, .. } ==> (name.kind matches ExpressionKind::Literal(l) ==> match l {
        Literal::String(s) => reported == s,
        _ => reported@ == "Unnamed test"@,
    })
}

/// Whether a statement runs without error in any state: a test, which is
/// set aside; a declaration of a function, a struct or a type; `break`,
/// `continue` or `return` without a value; a literal.
pub open spec fn always_runs(s: Statement) -> bool {
    ||| s.kind is Test
    ||| s.kind is Fn
    ||| s.kind is Struct
    ||| s.kind is Type
    ||| s.kind is Break
    ||| s.kind is Continue
    ||| s.kind matches StatementKind::Return { value: None }
    ||| (s.kind matches StatementKind::Expression { expression } && expression.kind is Literal)
}

/// The outcome of running the statements of `ss[i..]` other than tests,
/// when each is one that `pure_statement` decides: the first error, else
/// success. `None` when one of them is not such a statement.
pub open spec fn pure_setup<'a>(it: Interpreter<'a>, ss: Seq<Statement>, i: int) -> Option<Result<(), Error>>
    decreases ss.len() - i,
{
    if i < 0 || i >= ss.len() {
        Some(Ok(()))
    } else if ss[i].kind is Test {
        pure_setup(it, ss, i + 1)
    } else {
        match pure_statement(it, ss[i]) {
            Some(Ok(_)) => pure_setup(it, ss, i + 1),
            Some(Err(e)) => Some(Err(e)),
            None => None,
        }
    }
}

/// A test whose body reads nothing of the interpreter (see
/// `literal_stmts`) passes exactly when its statements run without error,
/// and reports the error they give otherwise.
pub open spec fn literal_test_outcome<'a>(it: Interpreter<'a>, test: Statement, result: TestResult) -> bool {
    test.kind matches StatementKind::Test { body, .. } ==> (literal_stmts(body.statements@, 0) ==> match pure_statements(
        it,
        body.statements@,
        0,
        Object::Void,
    ) {
        Some(Ok(_)) => result.passed && result.error is None,
        Some(Err(e)) => !result.passed && result.error == Some(e),
        None => true,
    })
}

/// The tests among `ss[i..]`, in order.
pub open spec fn test_statements(ss: Seq<Statement>, i: int) -> Seq<Statement>
    decreases ss.len() - i,
{
    if i < 0 || i >= ss.len() {
        Seq::empty()
    } else if ss[i].kind is Test {
        seq![ss[i]] + test_statements(ss, i + 1)
    } else {
        test_statements(ss, i + 1)
    }
}

/// The statements that references point to.
pub open spec fn pointed(rs: Seq<&Statement>) -> Seq<Statement> {
    Seq::new(rs.len(), |k: int| *rs[k])
}

} // verus!
