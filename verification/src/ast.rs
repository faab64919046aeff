//! The syntax tree that the analysis and the evaluator walk.

use crate::span::Span;
use vstd::prelude::*;

verus! {

/// A literal constant written in the source.
#[derive(Debug)]
pub enum Literal {
    Integer(i64),
    String(String),
    Boolean(bool),
    Null,
}

/// A prefix operator.
#[derive(Clone, Copy, Debug, PartialEq, Eq, Structural)]
pub enum UnaryOperator {
    Negate,
    Not,
}

/// An infix operator.
#[derive(Clone, Copy, Debug, PartialEq, Eq, Structural)]
pub enum BinaryOperator {
    Add,
    Subtract,
    Multiply,
    Divide,
    Modulo,
    Equal,
    NotEqual,
    Less,
    LessEqual,
    Greater,
    GreaterEqual,
    LogicalAnd,
    LogicalOr,
}

/// An assignment operator: plain `=` or a compound one such as `+=`.
#[derive(Clone, Copy, Debug, PartialEq, Eq, Structural)]
pub enum AssignmentOperator {
    Assign,
    AddAssign,
    SubtractAssign,
    MultiplyAssign,
    DivideAssign,
    ModuloAssign,
}

/// `++` or `--`.
#[derive(Clone, Copy, Debug, PartialEq, Eq, Structural)]
pub enum UpdateOperator {
    Increment,
    Decrement,
}

/// A type annotation.
#[derive(Debug)]
pub struct Type {
    pub kind: TypeKind,
    pub span: Span,
}

/// One property of an object type.
#[derive(Debug)]
pub struct TypeProperty {
    pub ty: Type,
    pub optional: bool,
}

/// The shapes a type annotation can take.
#[derive(Debug)]
pub enum TypeKind {
    Integer,
    String,
    Boolean,
    Null,
    Void,
    Any,
    /// A named type: an alias, a struct or an enum.
    Identifier(String),
    /// An array, of fixed size when `size` holds an integer literal.
    Array { element: Box<Type>, size: Option<Literal> },
    Tuple(Vec<Type>),
    Object(Vec<(String, TypeProperty)>),
}

/// An expression with its source span.
#[derive(Debug)]
pub struct Expression {
    pub kind: ExpressionKind,
    pub span: Span,
}

/// A function parameter, with an optional type and default value.
#[derive(Debug)]
pub struct Parameter {
    pub name: String,
    pub ty: Option<Type>,
    pub default: Option<Expression>,
}

/// The body of a function or of a `match` arm.
#[derive(Debug)]
pub enum FunctionBody {
    Block(StatementBlock),
    Expression(Box<Expression>),
}

/// One pattern of a `match` arm.
#[derive(Debug)]
pub enum Pattern {
    Expression(Expression),
    /// An inclusive range `start..end` of integers or strings.
    Range(Expression, Expression),
    Else,
}

/// An arm of a `match`: its patterns and the body run when one matches.
#[derive(Debug)]
pub struct MatchArm {
    pub patterns: Vec<Pattern>,
    pub body: FunctionBody,
}

/// The forms of expression.
#[derive(Debug)]
pub enum ExpressionKind {
    Literal(Literal),
    Identifier(String),
    This,
    StructConstruction { properties: Vec<(Expression, Expression)> },
    Object { properties: Vec<(Expression, Expression)> },
    Collection { elements: Vec<Expression> },
    Unary { operator: UnaryOperator, right: Box<Expression> },
    Binary { left: Box<Expression>, operator: BinaryOperator, right: Box<Expression> },
    Assignment { left: Box<Expression>, operator: AssignmentOperator, right: Box<Expression> },
    Update { operator: UpdateOperator, argument: Box<Expression>, prefix: bool },
    Member { object: Box<Expression>, property: Box<Expression> },
    Index { object: Box<Expression>, index: Box<Expression> },
    Call { function: Box<Expression>, arguments: Vec<Expression> },
    If {
        condition: Box<Expression>,
        then_branch: Box<Expression>,
        else_branch: Option<Box<Expression>>,
    },
    Match { subject: Box<Expression>, arms: Vec<MatchArm> },
    Block(StatementBlock),
    Fn { parameters: Vec<Parameter>, body: FunctionBody, kind: Option<Type> },
    Typed { expr: Box<Expression>, kind: Type },
    Import { path: String },
    Try(Box<Expression>),
}

/// A braced sequence of statements.
#[derive(Debug)]
pub struct StatementBlock {
    pub statements: Vec<Statement>,
}

/// One name taken out of a module by destructuring, possibly renamed.
#[derive(Debug)]
pub struct DestructureItem {
    pub name: String,
    pub alias: Option<String>,
}

/// The left-hand side of a `let` or `const`.
#[derive(Debug)]
pub enum Binding {
    Identifier(String),
    Destructure(Vec<DestructureItem>),
    ModuleAndDestructure { alias: String, items: Vec<DestructureItem> },
}

/// The binding of a `for` loop: a name or a nested list of names.
#[derive(Debug)]
pub enum Iteration {
    Identifier(String),
    Array(Vec<Iteration>),
}

/// A variant of an enum declaration; `fields` holds the types of its
/// payload when the variant is a constructor.
#[derive(Debug)]
pub struct EnumVariant {
    pub name: String,
    pub fields: Option<Vec<Type>>,
}

/// A field of a struct declaration.
#[derive(Debug)]
pub struct StructField {
    pub name: String,
    pub kind: Type,
    pub default: Option<Expression>,
    pub public: bool,
}

/// A method of a struct declaration; `instance` methods take `this`.
#[derive(Debug)]
pub struct StructMethod {
    pub name: String,
    pub parameters: Vec<Parameter>,
    pub body: FunctionBody,
    pub ty: Option<Type>,
    pub public: bool,
    pub instance: bool,
}

/// A statement with its source span.
#[derive(Debug)]
pub struct Statement {
    pub kind: StatementKind,
    pub span: Span,
}

/// The forms of statement.
#[derive(Debug)]
pub enum StatementKind {
    Expression { expression: Expression },
    Let { name: Binding, value: Expression, kind: Option<Type> },
    Const { binding: Binding, value: Expression, public: bool, kind: Option<Type> },
    Fn {
        name: String,
        parameters: Vec<Parameter>,
        body: FunctionBody,
        public: bool,
        kind: Option<Type>,
    },
    Enum { public: bool, name: String, variants: Vec<EnumVariant> },
    Struct { public: bool, name: String, fields: Vec<StructField>, methods: Vec<StructMethod> },
    Type { public: bool, name: String, kind: Type },
    Return { value: Option<Box<Expression>> },
    Break,
    Continue,
    While { condition: Expression, body: StatementBlock },
    For { binding: Iteration, iterable: Expression, body: StatementBlock },
    Test { name: Expression, body: StatementBlock },
}

/// A whole program.
#[derive(Debug)]
pub struct Program {
    pub statements: Vec<Statement>,
}

} // verus!
