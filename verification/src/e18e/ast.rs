//! The parts of a JavaScript or TypeScript program that the e18e rules
//! read. Spans are byte offsets of the source.
use vstd::prelude::*;

verus! {

/// The bytes `start..end` of the source.
#[derive(Clone, Copy, Debug, PartialEq, Eq, Structural)]
pub struct Span {
    pub start: u32,
    pub end: u32,
}

/// The binary operators the rules tell apart.
#[derive(Clone, Copy, Debug, PartialEq, Eq, Structural)]
pub enum BinaryOp {
    Equality,
    Inequality,
    StrictEquality,
    StrictInequality,
    LessThan,
    LessEqualThan,
    GreaterThan,
    GreaterEqualThan,
    Subtraction,
    Other,
}

/// The logical operators.
#[derive(Clone, Copy, Debug, PartialEq, Eq, Structural)]
pub enum LogicalOp {
    Or,
    And,
    Coalesce,
}

/// The unary operators.
#[derive(Clone, Copy, Debug, PartialEq, Eq, Structural)]
pub enum UnaryOp {
    Negation,
    Plus,
    LogicalNot,
    BitwiseNot,
    Typeof,
    Void,
    Delete,
}

/// An assignment operator: `=` or a compound one.
#[derive(Clone, Copy, Debug, PartialEq, Eq, Structural)]
pub enum AssignOp {
    Assign,
    Compound,
}

/// An expression.
#[derive(Debug)]
pub enum Expr {
    Identifier { name: String, span: Span },
    /// A number literal, as written.
    Number { raw: String, span: Span },
    Str { value: String, span: Span },
    Boolean { value: bool, span: Span },
    Null { span: Span },
    /// A regular expression literal; whether its flags hold `g` or `y`.
    RegExp { global_or_sticky: bool, span: Span },
    Template { expressions: Vec<Expr>, span: Span },
    Call(Box<CallExpr>),
    New(Box<NewExpr>),
    StaticMember(Box<StaticMember>),
    ComputedMember { object: Box<Expr>, expression: Box<Expr>, span: Span },
    PrivateField { object: Box<Expr>, span: Span },
    /// An optional chain around its element: a call, a member access or a
    /// non-null assertion.
    Chain { element: Box<Expr>, span: Span },
    /// Parentheses, a type assertion (`as`, `satisfies`, `<T>`), a non-null
    /// assertion or a type instantiation around an expression.
    Wrapped { expression: Box<Expr>, span: Span },
    /// An assignment: its operator, the span of its left side, the member
    /// access on its left side if it is one, and its right side.
    Assignment { op: AssignOp, left_span: Span, target: Box<AssignTarget>, right: Box<Expr>, span: Span },
    Binary { op: BinaryOp, left: Box<Expr>, right: Box<Expr>, span: Span },
    Logical { op: LogicalOp, left: Box<Expr>, right: Box<Expr>, span: Span },
    Conditional { test: Box<Expr>, consequent: Box<Expr>, alternate: Box<Expr>, span: Span },
    Unary { op: UnaryOp, argument: Box<Expr>, span: Span },
    Array { elements: Vec<ArrayElem>, span: Span },
    Object { properties: Vec<Property>, span: Span },
    Arrow(Box<Arrow>),
    Function(Box<Function>),
    Class(Box<Class>),
    TaggedTemplate { tag: Box<Expr>, expressions: Vec<Expr>, span: Span },
    Sequence { expressions: Vec<Expr>, span: Span },
    Await { argument: Box<Expr>, span: Span },
    Yield { argument: Option<Box<Expr>>, span: Span },
    Import { source: Box<Expr>, options: Option<Box<Expr>>, span: Span },
    /// Any other expression.
    Other { span: Span },
}

/// A call: its callee, its arguments, whether it is an optional call
/// (`f?.()`) and its span.
#[derive(Debug)]
pub struct CallExpr {
    pub callee: Expr,
    pub arguments: Vec<Arg>,
    pub optional: bool,
    pub span: Span,
}

/// A `new` expression.
#[derive(Debug)]
pub struct NewExpr {
    pub callee: Expr,
    pub arguments: Vec<Arg>,
    pub span: Span,
}

/// A member access by name: its object, the name and its span, whether it
/// is optional (`a?.b`) and its span.
#[derive(Debug)]
pub struct StaticMember {
    pub object: Expr,
    pub property: String,
    pub property_span: Span,
    pub optional: bool,
    pub span: Span,
}

/// The left side of an assignment, as far as the rules walk into it.
#[derive(Debug)]
pub enum AssignTarget {
    Static { object: Expr },
    Computed { object: Expr, expression: Expr },
    Other,
}

/// A call argument; a spread carries the span of `...x`.
#[derive(Debug)]
pub enum Arg {
    Spread { argument: Expr, span: Span },
    Expr(Expr),
}

/// An array element.
#[derive(Debug)]
pub enum ArrayElem {
    Spread { argument: Expr, span: Span },
    Expr(Expr),
    Hole,
}

/// An object member; `key` is the name of a key written as a name or a
/// string.
#[derive(Debug)]
pub enum Property {
    Property { key: Option<String>, value: Expr },
    Spread { argument: Expr },
}

/// A function: whether it has formal parameters besides a rest
/// parameter, and its body, if any.
#[derive(Debug)]
pub struct Function {
    pub has_params: bool,
    pub body: Option<Vec<Stmt>>,
    pub span: Span,
}

/// An arrow function: whether it has formal parameters besides a rest
/// parameter, whether its body is an expression (then one expression
/// statement), and its body.
#[derive(Debug)]
pub struct Arrow {
    pub has_params: bool,
    pub expression: bool,
    pub body: Vec<Stmt>,
    pub span: Span,
}

/// A class: its superclass and its elements.
#[derive(Debug)]
pub struct Class {
    pub super_class: Option<Expr>,
    pub elements: Vec<ClassElem>,
    pub span: Span,
}

/// A class element.
#[derive(Debug)]
pub enum ClassElem {
    StaticBlock(Vec<Stmt>),
    Method(Function),
    Property(Option<Expr>),
    Accessor(Option<Expr>),
    Other,
}

/// A `var`, `let` or `const` declaration: the initializers of its
/// declarators.
#[derive(Debug)]
pub struct VarDecl {
    pub inits: Vec<Option<Expr>>,
}

/// A declaration that an export names.
#[derive(Debug)]
pub enum Decl {
    Var(VarDecl),
    Function(Function),
    Class(Class),
    Other,
}

/// What `export default` exports.
#[derive(Debug)]
pub enum DefaultExport {
    Function(Function),
    Class(Class),
    Expr(Expr),
    Other,
}

/// The start of a `for` loop.
#[derive(Debug)]
pub enum ForInit {
    Var(VarDecl),
    Expr(Expr),
}

/// One `case` of a `switch`.
#[derive(Debug)]
pub struct SwitchCase {
    pub test: Option<Expr>,
    pub consequent: Vec<Stmt>,
}

/// A module source string: its value and its span.
#[derive(Debug)]
pub struct Source {
    pub value: String,
    pub span: Span,
}

/// A statement.
#[derive(Debug)]
pub enum Stmt {
    Expression(Expr),
    Block(Vec<Stmt>),
    If { test: Expr, consequent: Box<Stmt>, alternate: Option<Box<Stmt>>, span: Span },
    Var(VarDecl),
    Function(Function),
    Class(Class),
    Import(Source),
    /// `export` of a declaration, or of names from a module.
    ExportNamed { source: Option<Source>, declaration: Option<Decl> },
    ExportAll(Source),
    ExportDefault(DefaultExport),
    Return(Option<Expr>),
    Throw(Expr),
    While { test: Expr, body: Box<Stmt> },
    DoWhile { body: Box<Stmt>, test: Expr },
    For { init: Option<ForInit>, test: Option<Expr>, update: Option<Expr>, body: Box<Stmt> },
    /// A `for ... in` or `for ... of`: the declaration on its left, if it
    /// is one, its right side and its body.
    ForInOf { left: Option<VarDecl>, right: Expr, body: Box<Stmt> },
    Switch { discriminant: Expr, cases: Vec<SwitchCase> },
    /// A `try`: its block, the body of its `catch`, its `finally`, and its
    /// span.
    Try { block: Vec<Stmt>, handler: Option<Vec<Stmt>>, finalizer: Option<Vec<Stmt>>, span: Span },
    Labeled(Box<Stmt>),
    With { object: Expr, body: Box<Stmt> },
    Other,
}

/// The expression inside any wrappers.
pub open spec fn inner(e: Expr) -> Expr
    decreases e,
{
    match e {
        Expr::Wrapped { expression, .. } => inner(*expression),
        _ => e,
    }
}

/// The expression inside any wrappers.
pub fn get_inner_expression(e: &Expr) -> (r: &Expr)
    ensures
        *r == inner(*e),
    decreases e,
{
    match e {
        Expr::Wrapped { expression, .. } => get_inner_expression(expression),
        _ => e,
    }
}

/// The span of an expression.
pub open spec fn span_of(e: Expr) -> Span {
    match e {
        Expr::Identifier { span, .. } => span,
        Expr::Number { span, .. } => span,
        Expr::Str { span, .. } => span,
        Expr::Boolean { span, .. } => span,
        Expr::Null { span } => span,
        Expr::RegExp { span, .. } => span,
        Expr::Template { span, .. } => span,
        Expr::Call(c) => c.span,
        Expr::New(n) => n.span,
        Expr::StaticMember(m) => m.span,
        Expr::ComputedMember { span, .. } => span,
        Expr::PrivateField { span, .. } => span,
        Expr::Chain { span, .. } => span,
        Expr::Wrapped { span, .. } => span,
        Expr::Assignment { span, .. } => span,
        Expr::Binary { span, .. } => span,
        Expr::Logical { span, .. } => span,
        Expr::Conditional { span, .. } => span,
        Expr::Unary { span, .. } => span,
        Expr::Array { span, .. } => span,
        Expr::Object { span, .. } => span,
        Expr::Arrow(a) => a.span,
        Expr::Function(f) => f.span,
        Expr::Class(c) => c.span,
        Expr::TaggedTemplate { span, .. } => span,
        Expr::Sequence { span, .. } => span,
        Expr::Await { span, .. } => span,
        Expr::Yield { span, .. } => span,
        Expr::Import { span, .. } => span,
        Expr::Other { span } => span,
    }
}

/// The span of an expression.
pub fn expr_span(e: &Expr) -> (r: Span)
    ensures
        r == span_of(*e),
{
    match e {
        Expr::Identifier { span, .. } => *span,
        Expr::Number { span, .. } => *span,
        Expr::Str { span, .. } => *span,
        Expr::Boolean { span, .. } => *span,
        Expr::Null { span } => *span,
        Expr::RegExp { span, .. } => *span,
        Expr::Template { span, .. } => *span,
        Expr::Call(c) => c.span,
        Expr::New(n) => n.span,
        Expr::StaticMember(m) => m.span,
        Expr::ComputedMember { span, .. } => *span,
        Expr::PrivateField { span, .. } => *span,
        Expr::Chain { span, .. } => *span,
        Expr::Wrapped { span, .. } => *span,
        Expr::Assignment { span, .. } => *span,
        Expr::Binary { span, .. } => *span,
        Expr::Logical { span, .. } => *span,
        Expr::Conditional { span, .. } => *span,
        Expr::Unary { span, .. } => *span,
        Expr::Array { span, .. } => *span,
        Expr::Object { span, .. } => *span,
        Expr::Arrow(a) => a.span,
        Expr::Function(f) => f.span,
        Expr::Class(c) => c.span,
        Expr::TaggedTemplate { span, .. } => *span,
        Expr::Sequence { span, .. } => *span,
        Expr::Await { span, .. } => *span,
        Expr::Yield { span, .. } => *span,
        Expr::Import { span, .. } => *span,
        Expr::Other { span } => *span,
    }
}

/// The span of an argument: that of `...x` for a spread.
pub open spec fn arg_span_of(a: Arg) -> Span {
    match a {
        Arg::Spread { span, .. } => span,
        Arg::Expr(e) => span_of(e),
    }
}

/// The span of an argument: that of `...x` for a spread.
pub fn arg_span(a: &Arg) -> (r: Span)
    ensures
        r == arg_span_of(*a),
{
    match a {
        Arg::Spread { span, .. } => *span,
        Arg::Expr(e) => expr_span(e),
    }
}

} // verus!
