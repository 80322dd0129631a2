//! The parts of a JavaScript or TypeScript program that the Cypress rules
//! read. Spans are byte offsets of the source.
use vstd::prelude::*;

verus! {

/// The bytes `start..end` of the source.
#[derive(Clone, Copy, Debug, PartialEq, Eq, Structural)]
pub struct Span {
    pub start: u32,
    pub end: u32,
}

/// An expression.
#[derive(Debug)]
pub enum Expr {
    Identifier { name: String },
    NumericLiteral,
    StringLiteral { value: String },
    /// A template: the cooked text of its first part, if any, and its
    /// embedded expressions.
    TemplateLiteral { first_cooked: Option<String>, expressions: Vec<Expr> },
    Call(Box<CallExpr>),
    StaticMember { object: Box<Expr>, property: String, property_span: Span },
    ComputedMember { object: Box<Expr>, expression: Box<Expr> },
    PrivateField { object: Box<Expr> },
    /// An optional chain around its element.
    Chain { element: Box<Expr> },
    /// Parentheses, a type assertion (`as`, `satisfies`, `<T>`), a non-null
    /// assertion or a type instantiation around an expression.
    Wrapped { expression: Box<Expr> },
    Await { argument: Box<Expr> },
    Array { elements: Vec<ArrayElem> },
    Object { properties: Vec<Property> },
    Arrow(Box<ArrowFunction>),
    Function(Box<Function>),
    Class(Box<Class>),
    Assignment { right: Box<Expr> },
    Conditional { test: Box<Expr>, consequent: Box<Expr>, alternate: Box<Expr> },
    /// A binary or logical expression.
    Binary { left: Box<Expr>, right: Box<Expr> },
    Sequence { expressions: Vec<Expr> },
    Unary { argument: Box<Expr> },
    Update,
    Yield { argument: Option<Box<Expr>> },
    TaggedTemplate { tag: Box<Expr>, expressions: Vec<Expr> },
    Import { source: Box<Expr>, options: Option<Box<Expr>> },
    /// Any other expression.
    Other,
}

/// A call: its callee, its arguments and its span.
#[derive(Debug)]
pub struct CallExpr {
    pub callee: Expr,
    pub arguments: Vec<Arg>,
    pub span: Span,
}

/// A call argument.
#[derive(Debug)]
pub enum Arg {
    Spread(Expr),
    Expr(Expr),
}

/// An array element.
#[derive(Debug)]
pub enum ArrayElem {
    Spread(Expr),
    Expr(Expr),
    Elision,
}

/// An object member.
#[derive(Debug)]
pub enum Property {
    Property { key: PropKey, computed: bool, value: Expr },
    Spread(Expr),
}

/// An object member's key: a bare name, or an expression (a string, or a
/// computed key).
#[derive(Debug)]
pub enum PropKey {
    Static(String),
    Expr(Expr),
}

/// A binding pattern.
#[derive(Debug)]
pub enum Pattern {
    Ident(String),
    Object { properties: Vec<Pattern>, rest: Option<Box<Pattern>> },
    Array { elements: Vec<Option<Pattern>>, rest: Option<Box<Pattern>> },
    Assign { left: Box<Pattern>, right: Expr },
}

/// A formal parameter with its default value, if any.
#[derive(Debug)]
pub struct Param {
    pub pattern: Pattern,
    pub initializer: Option<Expr>,
}

/// Formal parameters and the rest parameter's pattern.
#[derive(Debug)]
pub struct Params {
    pub items: Vec<Param>,
    pub rest: Option<Pattern>,
}

/// A function: the byte where it starts, its name, its parameters and its
/// body, if any.
#[derive(Debug)]
pub struct Function {
    pub start: u32,
    pub id: Option<String>,
    pub params: Params,
    pub body: Option<Vec<Stmt>>,
}

/// An arrow function; an expression body is one expression statement.
#[derive(Debug)]
pub struct ArrowFunction {
    pub start: u32,
    pub params: Params,
    pub body: Vec<Stmt>,
}

/// A class: its superclass and its elements.
#[derive(Debug)]
pub struct Class {
    pub id: Option<String>,
    pub super_class: Option<Expr>,
    pub elements: Vec<ClassElem>,
}

/// A class element.
#[derive(Debug)]
pub enum ClassElem {
    StaticBlock(Vec<Stmt>),
    Method(Function),
    Property(Option<Expr>),
    Accessor(Option<Expr>),
    Other,
}

/// One declarator: its pattern and initializer.
#[derive(Debug)]
pub struct Declarator {
    pub id: Pattern,
    pub init: Option<Expr>,
}

/// A `var`, `let` or `const` declaration.
#[derive(Debug)]
pub struct VarDecl {
    pub declarations: Vec<Declarator>,
    pub span: Span,
}

/// A declaration that an export names.
#[derive(Debug)]
pub enum Decl {
    Var(VarDecl),
    Function(Function),
    Class(Class),
    Other,
}

/// What `export default` exports.
#[derive(Debug)]
pub enum DefaultExport {
    Function(Function),
    Class(Class),
    Expr(Expr),
    Other,
}

/// The start of a `for` loop.
#[derive(Debug)]
pub enum ForInit {
    Var(VarDecl),
    Expr(Expr),
}

/// One `case` of a `switch`.
#[derive(Debug)]
pub struct SwitchCase {
    pub test: Option<Expr>,
    pub consequent: Vec<Stmt>,
}

/// The `catch` of a `try`.
#[derive(Debug)]
pub struct CatchClause {
    pub param: Option<Pattern>,
    pub body: Vec<Stmt>,
}

/// A statement.
#[derive(Debug)]
pub enum Stmt {
    Expression(Expr),
    Block(Vec<Stmt>),
    If { test: Expr, consequent: Box<Stmt>, alternate: Option<Box<Stmt>> },
    Var(VarDecl),
    Function(Function),
    Class(Class),
    /// An import: the local names it binds.
    Import { locals: Vec<String> },
    ExportNamed { declaration: Option<Decl> },
    ExportDefault(DefaultExport),
    Return(Option<Expr>),
    Throw(Expr),
    While { test: Expr, body: Box<Stmt> },
    DoWhile { body: Box<Stmt>, test: Expr },
    For { init: Option<ForInit>, test: Option<Expr>, update: Option<Expr>, body: Box<Stmt> },
    /// A `for ... in` or `for ... of`: the declaration on its left, if it
    /// is one, its right side and its body.
    ForInOf { left: Option<VarDecl>, right: Expr, body: Box<Stmt> },
    Switch { discriminant: Expr, cases: Vec<SwitchCase> },
    Try { block: Vec<Stmt>, handler: Option<CatchClause>, finalizer: Option<Vec<Stmt>> },
    Labeled(Box<Stmt>),
    With { object: Expr, body: Box<Stmt> },
    ExportAssignment(Expr),
    Other,
}

/// The expression inside any wrappers.
pub open spec fn inner(e: Expr) -> Expr
    decreases e,
{
    match e {
        Expr::Wrapped { expression } => inner(*expression),
        _ => e,
    }
}

/// The expression inside any wrappers.
pub fn get_inner_expression(e: &Expr) -> (r: &Expr)
    ensures
        *r == inner(*e),
    decreases e,
{
    match e {
        Expr::Wrapped { expression } => get_inner_expression(expression),
        _ => e,
    }
}

} // verus!
