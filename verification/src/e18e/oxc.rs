//! Reading a source with the oxc parser into the syntax tree that the e18e
//! rules walk. The parse is an outside call; what it gives is named, and
//! the conversion moves each node's fields into the library's node of the
//! same kind. A number literal keeps the text it is written with.
use vstd::prelude::*;
use oxc_ast::ast::{Argument as OxcArgument, ArrayExpression as OxcArrayExpression, ArrayExpressionElement as OxcArrayExpressionElement, ArrowFunctionExpression as OxcArrowFunctionExpression, AssignmentExpression as OxcAssignmentExpression, AssignmentTarget as OxcAssignmentTarget, BinaryExpression as OxcBinaryExpression, BinaryOperator as OxcBinaryOperator, CallExpression as OxcCallExpression, ChainExpression as OxcChainExpression, Class as OxcClass, ClassElement as OxcClassElement, ComputedMemberExpression as OxcComputedMemberExpression, ConditionalExpression as OxcConditionalExpression, Declaration as OxcDeclaration, ExportDefaultDeclarationKind as OxcExportDefaultDeclarationKind, Expression as OxcExpression, ForInStatement as OxcForInStatement, ForOfStatement as OxcForOfStatement, ForStatement as OxcForStatement, ForStatementInit as OxcForStatementInit, ForStatementLeft as OxcForStatementLeft, Function as OxcFunction, IfStatement as OxcIfStatement, ImportExpression as OxcImportExpression, LogicalExpression as OxcLogicalExpression, LogicalOperator as OxcLogicalOperator, MemberExpression as OxcMemberExpression, NewExpression as OxcNewExpression, ObjectExpression as OxcObjectExpression, ObjectPropertyKind as OxcObjectPropertyKind, PropertyKey as OxcPropertyKey, RegExpLiteral as OxcRegExpLiteral, Statement as OxcStatement, StaticMemberExpression as OxcStaticMemberExpression, StringLiteral as OxcStringLiteral, SwitchCase as OxcSwitchCase, SwitchStatement as OxcSwitchStatement, TaggedTemplateExpression as OxcTaggedTemplateExpression, TryStatement as OxcTryStatement, UnaryExpression as OxcUnaryExpression, UnaryOperator as OxcUnaryOperator, VariableDeclaration as OxcVariableDeclaration, ChainElement as OxcChainElement, AssignmentOperator as OxcAssignmentOperator, ArrowFunctionBody as OxcArrowFunctionBody, RegExpFlags as OxcRegExpFlags};
use oxc_span::{GetSpan, Span as OxcSpan};
use super::ast::{
    Arg, ArrayElem, Arrow, AssignOp, AssignTarget, BinaryOp, CallExpr, ClassElem, Decl,
    DefaultExport, Expr, ForInit, LogicalOp, NewExpr, Property, Source, Span, StaticMember, Stmt,
    UnaryOp, VarDecl,
};

verus! {

/// The statements that the oxc parser gives for `source`, read as a module
/// of the kind `filename` tells (TSX when it tells none), as the e18e rules
/// read them; nothing when the parser reports a problem.
pub uninterp spec fn e18e_program_of(source: Seq<char>, filename: Seq<char>) -> Option<Seq<Stmt>>;

/// `Parser::new(..).parse()` of `oxc_parser` on `source_text`, with the
/// source type that `SourceType::from_path` gives for `filename` (TSX when
/// it gives none): nothing when the parser reports a diagnostic, else the
/// program's statements converted node by node. The contract claims only
/// that the result is the named one.
#[verifier::external_body]
pub fn parse_e18e_program(source_text: &str, filename: &str) -> (r: Option<Vec<Stmt>>)
    ensures
        match r {
            Some(p) => e18e_program_of(source_text@, filename@) == Some(p@),
            None => e18e_program_of(source_text@, filename@) is None,
        },
{
    let allocator = oxc_allocator::Allocator::default();
    let source_type = oxc_span::SourceType::from_path(filename)
        .unwrap_or_else(|_| oxc_span::SourceType::tsx())
        .with_module(true);
    let parsed = oxc_parser::Parser::new(&allocator, source_text, source_type).parse();
    if !parsed.diagnostics.is_empty() {
        return None;
    }
    Some(statements(&parsed.program.body))
}

/// An oxc span as the library's.
#[verifier::external_body]
fn span(s: OxcSpan) -> Span {
    Span { start: s.start, end: s.end }
}

/// oxc statements as the library's.
#[verifier::external_body]
fn statements<'a>(body: &[OxcStatement<'a>]) -> Vec<Stmt> {
    body.iter().map(statement).collect()
}

/// An oxc statement as the library's, boxed.
#[verifier::external_body]
fn boxed<'a>(s: &OxcStatement<'a>) -> Box<Stmt> {
    Box::new(statement(s))
}

/// An oxc module name as the library's.
#[verifier::external_body]
fn source<'a>(s: &OxcStringLiteral<'a>) -> Source {
    Source { value: s.value.to_string(), span: span(s.span) }
}

/// An oxc statement as the library's: blocks, conditions and declarations.
#[verifier::external_body]
fn statement<'a>(s: &OxcStatement<'a>) -> Stmt {
    match s {
        OxcStatement::ExpressionStatement(e) => Stmt::Expression(expression(&e.expression)),
        OxcStatement::BlockStatement(b) => Stmt::Block(statements(&b.body)),
        OxcStatement::IfStatement(i) => if_statement(i),
        OxcStatement::VariableDeclaration(d) => Stmt::Var(var_decl(d)),
        OxcStatement::FunctionDeclaration(f) => Stmt::Function(function(f)),
        OxcStatement::ClassDeclaration(c) => Stmt::Class(class(c)),
        OxcStatement::ImportDeclaration(i) => Stmt::Import(source(&i.source)),
        other => statement_exports(other),
    }
}

/// An oxc statement as the library's: exports.
#[verifier::external_body]
fn statement_exports<'a>(s: &OxcStatement<'a>) -> Stmt {
    match s {
        OxcStatement::ExportDeclaration(e) => Stmt::ExportNamed { source: None, declaration: Some(declaration(&e.declaration)) },
        OxcStatement::ExportNamedDeclaration(_) => Stmt::ExportNamed { source: None, declaration: None },
        OxcStatement::ExportFromDeclaration(e) => Stmt::ExportNamed { source: Some(source(&e.source)), declaration: None },
        OxcStatement::ExportAllDeclaration(e) => Stmt::ExportAll(source(&e.source)),
        OxcStatement::ExportDefaultDeclaration(e) => Stmt::ExportDefault(default_export(&e.declaration)),
        other => statement_flow(other),
    }
}

/// An oxc statement as the library's: returns, throws and loops.
#[verifier::external_body]
fn statement_flow<'a>(s: &OxcStatement<'a>) -> Stmt {
    match s {
        OxcStatement::ReturnStatement(r) => Stmt::Return(r.argument.as_ref().map(expression)),
        OxcStatement::ThrowStatement(t) => Stmt::Throw(expression(&t.argument)),
        OxcStatement::WhileStatement(w) => Stmt::While { test: expression(&w.test), body: boxed(&w.body) },
        OxcStatement::DoWhileStatement(d) => Stmt::DoWhile { body: boxed(&d.body), test: expression(&d.test) },
        OxcStatement::ForStatement(f) => for_statement(f),
        OxcStatement::ForInStatement(f) => for_in_statement(f),
        OxcStatement::ForOfStatement(f) => for_of_statement(f),
        other => statement_rest(other),
    }
}

/// An oxc statement as the library's: `switch`, `try` and the rest.
#[verifier::external_body]
fn statement_rest<'a>(s: &OxcStatement<'a>) -> Stmt {
    match s {
        OxcStatement::SwitchStatement(sw) => switch_statement(sw),
        OxcStatement::TryStatement(t) => try_statement(t),
        OxcStatement::LabeledStatement(l) => Stmt::Labeled(boxed(&l.body)),
        OxcStatement::WithStatement(w) => Stmt::With { object: expression(&w.object), body: boxed(&w.body) },
        _ => Stmt::Other,
    }
}

/// An oxc `if` as the library's.
#[verifier::external_body]
fn if_statement<'a>(i: &OxcIfStatement<'a>) -> Stmt {
    Stmt::If {
        test: expression(&i.test),
        consequent: boxed(&i.consequent),
        alternate: i.alternate.as_ref().map(boxed),
        span: span(i.span),
    }
}

/// An oxc `for` as the library's.
#[verifier::external_body]
fn for_statement<'a>(f: &OxcForStatement<'a>) -> Stmt {
    Stmt::For {
        init: f.init.as_ref().map(for_init),
        test: f.test.as_ref().map(expression),
        update: f.update.as_ref().map(expression),
        body: boxed(&f.body),
    }
}

/// The start of an oxc `for` as the library's.
#[verifier::external_body]
fn for_init<'a>(init: &OxcForStatementInit<'a>) -> ForInit {
    match init {
        OxcForStatementInit::VariableDeclaration(d) => ForInit::Var(var_decl(d)),
        other => ForInit::Expr(other.as_expression().map_or(Expr::Other { span: span(other.span()) }, expression)),
    }
}

/// An oxc `for .. in` as the library's.
#[verifier::external_body]
fn for_in_statement<'a>(f: &OxcForInStatement<'a>) -> Stmt {
    Stmt::ForInOf { left: for_left(&f.left), right: expression(&f.right), body: boxed(&f.body) }
}

/// An oxc `for .. of` as the library's.
#[verifier::external_body]
fn for_of_statement<'a>(f: &OxcForOfStatement<'a>) -> Stmt {
    Stmt::ForInOf { left: for_left(&f.left), right: expression(&f.right), body: boxed(&f.body) }
}

/// The left side of an oxc `for .. in` or `for .. of`: its declaration, if
/// it is one.
#[verifier::external_body]
fn for_left<'a>(left: &OxcForStatementLeft<'a>) -> Option<VarDecl> {
    match left {
        OxcForStatementLeft::VariableDeclaration(d) => Some(var_decl(d)),
        _ => None,
    }
}

/// An oxc `switch` as the library's.
#[verifier::external_body]
fn switch_statement<'a>(sw: &OxcSwitchStatement<'a>) -> Stmt {
    Stmt::Switch { discriminant: expression(&sw.discriminant), cases: sw.cases.iter().map(switch_case).collect() }
}

/// An oxc `case` as the library's.
#[verifier::external_body]
fn switch_case<'a>(c: &OxcSwitchCase<'a>) -> super::ast::SwitchCase {
    super::ast::SwitchCase { test: c.test.as_ref().map(expression), consequent: statements(&c.consequent) }
}

/// An oxc `try` as the library's.
#[verifier::external_body]
fn try_statement<'a>(t: &OxcTryStatement<'a>) -> Stmt {
    Stmt::Try {
        block: statements(&t.block.body),
        handler: t.handler.as_ref().map(|h| statements(&h.body.body)),
        finalizer: t.finalizer.as_ref().map(|f| statements(&f.body)),
        span: span(t.span),
    }
}

/// An exported oxc declaration as the library's.
#[verifier::external_body]
fn declaration<'a>(d: &OxcDeclaration<'a>) -> Decl {
    match d {
        OxcDeclaration::VariableDeclaration(v) => Decl::Var(var_decl(v)),
        OxcDeclaration::FunctionDeclaration(f) => Decl::Function(function(f)),
        OxcDeclaration::ClassDeclaration(c) => Decl::Class(class(c)),
        _ => Decl::Other,
    }
}

/// An oxc default export as the library's.
#[verifier::external_body]
fn default_export<'a>(d: &OxcExportDefaultDeclarationKind<'a>) -> DefaultExport {
    match d {
        OxcExportDefaultDeclarationKind::FunctionDeclaration(f) => DefaultExport::Function(function(f)),
        OxcExportDefaultDeclarationKind::ClassDeclaration(c) => DefaultExport::Class(class(c)),
        other => other.as_expression().map_or(DefaultExport::Other, |x| DefaultExport::Expr(expression(x))),
    }
}

/// An oxc variable declaration as its initializers.
#[verifier::external_body]
fn var_decl<'a>(d: &OxcVariableDeclaration<'a>) -> VarDecl {
    VarDecl { inits: d.declarations.iter().map(|declarator| declarator.init.as_ref().map(expression)).collect() }
}

/// An oxc function as the library's.
#[verifier::external_body]
fn function<'a>(f: &OxcFunction<'a>) -> super::ast::Function {
    super::ast::Function {
        has_params: !f.params.items.is_empty(),
        body: f.body.as_ref().map(|b| statements(&b.statements)),
        span: span(f.span),
    }
}

/// An oxc class as the library's.
#[verifier::external_body]
fn class<'a>(c: &OxcClass<'a>) -> super::ast::Class {
    super::ast::Class {
        super_class: c.super_class.as_ref().map(expression),
        elements: c.body.body.iter().map(class_element).collect(),
        span: span(c.span),
    }
}

/// An oxc class member as the library's.
#[verifier::external_body]
fn class_element<'a>(e: &OxcClassElement<'a>) -> ClassElem {
    match e {
        OxcClassElement::StaticBlock(b) => ClassElem::StaticBlock(statements(&b.body)),
        OxcClassElement::MethodDefinition(m) => ClassElem::Method(function(&m.value)),
        OxcClassElement::PropertyDefinition(p) => ClassElem::Property(p.value.as_ref().map(expression)),
        OxcClassElement::AccessorProperty(p) => ClassElem::Accessor(p.value.as_ref().map(expression)),
        OxcClassElement::TSIndexSignature(_) => ClassElem::Other,
    }
}

/// An oxc expression as the library's, boxed.
#[verifier::external_body]
fn boxed_expression<'a>(e: &OxcExpression<'a>) -> Box<Expr> {
    Box::new(expression(e))
}

/// oxc expressions as the library's.
#[verifier::external_body]
fn expressions<'a>(es: &[OxcExpression<'a>]) -> Vec<Expr> {
    es.iter().map(expression).collect()
}

/// An oxc call argument as the library's.
#[verifier::external_body]
fn argument<'a>(a: &OxcArgument<'a>) -> Arg {
    match a {
        OxcArgument::SpreadElement(s) => Arg::Spread { argument: expression(&s.argument), span: span(s.span) },
        other => Arg::Expr(other.as_expression().map_or(Expr::Other { span: span(other.span()) }, expression)),
    }
}

/// An oxc call as the library's.
#[verifier::external_body]
fn call<'a>(c: &OxcCallExpression<'a>) -> Expr {
    Expr::Call(Box::new(CallExpr {
        callee: expression(&c.callee),
        arguments: c.arguments.iter().map(argument).collect(),
        optional: c.optional,
        span: span(c.span),
    }))
}

/// An oxc `new` as the library's.
#[verifier::external_body]
fn new_expression<'a>(n: &OxcNewExpression<'a>) -> Expr {
    Expr::New(Box::new(NewExpr {
        callee: expression(&n.callee),
        arguments: n.arguments.iter().map(argument).collect(),
        span: span(n.span),
    }))
}

/// An oxc `a.b` as the library's.
#[verifier::external_body]
fn static_member<'a>(m: &OxcStaticMemberExpression<'a>) -> Expr {
    Expr::StaticMember(Box::new(StaticMember {
        object: expression(&m.object),
        property: m.property.name.to_string(),
        property_span: span(m.property.span),
        optional: m.optional,
        span: span(m.span),
    }))
}

/// An oxc `a[b]` as the library's.
#[verifier::external_body]
fn computed_member<'a>(c: &OxcComputedMemberExpression<'a>) -> Expr {
    Expr::ComputedMember { object: boxed_expression(&c.object), expression: boxed_expression(&c.expression), span: span(c.span) }
}

/// An oxc member access as the library's.
#[verifier::external_body]
fn member<'a>(m: &OxcMemberExpression<'a>) -> Expr {
    match m {
        OxcMemberExpression::StaticMemberExpression(s) => static_member(s),
        OxcMemberExpression::ComputedMemberExpression(c) => computed_member(c),
        OxcMemberExpression::PrivateFieldExpression(p) => Expr::PrivateField { object: boxed_expression(&p.object), span: span(p.span) },
    }
}

/// An oxc optional chain as the library's.
#[verifier::external_body]
fn chain<'a>(c: &OxcChainExpression<'a>) -> Expr {
    let element = match &c.expression {
        OxcChainElement::CallExpression(call_expression) => call(call_expression),
        OxcChainElement::TSNonNullExpression(n) => wrapped(&n.expression, n.span),
        other => other.as_member_expression().map_or(Expr::Other { span: span(other.span()) }, member),
    };
    Expr::Chain { element: Box::new(element), span: span(c.span) }
}

/// An oxc operator as the library's: comparisons and subtraction.
#[verifier::external_body]
fn binary_op(op: OxcBinaryOperator) -> BinaryOp {
    match op {
        OxcBinaryOperator::Equality => BinaryOp::Equality,
        OxcBinaryOperator::Inequality => BinaryOp::Inequality,
        OxcBinaryOperator::StrictEquality => BinaryOp::StrictEquality,
        OxcBinaryOperator::StrictInequality => BinaryOp::StrictInequality,
        OxcBinaryOperator::LessThan => BinaryOp::LessThan,
        OxcBinaryOperator::LessEqualThan => BinaryOp::LessEqualThan,
        OxcBinaryOperator::GreaterThan => BinaryOp::GreaterThan,
        OxcBinaryOperator::GreaterEqualThan => BinaryOp::GreaterEqualThan,
        OxcBinaryOperator::Subtraction => BinaryOp::Subtraction,
        _ => BinaryOp::Other,
    }
}

/// An oxc unary operator as the library's.
#[verifier::external_body]
fn unary_op(op: OxcUnaryOperator) -> UnaryOp {
    match op {
        OxcUnaryOperator::UnaryNegation => UnaryOp::Negation,
        OxcUnaryOperator::UnaryPlus => UnaryOp::Plus,
        OxcUnaryOperator::LogicalNot => UnaryOp::LogicalNot,
        OxcUnaryOperator::BitwiseNot => UnaryOp::BitwiseNot,
        OxcUnaryOperator::Typeof => UnaryOp::Typeof,
        OxcUnaryOperator::Void => UnaryOp::Void,
        OxcUnaryOperator::Delete => UnaryOp::Delete,
    }
}

/// An oxc logical operator as the library's.
#[verifier::external_body]
fn logical_op(op: OxcLogicalOperator) -> LogicalOp {
    match op {
        OxcLogicalOperator::Or => LogicalOp::Or,
        OxcLogicalOperator::And => LogicalOp::And,
        OxcLogicalOperator::Coalesce => LogicalOp::Coalesce,
    }
}

/// An oxc assignment target as the library's.
#[verifier::external_body]
fn assign_target<'a>(t: &OxcAssignmentTarget<'a>) -> AssignTarget {
    match t {
        OxcAssignmentTarget::ComputedMemberExpression(m) => AssignTarget::Computed {
            object: expression(&m.object),
            expression: expression(&m.expression),
        },
        OxcAssignmentTarget::StaticMemberExpression(m) => AssignTarget::Static { object: expression(&m.object) },
        _ => AssignTarget::Other,
    }
}

/// An oxc assignment as the library's.
#[verifier::external_body]
fn assignment<'a>(a: &OxcAssignmentExpression<'a>) -> Expr {
    Expr::Assignment {
        op: if a.operator == OxcAssignmentOperator::Assign { AssignOp::Assign } else { AssignOp::Compound },
        left_span: span(a.left.span()),
        target: Box::new(assign_target(&a.left)),
        right: boxed_expression(&a.right),
        span: span(a.span),
    }
}

/// An expression inside parentheses or a type assertion, with the span of
/// the whole.
#[verifier::external_body]
fn wrapped<'a>(inner: &OxcExpression<'a>, s: OxcSpan) -> Expr {
    Expr::Wrapped { expression: boxed_expression(inner), span: span(s) }
}

/// An oxc expression as the library's: names and literals.
#[verifier::external_body]
fn expression<'a>(e: &OxcExpression<'a>) -> Expr {
    match e {
        OxcExpression::Identifier(i) => Expr::Identifier { name: i.name.to_string(), span: span(i.span) },
        OxcExpression::NumericLiteral(n) => Expr::Number { raw: n.raw.map(|r| r.to_string()).unwrap_or_default(), span: span(n.span) },
        OxcExpression::StringLiteral(s) => Expr::Str { value: s.value.to_string(), span: span(s.span) },
        OxcExpression::BooleanLiteral(b) => Expr::Boolean { value: b.value, span: span(b.span) },
        OxcExpression::NullLiteral(n) => Expr::Null { span: span(n.span) },
        OxcExpression::RegExpLiteral(r) => regexp(r),
        other => access_expression(other),
    }
}

/// An oxc regular expression literal as the library's: whether it has the
/// `g` or `y` flag.
#[verifier::external_body]
fn regexp<'a>(r: &OxcRegExpLiteral<'a>) -> Expr {
    let flags = r.regex.flags;
    Expr::RegExp {
        global_or_sticky: flags.contains(OxcRegExpFlags::G) || flags.contains(OxcRegExpFlags::Y),
        span: span(r.span),
    }
}

/// An oxc expression as the library's: templates, calls and member accesses.
#[verifier::external_body]
fn access_expression<'a>(e: &OxcExpression<'a>) -> Expr {
    match e {
        OxcExpression::TemplateLiteral(t) => Expr::Template { expressions: expressions(&t.expressions), span: span(t.span) },
        OxcExpression::CallExpression(c) => call(c),
        OxcExpression::NewExpression(n) => new_expression(n),
        OxcExpression::StaticMemberExpression(m) => static_member(m),
        OxcExpression::ComputedMemberExpression(c) => computed_member(c),
        OxcExpression::PrivateFieldExpression(p) => Expr::PrivateField { object: boxed_expression(&p.object), span: span(p.span) },
        OxcExpression::ChainExpression(c) => chain(c),
        other => wrapped_expression(other),
    }
}

/// An oxc expression as the library's: parentheses and type assertions.
#[verifier::external_body]
fn wrapped_expression<'a>(e: &OxcExpression<'a>) -> Expr {
    match e {
        OxcExpression::ParenthesizedExpression(p) => wrapped(&p.expression, p.span),
        OxcExpression::TSAsExpression(p) => wrapped(&p.expression, p.span),
        OxcExpression::TSSatisfiesExpression(p) => wrapped(&p.expression, p.span),
        OxcExpression::TSTypeAssertion(p) => wrapped(&p.expression, p.span),
        OxcExpression::TSNonNullExpression(p) => wrapped(&p.expression, p.span),
        OxcExpression::TSInstantiationExpression(p) => wrapped(&p.expression, p.span),
        other => compound_expression(other),
    }
}

/// An oxc expression as the library's: arrays, objects, functions and
/// classes.
#[verifier::external_body]
fn compound_expression<'a>(e: &OxcExpression<'a>) -> Expr {
    match e {
        OxcExpression::AwaitExpression(a) => Expr::Await { argument: boxed_expression(&a.argument), span: span(a.span) },
        OxcExpression::ArrayExpression(a) => array(a),
        OxcExpression::ObjectExpression(o) => object(o),
        OxcExpression::ArrowFunctionExpression(a) => arrow(a),
        OxcExpression::FunctionExpression(f) => Expr::Function(Box::new(function(f))),
        OxcExpression::ClassExpression(c) => Expr::Class(Box::new(class(c))),
        OxcExpression::AssignmentExpression(a) => assignment(a),
        other => operator_expression(other),
    }
}

/// An oxc expression as the library's: operators.
#[verifier::external_body]
fn operator_expression<'a>(e: &OxcExpression<'a>) -> Expr {
    match e {
        OxcExpression::ConditionalExpression(c) => conditional(c),
        OxcExpression::BinaryExpression(b) => binary(b),
        OxcExpression::LogicalExpression(b) => logical(b),
        OxcExpression::SequenceExpression(s) => Expr::Sequence { expressions: expressions(&s.expressions), span: span(s.span) },
        OxcExpression::UnaryExpression(u) => unary(u),
        other => other_expression(other),
    }
}

/// An oxc expression as the library's: `yield`, tagged templates,
/// `import(..)` and the rest.
#[verifier::external_body]
fn other_expression<'a>(e: &OxcExpression<'a>) -> Expr {
    match e {
        OxcExpression::YieldExpression(y) => Expr::Yield { argument: y.argument.as_ref().map(boxed_expression), span: span(y.span) },
        OxcExpression::TaggedTemplateExpression(t) => tagged_template(t),
        OxcExpression::ImportExpression(i) => import_expression(i),
        other => Expr::Other { span: span(other.span()) },
    }
}

/// An oxc conditional as the library's.
#[verifier::external_body]
fn conditional<'a>(c: &OxcConditionalExpression<'a>) -> Expr {
    Expr::Conditional {
        test: boxed_expression(&c.test),
        consequent: boxed_expression(&c.consequent),
        alternate: boxed_expression(&c.alternate),
        span: span(c.span),
    }
}

/// An oxc binary expression as the library's.
#[verifier::external_body]
fn binary<'a>(b: &OxcBinaryExpression<'a>) -> Expr {
    Expr::Binary { op: binary_op(b.operator), left: boxed_expression(&b.left), right: boxed_expression(&b.right), span: span(b.span) }
}

/// An oxc logical expression as the library's.
#[verifier::external_body]
fn logical<'a>(b: &OxcLogicalExpression<'a>) -> Expr {
    Expr::Logical { op: logical_op(b.operator), left: boxed_expression(&b.left), right: boxed_expression(&b.right), span: span(b.span) }
}

/// An oxc unary expression as the library's.
#[verifier::external_body]
fn unary<'a>(u: &OxcUnaryExpression<'a>) -> Expr {
    Expr::Unary { op: unary_op(u.operator), argument: boxed_expression(&u.argument), span: span(u.span) }
}

/// An oxc tagged template as the library's.
#[verifier::external_body]
fn tagged_template<'a>(t: &OxcTaggedTemplateExpression<'a>) -> Expr {
    Expr::TaggedTemplate { tag: boxed_expression(&t.tag), expressions: expressions(&t.quasi.expressions), span: span(t.span) }
}

/// An oxc `import(..)` as the library's.
#[verifier::external_body]
fn import_expression<'a>(i: &OxcImportExpression<'a>) -> Expr {
    Expr::Import { source: boxed_expression(&i.source), options: i.options.as_ref().map(boxed_expression), span: span(i.span) }
}

/// An oxc array literal as the library's.
#[verifier::external_body]
fn array<'a>(a: &OxcArrayExpression<'a>) -> Expr {
    Expr::Array { elements: a.elements.iter().map(array_element).collect(), span: span(a.span) }
}

/// An oxc array element as the library's.
#[verifier::external_body]
fn array_element<'a>(e: &OxcArrayExpressionElement<'a>) -> ArrayElem {
    match e {
        OxcArrayExpressionElement::SpreadElement(s) => ArrayElem::Spread { argument: expression(&s.argument), span: span(s.span) },
        OxcArrayExpressionElement::Elision(_) => ArrayElem::Hole,
        other => ArrayElem::Expr(other.as_expression().map_or(Expr::Other { span: span(other.span()) }, expression)),
    }
}

/// An oxc object literal as the library's.
#[verifier::external_body]
fn object<'a>(o: &OxcObjectExpression<'a>) -> Expr {
    Expr::Object { properties: o.properties.iter().map(object_member).collect(), span: span(o.span) }
}

/// An oxc object member as the library's.
#[verifier::external_body]
fn object_member<'a>(p: &OxcObjectPropertyKind<'a>) -> Property {
    match p {
        OxcObjectPropertyKind::ObjectProperty(p) => Property::Property { key: property_key(&p.key), value: expression(&p.value) },
        OxcObjectPropertyKind::SpreadProperty(s) => Property::Spread { argument: expression(&s.argument) },
    }
}

/// The name of an oxc property key, when it is a plain name or a string.
#[verifier::external_body]
fn property_key<'a>(k: &OxcPropertyKey<'a>) -> Option<String> {
    match k {
        OxcPropertyKey::StaticIdentifier(id) => Some(id.name.to_string()),
        OxcPropertyKey::StringLiteral(s) => Some(s.value.to_string()),
        _ => None,
    }
}

/// An oxc arrow function as the library's: a body that is an expression is
/// one expression statement.
#[verifier::external_body]
fn arrow<'a>(a: &OxcArrowFunctionExpression<'a>) -> Expr {
    let (expression_body, body) = match &a.body {
        OxcArrowFunctionBody::FunctionBody(b) => (false, statements(&b.statements)),
        other => (true, vec![Stmt::Expression(other.as_expression().map_or(Expr::Other { span: span(a.span) }, expression))]),
    };
    Expr::Arrow(Box::new(Arrow { has_params: !a.params.items.is_empty(), expression: expression_body, body, span: span(a.span) }))
}

} // verus!
