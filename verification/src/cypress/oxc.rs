//! Reading a source with the oxc parser into the syntax tree that the
//! Cypress rules walk. The parse is an outside call; what it gives is
//! named, and the conversion moves each node's fields into the library's
//! node of the same kind.
use vstd::prelude::*;
use oxc_ast::ast;
use oxc_ast::ast::{SwitchCase as OxcSwitchCase, CatchClause as OxcCatchClause, Function as OxcFunction, Class as OxcClass};
use super::ast::{
    Arg, ArrayElem, ArrowFunction, CallExpr, ClassElem, Decl, Declarator, DefaultExport, Expr,
    ForInit, Param, Params, Pattern, PropKey, Property, Span, Stmt, VarDecl,
};

verus! {

/// The statements that the oxc parser gives for `source`, read as a module
/// of the kind `filename` tells (a JavaScript module when it tells none), as
/// the Cypress rules read them; nothing when the parser reports a problem.
pub uninterp spec fn cypress_program_of(source: Seq<char>, filename: Seq<char>) -> Option<Seq<Stmt>>;

/// `Parser::new(..).parse()` of `oxc_parser` on `source_text`, with the
/// source type that `SourceType::from_path` gives for `filename` (a
/// JavaScript module when it gives none): nothing when the parser reports a
/// diagnostic, else the program's statements converted node by node. The
/// contract claims only that the result is the named one.
#[verifier::external_body]
pub fn parse_cypress_program(source_text: &str, filename: &str) -> (r: Option<Vec<Stmt>>)
    ensures
        match r {
            Some(p) => cypress_program_of(source_text@, filename@) == Some(p@),
            None => cypress_program_of(source_text@, filename@) is None,
        },
{
    let allocator = oxc_allocator::Allocator::default();
    let source_type = oxc_span::SourceType::from_path(filename)
        .unwrap_or_else(|_| oxc_span::SourceType::mjs())
        .with_module(true);
    let parsed = oxc_parser::Parser::new(&allocator, source_text, source_type).parse();
    if !parsed.diagnostics.is_empty() {
        return None;
    }
    Some(statements(&parsed.program.body))
}

/// oxc statements as the library's.
#[verifier::external_body]
fn statements<'a>(body: &[ast::Statement<'a>]) -> Vec<Stmt> {
    body.iter().map(statement).collect()
}

/// An oxc statement as the library's, boxed.
#[verifier::external_body]
fn boxed<'a>(s: &ast::Statement<'a>) -> Box<Stmt> {
    Box::new(statement(s))
}

/// An oxc statement as the library's: blocks, conditions and declarations.
#[verifier::external_body]
fn statement<'a>(s: &ast::Statement<'a>) -> Stmt {
    match s {
        ast::Statement::ExpressionStatement(e) => Stmt::Expression(expression(&e.expression)),
        ast::Statement::BlockStatement(b) => Stmt::Block(statements(&b.body)),
        ast::Statement::IfStatement(i) => if_statement(i),
        ast::Statement::VariableDeclaration(d) => Stmt::Var(var_decl(d)),
        ast::Statement::FunctionDeclaration(f) => Stmt::Function(function(f)),
        ast::Statement::ClassDeclaration(c) => Stmt::Class(class(c)),
        ast::Statement::ImportDeclaration(i) => import_declaration(i),
        other => statement_exports(other),
    }
}

/// An oxc statement as the library's: exports, returns and `while` loops.
#[verifier::external_body]
fn statement_exports<'a>(s: &ast::Statement<'a>) -> Stmt {
    match s {
        ast::Statement::ExportDeclaration(e) => Stmt::ExportNamed { declaration: Some(declaration(&e.declaration)) },
        ast::Statement::ExportNamedDeclaration(_) => Stmt::ExportNamed { declaration: None },
        ast::Statement::ExportDefaultDeclaration(e) => Stmt::ExportDefault(default_export(&e.declaration)),
        ast::Statement::ReturnStatement(r) => Stmt::Return(r.argument.as_ref().map(expression)),
        ast::Statement::ThrowStatement(t) => Stmt::Throw(expression(&t.argument)),
        ast::Statement::WhileStatement(w) => while_statement(w),
        ast::Statement::DoWhileStatement(d) => do_while_statement(d),
        other => statement_loops(other),
    }
}

/// An oxc statement as the library's: `for` loops, `switch`, `try` and the
/// rest.
#[verifier::external_body]
fn statement_loops<'a>(s: &ast::Statement<'a>) -> Stmt {
    match s {
        ast::Statement::ForStatement(f) => for_statement(f),
        ast::Statement::ForInStatement(f) => for_in_statement(f),
        ast::Statement::ForOfStatement(f) => for_of_statement(f),
        ast::Statement::SwitchStatement(sw) => switch_statement(sw),
        ast::Statement::TryStatement(t) => try_statement(t),
        ast::Statement::LabeledStatement(l) => Stmt::Labeled(boxed(&l.body)),
        ast::Statement::WithStatement(w) => Stmt::With { object: expression(&w.object), body: boxed(&w.body) },
        ast::Statement::TSExportAssignment(e) => Stmt::ExportAssignment(expression(&e.expression)),
        _ => Stmt::Other,
    }
}

/// An oxc `if` as the library's.
#[verifier::external_body]
fn if_statement<'a>(i: &ast::IfStatement<'a>) -> Stmt {
    Stmt::If { test: expression(&i.test), consequent: boxed(&i.consequent), alternate: i.alternate.as_ref().map(boxed) }
}

/// An oxc import as the names it binds.
#[verifier::external_body]
fn import_declaration<'a>(i: &ast::ImportDeclaration<'a>) -> Stmt {
    Stmt::Import { locals: i.specifiers.iter().flatten().map(import_local).collect() }
}

/// The name an oxc import specifier binds.
#[verifier::external_body]
fn import_local<'a>(s: &ast::ImportDeclarationSpecifier<'a>) -> String {
    match s {
        ast::ImportDeclarationSpecifier::ImportSpecifier(s) => s.local.name.to_string(),
        ast::ImportDeclarationSpecifier::ImportDefaultSpecifier(s) => s.local.name.to_string(),
        ast::ImportDeclarationSpecifier::ImportNamespaceSpecifier(s) => s.local.name.to_string(),
    }
}

/// An oxc `while` as the library's.
#[verifier::external_body]
fn while_statement<'a>(w: &ast::WhileStatement<'a>) -> Stmt {
    Stmt::While { test: expression(&w.test), body: boxed(&w.body) }
}

/// An oxc `do .. while` as the library's.
#[verifier::external_body]
fn do_while_statement<'a>(d: &ast::DoWhileStatement<'a>) -> Stmt {
    Stmt::DoWhile { body: boxed(&d.body), test: expression(&d.test) }
}

/// An oxc `for` as the library's.
#[verifier::external_body]
fn for_statement<'a>(f: &ast::ForStatement<'a>) -> Stmt {
    Stmt::For {
        init: f.init.as_ref().map(for_init),
        test: f.test.as_ref().map(expression),
        update: f.update.as_ref().map(expression),
        body: boxed(&f.body),
    }
}

/// The start of an oxc `for` as the library's.
#[verifier::external_body]
fn for_init<'a>(init: &ast::ForStatementInit<'a>) -> ForInit {
    match init {
        ast::ForStatementInit::VariableDeclaration(d) => ForInit::Var(var_decl(d)),
        other => ForInit::Expr(other.as_expression().map_or(Expr::Other, expression)),
    }
}

/// An oxc `for .. in` as the library's.
#[verifier::external_body]
fn for_in_statement<'a>(f: &ast::ForInStatement<'a>) -> Stmt {
    Stmt::ForInOf { left: for_left(&f.left), right: expression(&f.right), body: boxed(&f.body) }
}

/// An oxc `for .. of` as the library's.
#[verifier::external_body]
fn for_of_statement<'a>(f: &ast::ForOfStatement<'a>) -> Stmt {
    Stmt::ForInOf { left: for_left(&f.left), right: expression(&f.right), body: boxed(&f.body) }
}

/// The left side of an oxc `for .. in` or `for .. of`: its declaration, if
/// it is one.
#[verifier::external_body]
fn for_left<'a>(left: &ast::ForStatementLeft<'a>) -> Option<VarDecl> {
    match left {
        ast::ForStatementLeft::VariableDeclaration(d) => Some(var_decl(d)),
        _ => None,
    }
}

/// An oxc `switch` as the library's.
#[verifier::external_body]
fn switch_statement<'a>(sw: &ast::SwitchStatement<'a>) -> Stmt {
    Stmt::Switch { discriminant: expression(&sw.discriminant), cases: sw.cases.iter().map(switch_case).collect() }
}

/// An oxc `case` as the library's.
#[verifier::external_body]
fn switch_case<'a>(c: &OxcSwitchCase<'a>) -> super::ast::SwitchCase {
    super::ast::SwitchCase { test: c.test.as_ref().map(expression), consequent: statements(&c.consequent) }
}

/// An oxc `try` as the library's.
#[verifier::external_body]
fn try_statement<'a>(t: &ast::TryStatement<'a>) -> Stmt {
    Stmt::Try {
        block: statements(&t.block.body),
        handler: t.handler.as_ref().map(|h| catch_clause(h)),
        finalizer: t.finalizer.as_ref().map(|f| statements(&f.body)),
    }
}

/// An oxc `catch` as the library's.
#[verifier::external_body]
fn catch_clause<'a>(h: &OxcCatchClause<'a>) -> super::ast::CatchClause {
    super::ast::CatchClause { param: h.param.as_ref().map(|p| pattern(&p.pattern)), body: statements(&h.body.body) }
}

/// An exported oxc declaration as the library's.
#[verifier::external_body]
fn declaration<'a>(d: &ast::Declaration<'a>) -> Decl {
    match d {
        ast::Declaration::VariableDeclaration(v) => Decl::Var(var_decl(v)),
        ast::Declaration::FunctionDeclaration(f) => Decl::Function(function(f)),
        ast::Declaration::ClassDeclaration(c) => Decl::Class(class(c)),
        _ => Decl::Other,
    }
}

/// An oxc default export as the library's.
#[verifier::external_body]
fn default_export<'a>(d: &ast::ExportDefaultDeclarationKind<'a>) -> DefaultExport {
    match d {
        ast::ExportDefaultDeclarationKind::FunctionDeclaration(f) => DefaultExport::Function(function(f)),
        ast::ExportDefaultDeclarationKind::ClassDeclaration(c) => DefaultExport::Class(class(c)),
        other => other.as_expression().map_or(DefaultExport::Other, |x| DefaultExport::Expr(expression(x))),
    }
}

/// An oxc variable declaration as the library's.
#[verifier::external_body]
fn var_decl<'a>(d: &ast::VariableDeclaration<'a>) -> VarDecl {
    VarDecl { declarations: d.declarations.iter().map(declarator).collect(), span: Span { start: d.span.start, end: d.span.end } }
}

/// An oxc declarator as the library's.
#[verifier::external_body]
fn declarator<'a>(d: &ast::VariableDeclarator<'a>) -> Declarator {
    Declarator { id: pattern(&d.id), init: d.init.as_ref().map(expression) }
}

/// An oxc binding pattern as the library's.
#[verifier::external_body]
fn pattern<'a>(p: &ast::BindingPattern<'a>) -> Pattern {
    match p {
        ast::BindingPattern::BindingIdentifier(id) => Pattern::Ident(id.name.to_string()),
        ast::BindingPattern::ObjectPattern(o) => object_pattern(o),
        ast::BindingPattern::ArrayPattern(a) => array_pattern(a),
        ast::BindingPattern::AssignmentPattern(a) => Pattern::Assign { left: Box::new(pattern(&a.left)), right: expression(&a.right) },
    }
}

/// An oxc object pattern as the library's.
#[verifier::external_body]
fn object_pattern<'a>(o: &ast::ObjectPattern<'a>) -> Pattern {
    Pattern::Object {
        properties: o.properties.iter().map(|property| pattern(&property.value)).collect(),
        rest: o.rest.as_ref().map(|r| Box::new(pattern(&r.argument))),
    }
}

/// An oxc array pattern as the library's.
#[verifier::external_body]
fn array_pattern<'a>(a: &ast::ArrayPattern<'a>) -> Pattern {
    Pattern::Array {
        elements: a.elements.iter().map(|e| e.as_ref().map(pattern)).collect(),
        rest: a.rest.as_ref().map(|r| Box::new(pattern(&r.argument))),
    }
}

/// oxc parameters as the library's.
#[verifier::external_body]
fn params<'a>(p: &ast::FormalParameters<'a>) -> Params {
    Params { items: p.items.iter().map(param).collect(), rest: p.rest.as_ref().map(|r| pattern(&r.rest.argument)) }
}

/// An oxc parameter as the library's.
#[verifier::external_body]
fn param<'a>(p: &ast::FormalParameter<'a>) -> Param {
    Param { pattern: pattern(&p.pattern), initializer: p.initializer.as_deref().map(expression) }
}

/// An oxc function as the library's.
#[verifier::external_body]
fn function<'a>(f: &OxcFunction<'a>) -> super::ast::Function {
    super::ast::Function {
        start: f.span.start,
        id: f.id.as_ref().map(|id| id.name.to_string()),
        params: params(&f.params),
        body: f.body.as_ref().map(|b| statements(&b.statements)),
    }
}

/// An oxc class as the library's.
#[verifier::external_body]
fn class<'a>(c: &OxcClass<'a>) -> super::ast::Class {
    super::ast::Class {
        id: c.id.as_ref().map(|id| id.name.to_string()),
        super_class: c.super_class.as_ref().map(expression),
        elements: c.body.body.iter().map(class_element).collect(),
    }
}

/// An oxc class member as the library's.
#[verifier::external_body]
fn class_element<'a>(e: &ast::ClassElement<'a>) -> ClassElem {
    match e {
        ast::ClassElement::StaticBlock(b) => ClassElem::StaticBlock(statements(&b.body)),
        ast::ClassElement::MethodDefinition(m) => ClassElem::Method(function(&m.value)),
        ast::ClassElement::PropertyDefinition(p) => ClassElem::Property(p.value.as_ref().map(expression)),
        ast::ClassElement::AccessorProperty(p) => ClassElem::Accessor(p.value.as_ref().map(expression)),
        ast::ClassElement::TSIndexSignature(_) => ClassElem::Other,
    }
}

/// An oxc expression as the library's, boxed.
#[verifier::external_body]
fn boxed_expression<'a>(e: &ast::Expression<'a>) -> Box<Expr> {
    Box::new(expression(e))
}

/// oxc expressions as the library's.
#[verifier::external_body]
fn expressions<'a>(es: &[ast::Expression<'a>]) -> Vec<Expr> {
    es.iter().map(expression).collect()
}

/// An oxc template as the library's: the cooked text of its first part and
/// its expressions.
#[verifier::external_body]
fn template<'a>(t: &ast::TemplateLiteral<'a>) -> Expr {
    Expr::TemplateLiteral {
        first_cooked: t.quasis.first().and_then(|q| q.value.cooked.as_ref()).map(|c| c.as_str().to_string()),
        expressions: expressions(&t.expressions),
    }
}

/// An oxc call as the library's.
#[verifier::external_body]
fn call<'a>(c: &ast::CallExpression<'a>) -> Expr {
    Expr::Call(Box::new(CallExpr {
        callee: expression(&c.callee),
        arguments: c.arguments.iter().map(argument).collect(),
        span: Span { start: c.span.start, end: c.span.end },
    }))
}

/// An oxc call argument as the library's.
#[verifier::external_body]
fn argument<'a>(a: &ast::Argument<'a>) -> Arg {
    match a {
        ast::Argument::SpreadElement(s) => Arg::Spread(expression(&s.argument)),
        other => Arg::Expr(other.as_expression().map_or(Expr::Other, expression)),
    }
}

/// An oxc `a.b` as the library's.
#[verifier::external_body]
fn static_member<'a>(m: &ast::StaticMemberExpression<'a>) -> Expr {
    Expr::StaticMember {
        object: boxed_expression(&m.object),
        property: m.property.name.to_string(),
        property_span: Span { start: m.property.span.start, end: m.property.span.end },
    }
}

/// An oxc `a[b]` as the library's.
#[verifier::external_body]
fn computed_member<'a>(c: &ast::ComputedMemberExpression<'a>) -> Expr {
    Expr::ComputedMember { object: boxed_expression(&c.object), expression: boxed_expression(&c.expression) }
}

/// An oxc member access as the library's.
#[verifier::external_body]
fn member<'a>(m: &ast::MemberExpression<'a>) -> Expr {
    match m {
        ast::MemberExpression::StaticMemberExpression(s) => static_member(s),
        ast::MemberExpression::ComputedMemberExpression(c) => computed_member(c),
        ast::MemberExpression::PrivateFieldExpression(p) => Expr::PrivateField { object: boxed_expression(&p.object) },
    }
}

/// An oxc optional chain as the library's.
#[verifier::external_body]
fn chain<'a>(c: &ast::ChainExpression<'a>) -> Expr {
    Expr::Chain {
        element: Box::new(match &c.expression {
            ast::ChainElement::CallExpression(call_expression) => call(call_expression),
            ast::ChainElement::TSNonNullExpression(n) => Expr::Wrapped { expression: boxed_expression(&n.expression) },
            other => other.as_member_expression().map_or(Expr::Other, member),
        }),
    }
}

/// An oxc expression as the library's: names, literals, calls and members.
#[verifier::external_body]
fn expression<'a>(e: &ast::Expression<'a>) -> Expr {
    match e {
        ast::Expression::Identifier(i) => Expr::Identifier { name: i.name.to_string() },
        ast::Expression::NumericLiteral(_) => Expr::NumericLiteral,
        ast::Expression::StringLiteral(s) => Expr::StringLiteral { value: s.value.to_string() },
        ast::Expression::TemplateLiteral(t) => template(t),
        ast::Expression::CallExpression(c) => call(c),
        ast::Expression::StaticMemberExpression(m) => static_member(m),
        ast::Expression::ComputedMemberExpression(c) => computed_member(c),
        ast::Expression::PrivateFieldExpression(p) => Expr::PrivateField { object: boxed_expression(&p.object) },
        ast::Expression::ChainExpression(c) => chain(c),
        other => wrapped_expression(other),
    }
}

/// An oxc expression as the library's: parentheses and type assertions.
#[verifier::external_body]
fn wrapped_expression<'a>(e: &ast::Expression<'a>) -> Expr {
    match e {
        ast::Expression::ParenthesizedExpression(p) => Expr::Wrapped { expression: boxed_expression(&p.expression) },
        ast::Expression::TSAsExpression(p) => Expr::Wrapped { expression: boxed_expression(&p.expression) },
        ast::Expression::TSSatisfiesExpression(p) => Expr::Wrapped { expression: boxed_expression(&p.expression) },
        ast::Expression::TSTypeAssertion(p) => Expr::Wrapped { expression: boxed_expression(&p.expression) },
        ast::Expression::TSNonNullExpression(p) => Expr::Wrapped { expression: boxed_expression(&p.expression) },
        ast::Expression::TSInstantiationExpression(p) => Expr::Wrapped { expression: boxed_expression(&p.expression) },
        other => compound_expression(other),
    }
}

/// An oxc expression as the library's: arrays, objects, functions and
/// classes.
#[verifier::external_body]
fn compound_expression<'a>(e: &ast::Expression<'a>) -> Expr {
    match e {
        ast::Expression::AwaitExpression(a) => Expr::Await { argument: boxed_expression(&a.argument) },
        ast::Expression::ArrayExpression(a) => array(a),
        ast::Expression::ObjectExpression(o) => object(o),
        ast::Expression::ArrowFunctionExpression(a) => arrow(a),
        ast::Expression::FunctionExpression(f) => Expr::Function(Box::new(function(f))),
        ast::Expression::ClassExpression(c) => Expr::Class(Box::new(class(c))),
        ast::Expression::AssignmentExpression(a) => Expr::Assignment { right: boxed_expression(&a.right) },
        ast::Expression::ConditionalExpression(c) => conditional(c),
        other => operator_expression(other),
    }
}

/// An oxc expression as the library's: operators, templates and the rest.
#[verifier::external_body]
fn operator_expression<'a>(e: &ast::Expression<'a>) -> Expr {
    match e {
        ast::Expression::BinaryExpression(b) => Expr::Binary { left: boxed_expression(&b.left), right: boxed_expression(&b.right) },
        ast::Expression::LogicalExpression(b) => Expr::Binary { left: boxed_expression(&b.left), right: boxed_expression(&b.right) },
        ast::Expression::SequenceExpression(s) => Expr::Sequence { expressions: expressions(&s.expressions) },
        ast::Expression::UnaryExpression(u) => Expr::Unary { argument: boxed_expression(&u.argument) },
        ast::Expression::UpdateExpression(_) => Expr::Update,
        ast::Expression::YieldExpression(y) => Expr::Yield { argument: y.argument.as_ref().map(boxed_expression) },
        ast::Expression::TaggedTemplateExpression(t) => tagged_template(t),
        ast::Expression::ImportExpression(i) => import_expression(i),
        _ => Expr::Other,
    }
}

/// An oxc array literal as the library's.
#[verifier::external_body]
fn array<'a>(a: &ast::ArrayExpression<'a>) -> Expr {
    Expr::Array { elements: a.elements.iter().map(array_element).collect() }
}

/// An oxc array element as the library's.
#[verifier::external_body]
fn array_element<'a>(e: &ast::ArrayExpressionElement<'a>) -> ArrayElem {
    match e {
        ast::ArrayExpressionElement::SpreadElement(s) => ArrayElem::Spread(expression(&s.argument)),
        ast::ArrayExpressionElement::Elision(_) => ArrayElem::Elision,
        other => ArrayElem::Expr(other.as_expression().map_or(Expr::Other, expression)),
    }
}

/// An oxc object literal as the library's.
#[verifier::external_body]
fn object<'a>(o: &ast::ObjectExpression<'a>) -> Expr {
    Expr::Object { properties: o.properties.iter().map(object_member).collect() }
}

/// An oxc object member as the library's.
#[verifier::external_body]
fn object_member<'a>(p: &ast::ObjectPropertyKind<'a>) -> Property {
    match p {
        ast::ObjectPropertyKind::ObjectProperty(p) => object_property(p),
        ast::ObjectPropertyKind::SpreadProperty(s) => Property::Spread(expression(&s.argument)),
    }
}

/// An oxc object property as the library's.
#[verifier::external_body]
fn object_property<'a>(p: &ast::ObjectProperty<'a>) -> Property {
    Property::Property { key: property_key(&p.key), computed: p.computed, value: expression(&p.value) }
}

/// An oxc property key as the library's.
#[verifier::external_body]
fn property_key<'a>(k: &ast::PropertyKey<'a>) -> PropKey {
    match k {
        ast::PropertyKey::StaticIdentifier(id) => PropKey::Static(id.name.to_string()),
        ast::PropertyKey::PrivateIdentifier(_) => PropKey::Expr(Expr::Other),
        other => PropKey::Expr(other.as_expression().map_or(Expr::Other, expression)),
    }
}

/// An oxc arrow function as the library's: a body that is an expression is
/// one expression statement.
#[verifier::external_body]
fn arrow<'a>(a: &ast::ArrowFunctionExpression<'a>) -> Expr {
    let body = match &a.body {
        ast::ArrowFunctionBody::FunctionBody(b) => statements(&b.statements),
        other => vec![Stmt::Expression(other.as_expression().map_or(Expr::Other, expression))],
    };
    Expr::Arrow(Box::new(ArrowFunction { start: a.span.start, params: params(&a.params), body }))
}

/// An oxc conditional as the library's.
#[verifier::external_body]
fn conditional<'a>(c: &ast::ConditionalExpression<'a>) -> Expr {
    Expr::Conditional {
        test: boxed_expression(&c.test),
        consequent: boxed_expression(&c.consequent),
        alternate: boxed_expression(&c.alternate),
    }
}

/// An oxc tagged template as the library's.
#[verifier::external_body]
fn tagged_template<'a>(t: &ast::TaggedTemplateExpression<'a>) -> Expr {
    Expr::TaggedTemplate { tag: boxed_expression(&t.tag), expressions: expressions(&t.quasi.expressions) }
}

/// An oxc `import(..)` as the library's.
#[verifier::external_body]
fn import_expression<'a>(i: &ast::ImportExpression<'a>) -> Expr {
    Expr::Import { source: boxed_expression(&i.source), options: i.options.as_ref().map(boxed_expression) }
}

} // verus!
