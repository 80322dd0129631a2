//! The node types of the oxc syntax tree that the readers of the Cypress
//! and e18e rules convert. Verus sees none of their fields.
use vstd::prelude::*;
use oxc_ast::ast::{SwitchCase as OxcSwitchCase, CatchClause as OxcCatchClause, Function as OxcFunction, Class as OxcClass};
use oxc_span::Span as OxcSpan;

verus! {

#[verifier::external_type_specification]
#[verifier::external_body]
pub struct ExOxcArgument<'a>(oxc_ast::ast::Argument<'a>);

#[verifier::external_type_specification]
#[verifier::external_body]
pub struct ExOxcArrayExpression<'a>(oxc_ast::ast::ArrayExpression<'a>);

#[verifier::external_type_specification]
#[verifier::external_body]
pub struct ExOxcArrayExpressionElement<'a>(oxc_ast::ast::ArrayExpressionElement<'a>);

#[verifier::external_type_specification]
#[verifier::external_body]
pub struct ExOxcArrayPattern<'a>(oxc_ast::ast::ArrayPattern<'a>);

#[verifier::external_type_specification]
#[verifier::external_body]
pub struct ExOxcArrowFunctionExpression<'a>(oxc_ast::ast::ArrowFunctionExpression<'a>);

#[verifier::external_type_specification]
#[verifier::external_body]
pub struct ExOxcAssignmentExpression<'a>(oxc_ast::ast::AssignmentExpression<'a>);

#[verifier::external_type_specification]
#[verifier::external_body]
pub struct ExOxcAssignmentTarget<'a>(oxc_ast::ast::AssignmentTarget<'a>);

#[verifier::external_type_specification]
#[verifier::external_body]
pub struct ExOxcBinaryExpression<'a>(oxc_ast::ast::BinaryExpression<'a>);

#[verifier::external_type_specification]
#[verifier::external_body]
pub struct ExOxcBinaryOperator(oxc_ast::ast::BinaryOperator);

#[verifier::external_type_specification]
#[verifier::external_body]
pub struct ExOxcBindingPattern<'a>(oxc_ast::ast::BindingPattern<'a>);

#[verifier::external_type_specification]
#[verifier::external_body]
pub struct ExOxcCallExpression<'a>(oxc_ast::ast::CallExpression<'a>);

#[verifier::external_type_specification]
#[verifier::external_body]
pub struct ExOxcCatchClause<'a>(OxcCatchClause<'a>);

#[verifier::external_type_specification]
#[verifier::external_body]
pub struct ExOxcChainExpression<'a>(oxc_ast::ast::ChainExpression<'a>);

#[verifier::external_type_specification]
#[verifier::external_body]
pub struct ExOxcClass<'a>(OxcClass<'a>);

#[verifier::external_type_specification]
#[verifier::external_body]
pub struct ExOxcClassElement<'a>(oxc_ast::ast::ClassElement<'a>);

#[verifier::external_type_specification]
#[verifier::external_body]
pub struct ExOxcComputedMemberExpression<'a>(oxc_ast::ast::ComputedMemberExpression<'a>);

#[verifier::external_type_specification]
#[verifier::external_body]
pub struct ExOxcConditionalExpression<'a>(oxc_ast::ast::ConditionalExpression<'a>);

#[verifier::external_type_specification]
#[verifier::external_body]
pub struct ExOxcDeclaration<'a>(oxc_ast::ast::Declaration<'a>);

#[verifier::external_type_specification]
#[verifier::external_body]
pub struct ExOxcDoWhileStatement<'a>(oxc_ast::ast::DoWhileStatement<'a>);

#[verifier::external_type_specification]
#[verifier::external_body]
pub struct ExOxcExportDefaultDeclarationKind<'a>(oxc_ast::ast::ExportDefaultDeclarationKind<'a>);

#[verifier::external_type_specification]
#[verifier::external_body]
pub struct ExOxcExpression<'a>(oxc_ast::ast::Expression<'a>);

#[verifier::external_type_specification]
#[verifier::external_body]
pub struct ExOxcForInStatement<'a>(oxc_ast::ast::ForInStatement<'a>);

#[verifier::external_type_specification]
#[verifier::external_body]
pub struct ExOxcForOfStatement<'a>(oxc_ast::ast::ForOfStatement<'a>);

#[verifier::external_type_specification]
#[verifier::external_body]
pub struct ExOxcForStatement<'a>(oxc_ast::ast::ForStatement<'a>);

#[verifier::external_type_specification]
#[verifier::external_body]
pub struct ExOxcForStatementInit<'a>(oxc_ast::ast::ForStatementInit<'a>);

#[verifier::external_type_specification]
#[verifier::external_body]
pub struct ExOxcForStatementLeft<'a>(oxc_ast::ast::ForStatementLeft<'a>);

#[verifier::external_type_specification]
#[verifier::external_body]
pub struct ExOxcFormalParameter<'a>(oxc_ast::ast::FormalParameter<'a>);

#[verifier::external_type_specification]
#[verifier::external_body]
pub struct ExOxcFormalParameters<'a>(oxc_ast::ast::FormalParameters<'a>);

#[verifier::external_type_specification]
#[verifier::external_body]
pub struct ExOxcFunction<'a>(OxcFunction<'a>);

#[verifier::external_type_specification]
#[verifier::external_body]
pub struct ExOxcIfStatement<'a>(oxc_ast::ast::IfStatement<'a>);

#[verifier::external_type_specification]
#[verifier::external_body]
pub struct ExOxcImportDeclaration<'a>(oxc_ast::ast::ImportDeclaration<'a>);

#[verifier::external_type_specification]
#[verifier::external_body]
pub struct ExOxcImportDeclarationSpecifier<'a>(oxc_ast::ast::ImportDeclarationSpecifier<'a>);

#[verifier::external_type_specification]
#[verifier::external_body]
pub struct ExOxcImportExpression<'a>(oxc_ast::ast::ImportExpression<'a>);

#[verifier::external_type_specification]
#[verifier::external_body]
pub struct ExOxcLogicalExpression<'a>(oxc_ast::ast::LogicalExpression<'a>);

#[verifier::external_type_specification]
#[verifier::external_body]
pub struct ExOxcLogicalOperator(oxc_ast::ast::LogicalOperator);

#[verifier::external_type_specification]
#[verifier::external_body]
pub struct ExOxcMemberExpression<'a>(oxc_ast::ast::MemberExpression<'a>);

#[verifier::external_type_specification]
#[verifier::external_body]
pub struct ExOxcNewExpression<'a>(oxc_ast::ast::NewExpression<'a>);

#[verifier::external_type_specification]
#[verifier::external_body]
pub struct ExOxcObjectExpression<'a>(oxc_ast::ast::ObjectExpression<'a>);

#[verifier::external_type_specification]
#[verifier::external_body]
pub struct ExOxcObjectPattern<'a>(oxc_ast::ast::ObjectPattern<'a>);

#[verifier::external_type_specification]
#[verifier::external_body]
pub struct ExOxcObjectProperty<'a>(oxc_ast::ast::ObjectProperty<'a>);

#[verifier::external_type_specification]
#[verifier::external_body]
pub struct ExOxcObjectPropertyKind<'a>(oxc_ast::ast::ObjectPropertyKind<'a>);

#[verifier::external_type_specification]
#[verifier::external_body]
pub struct ExOxcPropertyKey<'a>(oxc_ast::ast::PropertyKey<'a>);

#[verifier::external_type_specification]
#[verifier::external_body]
pub struct ExOxcRegExpLiteral<'a>(oxc_ast::ast::RegExpLiteral<'a>);

#[verifier::external_type_specification]
#[verifier::external_body]
pub struct ExOxcSpan(OxcSpan);

#[verifier::external_type_specification]
#[verifier::external_body]
pub struct ExOxcStatement<'a>(oxc_ast::ast::Statement<'a>);

#[verifier::external_type_specification]
#[verifier::external_body]
pub struct ExOxcStaticMemberExpression<'a>(oxc_ast::ast::StaticMemberExpression<'a>);

#[verifier::external_type_specification]
#[verifier::external_body]
pub struct ExOxcStringLiteral<'a>(oxc_ast::ast::StringLiteral<'a>);

#[verifier::external_type_specification]
#[verifier::external_body]
pub struct ExOxcSwitchCase<'a>(OxcSwitchCase<'a>);

#[verifier::external_type_specification]
#[verifier::external_body]
pub struct ExOxcSwitchStatement<'a>(oxc_ast::ast::SwitchStatement<'a>);

#[verifier::external_type_specification]
#[verifier::external_body]
pub struct ExOxcTaggedTemplateExpression<'a>(oxc_ast::ast::TaggedTemplateExpression<'a>);

#[verifier::external_type_specification]
#[verifier::external_body]
pub struct ExOxcTemplateLiteral<'a>(oxc_ast::ast::TemplateLiteral<'a>);

#[verifier::external_type_specification]
#[verifier::external_body]
pub struct ExOxcTryStatement<'a>(oxc_ast::ast::TryStatement<'a>);

#[verifier::external_type_specification]
#[verifier::external_body]
pub struct ExOxcUnaryExpression<'a>(oxc_ast::ast::UnaryExpression<'a>);

#[verifier::external_type_specification]
#[verifier::external_body]
pub struct ExOxcUnaryOperator(oxc_ast::ast::UnaryOperator);

#[verifier::external_type_specification]
#[verifier::external_body]
pub struct ExOxcVariableDeclaration<'a>(oxc_ast::ast::VariableDeclaration<'a>);

#[verifier::external_type_specification]
#[verifier::external_body]
pub struct ExOxcVariableDeclarator<'a>(oxc_ast::ast::VariableDeclarator<'a>);

#[verifier::external_type_specification]
#[verifier::external_body]
pub struct ExOxcWhileStatement<'a>(oxc_ast::ast::WhileStatement<'a>);

} // verus!
