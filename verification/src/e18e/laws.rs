//! What holds of every report the e18e walk makes.
use vstd::prelude::*;
use super::ast::{Expr, CallExpr, Arg, ArrayElem, Property, Stmt, Function, Class, ClassElem, Decl, DefaultExport, ForInit, SwitchCase, AssignTarget};
use super::source::{DiagView, emit};
use super::dependencies::{E18eOptions, names_rule};
use super::call_rules::{ExprContext, spread_in_reduce, reduce_reports};
use super::walk::{
    ban_views, require_views, call_views, expr_views, target_views, args_views, elems_views, props_views,
    exprs_views, function_views, class_views, class_elems_views, inits_views, decl_views, cases_views,
    stmts_views, stmt_views, opt_stmt_views, opt_expr_views, for_init_views,
};

verus! {

/// Every report is of a rule that the list names.
pub open spec fn selected(names: Seq<String>, vs: Seq<DiagView>) -> bool {
    forall|i: int| 0 <= i < vs.len() ==> names_rule(names, (#[trigger] vs[i]).rule_name)
}

pub broadcast proof fn lemma_selected_add(names: Seq<String>, a: Seq<DiagView>, b: Seq<DiagView>)
    requires
        selected(names, a),
        selected(names, b),
    ensures
        #[trigger] selected(names, a + b),
{
    lemma_add(names, a, b);
}

proof fn lemma_add(names: Seq<String>, a: Seq<DiagView>, b: Seq<DiagView>)
    requires
        selected(names, a),
        selected(names, b),
    ensures
        selected(names, a + b),
{
    assert forall|i: int| 0 <= i < (a + b).len() implies names_rule(names, (#[trigger] (a + b)[i]).rule_name) by {
        if i < a.len() {
            assert((a + b)[i] == a[i]);
        } else {
            assert((a + b)[i] == b[i - a.len()]);
        }
    }
}

proof fn lemma_emit(t: Seq<char>, names: Seq<String>, r: Option<super::source::Report>)
    ensures
        selected(names, emit(t, names, r)),
{
}

proof fn lemma_reduce(t: Seq<char>, names: Seq<String>, args: Seq<Arg>)
    ensures
        selected(names, reduce_reports(t, names, args)),
    decreases args.len(),
{
    if args.len() > 0 {
        lemma_reduce(t, names, args.drop_last());
        let last = match args.last() {
            Arg::Expr(x) => if super::shapes::callback_has_spread(x) {
                emit(t, names, Some(super::source::plain("no-spread-in-reduce", "noSpreadInReduce", super::ast::span_of(x), None)))
            } else {
                Seq::empty()
            },
            Arg::Spread { .. } => Seq::empty(),
        };
        lemma_add(names, reduce_reports(t, names, args.drop_last()), last);
    }
}

proof fn lemma_call(t: Seq<char>, o: E18eOptions, in_fn: bool, c: CallExpr, ctx: ExprContext)
    ensures
        selected(o.rule_names@, call_views(t, o, in_fn, c, ctx)),
{
    let n = o.rule_names@;
    reveal(spread_in_reduce);
    lemma_reduce(t, n, c.arguments@);
    assert(selected(n, spread_in_reduce(t, n, c)));
    assert(selected(n, require_views(t, o, c)));
    let depth: nat = if in_fn { 1 } else { 0 };
    let s0 = require_views(t, o, c);
    lemma_emit(t, n, super::array_rules::exponentiation(t, c));
    lemma_add(n, s0, emit(t, n, super::array_rules::exponentiation(t, c)));
    let s1 = s0 + emit(t, n, super::array_rules::exponentiation(t, c));
    lemma_emit(t, n, super::array_rules::object_has_own(t, c));
    lemma_add(n, s1, emit(t, n, super::array_rules::object_has_own(t, c)));
    let s2 = s1 + emit(t, n, super::array_rules::object_has_own(t, c));
    lemma_emit(t, n, super::array_rules::array_from_map(t, c));
    lemma_add(n, s2, emit(t, n, super::array_rules::array_from_map(t, c)));
    let s3 = s2 + emit(t, n, super::array_rules::array_from_map(t, c));
    lemma_emit(t, n, super::array_rules::array_fill(t, c));
    lemma_add(n, s3, emit(t, n, super::array_rules::array_fill(t, c)));
    let s4 = s3 + emit(t, n, super::array_rules::array_fill(t, c));
    lemma_emit(t, n, super::spread_rules::spread_syntax(t, c));
    lemma_add(n, s4, emit(t, n, super::spread_rules::spread_syntax(t, c)));
    let s5 = s4 + emit(t, n, super::spread_rules::spread_syntax(t, c));
    lemma_emit(t, n, super::call_rules::copy_method(t, c));
    lemma_add(n, s5, emit(t, n, super::call_rules::copy_method(t, c)));
    let s6 = s5 + emit(t, n, super::call_rules::copy_method(t, c));
    lemma_emit(t, n, super::call_rules::date_now_call(c));
    lemma_add(n, s6, emit(t, n, super::call_rules::date_now_call(c)));
    let s7 = s6 + emit(t, n, super::call_rules::date_now_call(c));
    lemma_emit(t, n, super::call_rules::regex_test(t, c, ctx));
    lemma_add(n, s7, emit(t, n, super::call_rules::regex_test(t, c, ctx)));
    let s8 = s7 + emit(t, n, super::call_rules::regex_test(t, c, ctx));
    lemma_emit(t, n, super::call_rules::array_some_call(t, c, ctx));
    lemma_add(n, s8, emit(t, n, super::call_rules::array_some_call(t, c, ctx)));
    let s9 = s8 + emit(t, n, super::call_rules::array_some_call(t, c, ctx));
    lemma_emit(t, n, super::call_rules::static_regex_call(c, depth));
    lemma_add(n, s9, emit(t, n, super::call_rules::static_regex_call(c, depth)));
    let s10 = s9 + emit(t, n, super::call_rules::static_regex_call(c, depth));
    lemma_emit(t, n, super::call_rules::inline_equality(t, c));
    lemma_add(n, s10, emit(t, n, super::call_rules::inline_equality(t, c)));
    let s11 = s10 + emit(t, n, super::call_rules::inline_equality(t, c));
    lemma_emit(t, n, super::call_rules::string_from_char_code(c));
    lemma_add(n, s11, emit(t, n, super::call_rules::string_from_char_code(c)));
    let s12 = s11 + emit(t, n, super::call_rules::string_from_char_code(c));
    lemma_emit(t, n, super::call_rules::timer_args(t, c));
    lemma_add(n, s12, emit(t, n, super::call_rules::timer_args(t, c)));
    let s13 = s12 + emit(t, n, super::call_rules::timer_args(t, c));
    lemma_emit(t, n, super::call_rules::includes_over_regex_test(t, c));
    lemma_add(n, s13, emit(t, n, super::call_rules::includes_over_regex_test(t, c)));
    let s14 = s13 + emit(t, n, super::call_rules::includes_over_regex_test(t, c));
    lemma_add(n, s14, spread_in_reduce(t, n, c));
    let s15 = s14 + spread_in_reduce(t, n, c);
    lemma_emit(t, n, super::call_rules::static_collator(c, depth));
    lemma_add(n, s15, emit(t, n, super::call_rules::static_collator(c, depth)));
    let s16 = s15 + emit(t, n, super::call_rules::static_collator(c, depth));
    assert(s16 == call_views(t, o, in_fn, c, ctx));
}


proof fn lemma_ban(t: Seq<char>, o: E18eOptions, source: Seq<char>, sp: super::ast::Span)
    ensures
        selected(o.rule_names@, ban_views(t, o, source, sp)),
{
}

proof fn lemma_expr(t: Seq<char>, o: E18eOptions, in_fn: bool, e: Expr, ctx: ExprContext)
    ensures
        selected(o.rule_names@, expr_views(t, o, in_fn, e, ctx)),
    decreases e,
{
    broadcast use lemma_selected_add;
    let n = o.rule_names@;
    let depth: nat = if in_fn { 1 } else { 0 };
    match e {
        Expr::Wrapped { expression, .. } => lemma_expr(t, o, in_fn, *expression, ctx),
        Expr::Call(c) => {
            lemma_call(t, o, in_fn, *c, ctx);
            lemma_expr(t, o, in_fn, c.callee, ExprContext::Callee);
            lemma_args(t, o, in_fn, c.arguments@);
        },
        Expr::New(nw) => {
            lemma_emit(t, n, super::operator_rules::static_regex_new(*nw, depth));
            lemma_expr(t, o, in_fn, nw.callee, ExprContext::Callee);
            lemma_args(t, o, in_fn, nw.arguments@);
        },
        Expr::StaticMember(m) => {
            lemma_emit(t, n, super::operator_rules::filter_length_member(t, *m, ctx));
            lemma_expr(t, o, in_fn, m.object, ExprContext::MemberObject);
        },
        Expr::ComputedMember { object, expression, span } => {
            lemma_emit(t, n, super::operator_rules::array_at(t, *object, *expression, span));
            lemma_expr(t, o, in_fn, *object, ExprContext::MemberObject);
            lemma_expr(t, o, in_fn, *expression, ExprContext::Other);
        },
        Expr::Assignment { target, right, .. } => {
            lemma_target(t, o, in_fn, *target);
            lemma_expr(t, o, in_fn, *right, ExprContext::Other);
        },
        Expr::Binary { op, left, right, span } => {
            lemma_emit(t, n, super::operator_rules::includes_binary(t, op, *left, *right, span));
            lemma_emit(t, n, super::operator_rules::no_indexof_equality(t, op, *left, *right, span));
            lemma_emit(t, n, super::operator_rules::array_some_binary(t, op, *left, *right, span));
            lemma_expr(t, o, in_fn, *left, ExprContext::Other);
            lemma_expr(t, o, in_fn, *right, ExprContext::Other);
        },
        Expr::Logical { left, right, .. } => {
            lemma_expr(t, o, in_fn, *left, ExprContext::Boolean);
            lemma_expr(t, o, in_fn, *right, ExprContext::Boolean);
        },
        Expr::Conditional { test, consequent, alternate, span } => {
            lemma_emit(t, n, super::operator_rules::nullish_conditional(t, *test, *consequent, *alternate, span));
            lemma_expr(t, o, in_fn, *test, ExprContext::Boolean);
            lemma_expr(t, o, in_fn, *consequent, ExprContext::Other);
            lemma_expr(t, o, in_fn, *alternate, ExprContext::Other);
        },
        Expr::Unary { op, argument, span } => {
            lemma_emit(t, n, super::operator_rules::includes_unary(t, op, *argument, span));
            lemma_emit(t, n, super::operator_rules::array_some_unary(t, op, *argument, span));
            lemma_emit(t, n, super::operator_rules::date_now_unary(op, *argument, span));
            lemma_emit(t, n, super::operator_rules::no_delete_property(t, op, *argument, span, ctx));
            lemma_expr(t, o, in_fn, *argument, ctx);
        },
        Expr::Array { elements, .. } => lemma_elems(t, o, in_fn, elements@),
        Expr::Object { properties, .. } => lemma_props(t, o, in_fn, properties@),
        Expr::Arrow(f) => {
            if f.expression {
                match super::syntax::body_expression(f.body@) {
                    Some(x) => {
                        assert(decreases_to!(e => x)) by {
                            assert(f.body@.len() == 1 && f.body@[0] == Stmt::Expression(x));
                        }
                        lemma_expr(t, o, true, x, ExprContext::Return);
                    },
                    None => {},
                }
            } else {
                lemma_stmts(t, o, true, f.body@);
            }
        },
        Expr::Function(f) => lemma_function(t, o, *f),
        Expr::Class(c) => lemma_class(t, o, in_fn, *c),
        Expr::Template { expressions, .. } => lemma_exprs(t, o, in_fn, expressions@),
        Expr::TaggedTemplate { tag, expressions, .. } => {
            lemma_expr(t, o, in_fn, *tag, ExprContext::Callee);
            lemma_exprs(t, o, in_fn, expressions@);
        },
        Expr::Sequence { expressions, .. } => lemma_exprs(t, o, in_fn, expressions@),
        Expr::Await { argument, .. } => lemma_expr(t, o, in_fn, *argument, ExprContext::Other),
        Expr::Yield { argument, .. } => match argument {
            Some(a) => lemma_expr(t, o, in_fn, *a, ExprContext::Other),
            None => {},
        },
        Expr::Chain { element, .. } => match *element {
            Expr::PrivateField { object, .. } => lemma_expr(t, o, in_fn, *object, ExprContext::MemberObject),
            _ => lemma_expr(t, o, in_fn, *element, ctx),
        },
        Expr::Import { source, options, .. } => {
            match super::ast::inner(*source) {
                Expr::Str { value, span } => lemma_ban(t, o, value@, span),
                _ => {},
            }
            lemma_expr(t, o, in_fn, *source, ExprContext::Other);
            match options {
                Some(x) => lemma_expr(t, o, in_fn, *x, ExprContext::Other),
                None => {},
            }
        },
        Expr::RegExp { global_or_sticky, span } => {
            lemma_emit(t, n, super::operator_rules::static_regex_literal(global_or_sticky, span, depth));
        },
        _ => {},
    }
}

proof fn lemma_target(t: Seq<char>, o: E18eOptions, in_fn: bool, a: AssignTarget)
    ensures
        selected(o.rule_names@, target_views(t, o, in_fn, a)),
    decreases a,
{
    broadcast use lemma_selected_add;
    match a {
        AssignTarget::Computed { object, expression } => {
            lemma_expr(t, o, in_fn, object, ExprContext::MemberObject);
            lemma_expr(t, o, in_fn, expression, ExprContext::Other);
        },
        AssignTarget::Static { object } => lemma_expr(t, o, in_fn, object, ExprContext::MemberObject),
        AssignTarget::Other => {},
    }
}

proof fn lemma_args(t: Seq<char>, o: E18eOptions, in_fn: bool, args: Seq<Arg>)
    ensures
        selected(o.rule_names@, args_views(t, o, in_fn, args)),
    decreases args,
{
    broadcast use lemma_selected_add;
    if args.len() > 0 {
        lemma_args(t, o, in_fn, args.drop_last());
        match args.last() {
            Arg::Expr(x) => lemma_expr(t, o, in_fn, x, ExprContext::Other),
            Arg::Spread { argument, .. } => lemma_expr(t, o, in_fn, argument, ExprContext::Other),
        }
    }
}

proof fn lemma_elems(t: Seq<char>, o: E18eOptions, in_fn: bool, es: Seq<ArrayElem>)
    ensures
        selected(o.rule_names@, elems_views(t, o, in_fn, es)),
    decreases es,
{
    broadcast use lemma_selected_add;
    if es.len() > 0 {
        lemma_elems(t, o, in_fn, es.drop_last());
        match es.last() {
            ArrayElem::Expr(x) => lemma_expr(t, o, in_fn, x, ExprContext::Other),
            ArrayElem::Spread { argument, .. } => lemma_expr(t, o, in_fn, argument, ExprContext::Other),
            ArrayElem::Hole => {},
        }
    }
}

proof fn lemma_props(t: Seq<char>, o: E18eOptions, in_fn: bool, ps: Seq<Property>)
    ensures
        selected(o.rule_names@, props_views(t, o, in_fn, ps)),
    decreases ps,
{
    broadcast use lemma_selected_add;
    if ps.len() > 0 {
        lemma_props(t, o, in_fn, ps.drop_last());
        match ps.last() {
            Property::Property { value, .. } => lemma_expr(t, o, in_fn, value, ExprContext::Other),
            Property::Spread { argument } => lemma_expr(t, o, in_fn, argument, ExprContext::Other),
        }
    }
}

proof fn lemma_exprs(t: Seq<char>, o: E18eOptions, in_fn: bool, es: Seq<Expr>)
    ensures
        selected(o.rule_names@, exprs_views(t, o, in_fn, es)),
    decreases es,
{
    broadcast use lemma_selected_add;
    if es.len() > 0 {
        lemma_exprs(t, o, in_fn, es.drop_last());
        lemma_expr(t, o, in_fn, es.last(), ExprContext::Other);
    }
}

proof fn lemma_function(t: Seq<char>, o: E18eOptions, f: Function)
    ensures
        selected(o.rule_names@, function_views(t, o, f)),
    decreases f,
{
    match f.body {
        Some(b) => lemma_stmts(t, o, true, b@),
        None => {},
    }
}

proof fn lemma_class(t: Seq<char>, o: E18eOptions, in_fn: bool, c: Class)
    ensures
        selected(o.rule_names@, class_views(t, o, in_fn, c)),
    decreases c,
{
    broadcast use lemma_selected_add;
    match c.super_class {
        Some(x) => lemma_expr(t, o, in_fn, x, ExprContext::Other),
        None => {},
    }
    lemma_class_elems(t, o, in_fn, c.elements@);
}

proof fn lemma_class_elems(t: Seq<char>, o: E18eOptions, in_fn: bool, es: Seq<ClassElem>)
    ensures
        selected(o.rule_names@, class_elems_views(t, o, in_fn, es)),
    decreases es,
{
    broadcast use lemma_selected_add;
    if es.len() > 0 {
        lemma_class_elems(t, o, in_fn, es.drop_last());
        match es.last() {
            ClassElem::Method(f) => lemma_function(t, o, f),
            ClassElem::Property(Some(x)) => lemma_expr(t, o, in_fn, x, ExprContext::Other),
            ClassElem::Accessor(Some(x)) => lemma_expr(t, o, in_fn, x, ExprContext::Other),
            ClassElem::StaticBlock(b) => lemma_stmts(t, o, in_fn, b@),
            _ => {},
        }
    }
}

proof fn lemma_inits(t: Seq<char>, o: E18eOptions, in_fn: bool, inits: Seq<Option<Expr>>)
    ensures
        selected(o.rule_names@, inits_views(t, o, in_fn, inits)),
    decreases inits,
{
    broadcast use lemma_selected_add;
    if inits.len() > 0 {
        lemma_inits(t, o, in_fn, inits.drop_last());
        match inits.last() {
            Some(x) => lemma_expr(t, o, in_fn, x, ExprContext::Other),
            None => {},
        }
    }
}

proof fn lemma_decl(t: Seq<char>, o: E18eOptions, in_fn: bool, d: Decl)
    ensures
        selected(o.rule_names@, decl_views(t, o, in_fn, d)),
    decreases d,
{
    match d {
        Decl::Var(v) => lemma_inits(t, o, in_fn, v.inits@),
        Decl::Function(f) => lemma_function(t, o, f),
        Decl::Class(c) => lemma_class(t, o, in_fn, c),
        Decl::Other => {},
    }
}

proof fn lemma_cases(t: Seq<char>, o: E18eOptions, in_fn: bool, cs: Seq<SwitchCase>)
    ensures
        selected(o.rule_names@, cases_views(t, o, in_fn, cs)),
    decreases cs,
{
    broadcast use lemma_selected_add;
    if cs.len() > 0 {
        lemma_cases(t, o, in_fn, cs.drop_last());
        match cs.last().test {
            Some(x) => lemma_expr(t, o, in_fn, x, ExprContext::Other),
            None => {},
        }
        lemma_stmts(t, o, in_fn, cs.last().consequent@);
    }
}

proof fn lemma_stmts(t: Seq<char>, o: E18eOptions, in_fn: bool, ss: Seq<Stmt>)
    ensures
        selected(o.rule_names@, stmts_views(t, o, in_fn, ss)),
    decreases ss,
{
    broadcast use lemma_selected_add;
    if ss.len() > 0 {
        lemma_stmts(t, o, in_fn, ss.drop_last());
        lemma_stmt(t, o, in_fn, ss.last());
    }
}

proof fn lemma_opt_expr(t: Seq<char>, o: E18eOptions, in_fn: bool, x: Option<Expr>, ctx: ExprContext)
    ensures
        selected(o.rule_names@, opt_expr_views(t, o, in_fn, x, ctx)),
    decreases x,
{
    match x {
        Some(e) => lemma_expr(t, o, in_fn, e, ctx),
        None => {},
    }
}

proof fn lemma_stmt(t: Seq<char>, o: E18eOptions, in_fn: bool, s: Stmt)
    ensures
        selected(o.rule_names@, stmt_views(t, o, in_fn, s)),
    decreases s,
{
    broadcast use lemma_selected_add;
    let n = o.rule_names@;
    match s {
        Stmt::Block(b) => lemma_stmts(t, o, in_fn, b@),
        Stmt::Expression(e) => lemma_expr(t, o, in_fn, e, ExprContext::Statement),
        Stmt::Var(v) => lemma_inits(t, o, in_fn, v.inits@),
        Stmt::Function(f) => lemma_function(t, o, f),
        Stmt::Class(c) => lemma_class(t, o, in_fn, c),
        Stmt::Return(a) => match a {
            Some(x) => lemma_expr(t, o, in_fn, x, ExprContext::Return),
            None => {},
        },
        Stmt::If { test, consequent, alternate, span } => {
            lemma_emit(t, n, super::operator_rules::nullish_assignment(t, test, *consequent, alternate is Some, span));
            lemma_expr(t, o, in_fn, test, ExprContext::Boolean);
            lemma_stmt(t, o, in_fn, *consequent);
            match alternate {
                Some(a) => lemma_stmt(t, o, in_fn, *a),
                None => {},
            }
            assert(selected(n, opt_stmt_views(t, o, in_fn, alternate)));
        },
        Stmt::For { init, test, update, body } => {
            match init {
                Some(ForInit::Var(v)) => lemma_inits(t, o, in_fn, v.inits@),
                Some(ForInit::Expr(x)) => lemma_expr(t, o, in_fn, x, ExprContext::Other),
                None => {},
            }
            assert(selected(n, for_init_views(t, o, in_fn, init)));
            lemma_opt_expr(t, o, in_fn, test, ExprContext::Boolean);
            lemma_opt_expr(t, o, in_fn, update, ExprContext::Other);
            lemma_stmt(t, o, in_fn, *body);
        },
        Stmt::ForInOf { left, right, body } => {
            match left {
                Some(v) => lemma_inits(t, o, in_fn, v.inits@),
                None => {},
            }
            lemma_expr(t, o, in_fn, right, ExprContext::Other);
            lemma_stmt(t, o, in_fn, *body);
        },
        Stmt::DoWhile { body, test } => {
            lemma_stmt(t, o, in_fn, *body);
            lemma_expr(t, o, in_fn, test, ExprContext::Boolean);
        },
        Stmt::While { test, body } => {
            lemma_expr(t, o, in_fn, test, ExprContext::Boolean);
            lemma_stmt(t, o, in_fn, *body);
        },
        Stmt::Switch { discriminant, cases } => {
            lemma_expr(t, o, in_fn, discriminant, ExprContext::Other);
            lemma_cases(t, o, in_fn, cases@);
        },
        Stmt::Throw(e) => lemma_expr(t, o, in_fn, e, ExprContext::Other),
        Stmt::Try { block, handler, finalizer, span } => {
            lemma_emit(t, n, super::operator_rules::url_canparse(t, block@,
                match handler {
                    Some(h) => Some(h@),
                    None => None,
                }, span));
            lemma_stmts(t, o, in_fn, block@);
            match handler {
                Some(h) => lemma_stmts(t, o, in_fn, h@),
                None => {},
            }
            match finalizer {
                Some(f) => lemma_stmts(t, o, in_fn, f@),
                None => {},
            }
        },
        Stmt::With { object, body } => {
            lemma_expr(t, o, in_fn, object, ExprContext::Other);
            lemma_stmt(t, o, in_fn, *body);
        },
        Stmt::Import(src) => lemma_ban(t, o, src.value@, src.span),
        Stmt::ExportNamed { source, declaration } => {
            match source {
                Some(src) => lemma_ban(t, o, src.value@, src.span),
                None => {},
            }
            match declaration {
                Some(d) => lemma_decl(t, o, in_fn, d),
                None => {},
            }
        },
        Stmt::ExportAll(src) => lemma_ban(t, o, src.value@, src.span),
        Stmt::ExportDefault(d) => match d {
            DefaultExport::Function(f) => lemma_function(t, o, f),
            DefaultExport::Class(c) => lemma_class(t, o, in_fn, c),
            DefaultExport::Expr(x) => lemma_expr(t, o, in_fn, x, ExprContext::Other),
            DefaultExport::Other => {},
        },
        Stmt::Labeled(b) => lemma_stmt(t, o, in_fn, *b),
        Stmt::Other => {},
    }
}

/// Only the rules that the options name report: every report of the walk
/// over a program is of a rule in the list.
pub proof fn law_walk_reports_only_selected_rules(t: Seq<char>, o: E18eOptions, program: Seq<Stmt>)
    ensures
        forall|i: int| 0 <= i < stmts_views(t, o, false, program).len()
            ==> names_rule(o.rule_names@, (#[trigger] stmts_views(t, o, false, program)[i]).rule_name),
{
    lemma_stmts(t, o, false, program);
}

/// The implemented rule names are pairwise distinct.
#[verifier::rlimit(50)]
pub proof fn law_rule_names_distinct()
    ensures
        forall|i: int, j: int| 0 <= i < j < crate::e18e::rules::rule_names().len() ==> (#[trigger] crate::e18e::rules::rule_names()[i])@ != (#[trigger] crate::e18e::rules::rule_names()[j])@,
{
    let r = crate::e18e::rules::rule_names();
    reveal_strlit("prefer-array-at");
    reveal_strlit("prefer-array-fill");
    reveal_strlit("prefer-array-from-map");
    reveal_strlit("prefer-includes");
    reveal_strlit("prefer-array-to-reversed");
    reveal_strlit("prefer-array-to-sorted");
    reveal_strlit("prefer-array-to-spliced");
    reveal_strlit("prefer-exponentiation-operator");
    reveal_strlit("prefer-nullish-coalescing");
    reveal_strlit("prefer-object-has-own");
    reveal_strlit("prefer-spread-syntax");
    reveal_strlit("prefer-url-canparse");
    reveal_strlit("no-indexof-equality");
    reveal_strlit("prefer-timer-args");
    reveal_strlit("prefer-date-now");
    reveal_strlit("prefer-regex-test");
    reveal_strlit("prefer-array-some");
    reveal_strlit("prefer-static-regex");
    reveal_strlit("prefer-inline-equality");
    reveal_strlit("prefer-string-fromcharcode");
    reveal_strlit("prefer-includes-over-regex-test");
    reveal_strlit("no-delete-property");
    reveal_strlit("no-spread-in-reduce");
    reveal_strlit("prefer-static-collator");
    reveal_strlit("ban-dependencies");
    assert forall|i: int, j: int| 0 <= i < j < r.len() implies (#[trigger] r[i])@ != (#[trigger] r[j])@ by {
        if r[i]@ == r[j]@ {
            assert(r[i]@.len() == r[j]@.len());
            assert(r[i]@[0] == r[j]@[0]);
            assert(r[i]@[7] == r[j]@[7]);
            assert(r[i]@[9] == r[j]@[9]);
            assert(r[i]@[13] == r[j]@[13]);
            assert(r[i]@[15] == r[j]@[15]);
            assert(r[i]@[r[i]@.len() - 1] == r[j]@[r[j]@.len() - 1]);
        }
    }
}

/// The object whose `length` is read in an index written `b.length - ..`.
pub open spec fn length_object(index: Expr) -> Option<Expr> {
    match super::ast::inner(index) {
        Expr::Binary { left, .. } => match super::ast::inner(*left) {
            Expr::StaticMember(lm) => if lm.property@ == "length"@ { Some(lm.object) } else { None },
            _ => None,
        },
        _ => None,
    }
}

/// `prefer-array-at` reports `a[b.length - 1]` only when `a` and `b` are
/// written the same, and its fix reads the last element of `a`.
pub proof fn law_array_at_reads_the_same_array(t: Seq<char>, object: Expr, index: Expr, sp: super::ast::Span)
    requires
        super::operator_rules::array_at(t, object, index, sp) is Some,
    ensures
        length_object(index) is Some,
        super::source::txt(t, super::ast::span_of(object))
            == super::source::txt(t, super::ast::span_of(length_object(index)->0)),
        super::operator_rules::array_at(t, object, index, sp)->0.rule == "prefer-array-at",
        super::operator_rules::array_at(t, object, index, sp)->0.fix
            == Some(super::source::txt(t, super::ast::span_of(object)) + ".at(-1)"@),
{
    reveal(super::operator_rules::array_at);
}

} // verus!
