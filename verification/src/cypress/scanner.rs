//! The walk over a program: scopes of bound names, the command of the
//! statement before, and the rules checked at every call.
use vstd::prelude::*;
use crate::text::{byte_len, str_eq};
use super::rules::rule_names;
use super::ast::{
    Expr, Arg, ArrayElem, Property, PropKey, Pattern, Params, Function, ArrowFunction, Class,
    ClassElem, VarDecl, Decl, DefaultExport, ForInit, Stmt, CallExpr, get_inner_expression,
};
use super::calls::{call_static_member_name, is_root_cypress_call, cypress_command_names};
use super::checks::{
    Diagnostic, ValueKind, ParentKind, call_reports, check_call_rules, report_at,
    is_data_node_expression, opt_chars, scopes_view, names_view, bindings_view,
};
use super::walk::{
    WalkState, push_scope, pop_scope, bind, check_call, bind_pattern, bind_patterns, bind_opt_patterns,
    bind_params, bind_param_items, list_w, stmt_w, cases_w, decl_w, for_init_w, var_w, function_w, arrow_w,
    class_w, class_elems_w, exprs_w, props_w, elems_w, expr_w, chain_w, elem_w, arg_w, key_w, call_w, args_w,
    bind_names, bind_declarators, declarators_w, opt_expr_w, prop_w,
};

verus! {

/// Every report is of a Cypress rule.
pub open spec fn known(ds: Seq<Diagnostic>) -> bool {
    forall|i: int| 0 <= i < ds.len() ==> rule_names().contains((#[trigger] ds[i]).rule_name)
}

proof fn lemma_known_append(a: Seq<Diagnostic>, b: Seq<Diagnostic>)
    requires
        known(a),
        known(b),
    ensures
        known(a + b),
{
    assert forall|i: int| 0 <= i < (a + b).len() implies rule_names().contains((#[trigger] (a + b)[i]).rule_name) by {
        if i < a.len() {
            assert((a + b)[i] == a[i]);
        } else {
            assert((a + b)[i] == b[i - a.len()]);
        }
    }
}

/// Every rule that a call can report is a Cypress rule.
pub proof fn lemma_call_reports_known(
    t: Seq<char>,
    call: CallExpr,
    parent: ParentKind,
    prev: Option<Seq<char>>,
    scopes: Seq<Seq<(Seq<char>, ValueKind)>>,
    vars: Seq<Seq<char>>,
    extra: Seq<String>,
)
    ensures
        known(call_reports(t, call, parent, prev, scopes, vars, extra)),
{
    let r = rule_names();
    assert(r[0] == "assertion-before-screenshot");
    assert(r[1] == "no-and");
    assert(r[3] == "no-async-before");
    assert(r[4] == "no-async-tests");
    assert(r[5] == "no-chained-get");
    assert(r[6] == "no-debug");
    assert(r[7] == "no-force");
    assert(r[8] == "no-pause");
    assert(r[9] == "no-unnecessary-waiting");
    assert(r[10] == "no-xpath");
    assert(r[11] == "require-data-selectors");
    assert(r[12] == "unsafe-to-chain-command");
    let all = call_reports(t, call, parent, prev, scopes, vars, extra);
    assert forall|i: int| 0 <= i < all.len() implies r.contains((#[trigger] all[i]).rule_name) by {
        let n = all[i].rule_name;
        assert(n == "assertion-before-screenshot" || n == "no-and" || n == "no-async-before" || n == "no-async-tests"
            || n == "no-chained-get" || n == "no-debug" || n == "no-force" || n == "no-pause" || n == "no-unnecessary-waiting"
            || n == "no-xpath" || n == "require-data-selectors" || n == "unsafe-to-chain-command");
    }
}

/// The walk's state: the source, the reports so far, the scopes of bound
/// names (innermost last), the names that hold data selectors, and the
/// configured unsafe commands.
pub struct Scanner<'a> {
    pub t: &'a [char],
    pub diagnostics: Vec<Diagnostic>,
    pub scopes: Vec<Vec<(String, ValueKind)>>,
    pub data_selector_variables: Vec<String>,
    pub unsafe_to_chain_methods: Vec<String>,
}

/// The source's positions fit `u32`, and every report so far is of a
/// Cypress rule.
pub open spec fn scanner_wf(s: Scanner) -> bool {
    byte_len(s.t@) < u32::MAX && known(s.diagnostics@)
}

/// `b` is `a` further on: same source and options, still well formed.
pub open spec fn moved_on(a: Scanner, b: Scanner) -> bool {
    &&& scanner_wf(b)
    &&& b.t@ == a.t@
    &&& b.unsafe_to_chain_methods@ == a.unsafe_to_chain_methods@
}

/// The walk's state as values.
pub open spec fn walk_view(s: Scanner) -> WalkState {
    WalkState { diags: s.diagnostics@, scopes: scopes_view(s.scopes@), vars: names_view(s.data_selector_variables@) }
}

/// An optional name as characters.
pub open spec fn opt_view(o: Option<String>) -> Option<Seq<char>> {
    match o {
        Some(s) => Some(s@),
        None => None,
    }
}

/// A copy of an optional name.
fn clone_name(n: Option<&String>) -> (r: Option<String>)
    ensures
        match r {
            Some(s) => n matches Some(x) && s@ == x@,
            None => n is None,
        },
{
    match n {
        Some(s) => Some(s.clone()),
        None => None,
    }
}

impl<'a> Scanner<'a> {
    pub fn push_scope(&mut self)
        requires
            scanner_wf(*old(self)),
        ensures
            moved_on(*old(self), *final(self)),
            walk_view(*final(self)) == push_scope(walk_view(*old(self))),
    {
        self.scopes.push(Vec::new());
        proof {
            assert(bindings_view(Seq::<(String, ValueKind)>::empty()) =~= Seq::empty());
            assert(scopes_view(self.scopes@) =~= scopes_view(old(self).scopes@).push(Seq::empty()));
        }
    }

    fn pop_scope(&mut self)
        requires
            scanner_wf(*old(self)),
        ensures
            moved_on(*old(self), *final(self)),
            walk_view(*final(self)) == pop_scope(walk_view(*old(self))),
    {
        let _ = self.scopes.pop();
        proof {
            if old(self).scopes@.len() > 0 {
                assert(scopes_view(self.scopes@) =~= scopes_view(old(self).scopes@).drop_last());
            }
        }
    }

    /// Binds `name` in the innermost scope.
    fn bind_value(&mut self, name: &String, value: ValueKind)
        requires
            scanner_wf(*old(self)),
        ensures
            moved_on(*old(self), *final(self)),
            walk_view(*final(self)) == bind(walk_view(*old(self)), name@, value),
    {
        match self.scopes.pop() {
            Some(mut scope) => {
                let ghost before = scope@;
                scope.push((name.clone(), value));
                proof {
                    assert(bindings_view(scope@) =~= bindings_view(before).push((name@, value)));
                }
                self.scopes.push(scope);
                proof {
                    let o = scopes_view(old(self).scopes@);
                    assert(scopes_view(self.scopes@) =~= o.update(o.len() - 1, o.last().push((name@, value))));
                }
            },
            None => {},
        }
    }

    /// Appends the reports of the rules on a call.
    fn check_call(&mut self, call: &CallExpr, parent: ParentKind, prev: Option<&String>)
        requires
            scanner_wf(*old(self)),
        ensures
            moved_on(*old(self), *final(self)),
            final(self).diagnostics@ == old(self).diagnostics@ + call_reports(
                old(self).t@,
                *call,
                parent,
                opt_chars(prev),
                super::checks::scopes_view(old(self).scopes@),
                super::checks::names_view(old(self).data_selector_variables@),
                old(self).unsafe_to_chain_methods@,
            ),
            walk_view(*final(self)) == check_call(old(self).t@, old(self).unsafe_to_chain_methods@, walk_view(*old(self)), *call, parent, opt_chars(prev)),
    {
        let ghost before = self.diagnostics@;
        check_call_rules(self.t, call, parent, prev, &self.scopes, &self.data_selector_variables, &self.unsafe_to_chain_methods, &mut self.diagnostics);
        proof {
            lemma_call_reports_known(self.t@, *call, parent, opt_chars(prev), super::checks::scopes_view(self.scopes@), super::checks::names_view(self.data_selector_variables@), self.unsafe_to_chain_methods@);
            lemma_known_append(before, call_reports(self.t@, *call, parent, opt_chars(prev), super::checks::scopes_view(self.scopes@), super::checks::names_view(self.data_selector_variables@), self.unsafe_to_chain_methods@));
        }
    }

    /// Binds the names of a pattern to `value`; a default that is a number
    /// makes its names numbers.
    fn bind_pattern(&mut self, pattern: &Pattern, value: ValueKind)
        requires
            scanner_wf(*old(self)),
        ensures
            moved_on(*old(self), *final(self)),
            walk_view(*final(self)) == bind_pattern(walk_view(*old(self)), *pattern, value),
        decreases pattern,
    {
        match pattern {
            Pattern::Ident(name) => self.bind_value(name, value),
            Pattern::Object { properties, rest } => {
                self.bind_patterns(properties, value);
                match rest {
                    Some(r) => self.bind_pattern(r, value),
                    None => {},
                }
            },
            Pattern::Array { elements, rest } => {
                self.bind_optional_patterns(elements, value);
                match rest {
                    Some(r) => self.bind_pattern(r, value),
                    None => {},
                }
            },
            Pattern::Assign { left, right } => {
                let v = if is_numeric_expression(right) { ValueKind::Number } else { value };
                self.bind_pattern(left, v);
            },
        }
    }

    fn bind_patterns(&mut self, patterns: &Vec<Pattern>, value: ValueKind)
        requires
            scanner_wf(*old(self)),
        ensures
            moved_on(*old(self), *final(self)),
            walk_view(*final(self)) == bind_patterns(walk_view(*old(self)), patterns@, value),
        decreases patterns,
    {
        let mut i: usize = 0;
        while i < patterns.len()
            invariant
                i <= patterns@.len(),
                moved_on(*old(self), *self),
                walk_view(*self) == bind_patterns(walk_view(*old(self)), patterns@.take(i as int), value),
            decreases patterns@.len() - i,
        {
            self.bind_pattern(&patterns[i], value);
            proof {
                assert(patterns@.take(i + 1).drop_last() =~= patterns@.take(i as int));
            }
            i = i + 1;
        }
        proof {
            assert(patterns@.take(i as int) =~= patterns@);
        }
    }

    fn bind_optional_patterns(&mut self, patterns: &Vec<Option<Pattern>>, value: ValueKind)
        requires
            scanner_wf(*old(self)),
        ensures
            moved_on(*old(self), *final(self)),
            walk_view(*final(self)) == bind_opt_patterns(walk_view(*old(self)), patterns@, value),
        decreases patterns,
    {
        let mut i: usize = 0;
        while i < patterns.len()
            invariant
                i <= patterns@.len(),
                moved_on(*old(self), *self),
                walk_view(*self) == bind_opt_patterns(walk_view(*old(self)), patterns@.take(i as int), value),
            decreases patterns@.len() - i,
        {
            match &patterns[i] {
                Some(p) => self.bind_pattern(p, value),
                None => {},
            }
            proof {
                assert(patterns@.take(i + 1).drop_last() =~= patterns@.take(i as int));
            }
            i = i + 1;
        }
        proof {
            assert(patterns@.take(i as int) =~= patterns@);
        }
    }

    /// Binds a function's parameters; one whose default is a number is a
    /// number.
    fn bind_function_params(&mut self, params: &Params)
        requires
            scanner_wf(*old(self)),
        ensures
            moved_on(*old(self), *final(self)),
            walk_view(*final(self)) == bind_params(walk_view(*old(self)), *params),
    {
        let mut i: usize = 0;
        while i < params.items.len()
            invariant
                i <= params.items@.len(),
                moved_on(*old(self), *self),
                walk_view(*self) == bind_param_items(walk_view(*old(self)), params.items@.take(i as int)),
            decreases params.items@.len() - i,
        {
            proof {
                assert(params.items@.take(i + 1).drop_last() =~= params.items@.take(i as int));
            }
            let param = &params.items[i];
            let value = match &param.initializer {
                Some(init) => if is_numeric_expression(init) { ValueKind::Number } else { ValueKind::Other },
                None => ValueKind::Other,
            };
            self.bind_pattern(&param.pattern, value);
            i = i + 1;
        }
        proof {
            assert(params.items@.take(i as int) =~= params.items@);
        }
        match &params.rest {
            Some(r) => self.bind_pattern(r, ValueKind::Other),
            None => {},
        }
    }

    /// Walks a list of statements; the command of each statement is the
    /// previous command of the next. A function body starts afresh.
    pub fn scan_statement_list(&mut self, statements: &Vec<Stmt>, inherited: Option<&String>, function_body: bool) -> (r: Option<String>)
        requires
            scanner_wf(*old(self)),
        ensures
            moved_on(*old(self), *final(self)),
            walk_view(*final(self)) == list_w(old(self).t@, old(self).unsafe_to_chain_methods@, walk_view(*old(self)), statements@, if function_body { None } else { opt_chars(inherited) }).0,
            opt_view(r) == list_w(old(self).t@, old(self).unsafe_to_chain_methods@, walk_view(*old(self)), statements@, if function_body { None } else { opt_chars(inherited) }).1,
        decreases statements,
    {
        let mut previous: Option<String> = if function_body { None } else { clone_name(inherited) };
        let ghost start = if function_body { None } else { opt_chars(inherited) };
        let mut i: usize = 0;
        while i < statements.len()
            invariant
                i <= statements@.len(),
                moved_on(*old(self), *self),
                (walk_view(*self), opt_view(previous)) == list_w(old(self).t@, old(self).unsafe_to_chain_methods@, walk_view(*old(self)), statements@.take(i as int), start),
            decreases statements@.len() - i,
        {
            let p = previous.as_ref();
            assert(opt_chars(p) == opt_view(previous));
            previous = self.scan_statement(&statements[i], p);
            proof {
                assert(statements@.take(i + 1).drop_last() =~= statements@.take(i as int));
            }
            i = i + 1;
        }
        proof {
            assert(statements@.take(i as int) =~= statements@);
        }
        previous
    }

    /// Walks a statement; gives the command it ends with, if it is a
    /// Cypress command statement.
    fn scan_statement(&mut self, statement: &Stmt, prev: Option<&String>) -> (r: Option<String>)
        requires
            scanner_wf(*old(self)),
        ensures
            moved_on(*old(self), *final(self)),
            walk_view(*final(self)) == stmt_w(old(self).t@, old(self).unsafe_to_chain_methods@, walk_view(*old(self)), *statement, opt_chars(prev)).0,
            opt_view(r) == stmt_w(old(self).t@, old(self).unsafe_to_chain_methods@, walk_view(*old(self)), *statement, opt_chars(prev)).1,
        decreases statement,
    {
        match statement {
            Stmt::Expression(e) => {
                self.scan_expression(e, ParentKind::Top, prev);
                clone_name(expression_cypress_command(e))
            },
            Stmt::Block(body) => {
                self.push_scope();
                self.scan_statement_list(body, prev, false);
                self.pop_scope();
                None
            },
            Stmt::If { test, consequent, alternate } => {
                self.scan_expression(test, ParentKind::Other, prev);
                self.scan_statement(consequent, prev);
                match alternate {
                    Some(a) => {
                        self.scan_statement(a, prev);
                    },
                    None => {},
                }
                None
            },
            Stmt::Var(declaration) => {
                self.scan_variable_declaration(declaration, prev);
                None
            },
            Stmt::Function(function) => {
                match &function.id {
                    Some(id) => self.bind_value(id, ValueKind::Other),
                    None => {},
                }
                self.scan_function(function);
                None
            },
            Stmt::Class(class) => {
                match &class.id {
                    Some(id) => self.bind_value(id, ValueKind::Other),
                    None => {},
                }
                self.scan_class(class, prev);
                None
            },
            Stmt::Import { locals } => {
                let mut i: usize = 0;
                while i < locals.len()
                    invariant
                        i <= locals@.len(),
                        moved_on(*old(self), *self),
                        walk_view(*self) == bind_names(walk_view(*old(self)), locals@.take(i as int)),
                    decreases locals@.len() - i,
                {
                    self.bind_value(&locals[i], ValueKind::Other);
                    proof {
                        assert(locals@.take(i + 1).drop_last() =~= locals@.take(i as int));
                    }
                    i = i + 1;
                }
                proof {
                    assert(locals@.take(i as int) =~= locals@);
                }
                None
            },
            Stmt::ExportNamed { declaration } => {
                match declaration {
                    Some(d) => self.scan_declaration(d, prev),
                    None => {},
                }
                None
            },
            Stmt::ExportDefault(d) => {
                match d {
                    DefaultExport::Function(function) => self.scan_function(function),
                    DefaultExport::Class(class) => self.scan_class(class, prev),
                    DefaultExport::Expr(e) => self.scan_expression(e, ParentKind::Top, prev),
                    DefaultExport::Other => {},
                }
                None
            },
            Stmt::Return(argument) => {
                match argument {
                    Some(a) => self.scan_expression(a, ParentKind::Other, prev),
                    None => {},
                }
                assert(walk_view(*self) == opt_expr_w(old(self).t@, old(self).unsafe_to_chain_methods@, walk_view(*old(self)), *argument, opt_chars(prev)));
                None
            },
            Stmt::Throw(e) => {
                self.scan_expression(e, ParentKind::Other, prev);
                None
            },
            Stmt::While { test, body } => {
                self.scan_expression(test, ParentKind::Other, prev);
                self.scan_statement(body, prev);
                None
            },
            Stmt::DoWhile { body, test } => {
                self.scan_statement(body, prev);
                self.scan_expression(test, ParentKind::Other, prev);
                None
            },
            Stmt::For { init, test, update, body } => {
                self.push_scope();
                match init {
                    Some(i) => self.scan_for_statement_init(i, prev),
                    None => {},
                }
                let ghost s1 = walk_view(*self);
                match test {
                    Some(e) => self.scan_expression(e, ParentKind::Other, prev),
                    None => {},
                }
                assert(walk_view(*self) == opt_expr_w(old(self).t@, old(self).unsafe_to_chain_methods@, s1, *test, opt_chars(prev)));
                let ghost s2 = walk_view(*self);
                match update {
                    Some(e) => self.scan_expression(e, ParentKind::Other, prev),
                    None => {},
                }
                assert(walk_view(*self) == opt_expr_w(old(self).t@, old(self).unsafe_to_chain_methods@, s2, *update, opt_chars(prev)));
                self.scan_statement(body, prev);
                self.pop_scope();
                None
            },
            Stmt::ForInOf { left, right, body } => {
                self.push_scope();
                match left {
                    Some(declaration) => {
                        let mut i: usize = 0;
                        while i < declaration.declarations.len()
                            invariant
                                i <= declaration.declarations@.len(),
                                moved_on(*old(self), *self),
                                walk_view(*self) == bind_declarators(push_scope(walk_view(*old(self))), declaration.declarations@.take(i as int)),
                            decreases declaration.declarations@.len() - i,
                        {
                            self.bind_pattern(&declaration.declarations[i].id, ValueKind::Other);
                            proof {
                                assert(declaration.declarations@.take(i + 1).drop_last() =~= declaration.declarations@.take(i as int));
                            }
                            i = i + 1;
                        }
                        proof {
                            assert(declaration.declarations@.take(i as int) =~= declaration.declarations@);
                        }
                    },
                    None => {},
                }
                self.scan_expression(right, ParentKind::Other, prev);
                self.scan_statement(body, prev);
                self.pop_scope();
                None
            },
            Stmt::Switch { discriminant, cases } => {
                self.scan_expression(discriminant, ParentKind::Other, prev);
                self.push_scope();
                self.scan_cases(cases, prev);
                self.pop_scope();
                None
            },
            Stmt::Try { block, handler, finalizer } => {
                self.scan_statement_list(block, prev, false);
                match handler {
                    Some(h) => {
                        self.push_scope();
                        match &h.param {
                            Some(p) => self.bind_pattern(p, ValueKind::Other),
                            None => {},
                        }
                        self.scan_statement_list(&h.body, None, false);
                        self.pop_scope();
                    },
                    None => {},
                }
                match finalizer {
                    Some(f) => {
                        self.scan_statement_list(f, None, false);
                    },
                    None => {},
                }
                None
            },
            Stmt::Labeled(body) => {
                self.scan_statement(body, prev);
                None
            },
            Stmt::With { object, body } => {
                self.scan_expression(object, ParentKind::Other, prev);
                self.scan_statement(body, prev);
                None
            },
            Stmt::ExportAssignment(e) => {
                self.scan_expression(e, ParentKind::Other, prev);
                None
            },
            Stmt::Other => None,
        }
    }

    fn scan_cases(&mut self, cases: &Vec<super::ast::SwitchCase>, prev: Option<&String>)
        requires
            scanner_wf(*old(self)),
        ensures
            moved_on(*old(self), *final(self)),
            walk_view(*final(self)) == cases_w(old(self).t@, old(self).unsafe_to_chain_methods@, walk_view(*old(self)), cases@, opt_chars(prev)),
        decreases cases,
    {
        let mut i: usize = 0;
        while i < cases.len()
            invariant
                i <= cases@.len(),
                moved_on(*old(self), *self),
                walk_view(*self) == cases_w(old(self).t@, old(self).unsafe_to_chain_methods@, walk_view(*old(self)), cases@.take(i as int), opt_chars(prev)),
            decreases cases@.len() - i,
        {
            let ghost s0 = walk_view(*self);
            match &cases[i].test {
                Some(e) => self.scan_expression(e, ParentKind::Other, prev),
                None => {},
            }
            assert(walk_view(*self) == opt_expr_w(old(self).t@, old(self).unsafe_to_chain_methods@, s0, cases@[i as int].test, opt_chars(prev)));
            self.scan_statement_list(&cases[i].consequent, None, false);
            proof {
                assert(cases@.take(i + 1).drop_last() =~= cases@.take(i as int));
            }
            i = i + 1;
        }
        proof {
            assert(cases@.take(i as int) =~= cases@);
        }
    }

    fn scan_declaration(&mut self, declaration: &Decl, prev: Option<&String>)
        requires
            scanner_wf(*old(self)),
        ensures
            moved_on(*old(self), *final(self)),
            walk_view(*final(self)) == decl_w(old(self).t@, old(self).unsafe_to_chain_methods@, walk_view(*old(self)), *declaration, opt_chars(prev)),
        decreases declaration,
    {
        match declaration {
            Decl::Var(d) => self.scan_variable_declaration(d, prev),
            Decl::Function(function) => {
                match &function.id {
                    Some(id) => self.bind_value(id, ValueKind::Other),
                    None => {},
                }
                self.scan_function(function);
            },
            Decl::Class(class) => {
                match &class.id {
                    Some(id) => self.bind_value(id, ValueKind::Other),
                    None => {},
                }
                self.scan_class(class, prev);
            },
            Decl::Other => {},
        }
    }

    fn scan_for_statement_init(&mut self, init: &ForInit, prev: Option<&String>)
        requires
            scanner_wf(*old(self)),
        ensures
            moved_on(*old(self), *final(self)),
            walk_view(*final(self)) == for_init_w(old(self).t@, old(self).unsafe_to_chain_methods@, walk_view(*old(self)), *init, opt_chars(prev)),
        decreases init,
    {
        match init {
            ForInit::Var(d) => self.scan_variable_declaration(d, prev),
            ForInit::Expr(e) => match e {
                Expr::Call(call) => self.scan_call_expression(call, ParentKind::Other, prev),
                Expr::StaticMember { object, .. } => self.scan_expression(object, ParentKind::MemberObject, prev),
                Expr::ComputedMember { object, expression } => {
                    self.scan_expression(object, ParentKind::MemberObject, prev);
                    self.scan_expression(expression, ParentKind::Other, prev);
                },
                Expr::Assignment { right } => self.scan_expression(right, ParentKind::Other, prev),
                Expr::Sequence { expressions } => self.scan_expressions(expressions, prev),
                _ => {},
            },
        }
    }

    /// Walks a declaration: an initializer that is a Cypress command chain
    /// (not one of the assignable commands) is reported; names bound to
    /// data selectors are remembered; numbers are bound as numbers.
    fn scan_variable_declaration(&mut self, declaration: &VarDecl, prev: Option<&String>)
        requires
            scanner_wf(*old(self)),
        ensures
            moved_on(*old(self), *final(self)),
            walk_view(*final(self)) == var_w(old(self).t@, old(self).unsafe_to_chain_methods@, walk_view(*old(self)), *declaration, opt_chars(prev)),
        decreases declaration,
    {
        if any_command_declarator(&declaration.declarations) {
            let d = report_exec(self.t, "no-assigning-return-values", declaration.span);
            self.push_report(d);
        }
        let ghost s1 = walk_view(*self);
        let mut i: usize = 0;
        while i < declaration.declarations.len()
            invariant
                i <= declaration.declarations@.len(),
                moved_on(*old(self), *self),
                walk_view(*self) == declarators_w(old(self).t@, old(self).unsafe_to_chain_methods@, s1, declaration.declarations@.take(i as int), opt_chars(prev)),
            decreases declaration.declarations@.len() - i,
        {
            proof {
                assert(declaration.declarations@.take(i + 1).drop_last() =~= declaration.declarations@.take(i as int));
            }
            let declarator = &declaration.declarations[i];
            match &declarator.init {
                Some(init) => {
                    match &declarator.id {
                        Pattern::Ident(name) => {
                            if is_data_node_expression(init, &self.data_selector_variables) {
                                let ghost before = self.data_selector_variables@;
                                self.data_selector_variables.push(name.clone());
                                proof {
                                    assert(names_view(self.data_selector_variables@) =~= names_view(before).push(name@));
                                }
                            }
                        },
                        _ => {},
                    }
                    let value = if is_numeric_expression(init) { ValueKind::Number } else { ValueKind::Other };
                    self.bind_pattern(&declarator.id, value);
                    self.scan_expression(init, ParentKind::Other, prev);
                },
                None => self.bind_pattern(&declarator.id, ValueKind::Other),
            }
            i = i + 1;
        }
        proof {
            assert(declaration.declarations@.take(i as int) =~= declaration.declarations@);
        }
    }

    /// Appends a report of a Cypress rule.
    fn push_report(&mut self, d: Diagnostic)
        requires
            scanner_wf(*old(self)),
            rule_names().contains(d.rule_name),
        ensures
            moved_on(*old(self), *final(self)),
            walk_view(*final(self)) == (WalkState { diags: walk_view(*old(self)).diags.push(d), ..walk_view(*old(self)) }),
    {
        let ghost before = self.diagnostics@;
        self.diagnostics.push(d);
        proof {
            assert(known(seq![d]));
            lemma_known_append(before, seq![d]);
            assert(self.diagnostics@ == before + seq![d]);
        }
    }

    fn scan_function(&mut self, function: &Function)
        requires
            scanner_wf(*old(self)),
        ensures
            moved_on(*old(self), *final(self)),
            walk_view(*final(self)) == function_w(old(self).t@, old(self).unsafe_to_chain_methods@, walk_view(*old(self)), *function),
        decreases function,
    {
        self.push_scope();
        self.bind_function_params(&function.params);
        match &function.body {
            Some(body) => {
                self.scan_statement_list(body, None, true);
            },
            None => {},
        }
        self.pop_scope();
    }

    fn scan_arrow_function(&mut self, function: &ArrowFunction)
        requires
            scanner_wf(*old(self)),
        ensures
            moved_on(*old(self), *final(self)),
            walk_view(*final(self)) == arrow_w(old(self).t@, old(self).unsafe_to_chain_methods@, walk_view(*old(self)), *function),
        decreases function,
    {
        self.push_scope();
        self.bind_function_params(&function.params);
        self.scan_statement_list(&function.body, None, true);
        self.pop_scope();
    }

    fn scan_class(&mut self, class: &Class, prev: Option<&String>)
        requires
            scanner_wf(*old(self)),
        ensures
            moved_on(*old(self), *final(self)),
            walk_view(*final(self)) == class_w(old(self).t@, old(self).unsafe_to_chain_methods@, walk_view(*old(self)), *class, opt_chars(prev)),
        decreases class,
    {
        match &class.super_class {
            Some(e) => self.scan_expression(e, ParentKind::Other, prev),
            None => {},
        }
        let ghost s0 = walk_view(*self);
        let mut i: usize = 0;
        while i < class.elements.len()
            invariant
                i <= class.elements@.len(),
                moved_on(*old(self), *self),
                walk_view(*self) == class_elems_w(old(self).t@, old(self).unsafe_to_chain_methods@, s0, class.elements@.take(i as int), opt_chars(prev)),
            decreases class.elements@.len() - i,
        {
            proof {
                assert(class.elements@.take(i + 1).drop_last() =~= class.elements@.take(i as int));
            }
            match &class.elements[i] {
                ClassElem::StaticBlock(body) => {
                    self.scan_statement_list(body, None, false);
                },
                ClassElem::Method(function) => self.scan_function(function),
                ClassElem::Property(value) => match value {
                    Some(v) => self.scan_expression(v, ParentKind::Other, prev),
                    None => {},
                },
                ClassElem::Accessor(value) => match value {
                    Some(v) => self.scan_expression(v, ParentKind::Other, prev),
                    None => {},
                },
                ClassElem::Other => {},
            }
            i = i + 1;
        }
        proof {
            assert(class.elements@.take(i as int) =~= class.elements@);
        }
    }

    fn scan_expressions(&mut self, expressions: &Vec<Expr>, prev: Option<&String>)
        requires
            scanner_wf(*old(self)),
        ensures
            moved_on(*old(self), *final(self)),
            walk_view(*final(self)) == exprs_w(old(self).t@, old(self).unsafe_to_chain_methods@, walk_view(*old(self)), expressions@, opt_chars(prev)),
        decreases expressions,
    {
        let mut i: usize = 0;
        while i < expressions.len()
            invariant
                i <= expressions@.len(),
                moved_on(*old(self), *self),
                walk_view(*self) == exprs_w(old(self).t@, old(self).unsafe_to_chain_methods@, walk_view(*old(self)), expressions@.take(i as int), opt_chars(prev)),
            decreases expressions@.len() - i,
        {
            proof {
                assert(expressions@.take(i + 1).drop_last() =~= expressions@.take(i as int));
            }
            self.scan_expression(&expressions[i], ParentKind::Other, prev);
            i = i + 1;
        }
        proof {
            assert(expressions@.take(i as int) =~= expressions@);
        }
    }

    /// Walks object members: values, and, when `full`, computed keys and
    /// spreads.
    fn scan_properties(&mut self, properties: &Vec<Property>, full: bool, prev: Option<&String>)
        requires
            scanner_wf(*old(self)),
        ensures
            moved_on(*old(self), *final(self)),
            walk_view(*final(self)) == props_w(old(self).t@, old(self).unsafe_to_chain_methods@, walk_view(*old(self)), properties@, full, opt_chars(prev)),
        decreases properties,
    {
        let mut i: usize = 0;
        while i < properties.len()
            invariant
                i <= properties@.len(),
                moved_on(*old(self), *self),
                walk_view(*self) == props_w(old(self).t@, old(self).unsafe_to_chain_methods@, walk_view(*old(self)), properties@.take(i as int), full, opt_chars(prev)),
            decreases properties@.len() - i,
        {
            proof {
                assert(properties@.take(i + 1).drop_last() =~= properties@.take(i as int));
            }
            let ghost s0 = walk_view(*self);
            match &properties[i] {
                Property::Property { key, computed, value } => {
                    if full && *computed {
                        self.scan_property_key(key, prev);
                    }
                    self.scan_expression(value, ParentKind::Other, prev);
                },
                Property::Spread(argument) => {
                    if full {
                        self.scan_expression(argument, ParentKind::Other, prev);
                    }
                },
            }
            assert(walk_view(*self) == prop_w(old(self).t@, old(self).unsafe_to_chain_methods@, s0, properties@[i as int], full, opt_chars(prev)));
            i = i + 1;
        }
        proof {
            assert(properties@.take(i as int) =~= properties@);
        }
    }

    fn scan_array_elements(&mut self, elements: &Vec<ArrayElem>, prev: Option<&String>)
        requires
            scanner_wf(*old(self)),
        ensures
            moved_on(*old(self), *final(self)),
            walk_view(*final(self)) == elems_w(old(self).t@, old(self).unsafe_to_chain_methods@, walk_view(*old(self)), elements@, opt_chars(prev)),
        decreases elements,
    {
        let mut i: usize = 0;
        while i < elements.len()
            invariant
                i <= elements@.len(),
                moved_on(*old(self), *self),
                walk_view(*self) == elems_w(old(self).t@, old(self).unsafe_to_chain_methods@, walk_view(*old(self)), elements@.take(i as int), opt_chars(prev)),
            decreases elements@.len() - i,
        {
            proof {
                assert(elements@.take(i + 1).drop_last() =~= elements@.take(i as int));
            }
            self.scan_array_element(&elements[i], prev);
            i = i + 1;
        }
        proof {
            assert(elements@.take(i as int) =~= elements@);
        }
    }

    /// Walks an expression.
    fn scan_expression(&mut self, expression: &Expr, parent: ParentKind, prev: Option<&String>)
        requires
            scanner_wf(*old(self)),
        ensures
            moved_on(*old(self), *final(self)),
            walk_view(*final(self)) == expr_w(old(self).t@, old(self).unsafe_to_chain_methods@, walk_view(*old(self)), *expression, parent, opt_chars(prev)),
        decreases expression,
    {
        match expression {
            Expr::Call(call) => self.scan_call_expression(call, parent, prev),
            Expr::StaticMember { object, .. } => self.scan_expression(object, ParentKind::MemberObject, prev),
            Expr::ComputedMember { object, expression } => {
                self.scan_expression(object, ParentKind::MemberObject, prev);
                self.scan_expression(expression, ParentKind::Other, prev);
            },
            Expr::Chain { element } => self.scan_chain_element(element, parent, prev),
            Expr::Wrapped { expression } => self.scan_expression(expression, parent, prev),
            Expr::Await { argument } => self.scan_expression(argument, ParentKind::Other, prev),
            Expr::Array { elements } => self.scan_array_elements(elements, prev),
            Expr::Object { properties } => self.scan_properties(properties, true, prev),
            Expr::Arrow(function) => self.scan_arrow_function(function),
            Expr::Function(function) => self.scan_function(function),
            Expr::Class(class) => self.scan_class(class, prev),
            Expr::Assignment { right } => self.scan_expression(right, ParentKind::Other, prev),
            Expr::Conditional { test, consequent, alternate } => {
                self.scan_expression(test, ParentKind::Other, prev);
                self.scan_expression(consequent, ParentKind::Other, prev);
                self.scan_expression(alternate, ParentKind::Other, prev);
            },
            Expr::Binary { left, right } => {
                self.scan_expression(left, ParentKind::Other, prev);
                self.scan_expression(right, ParentKind::Other, prev);
            },
            Expr::Sequence { expressions } => self.scan_expressions(expressions, prev),
            Expr::Unary { argument } => self.scan_expression(argument, ParentKind::Other, prev),
            Expr::Yield { argument } => match argument {
                Some(a) => self.scan_expression(a, ParentKind::Other, prev),
                None => {},
            },
            Expr::TaggedTemplate { tag, expressions } => {
                self.scan_expression(tag, ParentKind::Other, prev);
                self.scan_expressions(expressions, prev);
            },
            Expr::TemplateLiteral { expressions, .. } => self.scan_expressions(expressions, prev),
            Expr::Import { source, options } => {
                self.scan_expression(source, ParentKind::Other, prev);
                match options {
                    Some(o) => self.scan_expression(o, ParentKind::Other, prev),
                    None => {},
                }
            },
            _ => {},
        }
    }

    /// Walks the element of an optional chain.
    fn scan_chain_element(&mut self, element: &Expr, parent: ParentKind, prev: Option<&String>)
        requires
            scanner_wf(*old(self)),
        ensures
            moved_on(*old(self), *final(self)),
            walk_view(*final(self)) == chain_w(old(self).t@, old(self).unsafe_to_chain_methods@, walk_view(*old(self)), *element, parent, opt_chars(prev)),
        decreases element,
    {
        match element {
            Expr::Call(call) => self.scan_call_expression(call, parent, prev),
            Expr::StaticMember { object, .. } => self.scan_expression(object, ParentKind::MemberObject, prev),
            Expr::ComputedMember { object, expression } => {
                self.scan_expression(object, ParentKind::MemberObject, prev);
                self.scan_expression(expression, ParentKind::Other, prev);
            },
            Expr::Wrapped { expression } => self.scan_expression(expression, parent, prev),
            Expr::PrivateField { object } => self.scan_expression(object, ParentKind::MemberObject, prev),
            _ => {},
        }
    }

    /// Walks an array element: spreads, calls, members, functions, the
    /// values of object members, nested arrays and conditionals.
    fn scan_array_element(&mut self, element: &ArrayElem, prev: Option<&String>)
        requires
            scanner_wf(*old(self)),
        ensures
            moved_on(*old(self), *final(self)),
            walk_view(*final(self)) == elem_w(old(self).t@, old(self).unsafe_to_chain_methods@, walk_view(*old(self)), *element, opt_chars(prev)),
        decreases element,
    {
        match element {
            ArrayElem::Spread(e) => self.scan_expression(e, ParentKind::Other, prev),
            ArrayElem::Expr(e) => match e {
                Expr::Call(call) => self.scan_call_expression(call, ParentKind::Other, prev),
                Expr::StaticMember { object, .. } => self.scan_expression(object, ParentKind::MemberObject, prev),
                Expr::ComputedMember { object, expression } => {
                    self.scan_expression(object, ParentKind::MemberObject, prev);
                    self.scan_expression(expression, ParentKind::Other, prev);
                },
                Expr::Arrow(function) => self.scan_arrow_function(function),
                Expr::Function(function) => self.scan_function(function),
                Expr::Object { properties } => self.scan_properties(properties, false, prev),
                Expr::Array { elements } => self.scan_array_elements(elements, prev),
                Expr::Conditional { test, consequent, alternate } => {
                    self.scan_expression(test, ParentKind::Other, prev);
                    self.scan_expression(consequent, ParentKind::Other, prev);
                    self.scan_expression(alternate, ParentKind::Other, prev);
                },
                _ => {},
            },
            ArrayElem::Elision => {},
        }
    }

    /// Walks a call argument.
    fn scan_argument(&mut self, argument: &Arg, prev: Option<&String>)
        requires
            scanner_wf(*old(self)),
        ensures
            moved_on(*old(self), *final(self)),
            walk_view(*final(self)) == arg_w(old(self).t@, old(self).unsafe_to_chain_methods@, walk_view(*old(self)), *argument, opt_chars(prev)),
        decreases argument,
    {
        match argument {
            Arg::Spread(e) => self.scan_expression(e, ParentKind::Other, prev),
            Arg::Expr(e) => match e {
                Expr::Call(call) => self.scan_call_expression(call, ParentKind::Other, prev),
                Expr::StaticMember { object, .. } => self.scan_expression(object, ParentKind::MemberObject, prev),
                Expr::ComputedMember { object, expression } => {
                    self.scan_expression(object, ParentKind::MemberObject, prev);
                    self.scan_expression(expression, ParentKind::Other, prev);
                },
                Expr::Arrow(function) => self.scan_arrow_function(function),
                Expr::Function(function) => self.scan_function(function),
                Expr::Object { properties } => self.scan_properties(properties, true, prev),
                Expr::Array { elements } => self.scan_array_elements(elements, prev),
                Expr::Conditional { test, consequent, alternate } => {
                    self.scan_expression(test, ParentKind::Other, prev);
                    self.scan_expression(consequent, ParentKind::Other, prev);
                    self.scan_expression(alternate, ParentKind::Other, prev);
                },
                Expr::Await { argument } => self.scan_expression(argument, ParentKind::Other, prev),
                Expr::Sequence { expressions } => self.scan_expressions(expressions, prev),
                Expr::TaggedTemplate { tag, expressions } => {
                    self.scan_expression(tag, ParentKind::Other, prev);
                    self.scan_expressions(expressions, prev);
                },
                Expr::TemplateLiteral { expressions, .. } => self.scan_expressions(expressions, prev),
                _ => {},
            },
        }
    }

    /// Walks a computed member key.
    fn scan_property_key(&mut self, key: &PropKey, prev: Option<&String>)
        requires
            scanner_wf(*old(self)),
        ensures
            moved_on(*old(self), *final(self)),
            walk_view(*final(self)) == key_w(old(self).t@, old(self).unsafe_to_chain_methods@, walk_view(*old(self)), *key, opt_chars(prev)),
        decreases key,
    {
        match key {
            PropKey::Expr(e) => match e {
                Expr::Call(call) => self.scan_call_expression(call, ParentKind::Other, prev),
                Expr::StaticMember { object, .. } => self.scan_expression(object, ParentKind::MemberObject, prev),
                Expr::ComputedMember { object, expression } => {
                    self.scan_expression(object, ParentKind::MemberObject, prev);
                    self.scan_expression(expression, ParentKind::Other, prev);
                },
                Expr::TemplateLiteral { expressions, .. } => self.scan_expressions(expressions, prev),
                _ => {},
            },
            PropKey::Static(_) => {},
        }
    }

    /// Checks the rules on a call, then walks its callee and arguments.
    fn scan_call_expression(&mut self, call: &CallExpr, parent: ParentKind, prev: Option<&String>)
        requires
            scanner_wf(*old(self)),
        ensures
            moved_on(*old(self), *final(self)),
            walk_view(*final(self)) == call_w(old(self).t@, old(self).unsafe_to_chain_methods@, walk_view(*old(self)), *call, parent, opt_chars(prev)),
        decreases call,
    {
        self.check_call(call, parent, prev);
        self.scan_expression(&call.callee, ParentKind::Other, prev);
        let ghost s0 = walk_view(*self);
        let mut i: usize = 0;
        while i < call.arguments.len()
            invariant
                i <= call.arguments@.len(),
                moved_on(*old(self), *self),
                walk_view(*self) == args_w(old(self).t@, old(self).unsafe_to_chain_methods@, s0, call.arguments@.take(i as int), opt_chars(prev)),
            decreases call.arguments@.len() - i,
        {
            proof {
                assert(call.arguments@.take(i + 1).drop_last() =~= call.arguments@.take(i as int));
            }
            self.scan_argument(&call.arguments[i], prev);
            i = i + 1;
        }
        proof {
            assert(call.arguments@.take(i as int) =~= call.arguments@);
        }
    }
}

/// Whether some declarator's initializer is a Cypress command chain that
/// may not be assigned.
fn any_command_declarator(ds: &Vec<super::ast::Declarator>) -> (r: bool)
    ensures
        r == exists|i: int| 0 <= i < ds@.len() && assigns_command((#[trigger] ds@[i]).init),
{
    let mut i: usize = 0;
    while i < ds.len()
        invariant
            i <= ds@.len(),
            forall|k: int| 0 <= k < i ==> !assigns_command((#[trigger] ds@[k]).init),
        decreases ds@.len() - i,
    {
        if is_cypress_command_declaration(&ds[i].init) {
            return true;
        }
        i = i + 1;
    }
    false
}

/// Whether an expression (inside any wrappers) is a number literal.
pub fn is_numeric_expression(e: &Expr) -> (r: bool)
    ensures
        r == (super::ast::inner(*e) matches Expr::NumericLiteral),
{
    match get_inner_expression(e) {
        Expr::NumericLiteral => true,
        _ => false,
    }
}

/// Whether an initializer is a chain of Cypress commands that starts at
/// `cy`, neither its first nor its last command being an assignable one.
pub open spec fn assigns_command(init: Option<Expr>) -> bool {
    match init {
        Some(e) => match super::ast::inner(e) {
            Expr::Call(call) => match super::calls::command_chain(*call) {
                Some(c) => !(super::checks::assignment_allowed_commands().contains(c[0])
                    || super::checks::assignment_allowed_commands().contains(c.last())),
                None => false,
            },
            _ => false,
        },
        None => false,
    }
}

/// Whether an initializer is a chain of Cypress commands that starts at
/// `cy`, neither its first nor its last command being an assignable one.
pub fn is_cypress_command_declaration(init: &Option<Expr>) -> (r: bool)
    ensures
        r == assigns_command(*init),
{
    let e = match init {
        Some(e) => e,
        None => {
            return false;
        },
    };
    let call = match get_inner_expression(e) {
        Expr::Call(call) => call,
        _ => {
            return false;
        },
    };
    match cypress_command_names(call) {
        Some((first, last)) => !(super::checks::is_assignment_allowed_command(first)
            || super::checks::is_assignment_allowed_command(last)),
        None => false,
    }
}

/// The command a statement's expression ends with, when it is a call of a
/// chain rooted at `cy`.
pub open spec fn statement_command(e: Expr) -> Option<Seq<char>> {
    match super::ast::inner(e) {
        Expr::Call(call) => if super::calls::rooted_at_cy(*call) {
            super::calls::command_of(*call)
        } else {
            None
        },
        _ => None,
    }
}

/// The command a statement's expression ends with, when it is a call of a
/// chain rooted at `cy`.
pub fn expression_cypress_command(e: &Expr) -> (r: Option<&String>)
    ensures
        opt_chars(r) == statement_command(*e),
{
    match get_inner_expression(e) {
        Expr::Call(call) => if is_root_cypress_call(call) {
            call_static_member_name(call)
        } else {
            None
        },
        _ => None,
    }
}

/// A report of `rule` at `span`.
fn report_exec(t: &[char], rule: &'static str, span: super::ast::Span) -> (r: Diagnostic)
    requires
        byte_len(t@) < u32::MAX,
    ensures
        r == report_at(t@, rule, span),
{
    Diagnostic { rule_name: rule, message_id: "unexpected", loc: super::checks::loc_for_span(t, span), fix: None }
}

} // verus!
