//! What the compiler guarantees of the variables of a program: after
//! analysis every variable is a slot or an array that the store has, and so
//! a compiled program never meets an unresolved variable when it runs.

use vstd::prelude::*;

use crate::analysis::{
    analyze_action_spec, analyze_expr, analyze_exprs, analyze_program, analyze_routine_spec,
    analyze_routines, analyze_statement, analyze_statements, analyze_var, resolve, AnalyzedView,
};
use crate::ast::{
    assign, begin_or_end_spec, eval, eval_var, exec_action, exec_statement, exec_statements,
    print_text, run_routine, run_routines_inner_spec, run_routines_spec, run_spec, ActionView,
    ExprView, OpKind, RoutineView, StatementView, StoreView, VarView,
};
use crate::errors::{msg_assign_array, msg_unresolved, ErrorView};
use crate::file::FileView;
use crate::program_state::StateView;
use crate::types::ValueView;
use crate::compiler::{
    add_array, advanced, compile_spec, eat, name_index, parse_action, parse_expression,
    parse_expressions, parse_factor, parse_items, parse_operators, parse_routine,
    parse_statement, parse_statements, parse_variable, peek, precedence, step, tokens_left,
    with_statement, ParseState, ParsedView,
};
use crate::scanner::TokenView;

verus! {

/// Whether every variable in an expression is one that a store of `ns`
/// slots and `na` arrays has. A name that is yet to be resolved passes only
/// where `open` says so.
pub open spec fn expr_ok(e: ExprView, ns: nat, na: nat, open: bool) -> bool
    decreases e,
{
    match e {
        ExprView::Var(v) => var_ok(v, ns, na, open),
        ExprView::Bin(_, l, r) => expr_ok(*l, ns, na, open) && expr_ok(*r, ns, na, open),
        _ => true,
    }
}

pub open spec fn var_ok(v: VarView, ns: nat, na: nat, open: bool) -> bool
    decreases v,
{
    match v {
        VarView::NotYetKnown(_) => open,
        VarView::Scalar(i) => 0 <= i < ns,
        VarView::Arr(i) => 0 <= i < na,
        VarView::ArrSub(i, sub) => 0 <= i < na && expr_ok(*sub, ns, na, open),
    }
}

pub open spec fn exprs_ok(es: Seq<ExprView>, ns: nat, na: nat, open: bool) -> bool {
    forall|i: int| 0 <= i < es.len() ==> expr_ok(#[trigger] es[i], ns, na, open)
}

pub open spec fn statement_ok(st: StatementView, ns: nat, na: nat, open: bool) -> bool {
    match st {
        StatementView::Assignment(lhs, rhs) => var_ok(lhs, ns, na, open) && expr_ok(
            rhs,
            ns,
            na,
            open,
        ) && (open || !(lhs is Arr)),
        StatementView::Print(es) => exprs_ok(es, ns, na, open),
    }
}

pub open spec fn statements_ok(sts: Seq<StatementView>, ns: nat, na: nat, open: bool) -> bool {
    forall|i: int| 0 <= i < sts.len() ==> statement_ok(#[trigger] sts[i], ns, na, open)
}

pub open spec fn action_ok(a: ActionView, ns: nat, na: nat, open: bool) -> bool {
    match a.statements {
        Some(sts) => statements_ok(sts, ns, na, open),
        None => true,
    }
}

pub open spec fn block_ok(a: Option<ActionView>, ns: nat, na: nat, open: bool) -> bool {
    match a {
        Some(action) => action_ok(action, ns, na, open),
        None => true,
    }
}

pub open spec fn routine_ok(r: RoutineView, ns: nat, na: nat, open: bool) -> bool {
    (match r.cond {
        Some(c) => expr_ok(c, ns, na, open),
        None => true,
    }) && action_ok(r.action, ns, na, open)
}

pub open spec fn routines_ok(rs: Seq<RoutineView>, ns: nat, na: nat, open: bool) -> bool {
    forall|i: int| 0 <= i < rs.len() ==> routine_ok(#[trigger] rs[i], ns, na, open)
}

/// Whether a program is resolved: no name is left open, every scalar is
/// one of its slots and every array one of its arrays, and no assignment has
/// the name of an array for its target.
pub open spec fn program_resolved(a: AnalyzedView) -> bool {
    &&& block_ok(a.begin, a.num_scalars, a.num_arrays, false)
    &&& block_ok(a.end, a.num_scalars, a.num_arrays, false)
    &&& routines_ok(a.routines, a.num_scalars, a.num_arrays, false)
}

pub proof fn lemma_expr_ok_grows(
    e: ExprView,
    ns: nat,
    na: nat,
    open: bool,
    ns2: nat,
    na2: nat,
    open2: bool,
)
    requires
        expr_ok(e, ns, na, open),
        ns <= ns2,
        na <= na2,
        open ==> open2,
    ensures
        expr_ok(e, ns2, na2, open2),
    decreases e,
{
    match e {
        ExprView::Var(v) => lemma_var_ok_grows(v, ns, na, open, ns2, na2, open2),
        ExprView::Bin(_, l, r) => {
            lemma_expr_ok_grows(*l, ns, na, open, ns2, na2, open2);
            lemma_expr_ok_grows(*r, ns, na, open, ns2, na2, open2);
        },
        _ => {},
    }
}

pub proof fn lemma_var_ok_grows(
    v: VarView,
    ns: nat,
    na: nat,
    open: bool,
    ns2: nat,
    na2: nat,
    open2: bool,
)
    requires
        var_ok(v, ns, na, open),
        ns <= ns2,
        na <= na2,
        open ==> open2,
    ensures
        var_ok(v, ns2, na2, open2),
    decreases v,
{
    match v {
        VarView::ArrSub(_, sub) => lemma_expr_ok_grows(*sub, ns, na, open, ns2, na2, open2),
        _ => {},
    }
}

pub proof fn lemma_exprs_ok_grow(
    es: Seq<ExprView>,
    ns: nat,
    na: nat,
    open: bool,
    ns2: nat,
    na2: nat,
    open2: bool,
)
    requires
        exprs_ok(es, ns, na, open),
        ns <= ns2,
        na <= na2,
        open ==> open2,
    ensures
        exprs_ok(es, ns2, na2, open2),
{
    assert forall|i: int| 0 <= i < es.len() implies expr_ok(
        #[trigger] es[i],
        ns2,
        na2,
        open2,
    ) by {
        lemma_expr_ok_grows(es[i], ns, na, open, ns2, na2, open2);
    }
}

pub proof fn lemma_statement_ok_grows(
    st: StatementView,
    ns: nat,
    na: nat,
    open: bool,
    ns2: nat,
    na2: nat,
    open2: bool,
)
    requires
        statement_ok(st, ns, na, open),
        ns <= ns2,
        na <= na2,
        open ==> open2,
    ensures
        statement_ok(st, ns2, na2, open2),
{
    match st {
        StatementView::Assignment(lhs, rhs) => {
            lemma_var_ok_grows(lhs, ns, na, open, ns2, na2, open2);
            lemma_expr_ok_grows(rhs, ns, na, open, ns2, na2, open2);
        },
        StatementView::Print(es) => lemma_exprs_ok_grow(es, ns, na, open, ns2, na2, open2),
    }
}

pub proof fn lemma_statements_ok_grow(
    sts: Seq<StatementView>,
    ns: nat,
    na: nat,
    open: bool,
    ns2: nat,
    na2: nat,
    open2: bool,
)
    requires
        statements_ok(sts, ns, na, open),
        ns <= ns2,
        na <= na2,
        open ==> open2,
    ensures
        statements_ok(sts, ns2, na2, open2),
{
    assert forall|i: int| 0 <= i < sts.len() implies statement_ok(
        #[trigger] sts[i],
        ns2,
        na2,
        open2,
    ) by {
        lemma_statement_ok_grows(sts[i], ns, na, open, ns2, na2, open2);
    }
}

pub proof fn lemma_block_ok_grows(
    a: Option<ActionView>,
    ns: nat,
    na: nat,
    open: bool,
    ns2: nat,
    na2: nat,
    open2: bool,
)
    requires
        block_ok(a, ns, na, open),
        ns <= ns2,
        na <= na2,
        open ==> open2,
    ensures
        block_ok(a, ns2, na2, open2),
{
    match a {
        Some(action) => match action.statements {
            Some(sts) => lemma_statements_ok_grow(sts, ns, na, open, ns2, na2, open2),
            None => {},
        },
        None => {},
    }
}

pub proof fn lemma_routine_ok_grows(
    r: RoutineView,
    ns: nat,
    na: nat,
    open: bool,
    ns2: nat,
    na2: nat,
    open2: bool,
)
    requires
        routine_ok(r, ns, na, open),
        ns <= ns2,
        na <= na2,
        open ==> open2,
    ensures
        routine_ok(r, ns2, na2, open2),
{
    match r.cond {
        Some(c) => lemma_expr_ok_grows(c, ns, na, open, ns2, na2, open2),
        None => {},
    }
    lemma_block_ok_grows(Some(r.action), ns, na, open, ns2, na2, open2);
}

pub proof fn lemma_routines_ok_grow(
    rs: Seq<RoutineView>,
    ns: nat,
    na: nat,
    open: bool,
    ns2: nat,
    na2: nat,
    open2: bool,
)
    requires
        routines_ok(rs, ns, na, open),
        ns <= ns2,
        na <= na2,
        open ==> open2,
    ensures
        routines_ok(rs, ns2, na2, open2),
{
    assert forall|i: int| 0 <= i < rs.len() implies routine_ok(
        #[trigger] rs[i],
        ns2,
        na2,
        open2,
    ) by {
        lemma_routine_ok_grows(rs[i], ns, na, open, ns2, na2, open2);
    }
}

pub proof fn lemma_name_index_bounds(names: Seq<Seq<char>>, name: Seq<char>)
    ensures
        0 <= name_index(names, name) <= names.len(),
    decreases names.len(),
{
    if names.len() > 0 && names[0] != name {
        lemma_name_index_bounds(names.drop_first(), name);
    }
}

// The parser: every array that it names is one that it knows.

proof fn lemma_parse_factor(toks: Seq<TokenView>, st: ParseState)
    ensures
        parse_factor(toks, st) matches Ok((e, st1)) ==> expr_ok(e, 0, st1.arrays.len(), true)
            && st.arrays.len() <= st1.arrays.len(),
    decreases tokens_left(toks, st.pos), 2nat,
{
    let st1 = step(toks, st);
    match peek(toks, st.pos) {
        TokenView::Identifier(name) => {
            lemma_parse_variable(toks, name, st1);
        },
        TokenView::LeftParen => {
            lemma_parse_expression(toks, st1, 0);
        },
        _ => {},
    }
}

proof fn lemma_parse_variable(toks: Seq<TokenView>, name: Seq<char>, st: ParseState)
    ensures
        parse_variable(toks, name, st) matches Ok((v, st1)) ==> var_ok(
            v,
            0,
            st1.arrays.len(),
            true,
        ) && st.arrays.len() <= st1.arrays.len(),
    decreases tokens_left(toks, st.pos), 4nat,
{
    match peek(toks, st.pos) {
        TokenView::LeftBracket => {
            lemma_name_index_bounds(st.arrays, name);
            let (id, arrays) = add_array(st.arrays, name);
            let st1 = ParseState { pos: step(toks, st).pos, arrays: arrays };
            lemma_parse_expression(toks, st1, 0);
        },
        _ => {},
    }
}

proof fn lemma_parse_expression(toks: Seq<TokenView>, st: ParseState, min: nat)
    ensures
        parse_expression(toks, st, min) matches Ok((e, st1)) ==> expr_ok(
            e,
            0,
            st1.arrays.len(),
            true,
        ) && st.arrays.len() <= st1.arrays.len(),
    decreases tokens_left(toks, st.pos), 3nat,
{
    lemma_parse_factor(toks, st);
    match parse_factor(toks, st) {
        Ok((l, st1)) => {
            if advanced(toks, st, st1) {
                lemma_parse_operators(toks, l, st1, min);
            }
        },
        Err(_) => {},
    }
}

proof fn lemma_parse_operators(toks: Seq<TokenView>, l: ExprView, st: ParseState, min: nat)
    requires
        expr_ok(l, 0, st.arrays.len(), true),
    ensures
        parse_operators(toks, l, st, min) matches Ok((e, st1)) ==> expr_ok(
            e,
            0,
            st1.arrays.len(),
            true,
        ) && st.arrays.len() <= st1.arrays.len(),
    decreases tokens_left(toks, st.pos), 5nat,
{
    match peek(toks, st.pos) {
        TokenView::BinOp(op) => {
            if precedence(op) >= min {
                lemma_parse_expression(toks, step(toks, st), precedence(op) + 1);
                match parse_expression(toks, step(toks, st), precedence(op) + 1) {
                    Ok((r, st2)) => {
                        lemma_expr_ok_grows(l, 0, st.arrays.len(), true, 0, st2.arrays.len(), true);
                        let e = ExprView::Bin(op, Box::new(l), Box::new(r));
                        if advanced(toks, st, st2) {
                            lemma_parse_operators(toks, e, st2, min);
                        }
                    },
                    Err(_) => {},
                }
            }
        },
        _ => {},
    }
}

proof fn lemma_parse_expressions(toks: Seq<TokenView>, st: ParseState, acc: Seq<ExprView>)
    requires
        exprs_ok(acc, 0, st.arrays.len(), true),
    ensures
        parse_expressions(toks, st, acc) matches Ok((es, st1)) ==> exprs_ok(
            es,
            0,
            st1.arrays.len(),
            true,
        ) && st.arrays.len() <= st1.arrays.len(),
    decreases tokens_left(toks, st.pos),
{
    match peek(toks, st.pos) {
        TokenView::Comma => {
            lemma_parse_expressions(toks, step(toks, st), acc);
        },
        TokenView::RightBrace => {},
        TokenView::Semicolon => {},
        _ => {
            lemma_parse_expression(toks, st, 0);
            match parse_expression(toks, st, 0) {
                Ok((e, st1)) => {
                    lemma_exprs_ok_grow(acc, 0, st.arrays.len(), true, 0, st1.arrays.len(), true);
                    assert(exprs_ok(acc.push(e), 0, st1.arrays.len(), true));
                    if advanced(toks, st, st1) {
                        lemma_parse_expressions(toks, st1, acc.push(e));
                    }
                },
                Err(_) => {},
            }
        },
    }
}

proof fn lemma_parse_statement(toks: Seq<TokenView>, st: ParseState)
    ensures
        parse_statement(toks, st) matches Ok((s, st1)) ==> (match s {
            Some(x) => statement_ok(x, 0, st1.arrays.len(), true),
            None => true,
        }) && st.arrays.len() <= st1.arrays.len(),
{
    match peek(toks, st.pos) {
        TokenView::Identifier(name) => {
            lemma_parse_variable(toks, name, step(toks, st));
            match parse_variable(toks, name, step(toks, st)) {
                Ok((lhs, st2)) => {
                    let st3 = step(toks, st2);
                    lemma_parse_expression(toks, st3, 0);
                    match parse_expression(toks, st3, 0) {
                        Ok((rhs, st4)) => {
                            lemma_var_ok_grows(
                                lhs,
                                0,
                                st2.arrays.len(),
                                true,
                                0,
                                st4.arrays.len(),
                                true,
                            );
                            let target = ExprView::Var(lhs);
                            assert(expr_ok(target, 0, st4.arrays.len(), true));
                            assert(expr_ok(
                                ExprView::Bin(OpKind::Plus, Box::new(target), Box::new(rhs)),
                                0,
                                st4.arrays.len(),
                                true,
                            ));
                            assert(expr_ok(
                                ExprView::Bin(OpKind::Minus, Box::new(target), Box::new(rhs)),
                                0,
                                st4.arrays.len(),
                                true,
                            ));
                        },
                        Err(_) => {},
                    }
                },
                Err(_) => {},
            }
        },
        TokenView::Print => {
            lemma_parse_expressions(toks, step(toks, st), Seq::empty());
        },
        _ => {},
    }
}

proof fn lemma_parse_statements(toks: Seq<TokenView>, st: ParseState, acc: Seq<StatementView>)
    requires
        statements_ok(acc, 0, st.arrays.len(), true),
    ensures
        parse_statements(toks, st, acc) matches Ok((sts, st1)) ==> statements_ok(
            sts,
            0,
            st1.arrays.len(),
            true,
        ) && st.arrays.len() <= st1.arrays.len(),
    decreases tokens_left(toks, st.pos),
{
    lemma_parse_statement(toks, st);
    match parse_statement(toks, st) {
        Ok((s, st1)) => {
            lemma_statements_ok_grow(acc, 0, st.arrays.len(), true, 0, st1.arrays.len(), true);
            assert(statements_ok(with_statement(acc, s), 0, st1.arrays.len(), true));
            match peek(toks, st1.pos) {
                TokenView::Semicolon => {
                    if advanced(toks, st, step(toks, st1)) {
                        lemma_parse_statements(toks, step(toks, st1), with_statement(acc, s));
                    }
                },
                _ => {},
            }
        },
        Err(_) => {},
    }
}

proof fn lemma_parse_action(toks: Seq<TokenView>, st: ParseState)
    ensures
        parse_action(toks, st) matches Ok((a, st1)) ==> action_ok(a, 0, st1.arrays.len(), true)
            && st.arrays.len() <= st1.arrays.len(),
{
    match peek(toks, st.pos) {
        TokenView::RightBrace => {},
        _ => {
            lemma_parse_statements(toks, st, Seq::empty());
        },
    }
}

proof fn lemma_parse_routine(toks: Seq<TokenView>, st: ParseState)
    ensures
        parse_routine(toks, st) matches Ok((r, st1)) ==> routine_ok(r, 0, st1.arrays.len(), true)
            && st.arrays.len() <= st1.arrays.len(),
{
    match peek(toks, st.pos) {
        TokenView::LeftBrace => {
            lemma_parse_action(toks, step(toks, st));
        },
        _ => {
            lemma_parse_expression(toks, st, 0);
            match parse_expression(toks, st, 0) {
                Ok((e, st1)) => {
                    lemma_parse_action(toks, step(toks, st1));
                    match parse_action(toks, step(toks, st1)) {
                        Ok((a, st2)) => {
                            lemma_expr_ok_grows(
                                e,
                                0,
                                st1.arrays.len(),
                                true,
                                0,
                                st2.arrays.len(),
                                true,
                            );
                        },
                        Err(_) => {},
                    }
                },
                Err(_) => {},
            }
        },
    }
}

pub open spec fn parsed_ok(p: ParsedView, na: nat) -> bool {
    block_ok(p.begin, 0, na, true) && block_ok(p.end, 0, na, true) && routines_ok(
        p.routines,
        0,
        na,
        true,
    )
}

proof fn lemma_parsed_ok_grows(p: ParsedView, na: nat, na2: nat)
    requires
        parsed_ok(p, na),
        na <= na2,
    ensures
        parsed_ok(p, na2),
{
    lemma_block_ok_grows(p.begin, 0, na, true, 0, na2, true);
    lemma_block_ok_grows(p.end, 0, na, true, 0, na2, true);
    lemma_routines_ok_grow(p.routines, 0, na, true, 0, na2, true);
}

proof fn lemma_parse_items(toks: Seq<TokenView>, st: ParseState, acc: ParsedView)
    requires
        parsed_ok(acc, st.arrays.len()),
    ensures
        parse_items(toks, st, acc) matches Ok((p, st1)) ==> parsed_ok(p, st1.arrays.len())
            && st.arrays.len() <= st1.arrays.len(),
    decreases tokens_left(toks, st.pos),
{
    match peek(toks, st.pos) {
        TokenView::Eof => {},
        TokenView::Begin => {
            match eat(toks, step(toks, st), TokenView::LeftBrace, crate::compiler::msg_begin_brace()) {
                Ok(st2) => {
                    lemma_parse_action(toks, st2);
                    match parse_action(toks, st2) {
                        Ok((a, st3)) => {
                            lemma_parsed_ok_grows(acc, st.arrays.len(), st3.arrays.len());
                            if advanced(toks, st, st3) {
                                lemma_parse_items(
                                    toks,
                                    st3,
                                    ParsedView { begin: Some(a), ..acc },
                                );
                            }
                        },
                        Err(_) => {},
                    }
                },
                Err(_) => {},
            }
        },
        TokenView::End => {
            match eat(toks, step(toks, st), TokenView::LeftBrace, crate::compiler::msg_end_brace()) {
                Ok(st2) => {
                    lemma_parse_action(toks, st2);
                    match parse_action(toks, st2) {
                        Ok((a, st3)) => {
                            lemma_parsed_ok_grows(acc, st.arrays.len(), st3.arrays.len());
                            if advanced(toks, st, st3) {
                                lemma_parse_items(toks, st3, ParsedView { end: Some(a), ..acc });
                            }
                        },
                        Err(_) => {},
                    }
                },
                Err(_) => {},
            }
        },
        _ => {
            lemma_parse_routine(toks, st);
            match parse_routine(toks, st) {
                Ok((r, st1)) => {
                    lemma_parsed_ok_grows(acc, st.arrays.len(), st1.arrays.len());
                    let next = ParsedView { routines: acc.routines.push(r), ..acc };
                    assert(routines_ok(next.routines, 0, st1.arrays.len(), true));
                    if advanced(toks, st, st1) {
                        lemma_parse_items(toks, st1, next);
                    }
                },
                Err(_) => {},
            }
        },
    }
}

// The analysis: it leaves no name open.

proof fn lemma_resolve(name: Seq<char>, arrays: Seq<Seq<char>>, scalars: Seq<Seq<char>>)
    ensures
        var_ok(
            resolve(name, arrays, scalars).0,
            resolve(name, arrays, scalars).1.len(),
            arrays.len(),
            false,
        ),
        scalars.len() <= resolve(name, arrays, scalars).1.len(),
{
    lemma_name_index_bounds(arrays, name);
    lemma_name_index_bounds(scalars, name);
}

proof fn lemma_analyze_expr(e: ExprView, arrays: Seq<Seq<char>>, scalars: Seq<Seq<char>>)
    requires
        expr_ok(e, scalars.len(), arrays.len(), true),
    ensures
        expr_ok(
            analyze_expr(e, arrays, scalars).0,
            analyze_expr(e, arrays, scalars).1.len(),
            arrays.len(),
            false,
        ),
        scalars.len() <= analyze_expr(e, arrays, scalars).1.len(),
    decreases e,
{
    match e {
        ExprView::Var(v) => lemma_analyze_var(v, arrays, scalars),
        ExprView::Bin(op, l, r) => {
            lemma_analyze_expr(*l, arrays, scalars);
            let (l1, s1) = analyze_expr(*l, arrays, scalars);
            lemma_expr_ok_grows(*r, scalars.len(), arrays.len(), true, s1.len(), arrays.len(), true);
            lemma_analyze_expr(*r, arrays, s1);
            let (r1, s2) = analyze_expr(*r, arrays, s1);
            lemma_expr_ok_grows(l1, s1.len(), arrays.len(), false, s2.len(), arrays.len(), false);
        },
        _ => {},
    }
}

proof fn lemma_analyze_var(v: VarView, arrays: Seq<Seq<char>>, scalars: Seq<Seq<char>>)
    requires
        var_ok(v, scalars.len(), arrays.len(), true),
    ensures
        var_ok(
            analyze_var(v, arrays, scalars).0,
            analyze_var(v, arrays, scalars).1.len(),
            arrays.len(),
            false,
        ),
        scalars.len() <= analyze_var(v, arrays, scalars).1.len(),
    decreases v,
{
    match v {
        VarView::NotYetKnown(name) => lemma_resolve(name, arrays, scalars),
        VarView::ArrSub(_, sub) => lemma_analyze_expr(*sub, arrays, scalars),
        _ => {},
    }
}

proof fn lemma_analyze_exprs(
    es: Seq<ExprView>,
    arrays: Seq<Seq<char>>,
    scalars: Seq<Seq<char>>,
    acc: Seq<ExprView>,
)
    requires
        exprs_ok(es, scalars.len(), arrays.len(), true),
        exprs_ok(acc, scalars.len(), arrays.len(), false),
    ensures
        exprs_ok(
            analyze_exprs(es, arrays, scalars, acc).0,
            analyze_exprs(es, arrays, scalars, acc).1.len(),
            arrays.len(),
            false,
        ),
        scalars.len() <= analyze_exprs(es, arrays, scalars, acc).1.len(),
    decreases es.len(),
{
    if es.len() > 0 {
        lemma_analyze_expr(es[0], arrays, scalars);
        let (e1, s1) = analyze_expr(es[0], arrays, scalars);
        lemma_exprs_ok_grow(acc, scalars.len(), arrays.len(), false, s1.len(), arrays.len(), false);
        let rest = es.drop_first();
        assert forall|i: int| 0 <= i < rest.len() implies expr_ok(
            #[trigger] rest[i],
            s1.len(),
            arrays.len(),
            true,
        ) by {
            assert(rest[i] == es[i + 1]);
            lemma_expr_ok_grows(
                es[i + 1],
                scalars.len(),
                arrays.len(),
                true,
                s1.len(),
                arrays.len(),
                true,
            );
        }
        assert(exprs_ok(acc.push(e1), s1.len(), arrays.len(), false));
        lemma_analyze_exprs(rest, arrays, s1, acc.push(e1));
    }
}

proof fn lemma_analyze_statement(
    st: StatementView,
    arrays: Seq<Seq<char>>,
    scalars: Seq<Seq<char>>,
)
    requires
        statement_ok(st, scalars.len(), arrays.len(), true),
    ensures
        analyze_statement(st, arrays, scalars) matches Ok((s, sc)) ==> statement_ok(
            s,
            sc.len(),
            arrays.len(),
            false,
        ) && scalars.len() <= sc.len(),
{
    match st {
        StatementView::Assignment(lhs, rhs) => {
            lemma_analyze_var(lhs, arrays, scalars);
            let (l1, s1) = analyze_var(lhs, arrays, scalars);
            lemma_expr_ok_grows(rhs, scalars.len(), arrays.len(), true, s1.len(), arrays.len(), true);
            lemma_analyze_expr(rhs, arrays, s1);
            let (r1, s2) = analyze_expr(rhs, arrays, s1);
            lemma_var_ok_grows(l1, s1.len(), arrays.len(), false, s2.len(), arrays.len(), false);
        },
        StatementView::Print(es) => {
            lemma_analyze_exprs(es, arrays, scalars, Seq::empty());
        },
    }
}

proof fn lemma_analyze_statements(
    sts: Seq<StatementView>,
    arrays: Seq<Seq<char>>,
    scalars: Seq<Seq<char>>,
    acc: Seq<StatementView>,
)
    requires
        statements_ok(sts, scalars.len(), arrays.len(), true),
        statements_ok(acc, scalars.len(), arrays.len(), false),
    ensures
        analyze_statements(sts, arrays, scalars, acc) matches Ok((out, sc)) ==> statements_ok(
            out,
            sc.len(),
            arrays.len(),
            false,
        ) && scalars.len() <= sc.len(),
    decreases sts.len(),
{
    if sts.len() > 0 {
        lemma_analyze_statement(sts[0], arrays, scalars);
        match analyze_statement(sts[0], arrays, scalars) {
            Ok((s1, sc1)) => {
                lemma_statements_ok_grow(
                    acc,
                    scalars.len(),
                    arrays.len(),
                    false,
                    sc1.len(),
                    arrays.len(),
                    false,
                );
                let rest = sts.drop_first();
                assert forall|i: int| 0 <= i < rest.len() implies statement_ok(
                    #[trigger] rest[i],
                    sc1.len(),
                    arrays.len(),
                    true,
                ) by {
                    assert(rest[i] == sts[i + 1]);
                    lemma_statement_ok_grows(
                        sts[i + 1],
                        scalars.len(),
                        arrays.len(),
                        true,
                        sc1.len(),
                        arrays.len(),
                        true,
                    );
                }
                assert(statements_ok(acc.push(s1), sc1.len(), arrays.len(), false));
                lemma_analyze_statements(rest, arrays, sc1, acc.push(s1));
            },
            Err(_) => {},
        }
    }
}

proof fn lemma_analyze_action(
    a: Option<ActionView>,
    arrays: Seq<Seq<char>>,
    scalars: Seq<Seq<char>>,
)
    requires
        block_ok(a, scalars.len(), arrays.len(), true),
    ensures
        analyze_action_spec(a, arrays, scalars) matches Ok((out, sc)) ==> block_ok(
            out,
            sc.len(),
            arrays.len(),
            false,
        ) && scalars.len() <= sc.len() && (a is Some ==> out is Some),
{
    match a {
        Some(action) => match action.statements {
            Some(sts) => lemma_analyze_statements(sts, arrays, scalars, Seq::empty()),
            None => {},
        },
        None => {},
    }
}

proof fn lemma_analyze_routine(r: RoutineView, arrays: Seq<Seq<char>>, scalars: Seq<Seq<char>>)
    requires
        routine_ok(r, scalars.len(), arrays.len(), true),
    ensures
        analyze_routine_spec(r, arrays, scalars) matches Ok((out, sc)) ==> routine_ok(
            out,
            sc.len(),
            arrays.len(),
            false,
        ) && scalars.len() <= sc.len(),
{
    let s1 = match r.cond {
        None => scalars,
        Some(c) => {
            lemma_analyze_expr(c, arrays, scalars);
            analyze_expr(c, arrays, scalars).1
        },
    };
    lemma_block_ok_grows(
        Some(r.action),
        scalars.len(),
        arrays.len(),
        true,
        s1.len(),
        arrays.len(),
        true,
    );
    lemma_analyze_action(Some(r.action), arrays, s1);
    match analyze_action_spec(Some(r.action), arrays, s1) {
        Ok((a1, s2)) => {
            match r.cond {
                None => {},
                Some(c) => {
                    lemma_expr_ok_grows(
                        analyze_expr(c, arrays, scalars).0,
                        s1.len(),
                        arrays.len(),
                        false,
                        s2.len(),
                        arrays.len(),
                        false,
                    );
                },
            }
        },
        Err(_) => {},
    }
}

proof fn lemma_analyze_routines(
    rs: Seq<RoutineView>,
    arrays: Seq<Seq<char>>,
    scalars: Seq<Seq<char>>,
    acc: Seq<RoutineView>,
)
    requires
        routines_ok(rs, scalars.len(), arrays.len(), true),
        routines_ok(acc, scalars.len(), arrays.len(), false),
    ensures
        analyze_routines(rs, arrays, scalars, acc) matches Ok((out, sc)) ==> routines_ok(
            out,
            sc.len(),
            arrays.len(),
            false,
        ) && scalars.len() <= sc.len(),
    decreases rs.len(),
{
    if rs.len() > 0 {
        lemma_analyze_routine(rs[0], arrays, scalars);
        match analyze_routine_spec(rs[0], arrays, scalars) {
            Ok((r1, s1)) => {
                lemma_routines_ok_grow(
                    acc,
                    scalars.len(),
                    arrays.len(),
                    false,
                    s1.len(),
                    arrays.len(),
                    false,
                );
                let rest = rs.drop_first();
                assert forall|i: int| 0 <= i < rest.len() implies routine_ok(
                    #[trigger] rest[i],
                    s1.len(),
                    arrays.len(),
                    true,
                ) by {
                    assert(rest[i] == rs[i + 1]);
                    lemma_routine_ok_grows(
                        rs[i + 1],
                        scalars.len(),
                        arrays.len(),
                        true,
                        s1.len(),
                        arrays.len(),
                        true,
                    );
                }
                assert(routines_ok(acc.push(r1), s1.len(), arrays.len(), false));
                lemma_analyze_routines(rest, arrays, s1, acc.push(r1));
            },
            Err(_) => {},
        }
    }
}

/// Analysis leaves no name open: where every array that the program names
/// is among `arrays`, the program after analysis, if analysis finds no error
/// in it, is resolved.
pub proof fn analysis_resolves_every_name(
    arrays: Seq<Seq<char>>,
    begin: Option<ActionView>,
    end: Option<ActionView>,
    routines: Seq<RoutineView>,
)
    requires
        block_ok(begin, 0, arrays.len(), true),
        block_ok(end, 0, arrays.len(), true),
        routines_ok(routines, 0, arrays.len(), true),
    ensures
        analyze_program(arrays, begin, end, routines) matches Ok(a) ==> program_resolved(a),
{
    let na = arrays.len();
    lemma_analyze_action(begin, arrays, Seq::empty());
    match analyze_action_spec(begin, arrays, Seq::empty()) {
        Ok((b, s1)) => {
            lemma_routines_ok_grow(routines, 0, na, true, s1.len(), na, true);
            lemma_analyze_routines(routines, arrays, s1, Seq::empty());
            match analyze_routines(routines, arrays, s1, Seq::empty()) {
                Ok((rs, s2)) => {
                    lemma_block_ok_grows(end, 0, na, true, s2.len(), na, true);
                    lemma_analyze_action(end, arrays, s2);
                    match analyze_action_spec(end, arrays, s2) {
                        Ok((e, s3)) => {
                            lemma_block_ok_grows(b, s1.len(), na, false, s3.len(), na, false);
                            lemma_routines_ok_grow(rs, s2.len(), na, false, s3.len(), na, false);
                        },
                        Err(_) => {},
                    }
                },
                Err(_) => {},
            }
        },
        Err(_) => {},
    }
}

/// A program that compiles is resolved: no name is left open, every scalar
/// slot that it mentions is below the number of slots that it asks for,
/// every array is below the number of arrays, and no assignment has the name
/// of an array for its target.
pub proof fn compiled_program_is_resolved(toks: Seq<TokenView>)
    ensures
        compile_spec(toks, crate::compiler::initial_state()) matches Ok(a) ==> program_resolved(a),
{
    let st = crate::compiler::initial_state();
    let acc = ParsedView { begin: None, end: None, routines: Seq::empty() };
    lemma_parse_items(toks, st, acc);
    match parse_items(toks, st, acc) {
        Ok((parsed, st1)) => {
            let routines = if parsed.routines.len() == 0 {
                seq![crate::compiler::default_routine()]
            } else {
                parsed.routines
            };
            assert(routines_ok(routines, 0, st1.arrays.len(), true));
            analysis_resolves_every_name(st1.arrays, parsed.begin, parsed.end, routines);
        },
        Err(_) => {},
    }
}

// The run: a resolved program finds every variable that it mentions.

/// The messages of the errors for a variable that is not there and for an
/// assignment to the name of an array are the messages of no other runtime
/// error.
pub proof fn lemma_unresolved_is_its_own_message()
    ensures
        msg_unresolved() != crate::errors::msg_special_as_boolean(),
        msg_unresolved() != crate::errors::msg_special_as_integer(),
        msg_unresolved() != crate::errors::msg_special_operator(),
        msg_unresolved() != crate::errors::msg_special_negative(),
        msg_unresolved() != crate::errors::msg_special_mismatch(),
        msg_unresolved() != crate::errors::msg_division_by_zero(),
        msg_unresolved() != msg_assign_array(),
        msg_assign_array() != crate::errors::msg_special_as_boolean(),
        msg_assign_array() != crate::errors::msg_special_as_integer(),
        msg_assign_array() != crate::errors::msg_special_operator(),
        msg_assign_array() != crate::errors::msg_special_negative(),
        msg_assign_array() != crate::errors::msg_special_mismatch(),
        msg_assign_array() != crate::errors::msg_division_by_zero(),
{
    reveal_strlit("Attempted to use an unresolved variable");
    reveal_strlit("Cannot evaluate a special value as a boolean");
    reveal_strlit("Cannot evaluate a special value as an integer");
    reveal_strlit("Cannot apply this operator to a special value");
    reveal_strlit("Cannot compare a special value to a negative integer");
    reveal_strlit("Cannot compare a special value to a value of another type");
    reveal_strlit("Division by zero");
    reveal_strlit("Cannot assign to an array name");
    assert(msg_unresolved().len() == 39);
    assert(msg_assign_array().len() == 30);
    assert(crate::errors::msg_special_as_boolean().len() == 44);
    assert(crate::errors::msg_special_as_integer().len() == 45);
    assert(crate::errors::msg_special_operator().len() == 45);
    assert(crate::errors::msg_special_negative().len() == 52);
    assert(crate::errors::msg_special_mismatch().len() == 57);
    assert(crate::errors::msg_division_by_zero().len() == 16);
}

pub open spec fn unresolved() -> ErrorView {
    ErrorView::Runtime(msg_unresolved())
}

pub open spec fn assigned() -> ErrorView {
    ErrorView::Runtime(msg_assign_array())
}

/// Whether a store has the slots and the arrays of a program.
pub open spec fn store_fits(s: StoreView, ns: nat, na: nat) -> bool {
    s.scalars.len() == ns && s.arrays.len() == na
}

proof fn lemma_eval_finds(e: ExprView, f: Option<FileView>, s: StoreView)
    requires
        expr_ok(e, s.scalars.len(), s.arrays.len(), false),
    ensures
        eval(e, f, s) != Err::<ValueView, ErrorView>(unresolved()),
        eval(e, f, s) != Err::<ValueView, ErrorView>(assigned()),
    decreases e,
{
    lemma_unresolved_is_its_own_message();
    match e {
        ExprView::Var(v) => lemma_eval_var_finds(v, f, s),
        ExprView::Bin(op, l, r) => {
            lemma_eval_finds(*l, f, s);
            lemma_eval_finds(*r, f, s);
        },
        _ => {},
    }
}

proof fn lemma_eval_var_finds(v: VarView, f: Option<FileView>, s: StoreView)
    requires
        var_ok(v, s.scalars.len(), s.arrays.len(), false),
    ensures
        eval_var(v, f, s) != Err::<ValueView, ErrorView>(unresolved()),
        eval_var(v, f, s) != Err::<ValueView, ErrorView>(assigned()),
    decreases v,
{
    match v {
        VarView::ArrSub(_, sub) => lemma_eval_finds(*sub, f, s),
        _ => {},
    }
}

proof fn lemma_print_finds(es: Seq<ExprView>, f: Option<FileView>, s: StoreView)
    requires
        exprs_ok(es, s.scalars.len(), s.arrays.len(), false),
    ensures
        print_text(es, f, s) != Err::<Seq<char>, ErrorView>(unresolved()),
        print_text(es, f, s) != Err::<Seq<char>, ErrorView>(assigned()),
    decreases es.len(),
{
    if es.len() > 0 {
        lemma_eval_finds(es[0], f, s);
        let rest = es.drop_first();
        assert forall|i: int| 0 <= i < rest.len() implies expr_ok(
            #[trigger] rest[i],
            s.scalars.len(),
            s.arrays.len(),
            false,
        ) by {
            assert(rest[i] == es[i + 1]);
        }
        lemma_print_finds(rest, f, s);
    }
}

proof fn lemma_statement_finds(st: StatementView, f: Option<FileView>, sv: StateView)
    requires
        statement_ok(st, sv.store.scalars.len(), sv.store.arrays.len(), false),
    ensures
        exec_statement(st, f, sv).1 != Err::<(), ErrorView>(unresolved()),
        exec_statement(st, f, sv).1 != Err::<(), ErrorView>(assigned()),
        store_fits(exec_statement(st, f, sv).0.store, sv.store.scalars.len(), sv.store.arrays.len()),
{
    lemma_unresolved_is_its_own_message();
    match st {
        StatementView::Assignment(lhs, rhs) => {
            lemma_eval_finds(rhs, f, sv.store);
            match lhs {
                VarView::ArrSub(_, sub) => lemma_eval_finds(*sub, f, sv.store),
                _ => {},
            }
        },
        StatementView::Print(es) => lemma_print_finds(es, f, sv.store),
    }
}

proof fn lemma_statements_find(sts: Seq<StatementView>, f: Option<FileView>, sv: StateView)
    requires
        statements_ok(sts, sv.store.scalars.len(), sv.store.arrays.len(), false),
    ensures
        exec_statements(sts, f, sv).1 != Err::<(), ErrorView>(unresolved()),
        exec_statements(sts, f, sv).1 != Err::<(), ErrorView>(assigned()),
        store_fits(
            exec_statements(sts, f, sv).0.store,
            sv.store.scalars.len(),
            sv.store.arrays.len(),
        ),
    decreases sts.len(),
{
    if sts.len() > 0 {
        lemma_statement_finds(sts[0], f, sv);
        let (sv1, r) = exec_statement(sts[0], f, sv);
        if r is Ok {
            let rest = sts.drop_first();
            assert forall|i: int| 0 <= i < rest.len() implies statement_ok(
                #[trigger] rest[i],
                sv1.store.scalars.len(),
                sv1.store.arrays.len(),
                false,
            ) by {
                assert(rest[i] == sts[i + 1]);
            }
            lemma_statements_find(rest, f, sv1);
        }
    }
}

proof fn lemma_action_finds(a: ActionView, f: Option<FileView>, sv: StateView)
    requires
        action_ok(a, sv.store.scalars.len(), sv.store.arrays.len(), false),
    ensures
        exec_action(a, f, sv).1 != Err::<(), ErrorView>(unresolved()),
        exec_action(a, f, sv).1 != Err::<(), ErrorView>(assigned()),
        store_fits(exec_action(a, f, sv).0.store, sv.store.scalars.len(), sv.store.arrays.len()),
{
    match a.statements {
        Some(sts) => lemma_statements_find(sts, f, sv),
        None => {},
    }
}

proof fn lemma_routine_finds(r: RoutineView, f: FileView, sv: StateView)
    requires
        routine_ok(r, sv.store.scalars.len(), sv.store.arrays.len(), false),
    ensures
        run_routine(r, f, sv).1 != Err::<(), ErrorView>(unresolved()),
        run_routine(r, f, sv).1 != Err::<(), ErrorView>(assigned()),
        store_fits(run_routine(r, f, sv).0.store, sv.store.scalars.len(), sv.store.arrays.len()),
{
    lemma_unresolved_is_its_own_message();
    match r.cond {
        Some(c) => lemma_eval_finds(c, Some(f), sv.store),
        None => {},
    }
    lemma_action_finds(r.action, Some(f), sv);
}

proof fn lemma_routines_find(rs: Seq<RoutineView>, f: FileView, sv: StateView)
    requires
        routines_ok(rs, sv.store.scalars.len(), sv.store.arrays.len(), false),
    ensures
        run_routines_inner_spec(rs, f, sv).1 != Err::<(), ErrorView>(unresolved()),
        run_routines_inner_spec(rs, f, sv).1 != Err::<(), ErrorView>(assigned()),
        store_fits(
            run_routines_inner_spec(rs, f, sv).0.store,
            sv.store.scalars.len(),
            sv.store.arrays.len(),
        ),
    decreases rs.len(),
{
    if rs.len() > 0 {
        lemma_routine_finds(rs[0], f, sv);
        let (sv1, r) = run_routine(rs[0], f, sv);
        if r is Ok {
            let rest = rs.drop_first();
            assert forall|i: int| 0 <= i < rest.len() implies routine_ok(
                #[trigger] rest[i],
                sv1.store.scalars.len(),
                sv1.store.arrays.len(),
                false,
            ) by {
                assert(rest[i] == rs[i + 1]);
            }
            lemma_routines_find(rest, f, sv1);
        }
    }
}

/// Resolved routines find every variable that they mention: on a store
/// with the slots and arrays of the program they never fail for a variable
/// that is not there, on any file, and they leave the store with the same
/// slots and arrays.
pub proof fn resolved_routines_find_their_variables(
    rs: Seq<RoutineView>,
    f: FileView,
    sv: StateView,
)
    requires
        routines_ok(rs, sv.store.scalars.len(), sv.store.arrays.len(), false),
    ensures
        run_routines_spec(rs, f, sv).1 != Err::<(), Seq<char>>(msg_unresolved()),
        run_routines_spec(rs, f, sv).1 != Err::<(), Seq<char>>(msg_assign_array()),
        store_fits(
            run_routines_spec(rs, f, sv).0.store,
            sv.store.scalars.len(),
            sv.store.arrays.len(),
        ),
{
    lemma_routines_find(rs, f, sv);
}

/// A resolved BEGIN or END block finds every variable that it mentions.
pub proof fn resolved_block_finds_its_variables(a: Option<ActionView>, sv: StateView)
    requires
        block_ok(a, sv.store.scalars.len(), sv.store.arrays.len(), false),
    ensures
        begin_or_end_spec(a, sv).1 != Err::<(), Seq<char>>(msg_unresolved()),
        begin_or_end_spec(a, sv).1 != Err::<(), Seq<char>>(msg_assign_array()),
        store_fits(begin_or_end_spec(a, sv).0.store, sv.store.scalars.len(), sv.store.arrays.len()),
{
    match a {
        Some(action) => lemma_action_finds(action, None, sv),
        None => {},
    }
}

/// A compiled program never fails for a variable that is not there, nor for
/// an assignment to the name of an array: run on a file, in a store with the
/// slots and arrays that the compiler counted, a resolved program ends well
/// or with another error.
pub proof fn resolved_program_finds_its_variables(a: AnalyzedView, f: FileView, sv: StateView)
    requires
        program_resolved(a),
        store_fits(sv.store, a.num_scalars, a.num_arrays),
    ensures
        run_spec(a.begin, a.routines, a.end, f, sv).1 != Err::<(), Seq<char>>(msg_unresolved()),
        run_spec(a.begin, a.routines, a.end, f, sv).1 != Err::<(), Seq<char>>(msg_assign_array()),
{
    resolved_block_finds_its_variables(a.begin, sv);
    let (s1, r1) = begin_or_end_spec(a.begin, sv);
    if r1 is Ok {
        resolved_routines_find_their_variables(a.routines, f, s1);
        let (s2, r2) = run_routines_spec(a.routines, f, s1);
        if r2 is Ok {
            resolved_block_finds_its_variables(a.end, s2);
        }
    }
}

} // verus!
