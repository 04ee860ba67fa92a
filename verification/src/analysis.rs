//! The pass between parsing and running: every name that the parser left
//! open becomes a scalar slot or an array.

use vstd::prelude::*;
use vstd::string::*;

use crate::ast::{
    clone_variable, exprs_view, routines_view, statements_view, Action, ActionView, Assignment,
    BinaryOp, Condition, Expression, ExprView, Routine, RoutineView, Statement, StatementView,
    VarView,
};
use crate::compiler::{error_of, find_name, name_index, syntax_error, ParseError};
use crate::errors::{msg_assign_array, Error};
use crate::scanner::{Token, TokenView};
use crate::variables::{ArraySubscript, Identifier, Variable};

verus! {

pub open spec fn names_view(s: Seq<String>) -> Seq<Seq<char>> {
    s.map_values(|n: String| n@)
}

/// What a name stands for, and the scalar names after it was met. A name
/// that was seen with a subscript anywhere in the program is the array of
/// that name. Every other name is a scalar, and a new one gets the next
/// slot.
pub open spec fn resolve(name: Seq<char>, arrays: Seq<Seq<char>>, scalars: Seq<Seq<char>>) -> (
    VarView,
    Seq<Seq<char>>,
) {
    let a = name_index(arrays, name);
    let i = name_index(scalars, name);
    if a < arrays.len() {
        (VarView::Arr(a), scalars)
    } else if i < scalars.len() {
        (VarView::Scalar(i), scalars)
    } else {
        (VarView::Scalar(scalars.len() as int), scalars.push(name))
    }
}

/// An expression with its names resolved, from left to right.
pub open spec fn analyze_expr(e: ExprView, arrays: Seq<Seq<char>>, scalars: Seq<Seq<char>>) -> (
    ExprView,
    Seq<Seq<char>>,
)
    decreases e,
{
    match e {
        ExprView::Var(v) => {
            let (v1, s1) = analyze_var(v, arrays, scalars);
            (ExprView::Var(v1), s1)
        },
        ExprView::Bin(op, l, r) => {
            let (l1, s1) = analyze_expr(*l, arrays, scalars);
            let (r1, s2) = analyze_expr(*r, arrays, s1);
            (ExprView::Bin(op, Box::new(l1), Box::new(r1)), s2)
        },
        _ => (e, scalars),
    }
}

/// A variable with its names resolved: its own name, or those in its
/// subscript.
pub open spec fn analyze_var(v: VarView, arrays: Seq<Seq<char>>, scalars: Seq<Seq<char>>) -> (
    VarView,
    Seq<Seq<char>>,
)
    decreases v,
{
    match v {
        VarView::NotYetKnown(name) => resolve(name, arrays, scalars),
        VarView::ArrSub(id, sub) => {
            let (s1, sc) = analyze_expr(*sub, arrays, scalars);
            (VarView::ArrSub(id, Box::new(s1)), sc)
        },
        _ => (v, scalars),
    }
}

pub open spec fn analyze_exprs(
    es: Seq<ExprView>,
    arrays: Seq<Seq<char>>,
    scalars: Seq<Seq<char>>,
    acc: Seq<ExprView>,
) -> (Seq<ExprView>, Seq<Seq<char>>)
    decreases es.len(),
{
    if es.len() == 0 {
        (acc, scalars)
    } else {
        let (e1, s1) = analyze_expr(es[0], arrays, scalars);
        analyze_exprs(es.drop_first(), arrays, s1, acc.push(e1))
    }
}

/// The name by which the target of an assignment is written.
pub open spec fn target_name(lhs: VarView, arrays: Seq<Seq<char>>) -> Seq<char> {
    match lhs {
        VarView::NotYetKnown(name) => name,
        VarView::Arr(id) => if 0 <= id < arrays.len() {
            arrays[id]
        } else {
            Seq::empty()
        },
        _ => Seq::empty(),
    }
}

/// The error for an assignment to the name of an array: a name that is
/// used with a subscript anywhere in the program is an array everywhere, and
/// an array as a whole cannot be assigned to.
pub open spec fn array_assigned(lhs: VarView, arrays: Seq<Seq<char>>) -> ParseError {
    (msg_assign_array(), TokenView::Identifier(target_name(lhs, arrays)))
}

/// A statement with its names resolved: the target of an assignment before
/// its right-hand side. An assignment whose target is the name of an array
/// is an error.
pub open spec fn analyze_statement(
    st: StatementView,
    arrays: Seq<Seq<char>>,
    scalars: Seq<Seq<char>>,
) -> Result<(StatementView, Seq<Seq<char>>), ParseError> {
    match st {
        StatementView::Assignment(lhs, rhs) => {
            let (l1, s1) = analyze_var(lhs, arrays, scalars);
            let (r1, s2) = analyze_expr(rhs, arrays, s1);
            if l1 is Arr {
                Err(array_assigned(lhs, arrays))
            } else {
                Ok((StatementView::Assignment(l1, r1), s2))
            }
        },
        StatementView::Print(es) => {
            let (es1, s1) = analyze_exprs(es, arrays, scalars, Seq::empty());
            Ok((StatementView::Print(es1), s1))
        },
    }
}

/// The statements with their names resolved, in order, up to the first that
/// is an error.
pub open spec fn analyze_statements(
    sts: Seq<StatementView>,
    arrays: Seq<Seq<char>>,
    scalars: Seq<Seq<char>>,
    acc: Seq<StatementView>,
) -> Result<(Seq<StatementView>, Seq<Seq<char>>), ParseError>
    decreases sts.len(),
{
    if sts.len() == 0 {
        Ok((acc, scalars))
    } else {
        match analyze_statement(sts[0], arrays, scalars) {
            Err(e) => Err(e),
            Ok((s1, sc1)) => analyze_statements(sts.drop_first(), arrays, sc1, acc.push(s1)),
        }
    }
}

pub open spec fn analyze_action_spec(
    a: Option<ActionView>,
    arrays: Seq<Seq<char>>,
    scalars: Seq<Seq<char>>,
) -> Result<(Option<ActionView>, Seq<Seq<char>>), ParseError> {
    match a {
        None => Ok((None, scalars)),
        Some(action) => match action.statements {
            None => Ok((a, scalars)),
            Some(sts) => match analyze_statements(sts, arrays, scalars, Seq::empty()) {
                Err(e) => Err(e),
                Ok((sts1, s1)) => Ok((Some(ActionView { statements: Some(sts1) }), s1)),
            },
        },
    }
}

/// A routine with its names resolved: the condition before the action.
pub open spec fn analyze_routine_spec(
    r: RoutineView,
    arrays: Seq<Seq<char>>,
    scalars: Seq<Seq<char>>,
) -> Result<(RoutineView, Seq<Seq<char>>), ParseError> {
    let (c1, s1) = match r.cond {
        None => (None, scalars),
        Some(c) => {
            let (e, s) = analyze_expr(c, arrays, scalars);
            (Some(e), s)
        },
    };
    match analyze_action_spec(Some(r.action), arrays, s1) {
        Err(e) => Err(e),
        Ok((a1, s2)) => Ok((RoutineView { cond: c1, action: a1->0 }, s2)),
    }
}

pub open spec fn analyze_routines(
    rs: Seq<RoutineView>,
    arrays: Seq<Seq<char>>,
    scalars: Seq<Seq<char>>,
    acc: Seq<RoutineView>,
) -> Result<(Seq<RoutineView>, Seq<Seq<char>>), ParseError>
    decreases rs.len(),
{
    if rs.len() == 0 {
        Ok((acc, scalars))
    } else {
        match analyze_routine_spec(rs[0], arrays, scalars) {
            Err(e) => Err(e),
            Ok((r1, s1)) => analyze_routines(rs.drop_first(), arrays, s1, acc.push(r1)),
        }
    }
}

/// A program after analysis, with the number of scalar slots and the number
/// of arrays that it needs.
pub struct AnalyzedView {
    pub begin: Option<ActionView>,
    pub end: Option<ActionView>,
    pub routines: Seq<RoutineView>,
    pub num_scalars: nat,
    pub num_arrays: nat,
}

/// The analysis of a program: the BEGIN block, then the routines in order,
/// then the END block. The first assignment to the name of an array, in that
/// order, is the error of the program.
pub open spec fn analyze_program(
    arrays: Seq<Seq<char>>,
    begin: Option<ActionView>,
    end: Option<ActionView>,
    routines: Seq<RoutineView>,
) -> Result<AnalyzedView, ParseError> {
    match analyze_action_spec(begin, arrays, Seq::empty()) {
        Err(e) => Err(e),
        Ok((b, s1)) => match analyze_routines(routines, arrays, s1, Seq::empty()) {
            Err(e) => Err(e),
            Ok((rs, s2)) => match analyze_action_spec(end, arrays, s2) {
                Err(e) => Err(e),
                Ok((e, s3)) => Ok(
                    AnalyzedView {
                        begin: b,
                        end: e,
                        routines: rs,
                        num_scalars: s3.len(),
                        num_arrays: arrays.len(),
                    },
                ),
            },
        },
    }
}

pub open spec fn option_action_view(a: Option<Action>) -> Option<ActionView> {
    match a {
        Some(x) => Some(x@),
        None => None,
    }
}

/// Analyzes the program to replace every `Variable::NotYetKnown` with the
/// variable that it is. A program that assigns to the name of an array is in
/// error, and is left as it was.
///
/// Returns the number of distinct scalar variables.
pub fn analyze(
    known_arrays: &Vec<String>,
    begin: &mut Option<Action>,
    end: &mut Option<Action>,
    routines: &mut Vec<Routine>,
) -> (r: Result<usize, Error>)
    ensures
        match analyze_program(
            names_view(known_arrays@),
            option_action_view(*old(begin)),
            option_action_view(*old(end)),
            routines_view(old(routines)@),
        ) {
            Ok(a) => r matches Ok(n) && n == a.num_scalars && option_action_view(*final(begin))
                == a.begin && option_action_view(*final(end)) == a.end && routines_view(
                final(routines)@,
            ) == a.routines,
            Err(e) => r matches Err(x) && x@ == error_of(e) && *final(begin) == *old(begin)
                && *final(end) == *old(end) && *final(routines) == *old(routines),
        },
{
    let mut vars = VarsMap::new(known_arrays);
    let new_begin = match begin {
        Some(a) => Some(analyze_action(a, &mut vars)?),
        None => None,
    };
    let ghost s1 = vars.scalars();
    let mut new_routines: Vec<Routine> = Vec::new();
    let ghost all = routines_view(routines@);
    let mut i: usize = 0;
    assert(all.subrange(0, all.len() as int) == all);
    assert(routines_view(new_routines@) =~= Seq::<RoutineView>::empty());
    while i < routines.len()
        invariant
            i <= routines.len(),
            all == routines_view(routines@),
            *routines == *old(routines),
            *begin == *old(begin),
            *end == *old(end),
            vars.arrays() == names_view(known_arrays@),
            analyze_action_spec(option_action_view(*begin), vars.arrays(), Seq::empty()) is Ok,
            analyze_action_spec(option_action_view(*begin), vars.arrays(), Seq::empty())->Ok_0.1
                == s1,
            analyze_routines(all, vars.arrays(), s1, Seq::empty()) == analyze_routines(
                all.subrange(i as int, all.len() as int),
                vars.arrays(),
                vars.scalars(),
                routines_view(new_routines@),
            ),
        decreases routines.len() - i,
    {
        let ghost rest = all.subrange(i as int, all.len() as int);
        let ghost acc = routines_view(new_routines@);
        proof {
            assert(rest[0] == routines@[i as int]@);
            assert(rest.drop_first() == all.subrange(i + 1, all.len() as int));
        }
        let r = analyze_routine(&routines[i], &mut vars)?;
        let ghost rv = r@;
        new_routines.push(r);
        assert(routines_view(new_routines@) =~= acc.push(rv));
        i = i + 1;
    }
    let new_end = match end {
        Some(a) => Some(analyze_action(a, &mut vars)?),
        None => None,
    };
    *begin = new_begin;
    *end = new_end;
    *routines = new_routines;
    Ok(vars.num_scalars())
}

/// The expression `e` with every `Variable::NotYetKnown` replaced by the
/// variable that it is.
fn analyze_expression(e: &Expression, vars: &mut VarsMap) -> (r: Expression)
    ensures
        final(vars).arrays() == old(vars).arrays(),
        (r@, final(vars).scalars()) == analyze_expr(e@, old(vars).arrays(), old(vars).scalars()),
    decreases e,
{
    match e {
        Expression::Attr(a) => Expression::Attr(*a),
        Expression::Atom(v) => Expression::Atom(v.clone()),
        Expression::Var(v) => Expression::Var(analyze_variable(v, vars)),
        Expression::Bin(b) => {
            let left = analyze_expression(&b.left, vars);
            let right = analyze_expression(&b.right, vars);
            Expression::Bin(BinaryOp { kind: b.kind, left: Box::new(left), right: Box::new(right) })
        },
    }
}

fn analyze_variable(v: &Variable, vars: &mut VarsMap) -> (r: Variable)
    ensures
        final(vars).arrays() == old(vars).arrays(),
        (r@, final(vars).scalars()) == analyze_var(v@, old(vars).arrays(), old(vars).scalars()),
    decreases v,
{
    match v {
        Variable::NotYetKnown(name) => vars.new_variable(name.as_str()),
        Variable::ArrSub(a) => {
            let sub = analyze_expression(&a.subscript, vars);
            Variable::ArrSub(ArraySubscript { id: a.id, subscript: Box::new(sub) })
        },
        _ => clone_variable(v),
    }
}

/// The assignment with its names resolved, unless its target is the name of
/// an array.
fn analyze_assignment(a: &Assignment, vars: &mut VarsMap) -> (r: Result<Assignment, Error>)
    ensures
        final(vars).arrays() == old(vars).arrays(),
        match analyze_statement(
            StatementView::Assignment(a.lhs@, a.rhs@),
            old(vars).arrays(),
            old(vars).scalars(),
        ) {
            Ok((st, sc)) => r matches Ok(x) && StatementView::Assignment(x.lhs@, x.rhs@) == st
                && final(vars).scalars() == sc,
            Err(e) => r matches Err(x) && x@ == error_of(e),
        },
{
    let lhs = analyze_variable(&a.lhs, vars);
    let rhs = analyze_expression(&a.rhs, vars);
    match lhs {
        Variable::Arr(id) => {
            let name = match &a.lhs {
                Variable::NotYetKnown(name) => name.clone(),
                Variable::Arr(id) => vars.array_name(*id),
                _ => String::new(),
            };
            Err(syntax_error("Cannot assign to an array name", &Token::Identifier(name)))
        },
        _ => Ok(Assignment { lhs, rhs }),
    }
}

fn analyze_print(exprs: &Vec<Expression>, vars: &mut VarsMap) -> (r: Vec<Expression>)
    ensures
        final(vars).arrays() == old(vars).arrays(),
        (exprs_view(r@), final(vars).scalars()) == analyze_exprs(
            exprs_view(exprs@),
            old(vars).arrays(),
            old(vars).scalars(),
            Seq::empty(),
        ),
{
    let mut out: Vec<Expression> = Vec::new();
    let ghost all = exprs_view(exprs@);
    let mut i: usize = 0;
    assert(all.subrange(0, all.len() as int) == all);
    assert(exprs_view(out@) =~= Seq::<ExprView>::empty());
    while i < exprs.len()
        invariant
            i <= exprs.len(),
            all == exprs_view(exprs@),
            vars.arrays() == old(vars).arrays(),
            analyze_exprs(all, old(vars).arrays(), old(vars).scalars(), Seq::empty())
                == analyze_exprs(
                all.subrange(i as int, all.len() as int),
                vars.arrays(),
                vars.scalars(),
                exprs_view(out@),
            ),
        decreases exprs.len() - i,
    {
        let ghost rest = all.subrange(i as int, all.len() as int);
        let ghost acc = exprs_view(out@);
        proof {
            assert(rest[0] == exprs@[i as int]@);
            assert(rest.drop_first() == all.subrange(i + 1, all.len() as int));
        }
        let e = analyze_expression(&exprs[i], vars);
        let ghost ev = e@;
        out.push(e);
        assert(exprs_view(out@) =~= acc.push(ev));
        i = i + 1;
    }
    out
}

fn analyze_action(action: &Action, vars: &mut VarsMap) -> (r: Result<Action, Error>)
    ensures
        final(vars).arrays() == old(vars).arrays(),
        match analyze_action_spec(Some(action@), old(vars).arrays(), old(vars).scalars()) {
            Ok((a, sc)) => r matches Ok(x) && Some(x@) == a && final(vars).scalars() == sc,
            Err(e) => r matches Err(x) && x@ == error_of(e),
        },
{
    let statements = match &action.statements {
        Some(s) => s,
        None => {
            return Ok(Action { statements: None });
        },
    };
    let mut out: Vec<Statement> = Vec::new();
    let ghost all = statements_view(statements@);
    let mut i: usize = 0;
    assert(all.subrange(0, all.len() as int) == all);
    assert(statements_view(out@) =~= Seq::<StatementView>::empty());
    while i < statements.len()
        invariant
            i <= statements.len(),
            all == statements_view(statements@),
            action@.statements == Some(all),
            vars.arrays() == old(vars).arrays(),
            analyze_statements(all, old(vars).arrays(), old(vars).scalars(), Seq::empty())
                == analyze_statements(
                all.subrange(i as int, all.len() as int),
                vars.arrays(),
                vars.scalars(),
                statements_view(out@),
            ),
        decreases statements.len() - i,
    {
        let ghost rest = all.subrange(i as int, all.len() as int);
        let ghost acc = statements_view(out@);
        proof {
            assert(rest[0] == statements@[i as int]@);
            assert(rest.drop_first() == all.subrange(i + 1, all.len() as int));
        }
        let st = match &statements[i] {
            Statement::Assignment(a) => Statement::Assignment(analyze_assignment(a, vars)?),
            Statement::Print(pr) => Statement::Print(analyze_print(pr, vars)),
        };
        let ghost sv = st@;
        out.push(st);
        assert(statements_view(out@) =~= acc.push(sv));
        i = i + 1;
    }
    Ok(Action { statements: Some(out) })
}

fn analyze_routine(routine: &Routine, vars: &mut VarsMap) -> (r: Result<Routine, Error>)
    ensures
        final(vars).arrays() == old(vars).arrays(),
        match analyze_routine_spec(routine@, old(vars).arrays(), old(vars).scalars()) {
            Ok((v, sc)) => r matches Ok(x) && x@ == v && final(vars).scalars() == sc,
            Err(e) => r matches Err(x) && x@ == error_of(e),
        },
{
    let cond = match routine.cond() {
        Some(cond) => Some(Condition { expr: analyze_expression(&cond.expr, vars) }),
        None => None,
    };
    let action = analyze_action(routine.action(), vars)?;
    Ok(Routine::new(cond, action))
}

struct VarsMap<'a> {
    /// The names that are known to be arrays, each at the index that is its
    /// id.
    known_arrays: &'a Vec<String>,
    /// The names that were found to be scalars, each at the index that is
    /// its slot.
    scalars_map: Vec<String>,
}

impl<'a> VarsMap<'a> {
    closed spec fn arrays(&self) -> Seq<Seq<char>> {
        names_view(self.known_arrays@)
    }

    closed spec fn scalars(&self) -> Seq<Seq<char>> {
        names_view(self.scalars_map@)
    }

    fn new(known_arrays: &'a Vec<String>) -> (r: Self)
        ensures
            r.arrays() == names_view(known_arrays@),
            r.scalars() == Seq::<Seq<char>>::empty(),
    {
        let r = VarsMap { known_arrays, scalars_map: Vec::new() };
        assert(names_view(r.scalars_map@) =~= Seq::<Seq<char>>::empty());
        r
    }

    fn new_variable(&mut self, name: &str) -> (r: Variable)
        ensures
            final(self).arrays() == old(self).arrays(),
            (r@, final(self).scalars()) == resolve(name@, old(self).arrays(), old(self).scalars()),
    {
        let id = find_name(self.known_arrays, name);
        if id < self.known_arrays.len() {
            Variable::Arr(id)
        } else {
            self.scalar(name)
        }
    }

    fn scalar(&mut self, name: &str) -> (r: Variable)
        ensures
            final(self).arrays() == old(self).arrays(),
            ({
                let i = name_index(old(self).scalars(), name@);
                if i < old(self).scalars().len() {
                    r@ == VarView::Scalar(i) && final(self).scalars() == old(self).scalars()
                } else {
                    r@ == VarView::Scalar(old(self).scalars().len() as int) && final(self).scalars() == old(self).scalars().push(name@)
                }
            }),
    {
        let id = find_name(&self.scalars_map, name);
        if id == self.scalars_map.len() {
            let ghost before = names_view(self.scalars_map@);
            self.scalars_map.push(name.to_owned());
            assert(names_view(self.scalars_map@) =~= before.push(name@));
        }
        Variable::Scalar(Identifier { id })
    }

    /// The name of the array with the given id; no name for an id that no
    /// array has.
    fn array_name(&self, id: usize) -> (r: String)
        ensures
            r@ == target_name(VarView::Arr(id as int), self.arrays()),
    {
        if id < self.known_arrays.len() {
            self.known_arrays[id].clone()
        } else {
            String::new()
        }
    }

    fn num_scalars(&self) -> (r: usize)
        ensures
            r == self.scalars().len(),
    {
        self.scalars_map.len()
    }
}

} // verus!
