//! The program as a tree, and the rules by which it runs.

use vstd::prelude::*;

use vstd::string::*;

use crate::errors::{
    fatal_part, msg_assign_array, msg_unresolved, runtime_result_view, unit_result_view, Error,
    ErrorView, RuntimeError,
};
use crate::file::{eval_attr, eval_result_view, file_view, FileState, FileView};
use crate::program_state::{utf8, DiagnosticView, ProgramState, StateView};
use crate::text::{digits, int_text, u64_to_string};
use crate::types::{
    attribute_needs_metadata, attribute_variant_name, binary_op, to_integer, truthy, value_debug,
    value_debug_text, value_text, Attribute, Value, ValueView,
};
use crate::variables::{ArraySubscript, Variable, VariableState};

verus! {

/// The binary operators of the language.
#[derive(Copy, Clone, Debug, PartialEq, Eq, Structural)]
pub enum OpKind {
    EqualEqual,
    Greater,
    GreaterEqual,
    Less,
    LessEqual,
    Plus,
    Minus,
    Multiply,
    Divide,
    And,
    Or,
}

#[derive(Debug)]
pub struct BinaryOp {
    pub kind: OpKind,
    pub left: Box<Expression>,
    pub right: Box<Expression>,
}

#[derive(Debug)]
pub enum Expression {
    Bin(BinaryOp),
    Attr(Attribute),
    Atom(Value),
    Var(Variable),
}

/// An expression as the rules of the language see it.
pub enum ExprView {
    Bin(OpKind, Box<ExprView>, Box<ExprView>),
    Attr(Attribute),
    Atom(ValueView),
    Var(VarView),
}

/// A variable as the rules of the language see it: a name that analysis has
/// yet to resolve, a scalar slot, a whole array, or one entry of an array.
pub enum VarView {
    NotYetKnown(Seq<char>),
    Scalar(int),
    Arr(int),
    ArrSub(int, Box<ExprView>),
}

pub open spec fn expr_view(e: Expression) -> ExprView
    decreases e,
{
    match e {
        Expression::Bin(b) => ExprView::Bin(
            b.kind,
            Box::new(expr_view(*b.left)),
            Box::new(expr_view(*b.right)),
        ),
        Expression::Attr(a) => ExprView::Attr(a),
        Expression::Atom(v) => ExprView::Atom(v@),
        Expression::Var(v) => ExprView::Var(var_view(v)),
    }
}

pub open spec fn var_view(v: Variable) -> VarView
    decreases v,
{
    match v {
        Variable::NotYetKnown(name) => VarView::NotYetKnown(name@),
        Variable::Scalar(id) => VarView::Scalar(id.id as int),
        Variable::Arr(id) => VarView::Arr(id as int),
        Variable::ArrSub(a) => VarView::ArrSub(a.id as int, Box::new(expr_view(*a.subscript))),
    }
}

impl View for Expression {
    type V = ExprView;

    open spec fn view(&self) -> ExprView {
        expr_view(*self)
    }
}

impl View for Variable {
    type V = VarView;

    open spec fn view(&self) -> VarView {
        var_view(*self)
    }
}

/// The variables of a program: the scalar slots, and the arrays, each a list
/// of the entries assigned so far, no key twice, in the order in which the
/// keys were first assigned.
pub struct StoreView {
    pub scalars: Seq<int>,
    pub arrays: Seq<Seq<(ValueView, int)>>,
}

/// The value of an array at a key: what was last assigned there, or zero.
pub open spec fn array_get(a: Seq<(ValueView, int)>, k: ValueView) -> int
    decreases a.len(),
{
    if a.len() == 0 {
        0
    } else if a[0].0 == k {
        a[0].1
    } else {
        array_get(a.drop_first(), k)
    }
}

/// Whether a key was ever assigned in an array.
pub open spec fn array_has(a: Seq<(ValueView, int)>, k: ValueView) -> bool {
    exists|i: int| 0 <= i < a.len() && (#[trigger] a[i]).0 == k
}

/// The array after an assignment: the entry of the key is replaced where
/// there is one, and added at the end where there is none.
pub open spec fn array_set(a: Seq<(ValueView, int)>, k: ValueView, v: int) -> Seq<
    (ValueView, int),
>
    decreases a.len(),
{
    if a.len() == 0 {
        seq![(k, v)]
    } else if a[0].0 == k {
        seq![(k, v)] + a.drop_first()
    } else {
        seq![a[0]] + array_set(a.drop_first(), k, v)
    }
}

pub open spec fn distinct_keys(a: Seq<(ValueView, int)>) -> bool {
    forall|i: int, j: int| 0 <= i < j < a.len() ==> (#[trigger] a[i]).0 != (#[trigger] a[j]).0
}

pub open spec fn entry_text(e: (ValueView, int)) -> Seq<char> {
    value_text(e.0) + seq![':', ' '] + int_text(e.1)
}

/// An array as text: one `key: value` per entry, a newline between entries.
pub open spec fn array_text(a: Seq<(ValueView, int)>) -> Seq<char>
    decreases a.len(),
{
    if a.len() == 0 {
        Seq::<char>::empty()
    } else if a.len() == 1 {
        entry_text(a[0])
    } else {
        array_text(a.drop_last()) + seq!['\n'] + entry_text(a.last())
    }
}

pub open spec fn runtime(msg: Seq<char>) -> ErrorView {
    ErrorView::Runtime(msg)
}

pub open spec fn lift(r: Result<ValueView, Seq<char>>) -> Result<ValueView, ErrorView> {
    match r {
        Ok(v) => Ok(v),
        Err(m) => Err(ErrorView::Runtime(m)),
    }
}

/// The value of an expression in a file context and a store. Operands are
/// evaluated from left to right, and the first error is the result.
pub open spec fn eval(e: ExprView, f: Option<FileView>, s: StoreView) -> Result<
    ValueView,
    ErrorView,
>
    decreases e,
{
    match e {
        ExprView::Atom(v) => Ok(v),
        ExprView::Attr(a) => eval_attr(a, f),
        ExprView::Var(v) => eval_var(v, f, s),
        ExprView::Bin(op, l, r) => match eval(*l, f, s) {
            Err(e) => Err(e),
            Ok(lv) => match eval(*r, f, s) {
                Err(e) => Err(e),
                Ok(rv) => lift(binary_op(lv, rv, op)),
            },
        },
    }
}

/// The value of a variable: the content of its slot; the text of a whole
/// array; the value at the key to which the subscript evaluates, zero where
/// the key was never assigned. A name that was never resolved, and a slot or
/// an array that the store does not have, are errors.
pub open spec fn eval_var(v: VarView, f: Option<FileView>, s: StoreView) -> Result<
    ValueView,
    ErrorView,
>
    decreases v,
{
    match v {
        VarView::NotYetKnown(_) => Err(runtime(msg_unresolved())),
        VarView::Scalar(id) => if 0 <= id < s.scalars.len() {
            Ok(ValueView::Int(s.scalars[id]))
        } else {
            Err(runtime(msg_unresolved()))
        },
        VarView::Arr(id) => if 0 <= id < s.arrays.len() {
            Ok(ValueView::String(array_text(s.arrays[id])))
        } else {
            Err(runtime(msg_unresolved()))
        },
        VarView::ArrSub(id, sub) => if 0 <= id < s.arrays.len() {
            match eval(*sub, f, s) {
                Err(e) => Err(e),
                Ok(k) => Ok(ValueView::Int(array_get(s.arrays[id], k))),
            }
        } else {
            Err(runtime(msg_unresolved()))
        },
    }
}

/// The store after an assignment, and whether the assignment succeeded. The
/// right-hand side is evaluated in the store as it was before the assignment,
/// and so is the subscript of the target. A failed assignment changes nothing.
pub open spec fn assign(lhs: VarView, rhs: ExprView, f: Option<FileView>, s: StoreView) -> (
    StoreView,
    Result<(), ErrorView>,
) {
    match eval(rhs, f, s) {
        Err(e) => (s, Err(e)),
        Ok(new) => match lhs {
            VarView::NotYetKnown(_) => (s, Err(runtime(msg_unresolved()))),
            VarView::Arr(_) => (s, Err(runtime(msg_assign_array()))),
            VarView::Scalar(id) => if 0 <= id < s.scalars.len() {
                match to_integer(new) {
                    Err(m) => (s, Err(runtime(m))),
                    Ok(i) => (
                        StoreView { scalars: s.scalars.update(id, i), arrays: s.arrays },
                        Ok(()),
                    ),
                }
            } else {
                (s, Err(runtime(msg_unresolved())))
            },
            VarView::ArrSub(id, sub) => if 0 <= id < s.arrays.len() {
                match eval(*sub, f, s) {
                    Err(e) => (s, Err(e)),
                    Ok(k) => match to_integer(new) {
                        Err(m) => (s, Err(runtime(m))),
                        Ok(i) => (
                            StoreView {
                                scalars: s.scalars,
                                arrays: s.arrays.update(id, array_set(s.arrays[id], k, i)),
                            },
                            Ok(()),
                        ),
                    },
                }
            } else {
                (s, Err(runtime(msg_unresolved())))
            },
        },
    }
}

/// A copy of an expression.
pub fn clone_expression(e: &Expression) -> (r: Expression)
    ensures
        r@ == e@,
    decreases e,
{
    match e {
        Expression::Bin(b) => Expression::Bin(
            BinaryOp {
                kind: b.kind,
                left: Box::new(clone_expression(&b.left)),
                right: Box::new(clone_expression(&b.right)),
            },
        ),
        Expression::Attr(a) => Expression::Attr(*a),
        Expression::Atom(v) => Expression::Atom(v.clone()),
        Expression::Var(v) => Expression::Var(clone_variable(v)),
    }
}

/// A copy of a variable.
pub fn clone_variable(v: &Variable) -> (r: Variable)
    ensures
        r@ == v@,
    decreases v,
{
    match v {
        Variable::NotYetKnown(name) => Variable::NotYetKnown(name.clone()),
        Variable::Scalar(id) => Variable::Scalar(*id),
        Variable::Arr(id) => Variable::Arr(*id),
        Variable::ArrSub(a) => Variable::ArrSub(
            ArraySubscript { id: a.id, subscript: Box::new(clone_expression(&a.subscript)) },
        ),
    }
}

impl Clone for Expression {
    fn clone(&self) -> (r: Self)
        ensures
            r@ == self@,
    {
        clone_expression(self)
    }
}

impl Clone for Variable {
    fn clone(&self) -> (r: Self)
        ensures
            r@ == self@,
    {
        clone_variable(self)
    }
}

impl Clone for BinaryOp {
    fn clone(&self) -> (r: Self)
        ensures
            r.kind == self.kind,
            r.left@ == self.left@,
            r.right@ == self.right@,
    {
        BinaryOp {
            kind: self.kind,
            left: Box::new(clone_expression(&self.left)),
            right: Box::new(clone_expression(&self.right)),
        }
    }
}

impl Clone for ArraySubscript {
    fn clone(&self) -> (r: Self)
        ensures
            r.id == self.id,
            r.subscript@ == self.subscript@,
    {
        ArraySubscript { id: self.id, subscript: Box::new(clone_expression(&self.subscript)) }
    }
}

impl BinaryOp {
    pub fn evaluate(&self, f: Option<&FileState>, vars: &VariableState) -> (r: Result<
        Value,
        Error,
    >)
        ensures
            eval_result_view(r) == eval(
                ExprView::Bin(
                    self.kind,
                    Box::new(expr_view(*self.left)),
                    Box::new(expr_view(*self.right)),
                ),
                file_view(f),
                vars@,
            ),
        decreases self, 0nat,
    {
        let l = self.left.evaluate(f, vars)?;
        let r = self.right.evaluate(f, vars)?;
        match l.binary_op(r, self.kind) {
            Ok(v) => Ok(v),
            Err(e) => Err(Error::Runtime(e)),
        }
    }
}

impl Expression {
    /// Evaluate an expression within the context of the given `FileState` and `VariableState`.
    pub fn evaluate(&self, f: Option<&FileState>, vars: &VariableState) -> (r: Result<
        Value,
        Error,
    >)
        ensures
            eval_result_view(r) == eval(self@, file_view(f), vars@),
        decreases self, 0nat,
    {
        match self {
            Expression::Bin(op) => op.evaluate(f, vars),
            Expression::Attr(attr) => attr.evaluate(f),
            Expression::Atom(v) => Ok(v.clone()),
            Expression::Var(var) => var.evaluate(f, vars),
        }
    }
}


#[derive(Debug)]
pub struct Assignment {
    pub lhs: Variable,
    pub rhs: Expression,
}

#[derive(Debug)]
pub enum Statement {
    Assignment(Assignment),
    Print(Vec<Expression>),
}

pub enum StatementView {
    Assignment(VarView, ExprView),
    Print(Seq<ExprView>),
}

pub open spec fn exprs_view(s: Seq<Expression>) -> Seq<ExprView> {
    s.map_values(|e: Expression| e@)
}

impl View for Statement {
    type V = StatementView;

    open spec fn view(&self) -> StatementView {
        match self {
            Statement::Assignment(a) => StatementView::Assignment(a.lhs@, a.rhs@),
            Statement::Print(exprs) => StatementView::Print(exprs_view(exprs@)),
        }
    }
}

pub open spec fn statements_view(s: Seq<Statement>) -> Seq<StatementView> {
    s.map_values(|st: Statement| st@)
}

/// What is done when a routine applies. Without statements, the path of the
/// file is printed.
#[derive(Debug)]
pub struct Action {
    pub statements: Option<Vec<Statement>>,
}

pub struct ActionView {
    pub statements: Option<Seq<StatementView>>,
}

impl View for Action {
    type V = ActionView;

    open spec fn view(&self) -> ActionView {
        ActionView {
            statements: match self.statements {
                Some(s) => Some(statements_view(s@)),
                None => None,
            },
        }
    }
}

#[derive(Debug)]
pub struct Condition {
    pub expr: Expression,
}

/// A condition and the action to take on every file that meets it; without
/// a condition, on every file.
#[derive(Debug)]
pub struct Routine {
    cond: Option<Condition>,
    action: Action,
}

pub struct RoutineView {
    pub cond: Option<ExprView>,
    pub action: ActionView,
}

impl View for Routine {
    type V = RoutineView;

    closed spec fn view(&self) -> RoutineView {
        RoutineView {
            cond: match self.cond {
                Some(c) => Some(c.expr@),
                None => None,
            },
            action: self.action@,
        }
    }
}

pub open spec fn routines_view(s: Seq<Routine>) -> Seq<RoutineView> {
    s.map_values(|r: Routine| r@)
}

/// The line that `print` writes: the texts of the values, a space between
/// two of them, and a newline at the end. The expressions are evaluated from
/// left to right and the first error is the result.
pub open spec fn print_text(exprs: Seq<ExprView>, f: Option<FileView>, s: StoreView) -> Result<
    Seq<char>,
    ErrorView,
>
    decreases exprs.len(),
{
    if exprs.len() == 0 {
        Ok(seq!['\n'])
    } else {
        match eval(exprs[0], f, s) {
            Err(e) => Err(e),
            Ok(v) => match print_text(exprs.drop_first(), f, s) {
                Err(e) => Err(e),
                Ok(rest) => Ok(
                    value_text(v) + (if exprs.len() > 1 {
                        seq![' ']
                    } else {
                        Seq::<char>::empty()
                    }) + rest,
                ),
            },
        }
    }
}

/// The state after a statement, and whether the statement succeeded. A
/// statement that fails leaves the state as it was.
pub open spec fn exec_statement(st: StatementView, f: Option<FileView>, sv: StateView) -> (
    StateView,
    Result<(), ErrorView>,
) {
    match st {
        StatementView::Assignment(lhs, rhs) => {
            let (store, r) = assign(lhs, rhs, f, sv.store);
            (StateView { store: store, ..sv }, r)
        },
        StatementView::Print(exprs) => match print_text(exprs, f, sv.store) {
            Err(e) => (sv, Err(e)),
            Ok(line) => (StateView { out: sv.out + utf8(line), ..sv }, Ok(())),
        },
    }
}

/// The statements in order, up to and including the first that fails.
pub open spec fn exec_statements(sts: Seq<StatementView>, f: Option<FileView>, sv: StateView) -> (
    StateView,
    Result<(), ErrorView>,
)
    decreases sts.len(),
{
    if sts.len() == 0 {
        (sv, Ok(()))
    } else {
        let (sv1, r) = exec_statement(sts[0], f, sv);
        if r is Err {
            (sv1, r)
        } else {
            exec_statements(sts.drop_first(), f, sv1)
        }
    }
}

/// An action: its statements; without statements, the path of the file and
/// a newline are written, and outside a file nothing is done.
pub open spec fn exec_action(a: ActionView, f: Option<FileView>, sv: StateView) -> (
    StateView,
    Result<(), ErrorView>,
) {
    match a.statements {
        Some(sts) => exec_statements(sts, f, sv),
        None => match f {
            Some(fv) => (StateView { out: sv.out + utf8(fv.path + seq!['\n']), ..sv }, Ok(())),
            None => (sv, Ok(())),
        },
    }
}

/// One routine on one file: the action, if there is no condition or the
/// condition evaluates to a value that counts as true.
pub open spec fn run_routine(r: RoutineView, f: FileView, sv: StateView) -> (
    StateView,
    Result<(), ErrorView>,
) {
    match r.cond {
        None => exec_action(r.action, Some(f), sv),
        Some(c) => match eval(c, Some(f), sv.store) {
            Err(e) => (sv, Err(e)),
            Ok(v) => match truthy(v) {
                Err(m) => (sv, Err(ErrorView::Runtime(m))),
                Ok(b) => if b {
                    exec_action(r.action, Some(f), sv)
                } else {
                    (sv, Ok(()))
                },
            },
        },
    }
}

/// The routines in order on one file, up to and including the first that
/// fails.
pub open spec fn run_routines_inner_spec(rs: Seq<RoutineView>, f: FileView, sv: StateView) -> (
    StateView,
    Result<(), ErrorView>,
)
    decreases rs.len(),
{
    if rs.len() == 0 {
        (sv, Ok(()))
    } else {
        let (sv1, r) = run_routine(rs[0], f, sv);
        if r is Err {
            (sv1, r)
        } else {
            run_routines_inner_spec(rs.drop_first(), f, sv1)
        }
    }
}

/// The state with one more error to report.
pub open spec fn reported(sv: StateView, path: Option<Seq<char>>, e: ErrorView) -> StateView {
    StateView { diagnostics: sv.diagnostics.push(DiagnosticView { path: path, error: e }), ..sv }
}

/// The routines on one file. An error is added to those to report, with the
/// path of the file; only a runtime error is also the result.
pub open spec fn run_routines_spec(rs: Seq<RoutineView>, f: FileView, sv: StateView) -> (
    StateView,
    Result<(), Seq<char>>,
) {
    let (sv1, r) = run_routines_inner_spec(rs, f, sv);
    match r {
        Ok(_) => (sv1, Ok(())),
        Err(e) => (reported(sv1, Some(f.path), e), fatal_part(r)),
    }
}

/// The action of a BEGIN or END block, where there is one. An error is added
/// to those to report; only a runtime error is also the result.
pub open spec fn begin_or_end_spec(a: Option<ActionView>, sv: StateView) -> (
    StateView,
    Result<(), Seq<char>>,
) {
    match a {
        None => (sv, Ok(())),
        Some(action) => {
            let (sv1, r) = exec_action(action, None, sv);
            match r {
                Ok(_) => (sv1, Ok(())),
                Err(e) => (reported(sv1, None, e), fatal_part(r)),
            }
        },
    }
}

impl Routine {
    pub fn new(cond: Option<Condition>, action: Action) -> (r: Self)
        ensures
            r@ == (RoutineView {
                cond: match cond {
                    Some(c) => Some(c.expr@),
                    None => None,
                },
                action: action@,
            }),
    {
        Routine { cond, action }
    }

    pub fn cond(&self) -> (r: &Option<Condition>)
        ensures
            self@.cond == (match *r {
                Some(c) => Some(c.expr@),
                None => None,
            }),
    {
        &self.cond
    }

    pub fn action(&self) -> (r: &Action)
        ensures
            self@.action == r@,
    {
        &self.action
    }

    /// Applies the routine to one file.
    pub fn run(&self, f: &FileState, p: &mut ProgramState) -> (r: Result<(), Error>)
        requires
            old(p).well_formed(),
        ensures
            final(p).well_formed(),
            (final(p)@, unit_result_view(r)) == run_routine(self@, f@, old(p)@),
    {
        match &self.cond {
            Some(cond) => {
                let v = cond.expr.evaluate(Some(f), &p.vars())?;
                match v.is_truthy() {
                    Ok(b) => {
                        if b {
                            self.action.interpret(Some(f), p)
                        } else {
                            Ok(())
                        }
                    },
                    Err(e) => Err(Error::Runtime(e)),
                }
            },
            None => self.action.interpret(Some(f), p),
        }
    }
}

/// Runs the routines on one file. An error stops the work on the file and is
/// added to those that are to be reported; a runtime error is returned as
/// well.
pub fn run_routines(routines: &Vec<Routine>, f: &FileState, p: &mut ProgramState) -> (r: Result<
    (),
    RuntimeError,
>)
    requires
        old(p).well_formed(),
    ensures
        final(p).well_formed(),
        (final(p)@, runtime_result_view(r)) == run_routines_spec(
            routines_view(routines@),
            f@,
            old(p)@,
        ),
{
    let res = run_routines_inner(routines, f, p);
    report_and_filter(res, Some(f.path().clone()), p)
}

/// Adds an error to those that are to be reported, and keeps it as the
/// result if it is a runtime error.
pub(crate) fn report_and_filter(res: Result<(), Error>, path: Option<String>, p: &mut ProgramState) -> (r:
    Result<(), RuntimeError>)
    ensures
        final(p).well_formed() == old(p).well_formed(),
        runtime_result_view(r) == fatal_part(unit_result_view(res)),
        final(p)@ == (match res {
            Ok(_) => old(p)@,
            Err(e) => reported(
                old(p)@,
                match path {
                    Some(s) => Some(s@),
                    None => None,
                },
                e@,
            ),
        }),
{
    match res {
        Ok(_) => Ok(()),
        Err(Error::Runtime(e)) => {
            p.report(path, Error::Runtime(e.clone()));
            Err(e)
        },
        Err(e) => {
            p.report(path, e);
            Ok(())
        },
    }
}

fn run_routines_inner(routines: &Vec<Routine>, f: &FileState, p: &mut ProgramState) -> (r: Result<
    (),
    Error,
>)
    requires
        old(p).well_formed(),
    ensures
        final(p).well_formed(),
        (final(p)@, unit_result_view(r)) == run_routines_inner_spec(
            routines_view(routines@),
            f@,
            old(p)@,
        ),
{
    let ghost all = routines_view(routines@);
    let mut i: usize = 0;
    assert(all.subrange(0, all.len() as int) == all);
    while i < routines.len()
        invariant
            i <= routines.len(),
            p.well_formed(),
            all == routines_view(routines@),
            run_routines_inner_spec(all, f@, old(p)@) == run_routines_inner_spec(
                all.subrange(i as int, all.len() as int),
                f@,
                p@,
            ),
        decreases routines.len() - i,
    {
        let ghost rest = all.subrange(i as int, all.len() as int);
        proof {
            assert(rest[0] == routines@[i as int]@);
            assert(rest.drop_first() == all.subrange(i + 1, all.len() as int));
        }
        let r = routines[i].run(f, p);
        if r.is_err() {
            return r;
        }
        i = i + 1;
    }
    Ok(())
}

impl Statement {
    pub fn interpret(&self, f: Option<&FileState>, p: &mut ProgramState) -> (r: Result<(), Error>)
        requires
            old(p).well_formed(),
        ensures
            final(p).well_formed(),
            (final(p)@, unit_result_view(r)) == exec_statement(self@, file_view(f), old(p)@),
    {
        match self {
            Statement::Assignment(a) => p.assign(&a.lhs, f, &a.rhs),
            Statement::Print(exprs) => {
                let ghost all = exprs_view(exprs@);
                let ghost store = p@.store;
                let mut s = String::new();
                let mut i: usize = 0;
                assert(all.subrange(0, all.len() as int) == all);
                proof {
                    match print_text(all, file_view(f), store) {
                        Ok(rest) => {
                            assert(s@ + rest =~= rest);
                        },
                        Err(_) => {},
                    }
                }
                while i < exprs.len()
                    invariant
                        i <= exprs.len(),
                        all == exprs_view(exprs@),
                        store == p@.store,
                        *p == *old(p),
                        p.well_formed(),
                        self@ == StatementView::Print(all),
                        print_text(all, file_view(f), store) == (match print_text(
                            all.subrange(i as int, all.len() as int),
                            file_view(f),
                            store,
                        ) {
                            Err(e) => Err::<Seq<char>, ErrorView>(e),
                            Ok(rest) => Ok(s@ + rest),
                        }),
                    decreases exprs.len() - i,
                {
                    let ghost cur = all.subrange(i as int, all.len() as int);
                    proof {
                        assert(cur[0] == exprs@[i as int]@);
                        assert(cur.drop_first() == all.subrange(i + 1, all.len() as int));
                    }
                    let ghost before = s@;
                    let v = exprs[i].evaluate(f, &p.vars())?;
                    let t = v.to_text();
                    s.append(t.as_str());
                    if i + 1 < exprs.len() {
                        s.push(' ');
                    }
                    proof {
                        let sep = if cur.len() > 1 {
                            seq![' ']
                        } else {
                            Seq::<char>::empty()
                        };
                        assert(s@ =~= before + value_text(v@) + sep);
                        match print_text(cur.drop_first(), file_view(f), store) {
                            Ok(rest) => {
                                assert(before + (value_text(v@) + sep + rest) =~= s@ + rest);
                            },
                            Err(_) => {},
                        }
                    }
                    i = i + 1;
                }
                let ghost before = s@;
                s.push('\n');
                proof {
                    assert(all.subrange(i as int, all.len() as int).len() == 0);
                    assert(s@ =~= before + seq!['\n']);
                }
                p.emit(s.as_str());
                Ok(())
            },
        }
    }
}

impl Action {
    pub fn new(statement: Option<Vec<Statement>>) -> (r: Self)
        ensures
            r.statements == statement,
    {
        Action { statements: statement }
    }

    pub fn interpret(&self, f: Option<&FileState>, p: &mut ProgramState) -> (r: Result<(), Error>)
        requires
            old(p).well_formed(),
        ensures
            final(p).well_formed(),
            (final(p)@, unit_result_view(r)) == exec_action(self@, file_view(f), old(p)@),
    {
        match &self.statements {
            Some(statements) => {
                let ghost all = statements_view(statements@);
                let mut i: usize = 0;
                assert(all.subrange(0, all.len() as int) == all);
                while i < statements.len()
                    invariant
                        i <= statements.len(),
                        p.well_formed(),
                        all == statements_view(statements@),
                        self@.statements == Some(all),
                        exec_statements(all, file_view(f), old(p)@) == exec_statements(
                            all.subrange(i as int, all.len() as int),
                            file_view(f),
                            p@,
                        ),
                    decreases statements.len() - i,
                {
                    let ghost rest = all.subrange(i as int, all.len() as int);
                    proof {
                        assert(rest[0] == statements@[i as int]@);
                        assert(rest.drop_first() == all.subrange(i + 1, all.len() as int));
                    }
                    let r = statements[i].interpret(f, p);
                    if r.is_err() {
                        return r;
                    }
                    i = i + 1;
                }
                Ok(())
            },
            // Default action is to print the path:
            None => {
                match f {
                    Some(f) => {
                        let mut s = f.path().clone();
                        s.push('\n');
                        assert(s@ =~= f@.path + seq!['\n']);
                        p.emit(s.as_str());
                    },
                    None => {},
                };
                Ok(())
            },
        }
    }
}


/// A compiled program with the state in which it runs.
pub struct Program {
    pub begin: Option<Action>,
    pub end: Option<Action>,
    pub routines: Vec<Routine>,
    pub prog_state: ProgramState,
}

pub open spec fn action_option_view(a: Option<Action>) -> Option<ActionView> {
    match a {
        Some(x) => Some(x@),
        None => None,
    }
}

/// The run on a root that is no directory: BEGIN, the routines on the root,
/// END. A runtime error ends the run where it occurs.
pub open spec fn run_spec(
    begin: Option<ActionView>,
    routines: Seq<RoutineView>,
    end: Option<ActionView>,
    f: FileView,
    sv: StateView,
) -> (StateView, Result<(), Seq<char>>) {
    let (s1, r1) = begin_or_end_spec(begin, sv);
    if r1 is Err {
        (s1, r1)
    } else {
        let (s2, r2) = run_routines_spec(routines, f, s1);
        if r2 is Err {
            (s2, r2)
        } else {
            begin_or_end_spec(end, s2)
        }
    }
}

/// Runs the action of a BEGIN or END block, where there is one.
pub fn begin_or_end(action: &Option<Action>, p: &mut ProgramState) -> (r: Result<(), RuntimeError>)
    requires
        old(p).well_formed(),
    ensures
        final(p).well_formed(),
        (final(p)@, runtime_result_view(r)) == begin_or_end_spec(
            action_option_view(*action),
            old(p)@,
        ),
{
    match action {
        Some(action) => {
            let res = action.interpret(None, p);
            report_and_filter(res, None, p)
        },
        None => Ok(()),
    }
}

impl Program {
    pub open spec fn well_formed(&self) -> bool {
        self.prog_state.well_formed()
    }

    /// Runs the BEGIN block.
    pub fn run_begin(&mut self) -> (r: Result<(), RuntimeError>)
        requires
            old(self).well_formed(),
        ensures
            final(self).well_formed(),
            final(self).begin == old(self).begin,
            final(self).end == old(self).end,
            final(self).routines == old(self).routines,
            (final(self).prog_state@, runtime_result_view(r)) == begin_or_end_spec(
                action_option_view(old(self).begin),
                old(self).prog_state@,
            ),
    {
        begin_or_end(&self.begin, &mut self.prog_state)
    }

    /// Runs the END block.
    pub fn run_end(&mut self) -> (r: Result<(), RuntimeError>)
        requires
            old(self).well_formed(),
        ensures
            final(self).well_formed(),
            final(self).begin == old(self).begin,
            final(self).end == old(self).end,
            final(self).routines == old(self).routines,
            (final(self).prog_state@, runtime_result_view(r)) == begin_or_end_spec(
                action_option_view(old(self).end),
                old(self).prog_state@,
            ),
    {
        begin_or_end(&self.end, &mut self.prog_state)
    }

    /// Runs the routines on one file.
    pub fn visit(&mut self, f: &FileState) -> (r: Result<(), RuntimeError>)
        requires
            old(self).well_formed(),
        ensures
            final(self).well_formed(),
            final(self).begin == old(self).begin,
            final(self).end == old(self).end,
            final(self).routines == old(self).routines,
            (final(self).prog_state@, runtime_result_view(r)) == run_routines_spec(
                routines_view(old(self).routines@),
                f@,
                old(self).prog_state@,
            ),
    {
        run_routines(&self.routines, f, &mut self.prog_state)
    }

    /// Runs the program on a root that is no directory: BEGIN, the routines
    /// on the root, END.
    pub fn run(&mut self, root: &FileState) -> (r: Result<(), RuntimeError>)
        requires
            old(self).well_formed(),
        ensures
            final(self).well_formed(),
            final(self).begin == old(self).begin,
            final(self).end == old(self).end,
            final(self).routines == old(self).routines,
            (final(self).prog_state@, runtime_result_view(r)) == run_spec(
                action_option_view(old(self).begin),
                routines_view(old(self).routines@),
                action_option_view(old(self).end),
                root@,
                old(self).prog_state@,
            ),
    {
        self.run_begin()?;
        self.visit(root)?;
        self.run_end()
    }
}


/// Whether an expression mentions an attribute that is read from the
/// metadata of the file.
pub open spec fn expr_needs_metadata(e: ExprView) -> bool
    decreases e,
{
    match e {
        ExprView::Attr(a) => attribute_needs_metadata(a),
        ExprView::Atom(_) => false,
        ExprView::Var(v) => var_needs_metadata(v),
        ExprView::Bin(_, l, r) => expr_needs_metadata(*l) || expr_needs_metadata(*r),
    }
}

pub open spec fn var_needs_metadata(v: VarView) -> bool
    decreases v,
{
    match v {
        VarView::ArrSub(_, sub) => expr_needs_metadata(*sub),
        _ => false,
    }
}

pub open spec fn exprs_need_metadata(es: Seq<ExprView>) -> bool
    decreases es.len(),
{
    es.len() > 0 && (expr_needs_metadata(es[0]) || exprs_need_metadata(es.drop_first()))
}

pub open spec fn statement_needs_metadata(st: StatementView) -> bool {
    match st {
        StatementView::Assignment(lhs, rhs) => var_needs_metadata(lhs) || expr_needs_metadata(rhs),
        StatementView::Print(es) => exprs_need_metadata(es),
    }
}

pub open spec fn statements_need_metadata(sts: Seq<StatementView>) -> bool
    decreases sts.len(),
{
    sts.len() > 0 && (statement_needs_metadata(sts[0]) || statements_need_metadata(
        sts.drop_first(),
    ))
}

pub open spec fn action_needs_metadata(a: ActionView) -> bool {
    match a.statements {
        Some(sts) => statements_need_metadata(sts),
        None => false,
    }
}

pub open spec fn routine_needs_metadata(r: RoutineView) -> bool {
    (match r.cond {
        Some(c) => expr_needs_metadata(c),
        None => false,
    }) || action_needs_metadata(r.action)
}

/// Whether any of the routines mentions an attribute that is read from the
/// metadata of the file. Where none does, no `stat` is needed to run them.
pub open spec fn routines_need_metadata(rs: Seq<RoutineView>) -> bool
    decreases rs.len(),
{
    rs.len() > 0 && (routine_needs_metadata(rs[0]) || routines_need_metadata(rs.drop_first()))
}

impl Expression {
    pub fn needs_metadata(&self) -> (r: bool)
        ensures
            r == expr_needs_metadata(self@),
        decreases self,
    {
        match self {
            Expression::Attr(a) => a.needs_metadata(),
            Expression::Atom(_) => false,
            Expression::Var(v) => variable_needs_metadata(v),
            Expression::Bin(b) => b.left.needs_metadata() || b.right.needs_metadata(),
        }
    }
}

/// Whether the subscript of a variable mentions an attribute that is read
/// from the metadata of the file.
pub fn variable_needs_metadata(v: &Variable) -> (r: bool)
    ensures
        r == var_needs_metadata(v@),
    decreases v,
{
    match v {
        Variable::ArrSub(a) => a.subscript.needs_metadata(),
        _ => false,
    }
}

impl Statement {
    pub fn needs_metadata(&self) -> (r: bool)
        ensures
            r == statement_needs_metadata(self@),
    {
        match self {
            Statement::Assignment(a) => variable_needs_metadata(&a.lhs) || a.rhs.needs_metadata(),
            Statement::Print(exprs) => {
                let ghost all = exprs_view(exprs@);
                let mut i: usize = 0;
                assert(all.subrange(0, all.len() as int) == all);
                while i < exprs.len()
                    invariant
                        i <= exprs.len(),
                        all == exprs_view(exprs@),
                        self@ == StatementView::Print(all),
                        exprs_need_metadata(all) == exprs_need_metadata(
                            all.subrange(i as int, all.len() as int),
                        ),
                    decreases exprs.len() - i,
                {
                    let ghost rest = all.subrange(i as int, all.len() as int);
                    proof {
                        assert(rest[0] == exprs@[i as int]@);
                        assert(rest.drop_first() == all.subrange(i + 1, all.len() as int));
                    }
                    if exprs[i].needs_metadata() {
                        return true;
                    }
                    i = i + 1;
                }
                false
            },
        }
    }
}

impl Action {
    pub fn needs_metadata(&self) -> (r: bool)
        ensures
            r == action_needs_metadata(self@),
    {
        match &self.statements {
            None => false,
            Some(statements) => {
                let ghost all = statements_view(statements@);
                let mut i: usize = 0;
                assert(all.subrange(0, all.len() as int) == all);
                while i < statements.len()
                    invariant
                        i <= statements.len(),
                        all == statements_view(statements@),
                        self@.statements == Some(all),
                        statements_need_metadata(all) == statements_need_metadata(
                            all.subrange(i as int, all.len() as int),
                        ),
                    decreases statements.len() - i,
                {
                    let ghost rest = all.subrange(i as int, all.len() as int);
                    proof {
                        assert(rest[0] == statements@[i as int]@);
                        assert(rest.drop_first() == all.subrange(i + 1, all.len() as int));
                    }
                    if statements[i].needs_metadata() {
                        return true;
                    }
                    i = i + 1;
                }
                false
            },
        }
    }
}

impl Routine {
    pub fn needs_metadata(&self) -> (r: bool)
        ensures
            r == routine_needs_metadata(self@),
    {
        (match &self.cond {
            Some(c) => c.expr.needs_metadata(),
            None => false,
        }) || self.action.needs_metadata()
    }
}

/// Whether the routines need the metadata of the files that they are run
/// on.
pub fn need_metadata(routines: &Vec<Routine>) -> (r: bool)
    ensures
        r == routines_need_metadata(routines_view(routines@)),
{
    let ghost all = routines_view(routines@);
    let mut i: usize = 0;
    assert(all.subrange(0, all.len() as int) == all);
    while i < routines.len()
        invariant
            i <= routines.len(),
            all == routines_view(routines@),
            routines_need_metadata(all) == routines_need_metadata(
                all.subrange(i as int, all.len() as int),
            ),
        decreases routines.len() - i,
    {
        let ghost rest = all.subrange(i as int, all.len() as int);
        proof {
            assert(rest[0] == routines@[i as int]@);
            assert(rest.drop_first() == all.subrange(i + 1, all.len() as int));
        }
        if routines[i].needs_metadata() {
            return true;
        }
        i = i + 1;
    }
    false
}

impl Program {
    /// Whether the program needs the metadata of the files that it visits.
    /// Where it does not, `stat` need not be called for any of them.
    pub fn needs_metadata(&self) -> (r: bool)
        ensures
            r == routines_need_metadata(routines_view(self.routines@)),
    {
        need_metadata(&self.routines)
    }
}


/// The sign by which an operator is written.
pub open spec fn op_symbol(op: OpKind) -> Seq<char> {
    match op {
        OpKind::EqualEqual => "=="@,
        OpKind::Greater => ">"@,
        OpKind::GreaterEqual => ">="@,
        OpKind::Less => "<"@,
        OpKind::LessEqual => "<="@,
        OpKind::Plus => "+"@,
        OpKind::Minus => "-"@,
        OpKind::Multiply => "*"@,
        OpKind::Divide => "/"@,
        OpKind::And => "and"@,
        OpKind::Or => "or"@,
    }
}

/// An expression shown as a tree: a literal as `Debug` writes the value, an
/// attribute by the name of its variant, a variable as `var_text` has it,
/// and an operation in parentheses, the operator before its operands, a
/// space after the operator and after each operand.
pub open spec fn expr_text(e: ExprView) -> Seq<char>
    decreases e,
{
    match e {
        ExprView::Atom(v) => value_debug(v),
        ExprView::Attr(a) => attribute_variant_name(a),
        ExprView::Var(v) => var_text(v),
        ExprView::Bin(op, l, r) => seq!['('] + op_symbol(op) + seq![' '] + expr_text(*l) + seq![
            ' ',
        ] + expr_text(*r) + seq![' ', ')'],
    }
}

/// A variable shown as a tree: a name that is yet to be resolved in quotes,
/// a scalar by its slot, an array by its id, and an entry of an array with
/// its subscript in brackets.
pub open spec fn var_text(v: VarView) -> Seq<char>
    decreases v,
{
    match v {
        VarView::NotYetKnown(name) => "TypeUnknown(\""@ + name + "\")"@,
        VarView::Scalar(id) => "Var("@ + digits(id as nat, 10) + seq![')'],
        VarView::Arr(id) => "Array("@ + digits(id as nat, 10) + seq![')'],
        VarView::ArrSub(id, sub) => "Array("@ + digits(id as nat, 10) + seq![')', '[']
            + expr_text(*sub) + seq![']'],
    }
}

fn op_symbol_text(op: OpKind) -> (r: String)
    ensures
        r@ == op_symbol(op),
{
    match op {
        OpKind::EqualEqual => "==".to_owned(),
        OpKind::Greater => ">".to_owned(),
        OpKind::GreaterEqual => ">=".to_owned(),
        OpKind::Less => "<".to_owned(),
        OpKind::LessEqual => "<=".to_owned(),
        OpKind::Plus => "+".to_owned(),
        OpKind::Minus => "-".to_owned(),
        OpKind::Multiply => "*".to_owned(),
        OpKind::Divide => "/".to_owned(),
        OpKind::And => "and".to_owned(),
        OpKind::Or => "or".to_owned(),
    }
}

/// The text that shows an expression as a tree.
pub fn expression_to_text(e: &Expression) -> (r: String)
    ensures
        r@ == expr_text(e@),
    decreases e,
{
    match e {
        Expression::Atom(v) => value_debug_text(v),
        Expression::Attr(a) => a.variant_name(),
        Expression::Var(v) => variable_to_text(v),
        Expression::Bin(b) => {
            let mut s = String::new();
            s.push('(');
            let sym = op_symbol_text(b.kind);
            s.append(sym.as_str());
            s.push(' ');
            let l = expression_to_text(&b.left);
            s.append(l.as_str());
            s.push(' ');
            let r = expression_to_text(&b.right);
            s.append(r.as_str());
            s.push(' ');
            s.push(')');
            assert(s@ =~= seq!['('] + sym@ + seq![' '] + l@ + seq![' '] + r@ + seq![' ', ')']);
            s
        },
    }
}

/// The text that shows a variable as a tree.
pub fn variable_to_text(v: &Variable) -> (r: String)
    ensures
        r@ == var_text(v@),
    decreases v,
{
    match v {
        Variable::NotYetKnown(name) => {
            let mut s: String = "TypeUnknown(\"".to_owned();
            s.append(name.as_str());
            s.append("\")");
            s
        },
        Variable::Scalar(id) => {
            let mut s: String = "Var(".to_owned();
            let n = u64_to_string(id.id as u64);
            s.append(n.as_str());
            s.push(')');
            assert(s@ =~= "Var("@ + n@ + seq![')']);
            s
        },
        Variable::Arr(id) => {
            let mut s: String = "Array(".to_owned();
            let n = u64_to_string(*id as u64);
            s.append(n.as_str());
            s.push(')');
            assert(s@ =~= "Array("@ + n@ + seq![')']);
            s
        },
        Variable::ArrSub(a) => {
            let mut s: String = "Array(".to_owned();
            let n = u64_to_string(a.id as u64);
            s.append(n.as_str());
            s.push(')');
            s.push('[');
            let sub = expression_to_text(&a.subscript);
            s.append(sub.as_str());
            s.push(']');
            assert(s@ =~= "Array("@ + n@ + seq![')', '['] + sub@ + seq![']']);
            s
        },
    }
}

impl Expression {
    /// The text that shows the expression as a tree.
    pub fn to_text(&self) -> (r: String)
        ensures
            r@ == expr_text(self@),
    {
        expression_to_text(self)
    }
}

impl Variable {
    /// The text that shows the variable as a tree.
    pub fn to_text(&self) -> (r: String)
        ensures
            r@ == var_text(self@),
    {
        variable_to_text(self)
    }
}

} // verus!
