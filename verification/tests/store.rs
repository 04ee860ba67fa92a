use std::sync::Mutex;

use puffin::ast::{Action, Assignment, BinaryOp, Expression, OpKind, Routine, Statement};
use puffin::compiler::compile;
use puffin::file::FileState;
use puffin::program_state::{Buffer, ProgramState};
use puffin::types::Value;
use puffin::variables::{ArraySubscript, Identifier, LockedVars, Variable, VariableState};
use puffin::{flush, Error, SyncWrite};

fn atom(i: i64) -> Expression {
    Expression::Atom(Value::Int(i))
}

fn text(s: &str) -> Expression {
    Expression::Atom(Value::String(s.to_string()))
}

fn scalar(id: usize) -> Variable {
    Variable::Scalar(Identifier { id })
}

fn entry(id: usize, subscript: Expression) -> Variable {
    Variable::ArrSub(ArraySubscript { id, subscript: Box::new(subscript) })
}

fn bin(kind: OpKind, left: Expression, right: Expression) -> Expression {
    Expression::Bin(BinaryOp { kind, left: Box::new(left), right: Box::new(right) })
}

fn message(r: Result<Value, Error>) -> String {
    match r {
        Err(Error::Runtime(e)) => e.message().clone(),
        _ => panic!("expected a runtime error"),
    }
}

#[test]
fn new_store_reads_zero_everywhere() {
    let vars = VariableState::new(2, 2);
    assert_eq!(vars.get_variable(None, &scalar(0)).unwrap(), Value::Int(0));
    assert_eq!(vars.get_variable(None, &scalar(1)).unwrap(), Value::Int(0));
    assert_eq!(vars.get_variable(None, &entry(0, atom(7))).unwrap(), Value::Int(0));
    assert_eq!(vars.get_variable(None, &entry(1, text("k"))).unwrap(), Value::Int(0));
    assert_eq!(vars.get_variable(None, &Variable::Arr(0)).unwrap(), Value::String(String::new()));
}

#[test]
fn reading_a_key_does_not_assign_it() {
    let vars = VariableState::new(0, 1);
    assert_eq!(vars.get_variable(None, &entry(0, atom(7))).unwrap(), Value::Int(0));
    assert_eq!(vars.get_variable(None, &Variable::Arr(0)).unwrap(), Value::String(String::new()));
}

#[test]
fn slots_and_arrays_that_are_not_there() {
    let mut vars = VariableState::new(1, 1);
    let unresolved = "Attempted to use an unresolved variable";
    assert_eq!(message(vars.get_variable(None, &scalar(1))), unresolved);
    assert_eq!(message(vars.get_variable(None, &Variable::Arr(1))), unresolved);
    assert_eq!(message(vars.get_variable(None, &entry(1, atom(0)))), unresolved);
    assert_eq!(
        message(vars.get_variable(None, &Variable::NotYetKnown("x".to_string()))),
        unresolved
    );
    for target in [scalar(1), entry(1, atom(0)), Variable::NotYetKnown("x".to_string())] {
        match vars.set_variable_expression(&target, None, &atom(1)) {
            Err(Error::Runtime(e)) => assert_eq!(e.message(), unresolved),
            _ => panic!("expected a runtime error"),
        }
    }
    assert_eq!(vars.get_variable(None, &scalar(0)).unwrap(), Value::Int(0));
}

#[test]
fn assignment_stores_integers() {
    let mut vars = VariableState::new(2, 1);
    vars.set_variable_expression(&scalar(0), None, &atom(5)).unwrap();
    vars.set_variable_expression(&scalar(1), None, &text("12")).unwrap();
    assert_eq!(vars.get_variable(None, &scalar(0)).unwrap(), Value::Int(5));
    assert_eq!(vars.get_variable(None, &scalar(1)).unwrap(), Value::Int(12));
    vars.set_variable_expression(&scalar(1), None, &text("twelve")).unwrap();
    assert_eq!(vars.get_variable(None, &scalar(1)).unwrap(), Value::Int(0));
    vars.set_variable_expression(&scalar(1), None, &Expression::Atom(Value::Boolean(true)))
        .unwrap();
    assert_eq!(vars.get_variable(None, &scalar(1)).unwrap(), Value::Int(1));
}

#[test]
fn right_hand_side_sees_the_value_before_the_assignment() {
    let mut vars = VariableState::new(1, 0);
    vars.set_variable_expression(&scalar(0), None, &atom(5)).unwrap();
    // a = a + a * 2
    let rhs = bin(
        OpKind::Plus,
        Expression::Var(scalar(0)),
        bin(OpKind::Multiply, Expression::Var(scalar(0)), atom(2)),
    );
    vars.set_variable_expression(&scalar(0), None, &rhs).unwrap();
    assert_eq!(vars.get_variable(None, &scalar(0)).unwrap(), Value::Int(15));
}

#[test]
fn failed_assignment_changes_nothing() {
    let mut vars = VariableState::new(1, 1);
    vars.set_variable_expression(&scalar(0), None, &atom(5)).unwrap();
    vars.set_variable_expression(&entry(0, atom(1)), None, &atom(6)).unwrap();
    let bad = bin(OpKind::Divide, atom(1), atom(0));
    assert!(vars.set_variable_expression(&scalar(0), None, &bad).is_err());
    assert!(vars.set_variable_expression(&entry(0, atom(1)), None, &bad).is_err());
    assert!(vars.set_variable_expression(&entry(0, bad), None, &atom(1)).is_err());
    match vars.set_variable_expression(&Variable::Arr(0), None, &atom(1)) {
        Err(Error::Runtime(e)) => assert_eq!(e.message(), "Cannot assign to an array name"),
        _ => panic!("expected a runtime error"),
    }
    assert_eq!(vars.get_variable(None, &scalar(0)).unwrap(), Value::Int(5));
    assert_eq!(vars.get_variable(None, &Variable::Arr(0)).unwrap(), Value::String("1: 6".into()));
}

#[test]
fn a_borrowed_view_reads_the_store_and_cannot_be_assigned_through() {
    let mut store = VariableState::new(1, 1);
    store.set_variable_expression(&scalar(0), None, &atom(4)).unwrap();
    store.set_variable_expression(&entry(0, atom(1)), None, &atom(8)).unwrap();
    let VariableState::Locked(locked) = store else {
        panic!("a new store is at rest");
    };
    let mut view = VariableState::Unlocked(locked.unlocked());
    assert_eq!(view.get_variable(None, &scalar(0)).unwrap(), Value::Int(4));
    assert_eq!(view.get_variable(None, &entry(0, atom(1))).unwrap(), Value::Int(8));
    assert_eq!(view.get_variable(None, &entry(0, atom(2))).unwrap(), Value::Int(0));
    assert_eq!(view.get_variable(None, &Variable::Arr(0)).unwrap(), Value::String("1: 8".into()));
    match view.set_variable_expression(&scalar(0), None, &atom(5)) {
        Err(Error::Runtime(e)) => {
            assert_eq!(e.message(), "Cannot assign through a borrowed view of the variables")
        }
        _ => panic!("expected a runtime error"),
    }
    assert_eq!(view.get_variable(None, &scalar(0)).unwrap(), Value::Int(4));
    let empty = LockedVars::new(0, 0);
    assert!(VariableState::Unlocked(empty.unlocked()).get_variable(None, &scalar(0)).is_err());
}

#[test]
fn array_keys_are_values_of_any_kind() {
    let mut vars = VariableState::new(0, 1);
    vars.set_variable_expression(&entry(0, atom(1)), None, &atom(10)).unwrap();
    vars.set_variable_expression(&entry(0, text("1")), None, &atom(20)).unwrap();
    vars.set_variable_expression(&entry(0, Expression::Atom(Value::Boolean(true))), None, &atom(30))
        .unwrap();
    assert_eq!(vars.get_variable(None, &entry(0, atom(1))).unwrap(), Value::Int(10));
    assert_eq!(vars.get_variable(None, &entry(0, text("1"))).unwrap(), Value::Int(20));
    assert_eq!(
        vars.get_variable(None, &entry(0, Expression::Atom(Value::Boolean(true)))).unwrap(),
        Value::Int(30)
    );
    assert_eq!(vars.get_variable(None, &entry(0, atom(2))).unwrap(), Value::Int(0));
    // Assigning to a key again replaces its value and keeps its place.
    vars.set_variable_expression(&entry(0, atom(1)), None, &atom(11)).unwrap();
    assert_eq!(
        vars.get_variable(None, &Variable::Arr(0)).unwrap(),
        Value::String("1: 11\n1: 20\nTrue: 30".to_string())
    );
}

#[test]
fn subscripts_are_evaluated() {
    let mut vars = VariableState::new(1, 2);
    vars.set_variable_expression(&scalar(0), None, &atom(3)).unwrap();
    // a[x + 1] = 7, with x = 3
    let key = bin(OpKind::Plus, Expression::Var(scalar(0)), atom(1));
    vars.set_variable_expression(&entry(0, key), None, &atom(7)).unwrap();
    assert_eq!(vars.get_variable(None, &entry(0, atom(4))).unwrap(), Value::Int(7));
    // b[a[4]] = 1
    let nested = Expression::Var(entry(0, atom(4)));
    vars.set_variable_expression(&entry(1, nested), None, &atom(1)).unwrap();
    assert_eq!(vars.get_variable(None, &entry(1, atom(7))).unwrap(), Value::Int(1));
    let f = FileState::new("dir/file".to_string(), None);
    let by_name = Expression::Attr(puffin::types::Attribute::Name);
    vars.set_variable_expression(&entry(1, by_name), Some(&f), &atom(9)).unwrap();
    assert_eq!(vars.get_variable(None, &entry(1, text("file"))).unwrap(), Value::Int(9));
}

#[test]
fn never_assigned_keys_read_zero_in_a_program() {
    let mut program = compile(
        "{ a[1] = 5 } a[2] == 0 { print \"zero\" } a[\"1\"] == 0 { print \"text\" } end { print a }",
    )
    .unwrap();
    let f = FileState::new("f".to_string(), None);
    program.run(&f).unwrap();
    assert_eq!(program.prog_state.take_output(), b"zero\ntext\n1: 5\n".to_vec());
}

#[test]
fn begin_and_end_run_once() {
    let mut program =
        compile("begin { print \"b\"; n = 10 } { n += 1 } end { print \"e\", n }").unwrap();
    let f = FileState::new("f".to_string(), None);
    program.run(&f).unwrap();
    assert_eq!(program.prog_state.take_output(), b"b\ne 11\n".to_vec());
}

#[test]
fn compiled_programs_find_every_variable() {
    let programs = [
        "begin { a = b } c[d] > e { f = c[g[h]] + i; print j, k[l] } end { print m, c }",
        "x { y[x] += z } end { print y[z] }",
        "{ n -= m[n] }",
    ];
    for prog in programs {
        let mut program = compile(prog).unwrap();
        let f = FileState::new("f".to_string(), None);
        program.run(&f).unwrap();
        assert!(program.prog_state.take_diagnostics().is_empty());
    }
}

#[test]
fn expressions_and_variables_are_shown_as_trees() {
    let e = bin(
        OpKind::Plus,
        atom(1),
        bin(OpKind::LessEqual, Expression::Attr(puffin::types::Attribute::Size), text("a\"b")),
    );
    assert_eq!(e.to_text(), "(+ Int(1) (<= Size String(\"a\\\"b\") ) )");
    assert_eq!(Expression::Atom(Value::Boolean(true)).to_text(), "Boolean(true)");
    assert_eq!(scalar(3).to_text(), "Var(3)");
    assert_eq!(Variable::Arr(12).to_text(), "Array(12)");
    assert_eq!(Variable::NotYetKnown("x1".to_string()).to_text(), "TypeUnknown(\"x1\")");
    let nested = entry(0, bin(OpKind::And, Expression::Var(entry(1, atom(2))), atom(0)));
    assert_eq!(nested.to_text(), "Array(0)[(and Array(1)[Int(2)] Int(0) )]");
    assert_eq!(Expression::Var(scalar(0)).to_text(), "Var(0)");
    let ops = [
        (OpKind::EqualEqual, "=="),
        (OpKind::Greater, ">"),
        (OpKind::GreaterEqual, ">="),
        (OpKind::Less, "<"),
        (OpKind::Minus, "-"),
        (OpKind::Multiply, "*"),
        (OpKind::Divide, "/"),
        (OpKind::Or, "or"),
    ];
    for (kind, sign) in ops {
        assert_eq!(bin(kind, atom(1), atom(2)).to_text(), format!("({sign} Int(1) Int(2) )"));
    }
}

#[test]
fn print_writes_one_line() {
    let mut p = ProgramState::new(1, 0);
    Statement::Print(vec![]).interpret(None, &mut p).unwrap();
    Statement::Print(vec![atom(1)]).interpret(None, &mut p).unwrap();
    Statement::Print(vec![atom(1), text("two"), Expression::Var(scalar(0))])
        .interpret(None, &mut p)
        .unwrap();
    assert_eq!(p.output().as_slice(), b"\n1\n1 two 0\n");
    // A print that fails writes nothing.
    let bad = bin(OpKind::Divide, atom(1), atom(0));
    assert!(Statement::Print(vec![atom(1), bad]).interpret(None, &mut p).is_err());
    assert_eq!(p.output().len(), 11);
}

#[test]
fn statements_stop_at_the_first_error() {
    let mut p = ProgramState::new(1, 0);
    let bad = bin(OpKind::Divide, atom(1), atom(0));
    let action = Action::new(Some(vec![
        Statement::Assignment(Assignment { lhs: scalar(0), rhs: atom(1) }),
        Statement::Print(vec![bad]),
        Statement::Assignment(Assignment { lhs: scalar(0), rhs: atom(2) }),
    ]));
    assert!(action.interpret(None, &mut p).is_err());
    assert_eq!(p.vars().get_variable(None, &scalar(0)).unwrap(), Value::Int(1));
}

#[test]
fn default_action_prints_the_path() {
    let mut p = ProgramState::new(0, 0);
    let f = FileState::new("a/b".to_string(), None);
    Action::new(None).interpret(Some(&f), &mut p).unwrap();
    Action::new(None).interpret(None, &mut p).unwrap();
    assert_eq!(p.take_output(), b"a/b\n".to_vec());
    let routine = Routine::new(None, Action::new(None));
    routine.run(&f, &mut p).unwrap();
    assert_eq!(p.take_output(), b"a/b\n".to_vec());
}

#[test]
fn buffer_keeps_what_is_written() {
    let mut b = Buffer::new();
    assert_eq!(b.len(), 0);
    b.trim_newline();
    assert_eq!(b.write(b"one\n"), 4);
    assert_eq!(b.write(b""), 0);
    assert_eq!(b.write(b"two\n"), 4);
    assert_eq!(b.as_slice(), b"one\ntwo\n");
    b.trim_newline();
    assert_eq!(b.as_slice(), b"one\ntwo");
    assert_eq!(b.take(), b"one\ntwo".to_vec());
    assert_eq!(b.len(), 0);
    assert_eq!(Buffer::default().len(), 0);
}

struct Sink {
    writes: Mutex<Vec<Vec<u8>>>,
}

impl SyncWrite for Sink {
    fn write(&self, buf: &[u8]) -> std::io::Result<usize> {
        self.writes.lock().unwrap().push(buf.to_vec());
        Ok(buf.len())
    }
}

#[test]
fn flush_hands_the_output_to_the_sink_in_one_write() {
    let sink = Sink { writes: Mutex::new(Vec::new()) };
    let mut p = ProgramState::new(0, 0);
    flush(&mut p, &sink);
    assert!(sink.writes.lock().unwrap().is_empty());
    p.emit("héllo\n");
    p.emit("there\n");
    flush(&mut p, &sink);
    flush(&mut p, &sink);
    assert_eq!(*sink.writes.lock().unwrap(), vec!["héllo\nthere\n".as_bytes().to_vec()]);
    assert_eq!(p.output().len(), 0);
}
