use puffin::ast::{Expression, OpKind, Statement};
use puffin::compiler::{compile, Compiler};
use puffin::scanner::{Scanner, Token};
use puffin::types::Value;
use puffin::variables::Variable;
use puffin::Error;

fn should_error(program: &str) {
    let s = Scanner::new(program);
    let mut c = Compiler::new(s);
    assert!(c.compile().is_err(), "Program should fail to compile: '{}'", program);
}

#[test]
fn begin_and_end() {
    should_error("begin }");
    should_error("begin");
    should_error("end 12");
    should_error("end");
    should_error("end[1]");
}

#[test]
fn action_block() {
    should_error("{ print 1");
    should_error("1 hey");
    should_error(" {{");
    should_error("1 { }}");
}

#[test]
fn statements() {
    should_error("{ print hey 2");
    should_error("{ print hey ; hey = 2 + 2");
    should_error("{ hey = 2 + 2;");
    should_error("{ ident 2 }");
    should_error("{ ident += }");
    should_error("{ ident -= ;}");
    should_error("{ print hey; 2");
    should_error("{ print hey; /");
    should_error("{ print hey; .name");
}

#[test]
fn compiler_expressions() {
    should_error("+");
    should_error("1 +");
    should_error("+ 1");
    should_error("1 + 2 * ");
    should_error("1 + .name - ");
}

#[test]
fn compiler_arrays() {
    should_error("arr[1");
    should_error("arr[1 + 2}");
    should_error("arr[1 + arr[2]");
    should_error("arr[1]]");
    should_error("{ arr[1 = 2}");
    should_error("{ arr[1 = 2}]");
}

#[test]
fn unbalanced_parentheses() {
    should_error("(1 + 2");
    should_error("1 + 2)");
    should_error("{ print (1 }");
}

#[test]
fn compile_error_carries_message_and_token() {
    match compile("begin }") {
        Err(Error::CompileError((msg, tok))) => {
            assert_eq!(msg, "Expected '{' after 'BEGIN'");
            assert_eq!(tok, Token::RightBrace);
        }
        _ => panic!("expected a compile error"),
    }
    match compile("{ x 2 }") {
        Err(e) => {
            assert_eq!(
                e.to_text(),
                "Error: Expected an assignment after identifier\nUnexpected token: Value(Int(2))"
            );
        }
        _ => panic!("expected a compile error"),
    }
}

#[test]
fn program_without_routines_gets_the_default_routine() {
    let p = compile("").unwrap();
    assert!(p.begin.is_none());
    assert!(p.end.is_none());
    assert_eq!(p.routines.len(), 1);
    assert!(p.routines[0].cond().is_none());
    assert!(p.routines[0].action().statements.is_none());

    let p = compile("begin { x = 1 }").unwrap();
    assert!(p.begin.is_some());
    assert_eq!(p.routines.len(), 1);
}

#[test]
fn empty_block_is_the_default_action() {
    let p = compile("{ }").unwrap();
    assert_eq!(p.routines.len(), 1);
    assert!(p.routines[0].action().statements.is_none());
}

#[test]
fn operators_group_from_the_left_by_precedence() {
    let p = compile("1 - 2 - 3 * 4").unwrap();
    let cond = p.routines[0].cond().as_ref().unwrap();
    // (1 - 2) - (3 * 4)
    match &cond.expr {
        Expression::Bin(top) => {
            assert_eq!(top.kind, OpKind::Minus);
            match &*top.left {
                Expression::Bin(l) => {
                    assert_eq!(l.kind, OpKind::Minus);
                    assert!(matches!(&*l.left, Expression::Atom(Value::Int(1))));
                    assert!(matches!(&*l.right, Expression::Atom(Value::Int(2))));
                }
                _ => panic!("left operand should be a difference"),
            }
            match &*top.right {
                Expression::Bin(r) => {
                    assert_eq!(r.kind, OpKind::Multiply);
                }
                _ => panic!("right operand should be a product"),
            }
        }
        _ => panic!("condition should be a binary operation"),
    }
}

#[test]
fn analysis_numbers_scalars_and_arrays_in_order_of_appearance() {
    let p = compile("begin { b = 1 } a[x] > b { c = a[b]; d[1] = a }").unwrap();
    // Arrays: a -> 0, d -> 1. Scalars: b -> 0, x -> 1, c -> 2.
    let begin = p.begin.as_ref().unwrap().statements.as_ref().unwrap();
    match &begin[0] {
        Statement::Assignment(a) => {
            assert!(matches!(&a.lhs, Variable::Scalar(id) if id.id == 0));
        }
        _ => panic!("expected an assignment"),
    }
    let cond = p.routines[0].cond().as_ref().unwrap();
    match &cond.expr {
        Expression::Bin(b) => {
            match &*b.left {
                Expression::Var(Variable::ArrSub(sub)) => {
                    assert_eq!(sub.id, 0);
                    assert!(matches!(
                        &*sub.subscript,
                        Expression::Var(Variable::Scalar(id)) if id.id == 1
                    ));
                }
                _ => panic!("expected an array entry"),
            }
            assert!(matches!(&*b.right, Expression::Var(Variable::Scalar(id)) if id.id == 0));
        }
        _ => panic!("expected a comparison"),
    }
    let stmts = p.routines[0].action().statements.as_ref().unwrap();
    match &stmts[0] {
        Statement::Assignment(a) => {
            assert!(matches!(&a.lhs, Variable::Scalar(id) if id.id == 2));
        }
        _ => panic!("expected an assignment"),
    }
    match &stmts[1] {
        Statement::Assignment(a) => {
            assert!(matches!(&a.lhs, Variable::ArrSub(sub) if sub.id == 1));
            assert!(matches!(&a.rhs, Expression::Var(Variable::Arr(0))));
        }
        _ => panic!("expected an assignment"),
    }
}
