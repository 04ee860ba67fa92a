use puffin::ast::Expression;
use puffin::compiler::{compile, Compiler};
use puffin::scanner::{Scanner, Token};
use puffin::types::Value;
use puffin::variables::Variable;
use puffin::file::{FileState, Metadata};
use puffin::program_state::ProgramState;
use puffin::{filter_non_fatal_errors, Error, RuntimeError};

/// Runs the program `prog` on a single file and expects it to end in a runtime error.
fn should_runtime_error(test_name: &str, prog: &str) {
    let path = format!("puffin_tests/{test_name}/{test_name}-file");
    let md = Metadata { ino: 7, uid: 1000, gid: 1000, ..Metadata::default() };

    let mut program = compile(prog).unwrap();
    let f = FileState::new(path, Some(md));
    let res = program.run(&f);
    assert!(res.is_err(), "Program should runtime error: '{}'", prog);
}

#[test]
fn special_values_invalid() {
    should_runtime_error("special_values_invalid", "{ print .owner + 1 }");
    should_runtime_error("special_values_invalid", "{ print .owner + .ino }");
    should_runtime_error("special_values_invalid", "{ arr[1] = .ino; arr[1] += 1 }");
}

#[test]
fn runtime_error_is_reported_with_the_path() {
    let mut program = compile("{ print .owner + 1 } end { print 1 }").unwrap();
    let f = FileState::new("some/file".to_string(), Some(Metadata::default()));
    let err = program.run(&f).unwrap_err();
    assert_eq!(err.to_text(), "Runtime error: Cannot evaluate a special value as an integer");
    // END is not run after a runtime error, and nothing was written.
    assert_eq!(program.prog_state.take_output(), Vec::<u8>::new());
    let diagnostics = program.prog_state.take_diagnostics();
    assert_eq!(diagnostics.len(), 1);
    assert_eq!(diagnostics[0].path.as_deref(), Some("some/file"));
    assert!(matches!(diagnostics[0].error, Error::Runtime(_)));
}

#[test]
fn attribute_in_begin_is_reported_and_the_run_goes_on() {
    let mut program = compile("begin { print .size } { print 1 } end { print .name }").unwrap();
    let f = FileState::new("some/file".to_string(), Some(Metadata::default()));
    program.run(&f).unwrap();
    assert_eq!(program.prog_state.take_output(), b"1\n".to_vec());
    let diagnostics = program.prog_state.take_diagnostics();
    assert_eq!(diagnostics.len(), 2);
    assert!(diagnostics[0].path.is_none());
    assert!(matches!(diagnostics[0].error, Error::AttributeInBeginOrEnd));
    assert_eq!(
        diagnostics[0].error.to_text(),
        "Error: attempt to query a file attribute in a BEGIN or END block."
    );
    assert!(matches!(diagnostics[1].error, Error::AttributeInBeginOrEnd));
}

#[test]
fn failed_stat_is_an_io_error_for_that_file_only() {
    let mut program = compile(".size > 0 { print 1 } end { print 2 }").unwrap();
    let mut f = FileState::new("gone".to_string(), None);
    f.set_metadata(Err(std::io::ErrorKind::NotFound));
    // Only the first outcome of stat is kept.
    f.set_metadata(Ok(Metadata { size: 5, ..Metadata::default() }));
    program.run(&f).unwrap();
    assert_eq!(program.prog_state.take_output(), b"2\n".to_vec());
    let diagnostics = program.prog_state.take_diagnostics();
    assert_eq!(diagnostics.len(), 1);
    assert!(matches!(diagnostics[0].error, Error::IoError(std::io::ErrorKind::NotFound)));
    assert_eq!(diagnostics[0].error.to_text(), "entity not found");
}

#[test]
fn division_by_zero_is_a_runtime_error() {
    let mut program = compile("{ print 1 / 0 }").unwrap();
    let f = FileState::new("f".to_string(), None);
    let err = program.run(&f).unwrap_err();
    assert_eq!(err.message(), "Division by zero");
}

#[test]
fn assignment_to_an_array_name_is_a_compile_error() {
    for prog in [
        "{ a[1] = 1; a = 2 }",
        "{ a = 2; a[1] = 1 }",
        "begin { a += 1 } { print a[1] }",
        "{ print a[1] } end { a -= 1 }",
        "a[1] { } { b = 1; a = b }",
    ] {
        match compile(prog) {
            Err(Error::CompileError((msg, tok))) => {
                assert_eq!(msg, "Cannot assign to an array name", "program: {}", prog);
                assert_eq!(tok, Token::Identifier("a".to_string()), "program: {}", prog);
            }
            _ => panic!("expected a compile error: '{}'", prog),
        }
    }
    let err = compile("{ a[1] = 1; a = 2 }").err().unwrap();
    assert_eq!(
        err.to_text(),
        "Error: Cannot assign to an array name\nUnexpected token: Identifier(\"a\")"
    );
    let mut c = Compiler::new(Scanner::new("{ a[1] = 1; a = 2 }"));
    assert!(matches!(c.compile(), Err(Error::CompileError(_))));
    // To read the name of an array is no error.
    assert!(compile("{ a[1] = 1; b = a; print a }").is_ok());
}

#[test]
fn assignment_to_an_array_is_a_runtime_error_of_the_store() {
    let mut p = ProgramState::new(1, 1);
    let target = Variable::Arr(0);
    let one = Expression::Atom(Value::Int(1));
    match p.assign(&target, None, &one) {
        Err(Error::Runtime(e)) => assert_eq!(e.message(), "Cannot assign to an array name"),
        _ => panic!("expected a runtime error"),
    }
}

#[test]
fn only_runtime_errors_are_fatal() {
    assert!(filter_non_fatal_errors(Ok(())).is_ok());
    assert!(filter_non_fatal_errors(Err(Error::AttributeInBeginOrEnd)).is_ok());
    assert!(filter_non_fatal_errors(Err(Error::IoError(std::io::ErrorKind::NotFound))).is_ok());
    let r = filter_non_fatal_errors(Err(Error::Runtime(RuntimeError::new("boom"))));
    assert_eq!(r.unwrap_err().message(), "boom");
}

#[test]
fn first_runtime_error_is_kept() {
    let mut p = ProgramState::new(0, 0);
    assert!(!p.check_runtime_error());
    p.set_runtime_error(RuntimeError::new("first"));
    p.set_runtime_error(RuntimeError::new("second"));
    assert!(p.check_runtime_error());
    assert_eq!(p.runtime_error().unwrap().message(), "first");
}
