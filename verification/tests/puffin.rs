use puffin::file::{FileState, FileType, Metadata};
use puffin::treewalk::{DirEntry, TreeWalk, WalkMode};
use puffin::Args;

const TEST_DIR: &str = "puffin_tests";

enum ExpectedOutput<'a> {
    String(&'a str),
    Filename,
}

fn file_metadata(size: i64) -> Metadata {
    Metadata { size, nlink: 1, mode: 0o100644, ..Metadata::default() }
}

fn dir_metadata() -> Metadata {
    Metadata { size: 4096, nlink: 2, mode: 0o40755, file_type: FileType::Dir, ..Metadata::default() }
}

/// Runs `prog` on a single file with the given size, and returns what it wrote.
fn run_on_file(path: &str, size: i64, prog: &str) -> String {
    let args = Args { path: path.to_string(), prog: prog.to_string(), n_threads: 1 };
    let root = FileState::new(args.path.clone(), Some(file_metadata(size)));
    let (mut program, outcome) = puffin::driver(&args, &root).unwrap();
    // The root is no directory, so the run is over and there is nothing to walk.
    assert_eq!(outcome.unwrap(), None);
    String::from_utf8(program.prog_state.take_output()).unwrap()
}

/// Runs `program` on a single file with the optionally supplied size.
///
/// If `expected_output` is a string, then it is compared to the program output. Otherwise,
/// the output is compared to the path of the file.
fn test_one_file_with_program(
    test_name: &str,
    size: Option<i64>,
    prog: &str,
    expected_output: ExpectedOutput,
) {
    let path = format!("{TEST_DIR}/{test_name}/{test_name}-file");
    let out = run_on_file(&path, size.unwrap_or(0), prog);

    match expected_output {
        ExpectedOutput::String(expected) => assert_eq!(out, expected, "program: {}", prog),
        ExpectedOutput::Filename => {
            assert_eq!(out, format!("{path}\n"), "program: {}", prog);
        }
    };
}

#[test]
fn empty_program() {
    let dir = format!("{TEST_DIR}/empty_program");
    let path = format!("{dir}/hey");
    let prog = "{ }";

    let args = Args { path: dir.clone(), prog: prog.to_string(), n_threads: 1 };

    let root = FileState::new(args.path.clone(), Some(dir_metadata()));
    let (mut program, outcome) = puffin::driver(&args, &root).unwrap();
    assert_eq!(outcome.unwrap(), Some(WalkMode::Single));

    let mut walk = TreeWalk::new(args.path.clone());
    let mut listed = 0;
    while let Some(d) = walk.next_directory() {
        assert_eq!(d, dir);
        listed += 1;
        let mut entries = vec![DirEntry {
            path: path.clone(),
            name: "hey".to_string(),
            is_dir: Some(false),
            md: None,
        }];
        let stat = |_: &String| Ok(file_metadata(0));
        walk.process_directory(&mut entries, &program.routines, &stat, &mut program.prog_state);
        // The default routine reads no metadata, so none was asked for.
        assert!(entries[0].md.is_none());
    }
    assert_eq!(listed, 1);
    program.finish(Ok(())).unwrap();

    let out = String::from_utf8(program.prog_state.take_output()).unwrap();
    assert_eq!(out.lines().last().unwrap(), path);
}

#[test]
fn size_equals() {
    test_one_file_with_program("size_equals", Some(42), ".size == 42", ExpectedOutput::Filename);
}

#[test]
fn size_greater() {
    test_one_file_with_program("size_greater", Some(42), ".size > 42", ExpectedOutput::String(""));

    test_one_file_with_program("size_greater", Some(42), ".size > 41", ExpectedOutput::Filename);

    test_one_file_with_program(
        "size_greater",
        Some(42),
        ".size >= 43",
        ExpectedOutput::String(""),
    );

    test_one_file_with_program("size_greater", Some(42), ".size >= 42", ExpectedOutput::Filename);
}

#[test]
fn size_less() {
    test_one_file_with_program("size_less", Some(42), ".size < 42", ExpectedOutput::String(""));

    test_one_file_with_program("size_less", Some(42), ".size < 43", ExpectedOutput::Filename);

    test_one_file_with_program("size_less", Some(42), ".size <= 41", ExpectedOutput::String(""));

    test_one_file_with_program("size_less", Some(42), ".size <= 42", ExpectedOutput::Filename);
}

#[test]
fn print_statements_1() {
    test_one_file_with_program(
        "print_statements_1",
        None,
        "{ print 1 } end {print 2 }",
        ExpectedOutput::String("1\n2\n"),
    );
}

#[test]
fn print_statements_2() {
    test_one_file_with_program(
        "print_statements_2",
        Some(42),
        "{ tot = tot + .size } end {print tot }",
        ExpectedOutput::String("42\n"),
    );
}

#[test]
fn plus_equal() {
    test_one_file_with_program(
        "plus_equal",
        Some(42),
        "{ tot += .size } end {print tot }",
        ExpectedOutput::String("42\n"),
    );
}

#[test]
fn minus_equal() {
    test_one_file_with_program(
        "minus_equal",
        Some(42),
        "{ tot -= .size } end {print tot }",
        ExpectedOutput::String("-42\n"),
    );
}

#[test]
fn puffin_strings() {
    // Empty string should evaluate False and not match the file:
    test_one_file_with_program("strings", None, "\"\"", ExpectedOutput::String(""));

    // String with contents should evaluate True and match the file:
    test_one_file_with_program("strings", None, "\"a\"", ExpectedOutput::Filename);

    test_one_file_with_program(
        "strings",
        None,
        "\"a\" { print \"hey\" }",
        ExpectedOutput::String("hey\n"),
    );
}

#[test]
fn print_paths() {
    let path = format!("{TEST_DIR}/print_paths/testfile");

    let out = run_on_file(&path, 0, "{ print .name }");
    assert_eq!(out, "testfile\n");

    let out = run_on_file(&path, 0, "{ print .path }");
    assert_eq!(out, format!("{path}\n"));
}

#[test]
fn print_statements() {
    test_one_file_with_program(
        "print_statements",
        None,
        "{ print \"hey\"; print \"there\" }",
        ExpectedOutput::String("hey\nthere\n"),
    );

    test_one_file_with_program(
        "print_statements",
        Some(69),
        "{ print \"hey\", \"there\"; print \"size:\", .size }",
        ExpectedOutput::String("hey there\nsize: 69\n"),
    );
}

#[test]
fn variables() {
    test_one_file_with_program(
        "variables",
        None,
        "{ var1 = 1; var2 = 2} end {print var1, var2}",
        ExpectedOutput::String("1 2\n"),
    );

    test_one_file_with_program(
        "variables",
        None,
        "{ var1 = 1; var2 = 2; var1 = var2} end {print var1, var2}",
        ExpectedOutput::String("2 2\n"),
    );

    test_one_file_with_program(
        "variables",
        None,
        "begin {var = 1} var { print var + 2 }",
        ExpectedOutput::String("3\n"),
    );

    test_one_file_with_program(
        "variables",
        None,
        "begin {var = 0} var { print var + 2 }",
        ExpectedOutput::String(""),
    );

    test_one_file_with_program(
        "variables",
        None,
        "begin {var1 = 1; var2 = 2} var2 - var1 { print var1 + var2 }",
        ExpectedOutput::String("3\n"),
    );
}

#[test]
fn puffin_arrays() {
    fn expect_output(prog: &str, output: &str) {
        let output = match output {
            "" => "".to_string(),
            _ => format!("{}\n", output),
        };
        test_one_file_with_program("arrays", None, prog, ExpectedOutput::String(&output));
    }

    expect_output("{ arr[1] = 1; arr2[2] = 2} end {print arr[1], arr2[2]}", "1 2");

    expect_output(
        "{ arr[1] = 1; arr[\"key\"] = 2; arr[1] = arr[\"key\"]} end {print arr[1], arr[\"key\"]}",
        "2 2",
    );

    expect_output("{ arr[1] = 1} arr {print arr[1]}", "1");

    expect_output("{ arr[1] = 1} arr[\"key\"] {print \"output\"}", "");

    expect_output("{ arr[1] = 1} arr[\"key\"] + arr[1] {print \"output\"}", "output");

    expect_output(
        "{arr[1] = 1; arr2[arr[1]] = 2; arr[1] += arr2[arr[1]]} end {print arr2[arr[1]], arr2[1], arr[1]}",
        "0 2 3");

    // An array holds integers: a string that reads as no number is stored as 0.
    expect_output("{arr[1] = \"hey\"; arr[2] = \"there\"; print arr[1], arr[2]}", "0 0");
    expect_output("{arr[1] = \"12\"; arr[2] = \"-3\"; print arr[1], arr[2]}", "12 -3");
}

#[test]
fn puffin_expressions() {
    fn expect_output(prog: &str, output: &str) {
        let output = match output {
            "" => "".to_string(),
            _ => format!("{}\n", output),
        };
        test_one_file_with_program("expressions", None, prog, ExpectedOutput::String(&output));
    }

    expect_output("{ print 1 + 2 * 3 }", "7");
    expect_output("{ print (1 + 2) * 3}", "9");
    expect_output("{ print 2 + 3 * 2 / 3 }", "4");
    expect_output("0 or 1 { print 9 }", "9");
    expect_output("1 and 1 { print 9 }", "9");
    expect_output("0 and 1 { print 9 }", "");
    expect_output("1 and 0 { print 9 }", "");
    expect_output("0 and 0 { print 9 }", "");
    expect_output("0 or 0 { print 9 }", "");
    expect_output("0 or 3 - 3 { print 9 }", "");
    expect_output("0 or 3 + 3 { print 9 }", "9");
    expect_output("0 + 1 - 1 or 3 + 3 * 2 / 3 - 5 { print 9 }", "");
    expect_output("{print (1 > 2) * 3}", "0");
    expect_output("{print (1 < 2) * 3}", "3");
    expect_output("{print (((1 + 2) * 3) - 1) * 5 }", "40");
}
