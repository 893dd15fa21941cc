use tsst::ast::Program;
use tsst::compiler::Compiler;
use tsst::interpreter::{HostReply, HostRequest, Interpreter, RunOutcome};
use tsst::lexer::Lexer;
use tsst::parser::Parser;
use tsst::typechecker::TypeChecker;

fn parse(source: &str) -> Program {
    let tokens = Lexer::new(source).tokenize().expect("source should lex");
    Parser::new(tokens)
        .parse_program()
        .expect("source should parse")
}

#[test]
fn hello_world_typechecks_and_runs() {
    let program = parse(r#"pub fcn main () { cons!("Hello"); }"#);
    TypeChecker::new()
        .check_program(&program)
        .expect("program should typecheck");
    let mut interpreter = Interpreter::new();
    let outcome = interpreter.run(&program).expect("program should run");
    assert!(matches!(outcome, RunOutcome::Finished));
    assert_eq!(interpreter.output(), "Hello\n");
}

#[test]
fn typechecker_rejects_errors_in_unreachable_branches() {
    let program = parse(
        r#"pub fcn main () {
            if false { cre_int value = "wrong"; }
        }"#,
    );
    let error = TypeChecker::new()
        .check_program(&program)
        .expect_err("type mismatch should be caught before execution");
    assert!(error.contains("expected int, got str"));
}

#[test]
fn block_variables_do_not_escape_their_scope() {
    let program = parse(
        r#"pub fcn main () {
            if true { cre_int hidden = 7; }
            cons!(hidden);
        }"#,
    );
    let error = TypeChecker::new()
        .check_program(&program)
        .expect_err("block variable should be out of scope");
    assert!(error.contains("Unknown variable 'hidden'"));
}

#[test]
fn missing_and_duplicate_main_functions_are_rejected() {
    let missing = parse("fcn helper () {}");
    assert!(TypeChecker::new().check_program(&missing).is_err());

    let duplicate = parse("pub fcn main () {} pub fcn main () {}");
    assert!(TypeChecker::new().check_program(&duplicate).is_err());
}

#[test]
fn typed_functions_must_return_on_every_branch() {
    let program = parse(
        r#"fcn maybe (cre_bool condition) -> int {
            if condition { return 1; }
        }
        pub fcn main () {}"#,
    );
    let error = TypeChecker::new()
        .check_program(&program)
        .expect_err("conditional return is not guaranteed");
    assert!(error.contains("on every path"));
}

#[test]
fn non_gui_programs_generate_a_dependency_free_runtime() {
    let program = parse(r#"pub fcn main () { cons!("small"); }"#);
    let generated = Compiler::new()
        .compile_program(&program)
        .expect("program should compile");
    assert!(!generated.contains("enum GuiElement"));
    assert!(!generated.contains("eframe::"));
}

#[test]
fn classic_for_continue_updates_before_continuing() {
    let program = parse(
        r#"pub fcn main () {
            for (cre_int i = 0; i < 3; i = i + 1) {
                if i == 1 { continue; }
            }
        }"#,
    );
    let generated = Compiler::new()
        .compile_program(&program)
        .expect("program should compile");
    let continue_position = generated
        .find("continue;")
        .expect("continue should compile");
    let before_continue = &generated[..continue_position];
    assert!(before_continue.rfind("ensure_same_type").is_some());
}

#[test]
fn os_builtins_typecheck_run_and_compile() {
    let program = parse(
        r#"pub fcn main () {
            cre_str directory = os_current_dir();
            cre_bool exists = os_exists(directory);
            cons!(exists);
        }"#,
    );
    TypeChecker::new()
        .check_program(&program)
        .expect("OS calls should typecheck");
    let mut interpreter = Interpreter::new();
    match interpreter.run(&program).expect("OS calls should run") {
        RunOutcome::Waiting(HostRequest::CurrentDir) => {}
        other => panic!("expected a request for the working directory, got {:?}", other),
    }
    interpreter.answer(HostReply::Text(".".to_string()));
    match interpreter.run(&program).expect("OS calls should run") {
        RunOutcome::Waiting(HostRequest::Exists(path)) => assert_eq!(path, "."),
        other => panic!("expected a request for a path's existence, got {:?}", other),
    }
    interpreter.answer(HostReply::Flag(true));
    assert!(matches!(
        interpreter.run(&program).expect("OS calls should run"),
        RunOutcome::Finished
    ));
    assert_eq!(interpreter.output(), "true\n");

    let generated = Compiler::new()
        .compile_program(&program)
        .expect("OS calls should compile");
    assert!(generated.contains("builtin_os_current_dir()?"));
    assert!(generated.contains("builtin_os_exists"));
}
