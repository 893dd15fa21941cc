use tsst::ast::Program;
use tsst::compiler::Compiler;
use tsst::interpreter::{HostReply, HostRequest, Interpreter, RunOutcome};
use tsst::lexer::Lexer;
use tsst::pipeline::parse_source;
use tsst::project::{
    cargo_manifest, ensure_tsst_extension, looks_like_package_colon_import,
    looks_like_package_slash_import, package_module, parse_dependencies, parse_use_import,
    project_manifest, sanitize_package_name, package_source, Dependency, PackageSource,
};
use tsst::runtime::runtime_source;
use tsst::token::TokenKind;
use tsst::typechecker::TypeChecker;
use tsst::value_views::Value;

fn program(source: &str) -> Program {
    parse_source(source).expect("source should parse")
}

fn run_output(source: &str) -> String {
    let p = program(source);
    let mut interpreter = Interpreter::new();
    match interpreter.run(&p) {
        Ok(RunOutcome::Finished) => interpreter.output().clone(),
        Ok(RunOutcome::Waiting(request)) => panic!("unexpected request {:?}", request),
        Err(error) => panic!("unexpected error {}", error),
    }
}

fn run_error(source: &str) -> String {
    let p = program(source);
    Interpreter::new().run(&p).expect_err("run should fail")
}

fn check_error(source: &str) -> String {
    let p = program(source);
    TypeChecker::new().check_program(&p).expect_err("check should fail")
}

#[test]
fn prints_with_cons() {
    assert_eq!(run_output(r#"pub fcn main () { cons!("Hello"); }"#), "Hello\n");
}

#[test]
fn arithmetic_follows_precedence() {
    assert_eq!(run_output("pub fcn main () { cons!(1 + 2 * 3); cons!((1 + 2) * 3); cons!(7 / 2); cons!(-4); }"), "7\n9\n3\n-4\n");
}

#[test]
fn strings_concatenate_with_other_values() {
    assert_eq!(run_output(r#"pub fcn main () { cons!("n=" + 5); cons!(true + "!"); }"#), "n=5\ntrue!\n");
}

#[test]
fn dictionaries_print_in_key_order_and_read_back() {
    let out = run_output(
        r#"pub fcn main () {
            cre_dict d = {"b": 1, "a": 2};
            cons!(d);
            set!(d, "c", 3);
            set!(d, "a", 9);
            cons!(d["c"]);
            cons!(d);
            cons!(len(d));
        }"#,
    );
    assert_eq!(out, "{a: 2, b: 1}\n3\n{a: 9, b: 1, c: 3}\n3\n");
}

#[test]
fn arrays_grow_with_push() {
    let out = run_output(
        r#"pub fcn main () {
            cre_arr a = [1, "two"];
            push!(a, [3]);
            cons!(a);
            cons!(a[1]);
            cons!(len(a));
        }"#,
    );
    assert_eq!(out, "[1, two, [3]]\ntwo\n3\n");
}

#[test]
fn loops_break_and_continue() {
    let out = run_output(
        r#"pub fcn main () {
            cre_int i = 0;
            while true {
                i = i + 1;
                if i == 2 { continue; }
                if i > 3 { break; }
                cons!(i);
            }
            for (cre_int j = 0; j < 4; j = j + 1) {
                if j == 1 { continue; }
                cons!(j);
            }
            for (cre_str key in {"y": 1, "x": 2}) { cons!(key); }
            for (cre_int v in [5, 6]) { cons!(v); }
        }"#,
    );
    assert_eq!(out, "1\n3\n0\n2\n3\nx\ny\n5\n6\n");
}

#[test]
fn functions_return_values_and_recurse() {
    let out = run_output(
        r#"fcn fact (cre_int n) -> int {
            if n <= 1 { return 1; }
            return n * fact(n - 1);
        }
        pub fcn main () { cons!(fact(5)); }"#,
    );
    assert_eq!(out, "120\n");
}

#[test]
fn runtime_errors_are_reported() {
    assert_eq!(run_error("pub fcn main () { cons!(1 / 0); }"), "Cannot divide by zero.");
    assert_eq!(run_error("pub fcn main () { cons!(missing); }"), "Undefined variable 'missing'.");
    assert_eq!(run_error("pub fcn main () { cons!([1][5]); }"), "Array index out of bounds: 5");
    assert_eq!(run_error(r#"pub fcn main () { cons!({"a": 1}["b"]); }"#), "Dictionary key not found: 'b'.");
    assert_eq!(
        run_error(r#"pub fcn main () { cre_int x = 1; x = "s"; }"#),
        "Type mismatch assigning 'x'. Expected int, got str."
    );
    assert_eq!(run_error("pub fcn main () { cons!(1 < true); }"), "Invalid binary operation: int Less bool.");
}

#[test]
fn text_printed_before_an_error_is_kept() {
    let p = program(r#"pub fcn main () { cons!("first"); cons!(2); cons!(1 / 0); cons!("never"); }"#);
    let mut interpreter = Interpreter::new();
    let error = interpreter.run(&p).expect_err("division by zero");
    assert_eq!(error, "Cannot divide by zero.");
    assert_eq!(interpreter.output(), "first\n2\n");
}

#[test]
fn input_is_asked_of_the_host_and_replayed() {
    let p = program(r#"pub fcn main () { cre_str name = input_str("Name? "); cons!("Hello " + name); }"#);
    let mut interpreter = Interpreter::new();
    match interpreter.run(&p) {
        Ok(RunOutcome::Waiting(HostRequest::ReadLine)) => {}
        other => panic!("expected a read request, got {:?}", other),
    }
    assert_eq!(interpreter.output(), "Name? ");
    interpreter.answer(HostReply::Text("Bob\n".to_string()));
    match interpreter.run(&p) {
        Ok(RunOutcome::Finished) => {}
        other => panic!("expected the run to finish, got {:?}", other),
    }
    assert_eq!(interpreter.output(), "Name? Hello Bob\n");
}

#[test]
fn input_int_rejects_text() {
    let p = program(r#"pub fcn main () { cre_int n = input_int("N: "); cons!(n); }"#);
    let mut interpreter = Interpreter::new();
    interpreter.answer(HostReply::Text(" x1 \n".to_string()));
    let error = interpreter.run(&p).expect_err("text is no integer");
    assert_eq!(error, "input_int() expected a valid integer, got 'x1'.");
    let mut interpreter = Interpreter::new();
    interpreter.answer(HostReply::Text(" 42 \n".to_string()));
    assert!(matches!(interpreter.run(&p), Ok(RunOutcome::Finished)));
    assert_eq!(interpreter.output(), "N: 42\n");
    let mut interpreter = Interpreter::new();
    interpreter.answer(HostReply::Text("+7\n".to_string()));
    assert!(matches!(interpreter.run(&p), Ok(RunOutcome::Finished)));
    assert_eq!(interpreter.output(), "N: 7\n");
    let mut interpreter = Interpreter::new();
    interpreter.answer(HostReply::Text("-\n".to_string()));
    let error = interpreter.run(&p).expect_err("a sign alone is no integer");
    assert_eq!(error, "input_int() expected a valid integer, got '-'.");
}

#[test]
fn os_requests_carry_their_arguments() {
    let p = program(r#"pub fcn main () { cre_int code = os_run("echo", ["a", 1]); cons!(code); }"#);
    let mut interpreter = Interpreter::new();
    match interpreter.run(&p) {
        Ok(RunOutcome::Waiting(HostRequest::Run { program, args })) => {
            assert_eq!(program, "echo");
            assert_eq!(args, vec!["a".to_string(), "1".to_string()]);
        }
        other => panic!("expected a run request, got {:?}", other),
    }
    interpreter.answer(HostReply::Int(0));
    assert!(matches!(interpreter.run(&p), Ok(RunOutcome::Finished)));
    assert_eq!(interpreter.output(), "0\n");
    assert_eq!(
        run_error("pub fcn main () { os_sleep(-1); }"),
        "os_sleep() duration cannot be negative."
    );
}

#[test]
fn step_limit_stops_endless_loops() {
    let p = program("pub fcn main () { while true { } }");
    let error = Interpreter::with_step_limit(10).run(&p).expect_err("loop should stop");
    assert_eq!(error, "Execution step limit reached.");
}

#[test]
fn values_print_and_name_their_type() {
    let v = Value::Array(vec![Value::Int(1), Value::Str("x".to_string()), Value::Bool(false)]);
    assert_eq!(v.to_output(), "[1, x, false]");
    assert_eq!(v.type_label(), "arr");
    assert_eq!(Value::Dict(vec![]).type_label(), "dict");
}

#[test]
fn typechecker_reports_the_first_error() {
    assert_eq!(check_error("pub fcn main () { cons!(nope()); }"), "Unknown function 'nope'");
    assert_eq!(
        check_error("fcn f (cre_int a) {} pub fcn main () { f(); }"),
        "Function 'f' expected 1 args, got 0"
    );
    assert_eq!(check_error("pub fcn main () { break; }"), "break used outside of loop");
    assert_eq!(
        check_error("cre_int g = 1; pub fcn main () {}"),
        "Top-level variable 'g' is not supported; declare it inside a function"
    );
    assert_eq!(check_error("pub fcn main (cre_int a) {}"), "main function cannot have parameters");
    assert_eq!(check_error("fcn helper () {}"), "No main function exists");
    assert_eq!(
        check_error("pub fcn main () {} pub fcn main () {}"),
        "Function 'main' already exists"
    );
    assert_eq!(
        check_error(r#"pub fcn main () { cre_int x = 1 + "a"; }"#),
        "Variable 'x' expected int, got str"
    );
}

#[test]
fn typechecker_accepts_loops_and_builtins() {
    let p = program(
        r#"fcn twice (cre_int n) -> int { return n * 2; }
        pub fcn main () {
            cre_arr items = [1, 2];
            for (cre_int i = 0; i < len(items); i = i + 1) { cons!(twice(items[i])); }
            for (cre_int x in items) { if x > 1 { break; } }
            cre_str s = upper(trim(" a "));
            cre_bool b = contains(s, "A");
        }"#,
    );
    TypeChecker::new().check_program(&p).expect("program should check");
}

#[test]
fn compiler_output_ends_with_the_entry_point() {
    let p = program(r#"pub fcn main () { cons!("hi"); }"#);
    let out = Compiler::new().compile_program(&p).expect("program should compile");
    assert!(out.starts_with(&runtime_source(false)));
    assert!(out.contains("fn tsst_main() -> Result<RtValue, String> {\n"));
    assert!(out.contains("    println!(\"{}\", RtValue::Str(String::from(\"hi\")).to_output());\n"));
    assert!(out.ends_with("            std::process::exit(1);\n        }\n    }\n}\n"));
}

#[test]
fn compiler_rejects_what_it_cannot_build() {
    let p = program("cre_int g = 1; pub fcn main () {}");
    assert_eq!(
        Compiler::new().compile_program(&p).expect_err("top-level variable"),
        "Top-level variables are not supported by tsst build yet."
    );
    let p = program("fcn helper () {}");
    assert_eq!(
        Compiler::new().compile_program(&p).expect_err("no main"),
        "Cannot build project because no main function exists."
    );
    let p = program("pub fcn main () { cons!(1, 2); }");
    assert_eq!(
        Compiler::new().compile_program(&p).expect_err("cons takes one argument"),
        "cons!() expects 1 argument."
    );
}

#[test]
fn gui_programs_get_the_gui_runtime() {
    let p = program(r#"pub fcn main () { gui_title("x"); }"#);
    let out = Compiler::new().compile_program(&p).expect("program should compile");
    assert!(out.contains("enum GuiElement"));
    assert!(out.starts_with(&runtime_source(true)));
    assert!(runtime_source(true).contains("use std::sync::{Mutex, OnceLock};"));
    assert!(!runtime_source(false).contains("OnceLock"));
}

#[test]
fn package_names_are_sanitized() {
    assert_eq!(sanitize_package_name("my-app"), "my_app");
    assert_eq!(sanitize_package_name("1abc"), "_1abc");
    assert_eq!(sanitize_package_name(""), "tsst_app");
    assert_eq!(sanitize_package_name("_ok9"), "_ok9");
}

#[test]
fn manifest_dependencies_are_parsed() {
    let manifest = r#"{ "name": "x", "dependencies": { "math": "github:me/math", "local": "path:../lib\"s" } }"#;
    let deps = parse_dependencies(manifest).expect("dependencies should parse");
    assert_eq!(deps.len(), 2);
    assert_eq!(deps[0].name, "math");
    assert_eq!(deps[0].source, "github:me/math");
    assert_eq!(deps[1].name, "local");
    assert_eq!(deps[1].source, "path:../lib\\\"s");
    assert_eq!(parse_dependencies(r#"{ "name": "x" }"#).expect("no dependencies").len(), 0);
    assert_eq!(
        parse_dependencies(r#"{ "dependencies": { "a" "b" } }"#).map(|d| d.len()),
        Err("Expected ':' after dependency 'a'.".to_string())
    );
    assert_eq!(
        parse_dependencies(r#"{ "dependencies": { "a": "b" "#).map(|d| d.len()),
        Err("Could not find end of dependencies object in tsst.json.".to_string())
    );
}

#[test]
fn imports_are_recognized() {
    assert_eq!(parse_use_import(r#"  use "lib/util.tsst";"#), Some("lib/util.tsst".to_string()));
    assert_eq!(parse_use_import("cons!(1);"), None);
    assert!(looks_like_package_slash_import("math/vector"));
    assert!(!looks_like_package_slash_import("./math/vector"));
    assert!(!looks_like_package_slash_import("math/vector.tsst"));
    assert!(looks_like_package_colon_import("math:vector"));
    assert!(!looks_like_package_colon_import("https://x"));
    assert_eq!(ensure_tsst_extension("a/b"), "a/b.tsst");
    assert_eq!(ensure_tsst_extension("a/b.tsst"), "a/b.tsst");
    assert_eq!(
        package_module("math:geo.vector"),
        Ok(("math".to_string(), "geo/vector.tsst".to_string()))
    );
    assert_eq!(package_module("math: "), Err("Invalid package import 'math: '.".to_string()));
}

#[test]
fn project_files_have_their_templates() {
    assert_eq!(
        cargo_manifest("app", false),
        "[package]\nname = \"app\"\nversion = \"0.1.0\"\nedition = \"2021\"\n\n[dependencies]\n"
    );
    assert!(cargo_manifest("app", true).contains("eframe = \"0.29\""));
    assert_eq!(
        project_manifest("demo"),
        "{\n  \"name\": \"demo\",\n  \"version\": \"0.1.0\",\n  \"dependencies\": {}\n}\n"
    );
}

#[test]
fn front_end_reports_errors() {
    assert!(parse_source("pub fcn main () { cons!(\"open); }").is_err());
    assert!(parse_source("pub fcn main ( {").is_err());
    assert!(parse_source("pub fcn main () {}").is_ok());
}

#[test]
fn token_streams_end_with_eof() {
    for source in ["", "pub fcn main () {}", "cre_int x = 1; // note"] {
        let tokens = Lexer::new(source).tokenize().expect("source should lex");
        assert!(matches!(tokens.last().map(|t| &t.kind), Some(TokenKind::Eof)));
    }
}

#[test]
fn answered_runs_print_the_earlier_text_again_first() {
    let p = program(r#"pub fcn main () { cons!("start"); cre_str a = input_str("A? "); cre_str b = input_str("B? "); cons!(a + b); }"#);
    let mut interpreter = Interpreter::new();
    assert!(matches!(interpreter.run(&p), Ok(RunOutcome::Waiting(HostRequest::ReadLine))));
    let first = interpreter.output().clone();
    interpreter.answer(HostReply::Text("x\n".to_string()));
    assert!(matches!(interpreter.run(&p), Ok(RunOutcome::Waiting(HostRequest::ReadLine))));
    let second = interpreter.output().clone();
    assert!(second.starts_with(&first));
    interpreter.answer(HostReply::Text("y\n".to_string()));
    assert!(matches!(interpreter.run(&p), Ok(RunOutcome::Finished)));
    assert!(interpreter.output().starts_with(&second));
    assert_eq!(first, "start\nA? ");
    assert_eq!(interpreter.output(), "start\nA? B? xy\n");
}

#[test]
fn block_variables_stay_in_their_block_when_run() {
    let source = r#"pub fcn main () {
        cre_int x = 1;
        if true { cre_int x = 2; cons!(x); }
        cre_int i = 0;
        while i < 2 { cre_int x = 10 + i; i = i + 1; }
        cons!(x);
    }"#;
    let p = program(source);
    TypeChecker::new().check_program(&p).expect("program should typecheck");
    assert_eq!(run_output(source), "2\n1\n");
    assert_eq!(run_output(r#"pub fcn main () { cre_int x = 1; if true { cre_int x = 2; } cons!(x); }"#), "1\n");
}

fn source_of(source: &str) -> Result<PackageSource, String> {
    package_source(&Dependency { name: "pkg".to_string(), source: source.to_string() })
}

#[test]
fn dependency_sources_pick_how_to_install() {
    assert!(matches!(source_of("github:me/lib"), Ok(PackageSource::Git(u)) if u == "https://github.com/me/lib.git"));
    assert!(matches!(source_of("github:github:me/lib"), Ok(PackageSource::Git(u)) if u == "https://github.com/me/lib.git"));
    assert!(matches!(source_of("path:../lib"), Ok(PackageSource::Local(p)) if p == "../lib"));
    assert!(matches!(source_of("https://example.com/lib.git"), Ok(PackageSource::Git(u)) if u == "https://example.com/lib.git"));
    assert!(matches!(source_of("http://example.com/lib"), Ok(PackageSource::Git(u)) if u == "http://example.com/lib"));
    assert!(matches!(source_of("ftp://x"), Err(e) if e == "Unsupported dependency source for 'pkg': ftp://x"));
}

#[test]
fn a_trailing_line_comment_adds_no_token() {
    for source in ["", "pub fcn main () { cons!(1 - 2); }", "cre_int x = 12 / 3", "a // first"] {
        let tokens = Lexer::new(source).tokenize().expect("source should lex");
        let with_comment = format!("{} // note", source);
        let more = Lexer::new(&with_comment).tokenize().expect("commented source should lex");
        assert_eq!(tokens.len(), more.len());
        for (a, b) in tokens.iter().zip(more.iter()) {
            assert_eq!(format!("{:?}", a.kind), format!("{:?}", b.kind));
        }
    }
}

#[test]
fn dictionaries_stay_sorted_after_updates() {
    let out = run_output(
        r#"pub fcn main () {
            cre_dict d = {"m": 1, "c": 2, "x": 3, "c": 4};
            set!(d, "a", 5);
            set!(d, "z", 6);
            set!(d, "m", 7);
            cons!(d);
            cons!(len(d));
        }"#,
    );
    assert_eq!(out, "{a: 5, c: 4, m: 7, x: 3, z: 6}\n5\n");
}

#[test]
fn dictionaries_print_sorted_whatever_their_stored_order() {
    let v = Value::Dict(vec![
        ("b".to_string(), Value::Int(1)),
        ("a".to_string(), Value::Array(vec![Value::Bool(true), Value::Str("x".to_string())])),
    ]);
    assert_eq!(v.to_output(), "{a: [true, x], b: 1}");
    let nested = Value::Array(vec![Value::Dict(vec![
        ("z".to_string(), Value::Int(3)),
        ("m".to_string(), Value::Dict(vec![("q".to_string(), Value::Int(2)), ("p".to_string(), Value::Int(1))])),
    ])]);
    assert_eq!(nested.to_output(), "[{m: {p: 1, q: 2}, z: 3}]");
}

fn input_int_result(line: &str) -> Result<String, String> {
    let p = program(r#"pub fcn main () { cre_int n = input_int(""); cons!(n); }"#);
    let mut interpreter = Interpreter::new();
    interpreter.answer(HostReply::Text(line.to_string()));
    interpreter.run(&p).map(|_| interpreter.output().clone())
}

#[test]
fn integer_input_follows_i64_parsing() {
    assert_eq!(input_int_result("-9223372036854775808\n"), Ok("-9223372036854775808\n".to_string()));
    assert_eq!(input_int_result("9223372036854775807\n"), Ok("9223372036854775807\n".to_string()));
    assert_eq!(input_int_result("007\n"), Ok("7\n".to_string()));
    assert_eq!(
        input_int_result("9223372036854775808\n"),
        Err("input_int() expected a valid integer, got '9223372036854775808'.".to_string())
    );
    assert_eq!(
        input_int_result("1_000\n"),
        Err("input_int() expected a valid integer, got '1_000'.".to_string())
    );
    assert_eq!(input_int_result("+\n"), Err("input_int() expected a valid integer, got '+'.".to_string()));
}
