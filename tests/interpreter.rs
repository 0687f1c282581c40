use neko::editor_helper::{preview, OutputHint};
use neko::enviroment::Value;
use neko::interpreter::{IResult, Interpreter};
use neko::interpreter_option::InterpreterOptions;
use neko::misc::NekoError;
use neko::number::NumberSystem;
use neko::repl::{command_of, Command, Session};
use neko::style::{colored_output, print_line, result_line};

#[derive(Debug)]
struct F64;

fn f(b: u64) -> f64 {
    f64::from_bits(b)
}

impl NumberSystem for F64 {
    fn parse(&self, text: &str) -> u64 {
        text.parse::<f64>().unwrap().to_bits()
    }
    fn add(&self, a: u64, b: u64) -> u64 {
        (f(a) + f(b)).to_bits()
    }
    fn sub(&self, a: u64, b: u64) -> u64 {
        (f(a) - f(b)).to_bits()
    }
    fn mul(&self, a: u64, b: u64) -> u64 {
        (f(a) * f(b)).to_bits()
    }
    fn div(&self, a: u64, b: u64) -> u64 {
        (f(a) / f(b)).to_bits()
    }
    fn rem(&self, a: u64, b: u64) -> u64 {
        (f(a) % f(b)).to_bits()
    }
    fn pow(&self, a: u64, b: u64) -> u64 {
        f(a).powf(f(b)).to_bits()
    }
    fn render(&self, a: u64) -> String {
        f(a).to_string()
    }
}

fn num(x: f64) -> Value {
    Value::Number(x.to_bits())
}

fn string(s: &str) -> Value {
    Value::String(String::from(s))
}

fn run(text: &str) -> IResult {
    Interpreter::new(F64).interpret(text)
}

#[test]
fn should_eval_math_expression() {
    let mut interpreter = Interpreter::new(F64);
    let result = interpreter.interpret("((20 + 40) ** 20 * 2 - 10) / 10 % 100;").unwrap();
    assert_eq!(result, num(56.0))
}

#[test]
fn should_handle_var_deceration() {
    let mut interpreter = Interpreter::new(F64);
    let result = interpreter.interpret("let foo = 'Hello World!'; foo;").unwrap();
    assert_eq!(result, string("Hello World!"))
}

#[test]
fn should_handle_var_assignment() {
    let mut interpreter = Interpreter::new(F64);
    let result = interpreter.interpret("let foo = 'Hello World'; foo += '!' * 10;").unwrap();
    assert_eq!(result, string("Hello World!!!!!!!!!!"))
}

#[test]
fn should_handle_comparison() {
    let mut interpreter = Interpreter::new(F64);
    assert_eq!(interpreter.interpret("let foo = 20; foo == 20;").unwrap(), Value::Boolean(true));
    assert_eq!(interpreter.interpret("let foo2 = 20; foo2 != 20;").unwrap(), Value::Boolean(false));
    assert_eq!(interpreter.interpret("let foo3 = 20; foo3 >= 10;").unwrap(), Value::Boolean(true));
    assert_eq!(interpreter.interpret("let foo4 = 20; foo4 < 20;").unwrap(), Value::Boolean(false))
}

#[test]
fn comparison_session_on_one_name() {
    let mut interpreter = Interpreter::new(F64);
    assert_eq!(interpreter.interpret("let foo = 20; foo == 20;").unwrap(), Value::Boolean(true));
    assert_eq!(interpreter.interpret("foo != 20;").unwrap(), Value::Boolean(false));
    assert_eq!(interpreter.interpret("foo >= 10;").unwrap(), Value::Boolean(true));
    assert_eq!(interpreter.interpret("foo < 20;").unwrap(), Value::Boolean(false));
}

#[test]
fn calls_a_declared_function() {
    assert_eq!(run("function add(a,b) { a + b; } add(2,3);").unwrap(), num(5.0));
}

#[test]
fn closure_keeps_its_environment() {
    assert_eq!(run("function make() { let n = 10; |x| x + n } let f = make(); f(5);").unwrap(), num(15.0));
}

#[test]
fn declaration_without_value_is_none() {
    assert_eq!(run("let x; x;").unwrap(), Value::NoValue);
}

#[test]
fn error_kinds_of_evaluation() {
    assert!(matches!(run("w = 20;"), Err(NekoError::ReferenceError(_))));
    assert!(matches!(run("let w=1; let w=2;"), Err(NekoError::SyntaxError(_))));
    assert!(matches!(run("1 + 'a';"), Err(NekoError::TypeError(_))));
    assert!(matches!(run("foo();"), Err(NekoError::ReferenceError(_))));
    assert!(matches!(run("1 = 2;"), Err(NekoError::SyntaxError(_))));
    assert!(matches!(run("let v = 1; v();"), Err(NekoError::TypeError(_))));
    assert!(matches!(run("'a' < 'b';"), Err(NekoError::TypeError(_))));
    assert!(matches!(run("-'a';"), Err(NekoError::TypeError(_))));
    assert!(matches!(run("+'a';"), Err(NekoError::TypeError(_))));
}

#[test]
fn division_by_zero_is_a_number() {
    assert_eq!(run("1 / 0;").unwrap(), num(f64::INFINITY));
    match run("0 / 0;").unwrap() {
        Value::Number(b) => assert!(f64::from_bits(b).is_nan()),
        other => panic!("not a number: {:?}", other),
    }
    assert_eq!(run("0 / 0 == 0 / 0;").unwrap(), Value::Boolean(false));
    assert_eq!(run("-0 == 0;").unwrap(), Value::Boolean(true));
    assert_eq!(run("-(1 / 0) < 0;").unwrap(), Value::Boolean(true));
}

#[test]
fn string_repetition_needs_a_whole_count() {
    assert_eq!(run("3 * 'ab';").unwrap(), string("ababab"));
    assert_eq!(run("'ab' * 0;").unwrap(), string(""));
    assert!(matches!(run("'a' * 1.5;"), Err(NekoError::TypeError(_))));
    assert!(matches!(run("'a' * -1;"), Err(NekoError::TypeError(_))));
    assert!(matches!(run("'a' * (0 / 0);"), Err(NekoError::TypeError(_))));
    assert_eq!(run("'x' + 'y';").unwrap(), string("xy"));
}

#[test]
fn truthiness_and_logic() {
    assert_eq!(run("not 0;").unwrap(), Value::Boolean(true));
    assert_eq!(run("not 'a';").unwrap(), Value::Boolean(false));
    assert_eq!(run("let z; not z;").unwrap(), Value::Boolean(true));
    assert_eq!(run("not print;").unwrap(), Value::Boolean(false));
    assert_eq!(run("0 or 'b';").unwrap(), string("b"));
    assert_eq!(run("1 and 2;").unwrap(), num(2.0));
    assert_eq!(run("'' and 2;").unwrap(), string(""));
}

#[test]
fn logical_operators_short_circuit() {
    let text = "let c = 0; function inc() { c += 1; } false and inc(); true or inc(); c;";
    assert_eq!(run(text).unwrap(), num(0.0));
    assert_eq!(run("let c = 0; function inc() { c += 1; } true and inc(); c;").unwrap(), num(1.0));
}

#[test]
fn inner_declaration_does_not_touch_outer_name() {
    let mut interpreter = Interpreter::new(F64);
    assert_eq!(interpreter.interpret("let x = 1; function f() { let x = 2; x; } f();").unwrap(), num(2.0));
    assert_eq!(interpreter.interpret("x;").unwrap(), num(1.0));
}

#[test]
fn functions_see_their_definition_environment() {
    let text = "let n = 1; function g() { n; } function h() { let n = 2; g(); } h();";
    assert_eq!(run(text).unwrap(), num(1.0));
    assert_eq!(run("function k(a, b) { b; } k(1);").unwrap(), Value::NoValue);
}

#[test]
fn state_carries_over_and_survives_errors() {
    let mut interpreter = Interpreter::new(F64);
    assert!(interpreter.interpret("function bad() { 1 + 'a'; } bad();").is_err());
    assert_eq!(interpreter.interpret("let after = 3; after;").unwrap(), num(3.0));
    assert!(interpreter.interpret("let k = error('x');").is_err());
    assert_eq!(interpreter.interpret("let k = 2; k;").unwrap(), num(2.0));
    assert!(interpreter.interpret("function g() { q; }").is_err());
    assert_eq!(interpreter.interpret("after;").unwrap(), num(3.0));
}

#[test]
fn builtins_print_and_error() {
    let mut interpreter = Interpreter::new(F64);
    assert_eq!(interpreter.interpret("print(1, 'a');").unwrap(), Value::NoValue);
    let out = interpreter.take_output();
    assert_eq!(out, vec![vec![num(1.0), string("a")]]);
    assert!(interpreter.take_output().is_empty());
    assert_eq!(interpreter.interpret("error('boom');"), Err(NekoError::UnknownError(String::from("boom"))));
    assert_eq!(interpreter.interpret("error(2.5);"), Err(NekoError::UnknownError(String::from("2.5"))));
    assert!(matches!(interpreter.interpret("error();"), Err(NekoError::TypeError(_))));
}

#[test]
fn runaway_recursion_is_an_error() {
    let result = run("function r() { r(); } r();");
    assert!(matches!(result, Err(NekoError::UnknownError(_))));
}

#[test]
fn options_disable_calls_and_declarations() {
    let mut interpreter = Interpreter::new(F64);
    interpreter.interpret("let x = 1; function f() { 2; }").unwrap();
    let all = InterpreterOptions::all();
    assert_eq!(
        interpreter.interpret_with_option("f();", &all),
        Err(NekoError::UnknownError(String::from("Calls Disabled")))
    );
    assert_eq!(interpreter.interpret_with_option("x = 5;", &all).unwrap(), num(5.0));
    assert_eq!(interpreter.interpret_with_option("let y = 1;", &all).unwrap(), Value::NoValue);
    assert_eq!(interpreter.interpret("x;").unwrap(), num(1.0));
    assert!(matches!(interpreter.interpret("y;"), Err(NekoError::ReferenceError(_))));
    assert_eq!(interpreter.interpret("f();").unwrap(), num(2.0));
    let new = InterpreterOptions::new();
    assert!(!new.disable_calls && !new.disable_decleration);
    assert!(all.disable_calls && all.disable_decleration);
}

#[test]
fn values_as_text() {
    let mut interpreter = Interpreter::new(F64);
    let v = interpreter.interpret("function foo() { } foo;").unwrap();
    assert_eq!(v.stringify(&F64), "[Function: foo]");
    let p = interpreter.interpret("print;").unwrap();
    assert_eq!(p.stringify(&F64), "[Built-In Function: print]");
    let l = interpreter.interpret("|a| a;").unwrap();
    assert_eq!(l.stringify(&F64), "[Function: (lambda)]");
    assert_eq!(num(1.5).stringify(&F64), "1.5");
    assert_eq!(Value::Boolean(true).stringify(&F64), "true");
    assert_eq!(Value::NoValue.stringify(&F64), "none");
    assert_eq!(string("hi").stringify(&F64), "hi");
}

#[test]
fn hint_previews_without_changing_state() {
    let mut interpreter = Interpreter::new(F64);
    interpreter.interpret("let a = 2;").unwrap();
    assert_eq!(preview(&mut interpreter, "a * 3"), None);
    assert_eq!(preview(&mut interpreter, "a * 3;"), Some(String::from("6")));
    assert_eq!(preview(&mut interpreter, "   "), None);
    assert_eq!(preview(&mut interpreter, "let b = 1;"), Some(String::from("none")));
    assert_eq!(preview(&mut interpreter, "a = 10;"), Some(String::from("10")));
    assert_eq!(interpreter.interpret("a;").unwrap(), num(2.0));
    assert!(interpreter.interpret("b;").is_err());
    assert!(interpreter.interpret("let b = 4;").is_ok());
}

#[test]
fn output_hint_shapes() {
    let h = OutputHint::new("abc", "ab");
    assert_eq!(h.display, "abc");
    assert_eq!(h.complete_up_to, 2);
    assert_eq!(h.completion(), Some(String::from("ab")));
    assert_eq!(OutputHint::new("abc", "").completion(), None);
    let l = OutputHint::for_line("his", Some(String::from("6")));
    assert_eq!(l.display, "his\n6");
    assert_eq!(l.complete_up_to, 3);
    assert_eq!(OutputHint::for_line("", None).display, "");
}

#[test]
fn repl_commands_are_classified() {
    assert_eq!(command_of(".help"), Command::Help);
    assert_eq!(command_of(".exit"), Command::Exit);
    assert_eq!(command_of(".editor"), Command::Editor);
    assert_eq!(command_of(".load a.neko"), Command::Load(Some(String::from("a.neko"))));
    assert_eq!(command_of(".load"), Command::Load(None));
    assert_eq!(command_of(".save out.txt extra"), Command::Save(Some(String::from("out.txt"))));
    assert_eq!(command_of("1 + 2;"), Command::Evaluate);
    assert_eq!(command_of(".helpme"), Command::Evaluate);
    let mut session = Session::new();
    session.add_history("let a = 1;");
    session.toggle_editor();
    assert!(session.editor_enabled);
    session.disable_editor();
    assert!(!session.editor_enabled);
    assert_eq!(session.session_history, vec![String::from("let a = 1;")]);
}

#[test]
fn coloured_text_of_values_and_errors() {
    assert_eq!(colored_output(&num(2.0), &F64), "\x1b[33m2\x1b[0m");
    assert_eq!(colored_output(&string("a"), &F64), "\x1b[32m\"a\"\x1b[0m");
    assert_eq!(colored_output(&Value::NoValue, &F64), "\x1b[38;2;128;127;113mnone\x1b[0m");
    assert_eq!(print_line(&vec![Value::Boolean(true), num(1.0)], &F64), "\x1b[33mtrue\x1b[0m \x1b[33m1\x1b[0m");
    assert_eq!(result_line(&Value::NoValue, &F64), None);
    let e = NekoError::TypeError(String::from("bad"));
    assert_eq!(e.colored_text(), "[\x1b[31mType Error\x1b[0m]: bad");
    assert_eq!(e.to_text(), "[Type Error]: bad");
}

#[test]
fn whole_number_literals_are_exact_doubles() {
    for x in [0u64, 1, 7, 10, 20, 56, 1000, 4503599627370495, 4503599627370496, 9007199254740991] {
        assert_eq!(neko::number::integer_to_bits(x), (x as f64).to_bits());
        assert_eq!(neko::number::literal_bits(&x.to_string(), &F64), (x as f64).to_bits());
    }
    assert_eq!(neko::number::literal_bits(&String::from("2.5"), &F64), 2.5f64.to_bits());
    assert_eq!(neko::number::literal_bits(&String::from("9007199254740993"), &F64), 9007199254740993f64.to_bits());
}

#[test]
fn preview_does_not_call_print() {
    let mut interpreter = Interpreter::new(F64);
    assert_eq!(
        interpreter.interpret_with_option("print(1);", &InterpreterOptions::all()),
        Err(NekoError::UnknownError(String::from("Calls Disabled")))
    );
    assert!(interpreter.take_output().is_empty());
}

#[test]
fn unparsable_text_leaves_state() {
    let mut interpreter = Interpreter::new(F64);
    interpreter.interpret("let a = 1;").unwrap();
    assert!(matches!(interpreter.interpret("let a = ;"), Err(NekoError::SyntaxError(_))));
    assert_eq!(interpreter.interpret("a;").unwrap(), num(1.0));
}
