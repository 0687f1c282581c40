use neko::interpreter_option::InterpreterOptions;
use neko::misc::NekoError;
use neko::parser::Parser;
use neko::semantic_analyzer::SemanticAnalyzer;

fn analyze(text: &str) -> Result<(), NekoError> {
    let mut parser = Parser::new(text);
    let mut semantic_analyzer = SemanticAnalyzer::new();
    let ast = parser.parse().unwrap();
    semantic_analyzer.analyze(&ast)
}

#[test]
#[should_panic]
fn should_catch_duplicate_decleration() {
    let mut parser = Parser::new("let w = 20; let w = 20;");
    let mut semantic_analyzer = SemanticAnalyzer::new();
    let ast = parser.parse().unwrap();
    semantic_analyzer.analyze(&ast).unwrap();
}

#[test]
#[should_panic]
fn should_catch_undefined_variable_assignment() {
    let mut parser = Parser::new("w = 20;");
    let mut semantic_analyzer = SemanticAnalyzer::new();
    let ast = parser.parse().unwrap();
    semantic_analyzer.analyze(&ast).unwrap();
}

#[test]
#[should_panic]
fn should_catch_usage_of_undefined_variable() {
    let mut parser = Parser::new("20 + -w;");
    let mut semantic_analyzer = SemanticAnalyzer::new();
    let ast = parser.parse().unwrap();
    semantic_analyzer.analyze(&ast).unwrap();
}

#[test]
fn error_kinds_of_the_analysis() {
    assert!(matches!(analyze("let w = 20; let w = 20;"), Err(NekoError::SyntaxError(_))));
    assert!(matches!(analyze("w = 20;"), Err(NekoError::ReferenceError(_))));
    assert!(matches!(analyze("20 + -w;"), Err(NekoError::ReferenceError(_))));
    assert!(matches!(analyze("function f() {} function f() {}"), Err(NekoError::SyntaxError(_))));
}

#[test]
fn shadowing_in_a_function_scope_is_allowed() {
    assert!(analyze("let x = 1; function f(x) { let y = x; } |x| x;").is_ok());
    assert!(analyze("print; error;").is_ok());
}

#[test]
fn scopes_are_left_after_errors() {
    let mut analyzer = SemanticAnalyzer::new();
    let bad = Parser::new("function f() { q; }").parse().unwrap();
    assert!(analyzer.analyze(&bad).is_err());
    assert_eq!(analyzer.scope.scope_level, 1);
    assert!(analyzer.scope.enclosing_scope.is_none());
    assert!(analyzer.scope.look_up("f", true).is_some());
    assert!(analyzer.scope.look_up("q", false).is_none());
}

#[test]
fn disabled_declarations_are_not_recorded() {
    let mut analyzer = SemanticAnalyzer::new();
    let ast = Parser::new("let a = 1; function g() { }").parse().unwrap();
    assert!(analyzer.analyze_with_options(&ast, &InterpreterOptions::all()).is_ok());
    assert!(analyzer.scope.look_up("a", false).is_none());
    assert!(analyzer.scope.look_up("g", false).is_none());
}
