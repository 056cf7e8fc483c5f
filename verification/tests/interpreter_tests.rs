use langlib::expr::Expr;
use langlib::interpreter::err::{InterpErr, RuntimeErr};
use langlib::interpreter::Interpreter;
use langlib::lexer::Lexer;
use langlib::parser::Parser;

fn run(src: &str) -> Result<Vec<String>, String> {
    let tokens = Lexer::new(src).tokenize().map_err(|_| "lex".to_owned())?;
    let stmts = Parser::new(tokens).get_statements().map_err(|_| "parse".to_owned())?;
    let mut interp = Interpreter::new(stmts);
    match interp.interpret() {
        Ok(()) => Ok(interp.output.clone()),
        Err(_) => Err("runtime".to_owned()),
    }
}

#[test]
fn scenario_precedence() {
    assert_eq!(run("print 1 + 2 * 3;").unwrap(), vec!["7"]);
}

#[test]
fn scenario_concat() {
    assert_eq!(run("let s = \"ab\"; print s + 2;").unwrap(), vec!["ab2"]);
}

#[test]
fn scenario_while() {
    assert_eq!(
        run("let x = 10; while (x > 7) { x = x - 1; print x; }").unwrap(),
        vec!["9", "8", "7"]
    );
}

#[test]
fn scenario_if_else() {
    assert_eq!(run("if (true and false) print \"a\"; else print \"b\";").unwrap(), vec!["b"]);
}

#[test]
fn scenario_function() {
    assert_eq!(run("func add(a, b) { return a + b; } print add(40, 2);").unwrap(), vec!["42"]);
}

#[test]
fn scenario_null_default() {
    assert_eq!(run("let y; print y;").unwrap(), vec!["null"]);
}

#[test]
fn scoping_shadowing() {
    assert_eq!(
        run("{ let x = 1; { let x = 2; print x; } print x; }").unwrap(),
        vec!["2", "1"]
    );
}

#[test]
fn assignment_crosses_scopes() {
    assert_eq!(run("let x = 1; { x = 2; } print x;").unwrap(), vec!["2"]);
}

#[test]
fn declaration_stays_local() {
    assert!(run("{ let x = 1; } print x;").is_err());
}

#[test]
fn closure_capture() {
    assert_eq!(
        run("func make() { let c = 0; func inc() { c = c + 1; return c; } return inc; } \
             let f = make(); print f(); print f();")
        .unwrap(),
        vec!["1", "2"]
    );
}

#[test]
fn arity_error() {
    assert!(run("func zero() { return 1; } print zero(5);").is_err());
}

#[test]
fn for_loop_desugaring() {
    assert_eq!(
        run("for (let i = 0; i < 3; i = i + 1) { print i; }").unwrap(),
        vec!["0", "1", "2"]
    );
    assert!(run("for (let i = 0; i < 3; i = i + 1) { print i; } print i;").is_err());
}

#[test]
fn division_by_zero() {
    assert!(run("print 1 / 0;").is_err());
}

#[test]
fn undefined_variable() {
    assert!(run("print nothing;").is_err());
}

#[test]
fn type_error_on_subtraction() {
    assert!(run("print true - 1;").is_err());
}

#[test]
fn if_condition_must_be_boolean() {
    assert!(run("if (1) print \"a\";").is_err());
}

#[test]
fn top_level_return_is_an_error() {
    assert!(run("return 1;").is_err());
}

#[test]
fn calling_a_non_function() {
    assert!(run("let x = 3; print x(1);").is_err());
}

#[test]
fn while_coerces_condition() {
    assert_eq!(run("let x = 2; while (x) { x = x - 1; print x; }").unwrap(), vec!["1", "0"]);
}

#[test]
fn bang_coerces_operand() {
    assert_eq!(run("print !0; print !\"x\"; print !3;").unwrap(), vec!["true", "false", "false"]);
}

#[test]
fn redeclaration_shadows() {
    assert_eq!(run("let x = 1; let x = 2; print x;").unwrap(), vec!["2"]);
}

#[test]
fn expression_statements_run_for_effect() {
    assert_eq!(run("let x = 1; x + 1; print x;").unwrap(), vec!["1"]);
}

#[test]
fn unicode_identifiers() {
    assert_eq!(run("let grüße = 5; print grüße;").unwrap(), vec!["5"]);
}

#[test]
fn top_level_return_variant() {
    let tokens = Lexer::new("return 1;").tokenize().unwrap();
    let stmts = Parser::new(tokens).get_statements().unwrap();
    let mut interp = Interpreter::new(stmts);
    assert_eq!(
        interp.interpret(),
        Err(InterpErr::RuntimeErr(RuntimeErr::TopLevelReturn(Expr::Num(1))))
    );
}
