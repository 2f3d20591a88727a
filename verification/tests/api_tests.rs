use monkey_lang_lib::ast::{Expr, Literal, Stmt};
use monkey_lang_lib::builtins::BuiltinFunctions;
use monkey_lang_lib::environment::Environment;
use monkey_lang_lib::evaluator::Evaluator;
use monkey_lang_lib::lexer::Lexer;
use monkey_lang_lib::object::Object;
use monkey_lang_lib::parser::Parser;
use monkey_lang_lib::token::{Token, Tokens};

#[test]
fn lexing_twice_yields_identical_tokens() {
    let src = "let add = fn(x, y) { x + y; }; add(1, 2);";
    let t1 = Lexer::lex_tokens(src).unwrap();
    let t2 = Lexer::lex_tokens(src).unwrap();
    assert_eq!(t1, t2);
}

#[test]
fn parsing_twice_yields_identical_programs() {
    let src = "let a = [1, 2][0]; if (a < 2) { a } else { {\"k\": a} }";
    let toks = Lexer::lex_tokens(src).unwrap();
    let p1 = Parser::parse_tokens(Tokens::new(toks.clone())).unwrap();
    let p2 = Parser::parse_tokens(Tokens::new(toks)).unwrap();
    assert_eq!(p1, p2);
}

#[test]
fn evaluating_twice_yields_identical_values() {
    let src = "let f = fn(x){ x * x }; f(9) - 1";
    let toks = Lexer::lex_tokens(src).unwrap();
    let prog1 = Parser::parse_tokens(Tokens::new(toks.clone())).unwrap();
    let prog2 = Parser::parse_tokens(Tokens::new(toks)).unwrap();
    let v1 = Evaluator::new().eval_program(prog1);
    let v2 = Evaluator::new().eval_program(prog2);
    assert_eq!(v1.display_string(), v2.display_string());
    assert_eq!(v1.display_string(), "80");
}

#[test]
fn parse_of_single_literal_source() {
    let toks = Lexer::lex_tokens("42").unwrap();
    let prog = Parser::parse_tokens(Tokens::new(toks)).unwrap();
    assert_eq!(
        prog,
        vec![Stmt::ExprStmt(Expr::LiteralExpr(Literal::IntLiteral(42)))]
    );
    let v = Evaluator::new().eval_program(prog);
    assert_eq!(v, Object::Integer(42));
}

#[test]
fn builtin_table_holds_the_five_builtins() {
    let builtins = BuiltinFunctions::new().get_builtins();
    let names: Vec<String> = builtins.iter().map(|(id, _)| id.0.clone()).collect();
    assert_eq!(names, vec!["print", "len", "head", "tail", "cons"]);
    for (_, obj) in &builtins {
        assert!(matches!(obj, Object::Builtin(_, _, _)));
    }
}

#[test]
fn environment_set_then_get() {
    let mut env = Environment::new();
    assert!(env.get("answer").is_none());
    env.set("answer", Object::Integer(42));
    assert_eq!(env.get("answer"), Some(Object::Integer(42)));
    env.set("answer", Object::Integer(7));
    assert_eq!(env.get("answer"), Some(Object::Integer(7)));
    assert!(matches!(env.get("len"), Some(Object::Builtin(_, _, _))));
}

#[test]
fn return_marker_wraps_and_unwraps() {
    let v = Object::ReturnValue(Box::new(Object::Integer(3)));
    assert!(v.is_returned());
    assert_eq!(v.returned(), Object::Integer(3));
    let plain = Object::Boolean(true);
    assert!(!plain.is_returned());
    assert_eq!(plain.returned(), Object::Boolean(true));
}

#[test]
fn integer_display_handles_extremes() {
    assert_eq!(Object::Integer(0).display_string(), "0");
    assert_eq!(Object::Integer(i64::MAX).display_string(), "9223372036854775807");
    assert_eq!(Object::Integer(i64::MIN).display_string(), "-9223372036854775808");
}

#[test]
fn tokens_wraps_a_vector() {
    let toks = Tokens::new(vec![Token::IntLiteral(1), Token::EOF]);
    assert_eq!(toks.tok.len(), 2);
    let prog = Parser::parse_tokens(toks).unwrap();
    assert_eq!(
        prog,
        vec![Stmt::ExprStmt(Expr::LiteralExpr(Literal::IntLiteral(1)))]
    );
}

#[test]
fn parse_error_on_truncated_input() {
    let toks = Lexer::lex_tokens("let x =").unwrap();
    assert!(Parser::parse_tokens(Tokens::new(toks)).is_none());
}
