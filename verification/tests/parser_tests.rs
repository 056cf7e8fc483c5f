use langlib::expr::{BinExpr, Expr};
use langlib::lexer::op::{BinOp, UnOp};
use langlib::lexer::token::{Keyword, Token};
use langlib::lexer::Lexer;
use langlib::parser::Parser;
use langlib::stmt::{Declaration, Stmt};

#[test]
fn test_helpers() {
    let s = "let a = (1 + 1) + 2 - 432; let b = 3;";
    let mut lexer = Lexer::new(s);
    let mut parser = Parser::new(lexer.tokenize().unwrap());
    let fourth = parser.at(4);
    assert!(fourth.is_ok());
    let fourth = fourth.unwrap();
    assert_eq!(fourth, Token::Int(1));
    assert_eq!(parser.curr(), Ok(Token::Keyword(Keyword::Let)));
    parser.adv();
    assert_eq!(parser.prev(), Ok(Token::Keyword(Keyword::Let)));
    (1..(parser.tokens.len() - 1)).for_each(|_| {
        parser.adv();
    });
    assert_eq!(parser.pos(), parser.tokens.len() + 1);
}

#[test]
fn match_rule_success() {
    let a = "let x = 5;";
    let mut lexer = Lexer::new(a);
    let mut parser = Parser::new(lexer.tokenize().unwrap());
    let rules = [
        Token::Keyword(Keyword::Let),
        Token::Ident("x".to_owned()),
        Token::DeclarationSign,
        Token::Int(5),
    ];
    assert!(parser.match_rule(&rules));
}

#[test]
fn match_rule_fail() {
    let a = "let = 5;";
    let mut lexer = Lexer::new(a);
    let mut parser = Parser::new(lexer.tokenize().unwrap());
    let rules = [
        Token::Keyword(Keyword::Let),
        Token::Ident("x".to_owned()),
        Token::DeclarationSign,
        Token::Int(0),
        Token::Semi,
    ];
    assert!(!parser.match_rule(&rules));
}

#[test]
fn matches_success() {
    let pm = [Token::Op(BinOp::Add), Token::Op(BinOp::Sub)];
    let a = "+ - 3";
    let mut lexer = Lexer::new(a);
    let mut parser = Parser::new(lexer.tokenize().unwrap());
    assert_eq!(parser.matches(&pm), Some(Token::Op(BinOp::Add)));
    assert_eq!(parser.matches(&pm), Some(Token::Op(BinOp::Sub)));
    assert_eq!(parser.matches(&pm), None)
}

#[test]
fn test_compare_nums_success() {
    let s = "(3 + 15) / 2 == 9";
    let mut lexer = Lexer::new(s);
    let mut parser = Parser::new(lexer.tokenize().unwrap());
    let result = parser.equality();
    assert!(result.is_ok());
    let result = result.unwrap();
    assert!(result.eval().is_ok());
}

#[test]
fn test_compare_nums_fail() {
    let s = "(3 + 15) / 2 == 20";
    let mut lexer = Lexer::new(s);
    let mut parser = Parser::new(lexer.tokenize().unwrap());
    let result = parser.equality();
    assert!(result.is_ok());
    let result = result.unwrap().eval();
    assert!(result.is_ok());
    let result = result.unwrap();
    assert_eq!(result, Expr::Bool(false));
}

#[test]
fn test_compare_strs_success() {
    let s = " \"This is a string\" == \"This is a string\"";
    let mut lexer = Lexer::new(s);
    let mut parser = Parser::new(lexer.tokenize().unwrap());
    let result = parser.equality();
    assert!(result.is_ok());
    let result = result.unwrap().eval();
    assert!(result.is_ok());
    let result = result.unwrap();
    assert_eq!(result, Expr::Bool(true));
}

#[test]
fn test_compare_strs_fail() {
    let s = " \"This is a string\" == \"This is another string\"";
    println!("================================================");
    let mut lexer = Lexer::new(s);
    let mut parser = Parser::new(lexer.tokenize().unwrap());
    let result = parser.equality();
    assert!(result.is_ok());
    let result = result.unwrap().eval();
    assert!(result.is_ok());
    let result = result.unwrap();
    assert_eq!(result, Expr::Bool(false));
}

#[test]
fn compare_bools_success() {
    let s = "true == true";
    let mut lexer = Lexer::new(s);
    let mut parser = Parser::new(lexer.tokenize().unwrap());
    let result = parser.equality();
    assert!(result.is_ok());
    let result = result.unwrap().eval();
    assert!(result.is_ok());
    let result = result.unwrap();
    assert_eq!(result, Expr::Bool(true));
}

#[test]
fn compare_bools_fail() {
    let s = "true == false";
    let mut lexer = Lexer::new(s);
    let mut parser = Parser::new(lexer.tokenize().unwrap());
    let result = parser.equality();
    assert!(result.is_ok());
    let result = result.unwrap().eval();
    assert!(result.is_ok());
    let result = result.unwrap();
    assert_eq!(result, Expr::Bool(false));
}

#[test]
fn test_unary_negation() {
    let s = "let x = !(true == false);";
    let mut lexer = Lexer::new(s);
    let binding_stmt = Parser::new(lexer.tokenize().unwrap()).stmt();
    assert!(binding_stmt.is_ok());
    let binding_stmt = binding_stmt.unwrap();
    assert_eq!(
        binding_stmt,
        Stmt::Declaration(Declaration {
            ident: "x".to_owned(),
            val: Expr::Unary(
                UnOp::Bang,
                Box::new(Expr::Bin(BinExpr {
                    lhs: Box::new(Expr::Bool(true)),
                    rhs: Box::new(Expr::Bool(false)),
                    op: BinOp::EqSign
                }))
            )
        })
    );
}

#[test]
fn test_unary_negation_but_with_strings() {
    let s = "let x = !(\"this is a string.\" == \"this is another string.\");";
    let mut lexer = Lexer::new(s);
    let binding_stmt = Parser::new(lexer.tokenize().unwrap()).stmt();
    assert!(binding_stmt.is_ok());
    let binding_stmt = binding_stmt.unwrap();
    assert_eq!(
        binding_stmt,
        Stmt::Declaration(Declaration {
            ident: "x".to_owned(),
            val: Expr::Unary(
                UnOp::Bang,
                Box::new(Expr::Bin(BinExpr {
                    lhs: Box::new(Expr::Str("this is a string.".to_owned())),
                    rhs: Box::new(Expr::Str("this is another string.".to_owned())),
                    op: BinOp::EqSign
                }))
            )
        })
    );
}

#[test]
fn test_simple_function_call() {
    let s = "someFunction();";
    let tokens = Lexer::new(s).tokenize().unwrap();
    let ast = Parser::new(tokens).expr();
    assert_eq!(
        ast.unwrap(),
        Expr::Funcall(Box::new(Expr::Var("someFunction".to_owned())), vec![])
    );
}

#[test]
fn test_primary() {
    let bool_t = "true";
    let bool_f = "false";
    let int = "123";
    let str = "\"Hello!\"";
    let bool_t_token = Lexer::new(bool_t).tokenize().unwrap();
    let bool_txpr = Parser::new(bool_t_token).primary();
    assert!(bool_txpr.is_ok());
    assert_eq!(bool_txpr.unwrap(), Expr::Bool(true));
    let bool_f_token = Lexer::new(bool_f).tokenize().unwrap();
    let bool_fxpr = Parser::new(bool_f_token).primary();
    assert!(bool_fxpr.is_ok());
    assert_eq!(bool_fxpr.unwrap(), Expr::Bool(false));
    let int_token = Lexer::new(int).tokenize().unwrap();
    let int_tokenxpr = Parser::new(int_token).primary();
    assert!(int_tokenxpr.is_ok());
    assert_eq!(int_tokenxpr.unwrap(), Expr::Num(123));
    let str_token = Lexer::new(str).tokenize().unwrap();
    let strxpr = Parser::new(str_token).primary();
    assert!(strxpr.is_ok());
    assert_eq!(strxpr.unwrap(), Expr::Str("Hello!".to_owned()));
}

#[test]
fn test_unary() {
    let expr = "!true";
    let tokens = Lexer::new(expr).tokenize().unwrap();
    let expr = Parser::new(tokens).unary();
    assert!(expr.is_ok());
    assert_eq!(expr.unwrap(), Expr::Unary(UnOp::Bang, Box::new(Expr::Bool(true))));
    let expr = "\"Hello!\"";
    let tokens = Lexer::new(expr).tokenize().unwrap();
    let expr = Parser::new(tokens).unary();
    assert!(expr.is_ok());
    assert_eq!(expr.unwrap(), Expr::Str("Hello!".to_owned()));
    let expr = "!(((((((1234)))))))";
    let tokens = Lexer::new(expr).tokenize().unwrap();
    let expr = Parser::new(tokens).unary();
    assert!(expr.is_ok());
    assert_eq!(expr.unwrap(), Expr::Unary(UnOp::Bang, Box::new(Expr::Num(1234))));
}

#[test]
fn test_factor() {
    let s = "!true * false";
    let tokens = Lexer::new(s).tokenize().unwrap();
    let expr = Parser::new(tokens).factor();
    assert!(expr.is_ok());
    assert_eq!(
        expr.unwrap(),
        Expr::Bin(BinExpr {
            lhs: Box::new(Expr::Unary(UnOp::Bang, Box::new(Expr::Bool(true)))),
            rhs: Box::new(Expr::Bool(false)),
            op: BinOp::Mul
        })
    );
    let s = "!true / (\"Some string\")";
    let tokens = Lexer::new(s).tokenize().unwrap();
    let expr = Parser::new(tokens).factor();
    assert!(expr.is_ok());
    assert_eq!(
        expr.unwrap(),
        Expr::Bin(BinExpr {
            lhs: Box::new(Expr::Unary(UnOp::Bang, Box::new(Expr::Bool(true)))),
            rhs: Box::new(Expr::Str("Some string".to_owned())),
            op: BinOp::Div
        })
    );
    let s = "1 + 1";
    let tokens = Lexer::new(s).tokenize().unwrap();
    let expr = Parser::new(tokens).factor();
    assert!(expr.is_ok());
    let s = "25";
    let tokens = Lexer::new(s).tokenize().unwrap();
    let expr = Parser::new(tokens).factor();
    assert!(expr.is_ok());
    assert_eq!(expr.unwrap(), Expr::Num(25))
}

#[test]
fn test_comparision_multiple() {
    let s = "12 > 43 <= 324";
    let tokens = Lexer::new(s).tokenize().unwrap();
    let result = Parser::new(tokens).comparision();
    assert_eq!(
        result.unwrap(),
        Expr::Bin(BinExpr {
            lhs: Box::new(Expr::Bin(BinExpr {
                lhs: Box::new(Expr::Num(12)),
                rhs: Box::new(Expr::Num(43)),
                op: BinOp::GreaterSign
            })),
            rhs: Box::new(Expr::Num(324)),
            op: BinOp::LessEqSign
        })
    );
}

#[test]
fn precedence_tree() {
    let s = "1 + 2 * 3 - 4";
    let tokens = Lexer::new(s).tokenize().unwrap();
    let result = Parser::new(tokens).expr();
    assert_eq!(
        result.unwrap(),
        Expr::Bin(BinExpr {
            lhs: Box::new(Expr::Bin(BinExpr {
                lhs: Box::new(Expr::Num(1)),
                rhs: Box::new(Expr::Bin(BinExpr {
                    lhs: Box::new(Expr::Num(2)),
                    rhs: Box::new(Expr::Num(3)),
                    op: BinOp::Mul
                })),
                op: BinOp::Add
            })),
            rhs: Box::new(Expr::Num(4)),
            op: BinOp::Sub
        })
    );
}

#[test]
fn left_associativity() {
    let s = "7 - 2 - 1";
    let tokens = Lexer::new(s).tokenize().unwrap();
    let result = Parser::new(tokens).expr();
    assert_eq!(
        result.unwrap(),
        Expr::Bin(BinExpr {
            lhs: Box::new(Expr::Bin(BinExpr {
                lhs: Box::new(Expr::Num(7)),
                rhs: Box::new(Expr::Num(2)),
                op: BinOp::Sub
            })),
            rhs: Box::new(Expr::Num(1)),
            op: BinOp::Sub
        })
    );
}

#[test]
fn call_chaining() {
    let s = "f(a)(b)(c);";
    let tokens = Lexer::new(s).tokenize().unwrap();
    let result = Parser::new(tokens).expr();
    assert_eq!(
        result.unwrap(),
        Expr::Funcall(
            Box::new(Expr::Funcall(
                Box::new(Expr::Funcall(
                    Box::new(Expr::Var("f".to_owned())),
                    vec![Expr::Var("a".to_owned())]
                )),
                vec![Expr::Var("b".to_owned())]
            )),
            vec![Expr::Var("c".to_owned())]
        )
    );
}

#[test]
fn expression_statement_dispatch() {
    let tokens = Lexer::new("x + 1;").tokenize().unwrap();
    let stmt = Parser::new(tokens).stmt();
    assert_eq!(
        stmt.unwrap(),
        Stmt::Expr(Expr::Bin(BinExpr {
            lhs: Box::new(Expr::Var("x".to_owned())),
            rhs: Box::new(Expr::Num(1)),
            op: BinOp::Add
        }))
    );
    let tokens = Lexer::new("x == y;").tokenize().unwrap();
    let stmt = Parser::new(tokens).stmt();
    assert_eq!(
        stmt.unwrap(),
        Stmt::Expr(Expr::Bin(BinExpr {
            lhs: Box::new(Expr::Var("x".to_owned())),
            rhs: Box::new(Expr::Var("y".to_owned())),
            op: BinOp::EqSign
        }))
    );
    let tokens = Lexer::new("x;").tokenize().unwrap();
    let stmt = Parser::new(tokens).stmt();
    assert_eq!(stmt.unwrap(), Stmt::Expr(Expr::Var("x".to_owned())));
    let tokens = Lexer::new("x = 1;").tokenize().unwrap();
    let stmt = Parser::new(tokens).stmt();
    assert_eq!(
        stmt.unwrap(),
        Stmt::Assignment(Declaration { ident: "x".to_owned(), val: Expr::Num(1) })
    );
}

#[test]
fn unary_bang_coerces_in_eval() {
    assert_eq!(
        Expr::Unary(UnOp::Bang, Box::new(Expr::Num(5))).eval(),
        Ok(Expr::Bool(false))
    );
    assert_eq!(
        Expr::Unary(UnOp::Bang, Box::new(Expr::Num(0))).eval(),
        Ok(Expr::Bool(true))
    );
    assert_eq!(
        Expr::Unary(UnOp::Bang, Box::new(Expr::Str(String::new()))).eval(),
        Ok(Expr::Bool(true))
    );
    assert_eq!(
        Expr::Unary(UnOp::Bang, Box::new(Expr::Null)).eval(),
        Ok(Expr::Bool(true))
    );
}
