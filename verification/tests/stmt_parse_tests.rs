use langlib::expr::{BinExpr, Expr};
use langlib::lexer::op::{BinOp, UnOp};
use langlib::lexer::token::{Keyword, Token};
use langlib::lexer::Lexer;
use langlib::parser::Parser;
use langlib::stmt::{Declaration, Stmt};

#[test]
fn successful_let_stmt() {
    let tokens = vec![
        Token::Keyword(Keyword::Let),
        Token::Ident("coolVariable".to_owned()),
        Token::DeclarationSign,
        Token::LeftBracket,
        Token::Int(1),
        Token::Op(BinOp::Add),
        Token::Int(1),
        Token::RightBracket,
        Token::Semi,
    ];
    let binding = Parser::new(tokens).stmt();
    assert!(binding.is_ok());
    let binding = binding.unwrap();
    assert_eq!(
        binding,
        Stmt::Declaration(Declaration {
            ident: "coolVariable".to_owned(),
            val: Expr::Bin(BinExpr {
                lhs: Box::new(Expr::Num(1)),
                rhs: Box::new(Expr::Num(1)),
                op: BinOp::Add
            })
        })
    )
}

#[test]
fn successful_bool_declaration() {
    let tokens = vec![
        Token::Keyword(Keyword::Let),
        Token::Ident("coolVariable".to_owned()),
        Token::DeclarationSign,
        Token::LeftBracket,
        Token::Keyword(Keyword::True),
        Token::Op(BinOp::EqSign),
        Token::Keyword(Keyword::False),
        Token::RightBracket,
        Token::Semi,
    ];
    let binding = Parser::new(tokens).stmt();
    assert!(binding.is_ok());
    let binding = binding.unwrap();
    assert_eq!(
        binding,
        Stmt::Declaration(Declaration {
            ident: "coolVariable".to_owned(),
            val: Expr::Bin(BinExpr {
                lhs: Box::new(Expr::Bool(true)),
                rhs: Box::new(Expr::Bool(false)),
                op: BinOp::EqSign
            })
        })
    )
}

#[test]
fn bad_let_stmt() {
    let tokens = vec![
        Token::Keyword(Keyword::Let),
        Token::Ident("coolVariable".to_owned()),
        Token::DeclarationSign,
        Token::LeftBracket,
        Token::Int(1),
        Token::Op(BinOp::Add),
        Token::Int(1),
        Token::RightBracket,
        Token::Semi,
    ];
    let binding = Parser::new(tokens).stmt();
    assert!(binding.is_ok());
    let binding = binding.unwrap();
    assert_ne!(
        binding,
        Stmt::Declaration(Declaration { ident: "coolVariable".to_owned(), val: Expr::Num(3) })
    )
}

#[test]
fn test_parse_statements() {
    let s = "let

        x =   !        (\"this is a string.\"                == \"this is another string.\"); print (23-5)/ 2; let y =  (           2 + 4) / 2; let z = !   true;



        print


        \"This is a very cool string.\"; let undefinedVar;";
    let mut lexer = Lexer::new(s);
    let mut parser = Parser::new(lexer.tokenize().unwrap());
    let statements = parser.get_statements();
    assert!(statements.is_ok());
    let statements = statements.unwrap();
    assert_eq!(
        statements,
        vec![
            Stmt::Declaration(Declaration {
                ident: "x".to_owned(),
                val: Expr::Unary(
                    UnOp::Bang,
                    Box::new(Expr::Bin(BinExpr {
                        lhs: Box::new(Expr::Str("this is a string.".to_owned())),
                        rhs: Box::new(Expr::Str("this is another string.".to_owned())),
                        op: BinOp::EqSign
                    }))
                )
            }),
            Stmt::Print(Expr::Bin(BinExpr {
                lhs: Box::new(Expr::Bin(BinExpr {
                    lhs: Box::new(Expr::Num(23)),
                    rhs: Box::new(Expr::Num(5)),
                    op: BinOp::Sub
                })),
                rhs: Box::new(Expr::Num(2)),
                op: BinOp::Div
            })),
            Stmt::Declaration(Declaration {
                ident: "y".to_owned(),
                val: Expr::Bin(BinExpr {
                    lhs: Box::new(Expr::Bin(BinExpr {
                        lhs: Box::new(Expr::Num(2)),
                        rhs: Box::new(Expr::Num(4)),
                        op: BinOp::Add
                    })),
                    rhs: Box::new(Expr::Num(2)),
                    op: BinOp::Div
                })
            }),
            Stmt::Declaration(Declaration {
                ident: "z".to_owned(),
                val: Expr::Unary(UnOp::Bang, Box::new(Expr::Bool(true)))
            }),
            Stmt::Print(Expr::Str("This is a very cool string.".to_owned())),
            Stmt::Declaration(Declaration { ident: "undefinedVar".to_owned(), val: Expr::Null })
        ]
    )
}

#[test]
fn test_if_stmt() {
    let s = "
        if (2 == 5) {
            print \"2 is equal to 5\";
            print \"The univese makes no sense.\";
        }
        ";
    let tokens = Lexer::new(s).tokenize().unwrap();
    let ast = Parser::new(tokens).stmt();
    assert_eq!(
        ast.unwrap(),
        Stmt::If(
            Expr::Bin(BinExpr {
                lhs: Box::new(Expr::Num(2)),
                rhs: Box::new(Expr::Num(5)),
                op: BinOp::EqSign
            }),
            Box::new(Stmt::Block(vec![
                Stmt::Print(Expr::Str("2 is equal to 5".to_owned())),
                Stmt::Print(Expr::Str("The univese makes no sense.".to_owned()))
            ])),
            None
        )
    );
}

#[test]
fn test_if_stmt_with_else_block() {
    let s = "
        if (2 == 5) {
            print \"2 is equal to 5\";
            print \"The univese makes no sense.\";
        } else {
            print \"2 is NOT equal to 5.\";
            print \"As it should be.\";
        }
        ";
    let tokens = Lexer::new(s).tokenize().unwrap();
    let ast = Parser::new(tokens).stmt();
    assert_eq!(
        ast.unwrap(),
        Stmt::If(
            Expr::Bin(BinExpr {
                lhs: Box::new(Expr::Num(2)),
                rhs: Box::new(Expr::Num(5)),
                op: BinOp::EqSign
            }),
            Box::new(Stmt::Block(vec![
                Stmt::Print(Expr::Str("2 is equal to 5".to_owned())),
                Stmt::Print(Expr::Str("The univese makes no sense.".to_owned()))
            ])),
            Some(Box::new(Stmt::Block(vec![
                Stmt::Print(Expr::Str("2 is NOT equal to 5.".to_owned())),
                Stmt::Print(Expr::Str("As it should be.".to_owned()))
            ])))
        )
    );
}

#[test]
fn test_lonely_if_statement() {
    let s = "
        if (2 == 5) print \"We just broke the laws of the universe.\";
        ";
    let tokens = Lexer::new(s).tokenize().unwrap();
    let ast = Parser::new(tokens).stmt();
    assert_eq!(
        ast.unwrap(),
        Stmt::If(
            Expr::Bin(BinExpr {
                lhs: Box::new(Expr::Num(2)),
                rhs: Box::new(Expr::Num(5)),
                op: BinOp::EqSign
            }),
            Box::new(Stmt::Print(Expr::Str(
                "We just broke the laws of the universe.".to_owned()
            ))),
            None
        )
    );
}

#[test]
fn test_single_nested_stmt() {
    let s = "
        {
            print \"You can nest statements!\";
        }
    ";
    let tokens = Lexer::new(s).tokenize().unwrap();
    let ast = Parser::new(tokens).get_statements();
    assert_eq!(
        ast.unwrap(),
        vec![Stmt::Block(vec![Stmt::Print(Expr::Str("You can nest statements!".to_owned()))])]
    );
}

#[test]
fn test_multiple_nested_if_stmt() {
    let s = "
        {
            {
                {
                    if (true) {
                        print \"You can nest statements!\";
                    } else {
                        print \"This won't be reached but it's here anyway!\";
                    }
                }
            }
        }
    ";
    let tokens = Lexer::new(s).tokenize().unwrap();
    let ast = Parser::new(tokens).get_statements();
    assert_eq!(
        ast.unwrap(),
        [Stmt::Block(vec![Stmt::Block(vec![Stmt::Block(vec![Stmt::If(
            Expr::Bool(true),
            Box::new(Stmt::Block(vec![Stmt::Print(Expr::Str(
                "You can nest statements!".to_owned()
            ))])),
            Some(Box::new(Stmt::Block(vec![Stmt::Print(Expr::Str(
                "This won't be reached but it's here anyway!".to_owned()
            ))])))
        )])])])]
    );
}

#[test]
fn test_while_loop() {
    let s = "
        while (5 == 5) {
            if (true or false) {
                print \"HERE\";
            }
        }
    ";
    let tokens = Lexer::new(s).tokenize().unwrap();
    let ast = Parser::new(tokens).get_statements();
    assert_eq!(
        ast.unwrap(),
        [Stmt::While(
            Expr::Bin(BinExpr {
                lhs: Box::new(Expr::Num(5)),
                rhs: Box::new(Expr::Num(5)),
                op: BinOp::EqSign
            }),
            Box::new(Stmt::Block(vec![Stmt::If(
                Expr::Bin(BinExpr {
                    lhs: Box::new(Expr::Bool(true)),
                    rhs: Box::new(Expr::Bool(false)),
                    op: BinOp::Or
                }),
                Box::new(Stmt::Block(vec![Stmt::Print(Expr::Str("HERE".to_owned()))])),
                None
            )]))
        )]
    );
}

#[test]
fn test_function_call_with_args() {
    let s = "someFunction((123456789 * 2) / 3, \"A very cool string\", !true, a * 2);";
    let tokens = Lexer::new(s).tokenize().unwrap();
    let ast = Parser::new(tokens).expr();
    assert_eq!(
        ast.unwrap(),
        Expr::Funcall(
            Box::new(Expr::Var("someFunction".to_owned())),
            vec![
                Expr::Bin(BinExpr {
                    lhs: Box::new(Expr::Bin(BinExpr {
                        lhs: Box::new(Expr::Num(123456789)),
                        rhs: Box::new(Expr::Num(2)),
                        op: BinOp::Mul
                    })),
                    rhs: Box::new(Expr::Num(3)),
                    op: BinOp::Div
                }),
                Expr::Str("A very cool string".to_owned()),
                Expr::Unary(UnOp::Bang, Box::new(Expr::Bool(true))),
                Expr::Bin(BinExpr {
                    lhs: Box::new(Expr::Var("a".to_owned())),
                    rhs: Box::new(Expr::Num(2)),
                    op: BinOp::Mul
                })
            ]
        )
    );
}

#[test]
fn test_crazy_function_call() {
    let s = "someFunction((123456789 * 2) / 3, \"A very cool string\", !true, a * 2)(32, 65, 21)(a, b, c);";
    let tokens = Lexer::new(s).tokenize().unwrap();
    let expr = Parser::new(tokens).expr();
    assert_eq!(
        expr.unwrap(),
        Expr::Funcall(
            Box::new(Expr::Funcall(
                Box::new(Expr::Funcall(
                    Box::new(Expr::Var("someFunction".to_string())),
                    vec![
                        Expr::Bin(BinExpr {
                            lhs: Box::new(Expr::Bin(BinExpr {
                                lhs: Box::new(Expr::Num(123456789)),
                                rhs: Box::new(Expr::Num(2)),
                                op: BinOp::Mul
                            })),
                            rhs: Box::new(Expr::Num(3)),
                            op: BinOp::Div
                        }),
                        Expr::Str("A very cool string".to_owned()),
                        Expr::Unary(UnOp::Bang, Box::new(Expr::Bool(true))),
                        Expr::Bin(BinExpr {
                            lhs: Box::new(Expr::Var("a".to_string())),
                            rhs: Box::new(Expr::Num(2)),
                            op: BinOp::Mul
                        })
                    ]
                )),
                vec![Expr::Num(32), Expr::Num(65), Expr::Num(21)]
            )),
            vec![
                Expr::Var("a".to_owned()),
                Expr::Var("b".to_owned()),
                Expr::Var("c".to_owned())
            ]
        )
    );
}
