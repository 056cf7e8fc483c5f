use langlib::expr::Expr;
use langlib::lexer::err::LexerError;
use langlib::lexer::op::BinOp;
use langlib::lexer::op::UnOp;
use langlib::lexer::token::{Keyword, Token};
use langlib::lexer::Lexer;

#[test]
fn parse_token() {
    let plus = "+";
    let token = Lexer::parse_token(plus);
    assert!(token.is_ok());
    let token = token.unwrap();
    assert_eq!(token.0, Token::Op(BinOp::Add));
    let num = "123456789";
    let num_token = Lexer::parse_token(num);
    assert!(num_token.is_ok());
    let num_token = num_token.unwrap();
    assert_eq!(num_token.0, Token::Int(123456789));
    let overflow_num = "123456785435643829043568";
    let overflow_num_token = Lexer::parse_token(overflow_num);
    assert!(overflow_num_token.is_err());
}

#[test]
fn take_while() {
    let text = "thisIsSomeSampleText! this next sentence will not be read :(";
    let s = Lexer::take_while(text, |c| c.is_alphanumeric());
    assert!(s.is_ok());
    let s = s.unwrap();
    assert_eq!(s.0, "thisIsSomeSampleText");
}

#[test]
fn skip_whitespace() {
    let mut lexer_tokenizer = Lexer::new("         Hello, world!");
    assert!(lexer_tokenizer.skip_whitespace().is_ok());
    assert_eq!(&lexer_tokenizer.input[lexer_tokenizer.position..], "Hello, world!");
}

#[test]
fn test_tokenize() {
    let s = "let a = 3; let b == \"4\";";
    let mut lexer = Lexer::new(s);
    let tokens = lexer.tokenize();
    assert!(tokens.is_ok());
    let tokens = tokens.unwrap();
    assert_eq!(
        tokens,
        vec![
            Token::Keyword(Keyword::Let),
            Token::Ident("a".to_owned()),
            Token::DeclarationSign,
            Token::Int(3),
            Token::Semi,
            Token::Keyword(Keyword::Let),
            Token::Ident("b".to_owned()),
            Token::Op(BinOp::EqSign),
            Token::String("4".to_owned()),
            Token::Semi,
        ]
    );
}

#[test]
fn test_comparision_signs() {
    let eq = "==";
    let mut lexer = Lexer::new(eq);
    let result = lexer.tokenize();
    assert_eq!(result.unwrap(), vec![Token::Op(BinOp::EqSign)]);
    let neq = "!=";
    let mut lexer = Lexer::new(neq);
    let result = lexer.tokenize();
    assert_eq!(result.unwrap(), vec![Token::Op(BinOp::NeqSign)]);
    let g = ">";
    let mut lexer = Lexer::new(g);
    let result = lexer.tokenize();
    assert_eq!(result.unwrap(), vec![Token::Op(BinOp::GreaterSign)]);
    let geq = ">=";
    let mut lexer = Lexer::new(geq);
    let result = lexer.tokenize();
    assert_eq!(result.unwrap(), vec![Token::Op(BinOp::GreaterEqSign)]);
    let l = "<";
    let mut lexer = Lexer::new(l);
    let result = lexer.tokenize();
    assert_eq!(result.unwrap(), vec![Token::Op(BinOp::LessSign)]);
    let leq = "<=";
    let mut lexer = Lexer::new(leq);
    let result = lexer.tokenize();
    assert_eq!(result.unwrap(), vec![Token::Op(BinOp::LessEqSign)]);
}

#[test]
fn successful_conversions() {
    let a = Token::Op(BinOp::Add);
    let b = Token::Int(32);
    let c = Token::UnOp(UnOp::Bang);
    let d = Token::Ident("hello".to_owned());
    let e = Token::Keyword(Keyword::True);
    assert!(a.try_into_op().is_ok());
    assert!(b.try_into_int().is_ok());
    assert!(c.try_into_un_op().is_ok());
    assert!(d.try_into_ident().is_ok());
    assert!(e.try_into_keyword().is_ok());
}

#[test]
fn failed_conversions() {
    let a = Token::Op(BinOp::Add);
    let b = Token::Int(32);
    let c = Token::UnOp(UnOp::Bang);
    let d = Token::Ident("hello".to_owned());
    let e = Token::Keyword(Keyword::True);
    assert!(e.try_into_op().is_err());
    assert!(d.try_into_int().is_err());
    assert!(c.try_into_int().is_err());
    assert!(b.try_into_ident().is_err());
    assert!(a.try_into_keyword().is_err());
}

#[test]
fn successful_into_exprs() {
    let string = Token::String("This is a cool string.".to_owned()).into_expr();
    let num = Token::Int(23).into_expr();
    let true_bool = Token::Keyword(Keyword::True).into_expr();
    let false_bool = Token::Keyword(Keyword::False).into_expr();
    assert!(string.is_ok());
    assert!(num.is_ok());
    assert!(true_bool.is_ok());
    assert!(false_bool.is_ok());
    let string = string.unwrap();
    let num = num.unwrap();
    let true_bool = true_bool.unwrap();
    let false_bool = false_bool.unwrap();
    assert_eq!(string, Expr::Str("This is a cool string.".to_owned()));
    assert_eq!(num, Expr::Num(23));
    assert_eq!(true_bool, Expr::Bool(true));
    assert_eq!(false_bool, Expr::Bool(false));
}

#[test]
fn string_literal_round_trip() {
    let s = "\"This is a cool string.\"";
    let mut lexer = Lexer::new(s);
    let tokens = lexer.tokenize().unwrap();
    assert_eq!(tokens, vec![Token::String("This is a cool string.".to_owned())]);
}

#[test]
fn int_literal_round_trip() {
    for n in [0i32, 1, 7, 42, 1000, i32::MAX] {
        let text = format!("{n}");
        let mut lexer = Lexer::new(&text);
        let tokens = lexer.tokenize().unwrap();
        assert_eq!(tokens, vec![Token::Int(n)]);
    }
}

#[test]
fn display_forms() {
    assert_eq!(Expr::Num(-123).display_form(), "-123");
    assert_eq!(Expr::Num(0).display_form(), "0");
    assert_eq!(Expr::Bool(true).display_form(), "true");
    assert_eq!(Expr::Null.display_form(), "null");
    assert_eq!(Expr::Str("ab".to_owned()).display_form(), "ab");
}

#[test]
fn unterminated_string_is_an_error() {
    let mut lexer = Lexer::new("\"abc");
    assert_eq!(lexer.tokenize(), Err(LexerError::Expected('"')));
}

#[test]
fn invalid_character_is_an_error() {
    let mut lexer = Lexer::new("let @ = 1;");
    assert_eq!(lexer.tokenize(), Err(LexerError::InvalidChar('@')));
}

#[test]
fn single_quoted_strings() {
    let mut lexer = Lexer::new("'hi there'");
    assert_eq!(lexer.tokenize().unwrap(), vec![Token::String("hi there".to_owned())]);
}
