use monkey_lexer::lexer::{Lexer, Token};

#[test]
fn test_next_token() {
    let input: String = "=+(){},;".into();
    let expected_tokens = vec![
        Token::ASSIGN,
        Token::PLUS,
        Token::LPAREN,
        Token::RPAREN,
        Token::LBRACE,
        Token::RBRACE,
        Token::COMMA,
        Token::SEMICOLON,
    ];
    let mut lexer = Lexer::new(input);

    for expected_tok in expected_tokens {
        let actual_tok = lexer.next_token();
        println!("actual: {:?}, expected: {:?}", actual_tok, expected_tok);

        assert_eq!(actual_tok, expected_tok);
    }
}

#[test]
fn test_next_token_complex() {
    let input = "let five = 5;
        let ten = 10;
        let add = fn(x, y) {
            x + y;
        };

        let result = add(five, ten);
        ";

    let expected_tokens = vec![
        Token::LET,
        Token::IDENT("five".to_owned()),
        Token::ASSIGN,
        Token::INT("5".to_owned()),
        Token::SEMICOLON,
        Token::LET,
        Token::IDENT("ten".to_owned()),
        Token::ASSIGN,
        Token::INT("10".to_owned()),
        Token::SEMICOLON,
        Token::LET,
        Token::IDENT("add".to_owned()),
        Token::ASSIGN,
        Token::FUNCTION,
        Token::LPAREN,
        Token::IDENT("x".to_owned()),
        Token::COMMA,
        Token::IDENT("y".to_owned()),
        Token::RPAREN,
        Token::LBRACE,
        Token::IDENT("x".to_owned()),
        Token::PLUS,
        Token::IDENT("y".to_owned()),
        Token::SEMICOLON,
        Token::RBRACE,
        Token::SEMICOLON,
        Token::LET,
        Token::IDENT("result".to_owned()),
        Token::ASSIGN,
        Token::IDENT("add".to_owned()),
        Token::LPAREN,
        Token::IDENT("five".to_owned()),
        Token::COMMA,
        Token::IDENT("ten".to_owned()),
        Token::RPAREN,
        Token::SEMICOLON,
        Token::EOF,
    ];
    let mut lexer = Lexer::new(input.to_owned());

    for expected_tok in expected_tokens {
        let actual_tok = lexer.next_token();
        println!("actual: {:?}, expected: {:?}", actual_tok, expected_tok);
        assert_eq!(actual_tok, expected_tok);
    }
}

#[test]
fn test_next_token_complex_even_more_complex() {
    let input = "let five = 5;
        let ten = 10;
        let add = fn(x, y) {
            x + y;
        };

        let result = add(five, ten);
        !-/*5;
        5 < 10 > 5;
        ";

    let expected_tokens = vec![
        Token::LET,
        Token::IDENT("five".to_owned()),
        Token::ASSIGN,
        Token::INT("5".to_owned()),
        Token::SEMICOLON,
        Token::LET,
        Token::IDENT("ten".to_owned()),
        Token::ASSIGN,
        Token::INT("10".to_owned()),
        Token::SEMICOLON,
        Token::LET,
        Token::IDENT("add".to_owned()),
        Token::ASSIGN,
        Token::FUNCTION,
        Token::LPAREN,
        Token::IDENT("x".to_owned()),
        Token::COMMA,
        Token::IDENT("y".to_owned()),
        Token::RPAREN,
        Token::LBRACE,
        Token::IDENT("x".to_owned()),
        Token::PLUS,
        Token::IDENT("y".to_owned()),
        Token::SEMICOLON,
        Token::RBRACE,
        Token::SEMICOLON,
        Token::LET,
        Token::IDENT("result".to_owned()),
        Token::ASSIGN,
        Token::IDENT("add".to_owned()),
        Token::LPAREN,
        Token::IDENT("five".to_owned()),
        Token::COMMA,
        Token::IDENT("ten".to_owned()),
        Token::RPAREN,
        Token::SEMICOLON,
        Token::BANG,
        Token::MINUS,
        Token::SLASH,
        Token::ASTERISK,
        Token::INT("5".to_owned()),
        Token::SEMICOLON,
        Token::INT("5".to_owned()),
        Token::LT,
        Token::INT("10".to_owned()),
        Token::GT,
        Token::INT("5".to_owned()),
        Token::SEMICOLON,
        Token::EOF,
    ];
    let mut lexer = Lexer::new(input.to_owned());

    for expected_tok in expected_tokens {
        let actual_tok = lexer.next_token();
        println!("actual: {:?}, expected: {:?}", actual_tok, expected_tok);
        assert_eq!(actual_tok, expected_tok);
    }
}

#[test]
fn test_next_token_complex_even_more_and_more_complex() {
    let input = "let five = 5;
        let ten = 10;
        let add = fn(x, y) {
            x + y;
        };

        let result = add(five, ten);
        !-/*5;
        5 < 10 > 5;

        if (5 < 10) {
            return true;
        } else {
            return false;
        }

        10 == 10;
        10 != 9;
        ";

    let expected_tokens = vec![
        Token::LET,
        Token::IDENT("five".to_owned()),
        Token::ASSIGN,
        Token::INT("5".to_owned()),
        Token::SEMICOLON,
        Token::LET,
        Token::IDENT("ten".to_owned()),
        Token::ASSIGN,
        Token::INT("10".to_owned()),
        Token::SEMICOLON,
        Token::LET,
        Token::IDENT("add".to_owned()),
        Token::ASSIGN,
        Token::FUNCTION,
        Token::LPAREN,
        Token::IDENT("x".to_owned()),
        Token::COMMA,
        Token::IDENT("y".to_owned()),
        Token::RPAREN,
        Token::LBRACE,
        Token::IDENT("x".to_owned()),
        Token::PLUS,
        Token::IDENT("y".to_owned()),
        Token::SEMICOLON,
        Token::RBRACE,
        Token::SEMICOLON,
        Token::LET,
        Token::IDENT("result".to_owned()),
        Token::ASSIGN,
        Token::IDENT("add".to_owned()),
        Token::LPAREN,
        Token::IDENT("five".to_owned()),
        Token::COMMA,
        Token::IDENT("ten".to_owned()),
        Token::RPAREN,
        Token::SEMICOLON,
        Token::BANG,
        Token::MINUS,
        Token::SLASH,
        Token::ASTERISK,
        Token::INT("5".to_owned()),
        Token::SEMICOLON,
        Token::INT("5".to_owned()),
        Token::LT,
        Token::INT("10".to_owned()),
        Token::GT,
        Token::INT("5".to_owned()),
        Token::SEMICOLON,
        Token::IF,
        Token::LPAREN,
        Token::INT("5".to_owned()),
        Token::LT,
        Token::INT("10".to_owned()),
        Token::RPAREN,
        Token::LBRACE,
        Token::RETURN,
        Token::TRUE,
        Token::SEMICOLON,
        Token::RBRACE,
        Token::ELSE,
        Token::LBRACE,
        Token::RETURN,
        Token::FALSE,
        Token::SEMICOLON,
        Token::RBRACE,
        Token::INT("10".to_owned()),
        Token::EQUAL,
        Token::INT("10".to_owned()),
        Token::SEMICOLON,
        Token::INT("10".to_owned()),
        Token::NOTEQUAL,
        Token::INT("9".to_owned()),
        Token::SEMICOLON,
        Token::EOF,
    ];
    let mut lexer = Lexer::new(input.to_owned());

    for expected_tok in expected_tokens {
        let actual_tok = lexer.next_token();
        println!("actual: {:?}, expected: {:?}", actual_tok, expected_tok);
        assert_eq!(actual_tok, expected_tok);
    }
}
