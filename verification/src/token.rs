use vstd::prelude::*;
use vstd::string::StringExecFns;

verus! {

/// The lexical categories of the language: end-of-input and illegal markers,
/// identifiers and integer literals (each carrying the matched text),
/// single- and two-character operators, delimiters, and reserved keywords.
#[derive(Debug, PartialEq)]
pub enum Token {
    ILLEGAL,
    EOF,
    // Identifiers + literals
    IDENT(String),
    INT(String),
    ASSIGN,
    PLUS,
    MINUS,
    BANG,
    ASTERISK,
    SLASH,
    LT,
    GT,
    EQUAL,
    NOTEQUAL,
    // Delimiters
    COMMA,
    SEMICOLON,
    LPAREN,
    RPAREN,
    LBRACE,
    RBRACE,
    // Keywords
    FUNCTION,
    LET,
    TRUE,
    FALSE,
    IF,
    ELSE,
    RETURN,
}

/// The mathematical model of a token: one constructor per lexical category,
/// with the matched text of an identifier or integer literal carried as a
/// sequence of characters.
pub enum TokenV {
    Illegal,
    Eof,
    Ident(Seq<char>),
    Int(Seq<char>),
    Assign,
    Plus,
    Minus,
    Bang,
    Asterisk,
    Slash,
    Lt,
    Gt,
    Equal,
    NotEqual,
    Comma,
    Semicolon,
    Lparen,
    Rparen,
    Lbrace,
    Rbrace,
    Function,
    Let,
    True,
    False,
    If,
    Else,
    Return,
}

impl View for Token {
    type V = TokenV;

    open spec fn view(&self) -> TokenV {
        match self {
            Token::ILLEGAL => TokenV::Illegal,
            Token::EOF => TokenV::Eof,
            Token::IDENT(s) => TokenV::Ident(s@),
            Token::INT(s) => TokenV::Int(s@),
            Token::ASSIGN => TokenV::Assign,
            Token::PLUS => TokenV::Plus,
            Token::MINUS => TokenV::Minus,
            Token::BANG => TokenV::Bang,
            Token::ASTERISK => TokenV::Asterisk,
            Token::SLASH => TokenV::Slash,
            Token::LT => TokenV::Lt,
            Token::GT => TokenV::Gt,
            Token::EQUAL => TokenV::Equal,
            Token::NOTEQUAL => TokenV::NotEqual,
            Token::COMMA => TokenV::Comma,
            Token::SEMICOLON => TokenV::Semicolon,
            Token::LPAREN => TokenV::Lparen,
            Token::RPAREN => TokenV::Rparen,
            Token::LBRACE => TokenV::Lbrace,
            Token::RBRACE => TokenV::Rbrace,
            Token::FUNCTION => TokenV::Function,
            Token::LET => TokenV::Let,
            Token::TRUE => TokenV::True,
            Token::FALSE => TokenV::False,
            Token::IF => TokenV::If,
            Token::ELSE => TokenV::Else,
            Token::RETURN => TokenV::Return,
        }
    }
}

/// The display text of a token: the category's name, with an identifier's
/// or integer literal's matched text in parentheses.
pub open spec fn display_of(t: TokenV) -> Seq<char> {
    match t {
        TokenV::Ident(x) => "Ident("@ + x + ")"@,
        TokenV::Int(x) => "Int("@ + x + ")"@,
        TokenV::Illegal => "Illegal"@,
        TokenV::Eof => "Eof"@,
        TokenV::Assign => "Assign"@,
        TokenV::Plus => "Plus"@,
        TokenV::Comma => "Comma"@,
        TokenV::Semicolon => "Semicolon"@,
        TokenV::Lparen => "Lparen"@,
        TokenV::Rparen => "Rparen"@,
        TokenV::Lbrace => "LSquirly"@,
        TokenV::Rbrace => "RSquirly"@,
        TokenV::Function => "Function"@,
        TokenV::Let => "Let"@,
        TokenV::Minus => "Minus"@,
        TokenV::Bang => "Bang"@,
        TokenV::Asterisk => "Asteriks"@,
        TokenV::Slash => "Slash"@,
        TokenV::Lt => "LessThan\n"@,
        TokenV::Gt => "GreaterThan"@,
        TokenV::True => "True"@,
        TokenV::False => "False"@,
        TokenV::If => "If"@,
        TokenV::Else => "Else"@,
        TokenV::Return => "Return"@,
        TokenV::Equal => "Equal"@,
        TokenV::NotEqual => "NotEqual"@,
    }
}

impl Token {
    /// The token's display text, as a fresh string.
    pub fn display_string(&self) -> (r: String)
        ensures
            r@ == display_of(self@),
    {
        match self {
            Token::IDENT(x) => {
                let mut s = String::from_str("Ident(");
                s.append(x.as_str());
                s.append(")");
                s
            },
            Token::INT(x) => {
                let mut s = String::from_str("Int(");
                s.append(x.as_str());
                s.append(")");
                s
            },
            Token::ILLEGAL => "Illegal".to_owned(),
            Token::EOF => "Eof".to_owned(),
            Token::ASSIGN => "Assign".to_owned(),
            Token::PLUS => "Plus".to_owned(),
            Token::COMMA => "Comma".to_owned(),
            Token::SEMICOLON => "Semicolon".to_owned(),
            Token::LPAREN => "Lparen".to_owned(),
            Token::RPAREN => "Rparen".to_owned(),
            Token::LBRACE => "LSquirly".to_owned(),
            Token::RBRACE => "RSquirly".to_owned(),
            Token::FUNCTION => "Function".to_owned(),
            Token::LET => "Let".to_owned(),
            Token::MINUS => "Minus".to_owned(),
            Token::BANG => "Bang".to_owned(),
            Token::ASTERISK => "Asteriks".to_owned(),
            Token::SLASH => "Slash".to_owned(),
            Token::LT => "LessThan\n".to_owned(),
            Token::GT => "GreaterThan".to_owned(),
            Token::TRUE => "True".to_owned(),
            Token::FALSE => "False".to_owned(),
            Token::IF => "If".to_owned(),
            Token::ELSE => "Else".to_owned(),
            Token::RETURN => "Return".to_owned(),
            Token::EQUAL => "Equal".to_owned(),
            Token::NOTEQUAL => "NotEqual".to_owned(),
        }
    }
}

} // verus!
