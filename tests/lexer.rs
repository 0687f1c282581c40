use neko::lexer::Lexer;
use neko::token::{Keyword, Operator, Token};

fn normalized(tokens: &[Token]) -> Vec<String> {
    tokens
        .iter()
        .map(|t| match t {
            Token::Number(text) => format!("Number({})", text.parse::<f64>().unwrap()),
            other => format!("{:?}", other),
        })
        .collect()
}

fn num(x: f64) -> Token {
    Token::Number(x.to_string())
}

fn lexed(text: &str) -> Vec<Token> {
    let mut lexer = Lexer::new(text);
    lexer.lex();
    lexer.tokens
}

#[test]
fn should_lex_addsub() {
    assert_eq!(
        normalized(&lexed("9.10 + 2 - 10")),
        normalized(&[
            num(9.1),
            Token::Operator(Operator::Plus),
            num(2.0),
            Token::Operator(Operator::Minus),
            num(10.0),
            Token::EndOfFile,
        ])
    );
}

#[test]
fn should_lex_muldivmod() {
    assert_eq!(
        normalized(&lexed("5 * 40 % 10 / 10")),
        normalized(&[
            num(5.0),
            Token::Operator(Operator::Mul),
            num(40.0),
            Token::Operator(Operator::Modulus),
            num(10.0),
            Token::Operator(Operator::Div),
            num(10.0),
            Token::EndOfFile,
        ])
    );
}

#[test]
fn should_lex_paren() {
    assert_eq!(
        normalized(&lexed("5 * (2 + 5)")),
        normalized(&[
            num(5.0),
            Token::Operator(Operator::Mul),
            Token::LParen,
            num(2.0),
            Token::Operator(Operator::Plus),
            num(5.0),
            Token::RParen,
            Token::EndOfFile,
        ])
    );
}

#[test]
fn should_lex_exponent() {
    assert_eq!(
        normalized(&lexed("5 ** (2 + 5)")),
        normalized(&[
            num(5.0),
            Token::Operator(Operator::Exponent),
            Token::LParen,
            num(2.0),
            Token::Operator(Operator::Plus),
            num(5.0),
            Token::RParen,
            Token::EndOfFile,
        ])
    );
}

#[test]
fn should_lex_words() {
    assert_eq!(
        lexed("let some_word some24_4"),
        vec![
            Token::Keyword(Keyword::Let),
            Token::Identifier(String::from("some_word")),
            Token::Identifier(String::from("some24_4")),
            Token::EndOfFile,
        ]
    );
}

#[test]
fn should_lex_compound_assignments() {
    assert_eq!(
        lexed("+= -= *= /= %= **="),
        vec![
            Token::Operator(Operator::PlusEqual),
            Token::Operator(Operator::MinusEqual),
            Token::Operator(Operator::MulEqual),
            Token::Operator(Operator::DivEqual),
            Token::Operator(Operator::ModulusEqual),
            Token::Operator(Operator::ExponentEqual),
            Token::EndOfFile,
        ]
    );
}

#[test]
fn should_lex_booleans() {
    assert_eq!(
        lexed("true false"),
        vec![Token::Boolean(true), Token::Boolean(false), Token::EndOfFile]
    );
}

#[test]
fn should_lex_strings() {
    assert_eq!(
        lexed("'hello world' \"hello world2\""),
        vec![
            Token::String(String::from("hello world")),
            Token::String(String::from("hello world2")),
            Token::EndOfFile,
        ]
    );
}

#[test]
fn should_lex_bool_operations() {
    assert_eq!(
        lexed("== != >= <= < > not"),
        vec![
            Token::Operator(Operator::DoubleEqual),
            Token::Operator(Operator::NotEqual),
            Token::Operator(Operator::GreaterThanOrEqual),
            Token::Operator(Operator::LessThanOrEqual),
            Token::Operator(Operator::LessThan),
            Token::Operator(Operator::GreaterThan),
            Token::Operator(Operator::Not),
            Token::EndOfFile,
        ]
    );
}

#[test]
fn lexes_number_tokens_as_their_source_text() {
    let tokens = lexed("3.25 1.2.3 007");
    assert_eq!(
        tokens,
        vec![
            Token::Number(String::from("3.25")),
            Token::Number(String::from("1.2")),
            Token::Number(String::from("3")),
            Token::Number(String::from("007")),
            Token::EndOfFile,
        ]
    );
    for t in &tokens {
        if let Token::Number(text) = t {
            assert!(text.parse::<f64>().is_ok());
        }
    }
}

#[test]
fn lexes_keywords_and_logical_words() {
    assert_eq!(
        lexed("function and or none letter"),
        vec![
            Token::Keyword(Keyword::Function),
            Token::Keyword(Keyword::And),
            Token::Keyword(Keyword::Or),
            Token::Keyword(Keyword::NoValue),
            Token::Identifier(String::from("letter")),
            Token::EndOfFile,
        ]
    );
}

#[test]
fn lexes_unterminated_string_to_the_end() {
    assert_eq!(
        lexed("'abc def"),
        vec![Token::String(String::from("abc def")), Token::EndOfFile]
    );
}

#[test]
fn lexes_pipes_bang_and_punctuation() {
    assert_eq!(
        lexed("| || ! != ( ) { } , ; ** *"),
        vec![
            Token::Operator(Operator::Pipe),
            Token::Operator(Operator::DoublePipe),
            Token::Unknown,
            Token::Operator(Operator::NotEqual),
            Token::LParen,
            Token::RParen,
            Token::LBrace,
            Token::RBrace,
            Token::Comma,
            Token::Semicolon,
            Token::Operator(Operator::Exponent),
            Token::Operator(Operator::Mul),
            Token::EndOfFile,
        ]
    );
}

#[test]
fn lexes_empty_and_blank_text() {
    assert_eq!(lexed(""), vec![Token::EndOfFile]);
    assert_eq!(lexed("  \t\n "), vec![Token::EndOfFile]);
}

#[test]
fn lexer_hands_out_tokens_in_order() {
    let mut lexer = Lexer::new("a b");
    lexer.lex();
    assert_eq!(lexer.peek(), Token::Identifier(String::from("a")));
    assert_eq!(lexer.get_index(1), Token::Identifier(String::from("b")));
    assert_eq!(lexer.next(), Token::Identifier(String::from("a")));
    assert_eq!(lexer.next(), Token::Identifier(String::from("b")));
    assert_eq!(lexer.next(), Token::EndOfFile);
    assert_eq!(lexer.next(), Token::Unknown);
    assert_eq!(lexer.peek(), Token::Unknown);
}
