use vstd::prelude::*;
use vstd::string::*;

verus! {

/// A lexical token of the language.
#[derive(Debug, PartialEq, Clone)]
pub enum Token {
    /// A numeric literal, holding its source text (digits with at most one `.`).
    Number(String),
    String(String),
    Boolean(bool),
    Identifier(String),
    Operator(Operator),
    Keyword(Keyword),
    LParen,
    RParen,
    LBrace,
    RBrace,
    Comma,
    EndOfFile,
    Semicolon,
    Unknown,
}

#[derive(Debug, PartialEq, Eq, Structural, Clone, Copy)]
pub enum Operator {
    Plus,
    Minus,
    Mul,
    Div,
    Modulus,
    Exponent,
    Equal,
    PlusEqual,
    MinusEqual,
    MulEqual,
    DivEqual,
    ModulusEqual,
    ExponentEqual,
    LessThan,
    LessThanOrEqual,
    GreaterThan,
    GreaterThanOrEqual,
    DoubleEqual,
    NotEqual,
    DoublePipe,
    Pipe,
    Not,
}

#[derive(Debug, PartialEq, Eq, Structural, Clone, Copy)]
pub enum Keyword {
    Let,
    Function,
    And,
    Or,
    NoValue,
}

/// The mathematical model of a token: its text payloads as character sequences.
pub enum TokenV {
    Number(Seq<char>),
    Str(Seq<char>),
    Boolean(bool),
    Identifier(Seq<char>),
    Operator(Operator),
    Keyword(Keyword),
    LParen,
    RParen,
    LBrace,
    RBrace,
    Comma,
    EndOfFile,
    Semicolon,
    Unknown,
}

impl View for Token {
    type V = TokenV;

    open spec fn view(&self) -> TokenV {
        match self {
            Token::Number(s) => TokenV::Number(s@),
            Token::String(s) => TokenV::Str(s@),
            Token::Boolean(b) => TokenV::Boolean(*b),
            Token::Identifier(s) => TokenV::Identifier(s@),
            Token::Operator(o) => TokenV::Operator(*o),
            Token::Keyword(k) => TokenV::Keyword(*k),
            Token::LParen => TokenV::LParen,
            Token::RParen => TokenV::RParen,
            Token::LBrace => TokenV::LBrace,
            Token::RBrace => TokenV::RBrace,
            Token::Comma => TokenV::Comma,
            Token::EndOfFile => TokenV::EndOfFile,
            Token::Semicolon => TokenV::Semicolon,
            Token::Unknown => TokenV::Unknown,
        }
    }
}

impl Token {
    /// A copy of the token.
    pub fn copied(&self) -> (r: Token)
        ensures
            r == *self,
    {
        match self {
            Token::Number(s) => Token::Number(s.clone()),
            Token::String(s) => Token::String(s.clone()),
            Token::Boolean(b) => Token::Boolean(*b),
            Token::Identifier(s) => Token::Identifier(s.clone()),
            Token::Operator(o) => Token::Operator(*o),
            Token::Keyword(k) => Token::Keyword(*k),
            Token::LParen => Token::LParen,
            Token::RParen => Token::RParen,
            Token::LBrace => Token::LBrace,
            Token::RBrace => Token::RBrace,
            Token::Comma => Token::Comma,
            Token::EndOfFile => Token::EndOfFile,
            Token::Semicolon => Token::Semicolon,
            Token::Unknown => Token::Unknown,
        }
    }
}

/// The operator that a token carries.
pub fn extract_op(token: Token) -> (r: Result<Operator, String>)
    ensures
        match token {
            Token::Operator(op) => r == Ok::<Operator, String>(op),
            _ => r is Err,
        },
{
    match token {
        Token::Operator(op) => Ok(op),
        _ => {
            let mut message = String::from_str("Expected unary '+' or '-', got ");
            message.append(token_name(&token).as_str());
            Err(message)
        },
    }
}

/// The name of a token's kind, as shown in error messages.
pub open spec fn token_name_text(token: Token) -> Seq<char> {
    match token {
        Token::Number(_) => "Number"@,
        Token::String(_) => "String"@,
        Token::Boolean(_) => "Boolean"@,
        Token::Identifier(_) => "Identifier"@,
        Token::Operator(_) => "Operator"@,
        Token::Keyword(_) => "Keyword"@,
        Token::LParen => "LParen"@,
        Token::RParen => "RParen"@,
        Token::LBrace => "LBrace"@,
        Token::RBrace => "RBrace"@,
        Token::Comma => "Comma"@,
        Token::EndOfFile => "EndOfFile"@,
        Token::Semicolon => "Semicolon"@,
        Token::Unknown => "Unknown"@,
    }
}

/// The name of a token's kind, as shown in error messages.
pub fn token_name(token: &Token) -> (r: String)
    ensures
        r@ == token_name_text(*token),
{
    let name = match token {
        Token::Number(_) => "Number",
        Token::String(_) => "String",
        Token::Boolean(_) => "Boolean",
        Token::Identifier(_) => "Identifier",
        Token::Operator(_) => "Operator",
        Token::Keyword(_) => "Keyword",
        Token::LParen => "LParen",
        Token::RParen => "RParen",
        Token::LBrace => "LBrace",
        Token::RBrace => "RBrace",
        Token::Comma => "Comma",
        Token::EndOfFile => "EndOfFile",
        Token::Semicolon => "Semicolon",
        Token::Unknown => "Unknown",
    };
    String::from_str(name)
}

/// The source spelling of an operator.
pub open spec fn operator_spelling(op: Operator) -> Seq<char> {
    match op {
        Operator::Plus => "+"@,
        Operator::Minus => "-"@,
        Operator::Mul => "*"@,
        Operator::Div => "/"@,
        Operator::Modulus => "%"@,
        Operator::Exponent => "**"@,
        Operator::Equal => "="@,
        Operator::PlusEqual => "+="@,
        Operator::MinusEqual => "-="@,
        Operator::MulEqual => "*="@,
        Operator::DivEqual => "/="@,
        Operator::ModulusEqual => "%="@,
        Operator::ExponentEqual => "**="@,
        Operator::LessThan => "<"@,
        Operator::LessThanOrEqual => "<="@,
        Operator::GreaterThan => ">"@,
        Operator::GreaterThanOrEqual => ">="@,
        Operator::DoubleEqual => "=="@,
        Operator::NotEqual => "!="@,
        Operator::DoublePipe => "||"@,
        Operator::Pipe => "|"@,
        Operator::Not => "not"@,
    }
}

/// The source spelling of an operator.
pub fn operator_text(op: Operator) -> (r: &'static str)
    ensures
        r@ == operator_spelling(op),
{
    match op {
        Operator::Plus => "+",
        Operator::Minus => "-",
        Operator::Mul => "*",
        Operator::Div => "/",
        Operator::Modulus => "%",
        Operator::Exponent => "**",
        Operator::Equal => "=",
        Operator::PlusEqual => "+=",
        Operator::MinusEqual => "-=",
        Operator::MulEqual => "*=",
        Operator::DivEqual => "/=",
        Operator::ModulusEqual => "%=",
        Operator::ExponentEqual => "**=",
        Operator::LessThan => "<",
        Operator::LessThanOrEqual => "<=",
        Operator::GreaterThan => ">",
        Operator::GreaterThanOrEqual => ">=",
        Operator::DoubleEqual => "==",
        Operator::NotEqual => "!=",
        Operator::DoublePipe => "||",
        Operator::Pipe => "|",
        Operator::Not => "not",
    }
}

/// A token as source text where it has a spelling, else its kind's name.
pub fn token_text(token: &Token) -> (r: String)
{
    match token {
        Token::Number(t) | Token::Identifier(t) => t.clone(),
        Token::String(t) => {
            let mut r = String::from_str("'");
            r.append(t.as_str());
            r.append("'");
            r
        },
        Token::Boolean(b) => if *b { String::from_str("true") } else { String::from_str("false") },
        Token::Operator(op) => String::from_str(operator_text(*op)),
        Token::Keyword(Keyword::Let) => String::from_str("let"),
        Token::Keyword(Keyword::Function) => String::from_str("function"),
        Token::Keyword(Keyword::And) => String::from_str("and"),
        Token::Keyword(Keyword::Or) => String::from_str("or"),
        Token::Keyword(Keyword::NoValue) => String::from_str("none"),
        Token::LParen => String::from_str("("),
        Token::RParen => String::from_str(")"),
        Token::LBrace => String::from_str("{"),
        Token::RBrace => String::from_str("}"),
        Token::Comma => String::from_str(","),
        Token::Semicolon => String::from_str(";"),
        _ => token_name(token),
    }
}

} // verus!
