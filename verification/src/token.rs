//! The closed set of lexical categories and the concrete token record.
//!
//! A token couples its category with the exact source slice that produced
//! it and the 1-based line of its first character.  Categories that carry a
//! payload hold it as plain text: an identifier keeps its spelling, a string
//! literal keeps the text between the quotes, and a numeric literal keeps
//! its decimal source text.

use vstd::prelude::*;

verus! {

/// A lexical category.  The literal-carrying variants hold their decoded
/// payload; every other variant is identified by the tag alone.
#[derive(Debug, Clone)]
pub enum TokenType {
    // Single-character tokens
    LeftParen,
    RightParen,
    LeftBrace,
    RightBrace,
    Comma,
    Dot,
    Minus,
    Plus,
    Semicolon,
    Slash,
    Star,
    // One or two character tokens
    Bang,
    BangEqual,
    Equal,
    EqualEqual,
    Greater,
    GreaterEqual,
    Less,
    LessEqual,
    // Literals
    Identifier { literal: String },
    String { literal: String },
    Number { literal: String },
    // Keywords
    And,
    Class,
    Else,
    False,
    Fn,
    For,
    If,
    Nil,
    Or,
    Print,
    Return,
    Super,
    This,
    True,
    Var,
    While,
    Eof,
}

/// The mathematical model of a `TokenType`: the same variants with every
/// payload read as a sequence of characters.
pub enum TokenTypeV {
    LeftParen,
    RightParen,
    LeftBrace,
    RightBrace,
    Comma,
    Dot,
    Minus,
    Plus,
    Semicolon,
    Slash,
    Star,
    Bang,
    BangEqual,
    Equal,
    EqualEqual,
    Greater,
    GreaterEqual,
    Less,
    LessEqual,
    Identifier { literal: Seq<char> },
    String { literal: Seq<char> },
    Number { literal: Seq<char> },
    And,
    Class,
    Else,
    False,
    Fn,
    For,
    If,
    Nil,
    Or,
    Print,
    Return,
    Super,
    This,
    True,
    Var,
    While,
    Eof,
}

impl View for TokenType {
    type V = TokenTypeV;

    open spec fn view(&self) -> TokenTypeV {
        match self {
            TokenType::LeftParen => TokenTypeV::LeftParen,
            TokenType::RightParen => TokenTypeV::RightParen,
            TokenType::LeftBrace => TokenTypeV::LeftBrace,
            TokenType::RightBrace => TokenTypeV::RightBrace,
            TokenType::Comma => TokenTypeV::Comma,
            TokenType::Dot => TokenTypeV::Dot,
            TokenType::Minus => TokenTypeV::Minus,
            TokenType::Plus => TokenTypeV::Plus,
            TokenType::Semicolon => TokenTypeV::Semicolon,
            TokenType::Slash => TokenTypeV::Slash,
            TokenType::Star => TokenTypeV::Star,
            TokenType::Bang => TokenTypeV::Bang,
            TokenType::BangEqual => TokenTypeV::BangEqual,
            TokenType::Equal => TokenTypeV::Equal,
            TokenType::EqualEqual => TokenTypeV::EqualEqual,
            TokenType::Greater => TokenTypeV::Greater,
            TokenType::GreaterEqual => TokenTypeV::GreaterEqual,
            TokenType::Less => TokenTypeV::Less,
            TokenType::LessEqual => TokenTypeV::LessEqual,
            TokenType::Identifier { literal } => TokenTypeV::Identifier { literal: literal@ },
            TokenType::String { literal } => TokenTypeV::String { literal: literal@ },
            TokenType::Number { literal } => TokenTypeV::Number { literal: literal@ },
            TokenType::And => TokenTypeV::And,
            TokenType::Class => TokenTypeV::Class,
            TokenType::Else => TokenTypeV::Else,
            TokenType::False => TokenTypeV::False,
            TokenType::Fn => TokenTypeV::Fn,
            TokenType::For => TokenTypeV::For,
            TokenType::If => TokenTypeV::If,
            TokenType::Nil => TokenTypeV::Nil,
            TokenType::Or => TokenTypeV::Or,
            TokenType::Print => TokenTypeV::Print,
            TokenType::Return => TokenTypeV::Return,
            TokenType::Super => TokenTypeV::Super,
            TokenType::This => TokenTypeV::This,
            TokenType::True => TokenTypeV::True,
            TokenType::Var => TokenTypeV::Var,
            TokenType::While => TokenTypeV::While,
            TokenType::Eof => TokenTypeV::Eof,
        }
    }
}

impl TokenType {
    /// A verified copy: the result is the very value copied.
    pub fn duplicate(&self) -> (r: TokenType)
        ensures
            r == *self,
    {
        match self {
            TokenType::LeftParen => TokenType::LeftParen,
            TokenType::RightParen => TokenType::RightParen,
            TokenType::LeftBrace => TokenType::LeftBrace,
            TokenType::RightBrace => TokenType::RightBrace,
            TokenType::Comma => TokenType::Comma,
            TokenType::Dot => TokenType::Dot,
            TokenType::Minus => TokenType::Minus,
            TokenType::Plus => TokenType::Plus,
            TokenType::Semicolon => TokenType::Semicolon,
            TokenType::Slash => TokenType::Slash,
            TokenType::Star => TokenType::Star,
            TokenType::Bang => TokenType::Bang,
            TokenType::BangEqual => TokenType::BangEqual,
            TokenType::Equal => TokenType::Equal,
            TokenType::EqualEqual => TokenType::EqualEqual,
            TokenType::Greater => TokenType::Greater,
            TokenType::GreaterEqual => TokenType::GreaterEqual,
            TokenType::Less => TokenType::Less,
            TokenType::LessEqual => TokenType::LessEqual,
            TokenType::Identifier { literal } => TokenType::Identifier { literal: literal.clone() },
            TokenType::String { literal } => TokenType::String { literal: literal.clone() },
            TokenType::Number { literal } => TokenType::Number { literal: literal.clone() },
            TokenType::And => TokenType::And,
            TokenType::Class => TokenType::Class,
            TokenType::Else => TokenType::Else,
            TokenType::False => TokenType::False,
            TokenType::Fn => TokenType::Fn,
            TokenType::For => TokenType::For,
            TokenType::If => TokenType::If,
            TokenType::Nil => TokenType::Nil,
            TokenType::Or => TokenType::Or,
            TokenType::Print => TokenType::Print,
            TokenType::Return => TokenType::Return,
            TokenType::Super => TokenType::Super,
            TokenType::This => TokenType::This,
            TokenType::True => TokenType::True,
            TokenType::Var => TokenType::Var,
            TokenType::While => TokenType::While,
            TokenType::Eof => TokenType::Eof,
        }
    }
}

impl PartialEq for TokenType {
    fn eq(&self, other: &Self) -> bool {
        match (self, other) {
            (TokenType::LeftParen, TokenType::LeftParen) => true,
            (TokenType::RightParen, TokenType::RightParen) => true,
            (TokenType::LeftBrace, TokenType::LeftBrace) => true,
            (TokenType::RightBrace, TokenType::RightBrace) => true,
            (TokenType::Comma, TokenType::Comma) => true,
            (TokenType::Dot, TokenType::Dot) => true,
            (TokenType::Minus, TokenType::Minus) => true,
            (TokenType::Plus, TokenType::Plus) => true,
            (TokenType::Semicolon, TokenType::Semicolon) => true,
            (TokenType::Slash, TokenType::Slash) => true,
            (TokenType::Star, TokenType::Star) => true,
            (TokenType::Bang, TokenType::Bang) => true,
            (TokenType::BangEqual, TokenType::BangEqual) => true,
            (TokenType::Equal, TokenType::Equal) => true,
            (TokenType::EqualEqual, TokenType::EqualEqual) => true,
            (TokenType::Greater, TokenType::Greater) => true,
            (TokenType::GreaterEqual, TokenType::GreaterEqual) => true,
            (TokenType::Less, TokenType::Less) => true,
            (TokenType::LessEqual, TokenType::LessEqual) => true,
            (TokenType::Identifier { literal: a }, TokenType::Identifier { literal: b }) => *a
                == *b,
            (TokenType::String { literal: a }, TokenType::String { literal: b }) => *a == *b,
            (TokenType::Number { literal: a }, TokenType::Number { literal: b }) => *a == *b,
            (TokenType::And, TokenType::And) => true,
            (TokenType::Class, TokenType::Class) => true,
            (TokenType::Else, TokenType::Else) => true,
            (TokenType::False, TokenType::False) => true,
            (TokenType::Fn, TokenType::Fn) => true,
            (TokenType::For, TokenType::For) => true,
            (TokenType::If, TokenType::If) => true,
            (TokenType::Nil, TokenType::Nil) => true,
            (TokenType::Or, TokenType::Or) => true,
            (TokenType::Print, TokenType::Print) => true,
            (TokenType::Return, TokenType::Return) => true,
            (TokenType::Super, TokenType::Super) => true,
            (TokenType::This, TokenType::This) => true,
            (TokenType::True, TokenType::True) => true,
            (TokenType::Var, TokenType::Var) => true,
            (TokenType::While, TokenType::While) => true,
            (TokenType::Eof, TokenType::Eof) => true,
            _ => false,
        }
    }
}

impl vstd::std_specs::cmp::PartialEqSpecImpl for TokenType {
    open spec fn obeys_eq_spec() -> bool {
        true
    }

    open spec fn eq_spec(&self, other: &Self) -> bool {
        self@ == other@
    }
}

/// The mathematical model of a `Token`.
pub struct TokenV {
    pub t_type: TokenTypeV,
    pub lexeme: Seq<char>,
    pub line: nat,
}

/// A lexical token: category, the exact source substring that produced it,
/// and the 1-based line of its first character.
#[derive(Debug, Clone)]
pub struct Token {
    pub t_type: TokenType,
    pub lexeme: String,
    pub line: usize,
}

impl View for Token {
    type V = TokenV;

    open spec fn view(&self) -> TokenV {
        TokenV { t_type: self.t_type@, lexeme: self.lexeme@, line: self.line as nat }
    }
}

impl Token {
    pub fn new(t_type: TokenType, lexeme: &str, line: usize) -> (t: Token)
        ensures
            t@ == (TokenV { t_type: t_type@, lexeme: lexeme@, line: line as nat }),
    {
        Token { t_type, lexeme: lexeme.to_owned(), line }
    }

    /// A verified copy: the result is the very value copied.
    pub fn duplicate(&self) -> (r: Token)
        ensures
            r == *self,
    {
        Token { t_type: self.t_type.duplicate(), lexeme: self.lexeme.clone(), line: self.line }
    }
}

impl PartialEq for Token {
    fn eq(&self, other: &Self) -> bool {
        self.t_type == other.t_type && self.lexeme == other.lexeme && self.line == other.line
    }
}

impl vstd::std_specs::cmp::PartialEqSpecImpl for Token {
    open spec fn obeys_eq_spec() -> bool {
        true
    }

    open spec fn eq_spec(&self, other: &Self) -> bool {
        self@ == other@
    }
}

/// The fixed keyword table: the category reserved for `text`, if any.
pub open spec fn keyword(text: Seq<char>) -> Option<TokenTypeV> {
    if text == "and"@ {
        Some(TokenTypeV::And)
    } else if text == "class"@ {
        Some(TokenTypeV::Class)
    } else if text == "else"@ {
        Some(TokenTypeV::Else)
    } else if text == "false"@ {
        Some(TokenTypeV::False)
    } else if text == "for"@ {
        Some(TokenTypeV::For)
    } else if text == "fn"@ {
        Some(TokenTypeV::Fn)
    } else if text == "if"@ {
        Some(TokenTypeV::If)
    } else if text == "nil"@ {
        Some(TokenTypeV::Nil)
    } else if text == "or"@ {
        Some(TokenTypeV::Or)
    } else if text == "print"@ {
        Some(TokenTypeV::Print)
    } else if text == "return"@ {
        Some(TokenTypeV::Return)
    } else if text == "super"@ {
        Some(TokenTypeV::Super)
    } else if text == "this"@ {
        Some(TokenTypeV::This)
    } else if text == "true"@ {
        Some(TokenTypeV::True)
    } else if text == "var"@ {
        Some(TokenTypeV::Var)
    } else if text == "while"@ {
        Some(TokenTypeV::While)
    } else {
        None
    }
}

/// Looks `text` up in the keyword table.
pub fn keyword_for(text: &String) -> (r: Option<TokenType>)
    ensures
        match r {
            Some(t) => keyword(text@) == Some(t@),
            None => keyword(text@) is None,
        },
{
    if *text == "and".to_owned() {
        Some(TokenType::And)
    } else if *text == "class".to_owned() {
        Some(TokenType::Class)
    } else if *text == "else".to_owned() {
        Some(TokenType::Else)
    } else if *text == "false".to_owned() {
        Some(TokenType::False)
    } else if *text == "for".to_owned() {
        Some(TokenType::For)
    } else if *text == "fn".to_owned() {
        Some(TokenType::Fn)
    } else if *text == "if".to_owned() {
        Some(TokenType::If)
    } else if *text == "nil".to_owned() {
        Some(TokenType::Nil)
    } else if *text == "or".to_owned() {
        Some(TokenType::Or)
    } else if *text == "print".to_owned() {
        Some(TokenType::Print)
    } else if *text == "return".to_owned() {
        Some(TokenType::Return)
    } else if *text == "super".to_owned() {
        Some(TokenType::Super)
    } else if *text == "this".to_owned() {
        Some(TokenType::This)
    } else if *text == "true".to_owned() {
        Some(TokenType::True)
    } else if *text == "var".to_owned() {
        Some(TokenType::Var)
    } else if *text == "while".to_owned() {
        Some(TokenType::While)
    } else {
        None
    }
}

} // verus!
