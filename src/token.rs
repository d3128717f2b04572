use vstd::prelude::*;

verus! {

/// The kinds of token the lexer produces. `Identifier`, `Str` and `Num` carry
/// their source text: the name, the contents between the quotes, and the
/// literal's digits.
#[derive(Clone, Debug, PartialEq)]
pub enum TokenType {
    LParen,
    RParen,
    LBrace,
    RBrace,
    LBracket,
    RBracket,
    Equal,
    Plus,
    Minus,
    Asterisk,
    Slash,
    Dot,
    Let,
    EqualEqual,
    Greater,
    GreaterEqual,
    Less,
    LessEqual,
    Bang,
    BangEqual,
    Identifier(String),
    Str(String),
    Num(String),
    True,
    False,
    While,
    If,
    Else,
    Comma,
    Eof,
}

/// A token type with its text as a sequence of characters.
pub enum TokenTypeView {
    LParen,
    RParen,
    LBrace,
    RBrace,
    LBracket,
    RBracket,
    Equal,
    Plus,
    Minus,
    Asterisk,
    Slash,
    Dot,
    Let,
    EqualEqual,
    Greater,
    GreaterEqual,
    Less,
    LessEqual,
    Bang,
    BangEqual,
    Identifier(Seq<char>),
    Str(Seq<char>),
    Num(Seq<char>),
    True,
    False,
    While,
    If,
    Else,
    Comma,
    Eof,
}

impl View for TokenType {
    type V = TokenTypeView;

    open spec fn view(&self) -> TokenTypeView {
        match self {
            TokenType::LParen => TokenTypeView::LParen,
            TokenType::RParen => TokenTypeView::RParen,
            TokenType::LBrace => TokenTypeView::LBrace,
            TokenType::RBrace => TokenTypeView::RBrace,
            TokenType::LBracket => TokenTypeView::LBracket,
            TokenType::RBracket => TokenTypeView::RBracket,
            TokenType::Equal => TokenTypeView::Equal,
            TokenType::Plus => TokenTypeView::Plus,
            TokenType::Minus => TokenTypeView::Minus,
            TokenType::Asterisk => TokenTypeView::Asterisk,
            TokenType::Slash => TokenTypeView::Slash,
            TokenType::Dot => TokenTypeView::Dot,
            TokenType::Let => TokenTypeView::Let,
            TokenType::EqualEqual => TokenTypeView::EqualEqual,
            TokenType::Greater => TokenTypeView::Greater,
            TokenType::GreaterEqual => TokenTypeView::GreaterEqual,
            TokenType::Less => TokenTypeView::Less,
            TokenType::LessEqual => TokenTypeView::LessEqual,
            TokenType::Bang => TokenTypeView::Bang,
            TokenType::BangEqual => TokenTypeView::BangEqual,
            TokenType::Identifier(s) => TokenTypeView::Identifier(s@),
            TokenType::Str(s) => TokenTypeView::Str(s@),
            TokenType::Num(s) => TokenTypeView::Num(s@),
            TokenType::True => TokenTypeView::True,
            TokenType::False => TokenTypeView::False,
            TokenType::While => TokenTypeView::While,
            TokenType::If => TokenTypeView::If,
            TokenType::Else => TokenTypeView::Else,
            TokenType::Comma => TokenTypeView::Comma,
            TokenType::Eof => TokenTypeView::Eof,
        }
    }
}

impl TokenType {
    /// A copy of this token type, text included.
    pub fn duplicate(&self) -> (r: TokenType)
        ensures
            r@ == self@,
    {
        match self {
            TokenType::Identifier(s) => TokenType::Identifier(s.clone()),
            TokenType::Str(s) => TokenType::Str(s.clone()),
            TokenType::Num(s) => TokenType::Num(s.clone()),
            TokenType::LParen => TokenType::LParen,
            TokenType::RParen => TokenType::RParen,
            TokenType::LBrace => TokenType::LBrace,
            TokenType::RBrace => TokenType::RBrace,
            TokenType::LBracket => TokenType::LBracket,
            TokenType::RBracket => TokenType::RBracket,
            TokenType::Equal => TokenType::Equal,
            TokenType::Plus => TokenType::Plus,
            TokenType::Minus => TokenType::Minus,
            TokenType::Asterisk => TokenType::Asterisk,
            TokenType::Slash => TokenType::Slash,
            TokenType::Dot => TokenType::Dot,
            TokenType::Let => TokenType::Let,
            TokenType::EqualEqual => TokenType::EqualEqual,
            TokenType::Greater => TokenType::Greater,
            TokenType::GreaterEqual => TokenType::GreaterEqual,
            TokenType::Less => TokenType::Less,
            TokenType::LessEqual => TokenType::LessEqual,
            TokenType::Bang => TokenType::Bang,
            TokenType::BangEqual => TokenType::BangEqual,
            TokenType::True => TokenType::True,
            TokenType::False => TokenType::False,
            TokenType::While => TokenType::While,
            TokenType::If => TokenType::If,
            TokenType::Else => TokenType::Else,
            TokenType::Comma => TokenType::Comma,
            TokenType::Eof => TokenType::Eof,
        }
    }
}

/// A token type with the source line that the token started on.
#[derive(Debug)]
pub struct Token {
    token_type: TokenType,
    line: usize,
}

/// A token as its type's view and its line.
pub struct TokenView {
    pub token_type: TokenTypeView,
    pub line: nat,
}

impl View for Token {
    type V = TokenView;

    closed spec fn view(&self) -> TokenView {
        TokenView { token_type: self.token_type@, line: self.line as nat }
    }
}

impl Token {
    pub fn new(token_type: TokenType, line: usize) -> (r: Token)
        ensures
            r@ == (TokenView { token_type: token_type@, line: line as nat }),
    {
        Token { token_type, line }
    }

    /// A copy of this token.
    pub fn duplicate(&self) -> (r: Token)
        ensures
            r@ == self@,
    {
        Token { token_type: self.token_type.duplicate(), line: self.line }
    }

    /// The token's type.
    pub fn token_type(&self) -> (r: &TokenType)
        ensures
            r@ == self@.token_type,
    {
        &self.token_type
    }

    /// The source line the token started on.
    pub fn line(&self) -> (r: usize)
        ensures
            r as nat == self@.line,
    {
        self.line
    }
}

} // verus!
