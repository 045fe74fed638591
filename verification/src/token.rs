use vstd::prelude::*;

verus! {

/// A classified piece of source text.
///
/// `line` is the 0-based line the token is reported on.  `lexeme` is a
/// borrowed view into the original source text: for a string literal it is
/// the text strictly between the two quote characters, for a number the exact
/// digit (and dot) run, and for a comment the text from the first slash up to
/// and including the terminating newline (or to end of input).
#[derive(Debug, PartialEq)]
pub enum Token<'s> {
    // Single-character tokens
    LeftParen { line: usize },
    RightParen { line: usize },
    LeftBrace,
    RightBrace,
    Comma,
    Dot,
    Minus,
    Plus,
    SemiColon,
    Slash,
    Star,
    // One- or two-character tokens
    Bang { line: usize },
    BangEqual { line: usize },
    Equal,
    EqualEqual,
    Greater,
    GreaterEqual,
    Less,
    LessEqual,
    // Literals
    Identifier,
    String { line: usize, lexeme: &'s str },
    Number { line: usize, lexeme: &'s str },
    // Keywords
    And,
    Or,
    If,
    Else,
    True,
    False,
    Function,
    For,
    Print,
    Return,
    Let,
    While,
    // Never produced by the scan loop itself
    Eof,
    Comment { line: usize, lexeme: &'s str },
}

/// The mathematical value of a [`Token`]: lines as `nat`, lexemes as
/// sequences of characters.  The specification-level lexical rules in
/// [`crate::rules`] are stated over this type.
pub enum TokenModel {
    LeftParen { line: nat },
    RightParen { line: nat },
    LeftBrace,
    RightBrace,
    Comma,
    Dot,
    Minus,
    Plus,
    SemiColon,
    Slash,
    Star,
    Bang { line: nat },
    BangEqual { line: nat },
    Equal,
    EqualEqual,
    Greater,
    GreaterEqual,
    Less,
    LessEqual,
    Identifier,
    String { line: nat, lexeme: Seq<char> },
    Number { line: nat, lexeme: Seq<char> },
    And,
    Or,
    If,
    Else,
    True,
    False,
    Function,
    For,
    Print,
    Return,
    Let,
    While,
    Eof,
    Comment { line: nat, lexeme: Seq<char> },
}

impl<'s> View for Token<'s> {
    type V = TokenModel;

    open spec fn view(&self) -> TokenModel {
        match self {
            Token::LeftParen { line } => TokenModel::LeftParen { line: *line as nat },
            Token::RightParen { line } => TokenModel::RightParen { line: *line as nat },
            Token::LeftBrace => TokenModel::LeftBrace,
            Token::RightBrace => TokenModel::RightBrace,
            Token::Comma => TokenModel::Comma,
            Token::Dot => TokenModel::Dot,
            Token::Minus => TokenModel::Minus,
            Token::Plus => TokenModel::Plus,
            Token::SemiColon => TokenModel::SemiColon,
            Token::Slash => TokenModel::Slash,
            Token::Star => TokenModel::Star,
            Token::Bang { line } => TokenModel::Bang { line: *line as nat },
            Token::BangEqual { line } => TokenModel::BangEqual { line: *line as nat },
            Token::Equal => TokenModel::Equal,
            Token::EqualEqual => TokenModel::EqualEqual,
            Token::Greater => TokenModel::Greater,
            Token::GreaterEqual => TokenModel::GreaterEqual,
            Token::Less => TokenModel::Less,
            Token::LessEqual => TokenModel::LessEqual,
            Token::Identifier => TokenModel::Identifier,
            Token::String { line, lexeme } => TokenModel::String {
                line: *line as nat,
                lexeme: lexeme.view(),
            },
            Token::Number { line, lexeme } => TokenModel::Number {
                line: *line as nat,
                lexeme: lexeme.view(),
            },
            Token::And => TokenModel::And,
            Token::Or => TokenModel::Or,
            Token::If => TokenModel::If,
            Token::Else => TokenModel::Else,
            Token::True => TokenModel::True,
            Token::False => TokenModel::False,
            Token::Function => TokenModel::Function,
            Token::For => TokenModel::For,
            Token::Print => TokenModel::Print,
            Token::Return => TokenModel::Return,
            Token::Let => TokenModel::Let,
            Token::While => TokenModel::While,
            Token::Eof => TokenModel::Eof,
            Token::Comment { line, lexeme } => TokenModel::Comment {
                line: *line as nat,
                lexeme: lexeme.view(),
            },
        }
    }
}

/// The views of a sequence of tokens, in order.
pub open spec fn token_views<'s>(tokens: Seq<Token<'s>>) -> Seq<TokenModel> {
    tokens.map_values(|t: Token<'s>| t@)
}

/// Why a scan was aborted: an opened string literal that never reaches its
/// closing quote, or a character that starts no lexical rule (reported with
/// the 0-based line it occurred on).
#[derive(Debug, PartialEq)]
pub enum TokenizationError {
    NoStringDelimiterFound,
    UnrecognizedToken { line: usize },
}

/// The mathematical value of a [`TokenizationError`].
pub enum ErrorModel {
    NoStringDelimiterFound,
    UnrecognizedToken { line: nat },
}

impl View for TokenizationError {
    type V = ErrorModel;

    open spec fn view(&self) -> ErrorModel {
        match self {
            TokenizationError::NoStringDelimiterFound => ErrorModel::NoStringDelimiterFound,
            TokenizationError::UnrecognizedToken { line } => ErrorModel::UnrecognizedToken {
                line: *line as nat,
            },
        }
    }
}

} // verus!
