//! Tokens and the tables of the symbols and keywords.

use vstd::prelude::*;

use crate::error::Span;
use crate::static_check::types::str_eq;
use crate::util::concat3;
use crate::util::i32_to_decimal;
use crate::util::spec_signed_decimal;
use crate::util::string_from;

verus! {

#[derive(Debug)]
pub enum TokenKind {
    Eof,
    Newline,
    // statements
    Identifier(String),
    Equal,
    Colon,
    Arrow,
    FatArrow,
    Comma,
    // parentheses
    LeftParenthesis,
    RightParenthesis,
    LeftBrace,
    RightBrace,
    // literals; a decimal literal keeps the characters it was written with
    Int32Literal(i32),
    Float32Literal(String),
    // operators
    Plus,
    Minus,
    Star,
    Slash,
    Caret,
    Concat,
    LeftPipe,
    RightPipe,
    LeftComposition,
    RightComposition,
    // keywords
    Match,
}

/// The value of a token kind.
pub enum TokenKindModel {
    Eof,
    Newline,
    Identifier(Seq<char>),
    Equal,
    Colon,
    Arrow,
    FatArrow,
    Comma,
    LeftParenthesis,
    RightParenthesis,
    LeftBrace,
    RightBrace,
    Int32Literal(i32),
    Float32Literal(Seq<char>),
    Plus,
    Minus,
    Star,
    Slash,
    Caret,
    Concat,
    LeftPipe,
    RightPipe,
    LeftComposition,
    RightComposition,
    Match,
}

impl View for TokenKind {
    type V = TokenKindModel;

    open spec fn view(&self) -> TokenKindModel {
        match self {
            TokenKind::Eof => TokenKindModel::Eof,
            TokenKind::Newline => TokenKindModel::Newline,
            TokenKind::Identifier(name) => TokenKindModel::Identifier(name@),
            TokenKind::Equal => TokenKindModel::Equal,
            TokenKind::Colon => TokenKindModel::Colon,
            TokenKind::Arrow => TokenKindModel::Arrow,
            TokenKind::FatArrow => TokenKindModel::FatArrow,
            TokenKind::Comma => TokenKindModel::Comma,
            TokenKind::LeftParenthesis => TokenKindModel::LeftParenthesis,
            TokenKind::RightParenthesis => TokenKindModel::RightParenthesis,
            TokenKind::LeftBrace => TokenKindModel::LeftBrace,
            TokenKind::RightBrace => TokenKindModel::RightBrace,
            TokenKind::Int32Literal(v) => TokenKindModel::Int32Literal(*v),
            TokenKind::Float32Literal(text) => TokenKindModel::Float32Literal(text@),
            TokenKind::Plus => TokenKindModel::Plus,
            TokenKind::Minus => TokenKindModel::Minus,
            TokenKind::Star => TokenKindModel::Star,
            TokenKind::Slash => TokenKindModel::Slash,
            TokenKind::Caret => TokenKindModel::Caret,
            TokenKind::Concat => TokenKindModel::Concat,
            TokenKind::LeftPipe => TokenKindModel::LeftPipe,
            TokenKind::RightPipe => TokenKindModel::RightPipe,
            TokenKind::LeftComposition => TokenKindModel::LeftComposition,
            TokenKind::RightComposition => TokenKindModel::RightComposition,
            TokenKind::Match => TokenKindModel::Match,
        }
    }
}

/// A token kind as it is shown: its name, and its value in parentheses.
pub open spec fn token_kind_text(k: TokenKindModel) -> Seq<char> {
    match k {
        TokenKindModel::Identifier(name) => "Identifier ("@ + name + ")"@,
        TokenKindModel::Int32Literal(v) => "Int32 ("@ + spec_signed_decimal(v as int) + ")"@,
        TokenKindModel::Float32Literal(text) => "Float32 ("@ + text + ")"@,
        TokenKindModel::Eof => "Eof"@,
        TokenKindModel::Newline => "Newline"@,
        TokenKindModel::Equal => "Equal"@,
        TokenKindModel::Colon => "Colon"@,
        TokenKindModel::Arrow => "Arrow"@,
        TokenKindModel::FatArrow => "FatArrow"@,
        TokenKindModel::Comma => "Comma"@,
        TokenKindModel::LeftParenthesis => "LeftParenthesis"@,
        TokenKindModel::RightParenthesis => "RightParenthesis"@,
        TokenKindModel::LeftBrace => "LeftBrace"@,
        TokenKindModel::RightBrace => "RightBrace"@,
        TokenKindModel::Plus => "Plus"@,
        TokenKindModel::Minus => "Minus"@,
        TokenKindModel::Star => "Star"@,
        TokenKindModel::Slash => "Slash"@,
        TokenKindModel::Caret => "Caret"@,
        TokenKindModel::Concat => "Concat"@,
        TokenKindModel::LeftPipe => "LeftPipe"@,
        TokenKindModel::RightPipe => "RightPipe"@,
        TokenKindModel::LeftComposition => "LeftComposition"@,
        TokenKindModel::RightComposition => "RightComposition"@,
        TokenKindModel::Match => "Match"@,
    }
}

impl TokenKind {
    /// The token kind as it is shown.
    pub fn to_text(&self) -> (r: String)
        ensures
            r@ == token_kind_text(self@),
    {
        match self {
            TokenKind::Identifier(name) => concat3("Identifier (", name.as_str(), ")"),
            TokenKind::Int32Literal(v) => {
                let digits = i32_to_decimal(*v);
                concat3("Int32 (", digits.as_str(), ")")
            },
            TokenKind::Float32Literal(text) => concat3("Float32 (", text.as_str(), ")"),
            TokenKind::Eof => string_from("Eof"),
            TokenKind::Newline => string_from("Newline"),
            TokenKind::Equal => string_from("Equal"),
            TokenKind::Colon => string_from("Colon"),
            TokenKind::Arrow => string_from("Arrow"),
            TokenKind::FatArrow => string_from("FatArrow"),
            TokenKind::Comma => string_from("Comma"),
            TokenKind::LeftParenthesis => string_from("LeftParenthesis"),
            TokenKind::RightParenthesis => string_from("RightParenthesis"),
            TokenKind::LeftBrace => string_from("LeftBrace"),
            TokenKind::RightBrace => string_from("RightBrace"),
            TokenKind::Plus => string_from("Plus"),
            TokenKind::Minus => string_from("Minus"),
            TokenKind::Star => string_from("Star"),
            TokenKind::Slash => string_from("Slash"),
            TokenKind::Caret => string_from("Caret"),
            TokenKind::Concat => string_from("Concat"),
            TokenKind::LeftPipe => string_from("LeftPipe"),
            TokenKind::RightPipe => string_from("RightPipe"),
            TokenKind::LeftComposition => string_from("LeftComposition"),
            TokenKind::RightComposition => string_from("RightComposition"),
            TokenKind::Match => string_from("Match"),
        }
    }

    pub fn copy(&self) -> (copy: TokenKind)
        ensures
            copy@ == self@,
    {
        match self {
            TokenKind::Eof => TokenKind::Eof,
            TokenKind::Newline => TokenKind::Newline,
            TokenKind::Identifier(name) => TokenKind::Identifier(name.clone()),
            TokenKind::Equal => TokenKind::Equal,
            TokenKind::Colon => TokenKind::Colon,
            TokenKind::Arrow => TokenKind::Arrow,
            TokenKind::FatArrow => TokenKind::FatArrow,
            TokenKind::Comma => TokenKind::Comma,
            TokenKind::LeftParenthesis => TokenKind::LeftParenthesis,
            TokenKind::RightParenthesis => TokenKind::RightParenthesis,
            TokenKind::LeftBrace => TokenKind::LeftBrace,
            TokenKind::RightBrace => TokenKind::RightBrace,
            TokenKind::Int32Literal(v) => TokenKind::Int32Literal(*v),
            TokenKind::Float32Literal(text) => TokenKind::Float32Literal(text.clone()),
            TokenKind::Plus => TokenKind::Plus,
            TokenKind::Minus => TokenKind::Minus,
            TokenKind::Star => TokenKind::Star,
            TokenKind::Slash => TokenKind::Slash,
            TokenKind::Caret => TokenKind::Caret,
            TokenKind::Concat => TokenKind::Concat,
            TokenKind::LeftPipe => TokenKind::LeftPipe,
            TokenKind::RightPipe => TokenKind::RightPipe,
            TokenKind::LeftComposition => TokenKind::LeftComposition,
            TokenKind::RightComposition => TokenKind::RightComposition,
            TokenKind::Match => TokenKind::Match,
        }
    }

    /// Whether an expression can start with a token of this kind.
    pub fn is_primary_starter(&self) -> (r: bool)
        ensures
            r == spec_is_primary_starter(self@),
    {
        match self {
            TokenKind::Identifier(_)
            | TokenKind::Int32Literal(_)
            | TokenKind::Float32Literal(_)
            | TokenKind::LeftParenthesis
            | TokenKind::Minus => true,
            _ => false,
        }
    }
}

pub open spec fn spec_is_primary_starter(kind: TokenKindModel) -> bool {
    match kind {
        TokenKindModel::Identifier(_)
        | TokenKindModel::Int32Literal(_)
        | TokenKindModel::Float32Literal(_)
        | TokenKindModel::LeftParenthesis
        | TokenKindModel::Minus => true,
        _ => false,
    }
}

/// The one-character symbols.
pub open spec fn spec_one_char_token(ch: char) -> Option<TokenKindModel> {
    if ch == ':' {
        Some(TokenKindModel::Colon)
    } else if ch == '=' {
        Some(TokenKindModel::Equal)
    } else if ch == ',' {
        Some(TokenKindModel::Comma)
    } else if ch == '(' {
        Some(TokenKindModel::LeftParenthesis)
    } else if ch == ')' {
        Some(TokenKindModel::RightParenthesis)
    } else if ch == '{' {
        Some(TokenKindModel::LeftBrace)
    } else if ch == '}' {
        Some(TokenKindModel::RightBrace)
    } else if ch == '+' {
        Some(TokenKindModel::Plus)
    } else if ch == '-' {
        Some(TokenKindModel::Minus)
    } else if ch == '*' {
        Some(TokenKindModel::Star)
    } else if ch == '/' {
        Some(TokenKindModel::Slash)
    } else if ch == '^' {
        Some(TokenKindModel::Caret)
    } else {
        None
    }
}

pub fn match_one_char_token(ch: char) -> (r: Option<TokenKind>)
    ensures
        match r {
            Some(k) => spec_one_char_token(ch) == Some(k@),
            None => spec_one_char_token(ch) is None,
        },
{
    match ch {
        ':' => Some(TokenKind::Colon),
        '=' => Some(TokenKind::Equal),
        ',' => Some(TokenKind::Comma),
        '(' => Some(TokenKind::LeftParenthesis),
        ')' => Some(TokenKind::RightParenthesis),
        '{' => Some(TokenKind::LeftBrace),
        '}' => Some(TokenKind::RightBrace),
        '+' => Some(TokenKind::Plus),
        '-' => Some(TokenKind::Minus),
        '*' => Some(TokenKind::Star),
        '/' => Some(TokenKind::Slash),
        '^' => Some(TokenKind::Caret),
        _ => None,
    }
}

/// The two-character symbols.
pub open spec fn spec_two_char_token(s: Seq<char>) -> Option<TokenKindModel> {
    if s == seq!['-', '>'] {
        Some(TokenKindModel::Arrow)
    } else if s == seq!['=', '>'] {
        Some(TokenKindModel::FatArrow)
    } else if s == seq!['|', '|'] {
        Some(TokenKindModel::Concat)
    } else if s == seq!['<', '|'] {
        Some(TokenKindModel::LeftPipe)
    } else if s == seq!['|', '>'] {
        Some(TokenKindModel::RightPipe)
    } else if s == seq!['<', '<'] {
        Some(TokenKindModel::LeftComposition)
    } else if s == seq!['>', '>'] {
        Some(TokenKindModel::RightComposition)
    } else {
        None
    }
}

pub fn match_two_char_token(s: &str) -> (r: Option<TokenKind>)
    ensures
        match r {
            Some(k) => spec_two_char_token(s@) == Some(k@),
            None => spec_two_char_token(s@) is None,
        },
{
    proof {
        reveal_strlit("->");
        reveal_strlit("=>");
        reveal_strlit("||");
        reveal_strlit("<|");
        reveal_strlit("|>");
        reveal_strlit("<<");
        reveal_strlit(">>");
        assert("->"@ =~= seq!['-', '>']);
        assert("=>"@ =~= seq!['=', '>']);
        assert("||"@ =~= seq!['|', '|']);
        assert("<|"@ =~= seq!['<', '|']);
        assert("|>"@ =~= seq!['|', '>']);
        assert("<<"@ =~= seq!['<', '<']);
        assert(">>"@ =~= seq!['>', '>']);
    }
    if str_eq(s, "->") {
        Some(TokenKind::Arrow)
    } else if str_eq(s, "=>") {
        Some(TokenKind::FatArrow)
    } else if str_eq(s, "||") {
        Some(TokenKind::Concat)
    } else if str_eq(s, "<|") {
        Some(TokenKind::LeftPipe)
    } else if str_eq(s, "|>") {
        Some(TokenKind::RightPipe)
    } else if str_eq(s, "<<") {
        Some(TokenKind::LeftComposition)
    } else if str_eq(s, ">>") {
        Some(TokenKind::RightComposition)
    } else {
        None
    }
}

/// The keywords.
pub open spec fn spec_keyword(s: Seq<char>) -> Option<TokenKindModel> {
    if s == seq!['m', 'a', 't', 'c', 'h'] {
        Some(TokenKindModel::Match)
    } else {
        None
    }
}

pub fn match_keyword(s: &str) -> (r: Option<TokenKind>)
    ensures
        match r {
            Some(k) => spec_keyword(s@) == Some(k@),
            None => spec_keyword(s@) is None,
        },
{
    proof {
        reveal_strlit("match");
        assert("match"@ =~= seq!['m', 'a', 't', 'c', 'h']);
    }
    if str_eq(s, "match") {
        Some(TokenKind::Match)
    } else {
        None
    }
}

#[derive(Debug)]
pub struct Token {
    pub kind: TokenKind,
    pub span: Span,
}

pub struct TokenModel {
    pub kind: TokenKindModel,
    pub span: Span,
}

impl View for Token {
    type V = TokenModel;

    open spec fn view(&self) -> TokenModel {
        TokenModel { kind: self.kind@, span: self.span }
    }
}

pub open spec fn token_views(s: Seq<Token>) -> Seq<TokenModel> {
    s.map_values(|t: Token| t@)
}

impl Token {
    pub fn span(&self) -> (span: Span)
        ensures
            span == self.span,
    {
        self.span
    }

    pub fn copy(&self) -> (copy: Token)
        ensures
            copy@ == self@,
    {
        Token { kind: self.kind.copy(), span: self.span }
    }
}

} // verus!
