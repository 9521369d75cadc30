//! The lexer: a single pass over the characters of the source.

use vstd::prelude::*;

use crate::error::ErrorKind;
use crate::error::ErrorModel;
use crate::error::FogError;
use crate::error::FogResult;
use crate::error::Pos;
use crate::error::Span;
use crate::lexer::chars::spec_is_alphabetic;
use crate::lexer::chars::spec_is_numeric;
use crate::lexer::chars::is_alphabetic;
use crate::lexer::chars::is_alphanumeric;
use crate::lexer::chars::is_numeric;
use crate::lexer::token::Token;
use crate::lexer::token::TokenKind;
use crate::lexer::token::TokenKindModel;
use crate::lexer::token::TokenModel;
use crate::lexer::token::match_keyword;
use crate::lexer::token::match_one_char_token;
use crate::lexer::token::match_two_char_token;
use crate::lexer::token::spec_keyword;
use crate::lexer::token::spec_one_char_token;
use crate::lexer::token::spec_two_char_token;
use crate::lexer::token::token_views;
use crate::util::chars_of;
use crate::util::string_from;
use crate::util::string_push;

verus! {

// --- positions ---

/// The line of the character at offset `i`: one more than the newlines
/// before it.
pub open spec fn spec_line(chars: Seq<char>, i: int) -> nat
    decreases i,
{
    if i <= 0 {
        1
    } else if chars[i - 1] == '\n' {
        spec_line(chars, i - 1) + 1
    } else {
        spec_line(chars, i - 1)
    }
}

/// The column of the character at offset `i`: one more than the characters
/// since the last newline before it.
pub open spec fn spec_column(chars: Seq<char>, i: int) -> nat
    decreases i,
{
    if i <= 0 {
        1
    } else if chars[i - 1] == '\n' {
        1
    } else {
        spec_column(chars, i - 1) + 1
    }
}

pub proof fn lemma_line_column_bound(chars: Seq<char>, i: int)
    requires
        0 <= i,
    ensures
        1 <= spec_line(chars, i) <= i + 1,
        1 <= spec_column(chars, i) <= i + 1,
    decreases i,
{
    if i > 0 {
        lemma_line_column_bound(chars, i - 1);
    }
}

/// The position of offset `i` in the source.
pub open spec fn spec_pos_at(chars: Seq<char>, i: int) -> Pos {
    Pos { line: spec_line(chars, i) as usize, column: spec_column(chars, i) as usize }
}

pub open spec fn spec_span(chars: Seq<char>, start: int, end: int) -> Span {
    Span { start: spec_pos_at(chars, start), end: spec_pos_at(chars, end) }
}

// --- scanning ---

/// The offset where a comment that starts at `i` ends: the next newline, or
/// the end of the source.
pub open spec fn spec_comment_end(chars: Seq<char>, i: int) -> int
    decreases chars.len() - i,
{
    if i >= chars.len() || chars[i] == '\n' {
        i
    } else {
        spec_comment_end(chars, i + 1)
    }
}

pub open spec fn is_word_char(c: char) -> bool {
    spec_is_alphabetic(c) || spec_is_numeric(c) || c == '_'
}

/// The offset where a word that continues at `i` ends.
pub open spec fn spec_word_end(chars: Seq<char>, i: int) -> int
    decreases chars.len() - i,
{
    if i >= chars.len() || !is_word_char(chars[i]) {
        i
    } else {
        spec_word_end(chars, i + 1)
    }
}

pub open spec fn is_number_char(c: char) -> bool {
    spec_is_numeric(c) || c == '.'
}

/// A number that continues at `i`: where it ends, whether it has a decimal
/// point, and whether it is malformed (a second decimal point, which it
/// ends just after).
pub open spec fn spec_number_scan(chars: Seq<char>, i: int, decimal: bool) -> (int, bool, bool)
    decreases chars.len() - i,
{
    if i >= chars.len() || !is_number_char(chars[i]) {
        (i, decimal, false)
    } else if chars[i] == '.' && decimal {
        (i + 1, decimal, true)
    } else {
        spec_number_scan(chars, i + 1, decimal || chars[i] == '.')
    }
}

pub open spec fn is_ascii_digit(c: char) -> bool {
    '0' <= c && c <= '9'
}

pub open spec fn all_ascii_digits(s: Seq<char>) -> bool {
    forall|i: int| 0 <= i < s.len() ==> is_ascii_digit(#[trigger] s[i])
}

/// The value of a sequence of decimal digits.
pub open spec fn spec_digits_value(s: Seq<char>) -> nat
    decreases s.len(),
{
    if s.len() == 0 {
        0
    } else {
        spec_digits_value(s.drop_last()) * 10 + ((s.last() as int) - 48) as nat
    }
}

/// What `i32::from_str` gives for a non-empty text of numeric characters:
/// its value where all are decimal digits and it fits, none otherwise.
pub open spec fn spec_parse_i32(s: Seq<char>) -> Option<i32> {
    if all_ascii_digits(s) && spec_digits_value(s) <= i32::MAX {
        Some(spec_digits_value(s) as i32)
    } else {
        None
    }
}

/// Whether `f32::from_str` accepts a non-empty text of numeric characters
/// with one decimal point: where all the others are decimal digits.
pub open spec fn spec_float_text_ok(s: Seq<char>) -> bool {
    forall|i: int| 0 <= i < s.len() ==> is_ascii_digit(#[trigger] s[i]) || s[i] == '.'
}

pub open spec fn lex_error(message: Seq<char>, span: Span) -> ErrorModel {
    ErrorModel { kind: ErrorKind::Lex, message, span: Some(span) }
}

pub open spec fn malformed_number_message() -> Seq<char> {
    seq!['M', 'a', 'l', 'f', 'o', 'r', 'm', 'e', 'd', ' ', 'n', 'u', 'm', 'b', 'e', 'r']
}

pub open spec fn float_parse_error_message() -> Seq<char> {
    seq!['F', 'l', 'o', 'a', 't', ' ', 'p', 'a', 'r', 's', 'e', ' ', 'e', 'r', 'r', 'o', 'r']
}

pub open spec fn integer_parse_error_message() -> Seq<char> {
    seq![
        'I', 'n', 't', 'e', 'g', 'e', 'r', ' ', 'p', 'a', 'r', 's', 'e', ' ', 'e', 'r', 'r', 'o', 'r'
    ]
}

// --- one step ---

/// What the lexer does at offset `p`.
pub enum LexStep {
    /// A comment, skipped up to the offset.
    Skip(int),
    Token(TokenModel, int),
    Error(ErrorModel, int),
    /// A character that starts nothing, passed over.
    Nothing(int),
}

/// The word at `p`: a keyword, or an identifier.
pub open spec fn spec_word_token(chars: Seq<char>, p: int) -> TokenModel {
    let end = spec_word_end(chars, p);
    let word = chars.subrange(p, end);
    TokenModel {
        kind: match spec_keyword(word) {
            Some(k) => k,
            None => TokenKindModel::Identifier(word),
        },
        span: spec_span(chars, p, end),
    }
}

/// The number at `p`.
pub open spec fn spec_number_step(chars: Seq<char>, p: int) -> LexStep {
    let (end, decimal, malformed) = spec_number_scan(chars, p, false);
    let text = chars.subrange(p, end);
    if malformed {
        LexStep::Error(lex_error(malformed_number_message(), spec_span(chars, p, p)), end)
    } else if decimal {
        if spec_float_text_ok(text) {
            LexStep::Token(
                TokenModel { kind: TokenKindModel::Float32Literal(text), span: spec_span(chars, p, end) },
                end,
            )
        } else {
            LexStep::Error(lex_error(float_parse_error_message(), spec_span(chars, p, end)), end)
        }
    } else {
        match spec_parse_i32(text) {
            Some(v) => LexStep::Token(
                TokenModel { kind: TokenKindModel::Int32Literal(v), span: spec_span(chars, p, end) },
                end,
            ),
            None => LexStep::Error(lex_error(integer_parse_error_message(), spec_span(chars, p, end)), end),
        }
    }
}

/// The step at offset `p`, which is within the source. In order: a comment,
/// a newline, a word, a number, a two-character symbol, a one-character
/// symbol.
pub open spec fn spec_lex_step(chars: Seq<char>, p: int) -> LexStep {
    let c = chars[p];
    if p + 1 < chars.len() && c == '-' && chars[p + 1] == '-' {
        LexStep::Skip(spec_comment_end(chars, p + 2))
    } else if c == '\n' {
        LexStep::Token(TokenModel { kind: TokenKindModel::Newline, span: spec_span(chars, p, p + 1) }, p + 1)
    } else if spec_is_alphabetic(c) || c == '_' {
        LexStep::Token(spec_word_token(chars, p), spec_word_end(chars, p))
    } else if spec_is_numeric(c) {
        spec_number_step(chars, p)
    } else if p + 1 < chars.len() && spec_two_char_token(chars.subrange(p, p + 2)) is Some {
        LexStep::Token(
            TokenModel {
                kind: spec_two_char_token(chars.subrange(p, p + 2))->0,
                span: spec_span(chars, p, p + 2),
            },
            p + 2,
        )
    } else if spec_one_char_token(c) is Some {
        LexStep::Token(
            TokenModel { kind: spec_one_char_token(c)->0, span: spec_span(chars, p, p + 1) },
            p + 1,
        )
    } else {
        LexStep::Nothing(p + 1)
    }
}

pub open spec fn step_end(step: LexStep) -> int {
    match step {
        LexStep::Skip(e) => e,
        LexStep::Token(_, e) => e,
        LexStep::Error(_, e) => e,
        LexStep::Nothing(e) => e,
    }
}

pub proof fn lemma_comment_end(chars: Seq<char>, i: int)
    requires
        i <= chars.len(),
    ensures
        i <= spec_comment_end(chars, i) <= chars.len(),
    decreases chars.len() - i,
{
    if i < chars.len() && chars[i] != '\n' {
        lemma_comment_end(chars, i + 1);
    }
}

pub proof fn lemma_word_end(chars: Seq<char>, i: int)
    requires
        i <= chars.len(),
    ensures
        i <= spec_word_end(chars, i) <= chars.len(),
    decreases chars.len() - i,
{
    if i < chars.len() && is_word_char(chars[i]) {
        lemma_word_end(chars, i + 1);
    }
}

pub proof fn lemma_number_scan(chars: Seq<char>, i: int, decimal: bool)
    requires
        i <= chars.len(),
    ensures
        i <= spec_number_scan(chars, i, decimal).0 <= chars.len(),
    decreases chars.len() - i,
{
    if i < chars.len() && is_number_char(chars[i]) && !(chars[i] == '.' && decimal) {
        lemma_number_scan(chars, i + 1, decimal || chars[i] == '.');
    }
}

/// Every step moves forward and stays within the source.
pub proof fn lemma_step_progress(chars: Seq<char>, p: int)
    requires
        0 <= p < chars.len(),
    ensures
        p < step_end(spec_lex_step(chars, p)) <= chars.len(),
{
    if p + 1 < chars.len() {
        lemma_comment_end(chars, p + 2);
    }
    lemma_word_end(chars, p + 1);
    lemma_number_scan(chars, p + 1, chars[p] == '.');
}

// --- all steps ---

/// The tokens and errors from offset `p` on, after `tokens` and `errors`.
pub open spec fn spec_tokenize_from(
    chars: Seq<char>,
    p: int,
    tokens: Seq<TokenModel>,
    errors: Seq<ErrorModel>,
) -> (Seq<TokenModel>, Seq<ErrorModel>)
    decreases chars.len() - p,
{
    if p < 0 || p >= chars.len() {
        (tokens, errors)
    } else {
        let step = spec_lex_step(chars, p);
        proof {
            lemma_step_progress(chars, p);
        }
        match step {
            LexStep::Token(t, e) => spec_tokenize_from(chars, e, tokens.push(t), errors),
            LexStep::Error(err, e) => spec_tokenize_from(chars, e, tokens, errors.push(err)),
            LexStep::Skip(e) => spec_tokenize_from(chars, e, tokens, errors),
            LexStep::Nothing(e) => spec_tokenize_from(chars, e, tokens, errors),
        }
    }
}

/// The tokens of a source text and the errors met on the way.
pub open spec fn spec_tokenize(src: Seq<char>) -> (Seq<TokenModel>, Seq<ErrorModel>) {
    spec_tokenize_from(src, 0, Seq::empty(), Seq::empty())
}

} // verus!

verus! {

pub struct Lexer {
    chars: Vec<char>,
    pos: usize,
    line: usize,
    column: usize,
}

impl Lexer {
    /// The characters of the source.
    pub closed spec fn source(&self) -> Seq<char> {
        self.chars@
    }

    /// The offset the lexer is at.
    pub closed spec fn offset(&self) -> int {
        self.pos as int
    }

    /// The lexer is within its source and its line and column are those of
    /// its offset.
    pub closed spec fn wf(&self) -> bool {
        &&& self.pos <= self.chars@.len()
        &&& self.chars@.len() < usize::MAX
        &&& self.line == spec_line(self.chars@, self.pos as int)
        &&& self.column == spec_column(self.chars@, self.pos as int)
    }

    fn new(src: &str) -> (lexer: Lexer)
        requires
            src@.len() < usize::MAX,
        ensures
            lexer.wf(),
            lexer.source() == src@,
            lexer.offset() == 0,
    {
        Lexer { chars: chars_of(src), pos: 0, line: 1, column: 1 }
    }

    fn peek(&self) -> (c: Option<char>)
        ensures
            c == if self.pos < self.chars@.len() {
                Some(self.chars@[self.pos as int])
            } else {
                None::<char>
            },
    {
        if self.pos < self.chars.len() {
            Some(self.chars[self.pos])
        } else {
            None
        }
    }

    fn current_pos(&self) -> (pos: Pos)
        requires
            self.wf(),
        ensures
            pos == spec_pos_at(self.source(), self.offset()),
    {
        Pos { line: self.line, column: self.column }
    }

    /// Moves past the current character.
    fn next(&mut self)
        requires
            old(self).wf(),
            old(self).offset() < old(self).source().len(),
        ensures
            final(self).wf(),
            final(self).source() == old(self).source(),
            final(self).offset() == old(self).offset() + 1,
    {
        proof {
            lemma_line_column_bound(self.chars@, self.pos as int);
        }
        if self.chars[self.pos] == '\n' {
            self.line = self.line + 1;
            self.column = 1;
        } else {
            self.column = self.column + 1;
        }
        self.pos = self.pos + 1;
    }

    /// The tokens of `src` and the errors met on the way.
    pub fn tokenize(src: &str) -> (r: (Vec<Token>, Vec<FogError>))
        requires
            src@.len() < usize::MAX,
        ensures
            (token_views(r.0@), crate::error::error_views(r.1@)) == spec_tokenize(src@),
    {
        let mut lexer = Lexer::new(src);
        let mut tokens: Vec<Token> = Vec::new();
        let mut errors: Vec<FogError> = Vec::new();
        let ghost chars = src@;
        assert(token_views(tokens@) =~= Seq::<TokenModel>::empty());
        assert(crate::error::error_views(errors@) =~= Seq::<ErrorModel>::empty());
        while lexer.pos < lexer.chars.len()
            invariant
                lexer.wf(),
                lexer.source() == chars,
                spec_tokenize_from(chars, lexer.offset(), token_views(tokens@), crate::error::error_views(errors@))
                    == spec_tokenize(chars),
            decreases chars.len() - lexer.offset(),
        {
            let ghost p = lexer.offset();
            let ghost toks = token_views(tokens@);
            let ghost errs = crate::error::error_views(errors@);
            proof {
                lemma_step_progress(chars, p);
            }
            if lexer.skip_comment() {
                continue;
            }
            let start = lexer.current_pos();
            let mut result = lexer.parse_newline(start);
            if result.is_none() {
                result = lexer.parse_word(start);
            }
            if result.is_none() {
                result = lexer.parse_number(start);
            }
            if result.is_none() {
                result = lexer.parse_two_char_symbol(start);
            }
            if result.is_none() {
                result = lexer.parse_one_char_symbol(start);
            }
            match result {
                Some(Ok(token)) => {
                    tokens.push(token);
                    assert(token_views(tokens@) =~= toks.push(tokens@.last()@));
                },
                Some(Err(error)) => {
                    errors.push(error);
                    assert(crate::error::error_views(errors@) =~= errs.push(errors@.last()@));
                },
                None => lexer.next(),
            }
        }
        (tokens, errors)
    }

    /// Skips a comment, from `--` up to the end of its line.
    fn skip_comment(&mut self) -> (skipped: bool)
        requires
            old(self).wf(),
            old(self).offset() < old(self).source().len(),
        ensures
            final(self).wf(),
            final(self).source() == old(self).source(),
            skipped == (spec_lex_step(old(self).source(), old(self).offset()) is Skip),
            skipped ==> final(self).offset() == step_end(
                spec_lex_step(old(self).source(), old(self).offset()),
            ),
            !skipped ==> final(self).offset() == old(self).offset(),
    {
        let ghost chars = self.chars@;
        let ghost p = self.pos as int;
        if self.pos + 1 >= self.chars.len() {
            return false;
        }
        if self.chars[self.pos] == '-' && self.chars[self.pos + 1] == '-' {
            self.next();
            self.next();
            proof {
                lemma_comment_end(chars, p + 2);
            }
            while self.pos < self.chars.len() && self.chars[self.pos] != '\n'
                invariant
                    self.wf(),
                    self.source() == chars,
                    p + 2 <= self.offset() <= chars.len(),
                    spec_comment_end(chars, self.offset()) == spec_comment_end(chars, p + 2),
                decreases chars.len() - self.offset(),
            {
                self.next();
            }
            return true;
        }
        false
    }

    fn parse_newline(&mut self, start: Pos) -> (r: Option<FogResult<Token>>)
        requires
            old(self).wf(),
            old(self).offset() < old(self).source().len(),
            start == spec_pos_at(old(self).source(), old(self).offset()),
        ensures
            final(self).wf(),
            final(self).source() == old(self).source(),
            ({
                let chars = old(self).source();
                let p = old(self).offset();
                if chars[p] == '\n' {
                    &&& r matches Some(Ok(t))
                    &&& t@ == (TokenModel { kind: TokenKindModel::Newline, span: spec_span(chars, p, p + 1) })
                    &&& final(self).offset() == p + 1
                } else {
                    r is None && final(self).offset() == p
                }
            }),
    {
        let ch = self.chars[self.pos];
        if ch != '\n' {
            return None;
        }
        self.next();
        let end = self.current_pos();
        Some(Ok(Token { kind: TokenKind::Newline, span: Span::new(start, end) }))
    }

    fn parse_word(&mut self, start: Pos) -> (r: Option<FogResult<Token>>)
        requires
            old(self).wf(),
            old(self).offset() < old(self).source().len(),
            start == spec_pos_at(old(self).source(), old(self).offset()),
        ensures
            final(self).wf(),
            final(self).source() == old(self).source(),
            ({
                let chars = old(self).source();
                let p = old(self).offset();
                if spec_is_alphabetic(chars[p]) || chars[p] == '_' {
                    &&& r matches Some(Ok(t))
                    &&& t@ == spec_word_token(chars, p)
                    &&& final(self).offset() == spec_word_end(chars, p)
                } else {
                    r is None && final(self).offset() == p
                }
            }),
    {
        let ghost chars = self.chars@;
        let ghost p = self.pos as int;
        let ch = self.chars[self.pos];
        if !(is_alphabetic(ch) || ch == '_') {
            return None;
        }
        let mut word = String::new();
        proof {
            lemma_word_end(chars, p);
        }
        while self.pos < self.chars.len() && (is_alphanumeric(self.chars[self.pos]) || self.chars[self.pos] == '_')
            invariant
                self.wf(),
                self.source() == chars,
                0 <= p <= self.offset() <= chars.len(),
                word@ == chars.subrange(p, self.offset()),
                spec_word_end(chars, self.offset()) == spec_word_end(chars, p),
            decreases chars.len() - self.offset(),
        {
            let c = self.chars[self.pos];
            let ghost before = self.offset();
            string_push(&mut word, c);
            self.next();
            assert(word@ =~= chars.subrange(p, self.offset()));
        }
        let end = self.current_pos();
        let kind = match match_keyword(word.as_str()) {
            Some(k) => k,
            None => TokenKind::Identifier(word),
        };
        Some(Ok(Token { kind, span: Span::new(start, end) }))
    }

    fn parse_number(&mut self, start: Pos) -> (r: Option<FogResult<Token>>)
        requires
            old(self).wf(),
            old(self).offset() < old(self).source().len(),
            start == spec_pos_at(old(self).source(), old(self).offset()),
        ensures
            final(self).wf(),
            final(self).source() == old(self).source(),
            ({
                let chars = old(self).source();
                let p = old(self).offset();
                if spec_is_numeric(chars[p]) {
                    &&& r is Some
                    &&& final(self).offset() == step_end(spec_number_step(chars, p))
                    &&& match spec_number_step(chars, p) {
                        LexStep::Token(t, _) => r matches Some(Ok(tok)) && tok@ == t,
                        LexStep::Error(e, _) => r matches Some(Err(err)) && err@ == e,
                        _ => false,
                    }
                } else {
                    r is None && final(self).offset() == p
                }
            }),
    {
        let ghost chars = self.chars@;
        let ghost p = self.pos as int;
        let ch = self.chars[self.pos];
        if !is_numeric(ch) {
            return None;
        }
        let number_start = self.pos;
        let mut decimal = false;
        proof {
            lemma_number_scan(chars, p, false);
        }
        while self.pos < self.chars.len() && (is_numeric(self.chars[self.pos]) || self.chars[self.pos] == '.')
            invariant
                self.wf(),
                self.source() == chars,
                chars == old(self).source(),
                p == old(self).offset(),
                start == spec_pos_at(chars, p),
                number_start == p,
                0 <= p < chars.len(),
                spec_is_numeric(chars[p]),
                0 <= p <= self.offset() <= chars.len(),
                spec_number_scan(chars, self.offset(), decimal) == spec_number_scan(chars, p, false),
            decreases chars.len() - self.offset(),
        {
            let c = self.chars[self.pos];
            let ghost before = self.offset();
            self.next();
            if c == '.' {
                if !decimal {
                    decimal = true;
                } else {
                    proof {
                        reveal_strlit("Malformed number");
                        assert("Malformed number"@ =~= malformed_number_message());
                        assert(spec_number_scan(chars, before, decimal) == (before + 1, decimal, true));
                    }
                    let error = FogError::new(
                        ErrorKind::Lex,
                        string_from("Malformed number"),
                        Some(Span::new(start, start)),
                    );
                    return Some(Err(error));
                }
            }
        }
        let end = self.current_pos();
        let span = Span::new(start, end);
        let ghost text = chars.subrange(p, self.offset());
        if decimal {
            let mut all_ok = true;
            let mut i = number_start;
            let mut text_string = String::new();
            while i < self.pos
                invariant
                    self.wf(),
                    self.source() == chars,
                    p <= i <= self.offset(),
                    number_start == p,
                    text_string@ == chars.subrange(p, i as int),
                    all_ok == (forall|j: int| p <= j < i ==> is_ascii_digit(#[trigger] chars[j]) || chars[j] == '.'),
                decreases self.offset() - i,
            {
                let c = self.chars[i];
                if !(('0' <= c && c <= '9') || c == '.') {
                    all_ok = false;
                }
                string_push(&mut text_string, c);
                i += 1;
                assert(text_string@ =~= chars.subrange(p, i as int));
            }
            proof {
                assert(all_ok == spec_float_text_ok(text)) by {
                    if all_ok {
                        assert forall|k: int| 0 <= k < text.len() implies is_ascii_digit(#[trigger] text[k]) || text[k] == '.' by {
                            assert(text[k] == chars[p + k]);
                        }
                    } else {
                        let j = choose|j: int| p <= j < i && !(is_ascii_digit(#[trigger] chars[j]) || chars[j] == '.');
                        assert(text[j - p] == chars[j]);
                    }
                }
            }
            if all_ok {
                Some(Ok(Token { kind: TokenKind::Float32Literal(text_string), span }))
            } else {
                proof {
                    reveal_strlit("Float parse error");
                    assert("Float parse error"@ =~= float_parse_error_message());
                }
                Some(Err(FogError::new(ErrorKind::Lex, string_from("Float parse error"), Some(span))))
            }
        } else {
            let parsed = parse_i32_digits(&self.chars, number_start, self.pos);
            match parsed {
                Some(v) => Some(Ok(Token { kind: TokenKind::Int32Literal(v), span })),
                None => {
                    proof {
                        reveal_strlit("Integer parse error");
                        assert("Integer parse error"@ =~= integer_parse_error_message());
                    }
                    Some(Err(FogError::new(ErrorKind::Lex, string_from("Integer parse error"), Some(span))))
                },
            }
        }
    }

    fn parse_two_char_symbol(&mut self, start: Pos) -> (r: Option<FogResult<Token>>)
        requires
            old(self).wf(),
            old(self).offset() < old(self).source().len(),
            start == spec_pos_at(old(self).source(), old(self).offset()),
        ensures
            final(self).wf(),
            final(self).source() == old(self).source(),
            ({
                let chars = old(self).source();
                let p = old(self).offset();
                if p + 1 < chars.len() && spec_two_char_token(chars.subrange(p, p + 2)) is Some {
                    &&& r matches Some(Ok(t))
                    &&& t@ == (TokenModel {
                        kind: spec_two_char_token(chars.subrange(p, p + 2))->0,
                        span: spec_span(chars, p, p + 2),
                    })
                    &&& final(self).offset() == p + 2
                } else {
                    r is None && final(self).offset() == p
                }
            }),
    {
        let ghost chars = self.chars@;
        let ghost p = self.pos as int;
        if self.pos + 1 >= self.chars.len() {
            return None;
        }
        let mut sym = String::new();
        string_push(&mut sym, self.chars[self.pos]);
        string_push(&mut sym, self.chars[self.pos + 1]);
        assert(sym@ =~= chars.subrange(p, p + 2));
        let kind = match match_two_char_token(sym.as_str()) {
            Some(k) => k,
            None => {
                return None;
            },
        };
        self.next();
        self.next();
        let end = self.current_pos();
        Some(Ok(Token { kind, span: Span::new(start, end) }))
    }

    fn parse_one_char_symbol(&mut self, start: Pos) -> (r: Option<FogResult<Token>>)
        requires
            old(self).wf(),
            old(self).offset() < old(self).source().len(),
            start == spec_pos_at(old(self).source(), old(self).offset()),
        ensures
            final(self).wf(),
            final(self).source() == old(self).source(),
            ({
                let chars = old(self).source();
                let p = old(self).offset();
                if spec_one_char_token(chars[p]) is Some {
                    &&& r matches Some(Ok(t))
                    &&& t@ == (TokenModel {
                        kind: spec_one_char_token(chars[p])->0,
                        span: spec_span(chars, p, p + 1),
                    })
                    &&& final(self).offset() == p + 1
                } else {
                    r is None && final(self).offset() == p
                }
            }),
    {
        let sym = self.chars[self.pos];
        let kind = match match_one_char_token(sym) {
            Some(k) => k,
            None => {
                return None;
            },
        };
        self.next();
        let end = self.current_pos();
        Some(Ok(Token { kind, span: Span::new(start, end) }))
    }
}

/// The value of the decimal digits `chars[start..end]`, where they are all
/// decimal digits and the value fits in an `i32`.
fn parse_i32_digits(chars: &Vec<char>, start: usize, end: usize) -> (r: Option<i32>)
    requires
        start <= end <= chars@.len(),
    ensures
        r == spec_parse_i32(chars@.subrange(start as int, end as int)),
{
    let ghost text = chars@.subrange(start as int, end as int);
    let mut value: i64 = 0;
    let mut ok = true;
    let mut i = start;
    while i < end
        invariant
            start <= i <= end <= chars@.len(),
            text == chars@.subrange(start as int, end as int),
            ok ==> all_ascii_digits(chars@.subrange(start as int, i as int)),
            ok ==> value == spec_digits_value(chars@.subrange(start as int, i as int)),
            ok ==> value <= i32::MAX,
            !ok ==> spec_parse_i32(text) is None,
        decreases end - i,
    {
        if ok {
            let c = chars[i];
            let prefix = Ghost(chars@.subrange(start as int, i as int));
            let next_prefix = Ghost(chars@.subrange(start as int, i + 1));
            assert(next_prefix@.drop_last() =~= prefix@);
            if '0' <= c && c <= '9' {
                let d = (c as u32 - 48) as i64;
                value = value * 10 + d;
                if value > 2147483647 {
                    ok = false;
                    proof {
                        assert(text.subrange(0, (i - start + 1) as int) =~= next_prefix@);
                        if all_ascii_digits(text) {
                            lemma_digits_value_prefix(text, (i - start + 1) as int);
                        }
                    }
                }
            } else {
                ok = false;
                proof {
                    assert(text[(i - start) as int] == c);
                }
            }
        }
        i += 1;
    }
    proof {
        assert(chars@.subrange(start as int, end as int) =~= text);
    }
    if ok {
        Some(value as i32)
    } else {
        None
    }
}

/// A text of decimal digits is worth at least any of its prefixes.
proof fn lemma_digits_value_prefix(s: Seq<char>, n: int)
    requires
        0 <= n <= s.len(),
        all_ascii_digits(s),
    ensures
        spec_digits_value(s) >= spec_digits_value(s.subrange(0, n)),
    decreases s.len(),
{
    if n < s.len() {
        assert(s.drop_last().subrange(0, n) =~= s.subrange(0, n));
        assert(all_ascii_digits(s.drop_last())) by {
            assert forall|i: int| 0 <= i < s.drop_last().len() implies is_ascii_digit(#[trigger] s.drop_last()[i]) by {
                assert(s.drop_last()[i] == s[i]);
            }
        }
        lemma_digits_value_prefix(s.drop_last(), n);
    } else {
        assert(s.subrange(0, n) =~= s);
    }
}

} // verus!
