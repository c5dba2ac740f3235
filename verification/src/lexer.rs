//! The lexer: it cuts the source text into tokens.

use vstd::prelude::*;
use vstd::string::*;
use crate::span::Span;
use crate::text::{
    chars_of,
    concat3,
    is_alphanumeric,
    is_whitespace,
    unicode_alphanumeric,
    unicode_whitespace,
};
use crate::token::{word_kind, Token, TokenKind, TokenKindView, TokenView};

verus! {

broadcast use vstd::std_specs::vec::group_vec_axioms;

/// Why the source text is no sequence of tokens, and where.
#[derive(Debug, PartialEq, Eq)]
pub struct LexerError {
    pub message: String,
    pub location: Span,
}

/// The mathematical content of a lexer's failure.
pub struct LexerErrorView {
    pub message: Seq<char>,
    pub location: Span,
}

impl View for LexerError {
    type V = LexerErrorView;

    open spec fn view(&self) -> LexerErrorView {
        LexerErrorView { message: self.message@, location: self.location }
    }
}

impl LexerError {
    pub fn new(message: String, location: Span) -> (error: Self)
        ensures
            error == (LexerError { message, location }),
    {
        Self { message, location }
    }
}

/// The number after `n`, or `n` itself where there is none.
pub open spec fn bump(n: usize) -> usize {
    if n < usize::MAX {
        (n + 1) as usize
    } else {
        n
    }
}

/// Whether the character is a decimal digit.
pub open spec fn is_digit(c: char) -> bool {
    '0' <= c <= '9'
}

/// Whether a word can start with the character.
pub open spec fn starts_word(c: char) -> bool {
    'a' <= c <= 'z' || 'A' <= c <= 'Z' || c == '_'
}

/// Whether a word can go on with the character.
pub open spec fn continues_word(c: char) -> bool {
    unicode_alphanumeric(c) || c == '_'
}

/// Whether a string literal can go on with the character.
pub open spec fn continues_string(c: char) -> bool {
    c != '"' && c != '\n'
}

/// The first position at or after `from` whose character does not satisfy `accepts`,
/// or the length of the input.
pub open spec fn run_end(input: Seq<char>, from: int, accepts: spec_fn(char) -> bool) -> int
    decreases input.len() - from,
{
    if from < 0 || from >= input.len() {
        input.len() as int
    } else if !accepts(input[from]) {
        from
    } else {
        run_end(input, from + 1, accepts)
    }
}

/// The number that decimal digits write.
pub open spec fn number_value(digits: Seq<char>) -> nat
    decreases digits.len(),
{
    if digits.len() == 0 {
        0
    } else {
        number_value(digits.drop_last()) * 10 + (digits.last() as nat - '0' as nat) as nat
    }
}

pub open spec fn msg_unexpected(c: char) -> Seq<char> {
    "Unexpected token `"@ + seq![c] + "`"@
}

pub open spec fn msg_unterminated() -> Seq<char> {
    "Unterminated string literal"@
}

pub open spec fn msg_number() -> Seq<char> {
    "Couldn't parse number literal"@
}

/// The lexer: the input, the place of the next character, and the span of the token
/// that is being read.
#[derive(Debug, PartialEq, Eq)]
pub struct Lexer {
    pub line: usize,
    pub colm: usize,
    pub input: Vec<char>,
    pub cursor: usize,
    pub span: Span,
}

/// The mathematical content of a lexer.
pub struct LexerView {
    pub line: usize,
    pub colm: usize,
    pub input: Seq<char>,
    pub cursor: usize,
    pub span: Span,
}

/// What reading a token ends in.
pub struct LexView {
    pub lexer: LexerView,
    pub token: Result<TokenView, LexerErrorView>,
}

impl View for Lexer {
    type V = LexerView;

    open spec fn view(&self) -> LexerView {
        LexerView {
            line: self.line,
            colm: self.colm,
            input: self.input@,
            cursor: self.cursor,
            span: self.span,
        }
    }
}

impl LexerView {
    /// The lexer at the start of a text.
    pub open spec fn start(input: Seq<char>) -> LexerView {
        LexerView { line: 1, colm: 1, input, cursor: 0, span: Span::empty() }
    }

    pub open spec fn wf(self) -> bool {
        self.cursor <= self.input.len() <= usize::MAX
    }

    pub open spec fn is_eof(self) -> bool {
        self.cursor >= self.input.len()
    }

    /// The next character, or the null character at the end of the input.
    pub open spec fn peek_one(self) -> char {
        if self.is_eof() {
            '\0'
        } else {
            self.input[self.cursor as int]
        }
    }

    /// The lexer behind the next character: a line break starts a new line, any other
    /// character a new column.
    pub open spec fn advance_one(self) -> LexerView {
        if self.is_eof() {
            self
        } else if self.input[self.cursor as int] == '\n' {
            LexerView {
                line: bump(self.line),
                colm: 1,
                cursor: (self.cursor + 1) as usize,
                ..self
            }
        } else {
            LexerView { colm: bump(self.colm), cursor: (self.cursor + 1) as usize, ..self }
        }
    }

    /// The lexer behind the next `count` characters.
    pub open spec fn advance(self, count: nat) -> LexerView
        decreases count,
    {
        if count == 0 {
            self
        } else {
            self.advance((count - 1) as nat).advance_one()
        }
    }

    /// The lexer behind the characters from the cursor on that satisfy `accepts`.
    pub open spec fn skip(self, accepts: spec_fn(char) -> bool) -> LexerView {
        self.advance((run_end(self.input, self.cursor as int, accepts) - self.cursor) as nat)
    }

    /// The lexer with the span of a token that starts at the cursor.
    pub open spec fn update_span(self) -> LexerView {
        LexerView {
            span: Span { line: self.line, column: self.colm, start: self.cursor, ..self.span },
            ..self
        }
    }

    /// The lexer with the span of a token that ends before the cursor.
    pub open spec fn close_span(self) -> LexerView {
        LexerView {
            span: Span {
                end: if self.cursor > 0 {
                    (self.cursor - 1) as usize
                } else {
                    0
                },
                ..self.span
            },
            ..self
        }
    }

    /// A token of the given kind that ends before the cursor.
    pub open spec fn token(self, kind: TokenKindView) -> LexView {
        LexView {
            lexer: self.close_span(),
            token: Ok(TokenView { kind, span: self.close_span().span }),
        }
    }

    /// A failure with the given message for the token that ends before the cursor.
    pub open spec fn failure(self, message: Seq<char>) -> LexView {
        LexView {
            lexer: self.close_span(),
            token: Err(LexerErrorView { message, location: self.close_span().span }),
        }
    }

    /// The token that is one character, or two for `->`.
    pub open spec fn punctuation(self) -> Option<(TokenKindView, nat)> {
        let c = self.peek_one();
        if c == '.' {
            Some((TokenKindView::Dot, 1nat))
        } else if c == '+' {
            Some((TokenKindView::Plus, 1nat))
        } else if c == ';' {
            Some((TokenKindView::Semicolon, 1nat))
        } else if c == ',' {
            Some((TokenKindView::Comma, 1nat))
        } else if c == '(' {
            Some((TokenKindView::LeftParent, 1nat))
        } else if c == ')' {
            Some((TokenKindView::RightParent, 1nat))
        } else if c == '>' {
            Some((TokenKindView::RightAngle, 1nat))
        } else if c == '=' {
            Some((TokenKindView::Equal, 1nat))
        } else if c == '-' {
            if self.cursor + 1 < self.input.len() && self.input[self.cursor + 1] == '>' {
                Some((TokenKindView::Arrow, 2nat))
            } else {
                Some((TokenKindView::Minus, 1nat))
            }
        } else {
            None
        }
    }

    /// A string literal: the characters between two double quotes on one line.
    pub open spec fn read_string(self) -> LexView {
        let opened = self.advance_one();
        let end = run_end(self.input, opened.cursor as int, |c: char| continues_string(c));
        let body = opened.skip(|c: char| continues_string(c));
        if body.is_eof() || body.peek_one() == '\n' {
            body.failure(msg_unterminated())
        } else {
            body.advance_one().token(
                TokenKindView::String(self.input.subrange(opened.cursor as int, end)),
            )
        }
    }

    /// A number literal: decimal digits that write a number of at most 2147483647.
    pub open spec fn read_number(self) -> LexView {
        let end = run_end(self.input, self.cursor as int, |c: char| is_digit(c));
        let value = number_value(self.input.subrange(self.cursor as int, end));
        let behind = self.skip(|c: char| is_digit(c));
        if value > i32::MAX {
            behind.failure(msg_number())
        } else {
            behind.token(TokenKindView::Integer(value as i32))
        }
    }

    /// A word: a keyword or an identifier.
    pub open spec fn read_keyword_or_identifier(self) -> LexView {
        let end = run_end(self.input, self.cursor + 1, |c: char| continues_word(c));
        self.advance_one().skip(|c: char| continues_word(c)).token(
            word_kind(self.input.subrange(self.cursor as int, end)),
        )
    }

    /// The next token: white space is skipped, then the first character decides.
    pub open spec fn next_token(self) -> LexView {
        let at = self.skip(|c: char| unicode_whitespace(c)).update_span();
        if at.is_eof() {
            at.token(TokenKindView::Eof)
        } else {
            match at.punctuation() {
                Some((kind, length)) => at.advance(length).token(kind),
                None => {
                    let c = at.peek_one();
                    if c == '"' {
                        at.read_string()
                    } else if is_digit(c) {
                        at.read_number()
                    } else if starts_word(c) {
                        at.read_keyword_or_identifier()
                    } else {
                        at.failure(msg_unexpected(c))
                    }
                },
            }
        }
    }

    /// All tokens from the cursor on, the end-of-input token last, or the first
    /// failure.
    pub open spec fn tokens(self) -> Result<Seq<TokenView>, LexerErrorView>
        decreases self.input.len() - self.cursor,
    {
        let next = self.next_token();
        match next.token {
            Err(e) => Err(e),
            Ok(token) => if token.kind is Eof || next.lexer.cursor <= self.cursor
                || next.lexer.cursor > self.input.len() || next.lexer.input != self.input {
                Ok(seq![token])
            } else {
                match next.lexer.tokens() {
                    Err(e) => Err(e),
                    Ok(rest) => Ok(seq![token] + rest),
                }
            },
        }
    }
}

/// What `count` steps do to a lexer that has that many characters left: the cursor
/// moves by `count`, and the input and the span stay.
pub proof fn lemma_advance(s: LexerView, count: nat)
    requires
        s.cursor + count <= s.input.len() <= usize::MAX,
    ensures
        s.advance(count).cursor == s.cursor + count,
        s.advance(count).input == s.input,
        s.advance(count).span == s.span,
    decreases count,
{
    if count > 0 {
        lemma_advance(s, (count - 1) as nat);
    }
}

/// A run ends at or after its start and within the input, every character of it is
/// accepted, and the character behind it is not.
pub proof fn lemma_run_end(input: Seq<char>, from: int, accepts: spec_fn(char) -> bool)
    requires
        0 <= from <= input.len(),
    ensures
        from <= run_end(input, from, accepts) <= input.len(),
        forall|i: int| from <= i < run_end(input, from, accepts) ==> accepts(#[trigger] input[i]),
        run_end(input, from, accepts) < input.len() ==> !accepts(
            input[run_end(input, from, accepts)],
        ),
    decreases input.len() - from,
{
    if from < input.len() && accepts(input[from]) {
        lemma_run_end(input, from + 1, accepts);
    }
}

/// A run that starts inside a run ends where that run ends.
pub proof fn lemma_run_goes_on(
    input: Seq<char>,
    from: int,
    at: int,
    accepts: spec_fn(char) -> bool,
)
    requires
        0 <= from <= at <= input.len(),
        forall|i: int| from <= i < at ==> accepts(#[trigger] input[i]),
    ensures
        run_end(input, from, accepts) == run_end(input, at, accepts),
    decreases at - from,
{
    if from < at {
        lemma_run_goes_on(input, from + 1, at, accepts);
    }
}

impl Lexer {
    pub fn new(input: &str) -> (lexer: Self)
        ensures
            lexer@ == LexerView::start(input@),
    {
        Lexer { input: chars_of(input), cursor: 0, line: 1, colm: 1, span: Span::default() }
    }

    pub fn is_eof(&self) -> (eof: bool)
        ensures
            eof == self@.is_eof(),
    {
        self.cursor >= self.input.len()
    }

    pub fn peek_one(&self) -> (c: char)
        ensures
            c == self@.peek_one(),
    {
        if self.cursor < self.input.len() {
            self.input[self.cursor]
        } else {
            '\0'
        }
    }

    pub fn advance_one(&mut self)
        ensures
            final(self)@ == old(self)@.advance_one(),
            final(self)@.input == old(self)@.input,
            old(self)@.is_eof() ==> final(self)@.cursor == old(self)@.cursor,
            !old(self)@.is_eof() ==> final(self)@.cursor == old(self)@.cursor + 1,
    {
        if self.cursor < self.input.len() {
            if self.input[self.cursor] == '\n' {
                if self.line < usize::MAX {
                    self.line += 1;
                }
                self.colm = 1;
            } else {
                if self.colm < usize::MAX {
                    self.colm += 1;
                }
            }
            self.cursor += 1;
        }
    }

    pub fn advance_may(&mut self, count: usize)
        ensures
            final(self)@ == old(self)@.advance(count as nat),
    {
        let mut i: usize = 0;
        while i < count
            invariant
                i <= count,
                self@ == old(self)@.advance(i as nat),
            decreases count - i,
        {
            self.advance_one();
            i += 1;
        }
    }

    pub fn update_span(&mut self)
        ensures
            final(self)@ == old(self)@.update_span(),
    {
        self.span.line = self.line;
        self.span.column = self.colm;
        self.span.start = self.cursor;
    }

    /// The span of the token that ends before the cursor.
    pub fn get_span(&mut self) -> (span: Span)
        ensures
            final(self)@ == old(self)@.close_span(),
            span == final(self)@.span,
    {
        self.span.end = if self.cursor > 0 {
            self.cursor - 1
        } else {
            0
        };
        self.span
    }

    pub fn skip_whitespace(&mut self)
        requires
            old(self)@.wf(),
        ensures
            final(self)@ == old(self)@.skip(|c: char| unicode_whitespace(c)),
            final(self)@.wf(),
            final(self)@.cursor >= old(self)@.cursor,
            final(self)@.input == old(self)@.input,
    {
        let ghost start = self@;
        let ghost accepts = |c: char| unicode_whitespace(c);
        proof {
            lemma_run_end(start.input, start.cursor as int, accepts);
        }
        while self.cursor < self.input.len() && is_whitespace(self.input[self.cursor])
            invariant
                start.wf(),
                accepts == (|c: char| unicode_whitespace(c)),
                start.cursor <= self.cursor <= self.input@.len(),
                self@ == start.advance((self.cursor - start.cursor) as nat),
                self@.input == start.input,
                run_end(start.input, start.cursor as int, accepts) == run_end(
                    start.input,
                    self.cursor as int,
                    accepts,
                ),
            decreases self.input@.len() - self.cursor,
        {
            self.advance_one();
        }
    }

    /// Reads on while the characters are digits and returns the number that they
    /// write, or `None` when it is greater than 2147483647.
    fn chop_digits(&mut self) -> (value: Option<i32>)
        requires
            old(self)@.wf(),
        ensures
            final(self)@ == old(self)@.skip(|c: char| is_digit(c)),
            final(self)@.wf(),
            final(self)@.cursor >= old(self)@.cursor,
            final(self)@.input == old(self)@.input,
            ({
                let end = run_end(old(self)@.input, old(self)@.cursor as int, |c: char| is_digit(c));
                let number = number_value(
                    old(self)@.input.subrange(old(self)@.cursor as int, end),
                );
                if number > i32::MAX {
                    value.is_none()
                } else {
                    value == Some(number as i32)
                }
            }),
    {
        let ghost start = self@;
        let ghost accepts = |c: char| is_digit(c);
        let mut value: u64 = 0;
        let mut fits = true;
        assert(start.input.subrange(start.cursor as int, start.cursor as int) =~= Seq::empty());
        while self.cursor < self.input.len() && '0' <= self.input[self.cursor]
            && self.input[self.cursor] <= '9'
            invariant
                start.wf(),
                accepts == (|c: char| is_digit(c)),
                start.cursor <= self.cursor <= self.input@.len(),
                self@ == start.advance((self.cursor - start.cursor) as nat),
                self@.input == start.input,
                run_end(start.input, start.cursor as int, accepts) == run_end(
                    start.input,
                    self.cursor as int,
                    accepts,
                ),
                fits ==> value == number_value(
                    start.input.subrange(start.cursor as int, self.cursor as int),
                ) && value <= i32::MAX,
                !fits ==> number_value(
                    start.input.subrange(start.cursor as int, self.cursor as int),
                ) > i32::MAX,
            decreases self.input@.len() - self.cursor,
        {
            let c = self.input[self.cursor];
            let d = (c as u32 - '0' as u32) as u64;
            proof {
                let longer = start.input.subrange(start.cursor as int, self.cursor as int + 1);
                assert(longer.drop_last() =~= start.input.subrange(
                    start.cursor as int,
                    self.cursor as int,
                ));
                assert(longer.last() == c);
            }
            if fits {
                value = value * 10 + d;
                if value > i32::MAX as u64 {
                    fits = false;
                }
            }
            self.advance_one();
        }
        if fits {
            Some(value as i32)
        } else {
            None
        }
    }

    /// Reads on while the characters satisfy `accepts` and returns them.
    fn chop(&mut self, word: bool) -> (text: String)
        requires
            old(self)@.wf(),
        ensures
            final(self)@ == old(self)@.skip(
                if word {
                    |c: char| continues_word(c)
                } else {
                    |c: char| continues_string(c)
                },
            ),
            final(self)@.wf(),
            final(self)@.cursor >= old(self)@.cursor,
            final(self)@.input == old(self)@.input,
            text@ == old(self)@.input.subrange(
                old(self)@.cursor as int,
                final(self)@.cursor as int,
            ),
            final(self)@.cursor == run_end(
                old(self)@.input,
                old(self)@.cursor as int,
                if word {
                    |c: char| continues_word(c)
                } else {
                    |c: char| continues_string(c)
                },
            ),
    {
        let ghost start = self@;
        let ghost accepts = if word {
            |c: char| continues_word(c)
        } else {
            |c: char| continues_string(c)
        };
        let mut text = String::new();
        assert(text@ =~= start.input.subrange(start.cursor as int, start.cursor as int));
        proof {
            lemma_run_end(start.input, start.cursor as int, accepts);
        }
        loop
            invariant
                start.wf(),
                accepts == (if word {
                    |c: char| continues_word(c)
                } else {
                    |c: char| continues_string(c)
                }),
                start.cursor <= self.cursor <= self.input@.len(),
                self@ == start.advance((self.cursor - start.cursor) as nat),
                self@.input == start.input,
                text@ == start.input.subrange(start.cursor as int, self.cursor as int),
                run_end(start.input, start.cursor as int, accepts) == run_end(
                    start.input,
                    self.cursor as int,
                    accepts,
                ),
            ensures
                self.cursor == run_end(start.input, start.cursor as int, accepts),
            decreases self.input@.len() - self.cursor,
        {
            if self.cursor >= self.input.len() {
                break ;
            }
            let c = self.input[self.cursor];
            let goes_on = if word {
                is_alphanumeric(c) || c == '_'
            } else {
                c != '"' && c != '\n'
            };
            if !goes_on {
                break ;
            }
            text.push(c);
            self.advance_one();
            assert(text@ =~= start.input.subrange(start.cursor as int, self.cursor as int));
        }
        text
    }

    /// Whether the input goes on with the two characters.
    pub fn starts_with(&self, first: char, second: char) -> (found: bool)
        ensures
            found == (self@.cursor + 1 < self@.input.len() && self@.input[self@.cursor as int]
                == first && self@.input[self@.cursor + 1] == second),
    {
        self.cursor < self.input.len() && self.input[self.cursor] == first
            && self.input.len() - self.cursor > 1 && self.input[self.cursor + 1] == second
    }

    fn read_simple_token(&mut self, kind: TokenKind, length: usize) -> (token: Token)
        ensures
            token.kind == kind,
            final(self)@ == old(self)@.advance(length as nat).token(kind@).lexer,
            Ok::<TokenView, LexerErrorView>(token@) == old(self)@.advance(length as nat).token(
                kind@,
            ).token,
    {
        self.advance_may(length);
        let span = self.get_span();
        Token::new(kind, span)
    }

    fn read_punctuation(&mut self) -> (token: Option<Token>)
        ensures
            token matches Some(t) ==> !(t.kind is Eof),
            match old(self)@.punctuation() {
                Some((kind, length)) => token.is_some() && final(self)@ == old(self)@.advance(
                    length,
                ).token(kind).lexer && Ok::<TokenView, LexerErrorView>(token.unwrap()@) == old(
                    self,
                )@.advance(length).token(kind).token,
                None => token.is_none() && final(self)@ == old(self)@,
            },
    {
        let c = self.peek_one();
        if c == '.' {
            Some(self.read_simple_token(TokenKind::Dot, 1))
        } else if c == '+' {
            Some(self.read_simple_token(TokenKind::Plus, 1))
        } else if c == ';' {
            Some(self.read_simple_token(TokenKind::Semicolon, 1))
        } else if c == ',' {
            Some(self.read_simple_token(TokenKind::Comma, 1))
        } else if c == '(' {
            Some(self.read_simple_token(TokenKind::LeftParent, 1))
        } else if c == ')' {
            Some(self.read_simple_token(TokenKind::RightParent, 1))
        } else if c == '>' {
            Some(self.read_simple_token(TokenKind::RightAngle, 1))
        } else if c == '=' {
            Some(self.read_simple_token(TokenKind::Equal, 1))
        } else if c == '-' {
            if self.starts_with('-', '>') {
                Some(self.read_simple_token(TokenKind::Arrow, 2))
            } else {
                Some(self.read_simple_token(TokenKind::Minus, 1))
            }
        } else {
            None
        }
    }

    fn read_string(&mut self) -> (result: Result<Token, LexerError>)
        requires
            old(self)@.wf(),
            !old(self)@.is_eof(),
        ensures
            final(self)@ == old(self)@.read_string().lexer,
            token_view(result) == old(self)@.read_string().token,
            final(self)@.wf(),
            final(self)@.input == old(self)@.input,
            final(self)@.cursor > old(self)@.cursor,
    {
        self.advance_one();
        let text = self.chop(false);
        if self.is_eof() || self.peek_one() == '\n' {
            let span = self.get_span();
            return Err(LexerError::new("Unterminated string literal".to_owned(), span));
        }
        self.advance_one();
        let span = self.get_span();
        Ok(Token::new(TokenKind::String(text), span))
    }

    fn read_number(&mut self) -> (result: Result<Token, LexerError>)
        requires
            old(self)@.wf(),
            !old(self)@.is_eof(),
            is_digit(old(self)@.peek_one()),
        ensures
            final(self)@ == old(self)@.read_number().lexer,
            token_view(result) == old(self)@.read_number().token,
            final(self)@.wf(),
            final(self)@.input == old(self)@.input,
            final(self)@.cursor > old(self)@.cursor,
    {
        proof {
            reveal_with_fuel(run_end, 2);
            lemma_run_end(self@.input, self@.cursor as int + 1, |c: char| is_digit(c));
            lemma_advance(
                self@,
                (run_end(self@.input, self@.cursor as int, |c: char| is_digit(c))
                    - self@.cursor) as nat,
            );
        }
        let value = self.chop_digits();
        let span = self.get_span();
        match value {
            Some(number) => Ok(Token::new(TokenKind::Integer(number), span)),
            None => Err(LexerError::new("Couldn't parse number literal".to_owned(), span)),
        }
    }

    fn read_keyword_or_identifier(&mut self) -> (token: Token)
        requires
            old(self)@.wf(),
            !old(self)@.is_eof(),
        ensures
            final(self)@ == old(self)@.read_keyword_or_identifier().lexer,
            Ok::<TokenView, LexerErrorView>(token@) == old(self)@.read_keyword_or_identifier().token,
            final(self)@.wf(),
            final(self)@.input == old(self)@.input,
            final(self)@.cursor > old(self)@.cursor,
    {
        let mut label = String::new();
        label.push(self.peek_one());
        self.advance_one();
        let rest = self.chop(true);
        label.append(rest.as_str());
        assert(label@ =~= old(self)@.input.subrange(
            old(self)@.cursor as int,
            self@.cursor as int,
        ));
        let span = self.get_span();
        Token::keyword_or_identifier(label, span)
    }

    /// Reads the next token.
    pub fn next_token(&mut self) -> (result: Result<Token, LexerError>)
        requires
            old(self)@.wf(),
        ensures
            final(self)@ == old(self)@.next_token().lexer,
            token_view(result) == old(self)@.next_token().token,
            final(self)@.wf(),
            final(self)@.input == old(self)@.input,
            final(self)@.cursor >= old(self)@.cursor,
            result matches Ok(token) && !(token.kind is Eof) ==> final(self)@.cursor > old(
                self,
            )@.cursor,
    {
        self.skip_whitespace();
        self.update_span();
        if self.is_eof() {
            let span = self.get_span();
            return Ok(Token::new(TokenKind::Eof, span));
        }
        let ghost at = self@;
        proof {
            lemma_advance(at, 1);
            if at.cursor + 2 <= at.input.len() {
                lemma_advance(at, 2);
            }
        }
        match self.read_punctuation() {
            Some(token) => {
                return Ok(token);
            },
            None => {},
        }
        let c = self.peek_one();
        if c == '"' {
            self.read_string()
        } else if '0' <= c && c <= '9' {
            self.read_number()
        } else if ('a' <= c && c <= 'z') || ('A' <= c && c <= 'Z') || c == '_' {
            Ok(self.read_keyword_or_identifier())
        } else {
            let span = self.get_span();
            let mut one = String::new();
            one.push(c);
            Err(LexerError::new(concat3("Unexpected token `", one.as_str(), "`"), span))
        }
    }
}

/// The mathematical content of what reading a token returns.
pub open spec fn token_view(result: Result<Token, LexerError>) -> Result<
    TokenView,
    LexerErrorView,
> {
    match result {
        Ok(token) => Ok(token@),
        Err(error) => Err(error@),
    }
}

/// The mathematical content of what cutting a text into tokens returns.
pub open spec fn tokens_view(result: Result<Vec<Token>, LexerError>) -> Result<
    Seq<TokenView>,
    LexerErrorView,
> {
    match result {
        Ok(tokens) => Ok(tokens@.map_values(|t: Token| t@)),
        Err(error) => Err(error@),
    }
}

/// `tokens` followed by what `rest` holds, or the failure of `rest`.
pub open spec fn followed_by(
    tokens: Seq<TokenView>,
    rest: Result<Seq<TokenView>, LexerErrorView>,
) -> Result<Seq<TokenView>, LexerErrorView> {
    match rest {
        Ok(more) => Ok(tokens + more),
        Err(e) => Err(e),
    }
}

/// Cuts a source text into its tokens, the end-of-input token last. Fails with the
/// first failure of the lexer.
pub fn tokenize(source: &str) -> (result: Result<Vec<Token>, LexerError>)
    ensures
        tokens_view(result) == LexerView::start(source@).tokens(),
{
    let mut lexer = Lexer::new(source);
    let mut tokens: Vec<Token> = Vec::new();
    let ghost start = lexer@;
    let length: usize = lexer.input.len();
    assert(lexer.input@.len() == length);
    assert(followed_by(tokens@.map_values(|t: Token| t@), lexer@.tokens()) =~= start.tokens()) by {
        match lexer@.tokens() {
            Ok(more) => {
                assert(tokens@.map_values(|t: Token| t@) + more =~= more);
            },
            Err(_) => {},
        }
    }
    loop
        invariant
            lexer@.wf(),
            start == LexerView::start(source@),
            followed_by(tokens@.map_values(|t: Token| t@), lexer@.tokens()) == start.tokens(),
        decreases lexer@.input.len() - lexer@.cursor,
    {
        let ghost before = lexer@;
        let ghost sofar = tokens@.map_values(|t: Token| t@);
        match lexer.next_token() {
            Err(e) => {
                return Err(e);
            },
            Ok(token) => {
                let done = match &token.kind {
                    TokenKind::Eof => true,
                    _ => false,
                };
                tokens.push(token);
                proof {
                    let now = tokens@.map_values(|t: Token| t@);
                    assert(now =~= sofar.push(token@));
                    if done {
                        assert(before.tokens() == Ok::<Seq<TokenView>, LexerErrorView>(
                            seq![token@],
                        ));
                        assert(sofar + seq![token@] =~= now);
                    } else {
                        match lexer@.tokens() {
                            Ok(more) => {
                                assert(sofar + (seq![token@] + more) =~= now + more);
                            },
                            Err(_) => {},
                        }
                    }
                }
                if done {
                    return Ok(tokens);
                }
            },
        }
    }
}

} // verus!
