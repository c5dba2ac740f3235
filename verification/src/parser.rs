//! The parser: it builds the syntax tree from the tokens.

use vstd::prelude::*;
use vstd::string::*;
use crate::analysis::model::join_spans;
use crate::ast::{
    block_view,
    statement_view,
    statements_view,
    Ast,
    BinaryOperator,
    BlockView,
    ExpressionBinary,
    ExpressionCall,
    ExpressionLiteral,
    ExpressionReturn,
    FunctionView,
    Identifier,
    IfView,
    LiteralBoolean,
    LiteralInteger,
    LiteralString,
    Parameter,
    Parameters,
    Statement,
    StatementAssignment,
    StatementBlock,
    StatementExpression,
    StatementFunction,
    StatementIf,
    StatementVariable,
    StatementView,
};
use crate::lexer::{tokenize, LexerError, LexerErrorView, LexerView};
use crate::object::Type;
use crate::span::Span;
use crate::token::{Token, TokenKind, TokenView};

verus! {

broadcast use vstd::std_specs::vec::group_vec_axioms;

/// Why the tokens are no program, and where.
#[derive(Debug, PartialEq, Eq)]
pub struct ParserError {
    pub message: String,
    pub location: Span,
}

/// The mathematical content of a parser's failure.
pub struct ParserErrorView {
    pub message: Seq<char>,
    pub location: Span,
}

impl View for ParserError {
    type V = ParserErrorView;

    open spec fn view(&self) -> ParserErrorView {
        ParserErrorView { message: self.message@, location: self.location }
    }
}

impl ParserError {
    pub fn new(message: String, location: Span) -> (error: Self)
        ensures
            error == (ParserError { message, location }),
    {
        Self { message, location }
    }

    /// The failure of the parser that a failure of the lexer becomes.
    pub fn from_lexer_error(error: LexerError) -> (failure: Self)
        ensures
            failure@ == lexer_failure(error@),
    {
        Self { message: error.message, location: error.location }
    }
}

/// The failure of the parser that a failure of the lexer becomes.
pub open spec fn lexer_failure(error: LexerErrorView) -> ParserErrorView {
    ParserErrorView { message: error.message, location: error.location }
}

pub open spec fn msg_expect_identifier() -> Seq<char> {
    "Expecting an identifier"@
}

pub open spec fn msg_unexpected_expression() -> Seq<char> {
    "Unexpected expression"@
}

pub open spec fn msg_expect_type() -> Seq<char> {
    "Expecting type annotation"@
}

pub open spec fn msg_expect_separator() -> Seq<char> {
    "Expecting either `)` or `,`"@
}

pub open spec fn msg_expect_arrow() -> Seq<char> {
    "Expecting `->` to mark the start of the block"@
}

pub open spec fn msg_expect_semicolon() -> Seq<char> {
    "Expecting `;` to mark the end of the block"@
}

/// The kind of the token at `pos`; behind the last token, the end of the input.
pub open spec fn kind_at(tokens: Seq<Token>, pos: int) -> TokenKind {
    if 0 <= pos < tokens.len() {
        tokens[pos].kind
    } else {
        TokenKind::Eof
    }
}

/// The span of the token at `pos`; behind the last token, no span.
pub open spec fn span_at(tokens: Seq<Token>, pos: int) -> Span {
    if 0 <= pos < tokens.len() {
        tokens[pos].span
    } else {
        Span::empty()
    }
}

/// The type that a token names, if it names one.
pub open spec fn type_of(kind: TokenKind) -> Option<Type> {
    match kind {
        TokenKind::TypeInt => Some(Type::Integer),
        TokenKind::TypeStr => Some(Type::String),
        TokenKind::TypeBool => Some(Type::Boolean),
        TokenKind::TypeVoid => Some(Type::Void),
        _ => None,
    }
}

/// The expression that a single token is, if it is one.
pub open spec fn expression_of(kind: TokenKind, span: Span) -> Option<StatementExpression> {
    match kind {
        TokenKind::Integer(n) => Some(
            StatementExpression::Literal(
                ExpressionLiteral::Integer(LiteralInteger { span, inner: n }),
            ),
        ),
        TokenKind::String(s) => Some(
            StatementExpression::Literal(ExpressionLiteral::String(LiteralString { span, inner: s })),
        ),
        TokenKind::Boolean(b) => Some(
            StatementExpression::Literal(
                ExpressionLiteral::Boolean(LiteralBoolean { span, inner: b }),
            ),
        ),
        TokenKind::Identifier(name) => Some(
            StatementExpression::Identifier(Identifier { span, label: name }),
        ),
        TokenKind::Plus => Some(
            StatementExpression::Binary(
                ExpressionBinary { operator: BinaryOperator::Plus, span, operands_types: None },
            ),
        ),
        TokenKind::Minus => Some(
            StatementExpression::Binary(
                ExpressionBinary { operator: BinaryOperator::Minus, span, operands_types: None },
            ),
        ),
        TokenKind::RightAngle => Some(
            StatementExpression::Binary(
                ExpressionBinary {
                    operator: BinaryOperator::GratherThan,
                    span,
                    operands_types: None,
                },
            ),
        ),
        TokenKind::Return => Some(
            StatementExpression::Return(ExpressionReturn { typ: None, span }),
        ),
        _ => None,
    }
}

/// `p`, which lies behind `pos` and within the tokens wherever a construct was read
/// from `pos` on.
pub open spec fn behind(p: int, pos: int, tokens: Seq<Token>) -> int {
    if pos < p <= tokens.len() {
        p
    } else {
        pos + 1
    }
}

pub open spec fn failure<T>(message: Seq<char>, tokens: Seq<Token>, pos: int) -> Result<
    (T, int),
    ParserErrorView,
> {
    Err(ParserErrorView { message, location: span_at(tokens, pos) })
}

/// An identifier at `pos`.
pub open spec fn parse_identifier(tokens: Seq<Token>, pos: int) -> Result<
    (Identifier, int),
    ParserErrorView,
> {
    match kind_at(tokens, pos) {
        TokenKind::Identifier(name) => Ok(
            (Identifier { span: span_at(tokens, pos), label: name }, pos + 1),
        ),
        _ => failure(msg_expect_identifier(), tokens, pos),
    }
}

/// The parameters from `pos` on up to the closing parenthesis: each a type and a name,
/// with a comma between two of them.
pub open spec fn parse_parameters(tokens: Seq<Token>, pos: int) -> Result<
    (Seq<Parameter>, int),
    ParserErrorView,
>
    decreases tokens.len() - pos,
{
    if kind_at(tokens, pos) is RightParent {
        Ok((Seq::empty(), pos + 1))
    } else {
        match type_of(kind_at(tokens, pos)) {
            None => failure(msg_expect_type(), tokens, pos),
            Some(typ) => match parse_identifier(tokens, pos + 1) {
                Err(e) => Err(e),
                Ok((identifier, p)) => {
                    let parameter = Parameter {
                        identifier,
                        typ,
                        span: join_spans(span_at(tokens, pos), identifier.span),
                    };
                    match kind_at(tokens, p) {
                        TokenKind::Comma => match parse_parameters(tokens, behind(p + 1, pos, tokens)) {
                            Err(e) => Err(e),
                            Ok((rest, q)) => Ok((seq![parameter] + rest, q)),
                        },
                        TokenKind::RightParent => Ok((seq![parameter], p + 1)),
                        _ => failure(msg_expect_separator(), tokens, p),
                    }
                },
            },
        }
    }
}

/// The statement that starts at `pos`.
pub open spec fn parse_statement(tokens: Seq<Token>, pos: int) -> Result<
    (StatementView, int),
    ParserErrorView,
>
    decreases tokens.len() - pos, 2nat,
{
    let span = span_at(tokens, pos);
    let kind = kind_at(tokens, pos);
    match kind {
        TokenKind::Function => parse_function(tokens, pos),
        TokenKind::If => match parse_block(tokens, pos + 1) {
            Err(e) => Err(e),
            Ok((block, p)) => Ok((StatementView::If(IfView { block, span }), p)),
        },
        TokenKind::Equal => Ok(
            (StatementView::Assignment(StatementAssignment { target: None, span }), pos + 1),
        ),
        TokenKind::Dot => match parse_identifier(tokens, pos + 1) {
            Err(e) => Err(e),
            Ok((identifier, p)) => Ok(
                (
                    StatementView::Expression(
                        StatementExpression::Call(
                            ExpressionCall { identifier, span: join_spans(span, identifier.span) },
                        ),
                    ),
                    p,
                ),
            ),
        },
        _ => match type_of(kind) {
            Some(typ) => match parse_identifier(tokens, pos + 1) {
                Err(e) => Err(e),
                Ok((identifier, p)) => Ok(
                    (StatementView::Variable(StatementVariable { identifier, typ, span }), p),
                ),
            },
            None => match expression_of(kind, span) {
                Some(expression) => Ok((StatementView::Expression(expression), pos + 1)),
                None => failure(msg_unexpected_expression(), tokens, pos),
            },
        },
    }
}

/// The function declaration whose keyword is at `pos`: the name, the parameters in
/// parentheses if there are any, the return type if it is not `void`, and the body.
pub open spec fn parse_function(tokens: Seq<Token>, pos: int) -> Result<
    (StatementView, int),
    ParserErrorView,
>
    decreases tokens.len() - pos, 1nat,
{
    if !(kind_at(tokens, pos) is Function) {
        failure(msg_unexpected_expression(), tokens, pos)
    } else {
        match parse_identifier(tokens, pos + 1) {
            Err(e) => Err(e),
            Ok((identifier, named)) => {
                let parameters = if kind_at(tokens, named) is LeftParent {
                    parse_parameters(tokens, named + 1)
                } else {
                    Ok((Seq::empty(), named))
                };
                match parameters {
                    Err(e) => Err(e),
                    Ok((parameters, listed)) => {
                        let (return_type, typed) = match type_of(kind_at(tokens, listed)) {
                            Some(t) => (t, listed + 1),
                            None => (Type::Void, listed),
                        };
                        match parse_block(tokens, behind(typed, pos, tokens)) {
                            Err(e) => Err(e),
                            Ok((body, p)) => Ok(
                                (
                                    StatementView::Function(
                                        FunctionView {
                                            identifier,
                                            return_type,
                                            body,
                                            parameters,
                                            parameters_span: if kind_at(
                                                tokens,
                                                named,
                                            ) is LeftParent {
                                                join_spans(
                                                    span_at(tokens, named),
                                                    span_at(tokens, listed - 1),
                                                )
                                            } else {
                                                Span::empty()
                                            },
                                            signature_span: join_spans(
                                                span_at(tokens, pos),
                                                span_at(tokens, typed - 1),
                                            ),
                                        },
                                    ),
                                    p,
                                ),
                            ),
                        }
                    },
                }
            },
        }
    }
}

/// The block that starts at `pos`: an arrow, statements, a semicolon.
pub open spec fn parse_block(tokens: Seq<Token>, pos: int) -> Result<
    (BlockView, int),
    ParserErrorView,
>
    decreases tokens.len() - pos, 0nat,
{
    if !(kind_at(tokens, pos) is Arrow) {
        failure(msg_expect_arrow(), tokens, pos)
    } else {
        match parse_sequence(tokens, pos + 1, false) {
            Err(e) => Err(e),
            Ok((statements, p)) => Ok(
                (
                    BlockView {
                        span: join_spans(span_at(tokens, pos), span_at(tokens, p)),
                        statements,
                    },
                    p + 1,
                ),
            ),
        }
    }
}

/// The statements from `pos` on: at the top level up to the end of the input, in a
/// block up to the semicolon that closes it.
pub open spec fn parse_sequence(tokens: Seq<Token>, pos: int, top: bool) -> Result<
    (Seq<StatementView>, int),
    ParserErrorView,
>
    decreases tokens.len() - pos, 3nat,
{
    let kind = kind_at(tokens, pos);
    if kind is Eof {
        if top {
            Ok((Seq::empty(), pos))
        } else {
            failure(msg_expect_semicolon(), tokens, pos)
        }
    } else if !top && kind is Semicolon {
        Ok((Seq::empty(), pos))
    } else {
        match parse_statement(tokens, pos) {
            Err(e) => Err(e),
            Ok((statement, p)) => match parse_sequence(tokens, behind(p, pos, tokens), top) {
                Err(e) => Err(e),
                Ok((rest, q)) => Ok((seq![statement] + rest, q)),
            },
        }
    }
}

/// The program that the tokens are: their statements in order, or the first failure.
pub open spec fn parse_program(tokens: Seq<Token>) -> Result<Seq<StatementView>, ParserErrorView> {
    match parse_sequence(tokens, 0, true) {
        Ok((statements, _)) => Ok(statements),
        Err(e) => Err(e),
    }
}

/// Whether reading an identifier did what `expected` says.
pub open spec fn identifier_parsed(
    expected: Result<(Identifier, int), ParserErrorView>,
    result: Result<Identifier, ParserError>,
    position: usize,
) -> bool {
    match expected {
        Ok((identifier, p)) => result == Ok::<Identifier, ParserError>(identifier) && position
            == p,
        Err(e) => result matches Err(error) && error@ == e,
    }
}

/// Whether reading parameters did what `expected` says.
pub open spec fn parameters_parsed(
    expected: Result<(Seq<Parameter>, int), ParserErrorView>,
    result: Result<Vec<Parameter>, ParserError>,
    position: usize,
) -> bool {
    match expected {
        Ok((parameters, p)) => (result matches Ok(list) && list@ == parameters) && position == p,
        Err(e) => result matches Err(error) && error@ == e,
    }
}

/// Whether reading a statement did what `expected` says.
pub open spec fn statement_parsed(
    expected: Result<(StatementView, int), ParserErrorView>,
    result: Result<Statement, ParserError>,
    position: usize,
) -> bool {
    match expected {
        Ok((view, p)) => (result matches Ok(statement) && statement_view(statement) == view)
            && position == p,
        Err(e) => result matches Err(error) && error@ == e,
    }
}

/// Whether reading a block did what `expected` says.
pub open spec fn block_parsed(
    expected: Result<(BlockView, int), ParserErrorView>,
    result: Result<StatementBlock, ParserError>,
    position: usize,
) -> bool {
    match expected {
        Ok((view, p)) => (result matches Ok(block) && block_view(block) == view) && position
            == p,
        Err(e) => result matches Err(error) && error@ == e,
    }
}

/// Whether reading a sequence of statements did what `expected` says.
pub open spec fn sequence_parsed(
    expected: Result<(Seq<StatementView>, int), ParserErrorView>,
    result: Result<Vec<Statement>, ParserError>,
    position: usize,
) -> bool {
    match expected {
        Ok((views, p)) => (result matches Ok(statements) && statements_view(statements@)
            == views) && position == p,
        Err(e) => result matches Err(error) && error@ == e,
    }
}

/// `first` followed by what `rest` holds, or the failure of `rest`.
pub open spec fn prepend<T>(first: Seq<T>, rest: Result<(Seq<T>, int), ParserErrorView>) -> Result<
    (Seq<T>, int),
    ParserErrorView,
> {
    match rest {
        Ok((more, p)) => Ok((first + more, p)),
        Err(e) => Err(e),
    }
}

/// The parser: the tokens and the place of the next one.
#[derive(Debug, PartialEq, Eq)]
pub struct Parser {
    pub tokens: Vec<Token>,
    pub position: usize,
}

impl Parser {
    pub open spec fn wf(&self) -> bool {
        self.position <= self.tokens@.len()
    }

    pub fn new(tokens: Vec<Token>) -> (parser: Self)
        ensures
            parser.tokens == tokens,
            parser.position == 0,
            parser.wf(),
    {
        Self { tokens, position: 0 }
    }

    /// Parses the tokens from the current one on as a program.
    pub fn parse(&mut self) -> (result: Result<Ast, ParserError>)
        requires
            old(self).wf(),
        ensures
            final(self).tokens == old(self).tokens,
            match parse_sequence(old(self).tokens@, old(self).position as int, true) {
                Ok((views, p)) => result matches Ok(ast) && statements_view(ast@) == views,
                Err(e) => result matches Err(error) && error@ == e,
            },
    {
        self.parse_sequence(true)
    }

    /// The span of the current token.
    fn current_span(&self) -> (span: Span)
        ensures
            span == span_at(self.tokens@, self.position as int),
    {
        if self.position < self.tokens.len() {
            self.tokens[self.position].span
        } else {
            Span::default()
        }
    }

    /// A failure with the given message at the current token.
    fn error(&self, message: &str) -> (error: ParserError)
        ensures
            error@ == (ParserErrorView {
                message: message@,
                location: span_at(self.tokens@, self.position as int),
            }),
    {
        ParserError::new(message.to_owned(), self.current_span())
    }

    /// Goes on to the next token.
    fn bump(&mut self)
        requires
            old(self).position < old(self).tokens@.len(),
        ensures
            final(self).tokens == old(self).tokens,
            final(self).position == old(self).position + 1,
    {
        let length: usize = self.tokens.len();
        assert(self.position < length);
        self.position += 1;
    }

    /// The type that the current token names, if it names one.
    fn parse_type_annotation(&self) -> (typ: Option<Type>)
        ensures
            typ == type_of(kind_at(self.tokens@, self.position as int)),
            typ.is_some() ==> self.position < self.tokens@.len(),
    {
        if self.position < self.tokens.len() {
            match &self.tokens[self.position].kind {
                TokenKind::TypeInt => Some(Type::Integer),
                TokenKind::TypeStr => Some(Type::String),
                TokenKind::TypeBool => Some(Type::Boolean),
                TokenKind::TypeVoid => Some(Type::Void),
                _ => None,
            }
        } else {
            None
        }
    }

    fn parse_identifier(&mut self) -> (result: Result<Identifier, ParserError>)
        requires
            old(self).wf(),
        ensures
            final(self).tokens == old(self).tokens,
            identifier_parsed(
                parse_identifier(old(self).tokens@, old(self).position as int),
                result,
                final(self).position,
            ),
            result.is_ok() ==> old(self).position < final(self).position <= final(self).tokens@.len(),
    {
        if self.position < self.tokens.len() {
            let found = match &self.tokens[self.position].kind {
                TokenKind::Identifier(label) => Some(label.clone()),
                _ => None,
            };
            match found {
                Some(label) => {
                    let identifier = Identifier::new(self.tokens[self.position].span, label);
                    self.bump();
                    return Ok(identifier);
                },
                None => {},
            }
        }
        Err(self.error("Expecting an identifier"))
    }

    fn parse_function_params(&mut self) -> (result: Result<Vec<Parameter>, ParserError>)
        requires
            old(self).wf(),
        ensures
            final(self).tokens == old(self).tokens,
            parameters_parsed(
                parse_parameters(old(self).tokens@, old(self).position as int),
                result,
                final(self).position,
            ),
            result.is_ok() ==> old(self).position < final(self).position <= final(self).tokens@.len(),
    {
        let ghost tokens = self.tokens@;
        let ghost start = self.position as int;
        let mut parameters: Vec<Parameter> = Vec::new();
        assert(prepend(parameters@, parse_parameters(tokens, start)) == parse_parameters(
            tokens,
            start,
        )) by {
            match parse_parameters(tokens, start) {
                Ok((more, _)) => {
                    assert(parameters@ + more =~= more);
                },
                Err(_) => {},
            }
        }
        loop
            invariant
                self.wf(),
                tokens == self.tokens@,
                self.tokens == old(self).tokens,
                start == old(self).position,
                start <= self.position,
                prepend(parameters@, parse_parameters(tokens, self.position as int))
                    == parse_parameters(tokens, start),
            decreases self.tokens@.len() - self.position,
        {
            let ghost at = self.position as int;
            let ghost sofar = parameters@;
            let closes = self.position < self.tokens.len() && match &self.tokens[self.position].kind {
                TokenKind::RightParent => true,
                _ => false,
            };
            if closes {
                self.bump();
                proof {
                    assert(sofar + Seq::<Parameter>::empty() =~= sofar);
                }
                return Ok(parameters);
            }
            let typ = match self.parse_type_annotation() {
                Some(typ) => typ,
                None => {
                    return Err(self.error("Expecting type annotation"));
                },
            };
            let span = self.current_span();
            self.bump();
            let identifier = match self.parse_identifier() {
                Ok(identifier) => identifier,
                Err(e) => {
                    return Err(e);
                },
            };
            let end = identifier.span.end;
            let parameter = Parameter::new(
                identifier,
                typ,
                Span::new(span.line, span.column, span.start, end),
            );
            let ghost p = self.position as int;
            let separator: u8 = if self.position < self.tokens.len() {
                match &self.tokens[self.position].kind {
                    TokenKind::Comma => 1,
                    TokenKind::RightParent => 2,
                    _ => 0,
                }
            } else {
                0
            };
            if separator == 0 {
                return Err(self.error("Expecting either `)` or `,`"));
            }
            parameters.push(parameter);
            self.bump();
            if separator == 2 {
                proof {
                    assert(sofar + seq![parameter] =~= parameters@);
                }
                return Ok(parameters);
            }
            proof {
                assert(behind(p + 1, at, tokens) == p + 1);
                match parse_parameters(tokens, p + 1) {
                    Ok((more, _)) => {
                        assert(sofar + (seq![parameter] + more) =~= parameters@ + more);
                    },
                    Err(_) => {},
                }
            }
        }
    }

    fn parse_sequence(&mut self, top: bool) -> (result: Result<Vec<Statement>, ParserError>)
        requires
            old(self).wf(),
        ensures
            final(self).tokens == old(self).tokens,
            sequence_parsed(
                parse_sequence(old(self).tokens@, old(self).position as int, top),
                result,
                final(self).position,
            ),
            result.is_ok() ==> old(self).position <= final(self).position <= final(self).tokens@.len(),
            result.is_ok() && !top ==> final(self).position < final(self).tokens@.len(),
        decreases old(self).tokens@.len() - old(self).position, 3nat,
    {
        let ghost tokens = self.tokens@;
        let ghost start = self.position as int;
        let mut statements: Vec<Statement> = Vec::new();
        assert(statements_view(statements@) =~= Seq::empty());
        assert(prepend(statements_view(statements@), parse_sequence(tokens, start, top))
            == parse_sequence(tokens, start, top)) by {
            match parse_sequence(tokens, start, top) {
                Ok((more, _)) => {
                    assert(statements_view(statements@) + more =~= more);
                },
                Err(_) => {},
            }
        }
        loop
            invariant
                self.wf(),
                tokens == self.tokens@,
                self.tokens == old(self).tokens,
                start == old(self).position,
                start <= self.position,
                prepend(
                    statements_view(statements@),
                    parse_sequence(tokens, self.position as int, top),
                ) == parse_sequence(tokens, start, top),
            decreases self.tokens@.len() - self.position,
        {
            let ghost at = self.position as int;
            let ghost sofar = statements_view(statements@);
            let mark: u8 = if self.position < self.tokens.len() {
                match &self.tokens[self.position].kind {
                    TokenKind::Eof => 0,
                    TokenKind::Semicolon => 1,
                    _ => 2,
                }
            } else {
                0
            };
            if mark == 0 {
                if top {
                    proof {
                        assert(sofar + Seq::<StatementView>::empty() =~= sofar);
                    }
                    return Ok(statements);
                }
                return Err(self.error("Expecting `;` to mark the end of the block"));
            }
            if mark == 1 && !top {
                proof {
                    assert(sofar + Seq::<StatementView>::empty() =~= sofar);
                }
                return Ok(statements);
            }
            let statement = match self.parse_statement() {
                Ok(statement) => statement,
                Err(e) => {
                    return Err(e);
                },
            };
            statements.push(statement);
            proof {
                let p = self.position as int;
                assert(behind(p, at, tokens) == p);
                assert(statements_view(statements@) =~= sofar.push(statement_view(statement)));
                match parse_sequence(tokens, p, top) {
                    Ok((more, _)) => {
                        assert(sofar + (seq![statement_view(statement)] + more)
                            =~= statements_view(statements@) + more);
                    },
                    Err(_) => {},
                }
            }
        }
    }

    fn parse_statement_block(&mut self) -> (result: Result<StatementBlock, ParserError>)
        requires
            old(self).wf(),
        ensures
            final(self).tokens == old(self).tokens,
            block_parsed(
                parse_block(old(self).tokens@, old(self).position as int),
                result,
                final(self).position,
            ),
            result.is_ok() ==> old(self).position < final(self).position <= final(self).tokens@.len(),
        decreases old(self).tokens@.len() - old(self).position, 0nat,
    {
        let opens = self.position < self.tokens.len() && match &self.tokens[self.position].kind {
            TokenKind::Arrow => true,
            _ => false,
        };
        if !opens {
            return Err(self.error("Expecting `->` to mark the start of the block"));
        }
        let span = self.current_span();
        self.bump();
        let statements = match self.parse_sequence(false) {
            Ok(statements) => statements,
            Err(e) => {
                return Err(e);
            },
        };
        let end = self.current_span().end;
        self.bump();
        Ok(StatementBlock { span: Span::new(span.line, span.column, span.start, end), statements })
    }

    fn parse_statement_function(&mut self) -> (result: Result<Statement, ParserError>)
        requires
            old(self).wf(),
            kind_at(old(self).tokens@, old(self).position as int) is Function,
        ensures
            final(self).tokens == old(self).tokens,
            statement_parsed(
                parse_function(old(self).tokens@, old(self).position as int),
                result,
                final(self).position,
            ),
            result.is_ok() ==> old(self).position < final(self).position <= final(self).tokens@.len(),
        decreases old(self).tokens@.len() - old(self).position, 1nat,
    {
        let ghost tokens = self.tokens@;
        let ghost pos = self.position as int;
        let keyword = self.current_span();
        self.bump();
        let identifier = match self.parse_identifier() {
            Ok(identifier) => identifier,
            Err(e) => {
                return Err(e);
            },
        };
        let listed = self.position < self.tokens.len() && match &self.tokens[self.position].kind {
            TokenKind::LeftParent => true,
            _ => false,
        };
        let mut parameters = Parameters::new();
        if listed {
            let open = self.current_span();
            self.bump();
            parameters.parameters = match self.parse_function_params() {
                Ok(list) => list,
                Err(e) => {
                    return Err(e);
                },
            };
            let close = self.tokens[self.position - 1].span;
            parameters.span = Span::new(open.line, open.column, open.start, close.end);
        }
        let return_type = match self.parse_type_annotation() {
            Some(typ) => {
                self.bump();
                typ
            },
            None => Type::Void,
        };
        let last = self.tokens[self.position - 1].span;
        let signature_span = Span::new(keyword.line, keyword.column, keyword.start, last.end);
        assert(behind(self.position as int, pos, tokens) == self.position);
        let body = match self.parse_statement_block() {
            Ok(body) => body,
            Err(e) => {
                return Err(e);
            },
        };
        Ok(
            Statement::Function(
                StatementFunction::new(identifier, parameters, return_type, body, signature_span),
            ),
        )
    }

    /// The expression that the current token is, if it is one.
    fn parse_statement_expression(&self) -> (expression: Option<StatementExpression>)
        ensures
            expression == expression_of(
                kind_at(self.tokens@, self.position as int),
                span_at(self.tokens@, self.position as int),
            ),
            expression.is_some() ==> self.position < self.tokens@.len(),
    {
        if self.position >= self.tokens.len() {
            return None;
        }
        let span = self.tokens[self.position].span;
        match &self.tokens[self.position].kind {
            TokenKind::Integer(n) => Some(
                StatementExpression::Literal(
                    ExpressionLiteral::Integer(LiteralInteger::new(span, *n)),
                ),
            ),
            TokenKind::String(s) => Some(
                StatementExpression::Literal(
                    ExpressionLiteral::String(LiteralString::new(span, s.clone())),
                ),
            ),
            TokenKind::Boolean(b) => Some(
                StatementExpression::Literal(
                    ExpressionLiteral::Boolean(LiteralBoolean::new(span, *b)),
                ),
            ),
            TokenKind::Identifier(name) => Some(
                StatementExpression::Identifier(Identifier::new(span, name.clone())),
            ),
            TokenKind::Plus => Some(
                StatementExpression::Binary(ExpressionBinary::new(BinaryOperator::Plus, span)),
            ),
            TokenKind::Minus => Some(
                StatementExpression::Binary(ExpressionBinary::new(BinaryOperator::Minus, span)),
            ),
            TokenKind::RightAngle => Some(
                StatementExpression::Binary(
                    ExpressionBinary::new(BinaryOperator::GratherThan, span),
                ),
            ),
            TokenKind::Return => Some(StatementExpression::Return(ExpressionReturn::new(span))),
            _ => None,
        }
    }

    fn parse_statement(&mut self) -> (result: Result<Statement, ParserError>)
        requires
            old(self).wf(),
        ensures
            final(self).tokens == old(self).tokens,
            statement_parsed(
                parse_statement(old(self).tokens@, old(self).position as int),
                result,
                final(self).position,
            ),
            result.is_ok() ==> old(self).position < final(self).position <= final(self).tokens@.len(),
        decreases old(self).tokens@.len() - old(self).position, 2nat,
    {
        let span = self.current_span();
        let lead: u8 = if self.position < self.tokens.len() {
            match &self.tokens[self.position].kind {
                TokenKind::Function => 1,
                TokenKind::If => 2,
                TokenKind::Equal => 3,
                TokenKind::Dot => 4,
                _ => 0,
            }
        } else {
            0
        };
        if lead == 1 {
            return self.parse_statement_function();
        }
        if lead == 2 {
            self.bump();
            let block = match self.parse_statement_block() {
                Ok(block) => block,
                Err(e) => {
                    return Err(e);
                },
            };
            return Ok(Statement::If(StatementIf::new(block, span)));
        }
        if lead == 3 {
            self.bump();
            return Ok(Statement::Assignment(StatementAssignment::new(span)));
        }
        if lead == 4 {
            self.bump();
            let identifier = match self.parse_identifier() {
                Ok(identifier) => identifier,
                Err(e) => {
                    return Err(e);
                },
            };
            let end = identifier.span.end;
            return Ok(
                Statement::Expression(
                    StatementExpression::Call(
                        ExpressionCall::new(
                            Span::new(span.line, span.column, span.start, end),
                            identifier,
                        ),
                    ),
                ),
            );
        }
        match self.parse_type_annotation() {
            Some(typ) => {
                self.bump();
                let identifier = match self.parse_identifier() {
                    Ok(identifier) => identifier,
                    Err(e) => {
                        return Err(e);
                    },
                };
                return Ok(Statement::Variable(StatementVariable::new(identifier, typ, span)));
            },
            None => {},
        }
        match self.parse_statement_expression() {
            Some(expression) => {
                self.bump();
                Ok(Statement::Expression(expression))
            },
            None => Err(self.error("Unexpected expression")),
        }
    }
}

/// Whether `result` is what parsing `tokens` gives, and `tokens` are tokens with the
/// contents `views`.
pub open spec fn parsed_from(
    tokens: Seq<Token>,
    views: Seq<TokenView>,
    result: Result<Ast, ParserError>,
) -> bool {
    tokens.map_values(|t: Token| t@) == views && match parse_program(tokens) {
        Ok(program) => result matches Ok(ast) && statements_view(ast@) == program,
        Err(e) => result matches Err(error) && error@ == e,
    }
}

/// Cuts a source text into tokens and parses them as a program. Fails with the first
/// failure of the lexer, or else with the first failure of the parser.
pub fn parse_source(source: &str) -> (result: Result<Ast, ParserError>)
    ensures
        match LexerView::start(source@).tokens() {
            Err(e) => result matches Err(error) && error@ == lexer_failure(e),
            Ok(views) => exists|tokens: Seq<Token>| #[trigger] parsed_from(tokens, views, result),
        },
{
    match tokenize(source) {
        Err(e) => Err(ParserError::from_lexer_error(e)),
        Ok(tokens) => {
            let ghost list = tokens@;
            let mut parser = Parser::new(tokens);
            let result = parser.parse();
            assert(parsed_from(list, LexerView::start(source@).tokens()->Ok_0, result));
            result
        },
    }
}

} // verus!
