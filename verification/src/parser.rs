//! The parser: from tokens to statements, by precedence climbing, with
//! recovery after a statement that does not parse.

use crate::grammar::{
    assert_at, assign_at, binding_power, expect_at, expression_at, failure_at, goto_at, if_at,
    kind_at, next_at, ops_at, ops_rest, parse_from, statement_at, store_at, synchronized,
    FailureView, ParseErrorView, Parsed,
};
use crate::scanner::Scanner;
use crate::syntax::{render_statements, stmt_texts, stmt_views, Expr, ExprView, Stmt, StmtView};
use crate::text::bracketed;
use crate::tokens::{copy_tokens, token_views, Token, TokenKind, TokenType, TokenView};
use vstd::prelude::*;

verus! {

/// Why a statement or an expression does not parse.
#[derive(Debug, Clone, PartialEq)]
pub enum ParseError {
    /// No statement begins here; with the reason.
    Stmt(&'static str),
    /// No expression begins here; with the reason.
    Expr(&'static str),
    /// A token of the given type was required and is absent.
    Expected(TokenType),
}

impl View for ParseError {
    type V = ParseErrorView;

    open spec fn view(&self) -> ParseErrorView {
        match self {
            ParseError::Stmt(reason) => ParseErrorView::Stmt(reason@),
            ParseError::Expr(reason) => ParseErrorView::Expr(reason@),
            ParseError::Expected(token_type) => ParseErrorView::Expected(token_type@),
        }
    }
}

impl ParseErrorView {
    /// The message that describes this error.
    pub open spec fn message(self) -> Seq<char> {
        match self {
            ParseErrorView::Stmt(_) => "Parsing statement failed."@,
            ParseErrorView::Expr(_) => "Parsing expression failed."@,
            ParseErrorView::Expected(_) => "Expected different token type."@,
        }
    }
}

impl ParseError {
    /// The message that describes this error.
    pub fn to_string(&self) -> (s: String)
        ensures
            s@ == self@.message(),
    {
        match self {
            ParseError::Stmt(_) => String::from_str("Parsing statement failed."),
            ParseError::Expr(_) => String::from_str("Parsing expression failed."),
            ParseError::Expected(_) => String::from_str("Expected different token type."),
        }
    }
}

/// The value of the outcome of parsing an expression.
pub open spec fn expr_result(res: Result<Expr, ParseError>) -> Result<ExprView, ParseErrorView> {
    match res {
        Ok(expr) => Ok(expr@),
        Err(error) => Err(error@),
    }
}

/// The value of the outcome of parsing a statement.
pub open spec fn stmt_result(res: Result<Stmt, ParseError>) -> Result<StmtView, ParseErrorView> {
    match res {
        Ok(stmt) => Ok(stmt@),
        Err(error) => Err(error@),
    }
}

/// The value of the outcome of requiring a token.
pub open spec fn unit_result(res: Result<(), ParseError>) -> Result<(), ParseErrorView> {
    match res {
        Ok(_) => Ok(()),
        Err(error) => Err(error@),
    }
}

/// The failure to parse an expression, for the given reason.
pub fn err_expr<T>(msg: &'static str) -> (res: Result<T, ParseError>)
    ensures
        res matches Err(error) && error@ == ParseErrorView::Expr(msg@),
{
    Err(ParseError::Expr(msg))
}

/// The failure to parse a statement, for the given reason.
pub fn err_stmt<T>(msg: &'static str) -> (res: Result<T, ParseError>)
    ensures
        res matches Err(error) && error@ == ParseErrorView::Stmt(msg@),
{
    Err(ParseError::Stmt(msg))
}

/// The failure to find a token of the given type.
pub fn err_expected<T>(expected: TokenType) -> (res: Result<T, ParseError>)
    ensures
        res matches Err(error) && error@ == ParseErrorView::Expected(expected@),
{
    Err(ParseError::Expected(expected))
}

/// The record of a statement that did not parse.
#[derive(Debug, Clone, PartialEq)]
pub struct ParseFailure {
    /// The line of the token with which the statement began.
    pub line: usize,
    /// Why it did not parse.
    pub error: ParseError,
}

impl View for ParseFailure {
    type V = FailureView;

    open spec fn view(&self) -> FailureView {
        FailureView { line: self.line, error: self.error@ }
    }
}

/// The values of a sequence of records, in order.
pub open spec fn failure_views(failures: Seq<ParseFailure>) -> Seq<FailureView> {
    Seq::new(failures.len(), |i: int| failures[i]@)
}

/// Turns tokens into statements, one pull at a time.
#[derive(Debug, Clone)]
pub struct Parser {
    /// The tokens, all of them.
    tokens: Vec<Token>,
    /// The index of the next token to read.
    pos: usize,
    /// The statements that did not parse so far.
    failures: Vec<ParseFailure>,
}

impl Parser {
    /// The tokens that the parser reads.
    pub closed spec fn tokens(&self) -> Seq<TokenView> {
        token_views(self.tokens@)
    }

    /// The index of the next token to read.
    pub closed spec fn position(&self) -> int {
        self.pos as int
    }

    /// The records of the statements that did not parse, oldest first.
    pub closed spec fn failed(&self) -> Seq<FailureView> {
        failure_views(self.failures@)
    }

    /// The parser's invariant: the position lies within the tokens.
    pub closed spec fn wf(&self) -> bool {
        self.pos <= self.tokens.len()
    }

    /// The statements that the parser has yet to hand out.
    pub open spec fn remaining(&self) -> Seq<StmtView> {
        parse_from(self.tokens(), self.position()).statements
    }

    /// A parser of the tokens that the scanner has yet to hand out.
    pub fn new(scanner: Scanner) -> (parser: Parser)
        requires
            scanner.wf(),
        ensures
            parser.wf(),
            parser.tokens() == scanner.remaining(),
            parser.position() == 0,
            parser.failed() == Seq::<FailureView>::empty(),
    {
        let mut scanner = scanner;
        let tokens = scanner.collect();
        Self::from_tokens(tokens)
    }

    /// A parser at the start of the given tokens.
    pub fn from_tokens(tokens: Vec<Token>) -> (parser: Parser)
        ensures
            parser.wf(),
            parser.tokens() == token_views(tokens@),
            parser.position() == 0,
            parser.failed() == Seq::<FailureView>::empty(),
    {
        let parser = Parser { tokens, pos: 0, failures: Vec::new() };
        assert(parser.failed() =~= Seq::<FailureView>::empty());
        parser
    }

    /// True if every token has been read.
    pub fn is_at_end(&self) -> (res: bool)
        ensures
            res == (self.position() >= self.tokens().len()),
    {
        self.pos >= self.tokens.len()
    }

    /// The next token, without reading it.
    fn peek(&self) -> (res: Option<&Token>)
        requires
            self.wf(),
        ensures
            match res {
                Some(token) => self.pos < self.tokens.len() && *token == self.tokens@[self.pos as int],
                None => self.pos == self.tokens.len(),
            },
    {
        if self.pos < self.tokens.len() {
            Some(&self.tokens[self.pos])
        } else {
            None
        }
    }

    /// Reads the next token.
    fn advance(&mut self) -> (res: Option<Token>)
        requires
            old(self).wf(),
        ensures
            final(self).wf(),
            final(self).tokens == old(self).tokens,
            final(self).failures == old(self).failures,
            match res {
                Some(token) => old(self).pos < old(self).tokens.len() && token@ == old(
                    self,
                ).tokens()[old(self).pos as int] && final(self).pos == old(self).pos + 1,
                None => old(self).pos == old(self).tokens.len() && final(self).pos == old(self).pos,
            },
    {
        if self.pos < self.tokens.len() {
            let token = self.tokens[self.pos].clone();
            self.pos = self.pos + 1;
            Some(token)
        } else {
            None
        }
    }

    /// True if the next token is of the given type.
    pub fn check(&self, token_type: TokenType) -> (res: bool)
        requires
            self.wf(),
        ensures
            res == (kind_at(self.tokens(), self.position()) == Some(token_type@)),
    {
        if self.is_at_end() {
            false
        } else {
            match self.peek() {
                Some(token) => token.token_type == token_type,
                None => false,
            }
        }
    }

    /// Requires the next token to be of the given type, and reads it.
    pub fn expect(&mut self, token_type: TokenType) -> (res: Result<(), ParseError>)
        requires
            old(self).wf(),
        ensures
            final(self).wf(),
            final(self).tokens() == old(self).tokens(),
            final(self).failed() == old(self).failed(),
            final(self).position() == expect_at(
                old(self).tokens(),
                old(self).position(),
                token_type@,
            ).pos,
            unit_result(res) == expect_at(
                old(self).tokens(),
                old(self).position(),
                token_type@,
            ).result,
    {
        if !self.check(token_type.clone()) {
            err_expected(token_type)
        } else {
            self.pos = self.pos + 1;
            Ok(())
        }
    }

    /// After a failure, passes the tokens with which no statement begins, up
    /// to the first with which one may.
    pub fn synchronize(&mut self)
        requires
            old(self).wf(),
        ensures
            final(self).wf(),
            final(self).tokens() == old(self).tokens(),
            final(self).failed() == old(self).failed(),
            final(self).position() == synchronized(old(self).tokens(), old(self).position()),
            old(self).position() <= final(self).position(),
    {
        let mut found = false;
        while !found && self.pos < self.tokens.len()
            invariant
                self.wf(),
                self.tokens == old(self).tokens,
                self.failures == old(self).failures,
                old(self).pos <= self.pos,
                synchronized(self.tokens(), self.pos as int) == synchronized(
                    old(self).tokens(),
                    old(self).pos as int,
                ),
                found ==> self.pos < self.tokens.len() && self.tokens()[self.pos as int].token_type.starts_statement(),
            decreases
                    self.tokens.len() - self.pos + if found {
                        0int
                    } else {
                        1int
                    },
        {
            if self.tokens[self.pos].token_type.starts_statement() {
                found = true;
            } else {
                self.pos = self.pos + 1;
            }
        }
    }

    /// The binding powers of a binary operator: how strongly it holds the
    /// operand on its left, and the one on its right.
    pub fn binary_binding_power(token_type: &TokenType) -> (res: Result<(u8, u8), ParseError>)
        ensures
            match binding_power(token_type@) {
                Some(powers) => res == Ok::<(u8, u8), ParseError>(powers),
                None => res matches Err(error) && error@ == ParseErrorView::Expr(
                    "Expected operator."@,
                ),
            },
    {
        let res = match token_type {
            TokenType::Plus | TokenType::Minus => (1, 2),
            TokenType::Star | TokenType::Slash => (3, 4),
            _ => return err_expr("Expected operator."),
        };
        Ok(res)
    }

    /// Parses a chain of binary operations that begins with a value or a name
    /// and takes in the operators whose left binding power is at least
    /// `min_binding_power`.
    pub fn ops(&mut self, min_binding_power: u8) -> (res: Result<Expr, ParseError>)
        requires
            old(self).wf(),
        ensures
            final(self).wf(),
            final(self).tokens() == old(self).tokens(),
            final(self).failed() == old(self).failed(),
            final(self).position() == ops_at(
                old(self).tokens(),
                old(self).position(),
                min_binding_power,
            ).pos,
            expr_result(res) == ops_at(
                old(self).tokens(),
                old(self).position(),
                min_binding_power,
            ).result,
            res is Ok ==> old(self).position() < final(self).position(),
            old(self).position() <= final(self).position(),
        decreases old(self).tokens().len() - old(self).position(), 0int,
    {
        let ghost ts = self.tokens();
        let ghost first = self.pos as int;
        let mut lhs: Expr = match self.advance() {
            Some(token) => match token.token_type {
                TokenType::Value(value) => Expr::Val(value),
                TokenType::Identifier(name) => Expr::Var(name),
                _ => return err_expr("Expected value or identifier."),
            },
            None => return err_expr("Expected value or identifier."),
        };
        let mut done = false;
        while !done
            invariant
                self.wf(),
                self.tokens() == ts,
                self.failed() == old(self).failed(),
                ts == old(self).tokens(),
                first == old(self).pos,
                first < self.pos,
                ops_at(ts, first, min_binding_power) == if done {
                    Parsed { result: Ok::<ExprView, ParseErrorView>(lhs@), pos: self.pos as int }
                } else {
                    ops_rest(ts, self.pos as int, lhs@, min_binding_power)
                },
            decreases
                    self.tokens.len() - self.pos + if done {
                        0int
                    } else {
                        1int
                    },
        {
            let next: Option<Token> = match self.peek() {
                Some(token) => Some(token.clone()),
                None => None,
            };
            match next {
                Some(op) => {
                    if op.token_type.is_binary_operator() {
                        let powers = Self::binary_binding_power(&op.token_type);
                        match powers {
                            Ok((left_binding_power, right_binding_power)) => {
                                if left_binding_power < min_binding_power {
                                    done = true;
                                } else {
                                    self.pos = self.pos + 1;
                                    let rhs = self.ops(right_binding_power);
                                    match rhs {
                                        Ok(rhs) => {
                                            lhs = Expr::Binary(Box::new(lhs), op, Box::new(rhs));
                                        },
                                        Err(error) => {
                                            return Err(error);
                                        },
                                    }
                                }
                            },
                            Err(error) => {
                                return Err(error);
                            },
                        }
                    } else {
                        done = true;
                    }
                },
                None => {
                    done = true;
                },
            }
        }
        Ok(lhs)
    }

    /// Parses a unary expression: a sign, then an expression.
    fn unary(&mut self) -> (res: Result<Expr, ParseError>)
        requires
            old(self).wf(),
            kind_at(old(self).tokens(), old(self).position()) == Some(TokenKind::Plus) || kind_at(
                old(self).tokens(),
                old(self).position(),
            ) == Some(TokenKind::Minus),
        ensures
            final(self).wf(),
            final(self).tokens() == old(self).tokens(),
            final(self).failed() == old(self).failed(),
            final(self).position() == expression_at(old(self).tokens(), old(self).position()).pos,
            expr_result(res) == expression_at(old(self).tokens(), old(self).position()).result,
            old(self).position() <= final(self).position(),
        decreases old(self).tokens().len() - old(self).position(), 0int,
    {
        match self.advance() {
            Some(operator) => {
                match self.expression() {
                    Ok(operand) => Ok(Expr::Unary(operator, Box::new(operand))),
                    Err(error) => Err(error),
                }
            },
            None => err_expr("Expected token, found EOF."),
        }
    }

    /// Parses a load expression: the keyword, then an expression in
    /// parentheses.
    fn load(&mut self) -> (res: Result<Expr, ParseError>)
        requires
            old(self).wf(),
            kind_at(old(self).tokens(), old(self).position()) == Some(TokenKind::Load),
        ensures
            final(self).wf(),
            final(self).tokens() == old(self).tokens(),
            final(self).failed() == old(self).failed(),
            final(self).position() == expression_at(old(self).tokens(), old(self).position()).pos,
            expr_result(res) == expression_at(old(self).tokens(), old(self).position()).result,
            old(self).position() <= final(self).position(),
        decreases old(self).tokens().len() - old(self).position(), 0int,
    {
        self.pos = self.pos + 1;
        self.expect(TokenType::LeftParen)?;
        let inner = self.expression()?;
        self.expect(TokenType::RightParen)?;
        Ok(Expr::Load(Box::new(inner)))
    }

    /// Parses an expression.
    pub fn expression(&mut self) -> (res: Result<Expr, ParseError>)
        requires
            old(self).wf(),
        ensures
            final(self).wf(),
            final(self).tokens() == old(self).tokens(),
            final(self).failed() == old(self).failed(),
            final(self).position() == expression_at(old(self).tokens(), old(self).position()).pos,
            expr_result(res) == expression_at(old(self).tokens(), old(self).position()).result,
            old(self).position() <= final(self).position(),
        decreases old(self).tokens().len() - old(self).position(), 1int,
    {
        let lhs = match self.peek() {
            Some(token) => token,
            None => return err_expr("Expected token, found EOF."),
        };
        match lhs.token_type {
            TokenType::Load => self.load(),
            TokenType::GetInput => {
                self.pos = self.pos + 1;
                Ok(Expr::GetInput(String::from_str("stdin")))
            },
            TokenType::Identifier(_) | TokenType::Value(_) => self.ops(0),
            TokenType::Plus | TokenType::Minus => self.unary(),
            _ => err_expr("Expected Load, GetInput, Identifier or Value."),
        }
    }

    /// Parses the rest of an assignment to the given name.
    fn assign(&mut self, identifier: Token) -> (res: Result<Stmt, ParseError>)
        requires
            old(self).wf(),
        ensures
            final(self).wf(),
            final(self).tokens() == old(self).tokens(),
            final(self).failed() == old(self).failed(),
            final(self).position() == assign_at(
                old(self).tokens(),
                old(self).position(),
                identifier@,
            ).pos,
            stmt_result(res) == assign_at(
                old(self).tokens(),
                old(self).position(),
                identifier@,
            ).result,
            old(self).position() <= final(self).position(),
    {
        self.expect(TokenType::Assign)?;
        let expr = self.expression()?;
        Ok(Stmt::Assignment(identifier, Box::new(expr)))
    }

    /// Parses the rest of a store statement.
    fn store(&mut self) -> (res: Result<Stmt, ParseError>)
        requires
            old(self).wf(),
        ensures
            final(self).wf(),
            final(self).tokens() == old(self).tokens(),
            final(self).failed() == old(self).failed(),
            final(self).position() == store_at(old(self).tokens(), old(self).position()).pos,
            stmt_result(res) == store_at(old(self).tokens(), old(self).position()).result,
            old(self).position() <= final(self).position(),
    {
        self.expect(TokenType::LeftParen)?;
        let left = self.expression()?;
        self.expect(TokenType::Comma)?;
        let right = self.expression()?;
        self.expect(TokenType::RightParen)?;
        Ok(Stmt::Store(Box::new(left), Box::new(right)))
    }

    /// Parses the rest of a jump.
    fn goto(&mut self) -> (res: Result<Stmt, ParseError>)
        requires
            old(self).wf(),
        ensures
            final(self).wf(),
            final(self).tokens() == old(self).tokens(),
            final(self).failed() == old(self).failed(),
            final(self).position() == goto_at(old(self).tokens(), old(self).position()).pos,
            stmt_result(res) == goto_at(old(self).tokens(), old(self).position()).result,
            old(self).position() <= final(self).position(),
    {
        Ok(Stmt::Goto(Box::new(self.expression()?)))
    }

    /// Parses the rest of an assertion.
    fn assertion(&mut self) -> (res: Result<Stmt, ParseError>)
        requires
            old(self).wf(),
        ensures
            final(self).wf(),
            final(self).tokens() == old(self).tokens(),
            final(self).failed() == old(self).failed(),
            final(self).position() == assert_at(old(self).tokens(), old(self).position()).pos,
            stmt_result(res) == assert_at(old(self).tokens(), old(self).position()).result,
            old(self).position() <= final(self).position(),
    {
        Ok(Stmt::Assert(Box::new(self.expression()?)))
    }

    /// Parses the rest of a conditional.
    fn if_then_else(&mut self) -> (res: Result<Stmt, ParseError>)
        requires
            old(self).wf(),
        ensures
            final(self).wf(),
            final(self).tokens() == old(self).tokens(),
            final(self).failed() == old(self).failed(),
            final(self).position() == if_at(old(self).tokens(), old(self).position()).pos,
            stmt_result(res) == if_at(old(self).tokens(), old(self).position()).result,
            old(self).position() <= final(self).position(),
    {
        let condition = self.expression()?;
        self.expect(TokenType::Then)?;
        self.expect(TokenType::Goto)?;
        let first = self.expression()?;
        self.expect(TokenType::Else)?;
        self.expect(TokenType::Goto)?;
        let second = self.expression()?;
        Ok(Stmt::IfThenElse(Box::new(condition), Box::new(first), Box::new(second)))
    }

    /// Parses a statement. Its first token is read whatever it is.
    pub fn statement(&mut self) -> (res: Result<Stmt, ParseError>)
        requires
            old(self).wf(),
        ensures
            final(self).wf(),
            final(self).tokens() == old(self).tokens(),
            final(self).failed() == old(self).failed(),
            final(self).position() == statement_at(old(self).tokens(), old(self).position()).pos,
            stmt_result(res) == statement_at(old(self).tokens(), old(self).position()).result,
            old(self).position() <= final(self).position(),
            old(self).position() < old(self).tokens().len() ==> old(self).position()
                < final(self).position(),
    {
        let lhs = match self.advance() {
            Some(token) => token,
            None => return err_stmt("Expected token, found EOF."),
        };
        match lhs.token_type {
            TokenType::Identifier(_) => self.assign(lhs),
            TokenType::Store => self.store(),
            TokenType::Goto => self.goto(),
            TokenType::Assert => self.assertion(),
            TokenType::If => self.if_then_else(),
            _ => err_stmt("Expected statement."),
        }
    }

    /// Hands out the next statement that parses, or nothing once the tokens
    /// are used up. A statement that does not parse is recorded and passed
    /// over.
    pub fn next(&mut self) -> (res: Option<Stmt>)
        requires
            old(self).wf(),
        ensures
            final(self).wf(),
            final(self).tokens() == old(self).tokens(),
            final(self).position() == next_at(old(self).tokens(), old(self).position()).pos,
            final(self).failed() == old(self).failed() + next_at(
                old(self).tokens(),
                old(self).position(),
            ).failures,
            match next_at(old(self).tokens(), old(self).position()).found {
                Some(statement) => res matches Some(stmt) && stmt@ == statement,
                None => res is None,
            },
            res is Some ==> old(self).position() < final(self).position(),
            old(self).position() <= final(self).position(),
    {
        let ghost ts = self.tokens();
        let ghost first = self.pos as int;
        let ghost before = self.failed();
        loop
            invariant
                self.wf(),
                self.tokens() == ts,
                ts == old(self).tokens(),
                first == old(self).pos,
                before == old(self).failed(),
                first <= self.pos,
                next_at(ts, first).found == next_at(ts, self.pos as int).found,
                next_at(ts, first).pos == next_at(ts, self.pos as int).pos,
                before + next_at(ts, first).failures == self.failed() + next_at(
                    ts,
                    self.pos as int,
                ).failures,
            decreases self.tokens.len() - self.pos,
        {
            let ghost start = self.pos as int;
            let ghost recorded = self.failed();
            let line: Option<usize> = match self.peek() {
                Some(token) => Some(token.line),
                None => None,
            };
            match self.statement() {
                Ok(stmt) => {
                    assert(self.failed() + next_at(ts, start).failures =~= self.failed());
                    return Some(stmt);
                },
                Err(error) => {
                    match line {
                        Some(line) => {
                            self.failures.push(ParseFailure { line, error });
                            assert(self.failed() =~= recorded + failure_at(ts, start, error@));
                        },
                        None => {
                            assert(self.failed() =~= recorded + failure_at(ts, start, error@));
                        },
                    }
                    if self.is_at_end() {
                        return None;
                    }
                    self.synchronize();
                    assert(self.failed() + next_at(ts, self.pos as int).failures =~= recorded
                        + next_at(ts, start).failures);
                },
            }
        }
    }

    /// Hands out the statements that are left.
    pub fn collect(&mut self) -> (statements: Vec<Stmt>)
        requires
            old(self).wf(),
        ensures
            final(self).wf(),
            final(self).tokens() == old(self).tokens(),
            stmt_views(statements@) == old(self).remaining(),
            final(self).failed() == old(self).failed() + parse_from(
                old(self).tokens(),
                old(self).position(),
            ).failures,
            final(self).position() == parse_from(old(self).tokens(), old(self).position()).stop,
    {
        let ghost ts = self.tokens();
        let ghost first = self.pos as int;
        let ghost before = self.failed();
        let mut statements: Vec<Stmt> = Vec::new();
        let mut done = false;
        while !done
            invariant
                self.wf(),
                self.tokens() == ts,
                ts == old(self).tokens(),
                first == old(self).pos,
                before == old(self).failed(),
                ts.len() == self.tokens@.len(),
                parse_from(ts, first).statements == stmt_views(statements@) + if done {
                    Seq::<StmtView>::empty()
                } else {
                    parse_from(ts, self.pos as int).statements
                },
                before + parse_from(ts, first).failures == self.failed() + if done {
                    Seq::<FailureView>::empty()
                } else {
                    parse_from(ts, self.pos as int).failures
                },
                parse_from(ts, first).stop == if done {
                    self.pos as int
                } else {
                    parse_from(ts, self.pos as int).stop
                },
            decreases
                    ts.len() - self.pos + if done {
                        0int
                    } else {
                        1int
                    },
        {
            let ghost found = stmt_views(statements@);
            let ghost recorded = self.failed();
            let ghost start = self.pos as int;
            let next = self.next();
            assert(self.tokens().len() == self.tokens@.len());
            match next {
                Some(stmt) => {
                    statements.push(stmt);
                    assert(stmt_views(statements@) =~= found + seq![stmt@]);
                    assert(parse_from(ts, first).statements =~= stmt_views(statements@)
                        + parse_from(ts, self.pos as int).statements);
                    assert(before + parse_from(ts, first).failures =~= self.failed() + parse_from(
                        ts,
                        self.pos as int,
                    ).failures);
                },
                None => {
                    done = true;
                    assert(parse_from(ts, first).statements =~= stmt_views(statements@));
                    assert(before + parse_from(ts, first).failures =~= self.failed());
                },
            }
        }
        assert(parse_from(ts, first).statements =~= stmt_views(statements@));
        assert(before + parse_from(ts, first).failures =~= self.failed());
        statements
    }

    /// The records of the statements that did not parse, oldest first.
    pub fn failures(&self) -> (failures: &Vec<ParseFailure>)
        ensures
            failure_views(failures@) == self.failed(),
    {
        &self.failures
    }

    /// Shows, as a list, the statements that the parser has yet to hand out.
    pub fn to_string(&self) -> (s: String)
        requires
            self.wf(),
        ensures
            s@ == bracketed(stmt_texts(self.remaining())),
    {
        let mut rest = Parser {
            tokens: copy_tokens(&self.tokens),
            pos: self.pos,
            failures: Vec::new(),
        };
        assert(rest.tokens().len() == self.tokens().len());
        let statements = rest.collect();
        render_statements(&statements)
    }
}

} // verus!
