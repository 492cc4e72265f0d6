//! The grammar of simpIL, as functions from a token sequence and a position
//! to what is parsed there and the position reached.

use crate::syntax::{ExprView, StmtView};
use crate::tokens::{TokenKind, TokenView};
use vstd::prelude::*;

verus! {

/// The mathematical value of a parse error.
pub ghost enum ParseErrorView {
    /// No statement begins here; with the reason.
    Stmt(Seq<char>),
    /// No expression begins here; with the reason.
    Expr(Seq<char>),
    /// A token of the given kind was required and is absent.
    Expected(TokenKind),
}

/// What was parsed, or why nothing was, and the position reached.
pub ghost struct Parsed<T> {
    pub result: Result<T, ParseErrorView>,
    pub pos: int,
}

/// The failure of `p`, as the failure of a larger parse.
pub open spec fn fail<T, U>(p: Parsed<T>) -> Parsed<U> {
    Parsed { result: Err(p.result->Err_0), pos: p.pos }
}

/// The kind of the token at `pos`, if there is one.
pub open spec fn kind_at(ts: Seq<TokenView>, pos: int) -> Option<TokenKind> {
    if 0 <= pos < ts.len() {
        Some(ts[pos].token_type)
    } else {
        None
    }
}

/// Requires a token of the given kind at `pos`, and passes it.
pub open spec fn expect_at(ts: Seq<TokenView>, pos: int, kind: TokenKind) -> Parsed<()> {
    if kind_at(ts, pos) == Some(kind) {
        Parsed { result: Ok(()), pos: pos + 1 }
    } else {
        Parsed { result: Err(ParseErrorView::Expected(kind)), pos }
    }
}

/// The left and right binding powers of a binary operator.
pub open spec fn binding_power(kind: TokenKind) -> Option<(u8, u8)> {
    match kind {
        TokenKind::Plus | TokenKind::Minus => Some((1u8, 2u8)),
        TokenKind::Star | TokenKind::Slash => Some((3u8, 4u8)),
        _ => None,
    }
}

/// A chain of binary operations that begins at `pos` with a value or a name
/// and takes in the operators whose left binding power is at least `min`.
pub open spec fn ops_at(ts: Seq<TokenView>, pos: int, min: u8) -> Parsed<ExprView>
    decreases ts.len() - pos, 1int,
{
    match kind_at(ts, pos) {
        Some(TokenKind::Value(value)) => ops_rest(ts, pos + 1, ExprView::Val(value), min),
        Some(TokenKind::Identifier(name)) => ops_rest(ts, pos + 1, ExprView::Var(name), min),
        Some(_) => Parsed {
            result: Err(ParseErrorView::Expr("Expected value or identifier."@)),
            pos: pos + 1,
        },
        None => Parsed { result: Err(ParseErrorView::Expr("Expected value or identifier."@)), pos },
    }
}

/// The rest of a chain of binary operations whose left operand, `left`, ends
/// before `pos`.
pub open spec fn ops_rest(ts: Seq<TokenView>, pos: int, left: ExprView, min: u8) -> Parsed<
    ExprView,
>
    decreases ts.len() - pos, 0int,
{
    match kind_at(ts, pos) {
        Some(kind) => match binding_power(kind) {
            Some((left_power, right_power)) => if left_power < min {
                Parsed { result: Ok(left), pos }
            } else {
                let right = ops_at(ts, pos + 1, right_power);
                match right.result {
                    Ok(operand) => if pos < right.pos <= ts.len() {
                        ops_rest(
                            ts,
                            right.pos,
                            ExprView::Binary(Box::new(left), ts[pos], Box::new(operand)),
                            min,
                        )
                    } else {
                        right
                    },
                    Err(_) => right,
                }
            },
            None => Parsed { result: Ok(left), pos },
        },
        None => Parsed { result: Ok(left), pos },
    }
}

/// The expression that begins at `pos`.
pub open spec fn expression_at(ts: Seq<TokenView>, pos: int) -> Parsed<ExprView>
    decreases ts.len() - pos,
{
    match kind_at(ts, pos) {
        None => Parsed { result: Err(ParseErrorView::Expr("Expected token, found EOF."@)), pos },
        Some(TokenKind::Load) => {
            let open = expect_at(ts, pos + 1, TokenKind::LeftParen);
            if open.result is Err {
                fail(open)
            } else {
                let inner = expression_at(ts, open.pos);
                if inner.result is Err {
                    inner
                } else {
                    let close = expect_at(ts, inner.pos, TokenKind::RightParen);
                    if close.result is Err {
                        fail(close)
                    } else {
                        Parsed {
                            result: Ok(ExprView::Load(Box::new(inner.result->Ok_0))),
                            pos: close.pos,
                        }
                    }
                }
            }
        },
        Some(TokenKind::GetInput) => Parsed {
            result: Ok(ExprView::GetInput("stdin"@)),
            pos: pos + 1,
        },
        Some(TokenKind::Identifier(_)) | Some(TokenKind::Value(_)) => ops_at(ts, pos, 0),
        Some(TokenKind::Plus) | Some(TokenKind::Minus) => {
            let operand = expression_at(ts, pos + 1);
            if operand.result is Err {
                operand
            } else {
                Parsed {
                    result: Ok(ExprView::Unary(ts[pos], Box::new(operand.result->Ok_0))),
                    pos: operand.pos,
                }
            }
        },
        Some(_) => Parsed {
            result: Err(ParseErrorView::Expr("Expected Load, GetInput, Identifier or Value."@)),
            pos,
        },
    }
}

/// The rest of an assignment to the name `name`, from `pos` on.
pub open spec fn assign_at(ts: Seq<TokenView>, pos: int, name: TokenView) -> Parsed<StmtView> {
    let sign = expect_at(ts, pos, TokenKind::Assign);
    if sign.result is Err {
        fail(sign)
    } else {
        let value = expression_at(ts, sign.pos);
        if value.result is Err {
            fail(value)
        } else {
            Parsed { result: Ok(StmtView::Assignment(name, value.result->Ok_0)), pos: value.pos }
        }
    }
}

/// The rest of a store statement, from `pos` on.
pub open spec fn store_at(ts: Seq<TokenView>, pos: int) -> Parsed<StmtView> {
    let open = expect_at(ts, pos, TokenKind::LeftParen);
    if open.result is Err {
        fail(open)
    } else {
        let address = expression_at(ts, open.pos);
        if address.result is Err {
            fail(address)
        } else {
            let comma = expect_at(ts, address.pos, TokenKind::Comma);
            if comma.result is Err {
                fail(comma)
            } else {
                let value = expression_at(ts, comma.pos);
                if value.result is Err {
                    fail(value)
                } else {
                    let close = expect_at(ts, value.pos, TokenKind::RightParen);
                    if close.result is Err {
                        fail(close)
                    } else {
                        Parsed {
                            result: Ok(
                                StmtView::Store(address.result->Ok_0, value.result->Ok_0),
                            ),
                            pos: close.pos,
                        }
                    }
                }
            }
        }
    }
}

/// The rest of a jump, from `pos` on.
pub open spec fn goto_at(ts: Seq<TokenView>, pos: int) -> Parsed<StmtView> {
    let target = expression_at(ts, pos);
    if target.result is Err {
        fail(target)
    } else {
        Parsed { result: Ok(StmtView::Goto(target.result->Ok_0)), pos: target.pos }
    }
}

/// The rest of an assertion, from `pos` on.
pub open spec fn assert_at(ts: Seq<TokenView>, pos: int) -> Parsed<StmtView> {
    let condition = expression_at(ts, pos);
    if condition.result is Err {
        fail(condition)
    } else {
        Parsed { result: Ok(StmtView::Assert(condition.result->Ok_0)), pos: condition.pos }
    }
}

/// One branch of a conditional, from `pos` on: the given keyword, the keyword
/// of a jump, and an expression.
pub open spec fn branch_at(ts: Seq<TokenView>, pos: int, keyword: TokenKind) -> Parsed<ExprView> {
    let word = expect_at(ts, pos, keyword);
    if word.result is Err {
        fail(word)
    } else {
        let jump = expect_at(ts, word.pos, TokenKind::Goto);
        if jump.result is Err {
            fail(jump)
        } else {
            expression_at(ts, jump.pos)
        }
    }
}

/// The rest of a conditional, from `pos` on.
pub open spec fn if_at(ts: Seq<TokenView>, pos: int) -> Parsed<StmtView> {
    let condition = expression_at(ts, pos);
    if condition.result is Err {
        fail(condition)
    } else {
        let first = branch_at(ts, condition.pos, TokenKind::Then);
        if first.result is Err {
            fail(first)
        } else {
            let second = branch_at(ts, first.pos, TokenKind::Else);
            if second.result is Err {
                fail(second)
            } else {
                Parsed {
                    result: Ok(
                        StmtView::IfThenElse(
                            condition.result->Ok_0,
                            first.result->Ok_0,
                            second.result->Ok_0,
                        ),
                    ),
                    pos: second.pos,
                }
            }
        }
    }
}

/// The statement that begins at `pos`. Its first token is passed whatever
/// it is.
pub open spec fn statement_at(ts: Seq<TokenView>, pos: int) -> Parsed<StmtView> {
    match kind_at(ts, pos) {
        None => Parsed { result: Err(ParseErrorView::Stmt("Expected token, found EOF."@)), pos },
        Some(TokenKind::Identifier(_)) => assign_at(ts, pos + 1, ts[pos]),
        Some(TokenKind::Store) => store_at(ts, pos + 1),
        Some(TokenKind::Goto) => goto_at(ts, pos + 1),
        Some(TokenKind::Assert) => assert_at(ts, pos + 1),
        Some(TokenKind::If) => if_at(ts, pos + 1),
        Some(_) => Parsed {
            result: Err(ParseErrorView::Stmt("Expected statement."@)),
            pos: pos + 1,
        },
    }
}

/// The first position from `pos` on at which a statement may begin, or the
/// end of the tokens.
pub open spec fn synchronized(ts: Seq<TokenView>, pos: int) -> int
    decreases ts.len() - pos,
{
    match kind_at(ts, pos) {
        Some(kind) => if kind.starts_statement() {
            pos
        } else {
            synchronized(ts, pos + 1)
        },
        None => pos,
    }
}

/// The mathematical value of the record of a statement that did not parse.
pub ghost struct FailureView {
    /// The line of the token with which the statement began.
    pub line: usize,
    /// Why it did not parse.
    pub error: ParseErrorView,
}

/// The outcome of one pull on the parser: the statement found, if any, the
/// position reached, and the records of the statements that did not parse.
pub ghost struct Pulled {
    pub found: Option<StmtView>,
    pub pos: int,
    pub failures: Seq<FailureView>,
}

/// The record of the failure `error` of a statement begun at `pos`: none at
/// the end of the tokens, where no statement was begun.
pub open spec fn failure_at(ts: Seq<TokenView>, pos: int, error: ParseErrorView) -> Seq<
    FailureView,
> {
    if 0 <= pos < ts.len() {
        seq![FailureView { line: ts[pos].line, error }]
    } else {
        Seq::empty()
    }
}

/// One pull on the parser at `pos`: the first statement that parses, where
/// each failure is recorded and followed by a search for the next place at
/// which a statement may begin; nothing once the tokens are used up.
pub open spec fn next_at(ts: Seq<TokenView>, pos: int) -> Pulled
    decreases ts.len() - pos,
{
    let p = statement_at(ts, pos);
    match p.result {
        Ok(statement) => Pulled { found: Some(statement), pos: p.pos, failures: Seq::empty() },
        Err(error) => {
            let resume = synchronized(ts, p.pos);
            if p.pos < ts.len() && pos < resume <= ts.len() {
                let rest = next_at(ts, resume);
                Pulled { failures: failure_at(ts, pos, error) + rest.failures, ..rest }
            } else {
                Pulled { found: None, pos: p.pos, failures: failure_at(ts, pos, error) }
            }
        },
    }
}

/// The outcome of pulling until a pull finds no statement: the statements
/// found and the records of those that did not parse.
pub ghost struct Parse {
    pub statements: Seq<StmtView>,
    pub failures: Seq<FailureView>,
    pub stop: int,
}

/// Repeated pulls from `pos` on, up to and including the first that finds no
/// statement.
pub open spec fn parse_from(ts: Seq<TokenView>, pos: int) -> Parse
    decreases ts.len() - pos,
{
    let p = next_at(ts, pos);
    match p.found {
        Some(statement) => if pos < p.pos <= ts.len() {
            let rest = parse_from(ts, p.pos);
            Parse {
                statements: seq![statement] + rest.statements,
                failures: p.failures + rest.failures,
                stop: rest.stop,
            }
        } else {
            Parse { statements: seq![statement], failures: p.failures, stop: p.pos }
        },
        None => Parse { statements: Seq::empty(), failures: p.failures, stop: p.pos },
    }
}

/// The statements of a whole token sequence.
pub open spec fn parse(ts: Seq<TokenView>) -> Seq<StmtView> {
    parse_from(ts, 0).statements
}

/// A chain of binary operations stays within the tokens, and one that
/// parses takes at least one token.
pub proof fn lemma_ops_bounds(ts: Seq<TokenView>, pos: int, min: u8)
    requires
        0 <= pos <= ts.len(),
    ensures
        pos <= ops_at(ts, pos, min).pos <= ts.len(),
        ops_at(ts, pos, min).result is Ok ==> pos < ops_at(ts, pos, min).pos,
    decreases ts.len() - pos, 1int,
{
    match kind_at(ts, pos) {
        Some(TokenKind::Value(value)) => lemma_ops_rest_bounds(
            ts,
            pos + 1,
            ExprView::Val(value),
            min,
        ),
        Some(TokenKind::Identifier(name)) => lemma_ops_rest_bounds(
            ts,
            pos + 1,
            ExprView::Var(name),
            min,
        ),
        _ => {},
    }
}

/// The rest of a chain of binary operations stays within the tokens.
pub proof fn lemma_ops_rest_bounds(ts: Seq<TokenView>, pos: int, left: ExprView, min: u8)
    requires
        0 <= pos <= ts.len(),
    ensures
        pos <= ops_rest(ts, pos, left, min).pos <= ts.len(),
    decreases ts.len() - pos, 0int,
{
    match kind_at(ts, pos) {
        Some(kind) => match binding_power(kind) {
            Some((left_power, right_power)) => {
                if left_power >= min {
                    lemma_ops_bounds(ts, pos + 1, right_power);
                    let right = ops_at(ts, pos + 1, right_power);
                    match right.result {
                        Ok(operand) => lemma_ops_rest_bounds(
                            ts,
                            right.pos,
                            ExprView::Binary(Box::new(left), ts[pos], Box::new(operand)),
                            min,
                        ),
                        Err(_) => {},
                    }
                }
            },
            None => {},
        },
        None => {},
    }
}

/// An expression stays within the tokens, and one that parses takes at
/// least one token.
pub proof fn lemma_expression_bounds(ts: Seq<TokenView>, pos: int)
    requires
        0 <= pos <= ts.len(),
    ensures
        pos <= expression_at(ts, pos).pos <= ts.len(),
        expression_at(ts, pos).result is Ok ==> pos < expression_at(ts, pos).pos,
    decreases ts.len() - pos,
{
    match kind_at(ts, pos) {
        Some(TokenKind::Load) => {
            let open = expect_at(ts, pos + 1, TokenKind::LeftParen);
            if open.result is Ok {
                lemma_expression_bounds(ts, open.pos);
            }
        },
        Some(TokenKind::Identifier(_)) | Some(TokenKind::Value(_)) => lemma_ops_bounds(ts, pos, 0),
        Some(TokenKind::Plus) | Some(TokenKind::Minus) => lemma_expression_bounds(ts, pos + 1),
        _ => {},
    }
}

/// One branch of a conditional stays within the tokens.
pub proof fn lemma_branch_bounds(ts: Seq<TokenView>, pos: int, keyword: TokenKind)
    requires
        0 <= pos <= ts.len(),
    ensures
        pos <= branch_at(ts, pos, keyword).pos <= ts.len(),
{
    let word = expect_at(ts, pos, keyword);
    if word.result is Ok {
        let jump = expect_at(ts, word.pos, TokenKind::Goto);
        if jump.result is Ok {
            lemma_expression_bounds(ts, jump.pos);
        }
    }
}

/// A statement stays within the tokens, and takes at least one token where
/// there is one.
pub proof fn lemma_statement_bounds(ts: Seq<TokenView>, pos: int)
    requires
        0 <= pos <= ts.len(),
    ensures
        pos <= statement_at(ts, pos).pos <= ts.len(),
        pos < ts.len() ==> pos < statement_at(ts, pos).pos,
{
    if pos < ts.len() {
        let p = pos + 1;
        match ts[pos].token_type {
            TokenKind::Identifier(_) => {
                let sign = expect_at(ts, p, TokenKind::Assign);
                if sign.result is Ok {
                    lemma_expression_bounds(ts, sign.pos);
                }
            },
            TokenKind::Store => {
                let open = expect_at(ts, p, TokenKind::LeftParen);
                if open.result is Ok {
                    lemma_expression_bounds(ts, open.pos);
                    let address = expression_at(ts, open.pos);
                    if address.result is Ok {
                        let comma = expect_at(ts, address.pos, TokenKind::Comma);
                        if comma.result is Ok {
                            lemma_expression_bounds(ts, comma.pos);
                        }
                    }
                }
            },
            TokenKind::Goto => lemma_expression_bounds(ts, p),
            TokenKind::Assert => lemma_expression_bounds(ts, p),
            TokenKind::If => {
                lemma_expression_bounds(ts, p);
                let condition = expression_at(ts, p);
                if condition.result is Ok {
                    lemma_branch_bounds(ts, condition.pos, TokenKind::Then);
                    let first = branch_at(ts, condition.pos, TokenKind::Then);
                    if first.result is Ok {
                        lemma_branch_bounds(ts, first.pos, TokenKind::Else);
                    }
                }
            },
            _ => {},
        }
    }
}

/// The search for the next place at which a statement may begin stays within
/// the tokens, and ends at their end or at a token with which a statement
/// begins.
pub proof fn lemma_synchronized_bounds(ts: Seq<TokenView>, pos: int)
    requires
        0 <= pos <= ts.len(),
    ensures
        pos <= synchronized(ts, pos) <= ts.len(),
        synchronized(ts, pos) < ts.len() ==> ts[synchronized(ts, pos)].token_type.starts_statement(),
        forall|i: int| pos <= i < synchronized(ts, pos) ==> !ts[i].token_type.starts_statement(),
    decreases ts.len() - pos,
{
    if pos < ts.len() && !ts[pos].token_type.starts_statement() {
        lemma_synchronized_bounds(ts, pos + 1);
    }
}

/// A pull stays within the tokens, and one that finds a statement moves
/// forward.
pub proof fn lemma_next_bounds(ts: Seq<TokenView>, pos: int)
    requires
        0 <= pos <= ts.len(),
    ensures
        pos <= next_at(ts, pos).pos <= ts.len(),
        next_at(ts, pos).found is Some ==> pos < next_at(ts, pos).pos,
        next_at(ts, pos).found is None ==> next_at(ts, pos).pos == ts.len(),
    decreases ts.len() - pos,
{
    lemma_statement_bounds(ts, pos);
    let p = statement_at(ts, pos);
    if p.result is Err {
        lemma_synchronized_bounds(ts, p.pos);
        if p.pos < ts.len() {
            lemma_next_bounds(ts, synchronized(ts, p.pos));
        }
    }
}

} // verus!
