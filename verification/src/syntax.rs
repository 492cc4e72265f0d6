//! The syntax trees of simpIL: expressions, which evaluate to values, and
//! statements, which act.

use crate::text::{ascii_chars, bracketed, decimal_digits, decimal_string, join_comma};
use crate::tokens::{Token, TokenView};
use vstd::prelude::*;

verus! {

/// Expressions evaluate to values.
#[derive(Debug)]
pub enum Expr {
    /// The value of the register whose address the operand gives.
    Load(Box<Expr>),
    /// A binary operation, with the token of its operator.
    Binary(Box<Expr>, Token, Box<Expr>),
    /// A unary operation, with the token of its operator.
    Unary(Token, Box<Expr>),
    /// A variable.
    Var(String),
    /// A value read from the named external source.
    GetInput(String),
    /// A value. All simpIL values are 32-bit unsigned integers.
    Val(u32),
}

/// The mathematical value of an [`Expr`].
pub ghost enum ExprView {
    Load(Box<ExprView>),
    Binary(Box<ExprView>, TokenView, Box<ExprView>),
    Unary(TokenView, Box<ExprView>),
    Var(Seq<char>),
    GetInput(Seq<char>),
    Val(u32),
}

impl ExprView {
    /// The text that shows this expression.
    pub open spec fn render(self) -> Seq<char>
        decreases self,
    {
        match self {
            ExprView::Load(register) => "Load("@ + register.render() + ")"@,
            ExprView::Binary(left, operator, right) => "("@ + left.render() + ", "@
                + operator.token_type.render() + ", "@ + right.render() + ")"@,
            ExprView::Unary(operator, operand) => "Unary("@ + operator.token_type.render() + ", "@
                + operand.render() + ")"@,
            ExprView::Var(name) => name,
            ExprView::GetInput(source) => "GetInput("@ + source + ")"@,
            ExprView::Val(value) => ascii_chars(decimal_digits(value as nat)),
        }
    }
}

impl ExprView {
    /// True if evaluating this expression may read the external input.
    pub open spec fn reads_input(self) -> bool
        decreases self,
    {
        match self {
            ExprView::Load(register) => register.reads_input(),
            ExprView::Binary(left, _, right) => left.reads_input() || right.reads_input(),
            ExprView::Unary(_, operand) => operand.reads_input(),
            ExprView::Var(_) => false,
            ExprView::GetInput(_) => true,
            ExprView::Val(_) => false,
        }
    }
}

impl View for Expr {
    type V = ExprView;

    open spec fn view(&self) -> ExprView
        decreases self,
    {
        match self {
            Expr::Load(register) => ExprView::Load(Box::new((**register).view())),
            Expr::Binary(left, operator, right) => ExprView::Binary(
                Box::new((**left).view()),
                operator@,
                Box::new((**right).view()),
            ),
            Expr::Unary(operator, operand) => ExprView::Unary(operator@, Box::new((**operand).view())),
            Expr::Var(name) => ExprView::Var(name@),
            Expr::GetInput(source) => ExprView::GetInput(source@),
            Expr::Val(value) => ExprView::Val(*value),
        }
    }
}

impl Clone for Expr {
    fn clone(&self) -> (res: Self)
        ensures
            res@ == self@,
        decreases self,
    {
        match self {
            Expr::Load(register) => Expr::Load(Box::new((**register).clone())),
            Expr::Binary(left, operator, right) => Expr::Binary(
                Box::new((**left).clone()),
                operator.clone(),
                Box::new((**right).clone()),
            ),
            Expr::Unary(operator, operand) => Expr::Unary(
                operator.clone(),
                Box::new((**operand).clone()),
            ),
            Expr::Var(name) => Expr::Var(name.clone()),
            Expr::GetInput(source) => Expr::GetInput(source.clone()),
            Expr::Val(value) => Expr::Val(*value),
        }
    }
}

impl Expr {
    /// True if evaluating this expression may read the external input.
    pub fn reads_input(&self) -> (res: bool)
        ensures
            res == self@.reads_input(),
        decreases self,
    {
        match self {
            Expr::Load(register) => register.reads_input(),
            Expr::Binary(left, _, right) => left.reads_input() || right.reads_input(),
            Expr::Unary(_, operand) => operand.reads_input(),
            Expr::Var(_) => false,
            Expr::GetInput(_) => true,
            Expr::Val(_) => false,
        }
    }

    /// Shows the expression as text.
    pub fn to_string(&self) -> (s: String)
        ensures
            s@ == self@.render(),
        decreases self,
    {
        match self {
            Expr::Load(register) => {
                let mut s = String::from_str("Load(");
                s.append(register.to_string().as_str());
                s.append(")");
                s
            },
            Expr::Binary(left, operator, right) => {
                let mut s = String::from_str("(");
                s.append(left.to_string().as_str());
                s.append(", ");
                s.append(operator.to_string().as_str());
                s.append(", ");
                s.append(right.to_string().as_str());
                s.append(")");
                s
            },
            Expr::Unary(operator, operand) => {
                let mut s = String::from_str("Unary(");
                s.append(operator.to_string().as_str());
                s.append(", ");
                s.append(operand.to_string().as_str());
                s.append(")");
                s
            },
            Expr::Var(name) => name.clone(),
            Expr::GetInput(source) => {
                let mut s = String::from_str("GetInput(");
                s.append(source.as_str());
                s.append(")");
                s
            },
            Expr::Val(value) => decimal_string(*value),
        }
    }
}

/// Statements act on the state of a run.
#[derive(Debug)]
pub enum Stmt {
    /// Assign a value to a variable, named by a token.
    Assignment(Token, Box<Expr>),
    /// Store a value in a register: the address, then the value.
    Store(Box<Expr>, Box<Expr>),
    /// Resume execution at the statement whose index the operand gives.
    Goto(Box<Expr>),
    /// Stop the run unless the operand is 1.
    Assert(Box<Expr>),
    /// Choose between two operands by a condition: 1 for the first, 0 for
    /// the second.
    IfThenElse(Box<Expr>, Box<Expr>, Box<Expr>),
}

/// The mathematical value of a [`Stmt`].
pub ghost enum StmtView {
    Assignment(TokenView, ExprView),
    Store(ExprView, ExprView),
    Goto(ExprView),
    Assert(ExprView),
    IfThenElse(ExprView, ExprView, ExprView),
}

impl StmtView {
    /// The text that shows this statement.
    pub open spec fn render(self) -> Seq<char> {
        match self {
            StmtView::Assignment(name, value) => name.token_type.render() + " := "@
                + value.render(),
            StmtView::Store(address, value) => "Store("@ + address.render() + ", "@
                + value.render() + ")"@,
            StmtView::Goto(target) => "Goto "@ + target.render(),
            StmtView::Assert(condition) => "Assert "@ + condition.render(),
            StmtView::IfThenElse(condition, first, second) => "If "@ + condition.render()
                + " Then Goto "@ + first.render() + " Else Goto "@ + second.render(),
        }
    }
}

impl StmtView {
    /// True if executing this statement may read the external input.
    pub open spec fn reads_input(self) -> bool {
        match self {
            StmtView::Assignment(_, value) => value.reads_input(),
            StmtView::Store(address, value) => address.reads_input() || value.reads_input(),
            StmtView::Goto(target) => target.reads_input(),
            StmtView::Assert(condition) => condition.reads_input(),
            StmtView::IfThenElse(condition, first, second) => condition.reads_input()
                || first.reads_input() || second.reads_input(),
        }
    }
}

impl View for Stmt {
    type V = StmtView;

    open spec fn view(&self) -> StmtView {
        match self {
            Stmt::Assignment(name, value) => StmtView::Assignment(name@, (**value).view()),
            Stmt::Store(address, value) => StmtView::Store((**address).view(), (**value).view()),
            Stmt::Goto(target) => StmtView::Goto((**target).view()),
            Stmt::Assert(condition) => StmtView::Assert((**condition).view()),
            Stmt::IfThenElse(condition, first, second) => StmtView::IfThenElse(
                (**condition).view(),
                (**first).view(),
                (**second).view(),
            ),
        }
    }
}

impl Clone for Stmt {
    fn clone(&self) -> (res: Self)
        ensures
            res@ == self@,
    {
        match self {
            Stmt::Assignment(name, value) => Stmt::Assignment(
                name.clone(),
                Box::new((**value).clone()),
            ),
            Stmt::Store(address, value) => Stmt::Store(
                Box::new((**address).clone()),
                Box::new((**value).clone()),
            ),
            Stmt::Goto(target) => Stmt::Goto(Box::new((**target).clone())),
            Stmt::Assert(condition) => Stmt::Assert(Box::new((**condition).clone())),
            Stmt::IfThenElse(condition, first, second) => Stmt::IfThenElse(
                Box::new((**condition).clone()),
                Box::new((**first).clone()),
                Box::new((**second).clone()),
            ),
        }
    }
}

impl Stmt {
    /// True if executing this statement may read the external input.
    pub fn reads_input(&self) -> (res: bool)
        ensures
            res == self@.reads_input(),
    {
        match self {
            Stmt::Assignment(_, value) => value.reads_input(),
            Stmt::Store(address, value) => address.reads_input() || value.reads_input(),
            Stmt::Goto(target) => target.reads_input(),
            Stmt::Assert(condition) => condition.reads_input(),
            Stmt::IfThenElse(condition, first, second) => condition.reads_input()
                || first.reads_input() || second.reads_input(),
        }
    }

    /// Shows the statement as text.
    pub fn to_string(&self) -> (s: String)
        ensures
            s@ == self@.render(),
    {
        match self {
            Stmt::Assignment(name, value) => {
                let mut s = name.to_string();
                s.append(" := ");
                s.append(value.to_string().as_str());
                s
            },
            Stmt::Store(address, value) => {
                let mut s = String::from_str("Store(");
                s.append(address.to_string().as_str());
                s.append(", ");
                s.append(value.to_string().as_str());
                s.append(")");
                s
            },
            Stmt::Goto(target) => {
                let mut s = String::from_str("Goto ");
                s.append(target.to_string().as_str());
                s
            },
            Stmt::Assert(condition) => {
                let mut s = String::from_str("Assert ");
                s.append(condition.to_string().as_str());
                s
            },
            Stmt::IfThenElse(condition, first, second) => {
                let mut s = String::from_str("If ");
                s.append(condition.to_string().as_str());
                s.append(" Then Goto ");
                s.append(first.to_string().as_str());
                s.append(" Else Goto ");
                s.append(second.to_string().as_str());
                s
            },
        }
    }
}

/// The values of a sequence of statements, in order.
pub open spec fn stmt_views(statements: Seq<Stmt>) -> Seq<StmtView> {
    Seq::new(statements.len(), |i: int| statements[i]@)
}

/// The texts that show the statements, in order.
pub open spec fn stmt_texts(statements: Seq<StmtView>) -> Seq<Seq<char>> {
    Seq::new(statements.len(), |i: int| statements[i].render())
}

/// Shows the statements as a list.
pub fn render_statements(statements: &Vec<Stmt>) -> (s: String)
    ensures
        s@ == bracketed(stmt_texts(stmt_views(statements@))),
{
    let ghost texts = stmt_texts(stmt_views(statements@));
    let mut s = String::from_str("[");
    let mut i: usize = 0;
    assert(texts.take(0) =~= Seq::<Seq<char>>::empty());
    while i < statements.len()
        invariant
            i <= statements.len(),
            texts == stmt_texts(stmt_views(statements@)),
            s@ == "["@ + join_comma(texts.take(i as int)),
        decreases statements.len() - i,
    {
        assert(texts.take(i + 1).drop_last() =~= texts.take(i as int));
        assert(texts.take(i + 1).last() == statements@[i as int]@.render());
        if i > 0 {
            s.append(",");
            s.append(statements[i].to_string().as_str());
            assert(s@ =~= "["@ + join_comma(texts.take(i + 1)));
        } else {
            s.append(statements[i].to_string().as_str());
            assert(s@ =~= "["@ + join_comma(texts.take(i + 1)));
        }
        i = i + 1;
    }
    assert(texts.take(i as int) =~= texts);
    s.append("]");
    s
}

} // verus!
