//! What simpIL programs mean: the value of an expression, the effect of a
//! statement, and the course of a run, over a mathematical state.

use crate::syntax::{ExprView, StmtView};
use crate::text::parse_unsigned;
use crate::tokens::TokenKind;
use vstd::prelude::*;

verus! {

/// Why an expression has no value, or a statement no effect.
#[derive(Debug, Clone, Copy, PartialEq, Eq)]
pub enum RuntimeError {
    /// A variable was read that no assignment has bound.
    UndefinedVariable,
    /// A register was loaded that no store has written.
    UndefinedRegister,
    /// The external input is not an unsigned decimal number of 32 bits.
    MalformedInput,
    /// A division by zero.
    DivisionByZero,
    /// A sum or a product above the largest value, or a difference below zero.
    Overflow,
    /// A jump beyond the end of the program.
    JumpOutOfRange,
    /// A binary operation whose token is none of `+ - * /`.
    InvalidOperator,
}

/// Why a statement yields no value.
#[derive(Debug, Clone, Copy, PartialEq, Eq)]
pub enum Halt {
    /// An assertion did not hold: the run is over.
    AssertionFailed,
    /// The statement failed.
    Error(RuntimeError),
}

/// How a run ended.
#[derive(Debug, Clone, Copy, PartialEq, Eq)]
pub enum Outcome {
    /// The program counter reached the end of the program.
    Finished,
    /// An assertion did not hold.
    AssertionFailed,
    /// A statement failed.
    Failed(RuntimeError),
    /// The allowed number of statements was executed, and the run is not over.
    OutOfSteps,
}

/// The state of a run.
pub ghost struct State {
    /// The registers that have been written, by address.
    pub registers: Map<u32, u32>,
    /// The variables that have been bound, by name.
    pub vars: Map<Seq<char>, u32>,
    /// The index of the next statement.
    pub pc: int,
    /// The bytes that the external input still holds.
    pub input: Seq<u8>,
}

/// The outcome of evaluating an expression: its value, or why it has none,
/// and what is left of the external input.
pub ghost struct Evaluated {
    pub value: Result<u32, RuntimeError>,
    pub input: Seq<u8>,
}

/// The outcome of executing a statement: its value, or why it has none, and
/// the state it leaves.
pub ghost struct Executed {
    pub result: Result<u32, Halt>,
    pub state: State,
}

/// The course of a run: the values of the statements executed, in order, how
/// the run ended, and the state it left.
pub ghost struct Trace {
    pub values: Seq<u32>,
    pub outcome: Outcome,
    pub state: State,
}

/// The state at the start of a run with the given external input.
pub open spec fn initial_state(input: Seq<u8>) -> State {
    State { registers: Map::empty(), vars: Map::empty(), pc: 0, input }
}

/// The result of a binary operation. Sums, differences and products that
/// leave the range of 32 bits fail, as does a division by zero.
pub open spec fn apply(operator: TokenKind, left: u32, right: u32) -> Result<u32, RuntimeError> {
    match operator {
        TokenKind::Plus => if left + right <= u32::MAX {
            Ok((left + right) as u32)
        } else {
            Err(RuntimeError::Overflow)
        },
        TokenKind::Minus => if right <= left {
            Ok((left - right) as u32)
        } else {
            Err(RuntimeError::Overflow)
        },
        TokenKind::Star => if left * right <= u32::MAX {
            Ok((left * right) as u32)
        } else {
            Err(RuntimeError::Overflow)
        },
        TokenKind::Slash => if right != 0 {
            Ok((left / right) as u32)
        } else {
            Err(RuntimeError::DivisionByZero)
        },
        _ => Err(RuntimeError::InvalidOperator),
    }
}

/// The number that the external input holds, read as a whole.
pub open spec fn read_input(input: Seq<u8>) -> Result<u32, RuntimeError> {
    match parse_unsigned(input) {
        Some(value) => Ok(value),
        None => Err(RuntimeError::MalformedInput),
    }
}

/// The value of an expression in a state. Operands are evaluated from left
/// to right, and the first failure is the failure of the whole. Reading the
/// external input uses it up. A unary operation has the value of its operand.
pub open spec fn eval(e: ExprView, st: State) -> Evaluated
    decreases e,
{
    match e {
        ExprView::Val(value) => Evaluated { value: Ok(value), input: st.input },
        ExprView::Var(name) => Evaluated {
            value: if st.vars.contains_key(name) {
                Ok(st.vars[name])
            } else {
                Err(RuntimeError::UndefinedVariable)
            },
            input: st.input,
        },
        ExprView::GetInput(_) => Evaluated { value: read_input(st.input), input: Seq::empty() },
        ExprView::Load(address) => {
            let a = eval(*address, st);
            match a.value {
                Ok(at) => Evaluated {
                    value: if st.registers.contains_key(at) {
                        Ok(st.registers[at])
                    } else {
                        Err(RuntimeError::UndefinedRegister)
                    },
                    input: a.input,
                },
                Err(_) => a,
            }
        },
        ExprView::Unary(_, operand) => eval(*operand, st),
        ExprView::Binary(left, operator, right) => {
            let l = eval(*left, st);
            match l.value {
                Ok(x) => {
                    let r = eval(*right, State { input: l.input, ..st });
                    match r.value {
                        Ok(y) => Evaluated {
                            value: apply(operator.token_type, x, y),
                            input: r.input,
                        },
                        Err(_) => r,
                    }
                },
                Err(_) => l,
            }
        },
    }
}

/// The state `st` with the external input as the evaluation `e` left it.
pub open spec fn after(e: Evaluated, st: State) -> State {
    State { input: e.input, ..st }
}

/// The failure of a statement with the given error, in the given state.
pub open spec fn failed(error: RuntimeError, state: State) -> Executed {
    Executed { result: Err(Halt::Error(error)), state }
}

/// The state `st` with the program counter moved on by one.
pub open spec fn entered(st: State) -> State {
    State { pc: st.pc + 1, ..st }
}

/// The effect of a statement in a state, in a program of `len` statements.
/// The program counter moves on by one before anything else happens.
pub open spec fn execute(s: StmtView, st: State, len: int) -> Executed {
    let st = entered(st);
    match s {
        StmtView::Assignment(name, value) => {
            let v = eval(value, st);
            match v.value {
                Ok(x) => Executed {
                    result: Ok(x),
                    state: State { vars: st.vars.insert(name.lexeme, x), ..after(v, st) },
                },
                Err(error) => failed(error, after(v, st)),
            }
        },
        StmtView::Store(address, value) => {
            let a = eval(address, st);
            match a.value {
                Ok(at) => {
                    let v = eval(value, after(a, st));
                    match v.value {
                        Ok(x) => Executed {
                            result: Ok(x),
                            state: State {
                                registers: st.registers.insert(at, x),
                                ..after(v, st)
                            },
                        },
                        Err(error) => failed(error, after(v, st)),
                    }
                },
                Err(error) => failed(error, after(a, st)),
            }
        },
        StmtView::Goto(target) => {
            let t = eval(target, st);
            match t.value {
                Ok(index) => if index <= len {
                    Executed { result: Ok(index), state: State { pc: index as int, ..after(t, st) } }
                } else {
                    failed(RuntimeError::JumpOutOfRange, after(t, st))
                },
                Err(error) => failed(error, after(t, st)),
            }
        },
        StmtView::Assert(condition) => {
            let c = eval(condition, st);
            match c.value {
                Ok(x) => Executed {
                    result: if x == 1 {
                        Ok(1u32)
                    } else {
                        Err(Halt::AssertionFailed)
                    },
                    state: after(c, st),
                },
                Err(error) => failed(error, after(c, st)),
            }
        },
        StmtView::IfThenElse(condition, first, second) => {
            let c = eval(condition, st);
            match c.value {
                Ok(x) => if x == 1 || x == 0 {
                    let branch = eval(
                        if x == 1 {
                            first
                        } else {
                            second
                        },
                        after(c, st),
                    );
                    match branch.value {
                        Ok(y) => Executed { result: Ok(y), state: after(branch, st) },
                        Err(error) => failed(error, after(branch, st)),
                    }
                } else {
                    Executed { result: Ok(0u32), state: after(c, st) }
                },
                Err(error) => failed(error, after(c, st)),
            }
        },
    }
}

/// The course of a run of at most `steps` statements from the given state.
pub open spec fn run(program: Seq<StmtView>, st: State, steps: nat) -> Trace
    decreases steps,
{
    if !(0 <= st.pc < program.len()) {
        Trace { values: Seq::empty(), outcome: Outcome::Finished, state: st }
    } else if steps == 0 {
        Trace { values: Seq::empty(), outcome: Outcome::OutOfSteps, state: st }
    } else {
        let done = execute(program[st.pc], st, program.len() as int);
        match done.result {
            Ok(value) => {
                let rest = run(program, done.state, (steps - 1) as nat);
                Trace { values: seq![value] + rest.values, ..rest }
            },
            Err(Halt::AssertionFailed) => Trace {
                values: Seq::empty(),
                outcome: Outcome::AssertionFailed,
                state: done.state,
            },
            Err(Halt::Error(error)) => Trace {
                values: Seq::empty(),
                outcome: Outcome::Failed(error),
                state: done.state,
            },
        }
    }
}

} // verus!
