//! The interpreter: executes a program under a program counter that jumps
//! may redirect.

use crate::bindings::Bindings;
use crate::semantics::{
    after, apply, eval, execute, initial_state, run, Halt, Outcome, RuntimeError, State,
};
use crate::syntax::{stmt_views, Expr, Stmt, StmtView};
use crate::text::parse_number;
use crate::tokens::TokenType;
use std::collections::HashMap;
use vstd::prelude::*;

verus! {

broadcast use vstd::std_specs::hash::group_hash_axioms;

/// What a run produced: the value of each statement executed, in order, and
/// how the run ended.
#[derive(Debug, Clone, PartialEq, Eq)]
pub struct Run {
    pub values: Vec<u32>,
    pub outcome: Outcome,
}

/// Executes a program, statement by statement.
pub struct Interpreter {
    /// The program.
    statements: Vec<Stmt>,
    /// The registers that have been written, by address.
    registers: HashMap<u32, u32>,
    /// The variables that have been bound.
    vars: Bindings,
    /// The index of the next statement.
    program_counter: usize,
    /// The bytes that the external input still holds.
    input: Vec<u8>,
}

/// Applies a binary operator to two values.
pub fn apply_operator(operator: &TokenType, left: u32, right: u32) -> (res: Result<
    u32,
    RuntimeError,
>)
    ensures
        res == apply(operator@, left, right),
{
    match operator {
        TokenType::Plus => {
            if left > u32::MAX - right {
                Err(RuntimeError::Overflow)
            } else {
                Ok(left + right)
            }
        },
        TokenType::Minus => {
            if right > left {
                Err(RuntimeError::Overflow)
            } else {
                Ok(left - right)
            }
        },
        TokenType::Star => {
            assert(left * right <= u32::MAX * u32::MAX) by (nonlinear_arith)
                requires
                    left <= u32::MAX,
                    right <= u32::MAX,
            ;
            let product: u64 = left as u64 * right as u64;
            if product > u32::MAX as u64 {
                Err(RuntimeError::Overflow)
            } else {
                Ok(product as u32)
            }
        },
        TokenType::Slash => {
            if right == 0 {
                Err(RuntimeError::DivisionByZero)
            } else {
                Ok(left / right)
            }
        },
        _ => Err(RuntimeError::InvalidOperator),
    }
}

impl Interpreter {
    /// The program.
    pub closed spec fn program(&self) -> Seq<StmtView> {
        stmt_views(self.statements@)
    }

    /// The state of the run.
    pub closed spec fn state(&self) -> State {
        State {
            registers: self.registers@,
            vars: self.vars@,
            pc: self.program_counter as int,
            input: self.input@,
        }
    }

    /// The interpreter's invariant: the program counter is the index of a
    /// statement or the length of the program, and no variable occurs twice.
    pub closed spec fn wf(&self) -> bool {
        &&& self.program_counter <= self.statements.len()
        &&& self.vars.wf()
    }

    /// An interpreter at the start of the given program, with no external
    /// input.
    pub fn new(statements: Vec<Stmt>) -> (res: Self)
        ensures
            res.wf(),
            res.program() == stmt_views(statements@),
            res.state() == initial_state(Seq::empty()),
    {
        Self::with_input(statements, Vec::new())
    }

    /// An interpreter at the start of the given program, whose external input
    /// holds the given bytes.
    pub fn with_input(statements: Vec<Stmt>, input: Vec<u8>) -> (res: Self)
        ensures
            res.wf(),
            res.program() == stmt_views(statements@),
            res.state() == initial_state(input@),
    {
        Self {
            statements,
            registers: HashMap::new(),
            vars: Bindings::new(),
            program_counter: 0,
            input,
        }
    }

    /// The index of the next statement; the length of the program once the run
    /// is over.
    pub fn program_counter(&self) -> (pc: usize)
        requires
            self.wf(),
        ensures
            pc == self.state().pc,
            pc <= self.program().len(),
    {
        self.program_counter
    }

    /// The value of the register at the given address, if it has been written.
    pub fn register(&self, address: u32) -> (res: Option<u32>)
        ensures
            res == if self.state().registers.contains_key(address) {
                Some(self.state().registers[address])
            } else {
                None
            },
    {
        match self.registers.get(&address) {
            Some(value) => Some(*value),
            None => None,
        }
    }

    /// The value of the variable of the given name, if it has been bound.
    pub fn variable(&self, name: &str) -> (res: Option<u32>)
        requires
            self.wf(),
        ensures
            res == if self.state().vars.contains_key(name@) {
                Some(self.state().vars[name@])
            } else {
                None
            },
    {
        self.vars.get(&String::from_str(name))
    }

    /// Evaluates an expression.
    pub fn visit_expr(&mut self, e: &Expr) -> (res: Result<u32, RuntimeError>)
        requires
            old(self).wf(),
        ensures
            final(self).wf(),
            final(self).program() == old(self).program(),
            final(self).state() == after(eval(e@, old(self).state()), old(self).state()),
            res == eval(e@, old(self).state()).value,
        decreases e,
    {
        match e {
            Expr::Load(address) => {
                let at = self.visit_expr(address)?;
                match self.registers.get(&at) {
                    Some(value) => Ok(*value),
                    None => Err(RuntimeError::UndefinedRegister),
                }
            },
            Expr::Binary(left, operator, right) => {
                let lhs = self.visit_expr(left)?;
                let rhs = self.visit_expr(right)?;
                apply_operator(&operator.token_type, lhs, rhs)
            },
            Expr::Unary(_, operand) => self.visit_expr(operand),
            Expr::Var(name) => {
                match self.vars.get(name) {
                    Some(value) => Ok(value),
                    None => Err(RuntimeError::UndefinedVariable),
                }
            },
            Expr::GetInput(_) => {
                let number = parse_number(&self.input);
                self.input = Vec::new();
                match number {
                    Some(value) => Ok(value),
                    None => Err(RuntimeError::MalformedInput),
                }
            },
            Expr::Val(value) => Ok(*value),
        }
    }

    /// Executes a statement as the next one of the program: moves the program
    /// counter on by one, then lets the statement act.
    pub fn visit_stmt(&mut self, s: &Stmt) -> (res: Result<u32, Halt>)
        requires
            old(self).wf(),
            old(self).state().pc < old(self).program().len(),
        ensures
            final(self).wf(),
            final(self).program() == old(self).program(),
            final(self).state() == execute(
                s@,
                old(self).state(),
                old(self).program().len() as int,
            ).state,
            res == execute(s@, old(self).state(), old(self).program().len() as int).result,
    {
        self.program_counter = self.program_counter + 1;
        match s {
            Stmt::Assignment(identifier, expr) => {
                match self.visit_expr(expr) {
                    Ok(value) => {
                        self.vars.insert(identifier.lexeme.clone(), value);
                        Ok(value)
                    },
                    Err(error) => Err(Halt::Error(error)),
                }
            },
            Stmt::Store(reg, val) => {
                let reg = match self.visit_expr(reg) {
                    Ok(reg) => reg,
                    Err(error) => {
                        return Err(Halt::Error(error));
                    },
                };
                let val = match self.visit_expr(val) {
                    Ok(val) => val,
                    Err(error) => {
                        return Err(Halt::Error(error));
                    },
                };
                self.registers.insert(reg, val);
                Ok(val)
            },
            Stmt::Goto(e) => {
                match self.visit_expr(e) {
                    Ok(target) => {
                        if target as usize > self.statements.len() {
                            Err(Halt::Error(RuntimeError::JumpOutOfRange))
                        } else {
                            self.program_counter = target as usize;
                            Ok(target)
                        }
                    },
                    Err(error) => Err(Halt::Error(error)),
                }
            },
            Stmt::Assert(e) => {
                match self.visit_expr(e) {
                    Ok(value) => {
                        if value == 1 {
                            Ok(value)
                        } else {
                            Err(Halt::AssertionFailed)
                        }
                    },
                    Err(error) => Err(Halt::Error(error)),
                }
            },
            Stmt::IfThenElse(cond, lhs, rhs) => {
                match self.visit_expr(cond) {
                    Ok(cond) => {
                        let branch = if cond == 1 {
                            self.visit_expr(lhs)
                        } else if cond == 0 {
                            self.visit_expr(rhs)
                        } else {
                            Ok(0)
                        };
                        match branch {
                            Ok(value) => Ok(value),
                            Err(error) => Err(Halt::Error(error)),
                        }
                    },
                    Err(error) => Err(Halt::Error(error)),
                }
            },
        }
    }

    /// Executes the statement at the program counter, if the run is not over.
    pub fn step(&mut self) -> (res: Option<Result<u32, Halt>>)
        requires
            old(self).wf(),
        ensures
            final(self).wf(),
            final(self).program() == old(self).program(),
            match res {
                Some(result) => {
                    let done = execute(
                        old(self).program()[old(self).state().pc],
                        old(self).state(),
                        old(self).program().len() as int,
                    );
                    &&& old(self).state().pc < old(self).program().len()
                    &&& result == done.result
                    &&& final(self).state() == done.state
                },
                None => {
                    &&& old(self).state().pc == old(self).program().len()
                    &&& final(self).state() == old(self).state()
                },
            },
    {
        if self.program_counter < self.statements.len() {
            let statement = self.statements[self.program_counter].clone();
            Some(self.visit_stmt(&statement))
        } else {
            None
        }
    }

    /// Runs the program from the current state on, for at most `max_steps`
    /// statements. A program may jump back for ever: the bound is what makes
    /// every run end.
    ///
    /// The run ends when the program counter reaches the end of the program,
    /// when an assertion does not hold, when a statement fails, or when
    /// `max_steps` statements have been executed.
    pub fn visit(self, max_steps: usize) -> (res: Run)
        requires
            self.wf(),
        ensures
            res.values@ == run(self.program(), self.state(), max_steps as nat).values,
            res.outcome == run(self.program(), self.state(), max_steps as nat).outcome,
    {
        let mut machine = self;
        let mut values: Vec<u32> = Vec::new();
        let mut outcome: Option<Outcome> = None;
        let mut steps: usize = 0;
        while outcome.is_none()
            invariant
                machine.wf(),
                machine.program() == self.program(),
                steps <= max_steps,
                match outcome {
                    Some(end) => {
                        &&& values@ == run(self.program(), self.state(), max_steps as nat).values
                        &&& end == run(self.program(), self.state(), max_steps as nat).outcome
                    },
                    None => {
                        let rest = run(
                            self.program(),
                            machine.state(),
                            (max_steps - steps) as nat,
                        );
                        &&& values@ + rest.values == run(
                            self.program(),
                            self.state(),
                            max_steps as nat,
                        ).values
                        &&& rest.outcome == run(
                            self.program(),
                            self.state(),
                            max_steps as nat,
                        ).outcome
                    },
                },
            decreases
                    max_steps - steps + if outcome is None {
                        1int
                    } else {
                        0int
                    },
        {
            let ghost rest = run(self.program(), machine.state(), (max_steps - steps) as nat);
            let ghost before = values@;
            if machine.program_counter >= machine.statements.len() {
                outcome = Some(Outcome::Finished);
                assert(before + rest.values =~= before);
            } else if steps == max_steps {
                outcome = Some(Outcome::OutOfSteps);
                assert(before + rest.values =~= before);
            } else {
                match machine.step() {
                    Some(Ok(value)) => {
                        values.push(value);
                        steps = steps + 1;
                        let ghost next = run(
                            self.program(),
                            machine.state(),
                            (max_steps - steps) as nat,
                        );
                        assert(rest.values =~= seq![value] + next.values);
                        assert(values@ + next.values =~= before + rest.values);
                    },
                    Some(Err(Halt::AssertionFailed)) => {
                        outcome = Some(Outcome::AssertionFailed);
                        assert(before + rest.values =~= before);
                    },
                    Some(Err(Halt::Error(error))) => {
                        outcome = Some(Outcome::Failed(error));
                        assert(before + rest.values =~= before);
                    },
                    None => {
                        outcome = Some(Outcome::Finished);
                    },
                }
            }
        }
        match outcome {
            Some(end) => Run { values, outcome: end },
            None => Run { values, outcome: Outcome::Finished },
        }
    }
}

} // verus!
