//! Laws that relate the scanner, the parser and the interpreter to what they
//! are meant to do.

use crate::grammar::{
    binding_power, expression_at, kind_at, lemma_next_bounds, lemma_statement_bounds,
    lemma_synchronized_bounds, next_at, ops_at, ops_rest, parse_from, statement_at, synchronized,
    ParseErrorView,
};
use crate::scanner::{
    lemma_digits_end, lemma_name_end, lemma_pull_advances, lex_at, pull, scan_from, Found,
    Lexeme, Scanner,
};
use crate::semantics::{
    after, entered, eval, execute, run, Halt, Outcome, RuntimeError, State,
};
use crate::syntax::{ExprView, StmtView};
use crate::tokens::{TokenKind, TokenView};
use vstd::prelude::*;

verus! {

/// Scanning is a function of the text: two scanners that stand at the same
/// place of the same text have the same tokens left to hand out, and make
/// the same reports on the way.
pub proof fn law_scan_deterministic(a: Scanner, b: Scanner)
    requires
        a.bytes() == b.bytes(),
        a.position() == b.position(),
    ensures
        a.remaining() == b.remaining(),
        scan_from(a.bytes(), a.position()) == scan_from(b.bytes(), b.position()),
{
}

/// A token that a pull finds is neither blank nor invalid, and is read from at
/// least one byte.
pub proof fn law_pull_finds_a_token(s: Seq<u8>, i: int)
    requires
        0 <= i <= s.len(),
    ensures
        pull(s, i).found matches Found::Token(token) ==> {
            &&& !(token.token_type is Ignore)
            &&& !(token.token_type is Invalid)
            &&& token.lexeme.len() > 0
        },
    decreases s.len() - i,
{
    if i < s.len() {
        lemma_digits_end(s, i + 1);
        lemma_name_end(s, i + 1);
        match lex_at(s, i) {
            Lexeme::Blank => law_pull_finds_a_token(s, i + 1),
            Lexeme::Invalid => law_pull_finds_a_token(s, i + 1),
            _ => {},
        }
    }
}

/// No token that the scanner hands out is blank or invalid: such bytes are
/// passed over.
pub proof fn law_tokens_carry_meaning(s: Seq<u8>, i: int)
    requires
        0 <= i <= s.len(),
    ensures
        forall|k: int|
            0 <= k < scan_from(s, i).tokens.len() ==> {
                let token = #[trigger] scan_from(s, i).tokens[k];
                !(token.token_type is Ignore) && !(token.token_type is Invalid)
            },
    decreases s.len() - i,
{
    lemma_pull_advances(s, i);
    law_pull_finds_a_token(s, i);
    let p = pull(s, i);
    if p.found is Token {
        law_tokens_carry_meaning(s, p.next);
        let rest = scan_from(s, p.next).tokens;
        assert forall|k: int| 0 <= k < scan_from(s, i).tokens.len() implies {
            let token = #[trigger] scan_from(s, i).tokens[k];
            !(token.token_type is Ignore) && !(token.token_type is Invalid)
        } by {
            if k > 0 {
                assert(scan_from(s, i).tokens[k] == rest[k - 1]);
            }
        }
    }
}

/// After an assignment that succeeds, reading the variable gives the value
/// that the assignment gave, whether or not the variable was bound before.
pub proof fn law_assignment_round_trip(name: TokenView, value: ExprView, st: State, len: int)
    requires
        execute(StmtView::Assignment(name, value), st, len).result is Ok,
    ensures
        ({
            let done = execute(StmtView::Assignment(name, value), st, len);
            &&& done.result == Ok::<u32, Halt>(eval(value, entered(st)).value->Ok_0)
            &&& eval(ExprView::Var(name.lexeme), done.state).value == Ok::<u32, RuntimeError>(
                done.result->Ok_0,
            )
        }),
{
}

/// An assignment succeeds whenever its expression has a value.
pub proof fn law_assignment_needs_no_binding(
    name: TokenView,
    value: ExprView,
    st: State,
    len: int,
)
    requires
        eval(value, entered(st)).value is Ok,
    ensures
        execute(StmtView::Assignment(name, value), st, len).result is Ok,
{
}

/// After a store that succeeds, loading the register at the address stored
/// to gives the value stored.
pub proof fn law_store_load_round_trip(address: ExprView, value: ExprView, st: State, len: int)
    requires
        execute(StmtView::Store(address, value), st, len).result is Ok,
    ensures
        ({
            let done = execute(StmtView::Store(address, value), st, len);
            let at = eval(address, entered(st)).value->Ok_0;
            eval(ExprView::Load(Box::new(ExprView::Val(at))), done.state).value == Ok::<
                u32,
                RuntimeError,
            >(done.result->Ok_0)
        }),
{
    let done = execute(StmtView::Store(address, value), st, len);
    let at = eval(address, entered(st)).value->Ok_0;
    assert(eval(ExprView::Val(at), done.state).value == Ok::<u32, RuntimeError>(at));
}

/// A statement that jumps to itself never lets the run end: however many
/// statements are allowed, all of them are executed, each gives the index of
/// the statement, and the program counter is back at it.
pub proof fn law_self_jump_never_ends(program: Seq<StmtView>, st: State, steps: nat)
    requires
        0 <= st.pc < program.len(),
        st.pc <= u32::MAX,
        program[st.pc] == StmtView::Goto(ExprView::Val(st.pc as u32)),
    ensures
        run(program, st, steps).outcome == Outcome::OutOfSteps,
        run(program, st, steps).state == st,
        run(program, st, steps).values == Seq::new(steps, |i: int| st.pc as u32),
    decreases steps,
{
    if steps > 0 {
        let done = execute(program[st.pc], st, program.len() as int);
        assert(done.state == st);
        law_self_jump_never_ends(program, st, (steps - 1) as nat);
        assert(run(program, st, steps).values =~= Seq::new(steps, |i: int| st.pc as u32));
    } else {
        assert(run(program, st, steps).values =~= Seq::new(steps, |i: int| st.pc as u32));
    }
}

/// An assertion whose condition is 1 yields 1; on any other value it fails
/// as an assertion, not as an error.
pub proof fn law_assert(condition: ExprView, st: State, len: int)
    requires
        eval(condition, entered(st)).value is Ok,
    ensures
        ({
            let value = eval(condition, entered(st)).value->Ok_0;
            let done = execute(StmtView::Assert(condition), st, len);
            &&& value == 1 ==> done.result == Ok::<u32, Halt>(1)
            &&& value != 1 ==> done.result == Err::<u32, Halt>(Halt::AssertionFailed)
        }),
{
}

/// An assertion that does not hold ends the run at once: no value is
/// produced for it, and none after it.
pub proof fn law_failed_assertion_ends_run(
    program: Seq<StmtView>,
    condition: ExprView,
    st: State,
    steps: nat,
)
    requires
        0 <= st.pc < program.len(),
        steps > 0,
        program[st.pc] == StmtView::Assert(condition),
        eval(condition, entered(st)).value is Ok,
        eval(condition, entered(st)).value->Ok_0 != 1,
    ensures
        run(program, st, steps).outcome == Outcome::AssertionFailed,
        run(program, st, steps).values == Seq::<u32>::empty(),
{
}

/// An assertion that holds lets the run go on: it yields 1, and the run
/// continues with the next statement.
pub proof fn law_held_assertion_continues(
    program: Seq<StmtView>,
    condition: ExprView,
    st: State,
    steps: nat,
)
    requires
        0 <= st.pc < program.len(),
        steps > 0,
        program[st.pc] == StmtView::Assert(condition),
        eval(condition, entered(st)).value == Ok::<u32, RuntimeError>(1),
    ensures
        ({
            let next = after(eval(condition, entered(st)), entered(st));
            let rest = run(program, next, (steps - 1) as nat);
            &&& run(program, st, steps).values == seq![1u32] + rest.values
            &&& run(program, st, steps).outcome == rest.outcome
        }),
{
}

/// A conditional evaluates its first branch, and that one only, on the
/// condition 1; its second branch, and that one only, on the condition 0;
/// and on any other condition neither, yielding 0. It never moves the program
/// counter beyond the statement that follows.
pub proof fn law_conditional(
    condition: ExprView,
    first: ExprView,
    second: ExprView,
    st: State,
    len: int,
)
    requires
        eval(condition, entered(st)).value is Ok,
    ensures
        ({
            let c = eval(condition, entered(st));
            let chosen = after(c, entered(st));
            let done = execute(StmtView::IfThenElse(condition, first, second), st, len);
            &&& c.value->Ok_0 == 1 ==> done.state == after(eval(first, chosen), chosen) && (match eval(
                first,
                chosen,
            ).value {
                Ok(value) => done.result == Ok::<u32, Halt>(value),
                Err(error) => done.result == Err::<u32, Halt>(Halt::Error(error)),
            })
            &&& c.value->Ok_0 == 0 ==> done.state == after(eval(second, chosen), chosen) && (match eval(
                second,
                chosen,
            ).value {
                Ok(value) => done.result == Ok::<u32, Halt>(value),
                Err(error) => done.result == Err::<u32, Halt>(Halt::Error(error)),
            })
            &&& c.value->Ok_0 != 1 && c.value->Ok_0 != 0 ==> done.state == chosen && done.result
                == Ok::<u32, Halt>(0)
            &&& done.state.pc == st.pc + 1
        }),
{
}

/// The operand that a value or a name stands for.
pub open spec fn atom(token: TokenView) -> ExprView {
    match token.token_type {
        TokenKind::Value(value) => ExprView::Val(value),
        TokenKind::Identifier(name) => ExprView::Var(name),
        _ => arbitrary(),
    }
}

/// True for the tokens that are operands by themselves: values and names.
pub open spec fn is_atom(token: TokenView) -> bool {
    token.token_type is Value || token.token_type is Identifier
}

/// Of two binary operators between three operands, the second takes the
/// middle operand only if it binds more tightly on its left than the first
/// does on its right: a product within a sum is grouped first, and operators
/// of one level group to the left.
pub proof fn law_precedence(a: TokenView, first: TokenView, b: TokenView, second: TokenView, c: TokenView)
    requires
        is_atom(a),
        is_atom(b),
        is_atom(c),
        first.token_type.is_binary_operator(),
        second.token_type.is_binary_operator(),
    ensures
        ({
            let parsed = expression_at(seq![a, first, b, second, c], 0);
            let to_the_left = ExprView::Binary(
                Box::new(ExprView::Binary(Box::new(atom(a)), first, Box::new(atom(b)))),
                second,
                Box::new(atom(c)),
            );
            let to_the_right = ExprView::Binary(
                Box::new(atom(a)),
                first,
                Box::new(ExprView::Binary(Box::new(atom(b)), second, Box::new(atom(c)))),
            );
            &&& parsed.pos == 5
            &&& parsed.result == Ok::<ExprView, ParseErrorView>(
                if binding_power(second.token_type)->Some_0.0 < binding_power(
                    first.token_type,
                )->Some_0.1 {
                    to_the_left
                } else {
                    to_the_right
                },
            )
        }),
{
    let ts = seq![a, first, b, second, c];
    let low = binding_power(first.token_type)->Some_0.1;
    let high = binding_power(second.token_type)->Some_0.1;
    assert(kind_at(ts, 5) is None);
    assert(kind_at(ts, 0) == Some(a.token_type));
    assert(kind_at(ts, 1) == Some(first.token_type));
    assert(kind_at(ts, 2) == Some(b.token_type));
    assert(kind_at(ts, 3) == Some(second.token_type));
    assert(kind_at(ts, 4) == Some(c.token_type));
    assert(ts[1] == first && ts[3] == second);
    // The last operand, read as the right operand of either operator.
    assert forall|left: ExprView, min: u8| #[trigger] ops_rest(ts, 5, left, min).pos == 5
        && ops_rest(ts, 5, left, min).result == Ok::<ExprView, ParseErrorView>(left) by {}
    assert(ops_at(ts, 4, high).pos == 5);
    assert(ops_at(ts, 4, high).result == Ok::<ExprView, ParseErrorView>(atom(c)));
    assert(ops_at(ts, 4, 2).pos == 5 && ops_at(ts, 4, 4).pos == 5);
    if binding_power(second.token_type)->Some_0.0 < low {
        assert(ops_rest(ts, 3, atom(b), low).pos == 3);
        assert(ops_at(ts, 2, low).pos == 3);
        assert(ops_at(ts, 2, low).result == Ok::<ExprView, ParseErrorView>(atom(b)));
        let left = ExprView::Binary(Box::new(atom(a)), first, Box::new(atom(b)));
        assert(ops_rest(ts, 1, atom(a), 0) == ops_rest(ts, 3, left, 0));
        assert(ops_rest(ts, 3, left, 0) == ops_rest(
            ts,
            5,
            ExprView::Binary(Box::new(left), second, Box::new(atom(c))),
            0,
        ));
    } else {
        let right = ExprView::Binary(Box::new(atom(b)), second, Box::new(atom(c)));
        assert(ops_rest(ts, 3, atom(b), low) == ops_rest(ts, 5, right, low));
        assert(ops_at(ts, 2, low).pos == 5);
        assert(ops_at(ts, 2, low).result == Ok::<ExprView, ParseErrorView>(right));
        assert(ops_rest(ts, 1, atom(a), 0) == ops_rest(
            ts,
            5,
            ExprView::Binary(Box::new(atom(a)), first, Box::new(right)),
            0,
        ));
    }
    assert(ops_at(ts, 0, 0) == ops_rest(ts, 1, atom(a), 0));
}

/// After a statement that does not parse, the parser goes on at the next
/// token with which a statement may begin: if a statement parses there, the
/// pull hands it out.
pub proof fn law_recovery(ts: Seq<TokenView>, pos: int)
    requires
        0 <= pos < ts.len(),
        statement_at(ts, pos).result is Err,
        statement_at(ts, synchronized(ts, statement_at(ts, pos).pos)).result is Ok,
    ensures
        ({
            let resume = synchronized(ts, statement_at(ts, pos).pos);
            &&& next_at(ts, pos).found == Some(statement_at(ts, resume).result->Ok_0)
            &&& next_at(ts, pos).pos == statement_at(ts, resume).pos
        }),
{
    let resume = synchronized(ts, statement_at(ts, pos).pos);
    lemma_statement_bounds(ts, pos);
    lemma_synchronized_bounds(ts, statement_at(ts, pos).pos);
    assert(next_at(ts, resume).found == Some(statement_at(ts, resume).result->Ok_0));
    assert(next_at(ts, pos).found == next_at(ts, resume).found);
}

/// One statement that does not parse never ends the parse: whatever tokens
/// come first, the pulls reach every token, and every statement handed out
/// is followed by the statements of the tokens after it.
pub proof fn law_parse_reaches_the_end(ts: Seq<TokenView>, pos: int)
    requires
        0 <= pos <= ts.len(),
    ensures
        parse_from(ts, pos).stop == ts.len(),
        next_at(ts, pos).found matches Some(statement) ==> parse_from(ts, pos).statements
            == seq![statement] + parse_from(ts, next_at(ts, pos).pos).statements,
    decreases ts.len() - pos,
{
    lemma_next_bounds(ts, pos);
    if next_at(ts, pos).found is Some {
        law_parse_reaches_the_end(ts, next_at(ts, pos).pos);
    }
}

/// An expression in which no external input is read leaves the input as it
/// was, whether it has a value or not.
pub proof fn law_input_is_kept(e: ExprView, st: State)
    requires
        !e.reads_input(),
    ensures
        eval(e, st).input == st.input,
    decreases e,
{
    match e {
        ExprView::Load(address) => law_input_is_kept(*address, st),
        ExprView::Unary(_, operand) => law_input_is_kept(*operand, st),
        ExprView::Binary(left, _, right) => {
            law_input_is_kept(*left, st);
            law_input_is_kept(*right, State { input: eval(*left, st).input, ..st });
        },
        _ => {},
    }
}

/// The value of an expression does not depend on the program counter.
pub proof fn law_value_ignores_counter(e: ExprView, st: State, pc: int)
    ensures
        eval(e, State { pc, ..st }) == eval(e, st),
    decreases e,
{
    match e {
        ExprView::Load(address) => law_value_ignores_counter(*address, st, pc),
        ExprView::Unary(_, operand) => law_value_ignores_counter(*operand, st, pc),
        ExprView::Binary(left, _, right) => {
            law_value_ignores_counter(*left, st, pc);
            law_value_ignores_counter(*right, State { input: eval(*left, st).input, ..st }, pc);
        },
        _ => {},
    }
}

/// What a statement has bound or written stays: executing a statement never
/// removes a variable or a register, and moves the program counter to an
/// index of the program or to its end.
pub proof fn law_bindings_persist(s: StmtView, st: State, len: int)
    requires
        0 <= st.pc < len,
    ensures
        ({
            let done = execute(s, st, len).state;
            &&& st.vars.dom().subset_of(done.vars.dom())
            &&& st.registers.dom().subset_of(done.registers.dom())
            &&& 0 <= done.pc <= len
        }),
{
}

} // verus!
