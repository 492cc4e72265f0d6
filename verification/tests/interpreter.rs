use simpil::interpreter::{apply_operator, Interpreter, Run};
use simpil::parser::Parser;
use simpil::scanner::Scanner;
use simpil::semantics::{Halt, Outcome, RuntimeError};
use simpil::syntax::{Expr, Stmt};
use simpil::tokens::{Token, TokenType};

fn parse(src: &str) -> Vec<Stmt> {
    Parser::new(Scanner::new(src)).collect()
}

fn run(src: &str) -> Run {
    Interpreter::new(parse(src)).visit(1000)
}

fn finished(values: Vec<u32>) -> Run {
    Run { values, outcome: Outcome::Finished }
}

fn failed(values: Vec<u32>, error: RuntimeError) -> Run {
    Run { values, outcome: Outcome::Failed(error) }
}

fn operator(token_type: TokenType, lexeme: &str) -> Token {
    Token { token_type, lexeme: lexeme.to_string(), line: 1 }
}

#[test]
fn an_empty_program_is_finished() {
    assert_eq!(run(""), finished(vec![]));
    assert_eq!(Interpreter::new(Vec::new()).visit(0), finished(vec![]));
    assert_eq!(Interpreter::new(Vec::new()).step(), None);
}

#[test]
fn each_statement_gives_one_value() {
    assert_eq!(
        run("x := 3 store(x, 4) assert 1 if 1 then goto 7 else goto 8"),
        finished(vec![3, 4, 1, 7])
    );
}

#[test]
fn assignment_round_trip() {
    assert_eq!(run("x := 1 y := x"), finished(vec![1, 1]));
    let mut machine = Interpreter::new(parse("x := 1 goto x"));
    assert_eq!(machine.variable("x"), None);
    assert_eq!(machine.step(), Some(Ok(1)));
    assert_eq!(machine.variable("x"), Some(1));
    assert_eq!(machine.visit_expr(&Expr::Var("x".to_string())), Ok(1));
}

#[test]
fn assignment_overwrites() {
    assert_eq!(run("x := 1 x := x + 1 x := x * 5 y := x"), finished(vec![1, 2, 10, 10]));
    let mut machine = Interpreter::new(parse("x := 1 y := 2 x := 3"));
    machine.step();
    machine.step();
    machine.step();
    assert_eq!(machine.variable("x"), Some(3));
    assert_eq!(machine.variable("y"), Some(2));
    assert_eq!(machine.variable("z"), None);
}

#[test]
fn store_load_round_trip() {
    assert_eq!(run("store(1, 2) x := load(1)"), finished(vec![2, 2]));
    let mut machine = Interpreter::new(parse("store(1, 2)"));
    assert_eq!(machine.register(1), None);
    assert_eq!(machine.step(), Some(Ok(2)));
    assert_eq!(machine.register(1), Some(2));
    assert_eq!(machine.register(2), None);
    let load = Expr::Load(Box::new(Expr::Val(1)));
    assert_eq!(machine.visit_expr(&load), Ok(2));
}

#[test]
fn store_overwrites() {
    assert_eq!(
        run("store(7, 1) store(7, 9) store(8, load(7)) x := load(8)"),
        finished(vec![1, 9, 9, 9])
    );
}

#[test]
fn goto_zero_never_ends() {
    let mut machine = Interpreter::new(parse("goto 0"));
    for _ in 0..100 {
        assert_eq!(machine.program_counter(), 0);
        assert_eq!(machine.step(), Some(Ok(0)));
    }
    assert_eq!(machine.program_counter(), 0);
    assert_eq!(
        Interpreter::new(parse("goto 0")).visit(5),
        Run { values: vec![0, 0, 0, 0, 0], outcome: Outcome::OutOfSteps }
    );
    assert_eq!(
        Interpreter::new(parse("goto 0")).visit(0),
        Run { values: vec![], outcome: Outcome::OutOfSteps }
    );
}

#[test]
fn a_jump_redirects_the_run() {
    assert_eq!(run("goto 2 x := 5 y := 6"), finished(vec![2, 6]));
    assert_eq!(run("n := 3 goto n x := 1 y := 2"), finished(vec![3, 3, 2]));
}

#[test]
fn a_jump_to_the_end_finishes() {
    assert_eq!(run("goto 1"), finished(vec![1]));
    assert_eq!(run("goto 3 x := 1 y := 2"), finished(vec![3]));
}

#[test]
fn a_jump_beyond_the_end_fails() {
    assert_eq!(run("goto 2"), failed(vec![], RuntimeError::JumpOutOfRange));
    assert_eq!(
        run("x := 1 goto 4294967295 y := 2"),
        failed(vec![1], RuntimeError::JumpOutOfRange)
    );
    let mut machine = Interpreter::new(parse("goto 9 x := 1"));
    assert_eq!(machine.step(), Some(Err(Halt::Error(RuntimeError::JumpOutOfRange))));
    assert_eq!(machine.program_counter(), 1);
}

#[test]
fn a_loop_counts_down() {
    let text = "n := 3 n := n - 1 goto 1";
    assert_eq!(
        Interpreter::new(parse(text)).visit(100),
        Run {
            values: vec![3, 2, 1, 1, 1, 0, 1],
            outcome: Outcome::Failed(RuntimeError::Overflow),
        }
    );
}

#[test]
fn assert_zero_halts_the_run() {
    assert_eq!(run("assert 0"), Run { values: vec![], outcome: Outcome::AssertionFailed });
    assert_eq!(
        run("x := 5 assert 0 y := 6"),
        Run { values: vec![5], outcome: Outcome::AssertionFailed }
    );
    assert_eq!(
        run("assert 2 x := 1"),
        Run { values: vec![], outcome: Outcome::AssertionFailed }
    );
    let mut machine = Interpreter::new(parse("assert 0 x := 1"));
    assert_eq!(machine.step(), Some(Err(Halt::AssertionFailed)));
}

#[test]
fn assert_one_continues() {
    assert_eq!(run("assert 1"), finished(vec![1]));
    assert_eq!(run("assert 1 x := 7"), finished(vec![1, 7]));
    assert_eq!(run("x := 1 assert x assert 2 - x"), finished(vec![1, 1, 1]));
}

#[test]
fn a_conditional_takes_one_branch() {
    assert_eq!(run("if 1 then goto 2 else goto 3"), finished(vec![2]));
    assert_eq!(run("if 0 then goto 2 else goto 3"), finished(vec![3]));
    assert_eq!(run("if 2 then goto 2 else goto 3"), finished(vec![0]));
    assert_eq!(run("if 4294967295 then goto 2 else goto 3"), finished(vec![0]));
}

#[test]
fn a_conditional_leaves_the_other_branch_alone() {
    assert_eq!(run("if 1 then goto 2 else goto nothing"), finished(vec![2]));
    assert_eq!(run("if 0 then goto 1 / 0 else goto 3"), finished(vec![3]));
    assert_eq!(run("if 5 then goto load(1) else goto y"), finished(vec![0]));
    assert_eq!(
        run("if 1 then goto nothing else goto 3"),
        failed(vec![], RuntimeError::UndefinedVariable)
    );
    assert_eq!(
        run("if 0 then goto 2 else goto load(3)"),
        failed(vec![], RuntimeError::UndefinedRegister)
    );
}

#[test]
fn a_conditional_does_not_jump() {
    assert_eq!(
        run("if 1 then goto 2 else goto 2 x := 5 y := 6"),
        finished(vec![2, 5, 6])
    );
    let mut machine = Interpreter::new(parse("if 0 then goto 0 else goto 0 x := 1"));
    assert_eq!(machine.step(), Some(Ok(0)));
    assert_eq!(machine.program_counter(), 1);
}

#[test]
fn arithmetic_is_exact() {
    assert_eq!(run("x := 1 + 2 * 3"), finished(vec![7]));
    assert_eq!(run("x := 2 * 3 + 1"), finished(vec![7]));
    assert_eq!(run("x := 10 - 4 - 3"), finished(vec![3]));
    assert_eq!(run("x := 100 / 7"), finished(vec![14]));
    assert_eq!(run("x := 100 / 10 / 5"), finished(vec![2]));
    assert_eq!(run("x := 4294967294 + 1"), finished(vec![4294967295]));
    assert_eq!(run("x := 65535 * 65537"), finished(vec![4294967295]));
    assert_eq!(run("x := 5 - 5"), finished(vec![0]));
    assert_eq!(apply_operator(&TokenType::Plus, 2, 3), Ok(5));
    assert_eq!(apply_operator(&TokenType::Minus, 3, 2), Ok(1));
    assert_eq!(apply_operator(&TokenType::Star, 6, 7), Ok(42));
    assert_eq!(apply_operator(&TokenType::Slash, 7, 2), Ok(3));
}

#[test]
fn arithmetic_out_of_range_fails() {
    assert_eq!(run("x := 4294967295 + 1"), failed(vec![], RuntimeError::Overflow));
    assert_eq!(run("x := 0 - 1"), failed(vec![], RuntimeError::Overflow));
    assert_eq!(run("x := 65536 * 65536"), failed(vec![], RuntimeError::Overflow));
    assert_eq!(
        run("y := 1 x := 4294967295 * 4294967295"),
        failed(vec![1], RuntimeError::Overflow)
    );
    assert_eq!(
        apply_operator(&TokenType::Plus, 4294967295, 4294967295),
        Err(RuntimeError::Overflow)
    );
}

#[test]
fn division_by_zero_fails() {
    assert_eq!(run("x := 1 / 0"), failed(vec![], RuntimeError::DivisionByZero));
    assert_eq!(run("x := 0 / 0"), failed(vec![], RuntimeError::DivisionByZero));
    assert_eq!(run("x := 0 / 1"), finished(vec![0]));
}

#[test]
fn a_binary_operation_needs_an_operator() {
    let expr = Expr::Binary(
        Box::new(Expr::Val(1)),
        operator(TokenType::Comma, ","),
        Box::new(Expr::Val(2)),
    );
    let mut machine = Interpreter::new(Vec::new());
    assert_eq!(machine.visit_expr(&expr), Err(RuntimeError::InvalidOperator));
    assert_eq!(
        Interpreter::new(vec![Stmt::Goto(Box::new(expr))]).visit(3),
        failed(vec![], RuntimeError::InvalidOperator)
    );
    assert_eq!(
        apply_operator(&TokenType::Assign, 1, 2),
        Err(RuntimeError::InvalidOperator)
    );
}

#[test]
fn operands_are_evaluated_before_the_operator() {
    let expr = Expr::Binary(
        Box::new(Expr::Var("nothing".to_string())),
        operator(TokenType::Comma, ","),
        Box::new(Expr::Val(2)),
    );
    let mut machine = Interpreter::new(Vec::new());
    assert_eq!(machine.visit_expr(&expr), Err(RuntimeError::UndefinedVariable));
    assert_eq!(run("x := nothing / 0"), failed(vec![], RuntimeError::UndefinedVariable));
    assert_eq!(run("x := 1 / 0 + nothing"), failed(vec![], RuntimeError::DivisionByZero));
}

#[test]
fn a_sign_is_not_applied() {
    assert_eq!(run("x := -5"), finished(vec![5]));
    assert_eq!(run("x := +5"), finished(vec![5]));
    assert_eq!(run("x := -1 + 2"), finished(vec![3]));
}

#[test]
fn an_unbound_variable_fails() {
    assert_eq!(run("goto x"), failed(vec![], RuntimeError::UndefinedVariable));
    assert_eq!(run("x := 1 y := z"), failed(vec![1], RuntimeError::UndefinedVariable));
    assert_eq!(run("x := x"), failed(vec![], RuntimeError::UndefinedVariable));
}

#[test]
fn an_unwritten_register_fails() {
    assert_eq!(run("goto load(0)"), failed(vec![], RuntimeError::UndefinedRegister));
    assert_eq!(
        run("store(1, 1) x := load(2)"),
        failed(vec![1], RuntimeError::UndefinedRegister)
    );
}

#[test]
fn a_failed_statement_changes_nothing_but_the_counter() {
    let mut machine = Interpreter::new(parse("x := 1 x := nothing store(1, 1 / 0)"));
    assert_eq!(machine.step(), Some(Ok(1)));
    assert_eq!(machine.step(), Some(Err(Halt::Error(RuntimeError::UndefinedVariable))));
    assert_eq!(machine.variable("x"), Some(1));
    assert_eq!(machine.program_counter(), 2);
    assert_eq!(machine.step(), Some(Err(Halt::Error(RuntimeError::DivisionByZero))));
    assert_eq!(machine.register(1), None);
    assert_eq!(machine.program_counter(), 3);
    assert_eq!(machine.step(), None);
    assert_eq!(machine.program_counter(), 3);
}

#[test]
fn the_input_is_read_as_one_number() {
    let statements = parse("x := get_input y := x + 1");
    assert_eq!(
        Interpreter::with_input(statements, b"41".to_vec()).visit(10),
        finished(vec![41, 42])
    );
    assert_eq!(
        Interpreter::with_input(parse("goto get_input"), b"+1".to_vec()).visit(10),
        finished(vec![1])
    );
}

#[test]
fn the_input_is_used_up_by_one_read() {
    assert_eq!(
        Interpreter::with_input(parse("x := get_input y := get_input"), b"7".to_vec()).visit(10),
        failed(vec![7], RuntimeError::MalformedInput)
    );
    let twice = Expr::Binary(
        Box::new(Expr::GetInput("stdin".to_string())),
        operator(TokenType::Plus, "+"),
        Box::new(Expr::GetInput("stdin".to_string())),
    );
    let mut machine = Interpreter::with_input(Vec::new(), b"7".to_vec());
    assert_eq!(machine.visit_expr(&twice), Err(RuntimeError::MalformedInput));
    let mut machine = Interpreter::with_input(Vec::new(), b"7".to_vec());
    assert_eq!(machine.visit_expr(&Expr::GetInput("stdin".to_string())), Ok(7));
    assert_eq!(
        machine.visit_expr(&Expr::GetInput("stdin".to_string())),
        Err(RuntimeError::MalformedInput)
    );
}

#[test]
fn input_that_is_no_number_fails() {
    for input in ["", "abc", "12x", " 1", "1\n", "-1", "4294967296"] {
        assert_eq!(
            Interpreter::with_input(parse("x := get_input"), input.as_bytes().to_vec()).visit(10),
            failed(vec![], RuntimeError::MalformedInput)
        );
    }
    assert_eq!(run("x := get_input"), failed(vec![], RuntimeError::MalformedInput));
}

#[test]
fn the_step_limit_is_kept() {
    let text = "x := 1 y := 2 z := 3";
    assert_eq!(
        Interpreter::new(parse(text)).visit(2),
        Run { values: vec![1, 2], outcome: Outcome::OutOfSteps }
    );
    assert_eq!(Interpreter::new(parse(text)).visit(3), finished(vec![1, 2, 3]));
    assert_eq!(
        Interpreter::new(parse(text)).visit(0),
        Run { values: vec![], outcome: Outcome::OutOfSteps }
    );
}

#[test]
fn a_run_goes_on_from_where_steps_left_it() {
    let mut machine = Interpreter::new(parse("x := 1 y := x + 1 z := y + 1"));
    assert_eq!(machine.step(), Some(Ok(1)));
    assert_eq!(machine.visit(10), finished(vec![2, 3]));
}

#[test]
fn a_statement_runs_as_the_next_one() {
    let mut machine = Interpreter::new(parse("x := 1 y := 2"));
    let other = parse("z := 9").remove(0);
    assert_eq!(machine.visit_stmt(&other), Ok(9));
    assert_eq!(machine.program_counter(), 1);
    assert_eq!(machine.variable("z"), Some(9));
    assert_eq!(machine.variable("x"), None);
    assert_eq!(machine.visit(10), finished(vec![2]));
}

#[test]
fn reading_input_is_told_from_the_syntax() {
    let statements = parse("x := 1 goto get_input store(load(get_input), 2) assert -x");
    let reads: Vec<bool> = statements.iter().map(Stmt::reads_input).collect();
    assert_eq!(reads, vec![false, true, true, false]);
    let branch = parse("if 0 then goto 1 else goto get_input").remove(0);
    assert!(branch.reads_input());
}
