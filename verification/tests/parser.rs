use simpil::parser::{err_expected, err_expr, err_stmt, ParseError, ParseFailure, Parser};
use simpil::scanner::Scanner;
use simpil::syntax::{render_statements, Expr, Stmt};
use simpil::tokens::{Token, TokenType};
use simpil::visitor::{Printer, Visitor};

fn statement(src: &str) -> String {
    Parser::new(Scanner::new(src)).statement().unwrap().to_string()
}

fn expression(src: &str) -> String {
    Parser::new(Scanner::new(src)).expression().unwrap().to_string()
}

fn statement_error(src: &str) -> ParseError {
    Parser::new(Scanner::new(src)).statement().unwrap_err()
}

fn expression_error(src: &str) -> ParseError {
    Parser::new(Scanner::new(src)).expression().unwrap_err()
}

fn program(src: &str) -> String {
    Parser::new(Scanner::new(src)).to_string()
}

#[test]
fn parse_addition() {
    expression("1 + 1");
}

#[test]
fn parse_subtraction() {
    expression("1 - 1");
}

#[test]
fn parse_division() {
    expression("1 / 1");
}

#[test]
fn parse_multiplication() {
    expression("1 * 1");
}

#[test]
fn parse_unary_minus() {
    expression("-1");
}

#[test]
fn parse_unary_plus() {
    expression("+1");
}

#[test]
fn parse_assignment() {
    statement("x := 1");
}

#[test]
fn parse_store() {
    statement("store(1, 1)");
}

#[test]
fn parse_goto() {
    statement("goto 1");
}

#[test]
fn parse_assert() {
    statement("assert 1");
}

#[test]
fn parse_if_then_else() {
    statement("if 1 then goto 2 else goto 3");
}

#[test]
fn parse_load() {
    statement("goto load(1)");
}

#[test]
fn parse_get_input() {
    statement("goto get_input(stdout)");
}

#[test]
fn parse_precedence_1() {
    assert_eq!(expression("1 * 1 + 1"), "((1, Star, 1), Plus, 1)");
}

#[test]
fn parse_precedence_2() {
    assert_eq!(expression("1 + 1 * 1"), "(1, Plus, (1, Star, 1))");
}

#[test]
fn operators_of_one_level_group_to_the_left() {
    assert_eq!(expression("1 - 2 - 3"), "((1, Minus, 2), Minus, 3)");
    assert_eq!(expression("8 / 4 / 2"), "((8, Slash, 4), Slash, 2)");
    assert_eq!(expression("1 - 2 + 3"), "((1, Minus, 2), Plus, 3)");
    assert_eq!(expression("8 / 4 * 2"), "((8, Slash, 4), Star, 2)");
}

#[test]
fn products_bind_tighter_than_sums() {
    assert_eq!(
        expression("a + b * c - d / e"),
        "((a, Plus, (b, Star, c)), Minus, (d, Slash, e))"
    );
    assert_eq!(expression("1 * 2 + 3 * 4"), "((1, Star, 2), Plus, (3, Star, 4))");
}

#[test]
fn binding_powers() {
    assert_eq!(Parser::binary_binding_power(&TokenType::Plus), Ok((1, 2)));
    assert_eq!(Parser::binary_binding_power(&TokenType::Minus), Ok((1, 2)));
    assert_eq!(Parser::binary_binding_power(&TokenType::Star), Ok((3, 4)));
    assert_eq!(Parser::binary_binding_power(&TokenType::Slash), Ok((3, 4)));
    assert_eq!(
        Parser::binary_binding_power(&TokenType::Comma),
        Err(ParseError::Expr("Expected operator."))
    );
}

#[test]
fn a_chain_stops_below_its_least_binding_power() {
    let mut parser = Parser::new(Scanner::new("1 * 2 + 3"));
    assert_eq!(parser.ops(3).unwrap().to_string(), "(1, Star, 2)");
    assert!(parser.check(TokenType::Plus));
    let mut parser = Parser::new(Scanner::new("1 + 2"));
    assert_eq!(parser.ops(2).unwrap().to_string(), "1");
    assert!(parser.check(TokenType::Plus));
}

#[test]
fn statements_are_shown() {
    assert_eq!(statement("x := 1"), "Identifier(\"x\") := 1");
    assert_eq!(statement("store(1, y)"), "Store(1, y)");
    assert_eq!(statement("goto 1"), "Goto 1");
    assert_eq!(statement("assert x"), "Assert x");
    assert_eq!(
        statement("if 1 then goto 2 else goto 3"),
        "If 1 Then Goto 2 Else Goto 3"
    );
    assert_eq!(statement("goto load(1)"), "Goto Load(1)");
    assert_eq!(statement("goto get_input"), "Goto GetInput(stdin)");
    assert_eq!(statement("goto -x"), "Goto Unary(Minus, x)");
}

#[test]
fn a_sign_takes_a_whole_expression() {
    assert_eq!(expression("-1 + 2"), "Unary(Minus, (1, Plus, 2))");
    assert_eq!(expression("+ - 1"), "Unary(Plus, Unary(Minus, 1))");
    assert_eq!(expression("-load(3)"), "Unary(Minus, Load(3))");
}

#[test]
fn load_takes_an_expression_in_parentheses() {
    assert_eq!(expression("load(load(1 + 2))"), "Load(Load((1, Plus, 2)))");
    assert_eq!(expression("load(get_input)"), "Load(GetInput(stdin))");
    assert_eq!(
        expression_error("load 1"),
        ParseError::Expected(TokenType::LeftParen)
    );
    assert_eq!(
        expression_error("load(1"),
        ParseError::Expected(TokenType::RightParen)
    );
}

#[test]
fn the_syntax_tree_has_the_parsed_parts() {
    match Parser::new(Scanner::new("x := 2 * y")).statement().unwrap() {
        Stmt::Assignment(name, value) => {
            assert_eq!(name.lexeme, "x");
            assert_eq!(name.token_type, TokenType::Identifier("x".to_string()));
            match *value {
                Expr::Binary(left, operator, right) => {
                    assert!(matches!(*left, Expr::Val(2)));
                    assert_eq!(operator.token_type, TokenType::Star);
                    assert_eq!(operator.lexeme, "*");
                    assert!(matches!(*right, Expr::Var(ref name) if name == "y"));
                }
                other => panic!("not a binary operation: {:?}", other),
            }
        }
        other => panic!("not an assignment: {:?}", other),
    }
}

#[test]
fn statement_errors() {
    assert_eq!(
        statement_error(""),
        ParseError::Stmt("Expected token, found EOF.")
    );
    assert_eq!(statement_error("1"), ParseError::Stmt("Expected statement."));
    assert_eq!(statement_error(")"), ParseError::Stmt("Expected statement."));
    assert_eq!(statement_error("then"), ParseError::Stmt("Expected statement."));
}

#[test]
fn expression_errors() {
    assert_eq!(
        expression_error(""),
        ParseError::Expr("Expected token, found EOF.")
    );
    assert_eq!(
        expression_error(")"),
        ParseError::Expr("Expected Load, GetInput, Identifier or Value.")
    );
    assert_eq!(
        expression_error("1 +"),
        ParseError::Expr("Expected value or identifier.")
    );
    assert_eq!(
        expression_error("1 + load(2)"),
        ParseError::Expr("Expected value or identifier.")
    );
    assert_eq!(
        Parser::new(Scanner::new(")")).ops(0).unwrap_err(),
        ParseError::Expr("Expected value or identifier.")
    );
}

#[test]
fn missing_tokens_are_named() {
    assert_eq!(statement_error("x"), ParseError::Expected(TokenType::Assign));
    assert_eq!(statement_error("x 1"), ParseError::Expected(TokenType::Assign));
    assert_eq!(statement_error("store 1"), ParseError::Expected(TokenType::LeftParen));
    assert_eq!(statement_error("store(1 2)"), ParseError::Expected(TokenType::Comma));
    assert_eq!(statement_error("store(1, 2"), ParseError::Expected(TokenType::RightParen));
    assert_eq!(statement_error("if 1 goto 2"), ParseError::Expected(TokenType::Then));
    assert_eq!(statement_error("if 1 then 2"), ParseError::Expected(TokenType::Goto));
    assert_eq!(
        statement_error("if 1 then goto 2"),
        ParseError::Expected(TokenType::Else)
    );
    assert_eq!(
        statement_error("if 1 then goto 2 else 3"),
        ParseError::Expected(TokenType::Goto)
    );
}

#[test]
fn errors_are_made_and_shown() {
    assert_eq!(err_stmt::<()>("why"), Err(ParseError::Stmt("why")));
    assert_eq!(err_expr::<u8>("why"), Err(ParseError::Expr("why")));
    assert_eq!(
        err_expected::<()>(TokenType::Comma),
        Err(ParseError::Expected(TokenType::Comma))
    );
    assert_eq!(ParseError::Stmt("x").to_string(), "Parsing statement failed.");
    assert_eq!(ParseError::Expr("x").to_string(), "Parsing expression failed.");
    assert_eq!(
        ParseError::Expected(TokenType::Then).to_string(),
        "Expected different token type."
    );
}

#[test]
fn check_and_expect() {
    let mut parser = Parser::new(Scanner::new("( x"));
    assert!(parser.check(TokenType::LeftParen));
    assert!(!parser.check(TokenType::RightParen));
    assert_eq!(
        parser.expect(TokenType::Comma),
        Err(ParseError::Expected(TokenType::Comma))
    );
    assert_eq!(parser.expect(TokenType::LeftParen), Ok(()));
    assert!(parser.check(TokenType::Identifier("x".to_string())));
    assert!(!parser.check(TokenType::Identifier("y".to_string())));
    assert_eq!(parser.expect(TokenType::Identifier("x".to_string())), Ok(()));
    assert!(parser.is_at_end());
    assert!(!parser.check(TokenType::LeftParen));
    assert_eq!(
        parser.expect(TokenType::LeftParen),
        Err(ParseError::Expected(TokenType::LeftParen))
    );
}

#[test]
fn a_malformed_statement_is_passed_over() {
    assert_eq!(program(") x := 1"), "[Identifier(\"x\") := 1]");
    assert_eq!(program("1 2 3 goto 4"), "[Goto 4]");
    assert_eq!(
        program("x := 1 ) ) store(1, 2) then goto 3"),
        "[Identifier(\"x\") := 1,Store(1, 2),Goto 3]"
    );
    assert_eq!(program("x y := 1"), "[Identifier(\"y\") := 1]");
    assert_eq!(program("goto goto 1"), "[Goto 1]");
    assert_eq!(program("store(1, assert 1"), "[Assert 1]");
}

#[test]
fn synchronize_stops_where_a_statement_may_begin() {
    let mut parser = Parser::new(Scanner::new(", ) 1 then"));
    parser.synchronize();
    assert!(parser.is_at_end());
    for text in ["+ * x", ") store", "1 2 goto", ", assert", "else if"] {
        let mut parser = Parser::new(Scanner::new(text));
        parser.synchronize();
        assert!(!parser.is_at_end());
        let rest = Parser::new(Scanner::new(text)).to_string();
        assert_eq!(parser.to_string(), rest);
    }
    let mut parser = Parser::new(Scanner::new("x := 1"));
    parser.synchronize();
    assert_eq!(parser.to_string(), "[Identifier(\"x\") := 1]");
}

#[test]
fn statements_come_one_by_one() {
    let mut parser = Parser::new(Scanner::new("x := 1 goto x assert 1"));
    assert_eq!(parser.next().unwrap().to_string(), "Identifier(\"x\") := 1");
    assert_eq!(parser.to_string(), "[Goto x,Assert 1]");
    assert_eq!(parser.next().unwrap().to_string(), "Goto x");
    assert_eq!(parser.next().unwrap().to_string(), "Assert 1");
    assert!(parser.next().is_none());
    assert!(parser.next().is_none());
    assert_eq!(parser.to_string(), "[]");
}

#[test]
fn collecting_gives_every_statement() {
    let text = "x := 1\nstore(x, x + 1)\nif x then goto 0 else goto 3\nassert load(1)";
    let statements = Parser::new(Scanner::new(text)).collect();
    assert_eq!(statements.len(), 4);
    assert_eq!(render_statements(&statements), program(text));
    assert_eq!(
        program(text),
        "[Identifier(\"x\") := 1,Store(x, (x, Plus, 1)),If x Then Goto 0 Else Goto 3,Assert Load(1)]"
    );
    assert_eq!(Parser::new(Scanner::new("")).collect().len(), 0);
    assert_eq!(Parser::new(Scanner::new(") ) )")).collect().len(), 0);
}

#[test]
fn a_parser_reads_given_tokens() {
    let tokens = vec![
        Token { token_type: TokenType::Goto, lexeme: "goto".to_string(), line: 1 },
        Token { token_type: TokenType::Value(7), lexeme: "7".to_string(), line: 1 },
    ];
    let mut parser = Parser::from_tokens(tokens);
    assert_eq!(parser.statement().unwrap().to_string(), "Goto 7");
    assert!(parser.is_at_end());
}

#[test]
fn parsing_stops_at_a_numeral_too_large() {
    assert_eq!(program("x := 1 goto 4294967296 assert 1"), "[Identifier(\"x\") := 1]");
}

#[test]
fn syntax_trees_are_copied_whole() {
    let stmt = Parser::new(Scanner::new("if -a then goto load(b) else goto get_input"))
        .statement()
        .unwrap();
    assert_eq!(stmt.clone().to_string(), stmt.to_string());
    assert_eq!(
        stmt.to_string(),
        "If Unary(Minus, a) Then Goto Load(b) Else Goto GetInput(stdin)"
    );
    let expr = Parser::new(Scanner::new("1 + x * 3")).expression().unwrap();
    assert_eq!(expr.clone().to_string(), "(1, Plus, (x, Star, 3))");
}

#[test]
fn the_printer_shows_what_it_visits() {
    let stmt = Parser::new(Scanner::new("store(1, 2)")).statement().unwrap();
    let expr = Parser::new(Scanner::new("a / b")).expression().unwrap();
    let mut printer = Printer;
    assert_eq!(printer.visit_stmt(&stmt), "Store(1, 2)");
    assert_eq!(printer.visit_expr(&expr), "(a, Slash, b)");
}

#[test]
fn statements_that_do_not_parse_are_recorded() {
    let mut parser = Parser::new(Scanner::new(") x := 1\nstore(1 2)\ngoto 3\nx :="));
    assert!(parser.failures().is_empty());
    let statements = parser.collect();
    assert_eq!(render_statements(&statements), "[Identifier(\"x\") := 1,Goto 3]");
    assert_eq!(
        parser.failures(),
        &vec![
            ParseFailure { line: 1, error: ParseError::Stmt("Expected statement.") },
            ParseFailure { line: 2, error: ParseError::Expected(TokenType::Comma) },
            ParseFailure { line: 4, error: ParseError::Expr("Expected token, found EOF.") },
        ]
    );
    assert!(parser.is_at_end());
}

#[test]
fn the_end_of_the_tokens_is_no_failure() {
    let mut parser = Parser::new(Scanner::new("goto 1"));
    assert!(parser.next().is_some());
    assert!(parser.next().is_none());
    assert!(parser.failures().is_empty());
    let mut parser = Parser::new(Scanner::new(""));
    assert!(parser.next().is_none());
    assert!(parser.failures().is_empty());
    let mut parser = Parser::new(Scanner::new("goto 1"));
    assert_eq!(parser.to_string(), "[Goto 1]");
    assert!(parser.failures().is_empty());
}
