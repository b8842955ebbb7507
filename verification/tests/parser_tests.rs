use lako::expr_ast::AstPrinter;
use lako::parser::Parser;
use lako::scanner::Scanner;

#[test]
fn test_parser_equality() {
    // "!=" | "=="
    // 1 + 3 == 4  ->  (== (+ 1 3) 4)
    let mut scanner = Scanner::new("1 + 3 == 4".to_string());
    let mut tokens = scanner.scan_tokens().clone();
    let mut parser = Parser::new(tokens);
    let mut statements = parser.parse().expect("Could not parse sample code.");
    let mut printer = AstPrinter;
    assert_eq!(printer.print(statements).unwrap(), "(== (+ 1 3) 4)");
    // 1 + 3 != 2  ->  (!= (+ 1 3) 2)
    scanner = Scanner::new("1 + 3 != 2".to_string());
    tokens = scanner.scan_tokens().clone();
    parser = Parser::new(tokens);
    statements = parser.parse().expect("Could not parse sample code.");
    assert_eq!(printer.print(statements).unwrap(), "(!= (+ 1 3) 2)");
}

#[test]
fn test_parser_comparison() {
    // ">" | ">=" | "<" | "<="
    // 4 > 2  ->  (> 4 2)
    let mut scanner = Scanner::new("4 > 2".to_string());
    let mut tokens = scanner.scan_tokens().clone();
    let mut parser = Parser::new(tokens);
    let mut statements = parser.parse().expect("Could not parse sample code.");
    let mut printer = AstPrinter;
    assert_eq!(printer.print(statements).unwrap(), "(> 4 2)");
    // 3 >= 3  ->  (>= 3 3)
    scanner = Scanner::new("3 >= 3".to_string());
    tokens = scanner.scan_tokens().clone();
    parser = Parser::new(tokens);
    statements = parser.parse().expect("Could not parse sample code.");
    assert_eq!(printer.print(statements).unwrap(), "(>= 3 3)");
    // 6 < 7  ->  (< 6 7)
    scanner = Scanner::new("6 < 7".to_string());
    tokens = scanner.scan_tokens().clone();
    parser = Parser::new(tokens);
    statements = parser.parse().expect("Could not parse sample code.");
    assert_eq!(printer.print(statements).unwrap(), "(< 6 7)");
    // 8 <= 8  ->  (<= 8 8)
    scanner = Scanner::new("8 <= 8".to_string());
    tokens = scanner.scan_tokens().clone();
    parser = Parser::new(tokens);
    statements = parser.parse().expect("Could not parse sample code.");
    assert_eq!(printer.print(statements).unwrap(), "(<= 8 8)");
}

#[test]
fn test_parser_term() {
    //  "-" | "+"
    // 7 - 2 + 3  ->  (+ (- 7 2) 3)
    let mut scanner = Scanner::new("7 - 2 + 3".to_string());
    let tokens = scanner.scan_tokens().clone();
    let mut parser = Parser::new(tokens);
    let statements = parser.parse().expect("Could not parse sample code.");
    let mut printer = AstPrinter;
    assert_eq!(printer.print(statements).unwrap(), "(+ (- 7 2) 3)");
}

#[test]
fn test_parser_factor() {
    // "/" | "*"
    // 8 * 2 / 4  ->  (/ (* 8 2) 4)
    let mut scanner = Scanner::new("8 * 2 / 4".to_string());
    let tokens = scanner.scan_tokens().clone();
    let mut parser = Parser::new(tokens);
    let statements = parser.parse().expect("Could not parse sample code.");
    let mut printer = AstPrinter;
    assert_eq!(printer.print(statements).unwrap(), "(/ (* 8 2) 4)");
}

#[test]
fn test_parser_unary() {
    // "!" | "-"
    // -4 + 5 ->  (+ (- 4) 5)
    let mut scanner = Scanner::new("-4 + 5".to_string());
    let mut tokens = scanner.scan_tokens().clone();
    let mut parser = Parser::new(tokens);
    let mut statements = parser.parse().expect("Could not parse sample code.");
    let mut printer = AstPrinter;
    assert_eq!(printer.print(statements).unwrap(), "(+ (- 4) 5)");
    // !3  ->  (! 3)
    scanner = Scanner::new("!3".to_string());
    tokens = scanner.scan_tokens().clone();
    parser = Parser::new(tokens);
    statements = parser.parse().expect("Could not parse sample code.");
    assert_eq!(printer.print(statements).unwrap(), "(! 3)");
}

#[test]
fn test_parser_primary() {
    // false
    let mut scanner = Scanner::new("false".to_string());
    let mut tokens = scanner.scan_tokens().clone();
    let mut parser = Parser::new(tokens);
    let mut statements = parser.parse().expect("Could not parse sample code.");
    let mut printer = AstPrinter;
    assert_eq!(printer.print(statements).unwrap(), "false");
    // true
    scanner = Scanner::new("true".to_string());
    tokens = scanner.scan_tokens().clone();
    parser = Parser::new(tokens);
    statements = parser.parse().expect("Could not parse sample code.");
    assert_eq!(printer.print(statements).unwrap(), "true");
    // nil
    scanner = Scanner::new("nil".to_string());
    tokens = scanner.scan_tokens().clone();
    parser = Parser::new(tokens);
    statements = parser.parse().expect("Could not parse sample code.");
    assert_eq!(printer.print(statements).unwrap(), "nil");
    // string
    scanner = Scanner::new("\"hello\"".to_string());
    tokens = scanner.scan_tokens().clone();
    parser = Parser::new(tokens);
    statements = parser.parse().expect("Could not parse sample code.");
    assert_eq!(printer.print(statements).unwrap(), "hello");
    // number
    scanner = Scanner::new("3.141519".to_string());
    tokens = scanner.scan_tokens().clone();
    parser = Parser::new(tokens);
    statements = parser.parse().expect("Could not parse sample code.");
    assert_eq!(printer.print(statements).unwrap(), "3.141519");
}

#[test]
fn test_parser_grouping() {
    // (..)
    let mut scanner = Scanner::new("(2 + 3) * 5".to_string());
    let tokens = scanner.scan_tokens().clone();
    let mut parser = Parser::new(tokens);
    let statements = parser.parse().expect("Could not parse sample code.");
    let mut printer = AstPrinter;
    assert_eq!(printer.print(statements).unwrap(), "(* (group (+ 2 3)) 5)");
}

#[test]
fn test_parser_sample_code() {
    let mut scanner = Scanner::new("-123 * 45.67".to_string());
    let tokens = scanner.scan_tokens().clone();
    let mut parser = Parser::new(tokens);
    let statements = parser.parse().expect("Could not parse sample code.");
    let mut printer = AstPrinter;
    assert_eq!(printer.print(statements).unwrap(), "(* (- 123) 45.67)");
}

#[test]
fn unclosed_grouping_reports_missing_paren() {
    // An opened grouping with no `)` fails with the dedicated diagnostic
    // and aborts the parse; no tree is returned and nothing overflows.
    let mut scanner = Scanner::new("(2 + 3".to_string());
    let tokens = scanner.scan_tokens().clone();
    let mut parser = Parser::new(tokens);
    assert!(parser.parse().is_err());
    assert_eq!(parser.diagnostics.len(), 1);
    assert_eq!(
        parser.diagnostics[0],
        "[line 1] Error at end: Expect ')' after expression."
    );
}

#[test]
fn lone_open_paren_fails_cleanly() {
    // A bare `(` consumes the paren, then finds no token that can start
    // an expression: the parse fails without recursing on the paren.
    let mut scanner = Scanner::new("(".to_string());
    let tokens = scanner.scan_tokens().clone();
    let mut parser = Parser::new(tokens);
    assert!(parser.parse().is_err());
    assert_eq!(parser.diagnostics.len(), 1);
    assert_eq!(parser.diagnostics[0], "[line 1] Error at end: Expect expression.");
}

#[test]
fn missing_paren_diagnostic_names_offending_token() {
    let mut scanner = Scanner::new("(1 2".to_string());
    let tokens = scanner.scan_tokens().clone();
    let mut parser = Parser::new(tokens);
    assert!(parser.parse().is_err());
    assert_eq!(
        parser.diagnostics[0],
        "[line 1] Error at '2': Expect ')' after expression."
    );
}

#[test]
fn token_that_cannot_start_expression_fails() {
    let mut scanner = Scanner::new("* 2".to_string());
    let tokens = scanner.scan_tokens().clone();
    let mut parser = Parser::new(tokens);
    assert!(parser.parse().is_err());
    assert_eq!(parser.diagnostics[0], "[line 1] Error at '*': Expect expression.");
}

#[test]
fn stacked_unary_operators() {
    let mut scanner = Scanner::new("!!true".to_string());
    let tokens = scanner.scan_tokens().clone();
    let mut parser = Parser::new(tokens);
    let tree = parser.parse().expect("Could not parse sample code.");
    let mut printer = AstPrinter;
    assert_eq!(printer.print(tree).unwrap(), "(! (! true))");
}

#[test]
fn trailing_tokens_are_left_unconsumed() {
    // A parse reads one expression; what follows stays in the stream.
    let mut scanner = Scanner::new("1 2".to_string());
    let tokens = scanner.scan_tokens().clone();
    let mut parser = Parser::new(tokens);
    let tree = parser.parse().expect("Could not parse sample code.");
    let mut printer = AstPrinter;
    assert_eq!(printer.print(tree).unwrap(), "1");
    assert!(parser.diagnostics.is_empty());
}

#[test]
fn nested_groupings_round_trip() {
    let mut scanner = Scanner::new("((1))".to_string());
    let tokens = scanner.scan_tokens().clone();
    let mut parser = Parser::new(tokens);
    let tree = parser.parse().expect("Could not parse sample code.");
    let mut printer = AstPrinter;
    assert_eq!(printer.print(tree).unwrap(), "(group (group 1))");
}

#[test]
fn synchronize_skips_to_semicolon_boundary() {
    // After a fault at `*`, synchronizing skips past the next semicolon.
    let mut scanner = Scanner::new("* 1 2; 3".to_string());
    let tokens = scanner.scan_tokens().clone();
    let mut parser = Parser::new(tokens);
    assert!(parser.parse().is_err());
    parser.synchronize();
    // The cursor now stands on `3`, the token after the semicolon.
    let tree = parser.parse().expect("Could not parse after recovery.");
    let mut printer = AstPrinter;
    assert_eq!(printer.print(tree).unwrap(), "3");
}

#[test]
fn synchronize_stops_at_statement_keyword() {
    let mut scanner = Scanner::new("* 1 var x".to_string());
    let tokens = scanner.scan_tokens().clone();
    let mut parser = Parser::new(tokens);
    assert!(parser.parse().is_err());
    parser.synchronize();
    // The cursor now stands on `var`; an expression parse fails there.
    assert!(parser.parse().is_err());
    assert_eq!(
        parser.diagnostics.last().unwrap(),
        "[line 1] Error at 'var': Expect expression."
    );
}

#[test]
fn synchronize_reaches_end_of_input() {
    let mut scanner = Scanner::new("* 1 2".to_string());
    let tokens = scanner.scan_tokens().clone();
    let mut parser = Parser::new(tokens);
    assert!(parser.parse().is_err());
    parser.synchronize();
    // Nothing remains: a fresh parse fails at the sentinel.
    assert!(parser.parse().is_err());
    assert_eq!(
        parser.diagnostics.last().unwrap(),
        "[line 1] Error at end: Expect expression."
    );
}
