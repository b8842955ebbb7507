use lako::error::Error;
use lako::run;

#[test]
fn run_renders_an_expression() {
    let (result, diagnostics) = run("1 + 3 == 4".to_string());
    assert_eq!(result.unwrap(), "(== (+ 1 3) 4)");
    assert!(diagnostics.is_empty());
}

#[test]
fn run_reports_a_parse_fault_last() {
    let (result, diagnostics) = run("@ (1".to_string());
    assert!(matches!(result, Err(Error::Parse)));
    assert_eq!(
        diagnostics,
        vec![
            "[line 1] Error: Unexpected character.".to_string(),
            "[line 1] Error at end: Expect ')' after expression.".to_string(),
        ]
    );
}

#[test]
fn run_swallows_scan_faults_and_still_renders() {
    let (result, diagnostics) = run("1 + @ 2".to_string());
    assert_eq!(result.unwrap(), "(+ 1 2)");
    assert_eq!(diagnostics, vec!["[line 1] Error: Unexpected character.".to_string()]);
}
