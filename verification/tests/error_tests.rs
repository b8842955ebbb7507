use lako::error::decimal_string;
use lako::error::error;
use lako::error::parser_error;
use lako::error::report;
use lako::error::Error;
use lako::token::Token;
use lako::token::TokenType;

#[test]
fn decimal_rendering() {
    assert_eq!(decimal_string(0), "0");
    assert_eq!(decimal_string(7), "7");
    assert_eq!(decimal_string(10), "10");
    assert_eq!(decimal_string(123456), "123456");
}

#[test]
fn report_format() {
    assert_eq!(report(3, " at 'x'", "msg"), "[line 3] Error at 'x': msg");
}

#[test]
fn error_format_has_empty_location() {
    assert_eq!(error(12, "Unexpected character."), "[line 12] Error: Unexpected character.");
}

#[test]
fn parser_error_at_end_and_at_lexeme() {
    let eof = Token::new(TokenType::Eof, "", 4);
    assert_eq!(parser_error(&eof, "Expect expression."), "[line 4] Error at end: Expect expression.");
    let star = Token::new(TokenType::Star, "*", 2);
    assert_eq!(
        parser_error(&star, "Expect expression."),
        "[line 2] Error at '*': Expect expression."
    );
}

#[test]
fn error_display_texts() {
    assert_eq!(Error::Parse.display_text(), "ParseError");
    assert_eq!(
        Error::Io("no such file".to_string()).display_text(),
        "IoError no such file"
    );
    let token = Token::new(TokenType::Plus, "+", 1);
    assert_eq!(
        Error::Runtime {
            token,
            message: "bad operand".to_string()
        }
        .display_text(),
        "RuntimeError bad operand"
    );
}

#[test]
fn token_new_copies_its_parts() {
    let t = Token::new(
        TokenType::Identifier {
            literal: "abc".to_string(),
        },
        "abc",
        9,
    );
    assert_eq!(
        t.t_type,
        TokenType::Identifier {
            literal: "abc".to_string()
        }
    );
    assert_eq!(t.lexeme, "abc");
    assert_eq!(t.line, 9);
}
