use lako::scanner::Scanner;
use lako::token::TokenType;

#[test]
fn single_char_token() {
    let plus = "+".to_string();
    let mut scanner = Scanner::new(plus);
    let tokens = scanner.scan_tokens();
    assert_eq!(tokens[0].t_type, TokenType::Plus);
}

#[test]
fn longer_tokens() {
    let eqeq = "==".to_string();
    let mut scanner = Scanner::new(eqeq);
    let tokens = scanner.scan_tokens();
    assert_eq!(tokens[0].t_type, TokenType::EqualEqual);
}

#[test]
fn identifier_token() {
    let an_ident = "an_ident".to_string();
    let mut scanner = Scanner::new(an_ident);
    let tokens = scanner.scan_tokens();
    assert_eq!(
        tokens[0].t_type,
        TokenType::Identifier {
            literal: "an_ident".to_string()
        }
    );
}

#[test]
fn keyword_token() {
    let keyw = "class".to_string();
    let mut scanner = Scanner::new(keyw);
    let tokens = scanner.scan_tokens();
    assert_eq!(tokens[0].t_type, TokenType::Class);
}

#[test]
fn literal_string_token() {
    let mut scanner = Scanner::new("\"quoted text\"".to_string());
    let tokens = scanner.scan_tokens();
    assert_eq!(
        tokens[0].t_type,
        TokenType::String {
            literal: "quoted text".to_string()
        }
    );
}

#[test]
fn literal_number_token() {
    let number = "123".to_string();
    let mut scanner = Scanner::new(number);
    let tokens = scanner.scan_tokens();
    assert_eq!(
        tokens[0].t_type,
        TokenType::Number {
            literal: "123".to_string()
        }
    );
}

#[test]
fn expression() {
    let expr = "1+2".to_string();
    let mut scanner = Scanner::new(expr);
    let tokens = scanner.scan_tokens();
    assert_eq!(
        tokens[0].t_type,
        TokenType::Number {
            literal: "1".to_string()
        }
    );
    assert_eq!(tokens[1].t_type, TokenType::Plus);
    assert_eq!(
        tokens[2].t_type,
        TokenType::Number {
            literal: "2".to_string()
        }
    );
}

#[test]
fn expression_with_whitespaces() {
    let expr = " 12 * 21 ".to_string();
    let mut scanner = Scanner::new(expr);
    let tokens = scanner.scan_tokens();
    assert_eq!(
        tokens[0].t_type,
        TokenType::Number {
            literal: "12".to_string()
        }
    );
    assert_eq!(tokens[1].t_type, TokenType::Star);
    assert_eq!(
        tokens[2].t_type,
        TokenType::Number {
            literal: "21".to_string()
        }
    );
}

#[test]
fn assignement_with_comment() {
    let expr = "var a = 1.0; // A comment".to_string();
    let mut scanner = Scanner::new(expr);
    let tokens = scanner.scan_tokens();
    assert_eq!(tokens[0].t_type, TokenType::Var);
    assert_eq!(
        tokens[1].t_type,
        TokenType::Identifier {
            literal: "a".to_string()
        }
    );
    assert_eq!(tokens[2].t_type, TokenType::Equal);
    assert_eq!(
        tokens[3].t_type,
        TokenType::Number {
            literal: "1.0".to_string()
        }
    );
    assert_eq!(tokens[4].t_type, TokenType::Semicolon);
}

#[test]
fn multiline_statements() {
    let expr = "var a = 1.0;\n            var b = \"Hello\";".to_string();
    let mut scanner = Scanner::new(expr);
    let tokens = scanner.scan_tokens();
    assert_eq!(tokens[0].t_type, TokenType::Var);
    assert_eq!(
        tokens[1].t_type,
        TokenType::Identifier {
            literal: "a".to_string()
        }
    );
    assert_eq!(tokens[2].t_type, TokenType::Equal);
    assert_eq!(
        tokens[3].t_type,
        TokenType::Number {
            literal: "1.0".to_string()
        }
    );
    assert_eq!(tokens[4].t_type, TokenType::Semicolon);
    assert_eq!(tokens[5].t_type, TokenType::Var);
    assert_eq!(
        tokens[6].t_type,
        TokenType::Identifier {
            literal: "b".to_string()
        }
    );
    assert_eq!(tokens[7].t_type, TokenType::Equal);
    assert_eq!(
        tokens[8].t_type,
        TokenType::String {
            literal: "Hello".to_string()
        }
    );
    assert_eq!(tokens[9].t_type, TokenType::Semicolon);
    assert_eq!(tokens[1].line, 1);
    assert_eq!(tokens[9].line, 2);
}

#[test]
fn maximal_munch_pairs() {
    // The two-character operator is chosen exactly when `=` follows.
    let mut scanner = Scanner::new("!= ! == = <= < >= >".to_string());
    let tokens = scanner.scan_tokens();
    assert_eq!(tokens[0].t_type, TokenType::BangEqual);
    assert_eq!(tokens[1].t_type, TokenType::Bang);
    assert_eq!(tokens[2].t_type, TokenType::EqualEqual);
    assert_eq!(tokens[3].t_type, TokenType::Equal);
    assert_eq!(tokens[4].t_type, TokenType::LessEqual);
    assert_eq!(tokens[5].t_type, TokenType::Less);
    assert_eq!(tokens[6].t_type, TokenType::GreaterEqual);
    assert_eq!(tokens[7].t_type, TokenType::Greater);
    assert_eq!(tokens[8].t_type, TokenType::Eof);
}

#[test]
fn maximal_munch_against_other_followers() {
    // `!` followed by anything but `=` stays the one-character form.
    let mut scanner = Scanner::new("!! <> =<".to_string());
    let tokens = scanner.scan_tokens();
    assert_eq!(tokens[0].t_type, TokenType::Bang);
    assert_eq!(tokens[1].t_type, TokenType::Bang);
    assert_eq!(tokens[2].t_type, TokenType::Less);
    assert_eq!(tokens[3].t_type, TokenType::Greater);
    assert_eq!(tokens[4].t_type, TokenType::Equal);
    assert_eq!(tokens[5].t_type, TokenType::Less);
}

#[test]
fn scanning_twice_is_identical() {
    let source = "var x = (1.5 + 2) * \"two\"; // done";
    let mut first = Scanner::new(source.to_string());
    let first_tokens = first.scan_tokens().clone();
    let mut second = Scanner::new(source.to_string());
    let second_tokens = second.scan_tokens().clone();
    assert_eq!(first_tokens, second_tokens);
}

#[test]
fn every_scan_ends_with_eof() {
    for source in ["", "1 + 2", "@", "\"open", "// only a comment", "\n\n"] {
        let mut scanner = Scanner::new(source.to_string());
        let tokens = scanner.scan_tokens();
        let last = tokens.last().expect("token sequence never empty");
        assert_eq!(last.t_type, TokenType::Eof);
        assert_eq!(last.lexeme, "");
        assert_eq!(
            tokens.iter().filter(|t| t.t_type == TokenType::Eof).count(),
            1
        );
    }
}

#[test]
fn empty_source_scans_to_lone_eof() {
    let mut scanner = Scanner::new(String::new());
    let tokens = scanner.scan_tokens();
    assert_eq!(tokens.len(), 1);
    assert_eq!(tokens[0].t_type, TokenType::Eof);
    assert_eq!(tokens[0].line, 1);
    assert!(scanner.diagnostics.is_empty());
}

#[test]
fn unrecognized_character_is_skipped() {
    let mut scanner = Scanner::new("@ 1".to_string());
    let tokens = scanner.scan_tokens().clone();
    assert_eq!(tokens.len(), 2);
    assert_eq!(
        tokens[0].t_type,
        TokenType::Number {
            literal: "1".to_string()
        }
    );
    assert_eq!(tokens[1].t_type, TokenType::Eof);
    assert_eq!(scanner.diagnostics.len(), 1);
    assert_eq!(scanner.diagnostics[0], "[line 1] Error: Unexpected character.");
}

#[test]
fn unterminated_string_yields_no_token() {
    let mut scanner = Scanner::new("\"abc".to_string());
    let tokens = scanner.scan_tokens().clone();
    assert_eq!(tokens.len(), 1);
    assert_eq!(tokens[0].t_type, TokenType::Eof);
    assert_eq!(scanner.diagnostics.len(), 1);
    assert_eq!(scanner.diagnostics[0], "[line 1] Error: Unterminated string.");
}

#[test]
fn unterminated_string_diagnostic_counts_lines() {
    let mut scanner = Scanner::new("\"a\nbc".to_string());
    scanner.scan_tokens();
    assert_eq!(scanner.diagnostics[0], "[line 2] Error: Unterminated string.");
}

#[test]
fn token_lines_count_newlines_before_start() {
    // The string token is tagged with the line of its opening quote; the
    // newline inside it still counts for what follows.
    let mut scanner = Scanner::new("\"a\nb\" x".to_string());
    let tokens = scanner.scan_tokens();
    assert_eq!(
        tokens[0].t_type,
        TokenType::String {
            literal: "a\nb".to_string()
        }
    );
    assert_eq!(tokens[0].line, 1);
    assert_eq!(
        tokens[1].t_type,
        TokenType::Identifier {
            literal: "x".to_string()
        }
    );
    assert_eq!(tokens[1].line, 2);
    assert_eq!(tokens[2].t_type, TokenType::Eof);
    assert_eq!(tokens[2].line, 2);
}

#[test]
fn number_with_trailing_dot_splits() {
    let mut scanner = Scanner::new("12.".to_string());
    let tokens = scanner.scan_tokens();
    assert_eq!(
        tokens[0].t_type,
        TokenType::Number {
            literal: "12".to_string()
        }
    );
    assert_eq!(tokens[1].t_type, TokenType::Dot);
    assert_eq!(tokens[2].t_type, TokenType::Eof);
}

#[test]
fn fractional_number_is_one_token() {
    let mut scanner = Scanner::new("3.25+".to_string());
    let tokens = scanner.scan_tokens();
    assert_eq!(
        tokens[0].t_type,
        TokenType::Number {
            literal: "3.25".to_string()
        }
    );
    assert_eq!(tokens[0].lexeme, "3.25");
    assert_eq!(tokens[1].t_type, TokenType::Plus);
}

#[test]
fn comment_runs_to_end_of_line_only() {
    let mut scanner = Scanner::new("1 // ignored ( * \"\n2".to_string());
    let tokens = scanner.scan_tokens();
    assert_eq!(
        tokens[0].t_type,
        TokenType::Number {
            literal: "1".to_string()
        }
    );
    assert_eq!(
        tokens[1].t_type,
        TokenType::Number {
            literal: "2".to_string()
        }
    );
    assert_eq!(tokens[1].line, 2);
    assert_eq!(tokens[2].t_type, TokenType::Eof);
}

#[test]
fn all_keywords_are_recognized() {
    let source = "and class else false fn for if nil or print return super this true var while";
    let mut scanner = Scanner::new(source.to_string());
    let tokens = scanner.scan_tokens();
    let expected = [
        TokenType::And,
        TokenType::Class,
        TokenType::Else,
        TokenType::False,
        TokenType::Fn,
        TokenType::For,
        TokenType::If,
        TokenType::Nil,
        TokenType::Or,
        TokenType::Print,
        TokenType::Return,
        TokenType::Super,
        TokenType::This,
        TokenType::True,
        TokenType::Var,
        TokenType::While,
    ];
    for (i, want) in expected.iter().enumerate() {
        assert_eq!(tokens[i].t_type, *want);
    }
    assert_eq!(tokens[16].t_type, TokenType::Eof);
}
