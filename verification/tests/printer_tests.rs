use lako::error::Error;
use lako::expr_ast::AstPrinter;
use lako::expr_ast::Expr;
use lako::expr_ast::LiteralValue;
use lako::token::Token;
use lako::token::TokenType;

#[test]
fn ast_test_printer() {
    let expression = Expr::Binary {
        lhs: Box::new(Expr::Unary {
            op: Token::new(TokenType::Minus, "-", 1),
            rhs: Box::new(Expr::Literal {
                val: LiteralValue::Number("123".to_string()),
            }),
        }),
        op: Token::new(TokenType::Star, "*", 1),
        rhs: Box::new(Expr::Grouping {
            expr: Box::new(Expr::Literal {
                val: LiteralValue::Number("45.67".to_string()),
            }),
        }),
    };
    let mut printer = AstPrinter;

    assert_eq!(
        printer.print(expression).unwrap(),
        "(* (- 123) (group 45.67))"
    );
}

#[test]
fn expr_ast_test_printer() {
    let expression = Expr::Binary {
        lhs: Box::new(Expr::Unary {
            op: Token::new(TokenType::Minus, "-", 1),
            rhs: Box::new(Expr::Literal {
                val: LiteralValue::Number("123".to_string()),
            }),
        }),
        op: Token::new(TokenType::Star, "*", 1),
        rhs: Box::new(Expr::Grouping {
            expr: Box::new(Expr::Literal {
                val: LiteralValue::Number("45.67".to_string()),
            }),
        }),
    };
    let mut printer = AstPrinter;

    assert_eq!(
        printer.print(expression).unwrap(),
        "(* (- 123) (group 45.67))"
    );
}

#[test]
fn printer_literal_values() {
    let mut printer = AstPrinter;
    let cases: Vec<(LiteralValue, &str)> = vec![
        (LiteralValue::Boolean(true), "true"),
        (LiteralValue::Boolean(false), "false"),
        (LiteralValue::Nil, "nil"),
        (LiteralValue::String("raw text".to_string()), "raw text"),
        (LiteralValue::Number("45.67".to_string()), "45.67"),
    ];
    for (val, expected) in cases {
        let tree = Expr::Literal { val };
        assert_eq!(printer.print(tree).unwrap(), expected);
    }
}

#[test]
fn printer_variable_and_field_shapes() {
    let mut printer = AstPrinter;
    let var = Expr::Variable {
        name: Token::new(
            TokenType::Identifier {
                literal: "speed".to_string(),
            },
            "speed",
            1,
        ),
    };
    assert_eq!(printer.print(var).unwrap(), "speed");

    let this = Expr::This {
        keywd: Token::new(TokenType::This, "this", 1),
    };
    assert_eq!(printer.print(this).unwrap(), "this");

    let sup = Expr::Super {
        keywd: Token::new(TokenType::Super, "super", 1),
        method: Token::new(
            TokenType::Identifier {
                literal: "m".to_string(),
            },
            "m",
            1,
        ),
    };
    assert_eq!(printer.print(sup).unwrap(), "super");

    let get = Expr::Get {
        obj: Box::new(Expr::Variable {
            name: Token::new(
                TokenType::Identifier {
                    literal: "obj".to_string(),
                },
                "obj",
                1,
            ),
        }),
        name: Token::new(
            TokenType::Identifier {
                literal: "field".to_string(),
            },
            "field",
            1,
        ),
    };
    assert_eq!(printer.print(get).unwrap(), "(field obj)");

    let assign = Expr::Assign {
        name: Token::new(
            TokenType::Identifier {
                literal: "x".to_string(),
            },
            "x",
            1,
        ),
        val: Box::new(Expr::Literal {
            val: LiteralValue::Number("1".to_string()),
        }),
    };
    assert_eq!(printer.print(assign).unwrap(), "(x 1)");

    let set = Expr::SetProperty {
        obj: Box::new(Expr::Variable {
            name: Token::new(
                TokenType::Identifier {
                    literal: "obj".to_string(),
                },
                "obj",
                1,
            ),
        }),
        name: Token::new(
            TokenType::Identifier {
                literal: "field".to_string(),
            },
            "field",
            1,
        ),
        val: Box::new(Expr::Literal {
            val: LiteralValue::Nil,
        }),
    };
    assert_eq!(printer.print(set).unwrap(), "(field obj nil)");

    let logical = Expr::Logical {
        lhs: Box::new(Expr::Literal {
            val: LiteralValue::Boolean(true),
        }),
        op: Token::new(TokenType::Or, "or", 1),
        rhs: Box::new(Expr::Literal {
            val: LiteralValue::Boolean(false),
        }),
    };
    assert_eq!(printer.print(logical).unwrap(), "(or true false)");
}

#[test]
fn printer_rejects_call_nodes() {
    let call = Expr::Call {
        callee: Box::new(Expr::Variable {
            name: Token::new(
                TokenType::Identifier {
                    literal: "f".to_string(),
                },
                "f",
                1,
            ),
        }),
        paren: Token::new(TokenType::RightParen, ")", 1),
        arg: Vec::new(),
    };
    let mut printer = AstPrinter;
    match printer.print(call) {
        Err(Error::Runtime { token, message }) => {
            assert_eq!(token.t_type, TokenType::RightParen);
            assert_eq!(message, "Unsupported construct.");
        }
        other => panic!("expected the unsupported-construct error, got {:?}", other),
    }
}

#[test]
fn visitor_dispatch_matches_printer() {
    // Driving the printer through the double-dispatch protocol agrees
    // with calling it directly.
    let tree = Expr::Binary {
        lhs: Box::new(Expr::Literal {
            val: LiteralValue::Number("1".to_string()),
        }),
        op: Token::new(TokenType::Plus, "+", 1),
        rhs: Box::new(Expr::Grouping {
            expr: Box::new(Expr::Literal {
                val: LiteralValue::Number("2".to_string()),
            }),
        }),
    };
    let mut printer = AstPrinter;
    let via_accept = tree.accept(&mut printer).unwrap();
    assert_eq!(via_accept, "(+ 1 (group 2))");
}
