//! The recursive-descent parser.
//!
//! A parser consumes a token sequence ending in the end-of-input sentinel
//! through a single cursor with one-token lookahead, under the grammar
//!
//! ```text
//! expression -> equality
//! equality   -> comparison ( ("!=" | "==") comparison )*
//! comparison -> term ( (">" | ">=" | "<" | "<=") term )*
//! term       -> factor ( ("-" | "+") factor )*
//! factor     -> unary ( ("/" | "*") unary )*
//! unary      -> ("!" | "-") unary | primary
//! primary    -> NUMBER | STRING | "true" | "false" | "nil" | "(" expression ")"
//! ```
//!
//! Each binary rule is left-associative: it rewraps the accumulated
//! expression as the left child of every new node.  The whole behaviour,
//! including each failure and its diagnostic, is stated by
//! `parse_expression`.

use vstd::prelude::*;

use crate::error::parser_error;
use crate::error::parser_error_text;
use crate::error::Error;
use crate::expr_ast::render;
use crate::expr_ast::Expr;
use crate::expr_ast::ExprV;
use crate::expr_ast::LiteralValue;
use crate::expr_ast::LiteralValueV;
use crate::scanner::scan_spec;
use crate::scanner::strings_view;
use crate::scanner::tokens_view;
use crate::token::Token;
use crate::token::TokenType;
use crate::token::TokenTypeV;
use crate::token::TokenV;

verus! {

/// A parse-time fault: the offending token and the message reported with
/// it.
pub struct ParseErrV {
    pub token: TokenV,
    pub message: Seq<char>,
}

/// A well-formed token sequence: what the scanner hands over.  It is
/// non-empty and its final element is the end-of-input sentinel.
pub open spec fn wf_tokens(ts: Seq<TokenV>) -> bool {
    ts.len() > 0 && ts.last().t_type is Eof
}

/// Whether the token at `p` may start a statement: the categories at
/// which error recovery would resume a statement-level parse.
pub open spec fn starts_statement(ts: Seq<TokenV>, p: nat) -> bool {
    ||| ts[p as int].t_type is Class
    ||| ts[p as int].t_type is Fn
    ||| ts[p as int].t_type is Var
    ||| ts[p as int].t_type is For
    ||| ts[p as int].t_type is If
    ||| ts[p as int].t_type is While
    ||| ts[p as int].t_type is Print
    ||| ts[p as int].t_type is Return
}

/// Where skipping from `q` stops: at the sentinel, just after a
/// semicolon, or on a statement-starting keyword.
pub open spec fn sync_from(ts: Seq<TokenV>, q: nat) -> nat
    decreases ts.len() - q,
{
    if q >= ts.len() || ts[q as int].t_type is Eof {
        q
    } else if ts[q - 1].t_type is Semicolon {
        q
    } else if starts_statement(ts, q) {
        q
    } else {
        sync_from(ts, q + 1)
    }
}

/// Where synchronization from the token at `p` stops: the token at `p`
/// is skipped first, unless it is already the sentinel.
pub open spec fn synchronize_pos(ts: Seq<TokenV>, p: nat) -> nat {
    if p < ts.len() && !(ts[p as int].t_type is Eof) {
        sync_from(ts, p + 1)
    } else {
        sync_from(ts, p)
    }
}

/// `primary -> NUMBER | STRING | "true" | "false" | "nil" | "(" expression ")"`.
pub open spec fn parse_primary(ts: Seq<TokenV>, p: nat) -> Result<(ExprV, nat), ParseErrV>
    decreases ts.len() - p, 0int,
{
    if p < ts.len() {
        match ts[p as int].t_type {
            TokenTypeV::False => Ok(
                (ExprV::Literal { val: LiteralValueV::Boolean(false) }, p + 1),
            ),
            TokenTypeV::True => Ok((ExprV::Literal { val: LiteralValueV::Boolean(true) }, p + 1)),
            TokenTypeV::Nil => Ok((ExprV::Literal { val: LiteralValueV::Nil }, p + 1)),
            TokenTypeV::String { literal } => Ok(
                (ExprV::Literal { val: LiteralValueV::String(literal) }, p + 1),
            ),
            TokenTypeV::Number { literal } => Ok(
                (ExprV::Literal { val: LiteralValueV::Number(literal) }, p + 1),
            ),
            TokenTypeV::LeftParen => match parse_expression(ts, p + 1) {
                Ok((e, p1)) => if p1 < ts.len() && ts[p1 as int].t_type is RightParen {
                    Ok((ExprV::Grouping { expr: Box::new(e) }, p1 + 1))
                } else {
                    Err(
                        ParseErrV {
                            token: ts[p1 as int],
                            message: "Expect ')' after expression."@,
                        },
                    )
                },
                Err(err) => Err(err),
            },
            _ => Err(ParseErrV { token: ts[p as int], message: "Expect expression."@ }),
        }
    } else {
        Err(ParseErrV { token: ts[p as int], message: "Expect expression."@ })
    }
}

/// `unary -> ("!" | "-") unary | primary`: prefix operators stack
/// right-recursively.
pub open spec fn parse_unary(ts: Seq<TokenV>, p: nat) -> Result<(ExprV, nat), ParseErrV>
    decreases ts.len() - p, 1int,
{
    if p < ts.len() && (ts[p as int].t_type is Bang || ts[p as int].t_type is Minus) {
        let op = ts[p as int];
        match parse_unary(ts, p + 1) {
            Ok((r, p1)) => Ok((ExprV::Unary { op, rhs: Box::new(r) }, p1)),
            Err(err) => Err(err),
        }
    } else {
        parse_primary(ts, p)
    }
}

/// The left-leaning chain of `factor` operators already holding `lhs`.
pub open spec fn factor_rest(ts: Seq<TokenV>, lhs: ExprV, p: nat) -> Result<
    (ExprV, nat),
    ParseErrV,
>
    decreases ts.len() - p, 2int,
{
    if p < ts.len() && (ts[p as int].t_type is Slash || ts[p as int].t_type is Star) {
        let op = ts[p as int];
        match parse_unary(ts, p + 1) {
            Ok((r, p1)) => {
                let e = ExprV::Binary { lhs: Box::new(lhs), op, rhs: Box::new(r) };
                if p < p1 && p1 <= ts.len() {
                    factor_rest(ts, e, p1)
                } else {
                    Ok((e, p1))
                }
            },
            Err(err) => Err(err),
        }
    } else {
        Ok((lhs, p))
    }
}

/// `factor -> unary ( ("/" | "*") unary )*`.
pub open spec fn parse_factor(ts: Seq<TokenV>, p: nat) -> Result<(ExprV, nat), ParseErrV>
    decreases ts.len() - p, 3int,
{
    match parse_unary(ts, p) {
        Ok((e, p1)) => if p < p1 && p1 <= ts.len() {
            factor_rest(ts, e, p1)
        } else {
            Ok((e, p1))
        },
        Err(err) => Err(err),
    }
}

/// The left-leaning chain of `term` operators already holding `lhs`.
pub open spec fn term_rest(ts: Seq<TokenV>, lhs: ExprV, p: nat) -> Result<(ExprV, nat), ParseErrV>
    decreases ts.len() - p, 4int,
{
    if p < ts.len() && (ts[p as int].t_type is Minus || ts[p as int].t_type is Plus) {
        let op = ts[p as int];
        match parse_factor(ts, p + 1) {
            Ok((r, p1)) => {
                let e = ExprV::Binary { lhs: Box::new(lhs), op, rhs: Box::new(r) };
                if p < p1 && p1 <= ts.len() {
                    term_rest(ts, e, p1)
                } else {
                    Ok((e, p1))
                }
            },
            Err(err) => Err(err),
        }
    } else {
        Ok((lhs, p))
    }
}

/// `term -> factor ( ("-" | "+") factor )*`.
pub open spec fn parse_term(ts: Seq<TokenV>, p: nat) -> Result<(ExprV, nat), ParseErrV>
    decreases ts.len() - p, 5int,
{
    match parse_factor(ts, p) {
        Ok((e, p1)) => if p < p1 && p1 <= ts.len() {
            term_rest(ts, e, p1)
        } else {
            Ok((e, p1))
        },
        Err(err) => Err(err),
    }
}

/// The left-leaning chain of `comparison` operators already holding
/// `lhs`.
pub open spec fn comparison_rest(ts: Seq<TokenV>, lhs: ExprV, p: nat) -> Result<
    (ExprV, nat),
    ParseErrV,
>
    decreases ts.len() - p, 6int,
{
    if p < ts.len() && (ts[p as int].t_type is Greater || ts[p as int].t_type is GreaterEqual
        || ts[p as int].t_type is Less || ts[p as int].t_type is LessEqual) {
        let op = ts[p as int];
        match parse_term(ts, p + 1) {
            Ok((r, p1)) => {
                let e = ExprV::Binary { lhs: Box::new(lhs), op, rhs: Box::new(r) };
                if p < p1 && p1 <= ts.len() {
                    comparison_rest(ts, e, p1)
                } else {
                    Ok((e, p1))
                }
            },
            Err(err) => Err(err),
        }
    } else {
        Ok((lhs, p))
    }
}

/// `comparison -> term ( (">" | ">=" | "<" | "<=") term )*`.
pub open spec fn parse_comparison(ts: Seq<TokenV>, p: nat) -> Result<(ExprV, nat), ParseErrV>
    decreases ts.len() - p, 7int,
{
    match parse_term(ts, p) {
        Ok((e, p1)) => if p < p1 && p1 <= ts.len() {
            comparison_rest(ts, e, p1)
        } else {
            Ok((e, p1))
        },
        Err(err) => Err(err),
    }
}

/// The left-leaning chain of `equality` operators already holding `lhs`.
pub open spec fn equality_rest(ts: Seq<TokenV>, lhs: ExprV, p: nat) -> Result<
    (ExprV, nat),
    ParseErrV,
>
    decreases ts.len() - p, 8int,
{
    if p < ts.len() && (ts[p as int].t_type is BangEqual || ts[p as int].t_type is EqualEqual) {
        let op = ts[p as int];
        match parse_comparison(ts, p + 1) {
            Ok((r, p1)) => {
                let e = ExprV::Binary { lhs: Box::new(lhs), op, rhs: Box::new(r) };
                if p < p1 && p1 <= ts.len() {
                    equality_rest(ts, e, p1)
                } else {
                    Ok((e, p1))
                }
            },
            Err(err) => Err(err),
        }
    } else {
        Ok((lhs, p))
    }
}

/// `equality -> comparison ( ("!=" | "==") comparison )*`.
pub open spec fn parse_equality(ts: Seq<TokenV>, p: nat) -> Result<(ExprV, nat), ParseErrV>
    decreases ts.len() - p, 9int,
{
    match parse_comparison(ts, p) {
        Ok((e, p1)) => if p < p1 && p1 <= ts.len() {
            equality_rest(ts, e, p1)
        } else {
            Ok((e, p1))
        },
        Err(err) => Err(err),
    }
}

/// `expression -> equality`: what one parse call decides, from the token
/// at `p`.  Success yields the tree and the position one past the last
/// token consumed; tokens after it are left for the caller.
pub open spec fn parse_expression(ts: Seq<TokenV>, p: nat) -> Result<(ExprV, nat), ParseErrV>
    decreases ts.len() - p, 10int,
{
    parse_equality(ts, p)
}

/// The parser: a token sequence and a cursor with one-token lookahead.
/// Parse-time diagnostics are formatted and collected on the parser.
pub struct Parser {
    pub tokens: Vec<Token>,
    pub current: usize,
    pub diagnostics: Vec<String>,
}

/// What a grammar rule's call promises: the tokens are untouched and the
/// call agrees with `spec_result`, the rule's mathematical outcome.  On
/// success the cursor stands one past the last token consumed, strictly
/// after where it began, and no diagnostic was added; on failure the
/// typed error is `Parse` and exactly the diagnostic for the offending
/// token was added.
pub open spec fn rule_post(
    pre: Parser,
    post: Parser,
    r: Result<Expr, Error>,
    spec_result: Result<(ExprV, nat), ParseErrV>,
) -> bool {
    &&& post.tokens == pre.tokens
    &&& post.wf()
    &&& match spec_result {
        Ok((e, p1)) => {
            &&& r matches Ok(expr) && expr@ == e
            &&& post.current as nat == p1
            &&& pre.current < post.current
            &&& post.diagnostics == pre.diagnostics
        },
        Err(perr) => {
            &&& r matches Err(err) && err is Parse
            &&& strings_view(post.diagnostics@) == strings_view(pre.diagnostics@).push(
                parser_error_text(perr.token, perr.message),
            )
        },
    }
}

impl Parser {
    /// The models of the tokens held.
    pub open spec fn toks(&self) -> Seq<TokenV> {
        tokens_view(self.tokens@)
    }

    /// Well-formedness: the tokens are a scanner's output shape and the
    /// cursor stands on a token.
    pub open spec fn wf(&self) -> bool {
        &&& wf_tokens(self.toks())
        &&& self.current < self.tokens@.len()
    }

    /// A parser over `tokens`, which must end with the end-of-input
    /// sentinel, as every scanned sequence does.
    pub fn new(tokens: Vec<Token>) -> (p: Parser)
        requires
            wf_tokens(tokens_view(tokens@)),
        ensures
            p.wf(),
            p.tokens == tokens,
            p.current == 0,
            p.diagnostics@ == Seq::<String>::empty(),
    {
        Parser { tokens, current: 0, diagnostics: Vec::new() }
    }

    /// Parses one expression from the front of the tokens: exactly what
    /// `parse_expression` states.  Tokens past the expression are left
    /// unconsumed; no partial tree escapes a failed parse.
    pub fn parse(&mut self) -> (r: Result<Expr, Error>)
        requires
            old(self).wf(),
        ensures
            rule_post(
                *old(self),
                *final(self),
                r,
                parse_expression(old(self).toks(), old(self).current as nat),
            ),
    {
        self.expression()
    }

    /// The current token, unconsumed.
    fn peek(&self) -> (r: &Token)
        requires
            self.current < self.tokens@.len(),
        ensures
            *r == self.tokens@[self.current as int],
    {
        &self.tokens[self.current]
    }

    /// The most recently consumed token.
    fn previous(&self) -> (r: &Token)
        requires
            0 < self.current < self.tokens@.len() + 1,
            self.tokens@.len() > 0,
        ensures
            *r == self.tokens@[self.current - 1],
    {
        &self.tokens[self.current - 1]
    }

    /// Whether the cursor has reached the end-of-input sentinel.
    fn is_at_end(&self) -> (r: bool)
        requires
            self.current < self.tokens@.len(),
        ensures
            r == (self.toks()[self.current as int].t_type is Eof),
    {
        self.peek().t_type == TokenType::Eof
    }

    /// Consumes the current token and returns it; the cursor never moves
    /// past the sentinel.
    fn advance(&mut self) -> (r: &Token)
        requires
            old(self).wf(),
            !(old(self).toks()[old(self).current as int].t_type is Eof),
        ensures
            final(self).wf(),
            final(self).tokens == old(self).tokens,
            final(self).diagnostics == old(self).diagnostics,
            final(self).current == old(self).current + 1,
            *r == old(self).tokens@[old(self).current as int],
    {
        if !self.is_at_end() {
            let n = self.tokens.len();
            proof {
                assert(old(self).toks().last().t_type is Eof);
                assert(old(self).current != n - 1);
            }
            self.current = self.current + 1;
        }
        self.previous()
    }

    /// Whether the current token has category `t`; the sentinel matches
    /// nothing.
    fn check(&self, t: &TokenType) -> (r: bool)
        requires
            self.wf(),
        ensures
            r == (!(self.toks()[self.current as int].t_type is Eof) && t@ == self.toks()[
                self.current as int
            ].t_type),
    {
        if self.is_at_end() {
            return false;
        }
        *t == self.peek().t_type
    }

    /// Consumes the current token exactly when its category is among
    /// `token_types`.
    fn t_match(&mut self, token_types: &Vec<TokenType>) -> (r: bool)
        requires
            old(self).wf(),
        ensures
            final(self).wf(),
            final(self).tokens == old(self).tokens,
            final(self).diagnostics == old(self).diagnostics,
            r ==> ({
                &&& !(old(self).toks()[old(self).current as int].t_type is Eof)
                &&& exists|i: int|
                    0 <= i < token_types@.len() && old(self).toks()[old(self).current as int].t_type
                        == token_types@[i]@
                &&& final(self).current == old(self).current + 1
            }),
            !r ==> ({
                &&& final(self).current == old(self).current
                &&& forall|i: int|
                    0 <= i < token_types@.len() ==> !(!(old(self).toks()[old(
                        self,
                    ).current as int].t_type is Eof) && old(self).toks()[old(
                        self,
                    ).current as int].t_type == token_types@[i]@)
            }),
    {
        let n = token_types.len();
        let mut i: usize = 0;
        while i < n
            invariant
                self == old(self),
                self.wf(),
                i <= n,
                n == token_types@.len(),
                forall|j: int|
                    0 <= j < i ==> !(!(self.toks()[self.current as int].t_type is Eof)
                        && self.toks()[self.current as int].t_type == token_types@[j]@),
            decreases n - i,
        {
            if self.check(&token_types[i]) {
                self.advance();
                return true;
            }
            i = i + 1;
        }
        false
    }

    /// Consumes the current token when its category is `t_type`; else
    /// formats the diagnostic for the current token and fails.
    fn consume(&mut self, t_type: TokenType, message: &str) -> (r: Result<Token, Error>)
        requires
            old(self).wf(),
        ensures
            final(self).wf(),
            final(self).tokens == old(self).tokens,
            ({
                let here = old(self).toks()[old(self).current as int];
                if !(here.t_type is Eof) && t_type@ == here.t_type {
                    &&& r matches Ok(tok) && tok@ == here
                    &&& final(self).current == old(self).current + 1
                    &&& final(self).diagnostics == old(self).diagnostics
                } else {
                    &&& r matches Err(e) && e is Parse
                    &&& final(self).current == old(self).current
                    &&& strings_view(final(self).diagnostics@) == strings_view(
                        old(self).diagnostics@,
                    ).push(parser_error_text(here, message@))
                }
            }),
    {
        if self.check(&t_type) {
            Ok(self.advance().duplicate())
        } else {
            let tok = self.peek().duplicate();
            Err(self.error(&tok, message))
        }
    }

    /// Formats and collects the diagnostic for a parse fault at `token`,
    /// and returns the typed error that aborts the parse.
    fn error(&mut self, token: &Token, message: &str) -> (e: Error)
        ensures
            final(self).tokens == old(self).tokens,
            final(self).current == old(self).current,
            e is Parse,
            strings_view(final(self).diagnostics@) == strings_view(old(self).diagnostics@).push(
                parser_error_text(token@, message@),
            ),
    {
        let d = parser_error(token, message);
        self.diagnostics.push(d);
        proof {
            crate::scanner::lemma_strings_view_push(old(self).diagnostics@, d);
        }
        Error::Parse
    }

    /// Skips tokens up to the next statement boundary: past a semicolon,
    /// or to a statement-starting keyword, or to the end of input.  It is
    /// reserved for error recovery across statements; the expression
    /// grammar of this crate never invokes it, since a parse fault aborts
    /// the whole call.
    pub fn synchronize(&mut self)
        requires
            old(self).wf(),
        ensures
            final(self).wf(),
            final(self).tokens == old(self).tokens,
            final(self).diagnostics == old(self).diagnostics,
            final(self).current as nat == synchronize_pos(old(self).toks(), old(self).current as nat),
    {
        let ghost ts = old(self).toks();
        let ghost p0 = old(self).current as nat;
        if !self.is_at_end() {
            self.advance();
        }
        while !self.is_at_end()
            invariant
                self.wf(),
                self.tokens == old(self).tokens,
                self.diagnostics == old(self).diagnostics,
                ts == tokens_view(self.tokens@),
                p0 == old(self).current as nat,
                self.toks()[self.current as int].t_type is Eof || self.current >= 1,
                synchronize_pos(ts, p0) == sync_from(ts, self.current as nat),
            decreases self.tokens@.len() - self.current,
        {
            if self.previous().t_type == TokenType::Semicolon {
                return;
            }
            let here = self.peek().duplicate();
            match here.t_type {
                TokenType::Class => {
                    return;
                },
                TokenType::Fn => {
                    return;
                },
                TokenType::Var => {
                    return;
                },
                TokenType::For => {
                    return;
                },
                TokenType::If => {
                    return;
                },
                TokenType::While => {
                    return;
                },
                TokenType::Print => {
                    return;
                },
                TokenType::Return => {
                    return;
                },
                _ => {},
            }
            self.advance();
        }
    }

    /// `expression -> equality`.
    fn expression(&mut self) -> (r: Result<Expr, Error>)
        requires
            old(self).wf(),
        ensures
            rule_post(
                *old(self),
                *final(self),
                r,
                parse_expression(old(self).toks(), old(self).current as nat),
            ),
        decreases old(self).tokens@.len() - old(self).current, 10int,
    {
        self.equality()
    }

    /// `equality -> comparison ( ("!=" | "==") comparison )*`.
    #[verifier::rlimit(60)]
    fn equality(&mut self) -> (r: Result<Expr, Error>)
        requires
            old(self).wf(),
        ensures
            rule_post(
                *old(self),
                *final(self),
                r,
                parse_equality(old(self).toks(), old(self).current as nat),
            ),
        decreases old(self).tokens@.len() - old(self).current, 9int,
    {
        let ghost ts = old(self).toks();
        let ghost p0 = old(self).current as nat;
        let mut expr = match self.comparison() {
            Ok(e) => e,
            Err(err) => {
                return Err(err);
            },
        };
        let kinds = vec![TokenType::BangEqual, TokenType::EqualEqual];
        loop
            invariant
                self.wf(),
                self.tokens == old(self).tokens,
                self.diagnostics == old(self).diagnostics,
                ts == tokens_view(self.tokens@),
                p0 == old(self).current as nat,
                p0 < self.current,
                kinds@.len() == 2,
                kinds@[0] == TokenType::BangEqual,
                kinds@[1] == TokenType::EqualEqual,
                parse_equality(ts, p0) == equality_rest(ts, expr@, self.current as nat),
            ensures
                self.wf(),
                self.tokens == old(self).tokens,
                self.diagnostics == old(self).diagnostics,
                p0 < self.current,
                parse_equality(ts, p0) == Ok::<(ExprV, nat), ParseErrV>((expr@, self.current as nat)),
            decreases self.tokens@.len() - self.current, 9int,
        {
            if !self.t_match(&kinds) {
                proof {
                    assert(equality_rest(ts, expr@, self.current as nat) == Ok::<(ExprV, nat), ParseErrV>(
                        (expr@, self.current as nat),
                    ));
                }
                break;
            }
            proof {
                assert(ts[self.current - 1].t_type is BangEqual || ts[self.current - 1].t_type is EqualEqual);
            }
            let op = self.previous().duplicate();
            let rhs = match self.comparison() {
                Ok(e) => e,
                Err(err) => {
                    return Err(err);
                },
            };
            expr = Expr::Binary { lhs: Box::new(expr), op, rhs: Box::new(rhs) };
        }
        Ok(expr)
    }

    /// `comparison -> term ( (">" | ">=" | "<" | "<=") term )*`.
    #[verifier::rlimit(60)]
    fn comparison(&mut self) -> (r: Result<Expr, Error>)
        requires
            old(self).wf(),
        ensures
            rule_post(
                *old(self),
                *final(self),
                r,
                parse_comparison(old(self).toks(), old(self).current as nat),
            ),
        decreases old(self).tokens@.len() - old(self).current, 7int,
    {
        let ghost ts = old(self).toks();
        let ghost p0 = old(self).current as nat;
        let mut expr = match self.term() {
            Ok(e) => e,
            Err(err) => {
                return Err(err);
            },
        };
        let kinds = vec![TokenType::Greater, TokenType::GreaterEqual, TokenType::Less, TokenType::LessEqual];
        loop
            invariant
                self.wf(),
                self.tokens == old(self).tokens,
                self.diagnostics == old(self).diagnostics,
                ts == tokens_view(self.tokens@),
                p0 == old(self).current as nat,
                p0 < self.current,
                kinds@.len() == 4,
                kinds@[0] == TokenType::Greater,
                kinds@[1] == TokenType::GreaterEqual,
                kinds@[2] == TokenType::Less,
                kinds@[3] == TokenType::LessEqual,
                parse_comparison(ts, p0) == comparison_rest(ts, expr@, self.current as nat),
            ensures
                self.wf(),
                self.tokens == old(self).tokens,
                self.diagnostics == old(self).diagnostics,
                p0 < self.current,
                parse_comparison(ts, p0) == Ok::<(ExprV, nat), ParseErrV>((expr@, self.current as nat)),
            decreases self.tokens@.len() - self.current, 7int,
        {
            if !self.t_match(&kinds) {
                proof {
                    assert(comparison_rest(ts, expr@, self.current as nat) == Ok::<(ExprV, nat), ParseErrV>(
                        (expr@, self.current as nat),
                    ));
                }
                break;
            }
            proof {
                assert(ts[self.current - 1].t_type is Greater || ts[self.current - 1].t_type is GreaterEqual || ts[self.current - 1].t_type is Less || ts[self.current - 1].t_type is LessEqual);
            }
            let op = self.previous().duplicate();
            let rhs = match self.term() {
                Ok(e) => e,
                Err(err) => {
                    return Err(err);
                },
            };
            expr = Expr::Binary { lhs: Box::new(expr), op, rhs: Box::new(rhs) };
        }
        Ok(expr)
    }

    /// `term -> factor ( ("-" | "+") factor )*`.
    #[verifier::rlimit(60)]
    fn term(&mut self) -> (r: Result<Expr, Error>)
        requires
            old(self).wf(),
        ensures
            rule_post(
                *old(self),
                *final(self),
                r,
                parse_term(old(self).toks(), old(self).current as nat),
            ),
        decreases old(self).tokens@.len() - old(self).current, 5int,
    {
        let ghost ts = old(self).toks();
        let ghost p0 = old(self).current as nat;
        let mut expr = match self.factor() {
            Ok(e) => e,
            Err(err) => {
                return Err(err);
            },
        };
        let kinds = vec![TokenType::Minus, TokenType::Plus];
        loop
            invariant
                self.wf(),
                self.tokens == old(self).tokens,
                self.diagnostics == old(self).diagnostics,
                ts == tokens_view(self.tokens@),
                p0 == old(self).current as nat,
                p0 < self.current,
                kinds@.len() == 2,
                kinds@[0] == TokenType::Minus,
                kinds@[1] == TokenType::Plus,
                parse_term(ts, p0) == term_rest(ts, expr@, self.current as nat),
            ensures
                self.wf(),
                self.tokens == old(self).tokens,
                self.diagnostics == old(self).diagnostics,
                p0 < self.current,
                parse_term(ts, p0) == Ok::<(ExprV, nat), ParseErrV>((expr@, self.current as nat)),
            decreases self.tokens@.len() - self.current, 5int,
        {
            if !self.t_match(&kinds) {
                proof {
                    assert(term_rest(ts, expr@, self.current as nat) == Ok::<(ExprV, nat), ParseErrV>(
                        (expr@, self.current as nat),
                    ));
                }
                break;
            }
            proof {
                assert(ts[self.current - 1].t_type is Minus || ts[self.current - 1].t_type is Plus);
            }
            let op = self.previous().duplicate();
            let rhs = match self.factor() {
                Ok(e) => e,
                Err(err) => {
                    return Err(err);
                },
            };
            expr = Expr::Binary { lhs: Box::new(expr), op, rhs: Box::new(rhs) };
        }
        Ok(expr)
    }

    /// `factor -> unary ( ("/" | "*") unary )*`.
    #[verifier::rlimit(60)]
    fn factor(&mut self) -> (r: Result<Expr, Error>)
        requires
            old(self).wf(),
        ensures
            rule_post(
                *old(self),
                *final(self),
                r,
                parse_factor(old(self).toks(), old(self).current as nat),
            ),
        decreases old(self).tokens@.len() - old(self).current, 3int,
    {
        let ghost ts = old(self).toks();
        let ghost p0 = old(self).current as nat;
        let mut expr = match self.unary() {
            Ok(e) => e,
            Err(err) => {
                return Err(err);
            },
        };
        let kinds = vec![TokenType::Slash, TokenType::Star];
        loop
            invariant
                self.wf(),
                self.tokens == old(self).tokens,
                self.diagnostics == old(self).diagnostics,
                ts == tokens_view(self.tokens@),
                p0 == old(self).current as nat,
                p0 < self.current,
                kinds@.len() == 2,
                kinds@[0] == TokenType::Slash,
                kinds@[1] == TokenType::Star,
                parse_factor(ts, p0) == factor_rest(ts, expr@, self.current as nat),
            ensures
                self.wf(),
                self.tokens == old(self).tokens,
                self.diagnostics == old(self).diagnostics,
                p0 < self.current,
                parse_factor(ts, p0) == Ok::<(ExprV, nat), ParseErrV>((expr@, self.current as nat)),
            decreases self.tokens@.len() - self.current, 3int,
        {
            if !self.t_match(&kinds) {
                proof {
                    assert(factor_rest(ts, expr@, self.current as nat) == Ok::<(ExprV, nat), ParseErrV>(
                        (expr@, self.current as nat),
                    ));
                }
                break;
            }
            proof {
                assert(ts[self.current - 1].t_type is Slash || ts[self.current - 1].t_type is Star);
            }
            let op = self.previous().duplicate();
            let rhs = match self.unary() {
                Ok(e) => e,
                Err(err) => {
                    return Err(err);
                },
            };
            expr = Expr::Binary { lhs: Box::new(expr), op, rhs: Box::new(rhs) };
        }
        Ok(expr)
    }

    /// `unary -> ("!" | "-") unary | primary`.
    fn unary(&mut self) -> (r: Result<Expr, Error>)
        requires
            old(self).wf(),
        ensures
            rule_post(
                *old(self),
                *final(self),
                r,
                parse_unary(old(self).toks(), old(self).current as nat),
            ),
        decreases old(self).tokens@.len() - old(self).current, 1int,
    {
        let kinds = vec![TokenType::Bang, TokenType::Minus];
        if self.t_match(&kinds) {
            let op = self.previous().duplicate();
            let rhs = match self.unary() {
                Ok(e) => e,
                Err(err) => {
                    return Err(err);
                },
            };
            Ok(Expr::Unary { op, rhs: Box::new(rhs) })
        } else {
            self.primary()
        }
    }

    /// `primary -> NUMBER | STRING | "true" | "false" | "nil" | "("
    /// expression ")"`.  The opening paren is consumed before the inner
    /// expression is parsed, so a bare `(` cannot recurse on itself; a
    /// token that can start no primary fails with its diagnostic.
    fn primary(&mut self) -> (r: Result<Expr, Error>)
        requires
            old(self).wf(),
        ensures
            rule_post(
                *old(self),
                *final(self),
                r,
                parse_primary(old(self).toks(), old(self).current as nat),
            ),
        decreases old(self).tokens@.len() - old(self).current, 0int,
    {
        let t = self.peek().duplicate();
        let expr = match t.t_type {
            TokenType::False => Expr::Literal { val: LiteralValue::Boolean(false) },
            TokenType::True => Expr::Literal { val: LiteralValue::Boolean(true) },
            TokenType::Nil => Expr::Literal { val: LiteralValue::Nil },
            TokenType::String { literal } => Expr::Literal { val: LiteralValue::String(literal) },
            TokenType::Number { literal } => Expr::Literal { val: LiteralValue::Number(literal) },
            TokenType::LeftParen => {
                self.advance();
                let expression = match self.expression() {
                    Ok(e) => e,
                    Err(err) => {
                        return Err(err);
                    },
                };
                match self.consume(TokenType::RightParen, "Expect ')' after expression.") {
                    Ok(_) => {},
                    Err(err) => {
                        return Err(err);
                    },
                }
                return Ok(Expr::Grouping { expr: Box::new(expression) });
            },
            _ => {
                let tok = self.peek().duplicate();
                let err = self.error(&tok, "Expect expression.");
                return Err(err);
            },
        };
        self.advance();
        Ok(expr)
    }
}

/// A parsed primary renders: the grammar builds only literal and
/// grouping nodes here.
proof fn lemma_primary_printable(ts: Seq<TokenV>, p: nat)
    ensures
        parse_primary(ts, p) matches Ok((e, _)) ==> render(e) is Ok,
    decreases ts.len() - p, 0int,
{
    if p < ts.len() && ts[p as int].t_type is LeftParen {
        lemma_expression_printable(ts, p + 1);
    }
}

proof fn lemma_unary_printable(ts: Seq<TokenV>, p: nat)
    ensures
        parse_unary(ts, p) matches Ok((e, _)) ==> render(e) is Ok,
    decreases ts.len() - p, 1int,
{
    if p < ts.len() && (ts[p as int].t_type is Bang || ts[p as int].t_type is Minus) {
        lemma_unary_printable(ts, p + 1);
    } else {
        lemma_primary_printable(ts, p);
    }
}

proof fn lemma_factor_rest_printable(ts: Seq<TokenV>, lhs: ExprV, p: nat)
    requires
        render(lhs) is Ok,
    ensures
        factor_rest(ts, lhs, p) matches Ok((e, _)) ==> render(e) is Ok,
    decreases ts.len() - p, 2int,
{
    if p < ts.len() && (ts[p as int].t_type is Slash || ts[p as int].t_type is Star) {
        lemma_unary_printable(ts, p + 1);
        match parse_unary(ts, p + 1) {
            Ok((r, p1)) => {
                let e = ExprV::Binary { lhs: Box::new(lhs), op: ts[p as int], rhs: Box::new(r) };
                if p < p1 && p1 <= ts.len() {
                    lemma_factor_rest_printable(ts, e, p1);
                }
            },
            Err(_) => {},
        }
    }
}

proof fn lemma_factor_printable(ts: Seq<TokenV>, p: nat)
    ensures
        parse_factor(ts, p) matches Ok((e, _)) ==> render(e) is Ok,
    decreases ts.len() - p, 3int,
{
    lemma_unary_printable(ts, p);
    match parse_unary(ts, p) {
        Ok((e, p1)) => {
            if p < p1 && p1 <= ts.len() {
                lemma_factor_rest_printable(ts, e, p1);
            }
        },
        Err(_) => {},
    }
}

proof fn lemma_term_rest_printable(ts: Seq<TokenV>, lhs: ExprV, p: nat)
    requires
        render(lhs) is Ok,
    ensures
        term_rest(ts, lhs, p) matches Ok((e, _)) ==> render(e) is Ok,
    decreases ts.len() - p, 4int,
{
    if p < ts.len() && (ts[p as int].t_type is Minus || ts[p as int].t_type is Plus) {
        lemma_factor_printable(ts, p + 1);
        match parse_factor(ts, p + 1) {
            Ok((r, p1)) => {
                let e = ExprV::Binary { lhs: Box::new(lhs), op: ts[p as int], rhs: Box::new(r) };
                if p < p1 && p1 <= ts.len() {
                    lemma_term_rest_printable(ts, e, p1);
                }
            },
            Err(_) => {},
        }
    }
}

proof fn lemma_term_printable(ts: Seq<TokenV>, p: nat)
    ensures
        parse_term(ts, p) matches Ok((e, _)) ==> render(e) is Ok,
    decreases ts.len() - p, 5int,
{
    lemma_factor_printable(ts, p);
    match parse_factor(ts, p) {
        Ok((e, p1)) => {
            if p < p1 && p1 <= ts.len() {
                lemma_term_rest_printable(ts, e, p1);
            }
        },
        Err(_) => {},
    }
}

proof fn lemma_comparison_rest_printable(ts: Seq<TokenV>, lhs: ExprV, p: nat)
    requires
        render(lhs) is Ok,
    ensures
        comparison_rest(ts, lhs, p) matches Ok((e, _)) ==> render(e) is Ok,
    decreases ts.len() - p, 6int,
{
    if p < ts.len() && (ts[p as int].t_type is Greater || ts[p as int].t_type is GreaterEqual
        || ts[p as int].t_type is Less || ts[p as int].t_type is LessEqual) {
        lemma_term_printable(ts, p + 1);
        match parse_term(ts, p + 1) {
            Ok((r, p1)) => {
                let e = ExprV::Binary { lhs: Box::new(lhs), op: ts[p as int], rhs: Box::new(r) };
                if p < p1 && p1 <= ts.len() {
                    lemma_comparison_rest_printable(ts, e, p1);
                }
            },
            Err(_) => {},
        }
    }
}

proof fn lemma_comparison_printable(ts: Seq<TokenV>, p: nat)
    ensures
        parse_comparison(ts, p) matches Ok((e, _)) ==> render(e) is Ok,
    decreases ts.len() - p, 7int,
{
    lemma_term_printable(ts, p);
    match parse_term(ts, p) {
        Ok((e, p1)) => {
            if p < p1 && p1 <= ts.len() {
                lemma_comparison_rest_printable(ts, e, p1);
            }
        },
        Err(_) => {},
    }
}

proof fn lemma_equality_rest_printable(ts: Seq<TokenV>, lhs: ExprV, p: nat)
    requires
        render(lhs) is Ok,
    ensures
        equality_rest(ts, lhs, p) matches Ok((e, _)) ==> render(e) is Ok,
    decreases ts.len() - p, 8int,
{
    if p < ts.len() && (ts[p as int].t_type is BangEqual || ts[p as int].t_type is EqualEqual) {
        lemma_comparison_printable(ts, p + 1);
        match parse_comparison(ts, p + 1) {
            Ok((r, p1)) => {
                let e = ExprV::Binary { lhs: Box::new(lhs), op: ts[p as int], rhs: Box::new(r) };
                if p < p1 && p1 <= ts.len() {
                    lemma_equality_rest_printable(ts, e, p1);
                }
            },
            Err(_) => {},
        }
    }
}

proof fn lemma_equality_printable(ts: Seq<TokenV>, p: nat)
    ensures
        parse_equality(ts, p) matches Ok((e, _)) ==> render(e) is Ok,
    decreases ts.len() - p, 9int,
{
    lemma_comparison_printable(ts, p);
    match parse_comparison(ts, p) {
        Ok((e, p1)) => {
            if p < p1 && p1 <= ts.len() {
                lemma_equality_rest_printable(ts, e, p1);
            }
        },
        Err(_) => {},
    }
}

/// Every tree a parse can produce is printable (law): the grammar builds
/// only literal, unary, binary and grouping nodes, and the canonical
/// renderer succeeds on all of them.
pub proof fn lemma_expression_printable(ts: Seq<TokenV>, p: nat)
    ensures
        parse_expression(ts, p) matches Ok((e, _)) ==> render(e) is Ok,
    decreases ts.len() - p, 10int,
{
    lemma_equality_printable(ts, p);
}

/// Round trip (law): for any source text, when parsing the scanned
/// tokens succeeds, rendering the parsed tree succeeds as well, so
/// scanning, parsing and printing compose into the fully parenthesized
/// canonical form that `render` states.
pub proof fn lemma_scan_parse_print(src: Seq<char>)
    ensures
        parse_expression(scan_spec(src).tokens, 0) matches Ok((e, _)) ==> render(e) is Ok,
{
    lemma_expression_printable(scan_spec(src).tokens, 0);
}

} // verus!
