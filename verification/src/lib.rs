//! Front end of a small expression-oriented language.
//!
//! The crate turns raw source text into a classified token sequence
//! (`scanner`), parses that sequence under a fixed operator-precedence
//! grammar into an expression tree (`parser`), and renders the tree back
//! to a fully parenthesized canonical form through a visitor (`expr_ast`).
//! Diagnostics are produced as formatted strings (`error`) and handed to
//! the caller; the library itself performs no I/O.

use vstd::prelude::*;

pub mod chars;
pub mod error;
pub mod expr_ast;
pub mod parser;
pub mod scanner;
pub mod stmt_ast;
pub mod token;

use crate::error::parser_error_text;
use crate::error::Error;
use crate::expr_ast::render;
use crate::expr_ast::AstPrinter;
use crate::parser::lemma_expression_printable;
use crate::parser::parse_expression;
use crate::parser::Parser;
use crate::scanner::diags_text;
use crate::scanner::lemma_scan_spec_ends_eof;
use crate::scanner::scan_spec;
use crate::scanner::strings_view;
use crate::scanner::Scanner;
use crate::token::TokenV;

verus! {

/// Runs the whole front end on one complete source text: scan, parse,
/// print.  Returns the canonical rendering of the one top-level
/// expression, or the typed parse error, together with every diagnostic
/// collected on the way, in source order.  A scan fault is swallowed and
/// scanning continues, so a rendering and scan diagnostics can coexist;
/// a parse fault aborts the parse and its diagnostic comes last.
pub fn run(source: String) -> (r: (Result<String, Error>, Vec<String>))
    requires
        source@.len() < usize::MAX,
    ensures
        ({
            let sc = scan_spec(source@);
            match parse_expression(sc.tokens, 0) {
                Ok((e, _)) => {
                    &&& r.0 matches Ok(out) && render(e) == Ok::<Seq<char>, TokenV>(out@)
                    &&& strings_view(r.1@) == diags_text(sc.diags)
                },
                Err(perr) => {
                    &&& r.0 matches Err(e) && e is Parse
                    &&& strings_view(r.1@) == diags_text(sc.diags).push(
                        parser_error_text(perr.token, perr.message),
                    )
                },
            }
        }),
{
    let ghost src = source@;
    let mut scanner = Scanner::new(source);
    scanner.scan_tokens();
    proof {
        lemma_scan_spec_ends_eof(src);
    }
    let mut diagnostics = scanner.diagnostics;
    let mut parser = Parser::new(scanner.tokens);
    match parser.parse() {
        Ok(expr) => {
            proof {
                lemma_expression_printable(scan_spec(src).tokens, 0);
            }
            let mut printer = AstPrinter;
            match printer.print(expr) {
                Ok(rendered) => (Ok(rendered), diagnostics),
                Err(_) => unreached(),
            }
        },
        Err(err) => {
            let ghost scan_part = diagnostics@;
            let ghost parse_part = parser.diagnostics@;
            diagnostics.append(&mut parser.diagnostics);
            proof {
                crate::scanner::lemma_strings_view_concat(scan_part, parse_part);
                let sc = scan_spec(src);
                let perr = parse_expression(sc.tokens, 0)->Err_0;
                assert(strings_view(diagnostics@) =~= diags_text(sc.diags).push(
                    parser_error_text(perr.token, perr.message),
                ));
            }
            (Err(err), diagnostics)
        },
    }
}

} // verus!
