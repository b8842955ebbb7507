//! Diagnostic formatting and the error taxonomy.
//!
//! A diagnostic has the shape `[line N] Error<location>: <message>`.  The
//! functions here only format: the formatted strings are returned to the
//! caller (the scanner and parser collect them; a front end may print
//! them), so the library itself writes to no output sink.

use vstd::prelude::*;
use vstd::string::StrSliceExecFns;
use vstd::string::StringExecFns;

use crate::token::Token;
use crate::token::TokenType;
use crate::token::TokenV;

verus! {

/// The decimal digit character for `d`.
pub open spec fn digit_char(d: nat) -> char {
    if d == 0 {
        '0'
    } else if d == 1 {
        '1'
    } else if d == 2 {
        '2'
    } else if d == 3 {
        '3'
    } else if d == 4 {
        '4'
    } else if d == 5 {
        '5'
    } else if d == 6 {
        '6'
    } else if d == 7 {
        '7'
    } else if d == 8 {
        '8'
    } else {
        '9'
    }
}

/// The decimal rendering of `n`, without sign or padding.
pub open spec fn decimal(n: nat) -> Seq<char>
    decreases n,
{
    if n < 10 {
        seq![digit_char(n)]
    } else {
        decimal(n / 10) + seq![digit_char(n % 10)]
    }
}

/// The single-character string slice for the digit `d`.
fn digit_str(d: usize) -> (r: &'static str)
    requires
        d < 10,
    ensures
        r@ == seq![digit_char(d as nat)],
{
    if d == 0 {
        proof {
            reveal_strlit("0");
        }
        let r = "0";
        assert(r@ =~= seq![digit_char(d as nat)]);
        r
    } else if d == 1 {
        proof {
            reveal_strlit("1");
        }
        let r = "1";
        assert(r@ =~= seq![digit_char(d as nat)]);
        r
    } else if d == 2 {
        proof {
            reveal_strlit("2");
        }
        let r = "2";
        assert(r@ =~= seq![digit_char(d as nat)]);
        r
    } else if d == 3 {
        proof {
            reveal_strlit("3");
        }
        let r = "3";
        assert(r@ =~= seq![digit_char(d as nat)]);
        r
    } else if d == 4 {
        proof {
            reveal_strlit("4");
        }
        let r = "4";
        assert(r@ =~= seq![digit_char(d as nat)]);
        r
    } else if d == 5 {
        proof {
            reveal_strlit("5");
        }
        let r = "5";
        assert(r@ =~= seq![digit_char(d as nat)]);
        r
    } else if d == 6 {
        proof {
            reveal_strlit("6");
        }
        let r = "6";
        assert(r@ =~= seq![digit_char(d as nat)]);
        r
    } else if d == 7 {
        proof {
            reveal_strlit("7");
        }
        let r = "7";
        assert(r@ =~= seq![digit_char(d as nat)]);
        r
    } else if d == 8 {
        proof {
            reveal_strlit("8");
        }
        let r = "8";
        assert(r@ =~= seq![digit_char(d as nat)]);
        r
    } else {
        proof {
            reveal_strlit("9");
        }
        let r = "9";
        assert(r@ =~= seq![digit_char(d as nat)]);
        r
    }
}

/// Renders `n` in decimal.
pub fn decimal_string(n: usize) -> (r: String)
    ensures
        r@ == decimal(n as nat),
    decreases n,
{
    if n < 10 {
        digit_str(n).to_owned()
    } else {
        let mut r = decimal_string(n / 10);
        r.append(digit_str(n % 10));
        r
    }
}

/// The full diagnostic line `[line N] Error<location>: <message>`.
pub open spec fn report_text(line: nat, location: Seq<char>, message: Seq<char>) -> Seq<char> {
    "[line "@ + decimal(line) + "] Error"@ + location + ": "@ + message
}

/// A diagnostic whose location part is empty, as emitted for bare scan
/// faults.
pub open spec fn error_text(line: nat, message: Seq<char>) -> Seq<char> {
    report_text(line, Seq::empty(), message)
}

/// A diagnostic tagged with the offending token: ` at end` for the
/// end-of-input sentinel, ` at '<lexeme>'` otherwise.
pub open spec fn parser_error_text(token: TokenV, message: Seq<char>) -> Seq<char> {
    if token.t_type is Eof {
        report_text(token.line, " at end"@, message)
    } else {
        report_text(token.line, " at '"@ + token.lexeme + "'"@, message)
    }
}

/// Formats a diagnostic with an explicit location part.
pub fn report(line: usize, where_: &str, message: &str) -> (r: String)
    ensures
        r@ == report_text(line as nat, where_@, message@),
{
    let mut r = "[line ".to_owned();
    r.append(decimal_string(line).as_str());
    r.append("] Error");
    r.append(where_);
    r.append(": ");
    r.append(message);
    proof {
        assert(r@ =~= report_text(line as nat, where_@, message@));
    }
    r
}

/// Formats a diagnostic for a bare scan fault.
pub fn error(line: usize, message: &str) -> (r: String)
    ensures
        r@ == error_text(line as nat, message@),
{
    let r = report(line, "", message);
    proof {
        reveal_strlit("");
        assert(""@ =~= Seq::<char>::empty());
    }
    r
}

/// Formats a diagnostic tagged with the token at which parsing failed.
pub fn parser_error(token: &Token, message: &str) -> (r: String)
    ensures
        r@ == parser_error_text(token@, message@),
{
    if token.t_type == TokenType::Eof {
        report(token.line, " at end", message)
    } else {
        let mut where_ = " at '".to_owned();
        where_.append(token.lexeme.as_str());
        where_.append("'");
        let r = report(token.line, where_.as_str(), message);
        proof {
            assert(where_@ =~= " at '"@ + token@.lexeme + "'"@);
        }
        r
    }
}

/// The error taxonomy shared by every core-boundary failure.
///
/// `Io` wraps an underlying input/output fault, carried as its rendered
/// text; `Parse` marks a parse-time fault (the diagnostic itself travels on
/// the side channel); `Runtime` is reserved for tree-consuming algorithms
/// and carries the offending token.
#[derive(Debug)]
pub enum Error {
    Io(String),
    Parse,
    Runtime { token: Token, message: String },
}

/// The display rendering of an `Error`.
pub open spec fn error_display(e: &Error) -> Seq<char> {
    match e {
        Error::Io(underlying) => "IoError "@ + underlying@,
        Error::Parse => "ParseError"@,
        Error::Runtime { token: _, message } => "RuntimeError "@ + message@,
    }
}

impl Error {
    /// Renders the error for display.
    pub fn display_text(&self) -> (r: String)
        ensures
            r@ == error_display(self),
    {
        match self {
            Error::Io(underlying) => {
                let mut r = "IoError ".to_owned();
                r.append(underlying.as_str());
                r
            },
            Error::Parse => "ParseError".to_owned(),
            Error::Runtime { token: _, message } => {
                let mut r = "RuntimeError ".to_owned();
                r.append(message.as_str());
                r
            },
        }
    }
}

} // verus!
