//! The lexical scanner.
//!
//! A scanner consumes one complete source text and produces the ordered
//! token sequence that `scan_spec` states, ending with exactly one
//! end-of-input token.  Scan-time faults (an unterminated string, an
//! unrecognized character) are formatted as diagnostics, collected on the
//! scanner, and swallowed: scanning always runs to completion.

use vstd::prelude::*;
use vstd::string::StrSliceExecFns;
use vstd::string::StringExecFns;

use crate::chars::digit;
use crate::chars::ident_part;
use crate::chars::ident_start;
use crate::chars::is_digit;
use crate::chars::is_ident_part;
use crate::chars::is_ident_start;
use crate::error::error;
use crate::error::error_text;
use crate::token::keyword;
use crate::token::keyword_for;
use crate::token::Token;
use crate::token::TokenType;
use crate::token::TokenTypeV;
use crate::token::TokenV;

verus! {

/// A scan-time fault before formatting: the line it is tagged with and its
/// message.
pub struct DiagV {
    pub line: nat,
    pub message: Seq<char>,
}

/// What one scan of the whole source produces: the token sequence and the
/// diagnostics, each in source order.
pub struct ScanV {
    pub tokens: Seq<TokenV>,
    pub diags: Seq<DiagV>,
}

/// What scanning one lexical unit produces: the position and line after
/// the unit, and at most one token and one diagnostic.
pub struct StepV {
    pub next: nat,
    pub line: nat,
    pub token: Option<TokenV>,
    pub diag: Option<DiagV>,
}

/// The character at `i`, or the NUL character past the end: the scanner's
/// lookahead reads exactly this.
pub open spec fn char_at(src: Seq<char>, i: nat) -> char {
    if i < src.len() {
        src[i as int]
    } else {
        '\0'
    }
}

/// The number of newline characters in `s`.
pub open spec fn newlines(s: Seq<char>) -> nat
    decreases s.len(),
{
    if s.len() == 0 {
        0
    } else {
        newlines(s.drop_last()) + if s.last() == '\n' {
            1nat
        } else {
            0nat
        }
    }
}

/// The end of the run of decimal digits that starts at `i`.
pub open spec fn digits_end(src: Seq<char>, i: nat) -> nat
    decreases src.len() - i,
{
    if i < src.len() && digit(src[i as int]) {
        digits_end(src, i + 1)
    } else {
        i
    }
}

/// The end of the run of identifier characters that starts at `i`.
pub open spec fn ident_end(src: Seq<char>, i: nat) -> nat
    decreases src.len() - i,
{
    if i < src.len() && ident_part(src[i as int]) {
        ident_end(src, i + 1)
    } else {
        i
    }
}

/// The first position at or after `i` holding a newline, or the length:
/// where a line comment's body ends.
pub open spec fn comment_end(src: Seq<char>, i: nat) -> nat
    decreases src.len() - i,
{
    if i < src.len() && src[i as int] != '\n' {
        comment_end(src, i + 1)
    } else {
        i
    }
}

/// The position of the first `"` at or after `i`, if any.
pub open spec fn close_quote(src: Seq<char>, i: nat) -> Option<nat>
    decreases src.len() - i,
{
    if i >= src.len() {
        None
    } else if src[i as int] == '"' {
        Some(i)
    } else {
        close_quote(src, i + 1)
    }
}

pub proof fn lemma_newlines_len(s: Seq<char>)
    ensures
        newlines(s) <= s.len(),
    decreases s.len(),
{
    if s.len() > 0 {
        lemma_newlines_len(s.drop_last());
    }
}

/// Newline counts add over concatenation.
pub proof fn lemma_newlines_concat(a: Seq<char>, b: Seq<char>)
    ensures
        newlines(a + b) == newlines(a) + newlines(b),
    decreases b.len(),
{
    if b.len() == 0 {
        assert(a + b =~= a);
    } else {
        lemma_newlines_concat(a, b.drop_last());
        assert((a + b).drop_last() =~= a + b.drop_last());
    }
}

/// Extending a prefix by one character adds that character's newline
/// count.
pub proof fn lemma_newlines_take_step(s: Seq<char>, i: nat)
    requires
        i < s.len(),
    ensures
        newlines(s.take(i + 1 as int)) == newlines(s.take(i as int)) + if s[i as int] == '\n' {
            1nat
        } else {
            0nat
        },
{
    assert(s.take(i + 1 as int).drop_last() =~= s.take(i as int));
    assert(s.take(i + 1 as int).last() == s[i as int]);
}

pub proof fn lemma_digits_end_bounds(src: Seq<char>, i: nat)
    requires
        i <= src.len(),
    ensures
        i <= digits_end(src, i) <= src.len(),
    decreases src.len() - i,
{
    if i < src.len() && digit(src[i as int]) {
        lemma_digits_end_bounds(src, i + 1);
    }
}

pub proof fn lemma_ident_end_bounds(src: Seq<char>, i: nat)
    requires
        i <= src.len(),
    ensures
        i <= ident_end(src, i) <= src.len(),
    decreases src.len() - i,
{
    if i < src.len() && ident_part(src[i as int]) {
        lemma_ident_end_bounds(src, i + 1);
    }
}

pub proof fn lemma_comment_end_bounds(src: Seq<char>, i: nat)
    requires
        i <= src.len(),
    ensures
        i <= comment_end(src, i) <= src.len(),
    decreases src.len() - i,
{
    if i < src.len() && src[i as int] != '\n' {
        lemma_comment_end_bounds(src, i + 1);
    }
}

pub proof fn lemma_close_quote_bounds(src: Seq<char>, i: nat)
    ensures
        match close_quote(src, i) {
            Some(q) => i <= q < src.len() && src[q as int] == '"',
            None => true,
        },
    decreases src.len() - i,
{
    if i < src.len() && src[i as int] != '"' {
        lemma_close_quote_bounds(src, i + 1);
    }
}

/// A sequence without newlines has newline count zero.
pub proof fn lemma_newlines_zero(s: Seq<char>)
    requires
        forall|j: int| 0 <= j < s.len() ==> #[trigger] s[j] != '\n',
    ensures
        newlines(s) == 0,
    decreases s.len(),
{
    if s.len() > 0 {
        lemma_newlines_zero(s.drop_last());
    }
}

/// Newlines before a position split at any earlier position.
pub proof fn lemma_lines_bridge(src: Seq<char>, i: nat, next: nat)
    requires
        i <= next <= src.len(),
    ensures
        newlines(src.take(next as int)) == newlines(src.take(i as int)) + newlines(
            src.subrange(i as int, next as int),
        ),
{
    assert(src.take(next as int) =~= src.take(i as int) + src.subrange(i as int, next as int));
    lemma_newlines_concat(src.take(i as int), src.subrange(i as int, next as int));
}

/// Every character of a digit run is a digit.
pub proof fn lemma_digits_end_chars(src: Seq<char>, i: nat)
    ensures
        forall|j: int| i <= j < digits_end(src, i) ==> digit(#[trigger] src[j]),
    decreases src.len() - i,
{
    if i < src.len() && digit(src[i as int]) {
        lemma_digits_end_chars(src, i + 1);
    }
}

/// Every character of an identifier run may continue an identifier.
pub proof fn lemma_ident_end_chars(src: Seq<char>, i: nat)
    ensures
        forall|j: int| i <= j < ident_end(src, i) ==> ident_part(#[trigger] src[j]),
    decreases src.len() - i,
{
    if i < src.len() && ident_part(src[i as int]) {
        lemma_ident_end_chars(src, i + 1);
    }
}

/// No character of a comment's body is a newline.
pub proof fn lemma_comment_end_chars(src: Seq<char>, i: nat)
    ensures
        forall|j: int| i <= j < comment_end(src, i) ==> #[trigger] src[j] != '\n',
    decreases src.len() - i,
{
    if i < src.len() && src[i as int] != '\n' {
        lemma_comment_end_chars(src, i + 1);
    }
}

/// A step that produces one token whose lexeme is the single character at
/// `i`.
pub open spec fn single_step(src: Seq<char>, i: nat, line: nat, t: TokenTypeV) -> StepV {
    StepV {
        next: i + 1,
        line,
        token: Some(TokenV { t_type: t, lexeme: src.subrange(i as int, i + 1 as int), line }),
        diag: None,
    }
}

/// Maximal munch for the one-or-two-character operators: the two-character
/// category is chosen exactly when the character after `i` is `'='`.
pub open spec fn pair_step(
    src: Seq<char>,
    i: nat,
    line: nat,
    one: TokenTypeV,
    two: TokenTypeV,
) -> StepV {
    if i + 1 < src.len() && src[i + 1 as int] == '=' {
        StepV {
            next: i + 2,
            line,
            token: Some(TokenV { t_type: two, lexeme: src.subrange(i as int, i + 2 as int), line }),
            diag: None,
        }
    } else {
        single_step(src, i, line, one)
    }
}

/// Scanning a number: a run of digits, optionally followed by a point and
/// a second run when a digit follows the point.  The token keeps the
/// matched text as its payload.
pub open spec fn number_step(src: Seq<char>, i: nat, line: nat) -> StepV {
    let d1 = digits_end(src, i + 1);
    let end = if d1 < src.len() && src[d1 as int] == '.' && d1 + 1 < src.len() && digit(
        src[d1 + 1 as int],
    ) {
        digits_end(src, d1 + 1)
    } else {
        d1
    };
    StepV {
        next: end,
        line,
        token: Some(
            TokenV {
                t_type: TokenTypeV::Number { literal: src.subrange(i as int, end as int) },
                lexeme: src.subrange(i as int, end as int),
                line,
            },
        ),
        diag: None,
    }
}

/// Scanning an identifier: the matched text is looked up in the keyword
/// table; a hit yields the keyword category, a miss an identifier.
pub open spec fn ident_step(src: Seq<char>, i: nat, line: nat) -> StepV {
    let end = ident_end(src, i + 1);
    let text = src.subrange(i as int, end as int);
    let t_type = match keyword(text) {
        Some(k) => k,
        None => TokenTypeV::Identifier { literal: text },
    };
    StepV {
        next: end,
        line,
        token: Some(TokenV { t_type, lexeme: text, line }),
        diag: None,
    }
}

/// Scanning a string literal from the opening quote at `i`.  The payload
/// is the text strictly between the quotes, kept verbatim; the token
/// carries the line of the opening quote, while the scanner's line count
/// advances over embedded newlines.  With no closing quote the unit
/// swallows the rest of the source and yields only a diagnostic, tagged
/// with the final line.
pub open spec fn string_step(src: Seq<char>, i: nat, line: nat) -> StepV {
    match close_quote(src, i + 1) {
        Some(q) => StepV {
            next: q + 1,
            line: line + newlines(src.subrange(i + 1 as int, q as int)),
            token: Some(
                TokenV {
                    t_type: TokenTypeV::String { literal: src.subrange(i + 1 as int, q as int) },
                    lexeme: src.subrange(i as int, q + 1 as int),
                    line,
                },
            ),
            diag: None,
        },
        None => StepV {
            next: src.len(),
            line: line + newlines(src.subrange(i + 1 as int, src.len() as int)),
            token: None,
            diag: Some(
                DiagV {
                    line: line + newlines(src.subrange(i + 1 as int, src.len() as int)),
                    message: "Unterminated string."@,
                },
            ),
        },
    }
}

/// One lexical unit, dispatched on the character at `i`.
pub open spec fn scan_step(src: Seq<char>, i: nat, line: nat) -> StepV {
    let c = src[i as int];
    if c == '(' {
        single_step(src, i, line, TokenTypeV::LeftParen)
    } else if c == ')' {
        single_step(src, i, line, TokenTypeV::RightParen)
    } else if c == '{' {
        single_step(src, i, line, TokenTypeV::LeftBrace)
    } else if c == '}' {
        single_step(src, i, line, TokenTypeV::RightBrace)
    } else if c == ',' {
        single_step(src, i, line, TokenTypeV::Comma)
    } else if c == '.' {
        single_step(src, i, line, TokenTypeV::Dot)
    } else if c == '-' {
        single_step(src, i, line, TokenTypeV::Minus)
    } else if c == '+' {
        single_step(src, i, line, TokenTypeV::Plus)
    } else if c == ';' {
        single_step(src, i, line, TokenTypeV::Semicolon)
    } else if c == '*' {
        single_step(src, i, line, TokenTypeV::Star)
    } else if c == '!' {
        pair_step(src, i, line, TokenTypeV::Bang, TokenTypeV::BangEqual)
    } else if c == '=' {
        pair_step(src, i, line, TokenTypeV::Equal, TokenTypeV::EqualEqual)
    } else if c == '<' {
        pair_step(src, i, line, TokenTypeV::Less, TokenTypeV::LessEqual)
    } else if c == '>' {
        pair_step(src, i, line, TokenTypeV::Greater, TokenTypeV::GreaterEqual)
    } else if c == '/' {
        if i + 1 < src.len() && src[i + 1 as int] == '/' {
            StepV { next: comment_end(src, i + 2), line, token: None, diag: None }
        } else {
            single_step(src, i, line, TokenTypeV::Slash)
        }
    } else if c == ' ' || c == '\r' || c == '\t' {
        StepV { next: i + 1, line, token: None, diag: None }
    } else if c == '\n' {
        StepV { next: i + 1, line: line + 1, token: None, diag: None }
    } else if c == '"' {
        string_step(src, i, line)
    } else if digit(c) {
        number_step(src, i, line)
    } else if ident_start(c) {
        ident_step(src, i, line)
    } else {
        StepV {
            next: i + 1,
            line,
            token: None,
            diag: Some(DiagV { line, message: "Unexpected character."@ }),
        }
    }
}

/// Every step stands strictly inside the source: it consumes at least one
/// character and never passes the end.
pub proof fn lemma_scan_step_bounds(src: Seq<char>, i: nat, line: nat)
    requires
        i < src.len(),
    ensures
        i < scan_step(src, i, line).next <= src.len(),
{
    let c = src[i as int];
    if c == '/' && i + 1 < src.len() && src[i + 1 as int] == '/' {
        lemma_comment_end_bounds(src, i + 2);
    } else if c == '"' {
        lemma_close_quote_bounds(src, i + 1);
    } else if !(c == '(' || c == ')' || c == '{' || c == '}' || c == ',' || c == '.' || c == '-'
        || c == '+' || c == ';' || c == '*' || c == '!' || c == '=' || c == '<' || c == '>' || c
        == '/' || c == ' ' || c == '\r' || c == '\t' || c == '\n') {
        if digit(c) {
            lemma_digits_end_bounds(src, i + 1);
            let d1 = digits_end(src, i + 1);
            if d1 < src.len() && src[d1 as int] == '.' && d1 + 1 < src.len() && digit(
                src[d1 + 1 as int],
            ) {
                lemma_digits_end_bounds(src, d1 + 1);
            }
        } else if ident_start(c) {
            lemma_ident_end_bounds(src, i + 1);
        }
    }
}

/// The tokens and diagnostics produced from position `i` on, with the
/// line count standing at `line`: one step, then the rest; at the end,
/// exactly one end-of-input token with an empty lexeme.
pub open spec fn scan_from(src: Seq<char>, i: nat, line: nat) -> ScanV
    decreases src.len() - i
        via scan_from_decreases
{
    if i >= src.len() {
        ScanV {
            tokens: seq![
                TokenV { t_type: TokenTypeV::Eof, lexeme: Seq::empty(), line },
            ],
            diags: Seq::empty(),
        }
    } else {
        let step = scan_step(src, i, line);
        let rest = scan_from(src, step.next, step.line);
        ScanV {
            tokens: opt_token_seq(step.token) + rest.tokens,
            diags: opt_diag_seq(step.diag) + rest.diags,
        }
    }
}

#[via_fn]
proof fn scan_from_decreases(src: Seq<char>, i: nat, line: nat) {
    if i < src.len() {
        lemma_scan_step_bounds(src, i, line);
    }
}

/// A step's token as a sequence of zero or one tokens.
pub open spec fn opt_token_seq(t: Option<TokenV>) -> Seq<TokenV> {
    match t {
        Some(tok) => seq![tok],
        None => Seq::empty(),
    }
}

/// A step's diagnostic as a sequence of zero or one diagnostics.
pub open spec fn opt_diag_seq(d: Option<DiagV>) -> Seq<DiagV> {
    match d {
        Some(dg) => seq![dg],
        None => Seq::empty(),
    }
}

/// What scanning a whole source produces: the cursor starts at the first
/// character, on line 1.
pub open spec fn scan_spec(src: Seq<char>) -> ScanV {
    scan_from(src, 0, 1)
}

/// The models of a token vector, in order.
pub open spec fn tokens_view(ts: Seq<Token>) -> Seq<TokenV> {
    ts.map_values(|t: Token| t@)
}

/// The views of a vector of formatted strings, in order.
pub open spec fn strings_view(ss: Seq<String>) -> Seq<Seq<char>> {
    ss.map_values(|s: String| s@)
}

/// The formatted texts of a sequence of scan diagnostics.
pub open spec fn diags_text(ds: Seq<DiagV>) -> Seq<Seq<char>> {
    ds.map_values(|d: DiagV| error_text(d.line, d.message))
}

pub proof fn lemma_tokens_view_push(ts: Seq<Token>, t: Token)
    ensures
        tokens_view(ts.push(t)) == tokens_view(ts).push(t@),
{
    assert(tokens_view(ts.push(t)) =~= tokens_view(ts).push(t@));
}

pub proof fn lemma_strings_view_push(ss: Seq<String>, s: String)
    ensures
        strings_view(ss.push(s)) == strings_view(ss).push(s@),
{
    assert(strings_view(ss.push(s)) =~= strings_view(ss).push(s@));
}

pub proof fn lemma_strings_view_concat(a: Seq<String>, b: Seq<String>)
    ensures
        strings_view(a + b) == strings_view(a) + strings_view(b),
{
    assert(strings_view(a + b) =~= strings_view(a) + strings_view(b));
}

pub proof fn lemma_diags_text_concat(a: Seq<DiagV>, b: Seq<DiagV>)
    ensures
        diags_text(a + b) == diags_text(a) + diags_text(b),
{
    assert(diags_text(a + b) =~= diags_text(a) + diags_text(b));
}

/// The scanner: a single forward cursor over the characters of one source
/// text, with two-character lookahead.  `start` marks the first character
/// of the unit being scanned, `current` the cursor, and `line` the 1-based
/// line of the cursor.
pub struct Scanner {
    pub source: String,
    pub tokens: Vec<Token>,
    pub diagnostics: Vec<String>,
    pub start: usize,
    pub current: usize,
    pub line: usize,
}

impl Scanner {
    /// Well-formedness of the cursor state.
    pub open spec fn wf(&self) -> bool {
        &&& self.start <= self.current <= self.source@.len()
        &&& self.source@.len() < usize::MAX
        &&& self.line <= self.current + 1
    }

    /// A fresh scanner over `source`.  The length bound is a machine
    /// limit: the line counter must stay within `usize`.
    pub fn new(source: String) -> (s: Scanner)
        requires
            source@.len() < usize::MAX,
        ensures
            s.wf(),
            s.source@ == source@,
            s.tokens@ == Seq::<Token>::empty(),
            s.diagnostics@ == Seq::<String>::empty(),
            s.current == 0,
            s.line == 1,
    {
        Scanner {
            source,
            tokens: Vec::new(),
            diagnostics: Vec::new(),
            start: 0,
            current: 0,
            line: 1,
        }
    }

    /// The character under the cursor, or NUL at the end.
    fn peek(&self) -> (c: char)
        requires
            self.current <= self.source@.len(),
        ensures
            c == char_at(self.source@, self.current as nat),
    {
        if self.current >= self.source.as_str().unicode_len() {
            '\0'
        } else {
            self.source.as_str().get_char(self.current)
        }
    }

    /// The character one past the cursor, or NUL at the end.
    fn peek_next(&self) -> (c: char)
        requires
            self.current <= self.source@.len(),
            self.source@.len() < usize::MAX,
        ensures
            c == char_at(self.source@, self.current as nat + 1),
    {
        if self.current + 1 >= self.source.as_str().unicode_len() {
            '\0'
        } else {
            self.source.as_str().get_char(self.current + 1)
        }
    }

    /// Whether the cursor has passed the last character.
    fn is_at_end(&self) -> (r: bool)
        ensures
            r == (self.current >= self.source@.len()),
    {
        self.current >= self.source.as_str().unicode_len()
    }

    /// Consumes and returns the character under the cursor.
    fn advance(&mut self) -> (c: char)
        requires
            old(self).current < old(self).source@.len(),
            old(self).source@.len() <= usize::MAX,
        ensures
            final(self).source == old(self).source,
            final(self).tokens == old(self).tokens,
            final(self).diagnostics == old(self).diagnostics,
            final(self).start == old(self).start,
            final(self).line == old(self).line,
            final(self).current == old(self).current + 1,
            c == old(self).source@[old(self).current as int],
    {
        let c = self.source.as_str().get_char(self.current);
        self.current = self.current + 1;
        c
    }

    /// Consumes the character under the cursor exactly when it is
    /// `expected`.
    fn c_match(&mut self, expected: char) -> (r: bool)
        requires
            old(self).current <= old(self).source@.len(),
            old(self).source@.len() < usize::MAX,
        ensures
            final(self).source == old(self).source,
            final(self).tokens == old(self).tokens,
            final(self).diagnostics == old(self).diagnostics,
            final(self).start == old(self).start,
            final(self).line == old(self).line,
            r == (old(self).current < old(self).source@.len() && old(self).source@[old(
                self,
            ).current as int] == expected),
            final(self).current == if r {
                old(self).current + 1
            } else {
                old(self).current as int
            },
    {
        if self.is_at_end() {
            return false;
        }
        if self.source.as_str().get_char(self.current) != expected {
            return false;
        }
        self.current = self.current + 1;
        true
    }

    /// Pushes one token for the unit between `start` and `current`,
    /// carrying the current line.
    fn add_token(&mut self, t_type: TokenType)
        requires
            old(self).start <= old(self).current <= old(self).source@.len(),
        ensures
            final(self).source == old(self).source,
            final(self).diagnostics == old(self).diagnostics,
            final(self).start == old(self).start,
            final(self).current == old(self).current,
            final(self).line == old(self).line,
            tokens_view(final(self).tokens@) == tokens_view(old(self).tokens@).push(
                TokenV {
                    t_type: t_type@,
                    lexeme: old(self).source@.subrange(
                        old(self).start as int,
                        old(self).current as int,
                    ),
                    line: old(self).line as nat,
                },
            ),
    {
        let text = self.source.as_str().substring_char(self.start, self.current);
        let tok = Token::new(t_type, text, self.line);
        self.tokens.push(tok);
        proof {
            lemma_tokens_view_push(old(self).tokens@, tok);
        }
    }

    /// Scans the tail of an identifier whose first character stands at
    /// `start`, then classifies the matched text through the keyword
    /// table.
    fn identifier(&mut self)
        requires
            old(self).wf(),
            old(self).start + 1 == old(self).current,
            old(self).start < old(self).source@.len(),
        ensures
            ({
                let step = ident_step(
                    old(self).source@,
                    old(self).start as nat,
                    old(self).line as nat,
                );
                &&& final(self).source == old(self).source
                &&& final(self).diagnostics == old(self).diagnostics
                &&& final(self).start == old(self).start
                &&& final(self).line == old(self).line
                &&& final(self).current as nat == step.next
                &&& tokens_view(final(self).tokens@) == tokens_view(old(self).tokens@)
                    + opt_token_seq(step.token)
            }),
    {
        while !self.is_at_end() && is_ident_part(self.peek())
            invariant
                self.source == old(self).source,
                self.tokens == old(self).tokens,
                self.diagnostics == old(self).diagnostics,
                self.start == old(self).start,
                self.line == old(self).line,
                old(self).current <= self.current <= self.source@.len(),
                self.source@.len() < usize::MAX,
                ident_end(self.source@, old(self).current as nat) == ident_end(
                    self.source@,
                    self.current as nat,
                ),
            decreases self.source@.len() - self.current,
        {
            self.advance();
        }
        let text = self.source.as_str().substring_char(self.start, self.current).to_owned();
        let t_type = match keyword_for(&text) {
            Some(k) => k,
            None => TokenType::Identifier { literal: text },
        };
        self.add_token(t_type);
        proof {
            let step = ident_step(old(self).source@, old(self).start as nat, old(self).line as nat);
            assert(tokens_view(final(self).tokens@) =~= tokens_view(old(self).tokens@)
                + opt_token_seq(step.token));
        }
    }

    /// Scans the tail of a number whose first digit stands at `start`: a
    /// run of digits, then a fractional part exactly when a point followed
    /// by a digit comes next.
    fn number(&mut self)
        requires
            old(self).wf(),
            old(self).start + 1 == old(self).current,
            old(self).start < old(self).source@.len(),
        ensures
            ({
                let step = number_step(
                    old(self).source@,
                    old(self).start as nat,
                    old(self).line as nat,
                );
                &&& final(self).source == old(self).source
                &&& final(self).diagnostics == old(self).diagnostics
                &&& final(self).start == old(self).start
                &&& final(self).line == old(self).line
                &&& final(self).current as nat == step.next
                &&& tokens_view(final(self).tokens@) == tokens_view(old(self).tokens@)
                    + opt_token_seq(step.token)
            }),
    {
        while is_digit(self.peek())
            invariant
                self.source == old(self).source,
                self.tokens == old(self).tokens,
                self.diagnostics == old(self).diagnostics,
                self.start == old(self).start,
                self.line == old(self).line,
                old(self).current <= self.current <= self.source@.len(),
                self.source@.len() < usize::MAX,
                digits_end(self.source@, old(self).current as nat) == digits_end(
                    self.source@,
                    self.current as nat,
                ),
            decreases self.source@.len() - self.current,
        {
            self.advance();
        }
        let ghost d1 = self.current as nat;
        if self.peek() == '.' && is_digit(self.peek_next()) {
            self.advance();
            while is_digit(self.peek())
                invariant
                    self.source == old(self).source,
                    self.tokens == old(self).tokens,
                    self.diagnostics == old(self).diagnostics,
                    self.start == old(self).start,
                    self.line == old(self).line,
                    d1 + 1 <= self.current <= self.source@.len(),
                    self.source@.len() < usize::MAX,
                    digits_end(self.source@, d1 + 1) == digits_end(self.source@, self.current as nat),
                decreases self.source@.len() - self.current,
            {
                self.advance();
            }
        }
        let literal = self.source.as_str().substring_char(self.start, self.current).to_owned();
        self.add_token(TokenType::Number { literal });
        proof {
            let step = number_step(old(self).source@, old(self).start as nat, old(self).line as nat);
            assert(tokens_view(final(self).tokens@) =~= tokens_view(old(self).tokens@)
                + opt_token_seq(step.token));
        }
    }

    /// Scans a string literal whose opening quote stands at `start`.  The
    /// token carries the line of the opening quote; the scanner's line
    /// count advances over embedded newlines.  With no closing quote a
    /// diagnostic is collected and no token is produced.
    fn string(&mut self)
        requires
            old(self).wf(),
            old(self).start + 1 == old(self).current,
            old(self).start < old(self).source@.len(),
            old(self).source@[old(self).start as int] == '"',
            old(self).line <= old(self).start + 1,
        ensures
            ({
                let step = string_step(
                    old(self).source@,
                    old(self).start as nat,
                    old(self).line as nat,
                );
                &&& final(self).source == old(self).source
                &&& final(self).start == old(self).start
                &&& final(self).current as nat == step.next
                &&& final(self).line as nat == step.line
                &&& final(self).line <= final(self).current
                &&& tokens_view(final(self).tokens@) == tokens_view(old(self).tokens@)
                    + opt_token_seq(step.token)
                &&& strings_view(final(self).diagnostics@) == strings_view(old(self).diagnostics@)
                    + diags_text(opt_diag_seq(step.diag))
            }),
    {
        let start_line = self.line;
        while self.peek() != '"' && !self.is_at_end()
            invariant
                self.source == old(self).source,
                self.tokens == old(self).tokens,
                self.diagnostics == old(self).diagnostics,
                self.start == old(self).start,
                start_line == old(self).line,
                old(self).current <= self.current <= self.source@.len(),
                self.source@.len() < usize::MAX,
                old(self).line <= old(self).current,
                close_quote(self.source@, old(self).current as nat) == close_quote(
                    self.source@,
                    self.current as nat,
                ),
                self.line as nat == old(self).line + newlines(
                    self.source@.subrange(old(self).current as int, self.current as int),
                ),
                self.line <= self.current,
            decreases self.source@.len() - self.current,
        {
            proof {
                let src = self.source@;
                let c0 = old(self).current as int;
                let cur = self.current as int;
                assert(src.subrange(c0, cur + 1).drop_last() =~= src.subrange(c0, cur));
            }
            if self.peek() == '\n' {
                self.line = self.line + 1;
            }
            self.advance();
        }
        if self.is_at_end() {
            let d = error(self.line, "Unterminated string.");
            self.diagnostics.push(d);
            proof {
                lemma_strings_view_push(old(self).diagnostics@, d);
                let step = string_step(
                    old(self).source@,
                    old(self).start as nat,
                    old(self).line as nat,
                );
                assert(tokens_view(final(self).tokens@) =~= tokens_view(old(self).tokens@)
                    + opt_token_seq(step.token));
                assert(strings_view(final(self).diagnostics@) =~= strings_view(
                    old(self).diagnostics@,
                ) + diags_text(opt_diag_seq(step.diag)));
            }
        } else {
            let q = self.current;
            self.advance();
            let literal = self.source.as_str().substring_char(self.start + 1, q).to_owned();
            let lexeme = self.source.as_str().substring_char(self.start, self.current);
            let tok = Token::new(TokenType::String { literal }, lexeme, start_line);
            self.tokens.push(tok);
            proof {
                lemma_tokens_view_push(old(self).tokens@, tok);
                let step = string_step(
                    old(self).source@,
                    old(self).start as nat,
                    old(self).line as nat,
                );
                assert(tokens_view(final(self).tokens@) =~= tokens_view(old(self).tokens@)
                    + opt_token_seq(step.token));
                assert(strings_view(final(self).diagnostics@) =~= strings_view(
                    old(self).diagnostics@,
                ) + diags_text(opt_diag_seq(step.diag)));
            }
        }
    }

    /// Scans one lexical unit, dispatching on the character at `start`:
    /// exactly what `scan_step` states.
    fn scan_token(&mut self)
        requires
            old(self).wf(),
            old(self).start == old(self).current,
            old(self).current < old(self).source@.len(),
        ensures
            ({
                let step = scan_step(
                    old(self).source@,
                    old(self).start as nat,
                    old(self).line as nat,
                );
                &&& final(self).wf()
                &&& final(self).source == old(self).source
                &&& final(self).start == old(self).start
                &&& final(self).current as nat == step.next
                &&& final(self).line as nat == step.line
                &&& tokens_view(final(self).tokens@) == tokens_view(old(self).tokens@)
                    + opt_token_seq(step.token)
                &&& strings_view(final(self).diagnostics@) == strings_view(old(self).diagnostics@)
                    + diags_text(opt_diag_seq(step.diag))
            }),
    {
        let ghost step = scan_step(old(self).source@, old(self).start as nat, old(self).line as nat);
        let c = self.advance();
        match c {
            '(' => self.add_token(TokenType::LeftParen),
            ')' => self.add_token(TokenType::RightParen),
            '{' => self.add_token(TokenType::LeftBrace),
            '}' => self.add_token(TokenType::RightBrace),
            ',' => self.add_token(TokenType::Comma),
            '.' => self.add_token(TokenType::Dot),
            '-' => self.add_token(TokenType::Minus),
            '+' => self.add_token(TokenType::Plus),
            ';' => self.add_token(TokenType::Semicolon),
            '*' => self.add_token(TokenType::Star),
            '!' => {
                if self.c_match('=') {
                    self.add_token(TokenType::BangEqual)
                } else {
                    self.add_token(TokenType::Bang)
                }
            },
            '=' => {
                if self.c_match('=') {
                    self.add_token(TokenType::EqualEqual)
                } else {
                    self.add_token(TokenType::Equal)
                }
            },
            '<' => {
                if self.c_match('=') {
                    self.add_token(TokenType::LessEqual)
                } else {
                    self.add_token(TokenType::Less)
                }
            },
            '>' => {
                if self.c_match('=') {
                    self.add_token(TokenType::GreaterEqual)
                } else {
                    self.add_token(TokenType::Greater)
                }
            },
            '/' => {
                if self.c_match('/') {
                    // A comment runs to the end of the line, exclusive.
                    while self.peek() != '\n' && !self.is_at_end()
                        invariant
                            self.source == old(self).source,
                            self.tokens == old(self).tokens,
                            self.diagnostics == old(self).diagnostics,
                            self.start == old(self).start,
                            self.line == old(self).line,
                            old(self).current + 2 <= self.current <= self.source@.len(),
                            self.source@.len() < usize::MAX,
                            comment_end(self.source@, old(self).current as nat + 2) == comment_end(
                                self.source@,
                                self.current as nat,
                            ),
                        decreases self.source@.len() - self.current,
                    {
                        self.advance();
                    }
                } else {
                    self.add_token(TokenType::Slash)
                }
            },
            ' ' | '\r' | '\t' => (),
            '\n' => {
                self.line = self.line + 1;
            },
            '"' => self.string(),
            other => {
                if is_digit(other) {
                    self.number()
                } else if is_ident_start(other) {
                    self.identifier()
                } else {
                    let d = error(self.line, "Unexpected character.");
                    self.diagnostics.push(d);
                    proof {
                        lemma_strings_view_push(old(self).diagnostics@, d);
                        assert(strings_view(final(self).diagnostics@) =~= strings_view(
                            old(self).diagnostics@,
                        ) + diags_text(opt_diag_seq(step.diag)));
                    }
                }
            },
        }
        proof {
            assert(tokens_view(final(self).tokens@) =~= tokens_view(old(self).tokens@)
                + opt_token_seq(step.token));
            if step.diag is None {
                assert(strings_view(final(self).diagnostics@) =~= strings_view(
                    old(self).diagnostics@,
                ) + diags_text(opt_diag_seq(step.diag)));
            }
            lemma_scan_step_bounds(old(self).source@, old(self).start as nat, old(self).line as nat);
        }
    }

    /// Scans the whole source: the token sequence and diagnostics are
    /// exactly what `scan_spec` states of the source text, the tokens
    /// ending with one end-of-input token.
    pub fn scan_tokens(&mut self) -> (r: &Vec<Token>)
        requires
            old(self).wf(),
            old(self).current == 0,
            old(self).line == 1,
            old(self).tokens@ == Seq::<Token>::empty(),
            old(self).diagnostics@ == Seq::<String>::empty(),
        ensures
            final(self).source == old(self).source,
            r@ == final(self).tokens@,
            tokens_view(final(self).tokens@) == scan_spec(old(self).source@).tokens,
            strings_view(final(self).diagnostics@) == diags_text(scan_spec(old(self).source@).diags),
    {
        proof {
            assert(tokens_view(old(self).tokens@) =~= Seq::<TokenV>::empty());
            assert(strings_view(old(self).diagnostics@) =~= Seq::<Seq<char>>::empty());
            assert(Seq::<TokenV>::empty() + scan_spec(old(self).source@).tokens =~= scan_spec(
                old(self).source@,
            ).tokens);
            assert(Seq::<Seq<char>>::empty() + diags_text(scan_spec(old(self).source@).diags)
                =~= diags_text(scan_spec(old(self).source@).diags));
        }
        while !self.is_at_end()
            invariant
                self.wf(),
                self.source == old(self).source,
                scan_spec(old(self).source@).tokens == tokens_view(self.tokens@) + scan_from(
                    self.source@,
                    self.current as nat,
                    self.line as nat,
                ).tokens,
                diags_text(scan_spec(old(self).source@).diags) == strings_view(self.diagnostics@)
                    + diags_text(
                    scan_from(self.source@, self.current as nat, self.line as nat).diags,
                ),
            decreases self.source@.len() - self.current,
        {
            self.start = self.current;
            let ghost pre = *self;
            self.scan_token();
            proof {
                let src = pre.source@;
                let i = pre.current as nat;
                let l = pre.line as nat;
                let step = scan_step(src, i, l);
                lemma_scan_step_bounds(src, i, l);
                assert(scan_from(src, i, l).tokens == opt_token_seq(step.token) + scan_from(
                    src,
                    step.next,
                    step.line,
                ).tokens);
                assert(scan_from(src, i, l).diags == opt_diag_seq(step.diag) + scan_from(
                    src,
                    step.next,
                    step.line,
                ).diags);
                lemma_diags_text_concat(
                    opt_diag_seq(step.diag),
                    scan_from(src, step.next, step.line).diags,
                );
                assert(tokens_view(self.tokens@) + scan_from(
                    src,
                    self.current as nat,
                    self.line as nat,
                ).tokens =~= (tokens_view(pre.tokens@) + opt_token_seq(step.token)) + scan_from(
                    src,
                    step.next,
                    step.line,
                ).tokens);
                assert(tokens_view(pre.tokens@) + (opt_token_seq(step.token) + scan_from(
                    src,
                    step.next,
                    step.line,
                ).tokens) =~= (tokens_view(pre.tokens@) + opt_token_seq(step.token)) + scan_from(
                    src,
                    step.next,
                    step.line,
                ).tokens);
                assert(strings_view(self.diagnostics@) + diags_text(
                    scan_from(src, self.current as nat, self.line as nat).diags,
                ) =~= (strings_view(pre.diagnostics@) + diags_text(opt_diag_seq(step.diag)))
                    + diags_text(scan_from(src, step.next, step.line).diags));
                assert(strings_view(pre.diagnostics@) + (diags_text(opt_diag_seq(step.diag))
                    + diags_text(scan_from(src, step.next, step.line).diags)) =~= (strings_view(
                    pre.diagnostics@,
                ) + diags_text(opt_diag_seq(step.diag))) + diags_text(
                    scan_from(src, step.next, step.line).diags,
                ));
            }
        }
        let eof = Token::new(TokenType::Eof, "", self.line);
        self.tokens.push(eof);
        proof {
            reveal_strlit("");
            assert(""@ =~= Seq::<char>::empty());
            let src = old(self).source@;
            let fin = scan_from(src, final(self).current as nat, final(self).line as nat);
            assert(fin.tokens =~= seq![eof@]);
            assert(tokens_view(final(self).tokens@) =~= scan_spec(src).tokens) by {
                lemma_tokens_view_push(final(self).tokens@.drop_last(), eof);
                assert(final(self).tokens@.drop_last().push(eof) =~= final(self).tokens@);
                assert(tokens_view(final(self).tokens@.drop_last()) + seq![eof@] =~= tokens_view(
                    final(self).tokens@.drop_last(),
                ).push(eof@));
            }
            assert(diags_text(fin.diags) =~= Seq::<Seq<char>>::empty());
            assert(strings_view(final(self).diagnostics@) + Seq::<Seq<char>>::empty()
                =~= strings_view(final(self).diagnostics@));
        }
        &self.tokens
    }
}

/// A character some scanning rule accepts as the start of a lexical
/// unit.
pub open spec fn recognized(c: char) -> bool {
    ||| c == '(' || c == ')' || c == '{' || c == '}' || c == ',' || c == '.' || c == '-' || c
        == '+' || c == ';' || c == '*'
    ||| c == '!' || c == '=' || c == '<' || c == '>' || c == '/'
    ||| c == ' ' || c == '\r' || c == '\t' || c == '\n'
    ||| c == '"'
    ||| digit(c)
    ||| ident_start(c)
}

/// Maximal munch (law): wherever one of `!`, `=`, `<`, `>` stands, the
/// scanner chooses the two-character category exactly when the very next
/// character is `=`, and consumes both characters exactly in that case.
pub proof fn lemma_maximal_munch(src: Seq<char>, i: nat, line: nat)
    requires
        i < src.len(),
        src[i as int] == '!' || src[i as int] == '=' || src[i as int] == '<' || src[i as int]
            == '>',
    ensures
        ({
            let step = scan_step(src, i, line);
            let two = i + 1 < src.len() && src[i + 1 as int] == '=';
            &&& step.token matches Some(t) && t.t_type == (if src[i as int] == '!' {
                if two {
                    TokenTypeV::BangEqual
                } else {
                    TokenTypeV::Bang
                }
            } else if src[i as int] == '=' {
                if two {
                    TokenTypeV::EqualEqual
                } else {
                    TokenTypeV::Equal
                }
            } else if src[i as int] == '<' {
                if two {
                    TokenTypeV::LessEqual
                } else {
                    TokenTypeV::Less
                }
            } else {
                if two {
                    TokenTypeV::GreaterEqual
                } else {
                    TokenTypeV::Greater
                }
            })
            &&& step.next == if two {
                i + 2
            } else {
                i + 1
            }
        }),
{
}

/// Determinism (law): scanning is a pure function of the source text;
/// a scanner holds no state across calls, so equal sources scan to equal
/// token sequences and equal diagnostics.
pub proof fn lemma_scan_deterministic(a: Seq<char>, b: Seq<char>)
    requires
        a == b,
    ensures
        scan_spec(a) == scan_spec(b),
{
}

/// No step emits the end-of-input sentinel: it comes only from the end
/// of the scan.
proof fn lemma_scan_step_token_not_eof(src: Seq<char>, i: nat, line: nat)
    requires
        i < src.len(),
    ensures
        scan_step(src, i, line).token matches Some(t) ==> !(t.t_type is Eof),
{
}

/// End-of-input sentinel (law): from any position, the token sequence is
/// non-empty, exactly its final element is the end-of-input token, and
/// that token's lexeme is empty.
pub proof fn lemma_scan_ends_eof(src: Seq<char>, i: nat, line: nat)
    ensures
        ({
            let r = scan_from(src, i, line);
            &&& r.tokens.len() > 0
            &&& r.tokens.last().t_type is Eof
            &&& r.tokens.last().lexeme.len() == 0
            &&& forall|j: int|
                0 <= j < r.tokens.len() - 1 ==> !(#[trigger] r.tokens[j].t_type is Eof)
        }),
    decreases src.len() - i,
{
    if i < src.len() {
        let step = scan_step(src, i, line);
        let r = scan_from(src, i, line);
        let rest = scan_from(src, step.next, step.line);
        lemma_scan_step_bounds(src, i, line);
        lemma_scan_step_token_not_eof(src, i, line);
        lemma_scan_ends_eof(src, step.next, step.line);
        assert(r.tokens == opt_token_seq(step.token) + rest.tokens);
        assert(r.tokens.last() == rest.tokens.last());
        assert forall|j: int|
            0 <= j < r.tokens.len() - 1 implies !(#[trigger] r.tokens[j].t_type is Eof) by {
            let k = opt_token_seq(step.token).len();
            if j < k {
                assert(r.tokens[j] == opt_token_seq(step.token)[j]);
            } else {
                assert(r.tokens[j] == rest.tokens[j - k]);
            }
        }
    }
}

/// The sentinel law at the whole-source entry: every emitted token
/// sequence ends, and only ends, with the zero-length end-of-input token.
pub proof fn lemma_scan_spec_ends_eof(src: Seq<char>)
    ensures
        ({
            let r = scan_spec(src);
            &&& r.tokens.len() > 0
            &&& r.tokens.last().t_type is Eof
            &&& r.tokens.last().lexeme.len() == 0
            &&& forall|j: int|
                0 <= j < r.tokens.len() - 1 ==> !(#[trigger] r.tokens[j].t_type is Eof)
        }),
{
    lemma_scan_ends_eof(src, 0, 1);
}

/// Unrecognized character (law): a character no rule recognizes yields
/// one diagnostic and no token, and scanning continues: the tokens are
/// exactly those of the remaining source.
pub proof fn lemma_unrecognized_char(src: Seq<char>, i: nat, line: nat)
    requires
        i < src.len(),
        !recognized(src[i as int]),
    ensures
        ({
            let step = scan_step(src, i, line);
            &&& step.token is None
            &&& step.next == i + 1
            &&& step.line == line
            &&& step.diag == Some(DiagV { line, message: "Unexpected character."@ })
            &&& scan_from(src, i, line).tokens == scan_from(src, i + 1, line).tokens
        }),
{
    let step = scan_step(src, i, line);
    assert(scan_from(src, i, line).tokens =~= scan_from(src, i + 1, line).tokens);
}

/// Unterminated string (law): a string literal with no closing quote
/// swallows the rest of the source, produces no String token -- the only
/// token left is the end-of-input sentinel -- and emits exactly the
/// unterminated-string diagnostic, tagged with the final line.
pub proof fn lemma_unterminated_string(src: Seq<char>, i: nat, line: nat)
    requires
        i < src.len(),
        src[i as int] == '"',
        close_quote(src, i + 1) is None,
    ensures
        ({
            let r = scan_from(src, i, line);
            let end_line = line + newlines(src.subrange(i + 1 as int, src.len() as int));
            &&& r.tokens == seq![
                TokenV { t_type: TokenTypeV::Eof, lexeme: Seq::empty(), line: end_line },
            ]
            &&& r.diags == seq![DiagV { line: end_line, message: "Unterminated string."@ }]
        }),
{
    let r = scan_from(src, i, line);
    let end_line = line + newlines(src.subrange(i + 1 as int, src.len() as int));
    let step = scan_step(src, i, line);
    assert(step.next == src.len());
    let rest = scan_from(src, src.len(), end_line);
    assert(rest.tokens == seq![
        TokenV { t_type: TokenTypeV::Eof, lexeme: Seq::empty(), line: end_line },
    ]);
    assert(r.tokens =~= seq![
        TokenV { t_type: TokenTypeV::Eof, lexeme: Seq::empty(), line: end_line },
    ]);
    assert(r.diags =~= seq![DiagV { line: end_line, message: "Unterminated string."@ }]);
}

/// Token line numbers (law): wherever the running line count equals one
/// plus the number of newlines strictly before the cursor, the token
/// emitted by the step at the cursor is tagged with exactly that count --
/// the line of the token's first character -- and the equality is carried
/// to the step's end, newlines inside string literals included.
pub proof fn lemma_token_lines(src: Seq<char>, i: nat, line: nat)
    requires
        i < src.len(),
        line == 1 + newlines(src.take(i as int)),
    ensures
        ({
            let step = scan_step(src, i, line);
            &&& (step.token matches Some(t) ==> t.line == 1 + newlines(src.take(i as int)))
            &&& step.line == 1 + newlines(src.take(step.next as int))
        }),
{
    let c = src[i as int];
    let step = scan_step(src, i, line);
    lemma_scan_step_bounds(src, i, line);
    lemma_lines_bridge(src, i, step.next);
    let span = src.subrange(i as int, step.next as int);
    if c == '"' {
        match close_quote(src, i + 1) {
            Some(q) => {
                lemma_close_quote_bounds(src, i + 1);
                let body = src.subrange(i + 1 as int, q as int);
                assert(span =~= seq![src[i as int]] + body + seq![src[q as int]]);
                lemma_newlines_concat(seq![src[i as int]] + body, seq![src[q as int]]);
                lemma_newlines_concat(seq![src[i as int]], body);
                lemma_newlines_zero(seq![src[i as int]]);
                lemma_newlines_zero(seq![src[q as int]]);
            },
            None => {
                let body = src.subrange(i + 1 as int, src.len() as int);
                assert(span =~= seq![src[i as int]] + body);
                lemma_newlines_concat(seq![src[i as int]], body);
                lemma_newlines_zero(seq![src[i as int]]);
            },
        }
    } else if c == '/' && i + 1 < src.len() && src[i + 1 as int] == '/' {
        lemma_comment_end_chars(src, i + 2);
        assert forall|j: int| 0 <= j < span.len() implies #[trigger] span[j] != '\n' by {
            assert(span[j] == src[i + j]);
        }
        lemma_newlines_zero(span);
    } else if digit(c) {
        let d1 = digits_end(src, i + 1);
        lemma_digits_end_bounds(src, i + 1);
        lemma_digits_end_chars(src, i + 1);
        if d1 < src.len() && src[d1 as int] == '.' && d1 + 1 < src.len() && digit(
            src[d1 + 1 as int],
        ) {
            lemma_digits_end_bounds(src, d1 + 1);
            lemma_digits_end_chars(src, d1 + 1);
        }
        assert forall|j: int| 0 <= j < span.len() implies #[trigger] span[j] != '\n' by {
            assert(span[j] == src[i + j]);
        }
        lemma_newlines_zero(span);
    } else if !(c == '(' || c == ')' || c == '{' || c == '}' || c == ',' || c == '.' || c == '-'
        || c == '+' || c == ';' || c == '*' || c == '!' || c == '=' || c == '<' || c == '>' || c
        == '/' || c == ' ' || c == '\r' || c == '\t' || c == '\n') && ident_start(c) {
        lemma_ident_end_bounds(src, i + 1);
        lemma_ident_end_chars(src, i + 1);
        assert forall|j: int| 0 <= j < span.len() implies #[trigger] span[j] != '\n' by {
            assert(span[j] == src[i + j]);
            if j > 0 {
                assert(ident_part(src[i + j]));
            }
        }
        lemma_newlines_zero(span);
    } else if c == '\n' {
        assert(span =~= seq!['\n']);
        assert(newlines(Seq::<char>::empty()) == 0);
        assert(seq!['\n'].drop_last() =~= Seq::<char>::empty());
        assert(newlines(seq!['\n']) == 1);
    } else {
        assert forall|j: int| 0 <= j < span.len() implies #[trigger] span[j] != '\n' by {
            assert(span[j] == src[i + j]);
        }
        lemma_newlines_zero(span);
    }
}

} // verus!
