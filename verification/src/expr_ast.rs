//! The expression tree, the visitor protocol, and the canonical printer.
//!
//! The tree is a closed sum type; every node owns its children, so a value
//! is always a strict tree.  Algorithms traverse it through the `Visitor`
//! protocol: `Expr::accept` dispatches on the variant and invokes the one
//! visitor method for it.  `AstPrinter` is the reference visitor; it
//! renders a fully parenthesized prefix form, specified exactly by
//! `render`.

use vstd::prelude::*;
use vstd::string::StrSliceExecFns;
use vstd::string::StringExecFns;

use crate::error::Error;
use crate::token::Token;
use crate::token::TokenV;

verus! {

/// An expression node.  The grammar of this crate only constructs
/// `Binary`, `Unary`, `Literal` and `Grouping`; the remaining variants are
/// reachable data shapes reserved for a statement-level grammar.
#[derive(Debug)]
pub enum Expr {
    Assign { name: Token, val: Box<Expr> },
    Binary { lhs: Box<Expr>, op: Token, rhs: Box<Expr> },
    Call { callee: Box<Expr>, paren: Token, arg: Vec<Expr> },
    Get { obj: Box<Expr>, name: Token },
    Grouping { expr: Box<Expr> },
    Literal { val: LiteralValue },
    Logical { lhs: Box<Expr>, op: Token, rhs: Box<Expr> },
    SetProperty { obj: Box<Expr>, name: Token, val: Box<Expr> },
    Super { keywd: Token, method: Token },
    This { keywd: Token },
    Unary { op: Token, rhs: Box<Expr> },
    Variable { name: Token },
}

/// A literal value.  A numeric literal keeps its decimal source text.
#[derive(Debug, Clone)]
pub enum LiteralValue {
    Number(String),
    String(String),
    Boolean(bool),
    Nil,
}

/// The mathematical model of an expression tree.
pub enum ExprV {
    Assign { name: TokenV, val: Box<ExprV> },
    Binary { lhs: Box<ExprV>, op: TokenV, rhs: Box<ExprV> },
    Call { callee: Box<ExprV>, paren: TokenV, arg: Seq<ExprV> },
    Get { obj: Box<ExprV>, name: TokenV },
    Grouping { expr: Box<ExprV> },
    Literal { val: LiteralValueV },
    Logical { lhs: Box<ExprV>, op: TokenV, rhs: Box<ExprV> },
    SetProperty { obj: Box<ExprV>, name: TokenV, val: Box<ExprV> },
    Super { keywd: TokenV, method: TokenV },
    This { keywd: TokenV },
    Unary { op: TokenV, rhs: Box<ExprV> },
    Variable { name: TokenV },
}

/// The mathematical model of a literal value.
pub enum LiteralValueV {
    Number(Seq<char>),
    String(Seq<char>),
    Boolean(bool),
    Nil,
}

impl View for LiteralValue {
    type V = LiteralValueV;

    open spec fn view(&self) -> LiteralValueV {
        match self {
            LiteralValue::Number(t) => LiteralValueV::Number(t@),
            LiteralValue::String(s) => LiteralValueV::String(s@),
            LiteralValue::Boolean(b) => LiteralValueV::Boolean(*b),
            LiteralValue::Nil => LiteralValueV::Nil,
        }
    }
}

/// The model of one expression node and, recursively, of its children.
pub open spec fn expr_view(e: Expr) -> ExprV
    decreases e,
{
    match e {
        Expr::Assign { name, val } => ExprV::Assign {
            name: name@,
            val: Box::new(expr_view(*val)),
        },
        Expr::Binary { lhs, op, rhs } => ExprV::Binary {
            lhs: Box::new(expr_view(*lhs)),
            op: op@,
            rhs: Box::new(expr_view(*rhs)),
        },
        Expr::Call { callee, paren, arg } => ExprV::Call {
            callee: Box::new(expr_view(*callee)),
            paren: paren@,
            arg: exprs_view(arg@),
        },
        Expr::Get { obj, name } => ExprV::Get { obj: Box::new(expr_view(*obj)), name: name@ },
        Expr::Grouping { expr } => ExprV::Grouping { expr: Box::new(expr_view(*expr)) },
        Expr::Literal { val } => ExprV::Literal { val: val@ },
        Expr::Logical { lhs, op, rhs } => ExprV::Logical {
            lhs: Box::new(expr_view(*lhs)),
            op: op@,
            rhs: Box::new(expr_view(*rhs)),
        },
        Expr::SetProperty { obj, name, val } => ExprV::SetProperty {
            obj: Box::new(expr_view(*obj)),
            name: name@,
            val: Box::new(expr_view(*val)),
        },
        Expr::Super { keywd, method } => ExprV::Super { keywd: keywd@, method: method@ },
        Expr::This { keywd } => ExprV::This { keywd: keywd@ },
        Expr::Unary { op, rhs } => ExprV::Unary { op: op@, rhs: Box::new(expr_view(*rhs)) },
        Expr::Variable { name } => ExprV::Variable { name: name@ },
    }
}

/// The models of a list of expression nodes, in order.
pub open spec fn exprs_view(es: Seq<Expr>) -> Seq<ExprV>
    decreases es,
{
    if es.len() == 0 {
        Seq::empty()
    } else {
        seq![expr_view(es[0])] + exprs_view(es.drop_first())
    }
}

impl View for Expr {
    type V = ExprV;

    open spec fn view(&self) -> ExprV {
        expr_view(*self)
    }
}

/// The canonical text of a literal value.
pub open spec fn lit_text(v: LiteralValueV) -> Seq<char> {
    match v {
        LiteralValueV::Number(t) => t,
        LiteralValueV::String(s) => s,
        LiteralValueV::Boolean(b) => if b {
            "true"@
        } else {
            "false"@
        },
        LiteralValueV::Nil => "nil"@,
    }
}

/// Wraps one rendered operand: `(<tag> <inner>)`.
pub open spec fn wrap1(tag: Seq<char>, inner: Result<Seq<char>, TokenV>) -> Result<
    Seq<char>,
    TokenV,
> {
    match inner {
        Ok(s) => Ok("("@ + tag + " "@ + s + ")"@),
        Err(t) => Err(t),
    }
}

/// Wraps two rendered operands: `(<tag> <first> <second>)`.  A failure in
/// the first operand wins.
pub open spec fn wrap2(
    tag: Seq<char>,
    first: Result<Seq<char>, TokenV>,
    second: Result<Seq<char>, TokenV>,
) -> Result<Seq<char>, TokenV> {
    match first {
        Ok(s1) => match second {
            Ok(s2) => Ok("("@ + tag + " "@ + s1 + " "@ + s2 + ")"@),
            Err(t) => Err(t),
        },
        Err(t) => Err(t),
    }
}

/// The canonical fully parenthesized rendering of a tree, or the paren
/// marker of the first `Call` node met in traversal order: printing a call
/// expression is not supported by this core.
pub open spec fn render(e: ExprV) -> Result<Seq<char>, TokenV>
    decreases e,
{
    match e {
        ExprV::Assign { name, val } => wrap1(name.lexeme, render(*val)),
        ExprV::Binary { lhs, op, rhs } => wrap2(op.lexeme, render(*lhs), render(*rhs)),
        ExprV::Call { callee: _, paren, arg: _ } => Err(paren),
        ExprV::Get { obj, name } => wrap1(name.lexeme, render(*obj)),
        ExprV::Grouping { expr } => wrap1("group"@, render(*expr)),
        ExprV::Literal { val } => Ok(lit_text(val)),
        ExprV::Logical { lhs, op, rhs } => wrap2(op.lexeme, render(*lhs), render(*rhs)),
        ExprV::SetProperty { obj, name, val } => wrap2(name.lexeme, render(*obj), render(*val)),
        ExprV::Super { keywd: _, method: _ } => Ok("super"@),
        ExprV::This { keywd: _ } => Ok("this"@),
        ExprV::Unary { op, rhs } => wrap1(op.lexeme, render(*rhs)),
        ExprV::Variable { name } => Ok(name.lexeme),
    }
}

/// The message attached to the error for an unprintable node.
pub open spec fn unsupported_text() -> Seq<char> {
    "Unsupported construct."@
}

/// A visitor is a capability set: one method per node variant, each taking
/// the variant's fields and yielding a result of the visitor's chosen
/// type.  Only the literal method never recurses, so it alone takes the
/// visitor immutably.
pub trait Visitor<T> {
    fn visit_assign_expr(&mut self, name: &Token, val: &Expr) -> Result<T, Error>;

    fn visit_binary_expr(&mut self, lhs: &Expr, op: &Token, rhs: &Expr) -> Result<T, Error>;

    fn visit_call_expr(&mut self, callee: &Expr, paren: &Token, arg: &[Expr]) -> Result<T, Error>;

    fn visit_get_expr(&mut self, obj: &Expr, name: &Token) -> Result<T, Error>;

    fn visit_grouping_expr(&mut self, expr: &Expr) -> Result<T, Error>;

    fn visit_literal_expr(&self, val: &LiteralValue) -> Result<T, Error>;

    fn visit_logical_expr(&mut self, lhs: &Expr, op: &Token, rhs: &Expr) -> Result<T, Error>;

    fn visit_set_expr(&mut self, obj: &Expr, name: &Token, val: &Expr) -> Result<T, Error>;

    fn visit_super_expr(&mut self, keywd: &Token, method: &Token) -> Result<T, Error>;

    fn visit_this_expr(&mut self, keywd: &Token) -> Result<T, Error>;

    fn visit_unary_expr(&mut self, op: &Token, rhs: &Expr) -> Result<T, Error>;

    fn visit_variable_expr(&mut self, name: &Token) -> Result<T, Error>;
}

impl Expr {
    /// Double dispatch: matches the variant once and invokes the one
    /// visitor method for it, passing the fields by reference and
    /// returning whatever that method returns.
    pub fn accept<T, V: Visitor<T>>(&self, v: &mut V) -> Result<T, Error> {
        match self {
            Expr::Assign { name, val } => v.visit_assign_expr(name, val),
            Expr::Binary { lhs, op, rhs } => v.visit_binary_expr(lhs, op, rhs),
            Expr::Call { callee, paren, arg } => v.visit_call_expr(callee, paren, arg.as_slice()),
            Expr::Get { obj, name } => v.visit_get_expr(obj, name),
            Expr::Grouping { expr } => v.visit_grouping_expr(expr),
            Expr::Literal { val } => v.visit_literal_expr(val),
            Expr::Logical { lhs, op, rhs } => v.visit_logical_expr(lhs, op, rhs),
            Expr::SetProperty { obj, name, val } => v.visit_set_expr(obj, name, val),
            Expr::Super { keywd, method } => v.visit_super_expr(keywd, method),
            Expr::This { keywd } => v.visit_this_expr(keywd),
            Expr::Unary { op, rhs } => v.visit_unary_expr(op, rhs),
            Expr::Variable { name } => v.visit_variable_expr(name),
        }
    }
}

impl LiteralValue {
    /// The canonical text of this literal.
    pub fn text(&self) -> (r: String)
        ensures
            r@ == lit_text(self@),
    {
        match self {
            LiteralValue::Number(t) => t.clone(),
            LiteralValue::String(s) => s.clone(),
            LiteralValue::Boolean(b) => if *b {
                "true".to_owned()
            } else {
                "false".to_owned()
            },
            LiteralValue::Nil => "nil".to_owned(),
        }
    }
}

/// Joins `(<tag> <inner>)`.
fn join1(tag: &String, inner: &String) -> (out: String)
    ensures
        out@ == "("@ + tag@ + " "@ + inner@ + ")"@,
{
    let mut out = "(".to_owned();
    out.append(tag.as_str());
    out.append(" ");
    out.append(inner.as_str());
    out.append(")");
    proof {
        assert(out@ =~= "("@ + tag@ + " "@ + inner@ + ")"@);
    }
    out
}

/// Joins `(<tag> <first> <second>)`.
fn join2(tag: &String, first: &String, second: &String) -> (out: String)
    ensures
        out@ == "("@ + tag@ + " "@ + first@ + " "@ + second@ + ")"@,
{
    let mut out = "(".to_owned();
    out.append(tag.as_str());
    out.append(" ");
    out.append(first.as_str());
    out.append(" ");
    out.append(second.as_str());
    out.append(")");
    proof {
        assert(out@ =~= "("@ + tag@ + " "@ + first@ + " "@ + second@ + ")"@);
    }
    out
}

/// Renders one tree to its canonical text, exactly as `render` states, or
/// fails on the first `Call` node met.
fn render_expr(e: &Expr) -> (r: Result<String, Error>)
    ensures
        match render(e@) {
            Ok(s) => r matches Ok(out) && out@ == s,
            Err(t) => r matches Err(err) && (err matches Error::Runtime { token, message }
                && token@ == t && message@ == unsupported_text()),
        },
    decreases *e,
{
    match e {
        Expr::Assign { name, val } => match render_expr(val) {
            Ok(s) => Ok(join1(&name.lexeme, &s)),
            Err(err) => Err(err),
        },
        Expr::Binary { lhs, op, rhs } => match render_expr(lhs) {
            Ok(s1) => match render_expr(rhs) {
                Ok(s2) => Ok(join2(&op.lexeme, &s1, &s2)),
                Err(err) => Err(err),
            },
            Err(err) => Err(err),
        },
        Expr::Call { callee: _, paren, arg: _ } => Err(
            Error::Runtime {
                token: paren.duplicate(),
                message: "Unsupported construct.".to_owned(),
            },
        ),
        Expr::Get { obj, name } => match render_expr(obj) {
            Ok(s) => Ok(join1(&name.lexeme, &s)),
            Err(err) => Err(err),
        },
        Expr::Grouping { expr } => match render_expr(expr) {
            Ok(s) => Ok(join1(&"group".to_owned(), &s)),
            Err(err) => Err(err),
        },
        Expr::Literal { val } => Ok(val.text()),
        Expr::Logical { lhs, op, rhs } => match render_expr(lhs) {
            Ok(s1) => match render_expr(rhs) {
                Ok(s2) => Ok(join2(&op.lexeme, &s1, &s2)),
                Err(err) => Err(err),
            },
            Err(err) => Err(err),
        },
        Expr::SetProperty { obj, name, val } => match render_expr(obj) {
            Ok(s1) => match render_expr(val) {
                Ok(s2) => Ok(join2(&name.lexeme, &s1, &s2)),
                Err(err) => Err(err),
            },
            Err(err) => Err(err),
        },
        Expr::Super { keywd: _, method: _ } => Ok("super".to_owned()),
        Expr::This { keywd: _ } => Ok("this".to_owned()),
        Expr::Unary { op, rhs } => match render_expr(rhs) {
            Ok(s) => Ok(join1(&op.lexeme, &s)),
            Err(err) => Err(err),
        },
        Expr::Variable { name } => Ok(name.lexeme.clone()),
    }
}

/// The reference visitor: renders a tree to its fully parenthesized
/// canonical form.
pub struct AstPrinter;

impl AstPrinter {
    /// Renders the tree, or fails with the unsupported-construct error on
    /// the first `Call` node met in traversal order.
    pub fn print(&mut self, expr: Expr) -> (r: Result<String, Error>)
        ensures
            match render(expr@) {
                Ok(s) => r matches Ok(out) && out@ == s,
                Err(t) => r matches Err(err) && (err matches Error::Runtime { token, message }
                    && token@ == t && message@ == unsupported_text()),
            },
    {
        render_expr(&expr)
    }

    /// Joins the renderings of `exprs` after `name`, all parenthesized.
    fn parenthesize(&mut self, name: String, exprs: Vec<&Expr>) -> (r: Result<String, Error>) {
        let mut out = "(".to_owned();
        out.append(name.as_str());
        let mut i: usize = 0;
        while i < exprs.len()
            decreases exprs.len() - i,
        {
            out.append(" ");
            match render_expr(exprs[i]) {
                Ok(s) => out.append(s.as_str()),
                Err(err) => {
                    return Err(err);
                },
            }
            i = i + 1;
        }
        out.append(")");
        Ok(out)
    }
}

impl Visitor<String> for AstPrinter {
    fn visit_assign_expr(&mut self, name: &Token, val: &Expr) -> Result<String, Error> {
        self.parenthesize(name.lexeme.clone(), vec![val])
    }

    fn visit_binary_expr(&mut self, lhs: &Expr, op: &Token, rhs: &Expr) -> Result<String, Error> {
        self.parenthesize(op.lexeme.clone(), vec![lhs, rhs])
    }

    fn visit_call_expr(&mut self, _callee: &Expr, paren: &Token, _arg: &[Expr]) -> Result<
        String,
        Error,
    > {
        Err(Error::Runtime { token: paren.duplicate(), message: "Unsupported construct.".to_owned() })
    }

    fn visit_get_expr(&mut self, obj: &Expr, name: &Token) -> Result<String, Error> {
        self.parenthesize(name.lexeme.clone(), vec![obj])
    }

    fn visit_grouping_expr(&mut self, expr: &Expr) -> Result<String, Error> {
        self.parenthesize("group".to_owned(), vec![expr])
    }

    fn visit_literal_expr(&self, val: &LiteralValue) -> Result<String, Error> {
        Ok(val.text())
    }

    fn visit_logical_expr(&mut self, lhs: &Expr, op: &Token, rhs: &Expr) -> Result<String, Error> {
        self.parenthesize(op.lexeme.clone(), vec![lhs, rhs])
    }

    fn visit_set_expr(&mut self, obj: &Expr, name: &Token, val: &Expr) -> Result<String, Error> {
        self.parenthesize(name.lexeme.clone(), vec![obj, val])
    }

    fn visit_super_expr(&mut self, _keywd: &Token, _method: &Token) -> Result<String, Error> {
        Ok("super".to_owned())
    }

    fn visit_this_expr(&mut self, _keywd: &Token) -> Result<String, Error> {
        Ok("this".to_owned())
    }

    fn visit_unary_expr(&mut self, op: &Token, rhs: &Expr) -> Result<String, Error> {
        self.parenthesize(op.lexeme.clone(), vec![rhs])
    }

    fn visit_variable_expr(&mut self, name: &Token) -> Result<String, Error> {
        Ok(name.lexeme.clone())
    }
}

} // verus!
