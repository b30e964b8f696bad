//! Syntax tree of the PAC JavaScript subset, and its mathematical view.

use vstd::prelude::*;

verus! {

#[derive(Debug, Clone, Copy, PartialEq, Eq, Structural)]
pub enum BinOp {
    Add,
    Eq,
    NotEq,
    And,
    Or,
    Lt,
    Gt,
    Le,
    Ge,
}

#[derive(Debug)]
pub enum Expr {
    Str(String),
    /// A number literal, as written.
    Num(String),
    Bool(bool),
    Ident(String),
    Call(String, Vec<Expr>),
    Binary(BinOp, Box<Expr>, Box<Expr>),
    Not(Box<Expr>),
}

#[derive(Debug)]
pub enum Stmt {
    VarDecl(String, Option<Expr>),
    Assign(String, Expr),
    ExprStmt(Expr),
    If(Expr, Vec<Stmt>, Vec<Stmt>),
    Return(Option<Expr>),
}

#[derive(Debug)]
pub struct FunctionDecl {
    pub params: Vec<String>,
    pub body: Vec<Stmt>,
}

/// A parsed script: its `function` declarations in order (a later one
/// with the same name replaces an earlier one) and its top-level
/// statements, which seed the global scope.
#[derive(Debug)]
pub struct Program {
    pub functions: Vec<(String, FunctionDecl)>,
    pub globals: Vec<Stmt>,
}

// ---- Views ---------------------------------------------------------------------

pub enum ExprV {
    Str(Seq<char>),
    Num(Seq<char>),
    Bool(bool),
    Ident(Seq<char>),
    Call(Seq<char>, ArgsV),
    Binary(BinOp, Box<ExprV>, Box<ExprV>),
    Not(Box<ExprV>),
}

/// Call arguments, first to last.
pub enum ArgsV {
    Nil,
    Cons(Box<ExprV>, Box<ArgsV>),
}

pub enum StmtV {
    VarDecl(Seq<char>, Option<ExprV>),
    Assign(Seq<char>, ExprV),
    ExprStmt(ExprV),
    If(ExprV, StmtsV, StmtsV),
    Return(Option<ExprV>),
}

/// A block's statements, first to last.
pub enum StmtsV {
    Nil,
    Cons(Box<StmtV>, Box<StmtsV>),
}

pub struct FunctionV {
    pub params: Seq<Seq<char>>,
    pub body: StmtsV,
}

pub open spec fn expr_view(e: Expr) -> ExprV
    decreases e, 0int,
{
    match e {
        Expr::Str(s) => ExprV::Str(s@),
        Expr::Num(s) => ExprV::Num(s@),
        Expr::Bool(b) => ExprV::Bool(b),
        Expr::Ident(s) => ExprV::Ident(s@),
        Expr::Call(n, args) => ExprV::Call(n@, args_view(args, 0)),
        Expr::Binary(op, a, b) => ExprV::Binary(op, Box::new(expr_view(*a)), Box::new(expr_view(*b))),
        Expr::Not(a) => ExprV::Not(Box::new(expr_view(*a))),
    }
}

/// The arguments `args[i..]`.
pub open spec fn args_view(args: Vec<Expr>, i: int) -> ArgsV
    decreases args, args.len() - i,
{
    if 0 <= i < args.len() {
        ArgsV::Cons(Box::new(expr_view(args@[i])), Box::new(args_view(args, i + 1)))
    } else {
        ArgsV::Nil
    }
}

pub open spec fn opt_expr_view(e: Option<Expr>) -> Option<ExprV> {
    match e {
        Some(x) => Some(expr_view(x)),
        None => None,
    }
}

pub open spec fn stmt_view(s: Stmt) -> StmtV
    decreases s, 0int,
{
    match s {
        Stmt::VarDecl(n, e) => StmtV::VarDecl(n@, opt_expr_view(e)),
        Stmt::Assign(n, e) => StmtV::Assign(n@, expr_view(e)),
        Stmt::ExprStmt(e) => StmtV::ExprStmt(expr_view(e)),
        Stmt::If(c, t, f) => StmtV::If(expr_view(c), stmts_view(t, 0), stmts_view(f, 0)),
        Stmt::Return(e) => StmtV::Return(opt_expr_view(e)),
    }
}

/// The statements `v[i..]`.
pub open spec fn stmts_view(v: Vec<Stmt>, i: int) -> StmtsV
    decreases v, v.len() - i,
{
    if 0 <= i < v.len() {
        StmtsV::Cons(Box::new(stmt_view(v@[i])), Box::new(stmts_view(v, i + 1)))
    } else {
        StmtsV::Nil
    }
}

pub open spec fn function_view(f: FunctionDecl) -> FunctionV {
    FunctionV { params: f.params@.map_values(|p: String| p@), body: stmts_view(f.body, 0) }
}

/// `acc` (in order) followed by the statements of `rest`.
pub open spec fn stmts_cons_all(acc: Seq<StmtV>, rest: StmtsV) -> StmtsV
    decreases acc.len(),
{
    if acc.len() == 0 {
        rest
    } else {
        StmtsV::Cons(Box::new(acc[0]), Box::new(stmts_cons_all(acc.drop_first(), rest)))
    }
}

pub proof fn lemma_stmts_cons_all_push(acc: Seq<StmtV>, s: StmtV, rest: StmtsV)
    ensures
        stmts_cons_all(acc, StmtsV::Cons(Box::new(s), Box::new(rest))) == stmts_cons_all(
            acc.push(s),
            rest,
        ),
    decreases acc.len(),
{
    if acc.len() > 0 {
        lemma_stmts_cons_all_push(acc.drop_first(), s, rest);
        assert(acc.push(s).drop_first() =~= acc.drop_first().push(s));
        assert(acc.push(s)[0] == acc[0]);
    } else {
        assert(acc.push(s).drop_first() =~= Seq::<StmtV>::empty());
        assert(acc.push(s)[0] == s);
        assert(stmts_cons_all(Seq::<StmtV>::empty(), rest) == rest);
    }
}

pub proof fn lemma_stmts_view_all(v: Vec<Stmt>, i: int)
    requires
        0 <= i <= v.len(),
    ensures
        stmts_view(v, i) == stmts_cons_all(
            v@.subrange(i, v.len() as int).map_values(|s: Stmt| stmt_view(s)),
            StmtsV::Nil,
        ),
    decreases v.len() - i,
{
    let tail = v@.subrange(i, v.len() as int).map_values(|s: Stmt| stmt_view(s));
    if i < v.len() {
        lemma_stmts_view_all(v, i + 1);
        assert(tail.drop_first() =~= v@.subrange(i + 1, v.len() as int).map_values(
            |s: Stmt| stmt_view(s),
        ));
    } else {
        assert(tail.len() == 0);
    }
}

pub proof fn lemma_args_view_cons(e: Expr, rest: Vec<Expr>, v: Vec<Expr>, i: int)
    requires
        v@ == seq![e] + rest@,
        0 <= i <= rest.len(),
    ensures
        args_view(v, i + 1) == args_view(rest, i),
    decreases rest.len() - i,
{
    if i < rest.len() {
        lemma_args_view_cons(e, rest, v, i + 1);
        assert(v@[i + 1] == rest@[i]);
    }
}

} // verus!
